//! Mutual exclusion in two flavors: a blocking mutex whose contenders are
//! suspended on a FIFO wait queue, and a spin flavor that never blocks and
//! instead yields the processor between attempts.
//!
//! At most one task holds a lock at any time: the holder is a single
//! `Option`, held exactly while the lock is locked. On `unlock`, ownership
//! is handed directly to the head of the wait queue (which is woken), or
//! the lock becomes free if nobody waits — so no wakeup is ever lost.

use vstd::prelude::*;

verus! {

use crate::kernel::Kernel;
use crate::task::TaskControlBlock;
use crate::task::TaskStatus;

/// One unlock of a blocking mutex: with waiters, ownership passes to the
/// head of the queue; without, the lock becomes free.
pub open spec fn unlock_step(queue: Seq<usize>, holder: Option<usize>) -> (Seq<usize>, Option<
    usize,
>) {
    if queue.len() == 0 {
        (queue, None)
    } else {
        (queue.drop_first(), Some(queue[0]))
    }
}

/// The wait queue and holder after `n` unlocks, each issued by the then
/// holder.
pub open spec fn after_unlocks(queue: Seq<usize>, holder: Option<usize>, n: nat) -> (Seq<usize>,
    Option<usize>)
    decreases n,
{
    if n == 0 {
        (queue, holder)
    } else {
        let stepped = unlock_step(queue, holder);
        after_unlocks(stepped.0, stepped.1, (n - 1) as nat)
    }
}

/// No lost wakeup: whatever task waits at position `i` of the queue holds
/// the lock after exactly `i + 1` unlocks — every waiter is reached, in
/// FIFO order, by the matching number of unlocks of the holders before it.
pub proof fn lemma_unlock_reaches_waiter(queue: Seq<usize>, holder: Option<usize>, i: int)
    requires
        0 <= i < queue.len(),
    ensures
        after_unlocks(queue, holder, (i + 1) as nat).1 == Some(queue[i]),
    decreases i,
{
    assert(after_unlocks(queue, holder, (i + 1) as nat) == after_unlocks(
        queue.drop_first(),
        Some(queue[0]),
        i as nat,
    ));
    if i > 0 {
        lemma_unlock_reaches_waiter(queue.drop_first(), Some(queue[0]), i - 1);
        assert(queue.drop_first()[i - 1] == queue[i]);
    }
}

/// The blocking mutex: a lock flag, the FIFO wait queue of suspended
/// contenders, and (ghost, for the contracts) the identity of the holder.
pub struct MutexBlocking {
    /// Whether the lock is held.
    pub locked: bool,
    /// Tasks suspended waiting for the lock, FIFO.
    pub wait_queue: Vec<usize>,
    /// The task holding the lock; `Some` exactly while `locked`.
    pub holder: Ghost<Option<usize>>,
}

impl MutexBlocking {
    /// The mutex is consistent against kernel `k`: the lock is held exactly
    /// when a holder is recorded, and every waiter is a valid, `Blocked`
    /// task queued only once.
    pub open spec fn wf_in(self, k: Kernel) -> bool {
        &&& (self.locked <==> self.holder@ is Some)
        &&& (self.holder@ matches Some(h) ==> h < k.tasks@.len())
        &&& forall|i: int| 0 <= i < self.wait_queue@.len() ==> (#[trigger] self.wait_queue@[i])
            < k.tasks@.len() && k.tasks@[self.wait_queue@[i] as int].task_status
            == TaskStatus::Blocked
        &&& forall|i: int, j: int| 0 <= i < j < self.wait_queue@.len() ==> self.wait_queue@[i]
            != self.wait_queue@[j]
    }

    /// A new, free mutex.
    pub fn new() -> (r: MutexBlocking)
        ensures
            !r.locked,
            r.wait_queue@ == Seq::<usize>::empty(),
            r.holder@ is None,
            forall|k: Kernel| r.wf_in(k),
    {
        MutexBlocking { locked: false, wait_queue: Vec::new(), holder: Ghost(None) }
    }

    /// Acquire the lock: immediately if it is free, otherwise the caller is
    /// enqueued at the tail of the wait queue and suspended. Locking a
    /// mutex the caller already holds would deadlock the hart; the
    /// precondition excludes it.
    pub fn lock(&mut self, k: &mut Kernel)
        requires
            old(k).wf(),
            old(self).wf_in(*old(k)),
            old(k).current is Some,
            old(self).holder@ != Some(old(k).current.unwrap()),
        ensures
            final(k).wf(),
            final(self).wf_in(*final(k)),
            if !old(self).locked {
                &&& final(self).locked
                &&& final(self).holder@ == Some(old(k).current.unwrap())
                &&& final(self).wait_queue@ == old(self).wait_queue@
                &&& *final(k) == *old(k)
            } else {
                &&& final(self).locked
                &&& final(self).holder@ == old(self).holder@
                &&& final(self).wait_queue@ == old(self).wait_queue@.push(
                    old(k).current.unwrap(),
                )
                &&& Kernel::blocked_and_ran_next(*old(k), *final(k))
            },
    {
        if !self.locked {
            self.locked = true;
            proof {
                self.holder@ = Some(k.current.unwrap());
            }
        } else {
            let cur = k.current_task().unwrap();
            proof {
                if old(self).wait_queue@.contains(cur) {
                    let i = choose|i: int| 0 <= i < old(self).wait_queue@.len() && old(
                        self,
                    ).wait_queue@[i] == cur;
                    assert(old(k).tasks@[cur as int].task_status == TaskStatus::Blocked);
                    assert(old(k).tasks@[cur as int].task_status == TaskStatus::Running);
                }
            }
            self.wait_queue.push(cur);
            k.block_current_and_run_next();
            proof {
                let pre = *old(k);
                assert forall|i: int| 0 <= i < self.wait_queue@.len() implies (
                #[trigger] self.wait_queue@[i]) < k.tasks@.len() && k.tasks@[self.wait_queue@[i] as int].task_status
                    == TaskStatus::Blocked by {
                    if i < old(self).wait_queue@.len() {
                        assert(pre.tasks@[self.wait_queue@[i] as int].task_status
                            == TaskStatus::Blocked);
                        if pre.ready().len() > 0 {
                            assert(pre.tasks@[pre.ready()[0] as int].task_status
                                == TaskStatus::Ready);
                            assert(self.wait_queue@[i] != pre.ready()[0]);
                        }
                    }
                }
            }
        }
    }

    /// Release the lock, which the caller holds: ownership is handed
    /// directly to the head of the wait queue, which is woken, or the lock
    /// becomes free when nobody waits.
    pub fn unlock(&mut self, k: &mut Kernel)
        requires
            old(k).wf(),
            old(self).wf_in(*old(k)),
            old(self).locked,
            old(k).current is Some,
            old(self).holder@ == Some(old(k).current.unwrap()),
        ensures
            final(k).wf(),
            final(self).wf_in(*final(k)),
            (final(self).wait_queue@, final(self).holder@) == unlock_step(
                old(self).wait_queue@,
                old(self).holder@,
            ),
            final(self).locked == (old(self).wait_queue@.len() > 0),
            if old(self).wait_queue@.len() > 0 {
                let h = old(self).wait_queue@[0];
                &&& final(k).tasks@ == old(k).tasks@.update(
                    h as int,
                    (TaskControlBlock {
                        task_status: TaskStatus::Ready,
                        ..old(k).tasks@[h as int]
                    }),
                )
                &&& final(k).ready() == old(k).ready().push(h)
                &&& final(k).current == old(k).current
                &&& Kernel::same_procs(*old(k), *final(k))
                &&& Kernel::same_timers(*old(k), *final(k))
                &&& Kernel::same_hw(*old(k), *final(k))
            } else {
                *final(k) == *old(k)
            },
    {
        if self.wait_queue.len() > 0 {
            let h = self.wait_queue.remove(0);
            proof {
                self.holder@ = Some(h);
            }
            k.wakeup_task(h);
            proof {
                assert forall|i: int| 0 <= i < self.wait_queue@.len() implies (
                #[trigger] self.wait_queue@[i]) < k.tasks@.len()
                    && k.tasks@[self.wait_queue@[i] as int].task_status
                    == TaskStatus::Blocked by {
                    assert(self.wait_queue@[i] == old(self).wait_queue@[i + 1]);
                    assert(old(self).wait_queue@[i + 1] != h);
                }
            }
        } else {
            self.locked = false;
            proof {
                self.holder@ = None;
            }
        }
    }
}

/// The spin flavor: it never suspends its caller on a wait queue, and so
/// can be used where blocking is structurally unsafe. An acquisition
/// attempt on a busy lock yields the processor; the caller retries when it
/// is scheduled again.
pub struct MutexSpin {
    /// Whether the lock is held.
    pub locked: bool,
}

impl MutexSpin {
    /// A new, free spin lock.
    pub fn new() -> (r: MutexSpin)
        ensures
            !r.locked,
    {
        MutexSpin { locked: false }
    }

    /// One acquisition attempt: take the lock if free (returns true), else
    /// yield the processor and report failure; the caller loops until it
    /// succeeds.
    pub fn lock(&mut self, k: &mut Kernel) -> (acquired: bool)
        requires
            old(k).wf(),
            old(k).current is Some,
        ensures
            final(k).wf(),
            acquired == !old(self).locked,
            final(self).locked,
            if acquired {
                *final(k) == *old(k)
            } else {
                ({
                    let cur = old(k).current.unwrap();
                    let q = old(k).ready().push(cur);
                    &&& final(k).current == Some(q[0])
                    &&& final(k).ready() == q.drop_first()
                    &&& final(k).tasks@ == old(k).tasks@.update(
                        cur as int,
                        (TaskControlBlock {
                            task_status: TaskStatus::Ready,
                            ..old(k).tasks@[cur as int]
                        }),
                    ).update(
                        q[0] as int,
                        (TaskControlBlock {
                            task_status: TaskStatus::Running,
                            ..old(k).tasks@[q[0] as int]
                        }),
                    )
                    &&& Kernel::same_procs(*old(k), *final(k))
                    &&& Kernel::same_timers(*old(k), *final(k))
                    &&& Kernel::same_hw(*old(k), *final(k))
                })
            },
    {
        if !self.locked {
            self.locked = true;
            true
        } else {
            k.suspend_current_and_run_next();
            false
        }
    }

    /// Release the lock.
    pub fn unlock(&mut self)
        ensures
            !final(self).locked,
    {
        self.locked = false;
    }
}

} // verus!
