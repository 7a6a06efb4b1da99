//! The condition variable: no state beyond its FIFO wait queue. Signals
//! are not remembered — a `signal` with no waiter is a no-op, and one with
//! waiters wakes exactly the head of the queue.

use vstd::prelude::*;

verus! {

use crate::kernel::Kernel;
use crate::mutex::MutexBlocking;
use crate::task::TaskControlBlock;
use crate::task::TaskStatus;

/// No task id occurs in both sequences.
pub open spec fn disjoint_queues(a: Seq<usize>, b: Seq<usize>) -> bool {
    forall|i: int, j: int| 0 <= i < a.len() && 0 <= j < b.len() ==> a[i] != b[j]
}

/// Condition variable inner state: the wait queue.
pub struct CondvarInner {
    /// Tasks suspended in a wait, FIFO; the queue order is the wake order.
    pub wait_queue: Vec<usize>,
}

/// Condition variable structure.
pub struct Condvar {
    /// Condition variable inner state.
    pub inner: CondvarInner,
}

impl Condvar {
    /// The condition variable is consistent against kernel `k`: every
    /// waiter is a valid, `Blocked` task queued only once.
    pub open spec fn wf_in(self, k: Kernel) -> bool {
        &&& forall|i: int| 0 <= i < self.inner.wait_queue@.len() ==> (
        #[trigger] self.inner.wait_queue@[i]) < k.tasks@.len()
            && k.tasks@[self.inner.wait_queue@[i] as int].task_status == TaskStatus::Blocked
        &&& forall|i: int, j: int| 0 <= i < j < self.inner.wait_queue@.len()
            ==> self.inner.wait_queue@[i] != self.inner.wait_queue@[j]
    }

    /// Create a new condition variable.
    pub fn new() -> (r: Condvar)
        ensures
            r.inner.wait_queue@ == Seq::<usize>::empty(),
            forall|k: Kernel| r.wf_in(k),
    {
        Condvar { inner: CondvarInner { wait_queue: Vec::new() } }
    }

    /// Signal a task waiting on the condition variable: wake exactly the
    /// head of the wait queue. A signal with an empty queue is a no-op —
    /// nothing is remembered and no task is marked ready.
    pub fn signal(&mut self, k: &mut Kernel)
        requires
            old(k).wf(),
            old(self).wf_in(*old(k)),
        ensures
            final(k).wf(),
            final(self).wf_in(*final(k)),
            if old(self).inner.wait_queue@.len() > 0 {
                let h = old(self).inner.wait_queue@[0];
                &&& final(self).inner.wait_queue@ == old(self).inner.wait_queue@.drop_first()
                &&& final(k).tasks@ == old(k).tasks@.update(
                    h as int,
                    (TaskControlBlock {
                        task_status: TaskStatus::Ready,
                        ..old(k).tasks@[h as int]
                    }),
                )
                &&& final(k).ready() == old(k).ready().push(h)
                &&& final(k).current == old(k).current
                &&& Kernel::same_procs(*old(k), *final(k))
                &&& Kernel::same_timers(*old(k), *final(k))
                &&& Kernel::same_hw(*old(k), *final(k))
            } else {
                &&& final(self).inner.wait_queue@ == old(self).inner.wait_queue@
                &&& *final(k) == *old(k)
            },
    {
        if self.inner.wait_queue.len() > 0 {
            let h = self.inner.wait_queue.remove(0);
            k.wakeup_task(h);
            proof {
                assert forall|i: int| 0 <= i < self.inner.wait_queue@.len() implies (
                #[trigger] self.inner.wait_queue@[i]) < k.tasks@.len()
                    && k.tasks@[self.inner.wait_queue@[i] as int].task_status
                    == TaskStatus::Blocked by {
                    assert(self.inner.wait_queue@[i] == old(self).inner.wait_queue@[i + 1]);
                    assert(old(self).inner.wait_queue@[i + 1] != h);
                }
            }
        }
    }

    /// Enqueue and block the running task without scheduling a successor:
    /// for callers that must perform the switch away themselves at a more
    /// convenient point. Returns the handle (the task id) of the caller's
    /// suspended context.
    pub fn wait_no_sched(&mut self, k: &mut Kernel) -> (h: usize)
        requires
            old(k).wf(),
            old(self).wf_in(*old(k)),
            old(k).current is Some,
        ensures
            final(k).wf(),
            final(self).wf_in(*final(k)),
            h == old(k).current.unwrap(),
            final(self).inner.wait_queue@ == old(self).inner.wait_queue@.push(h),
            final(k).current is None,
            final(k).tasks@ == old(k).tasks@.update(
                h as int,
                (TaskControlBlock { task_status: TaskStatus::Blocked, ..old(k).tasks@[h as int] }),
            ),
            final(k).ready() == old(k).ready(),
            Kernel::same_procs(*old(k), *final(k)),
            Kernel::same_timers(*old(k), *final(k)),
            Kernel::same_hw(*old(k), *final(k)),
    {
        let cur = k.current_task().unwrap();
        proof {
            if old(self).inner.wait_queue@.contains(cur) {
                let i = choose|i: int| 0 <= i < old(self).inner.wait_queue@.len() && old(
                    self,
                ).inner.wait_queue@[i] == cur;
                assert(old(k).tasks@[cur as int].task_status == TaskStatus::Blocked);
                assert(old(k).tasks@[cur as int].task_status == TaskStatus::Running);
            }
        }
        self.inner.wait_queue.push(cur);
        k.block_current_task()
    }

    /// Wait on the condition variable with its associated mutex, which the
    /// caller holds: atomically with respect to scheduling, release the
    /// mutex, join the wait queue, and suspend — in that order, so no
    /// wakeup issued between the release and the enqueue can be lost. When
    /// the task is woken and scheduled again, it must reacquire the mutex
    /// (a further `mutex.lock(k)` once it runs) before touching the shared
    /// state the mutex guards.
    pub fn wait_with_mutex(&mut self, k: &mut Kernel, mutex: &mut MutexBlocking)
        requires
            old(k).wf(),
            old(self).wf_in(*old(k)),
            old(mutex).wf_in(*old(k)),
            old(k).current is Some,
            old(mutex).locked,
            old(mutex).holder@ == Some(old(k).current.unwrap()),
            disjoint_queues(old(mutex).wait_queue@, old(self).inner.wait_queue@),
        ensures
            final(k).wf(),
            final(self).wf_in(*final(k)),
            final(mutex).wf_in(*final(k)),
            ({
                let cur = old(k).current.unwrap();
                let mq = old(mutex).wait_queue@;
                let handed = mq.len() > 0;
                let q1 = if handed {
                    old(k).ready().push(mq[0])
                } else {
                    old(k).ready()
                };
                let t1 = if handed {
                    old(k).tasks@.update(
                        mq[0] as int,
                        (TaskControlBlock {
                            task_status: TaskStatus::Ready,
                            ..old(k).tasks@[mq[0] as int]
                        }),
                    )
                } else {
                    old(k).tasks@
                };
                let t2 = t1.update(
                    cur as int,
                    (TaskControlBlock {
                        task_status: TaskStatus::Blocked,
                        ..old(k).tasks@[cur as int]
                    }),
                );
                &&& final(mutex).locked == handed
                &&& final(mutex).wait_queue@ == if handed {
                    mq.drop_first()
                } else {
                    mq
                }
                &&& final(mutex).holder@ == if handed {
                    Some(mq[0])
                } else {
                    None::<usize>
                }
                &&& final(self).inner.wait_queue@ == old(self).inner.wait_queue@.push(cur)
                &&& if q1.len() > 0 {
                    &&& final(k).current == Some(q1[0])
                    &&& final(k).ready() == q1.drop_first()
                    &&& final(k).tasks@ == t2.update(
                        q1[0] as int,
                        (TaskControlBlock {
                            task_status: TaskStatus::Running,
                            ..old(k).tasks@[q1[0] as int]
                        }),
                    )
                } else {
                    &&& final(k).current is None
                    &&& final(k).ready() == q1
                    &&& final(k).tasks@ == t2
                }
                &&& Kernel::same_procs(*old(k), *final(k))
                &&& Kernel::same_timers(*old(k), *final(k))
                &&& Kernel::same_hw(*old(k), *final(k))
            }),
    {
        let cur = k.current_task().unwrap();
        mutex.unlock(k);
        proof {
            if old(self).inner.wait_queue@.contains(cur) {
                let i = choose|i: int| 0 <= i < old(self).inner.wait_queue@.len() && old(
                    self,
                ).inner.wait_queue@[i] == cur;
                assert(old(k).tasks@[cur as int].task_status == TaskStatus::Blocked);
                assert(old(k).tasks@[cur as int].task_status == TaskStatus::Running);
            }
            assert forall|i: int| 0 <= i < self.inner.wait_queue@.len() implies (
            #[trigger] self.inner.wait_queue@[i]) < k.tasks@.len()
                && k.tasks@[self.inner.wait_queue@[i] as int].task_status
                == TaskStatus::Blocked by {
                if old(mutex).wait_queue@.len() > 0 {
                    assert(old(mutex).wait_queue@[0] != self.inner.wait_queue@[i]);
                }
            }
        }
        self.inner.wait_queue.push(cur);
        k.block_current_and_run_next();
        proof {
            let pre = *old(k);
            let mq = old(mutex).wait_queue@;
            assert forall|i: int| 0 <= i < self.inner.wait_queue@.len() implies (
            #[trigger] self.inner.wait_queue@[i]) < k.tasks@.len()
                && k.tasks@[self.inner.wait_queue@[i] as int].task_status
                == TaskStatus::Blocked by {
                if i < old(self).inner.wait_queue@.len() {
                    let w = self.inner.wait_queue@[i];
                    assert(pre.tasks@[w as int].task_status == TaskStatus::Blocked);
                    if mq.len() > 0 {
                        assert(mq[0] != w);
                    }
                }
            }
            assert forall|i: int| 0 <= i < mutex.wait_queue@.len() implies (
            #[trigger] mutex.wait_queue@[i]) < k.tasks@.len()
                && k.tasks@[mutex.wait_queue@[i] as int].task_status == TaskStatus::Blocked by {
                let w = mutex.wait_queue@[i];
                if mq.len() > 0 {
                    assert(w == mq[i + 1]);
                    assert(mq[i + 1] != mq[0]);
                }
                assert(pre.tasks@[w as int].task_status == TaskStatus::Blocked);
                assert(w != old(k).current.unwrap());
            }
        }
    }
}

} // verus!
