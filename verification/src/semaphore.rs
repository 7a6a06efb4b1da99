//! The counting semaphore: an integer counter over a FIFO wait queue.
//!
//! `down` decrements; a result below zero blocks the caller, and the
//! magnitude of a negative counter is exactly the number of blocked
//! waiters. `up` increments; when the pre-increment counter was negative a
//! waiter is owed the resource, and the head of the queue is woken —
//! one-for-one, in FIFO order.

use vstd::prelude::*;

verus! {

use crate::kernel::Kernel;
use crate::task::TaskControlBlock;
use crate::task::TaskStatus;

/// The counting semaphore.
pub struct Semaphore {
    /// The counter; negative values count the blocked waiters.
    pub count: isize,
    /// Tasks blocked in `down`, FIFO.
    pub wait_queue: Vec<usize>,
}

impl Semaphore {
    /// The semaphore is consistent against kernel `k`: a negative counter
    /// counts exactly the queued waiters, a non-negative one allows none,
    /// and every waiter is a valid, `Blocked` task queued only once.
    pub open spec fn wf_in(self, k: Kernel) -> bool {
        &&& self.count < 0 ==> self.wait_queue@.len() == -(self.count as int)
        &&& self.count >= 0 ==> self.wait_queue@.len() == 0
        &&& forall|i: int| 0 <= i < self.wait_queue@.len() ==> (#[trigger] self.wait_queue@[i])
            < k.tasks@.len() && k.tasks@[self.wait_queue@[i] as int].task_status
            == TaskStatus::Blocked
        &&& forall|i: int, j: int| 0 <= i < j < self.wait_queue@.len() ==> self.wait_queue@[i]
            != self.wait_queue@[j]
    }

    /// A semaphore with `res_count` units available (any non-negative
    /// starting capacity).
    pub fn new(res_count: usize) -> (r: Semaphore)
        requires
            res_count <= isize::MAX,
        ensures
            r.count == res_count,
            r.wait_queue@ == Seq::<usize>::empty(),
            forall|k: Kernel| r.wf_in(k),
    {
        Semaphore { count: res_count as isize, wait_queue: Vec::new() }
    }

    /// Take one unit: the counter is decremented, and when the result is
    /// negative the caller joins the tail of the wait queue and suspends.
    pub fn down(&mut self, k: &mut Kernel)
        requires
            old(k).wf(),
            old(self).wf_in(*old(k)),
            old(k).current is Some,
            old(self).count > isize::MIN,
        ensures
            final(k).wf(),
            final(self).wf_in(*final(k)),
            final(self).count == old(self).count - 1,
            if old(self).count <= 0 {
                &&& final(self).wait_queue@ == old(self).wait_queue@.push(
                    old(k).current.unwrap(),
                )
                &&& Kernel::blocked_and_ran_next(*old(k), *final(k))
            } else {
                &&& final(self).wait_queue@ == old(self).wait_queue@
                &&& *final(k) == *old(k)
            },
    {
        self.count = self.count - 1;
        if self.count < 0 {
            let cur = k.current_task().unwrap();
            proof {
                if old(self).wait_queue@.contains(cur) {
                    let i = choose|i: int| 0 <= i < old(self).wait_queue@.len() && old(
                        self,
                    ).wait_queue@[i] == cur;
                    assert(old(k).tasks@[cur as int].task_status == TaskStatus::Blocked);
                    assert(old(k).tasks@[cur as int].task_status == TaskStatus::Running);
                }
            }
            self.wait_queue.push(cur);
            k.block_current_and_run_next();
            proof {
                let pre = *old(k);
                assert forall|i: int| 0 <= i < self.wait_queue@.len() implies (
                #[trigger] self.wait_queue@[i]) < k.tasks@.len() && k.tasks@[self.wait_queue@[i] as int].task_status
                    == TaskStatus::Blocked by {
                    if i < old(self).wait_queue@.len() {
                        assert(pre.tasks@[self.wait_queue@[i] as int].task_status
                            == TaskStatus::Blocked);
                        if pre.ready().len() > 0 {
                            assert(pre.tasks@[pre.ready()[0] as int].task_status
                                == TaskStatus::Ready);
                            assert(self.wait_queue@[i] != pre.ready()[0]);
                        }
                    }
                }
            }
        }
    }

    /// Return one unit: the counter is incremented, and when its
    /// pre-increment value was negative a waiter is owed the unit, so the
    /// head of the wait queue is dequeued and woken.
    pub fn up(&mut self, k: &mut Kernel)
        requires
            old(k).wf(),
            old(self).wf_in(*old(k)),
            old(self).count < isize::MAX,
        ensures
            final(k).wf(),
            final(self).wf_in(*final(k)),
            final(self).count == old(self).count + 1,
            if old(self).count < 0 {
                let h = old(self).wait_queue@[0];
                &&& final(self).wait_queue@ == old(self).wait_queue@.drop_first()
                &&& final(k).tasks@ == old(k).tasks@.update(
                    h as int,
                    (TaskControlBlock {
                        task_status: TaskStatus::Ready,
                        ..old(k).tasks@[h as int]
                    }),
                )
                &&& final(k).ready() == old(k).ready().push(h)
                &&& final(k).current == old(k).current
                &&& Kernel::same_procs(*old(k), *final(k))
                &&& Kernel::same_timers(*old(k), *final(k))
                &&& Kernel::same_hw(*old(k), *final(k))
            } else {
                &&& final(self).wait_queue@ == old(self).wait_queue@
                &&& *final(k) == *old(k)
            },
    {
        let was_negative = self.count < 0;
        self.count = self.count + 1;
        if was_negative {
            let h = self.wait_queue.remove(0);
            k.wakeup_task(h);
            proof {
                assert forall|i: int| 0 <= i < self.wait_queue@.len() implies (
                #[trigger] self.wait_queue@[i]) < k.tasks@.len()
                    && k.tasks@[self.wait_queue@[i] as int].task_status
                    == TaskStatus::Blocked by {
                    assert(self.wait_queue@[i] == old(self).wait_queue@[i + 1]);
                    assert(old(self).wait_queue@[i + 1] != h);
                }
            }
        }
    }
}

/// One operation of a semaphore history: a decrement request naming the
/// requesting task, or an increment.
#[derive(Copy, Clone, PartialEq, Eq, Structural, Debug)]
pub enum SemOp {
    /// The named task requests one unit.
    Down(usize),
    /// One unit is returned.
    Up,
}

/// The number of `down` operations in a history.
pub open spec fn downs_of(ops: Seq<SemOp>) -> int
    decreases ops.len(),
{
    if ops.len() == 0 {
        0
    } else {
        match ops[0] {
            SemOp::Down(_) => 1 + downs_of(ops.drop_first()),
            SemOp::Up => downs_of(ops.drop_first()),
        }
    }
}

/// The number of `up` operations in a history.
pub open spec fn ups_of(ops: Seq<SemOp>) -> int
    decreases ops.len(),
{
    if ops.len() == 0 {
        0
    } else {
        match ops[0] {
            SemOp::Down(_) => ups_of(ops.drop_first()),
            SemOp::Up => 1 + ups_of(ops.drop_first()),
        }
    }
}

/// Run a history against semaphore state (`count`, `queue`), following the
/// contracts of `down` and `up`; returns the final count, the final queue,
/// the tasks woken (in wake order), and the tasks that blocked (in
/// blocking order).
pub open spec fn sem_run(count: int, queue: Seq<usize>, ops: Seq<SemOp>) -> (int, Seq<usize>, Seq<
    usize,
>, Seq<usize>)
    decreases ops.len(),
{
    if ops.len() == 0 {
        (count, queue, Seq::empty(), Seq::empty())
    } else {
        match ops[0] {
            SemOp::Down(t) => {
                let q1 = if count <= 0 {
                    queue.push(t)
                } else {
                    queue
                };
                let rest = sem_run(count - 1, q1, ops.drop_first());
                if count <= 0 {
                    (rest.0, rest.1, rest.2, seq![t] + rest.3)
                } else {
                    rest
                }
            },
            SemOp::Up => {
                if count < 0 {
                    let rest = sem_run(count + 1, queue.drop_first(), ops.drop_first());
                    (rest.0, rest.1, seq![queue[0]] + rest.2, rest.3)
                } else {
                    sem_run(count + 1, queue, ops.drop_first())
                }
            },
        }
    }
}

/// The semaphore discipline, over any history of `down`/`up` operations
/// from counter `count` and waiters `queue`: the counter tracks the
/// operation balance; the blocked waiters are exactly the deficit, so from
/// an initial count of `n` at most `n` plus the number of `up`s of `down`
/// calls proceed without blocking; and the tasks woken, followed by the
/// tasks still waiting, are the initial waiters followed by the tasks that
/// blocked, in order — ups wake blocked downs one-for-one, FIFO.
pub proof fn lemma_semaphore_discipline(count: int, queue: Seq<usize>, ops: Seq<SemOp>)
    requires
        count < 0 ==> queue.len() == -count,
        count >= 0 ==> queue.len() == 0,
    ensures
        ({
            let r = sem_run(count, queue, ops);
            &&& r.0 == count - downs_of(ops) + ups_of(ops)
            &&& r.1.len() == if r.0 < 0 {
                -r.0
            } else {
                0int
            }
            &&& r.2 + r.1 == queue + r.3
        }),
    decreases ops.len(),
{
    if ops.len() > 0 {
        let rest = ops.drop_first();
        match ops[0] {
            SemOp::Down(t) => {
                if count <= 0 {
                    lemma_semaphore_discipline(count - 1, queue.push(t), rest);
                    let r = sem_run(count - 1, queue.push(t), rest);
                    assert(r.2 + r.1 =~= (queue.push(t)) + r.3);
                    assert((queue.push(t)) + r.3 =~= queue + (seq![t] + r.3));
                } else {
                    lemma_semaphore_discipline(count - 1, queue, rest);
                }
            },
            SemOp::Up => {
                if count < 0 {
                    lemma_semaphore_discipline(count + 1, queue.drop_first(), rest);
                    let r = sem_run(count + 1, queue.drop_first(), rest);
                    assert((seq![queue[0]] + r.2) + r.1 =~= seq![queue[0]] + (r.2 + r.1));
                    assert(seq![queue[0]] + (queue.drop_first() + r.3) =~= queue + r.3);
                } else {
                    lemma_semaphore_discipline(count + 1, queue, rest);
                }
            },
        }
    }
}

} // verus!
