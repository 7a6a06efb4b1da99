//! The ready queue: a FIFO scheduling queue of task ids.
//!
//! Tasks are identified by their index into the kernel's task table. The
//! queue itself knows nothing of task statuses; the kernel maintains the
//! invariant that every queued task is `Ready`.

use vstd::prelude::*;

verus! {

/// A simple FIFO scheduler queue.
pub struct TaskManager {
    /// The queued task ids, head first.
    pub ready_queue: Vec<usize>,
}

/// Position of the first occurrence of `t` in `s`, if any.
pub open spec fn first_pos(s: Seq<usize>, t: usize) -> Option<int>
    decreases s.len(),
{
    if s.len() == 0 {
        None
    } else if s[0] == t {
        Some(0)
    } else {
        match first_pos(s.drop_first(), t) {
            Some(i) => Some(i + 1),
            None => None,
        }
    }
}

/// A scan that found `t` first at position `i` agrees with `first_pos`.
pub proof fn lemma_first_pos_found(s: Seq<usize>, t: usize, i: int)
    requires
        0 <= i < s.len(),
        s[i] == t,
        forall|j: int| 0 <= j < i ==> s[j] != t,
    ensures
        first_pos(s, t) == Some(i),
    decreases i,
{
    if i > 0 {
        lemma_first_pos_found(s.drop_first(), t, i - 1);
    }
}

/// What a `first_pos` result means: a hit names the first occurrence of
/// `t`, a miss means `t` does not occur.
pub proof fn lemma_first_pos_bounds(s: Seq<usize>, t: usize)
    ensures
        match first_pos(s, t) {
            Some(i) => 0 <= i < s.len() && s[i] == t && forall|j: int| 0 <= j < i ==> s[j] != t,
            None => forall|j: int| 0 <= j < s.len() ==> s[j] != t,
        },
    decreases s.len(),
{
    if s.len() > 0 && s[0] != t {
        lemma_first_pos_bounds(s.drop_first(), t);
        match first_pos(s.drop_first(), t) {
            Some(i) => {
                assert(s.drop_first()[i] == s[i + 1]);
                assert forall|j: int| 0 <= j < i + 1 implies s[j] != t by {
                    if j > 0 {
                        assert(s.drop_first()[j - 1] != t);
                    }
                }
            },
            None => {
                assert forall|j: int| 0 <= j < s.len() implies s[j] != t by {
                    if j > 0 {
                        assert(s.drop_first()[j - 1] != t);
                    }
                }
            },
        }
    }
}

/// A scan that found no occurrence of `t` agrees with `first_pos`.
pub proof fn lemma_first_pos_missing(s: Seq<usize>, t: usize)
    requires
        forall|j: int| 0 <= j < s.len() ==> s[j] != t,
    ensures
        first_pos(s, t) is None,
    decreases s.len(),
{
    if s.len() > 0 {
        lemma_first_pos_missing(s.drop_first(), t);
    }
}

impl TaskManager {
    /// An empty ready queue.
    pub fn new() -> (r: TaskManager)
        ensures
            r.ready_queue@ == Seq::<usize>::empty(),
    {
        TaskManager { ready_queue: Vec::new() }
    }

    /// Append a task to the tail of the ready queue (FIFO: insertion never
    /// preempts anything already queued).
    pub fn add(&mut self, task: usize)
        ensures
            final(self).ready_queue@ == old(self).ready_queue@.push(task),
    {
        self.ready_queue.push(task);
    }

    /// Pop the head of the ready queue, or signal emptiness with `None` so
    /// the caller can take an idle path.
    pub fn fetch(&mut self) -> (r: Option<usize>)
        ensures
            old(self).ready_queue@.len() == 0 ==> r is None && final(self).ready_queue@
                == old(self).ready_queue@,
            old(self).ready_queue@.len() > 0 ==> r == Some(old(self).ready_queue@[0])
                && final(self).ready_queue@ == old(self).ready_queue@.drop_first(),
    {
        if self.ready_queue.len() == 0 {
            None
        } else {
            let head = self.ready_queue.remove(0);
            Some(head)
        }
    }

    /// Remove the first occurrence of `task` from the queue, if present:
    /// used when a task must leave the ready state without being fetched.
    pub fn remove(&mut self, task: usize)
        ensures
            match first_pos(old(self).ready_queue@, task) {
                Some(i) => final(self).ready_queue@ == old(self).ready_queue@.remove(i),
                None => final(self).ready_queue@ == old(self).ready_queue@,
            },
    {
        let mut idx: usize = 0;
        while idx < self.ready_queue.len()
            invariant
                self.ready_queue@ == old(self).ready_queue@,
                0 <= idx <= self.ready_queue@.len(),
                forall|j: int| 0 <= j < idx ==> self.ready_queue@[j] != task,
            decreases self.ready_queue@.len() - idx,
        {
            if self.ready_queue[idx] == task {
                proof {
                    lemma_first_pos_found(self.ready_queue@, task, idx as int);
                }
                self.ready_queue.remove(idx);
                return ;
            }
            idx = idx + 1;
        }
        proof {
            lemma_first_pos_missing(self.ready_queue@, task);
        }
    }
}

/// One step of the ready queue's history: an `add` of a task or a `fetch`.
#[derive(Copy, Clone, PartialEq, Eq, Structural, Debug)]
pub enum SchedOp {
    /// `add(task)` was called.
    Add(usize),
    /// `fetch()` was called.
    Fetch,
}

/// The tasks added over a history of operations, in order.
pub open spec fn adds_of(ops: Seq<SchedOp>) -> Seq<usize>
    decreases ops.len(),
{
    if ops.len() == 0 {
        Seq::empty()
    } else {
        match ops[0] {
            SchedOp::Add(t) => seq![t] + adds_of(ops.drop_first()),
            SchedOp::Fetch => adds_of(ops.drop_first()),
        }
    }
}

/// The queue contents after running a history of operations on queue `q`,
/// following the contracts of `add` and `fetch`.
pub open spec fn queue_after(q: Seq<usize>, ops: Seq<SchedOp>) -> Seq<usize>
    decreases ops.len(),
{
    if ops.len() == 0 {
        q
    } else {
        match ops[0] {
            SchedOp::Add(t) => queue_after(q.push(t), ops.drop_first()),
            SchedOp::Fetch => if q.len() == 0 {
                queue_after(q, ops.drop_first())
            } else {
                queue_after(q.drop_first(), ops.drop_first())
            },
        }
    }
}

/// The tasks the `fetch` calls of a history return, in return order
/// (a `fetch` on an empty queue returns nothing).
pub open spec fn fetched(q: Seq<usize>, ops: Seq<SchedOp>) -> Seq<usize>
    decreases ops.len(),
{
    if ops.len() == 0 {
        Seq::empty()
    } else {
        match ops[0] {
            SchedOp::Add(t) => fetched(q.push(t), ops.drop_first()),
            SchedOp::Fetch => if q.len() == 0 {
                fetched(q, ops.drop_first())
            } else {
                seq![q[0]] + fetched(q.drop_first(), ops.drop_first())
            },
        }
    }
}

/// FIFO fairness of the ready queue: over any history of `add`/`fetch`
/// operations starting from queue `q`, the tasks returned by `fetch`,
/// followed by the tasks still queued, are exactly the initial queue
/// followed by the added tasks, in order. In particular every `fetch`
/// returns tasks in the exact order they were added.
pub proof fn lemma_fifo(q: Seq<usize>, ops: Seq<SchedOp>)
    ensures
        fetched(q, ops) + queue_after(q, ops) == q + adds_of(ops),
    decreases ops.len(),
{
    if ops.len() == 0 {
        assert(fetched(q, ops) + queue_after(q, ops) =~= q + adds_of(ops));
    } else {
        let rest = ops.drop_first();
        match ops[0] {
            SchedOp::Add(t) => {
                lemma_fifo(q.push(t), rest);
                assert(q.push(t) + adds_of(rest) =~= q + adds_of(ops));
            },
            SchedOp::Fetch => {
                if q.len() == 0 {
                    lemma_fifo(q, rest);
                } else {
                    lemma_fifo(q.drop_first(), rest);
                    assert((seq![q[0]] + fetched(q.drop_first(), rest)) + queue_after(
                        q.drop_first(),
                        rest,
                    ) =~= seq![q[0]] + (fetched(q.drop_first(), rest) + queue_after(
                        q.drop_first(),
                        rest,
                    )));
                    assert(seq![q[0]] + (q.drop_first() + adds_of(rest)) =~= q + adds_of(ops));
                }
            },
        }
    }
}

/// The fetched tasks are a prefix of the initial queue followed by the
/// added tasks: nothing is returned out of order or more than once.
pub proof fn lemma_fifo_prefix(q: Seq<usize>, ops: Seq<SchedOp>)
    ensures
        fetched(q, ops) == (q + adds_of(ops)).take(fetched(q, ops).len() as int),
{
    lemma_fifo(q, ops);
    assert(fetched(q, ops) =~= (q + adds_of(ops)).take(fetched(q, ops).len() as int));
}

} // verus!

