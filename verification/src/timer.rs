//! The timer registry: pending (deadline, task) pairs ordered by ascending
//! expiry, so the soonest deadline is always at the front.
//!
//! Cancellation (`remove_timer`) filters out every entry of one task and
//! keeps the rest in order; expiry processing pops expired entries from the
//! front, soonest first.

use vstd::prelude::*;

verus! {

/// A pending timer-driven wakeup: when the clock reaches `expire_ms`,
/// `task` is to be woken.
#[derive(Copy, Clone, PartialEq, Eq, Structural, Debug)]
pub struct TimerCondVar {
    /// The time the timer expires, in milliseconds.
    pub expire_ms: usize,
    /// The task to wake when it expires.
    pub task: usize,
}

/// Entries are in ascending order of expiry (ties in either order).
pub open spec fn sorted_by_expiry(s: Seq<TimerCondVar>) -> bool {
    forall|i: int, j: int| 0 <= i < j < s.len() ==> s[i].expire_ms <= s[j].expire_ms
}

/// No task has more than one pending timer.
pub open spec fn distinct_tasks(s: Seq<TimerCondVar>) -> bool {
    forall|i: int, j: int| 0 <= i < j < s.len() ==> s[i].task != s[j].task
}

/// Whether some entry of `s` references `task`.
pub open spec fn has_task(s: Seq<TimerCondVar>, task: usize) -> bool {
    exists|i: int| 0 <= i < s.len() && s[i].task == task
}

/// Length of the leading run of entries with expiry at or before `ms`.
/// On a sorted sequence this is both the number of entries expired at time
/// `ms` and the position at which a new entry with expiry `ms` belongs.
pub open spec fn split_point(s: Seq<TimerCondVar>, ms: usize) -> int
    decreases s.len(),
{
    if s.len() == 0 {
        0
    } else if s[0].expire_ms <= ms {
        1 + split_point(s.drop_first(), ms)
    } else {
        0
    }
}

/// `split_point` is the index a left-to-right scan stops at.
pub proof fn lemma_split_point_found(s: Seq<TimerCondVar>, ms: usize, i: int)
    requires
        0 <= i <= s.len(),
        forall|j: int| 0 <= j < i ==> s[j].expire_ms <= ms,
        i < s.len() ==> s[i].expire_ms > ms,
    ensures
        split_point(s, ms) == i,
    decreases i,
{
    if i > 0 {
        lemma_split_point_found(s.drop_first(), ms, i - 1);
    }
}

/// On a sorted sequence, every entry at or past the split point is still in
/// the future, and every entry before it has expired.
pub proof fn lemma_split_point_bounds(s: Seq<TimerCondVar>, ms: usize)
    requires
        sorted_by_expiry(s),
    ensures
        0 <= split_point(s, ms) <= s.len(),
        forall|j: int| 0 <= j < split_point(s, ms) ==> s[j].expire_ms <= ms,
        forall|j: int| split_point(s, ms) <= j < s.len() ==> s[j].expire_ms > ms,
    decreases s.len(),
{
    if s.len() > 0 {
        if s[0].expire_ms <= ms {
            assert forall|i: int, j: int| 0 <= i < j < s.drop_first().len() implies s.drop_first()[i].expire_ms
                <= s.drop_first()[j].expire_ms by {
                assert(s[i + 1].expire_ms <= s[j + 1].expire_ms);
            }
            lemma_split_point_bounds(s.drop_first(), ms);
            assert forall|j: int| 0 <= j < split_point(s, ms) implies s[j].expire_ms <= ms by {
                if j > 0 {
                    assert(s.drop_first()[j - 1].expire_ms <= ms);
                }
            }
            assert forall|j: int| split_point(s, ms) <= j < s.len() implies s[j].expire_ms
                > ms by {
                assert(s.drop_first()[j - 1].expire_ms > ms);
            }
        } else {
            assert forall|j: int| 0 <= j < s.len() implies s[j].expire_ms > ms by {
                if j > 0 {
                    assert(s[0].expire_ms <= s[j].expire_ms);
                }
            }
        }
    }
}

/// `s` with every entry referencing `task` removed, order otherwise kept.
pub open spec fn without_task(s: Seq<TimerCondVar>, task: usize) -> Seq<TimerCondVar>
    decreases s.len(),
{
    if s.len() == 0 {
        Seq::empty()
    } else if s.last().task == task {
        without_task(s.drop_last(), task)
    } else {
        without_task(s.drop_last(), task).push(s.last())
    }
}

/// Every entry of `without_task(s, task)` is an entry of `s`, in particular
/// the result is sorted and duplicate-free whenever `s` is, and no entry of
/// it references `task`.
pub proof fn lemma_without_task_entries(s: Seq<TimerCondVar>, task: usize)
    ensures
        without_task(s, task).len() <= s.len(),
        forall|i: int| #![trigger without_task(s, task)[i]] 0 <= i < without_task(s, task).len()
            ==> exists|j: int| 0 <= j < s.len() && #[trigger] s[j] == without_task(s, task)[i],
        sorted_by_expiry(s) ==> sorted_by_expiry(without_task(s, task)),
        distinct_tasks(s) ==> distinct_tasks(without_task(s, task)),
        !has_task(without_task(s, task), task),
    decreases s.len(),
{
    if s.len() > 0 {
        lemma_without_task_entries(s.drop_last(), task);
        let r = without_task(s, task);
        let rr = without_task(s.drop_last(), task);
        assert forall|i: int| #![trigger r[i]] 0 <= i < r.len() implies exists|j: int|
            0 <= j < s.len() && #[trigger] s[j] == r[i] by {
            if i < rr.len() {
                let j = choose|j: int| 0 <= j < s.drop_last().len() && s.drop_last()[j] == rr[i];
                assert(s[j] == r[i]);
            } else {
                assert(s[s.len() - 1] == r[i]);
            }
        }
        if sorted_by_expiry(s) {
            assert(sorted_by_expiry(s.drop_last()));
            if s.last().task != task {
                assert forall|i: int, j: int| 0 <= i < j < r.len() implies r[i].expire_ms
                    <= r[j].expire_ms by {
                    if j == r.len() - 1 {
                        let m = choose|m: int| 0 <= m < s.drop_last().len() && s.drop_last()[m]
                            == rr[i];
                        assert(r[i].expire_ms <= s.last().expire_ms);
                    }
                }
            }
        }
        if distinct_tasks(s) {
            assert(distinct_tasks(s.drop_last()));
            if s.last().task != task {
                assert forall|i: int, j: int| 0 <= i < j < r.len() implies r[i].task
                    != r[j].task by {
                    if j == r.len() - 1 {
                        let m = choose|m: int| 0 <= m < s.drop_last().len() && s.drop_last()[m]
                            == rr[i];
                        assert(s.drop_last()[m].task != s.last().task);
                    }
                }
            }
        }
    }
}

/// The pending timers, soonest deadline first.
pub struct TimerQueue {
    /// Pending entries, ascending by `expire_ms`.
    pub timers: Vec<TimerCondVar>,
}

impl TimerQueue {
    /// The queue is ordered by expiry and holds at most one entry per task.
    pub open spec fn wf(self) -> bool {
        sorted_by_expiry(self.timers@) && distinct_tasks(self.timers@)
    }

    /// An empty timer registry.
    pub fn new() -> (r: TimerQueue)
        ensures
            r.timers@ == Seq::<TimerCondVar>::empty(),
            r.wf(),
    {
        TimerQueue { timers: Vec::new() }
    }

    /// Register a wakeup of `task` at time `expire_ms`. The entry is placed
    /// after every deadline at or before it, so ordering is kept.
    pub fn add_timer(&mut self, expire_ms: usize, task: usize)
        requires
            old(self).wf(),
            !has_task(old(self).timers@, task),
        ensures
            final(self).timers@ == old(self).timers@.insert(
                split_point(old(self).timers@, expire_ms),
                TimerCondVar { expire_ms, task },
            ),
            final(self).wf(),
    {
        let mut idx: usize = 0;
        while idx < self.timers.len() && self.timers[idx].expire_ms <= expire_ms
            invariant
                self.timers@ == old(self).timers@,
                0 <= idx <= self.timers@.len(),
                forall|j: int| 0 <= j < idx ==> self.timers@[j].expire_ms <= expire_ms,
            decreases self.timers@.len() - idx,
        {
            idx = idx + 1;
        }
        proof {
            lemma_split_point_found(self.timers@, expire_ms, idx as int);
            lemma_split_point_bounds(self.timers@, expire_ms);
        }
        self.timers.insert(idx, TimerCondVar { expire_ms, task });
        proof {
            let pre = old(self).timers@;
            let post = self.timers@;
            let i = idx as int;
            assert forall|a: int, b: int| 0 <= a < b < post.len() implies post[a].expire_ms
                <= post[b].expire_ms by {
                assert(pre.insert(i, TimerCondVar { expire_ms, task }) =~= pre.take(i).push(
                    TimerCondVar { expire_ms, task },
                ) + pre.skip(i));
            }
            assert forall|a: int, b: int| 0 <= a < b < post.len() implies post[a].task
                != post[b].task by {
                assert(pre.insert(i, TimerCondVar { expire_ms, task }) =~= pre.take(i).push(
                    TimerCondVar { expire_ms, task },
                ) + pre.skip(i));
                if post[a].task == task && a != i {
                    assert(pre[if a < i { a } else { a - 1 }].task == task);
                }
                if post[b].task == task && b != i {
                    assert(pre[if b < i { b } else { b - 1 }].task == task);
                }
            }
        }
    }

    /// Cancel every pending wakeup of `task`: drain-and-filter, keeping all
    /// other entries in order. Accepted as linear time, timer counts are
    /// small in this setting.
    pub fn remove_timer(&mut self, task: usize)
        requires
            old(self).wf(),
        ensures
            final(self).timers@ == without_task(old(self).timers@, task),
            final(self).wf(),
            !has_task(final(self).timers@, task),
    {
        let mut kept: Vec<TimerCondVar> = Vec::new();
        let mut idx: usize = 0;
        while idx < self.timers.len()
            invariant
                self.timers@ == old(self).timers@,
                0 <= idx <= self.timers@.len(),
                kept@ == without_task(self.timers@.take(idx as int), task),
            decreases self.timers@.len() - idx,
        {
            let entry = self.timers[idx];
            proof {
                assert(self.timers@.take(idx + 1).drop_last() =~= self.timers@.take(idx as int));
                assert(self.timers@.take(idx + 1).last() == entry);
            }
            if entry.task != task {
                kept.push(entry);
            }
            idx = idx + 1;
        }
        proof {
            assert(self.timers@.take(self.timers@.len() as int) =~= self.timers@);
            lemma_without_task_entries(self.timers@, task);
        }
        self.timers = kept;
    }

}

} // verus!
