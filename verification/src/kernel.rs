//! The kernel context: the explicitly owned shared state of the scheduling
//! core (task table, ready queue, pid registry, timer queue, trap-vector
//! selection), and the suspend/resume choreography over it.
//!
//! On the target machine these structures are process-wide singletons
//! guarded by an interrupt-free critical section; here they are fields of
//! one value, and `&mut` exclusivity plays the cell's role: no trap handler
//! can re-enter while a structure is mid-mutation.

use vstd::prelude::*;

verus! {

use crate::manager::TaskManager;
use crate::process::ProcessControlBlock;
use crate::process::SignalFlags;
use crate::task::MAX_SYSCALL_NUM;
use crate::task::TaskControlBlock;
use crate::task::status_can_step;
use crate::task::TaskInfo;
use crate::task::TaskStatus;
use crate::timer::TimerCondVar;
use crate::timer::TimerQueue;
use crate::timer::has_task;
use crate::timer::split_point;
use crate::timer::sorted_by_expiry;
use crate::timer::distinct_tasks;

/// Which trap vector is installed: the stricter kernel-mode entry or the
/// user-mode entry through which user execution resumes.
#[derive(Copy, Clone, PartialEq, Eq, Structural, Debug)]
pub enum TrapEntry {
    /// The kernel-mode vector: traps taken while in kernel code.
    ForKernel,
    /// The user-mode vector: the trampoline entered from user execution.
    ForUser,
}

/// Position of the first process with pid `pid` in the registry, if any.
/// Under `Kernel::wf` pids are unique, so this is the process's index.
pub open spec fn pid_index(s: Seq<ProcessControlBlock>, pid: usize) -> Option<int>
    decreases s.len(),
{
    if s.len() == 0 {
        None
    } else if s[0].pid == pid {
        Some(0)
    } else {
        match pid_index(s.drop_first(), pid) {
            Some(i) => Some(i + 1),
            None => None,
        }
    }
}

/// A scan that found `pid` first at index `i` agrees with `pid_index`.
pub proof fn lemma_pid_index_found(s: Seq<ProcessControlBlock>, pid: usize, i: int)
    requires
        0 <= i < s.len(),
        s[i].pid == pid,
        forall|j: int| 0 <= j < i ==> s[j].pid != pid,
    ensures
        pid_index(s, pid) == Some(i),
    decreases i,
{
    if i > 0 {
        lemma_pid_index_found(s.drop_first(), pid, i - 1);
    }
}

/// A scan that found no process with pid `pid` agrees with `pid_index`.
pub proof fn lemma_pid_index_missing(s: Seq<ProcessControlBlock>, pid: usize)
    requires
        forall|j: int| 0 <= j < s.len() ==> s[j].pid != pid,
    ensures
        pid_index(s, pid) is None,
    decreases s.len(),
{
    if s.len() > 0 {
        lemma_pid_index_missing(s.drop_first(), pid);
    }
}

/// What a `pid_index` result means: a hit names the first index carrying
/// `pid`, a miss means no entry carries it.
pub proof fn lemma_pid_index_bounds(s: Seq<ProcessControlBlock>, pid: usize)
    ensures
        match pid_index(s, pid) {
            Some(i) => 0 <= i < s.len() && s[i].pid == pid && forall|j: int|
                0 <= j < i ==> s[j].pid != pid,
            None => forall|j: int| 0 <= j < s.len() ==> s[j].pid != pid,
        },
    decreases s.len(),
{
    if s.len() > 0 && s[0].pid != pid {
        lemma_pid_index_bounds(s.drop_first(), pid);
        match pid_index(s.drop_first(), pid) {
            Some(i) => {
                assert(s.drop_first()[i] == s[i + 1]);
                assert forall|j: int| 0 <= j < i + 1 implies s[j].pid != pid by {
                    if j > 0 {
                        assert(s.drop_first()[j - 1].pid != pid);
                    }
                }
            },
            None => {
                assert forall|j: int| 0 <= j < s.len() implies s[j].pid != pid by {
                    if j > 0 {
                        assert(s.drop_first()[j - 1].pid != pid);
                    }
                }
            },
        }
    }
}

/// `pid_index` depends only on the pids of the entries: two registries
/// carrying the same pids in the same order agree on every lookup.
pub proof fn lemma_pid_index_same_pids(
    s1: Seq<ProcessControlBlock>,
    s2: Seq<ProcessControlBlock>,
    pid: usize,
)
    requires
        s1.len() == s2.len(),
        forall|i: int| 0 <= i < s1.len() ==> s1[i].pid == s2[i].pid,
    ensures
        pid_index(s1, pid) == pid_index(s2, pid),
    decreases s1.len(),
{
    if s1.len() > 0 {
        assert(s1[0].pid == s2[0].pid);
        assert forall|i: int| 0 <= i < s1.drop_first().len() implies s1.drop_first()[i].pid
            == s2.drop_first()[i].pid by {
            assert(s1[i + 1].pid == s2[i + 1].pid);
        }
        lemma_pid_index_same_pids(s1.drop_first(), s2.drop_first(), pid);
    }
}

/// A vector never holds more elements than `usize` can count.
pub proof fn lemma_vec_len_bound<T>(v: &Vec<T>)
    ensures
        v@.len() <= usize::MAX,
{
    vstd::std_specs::vec::axiom_spec_len(v);
}

/// Task records agree except possibly in their status fields.
pub open spec fn only_statuses_changed(
    pre: Seq<TaskControlBlock>,
    post: Seq<TaskControlBlock>,
) -> bool {
    &&& post.len() == pre.len()
    &&& forall|t: int| 0 <= t < pre.len() ==> #[trigger] post[t] == (TaskControlBlock {
        task_status: post[t].task_status,
        ..pre[t]
    })
}

/// The kernel context. One value of this type holds everything the
/// scheduling core shares between trap entries.
pub struct Kernel {
    /// All task control blocks ever created; a task id is an index here.
    pub tasks: Vec<TaskControlBlock>,
    /// The FIFO ready queue.
    pub manager: TaskManager,
    /// The task currently executing on the hart, if any.
    pub current: Option<usize>,
    /// The pid registry: every live process, unique pids.
    pub processes: Vec<ProcessControlBlock>,
    /// Pending timer-driven wakeups.
    pub timers: TimerQueue,
    /// Which trap vector is installed.
    pub trap_entry: TrapEntry,
    /// Whether the timer interrupt is enabled in the interrupt mask.
    pub timer_interrupt_enabled: bool,
}

impl Kernel {
    /// The ready queue of task ids.
    pub open spec fn ready(self) -> Seq<usize> {
        self.manager.ready_queue@
    }

    /// The status of task `t`.
    pub open spec fn status_of(self, t: int) -> TaskStatus {
        self.tasks@[t].task_status
    }

    /// Every queued task id is valid, has status `Ready`, and is queued
    /// only once.
    pub open spec fn ready_wf(self) -> bool {
        &&& forall|i: int| 0 <= i < self.ready().len() ==> (#[trigger] self.ready()[i])
            < self.tasks@.len() && self.tasks@[self.ready()[i] as int].task_status
            == TaskStatus::Ready
        &&& forall|i: int, j: int| 0 <= i < j < self.ready().len() ==> self.ready()[i]
            != self.ready()[j]
    }

    /// Exactly the current task (if any) has status `Running`: one task per
    /// hart runs at a time.
    pub open spec fn running_wf(self) -> bool {
        &&& (self.current matches Some(c) ==> c < self.tasks@.len())
        &&& forall|t: int| 0 <= t < self.tasks@.len() ==> ((#[trigger] self.tasks@[t].task_status)
            == TaskStatus::Running <==> self.current == Some(t as usize))
    }

    /// Timer entries reference valid tasks; the queue is sorted by expiry
    /// with at most one pending timer per task.
    pub open spec fn timers_wf(self) -> bool {
        &&& self.timers.wf()
        &&& forall|i: int| 0 <= i < self.timers.timers@.len() ==> (#[trigger] self.timers.timers@[i]).task
            < self.tasks@.len()
    }

    /// Every task's counter table covers the full syscall-number range.
    pub open spec fn tasks_wf(self) -> bool {
        forall|t: int| 0 <= t < self.tasks@.len() ==> (#[trigger] self.tasks@[t]).task_info.syscall_times@.len()
            == MAX_SYSCALL_NUM
    }

    /// Registered pids are unique; every process is well-formed and owns
    /// only valid task ids.
    pub open spec fn procs_wf(self) -> bool {
        &&& forall|i: int, j: int| 0 <= i < j < self.processes@.len() ==> self.processes@[i].pid
            != self.processes@[j].pid
        &&& forall|i: int| 0 <= i < self.processes@.len() ==> (#[trigger] self.processes@[i]).wf()
        &&& forall|i: int, t: int| 0 <= i < self.processes@.len() && 0 <= t
            < self.processes@[i].tasks@.len() ==> (#[trigger] self.processes@[i].tasks@[t])
            < self.tasks@.len()
    }

    /// Well-formedness of the whole kernel context. Constructors establish
    /// it and every operation preserves it.
    pub open spec fn wf(self) -> bool {
        self.ready_wf() && self.running_wf() && self.timers_wf() && self.tasks_wf()
            && self.procs_wf()
    }

    /// The pid registry is unchanged.
    pub open spec fn same_procs(pre: Kernel, post: Kernel) -> bool {
        post.processes@ == pre.processes@
    }

    /// The timer queue is unchanged.
    pub open spec fn same_timers(pre: Kernel, post: Kernel) -> bool {
        post.timers.timers@ == pre.timers.timers@
    }

    /// Trap-vector selection and interrupt mask are unchanged.
    pub open spec fn same_hw(pre: Kernel, post: Kernel) -> bool {
        post.trap_entry == pre.trap_entry && post.timer_interrupt_enabled
            == pre.timer_interrupt_enabled
    }

    /// A freshly booted kernel: no tasks, no processes, nothing queued,
    /// the kernel trap vector installed, the timer interrupt masked.
    pub fn new() -> (r: Kernel)
        ensures
            r.tasks@ == Seq::<TaskControlBlock>::empty(),
            r.ready() == Seq::<usize>::empty(),
            r.current is None,
            r.processes@ == Seq::<ProcessControlBlock>::empty(),
            r.timers.timers@ == Seq::<TimerCondVar>::empty(),
            r.trap_entry == TrapEntry::ForKernel,
            !r.timer_interrupt_enabled,
            r.wf(),
    {
        Kernel {
            tasks: Vec::new(),
            manager: TaskManager::new(),
            current: None,
            processes: Vec::new(),
            timers: TimerQueue::new(),
            trap_entry: TrapEntry::ForKernel,
            timer_interrupt_enabled: false,
        }
    }

    /// Index of the process with pid `pid` in the registry, if registered.
    pub fn find_pid(&self, pid: usize) -> (r: Option<usize>)
        ensures
            (pid_index(self.processes@, pid) matches Some(i) ==> (r matches Some(u) && u as int
                == i)),
            (pid_index(self.processes@, pid) is None ==> r is None),
    {
        let mut idx: usize = 0;
        while idx < self.processes.len()
            invariant
                0 <= idx <= self.processes@.len(),
                forall|j: int| 0 <= j < idx ==> self.processes@[j].pid != pid,
            decreases self.processes@.len() - idx,
        {
            if self.processes[idx].pid == pid {
                proof {
                    lemma_pid_index_found(self.processes@, pid, idx as int);
                }
                return Some(idx);
            }
            idx = idx + 1;
        }
        proof {
            lemma_pid_index_missing(self.processes@, pid);
        }
        None
    }

    /// Look a process up by pid in the global registry.
    pub fn pid2process(&self, pid: usize) -> (r: Option<&ProcessControlBlock>)
        ensures
            match pid_index(self.processes@, pid) {
                Some(i) => r matches Some(p) && *p == self.processes@[i],
                None => r is None,
            },
    {
        proof {
            lemma_pid_index_bounds(self.processes@, pid);
        }
        match self.find_pid(pid) {
            Some(i) => Some(&self.processes[i]),
            None => None,
        }
    }

    /// Register a process under pid `pid` (called at process creation).
    /// Registering a pid twice replaces the earlier entry, as a map insert
    /// would.
    pub fn insert_into_pid2process(&mut self, pid: usize, process: ProcessControlBlock)
        requires
            old(self).wf(),
            process.pid == pid,
            process.wf(),
            forall|t: int| 0 <= t < process.tasks@.len() ==> (#[trigger] process.tasks@[t])
                < old(self).tasks@.len(),
        ensures
            final(self).wf(),
            match pid_index(old(self).processes@, pid) {
                Some(i) => final(self).processes@ == old(self).processes@.update(i, process),
                None => final(self).processes@ == old(self).processes@.push(process),
            },
            final(self).tasks@ == old(self).tasks@,
            final(self).ready() == old(self).ready(),
            final(self).current == old(self).current,
            Kernel::same_timers(*old(self), *final(self)),
            Kernel::same_hw(*old(self), *final(self)),
    {
        proof {
            lemma_pid_index_bounds(self.processes@, pid);
        }
        match self.find_pid(pid) {
            Some(i) => {
                self.processes[i] = process;
                proof {
                    let pre = old(self).processes@;
                    let post = self.processes@;
                    lemma_pid_index_bounds(pre, pid);
                    assert(pid_index(pre, pid) == Some(i as int));
                    assert(pre[i as int].pid == pid);
                    assert forall|a: int, b: int| 0 <= a < b < post.len() implies post[a].pid
                        != post[b].pid by {
                        if a == i as int {
                            assert(post[b] == pre[b]);
                            assert(pre[a].pid != pre[b].pid);
                            assert(pre[a].pid == pid);
                        } else if b == i as int {
                            assert(post[a] == pre[a]);
                            assert(pre[a].pid != pre[b].pid);
                            assert(pre[b].pid == pid);
                        } else {
                            assert(post[a] == pre[a] && post[b] == pre[b]);
                        }
                    }
                }
            },
            None => {
                self.processes.push(process);
            },
        }
    }

    /// Unregister pid `pid` (called exactly once at process exit). Removing
    /// a pid that is not registered is a fatal internal-consistency failure,
    /// excluded by the precondition.
    pub fn remove_from_pid2process(&mut self, pid: usize)
        requires
            old(self).wf(),
            pid_index(old(self).processes@, pid) is Some,
        ensures
            final(self).wf(),
            final(self).processes@ == old(self).processes@.remove(
                pid_index(old(self).processes@, pid).unwrap(),
            ),
            final(self).tasks@ == old(self).tasks@,
            final(self).ready() == old(self).ready(),
            final(self).current == old(self).current,
            Kernel::same_timers(*old(self), *final(self)),
            Kernel::same_hw(*old(self), *final(self)),
    {
        proof {
            lemma_pid_index_bounds(self.processes@, pid);
        }
        match self.find_pid(pid) {
            Some(i) => {
                self.processes.remove(i);
                proof {
                    let pre = old(self).processes@;
                    let post = self.processes@;
                    assert(post =~= pre.take(i as int) + pre.skip(i as int + 1));
                    assert forall|a: int| 0 <= a < post.len() implies post[a] == pre[
                        if a < i as int {
                            a
                        } else {
                            a + 1
                        }
                    ] by {}
                }
            },
            None => {},
        }
    }

    /// Set the status of one task, touching nothing else.
    fn set_status(&mut self, task: usize, status: TaskStatus)
        requires
            task < old(self).tasks@.len(),
        ensures
            final(self).tasks@ == old(self).tasks@.update(
                task as int,
                (TaskControlBlock { task_status: status, ..old(self).tasks@[task as int] }),
            ),
            final(self).manager.ready_queue@ == old(self).manager.ready_queue@,
            final(self).current == old(self).current,
            Kernel::same_procs(*old(self), *final(self)),
            Kernel::same_timers(*old(self), *final(self)),
            Kernel::same_hw(*old(self), *final(self)),
    {
        let t = &mut self.tasks[task];
        t.task_status = status;
    }

    /// The task currently executing, if any.
    pub fn current_task(&self) -> (r: Option<usize>)
        ensures
            r == self.current,
    {
        self.current
    }

    /// Register a new, uninitialized task owned by the process with pid
    /// `pid`, and return its task id.
    pub fn create_task(&mut self, pid: usize) -> (tid: usize)
        requires
            old(self).wf(),
            pid_index(old(self).processes@, pid) is Some,
        ensures
            final(self).wf(),
            tid == old(self).tasks@.len(),
            final(self).tasks@ == old(self).tasks@.push(
                (TaskControlBlock {
                    task_status: TaskStatus::UnInit,
                    ..final(self).tasks@[tid as int]
                }),
            ),
            final(self).tasks@[tid as int].process == pid,
            final(self).ready() == old(self).ready(),
            final(self).current == old(self).current,
            ({
                let pi = pid_index(old(self).processes@, pid).unwrap();
                final(self).processes@ == old(self).processes@.update(
                    pi,
                    (ProcessControlBlock {
                        tasks: final(self).processes@[pi].tasks,
                        ..old(self).processes@[pi]
                    }),
                ) && final(self).processes@[pi].tasks@ == old(self).processes@[pi].tasks@.push(tid)
            }),
            Kernel::same_timers(*old(self), *final(self)),
            Kernel::same_hw(*old(self), *final(self)),
    {
        proof {
            lemma_pid_index_bounds(self.processes@, pid);
        }
        let tid = self.tasks.len();
        self.tasks.push(TaskControlBlock::new(pid));
        match self.find_pid(pid) {
            Some(pi) => {
                let p = &mut self.processes[pi];
                p.tasks.push(tid);
            },
            None => {},
        }
        tid
    }

    /// Append a `Ready` task to the tail of the ready queue.
    pub fn add_task(&mut self, task: usize)
        requires
            old(self).wf(),
            task < old(self).tasks@.len(),
            old(self).status_of(task as int) == TaskStatus::Ready,
            !old(self).ready().contains(task),
        ensures
            final(self).wf(),
            final(self).ready() == old(self).ready().push(task),
            final(self).tasks@ == old(self).tasks@,
            final(self).current == old(self).current,
            Kernel::same_procs(*old(self), *final(self)),
            Kernel::same_timers(*old(self), *final(self)),
            Kernel::same_hw(*old(self), *final(self)),
    {
        self.manager.add(task);
    }

    /// The canonical wake primitive used by every blocking primitive and
    /// the timer: transition a `Blocked` task to `Ready` and enqueue it at
    /// the tail of the ready queue.
    pub fn wakeup_task(&mut self, task: usize)
        requires
            old(self).wf(),
            task < old(self).tasks@.len(),
            old(self).status_of(task as int) == TaskStatus::Blocked,
        ensures
            final(self).wf(),
            final(self).tasks@ == old(self).tasks@.update(
                task as int,
                (TaskControlBlock {
                    task_status: TaskStatus::Ready,
                    ..old(self).tasks@[task as int]
                }),
            ),
            final(self).ready() == old(self).ready().push(task),
            final(self).current == old(self).current,
            Kernel::same_procs(*old(self), *final(self)),
            Kernel::same_timers(*old(self), *final(self)),
            Kernel::same_hw(*old(self), *final(self)),
    {
        proof {
            if old(self).ready().contains(task) {
                let i = choose|i: int| 0 <= i < old(self).ready().len() && old(self).ready()[i]
                    == task;
                assert(old(self).status_of(task as int) == TaskStatus::Ready);
            }
        }
        self.set_status(task, TaskStatus::Ready);
        self.manager.add(task);
    }

    /// Take a freshly created (`UnInit`) task into scheduling: it becomes
    /// `Ready` and joins the tail of the ready queue.
    pub fn start_task(&mut self, task: usize)
        requires
            old(self).wf(),
            task < old(self).tasks@.len(),
            old(self).status_of(task as int) == TaskStatus::UnInit,
        ensures
            final(self).wf(),
            final(self).tasks@ == old(self).tasks@.update(
                task as int,
                (TaskControlBlock {
                    task_status: TaskStatus::Ready,
                    ..old(self).tasks@[task as int]
                }),
            ),
            final(self).ready() == old(self).ready().push(task),
            final(self).current == old(self).current,
            Kernel::same_procs(*old(self), *final(self)),
            Kernel::same_timers(*old(self), *final(self)),
            Kernel::same_hw(*old(self), *final(self)),
    {
        proof {
            if old(self).ready().contains(task) {
                let i = choose|i: int| 0 <= i < old(self).ready().len() && old(self).ready()[i]
                    == task;
                assert(old(self).status_of(task as int) == TaskStatus::Ready);
            }
        }
        self.set_status(task, TaskStatus::Ready);
        self.manager.add(task);
    }

    /// Pull a specific task out of the ready queue without fetching it
    /// (used when a task must leave the ready state, e.g. a racing exit).
    pub fn remove_task(&mut self, task: usize)
        requires
            old(self).wf(),
        ensures
            final(self).wf(),
            match crate::manager::first_pos(old(self).ready(), task) {
                Some(i) => final(self).ready() == old(self).ready().remove(i),
                None => final(self).ready() == old(self).ready(),
            },
            final(self).tasks@ == old(self).tasks@,
            final(self).current == old(self).current,
            Kernel::same_procs(*old(self), *final(self)),
            Kernel::same_timers(*old(self), *final(self)),
            Kernel::same_hw(*old(self), *final(self)),
    {
        self.manager.remove(task);
        proof {
            let pre = old(self).ready();
            crate::manager::lemma_first_pos_bounds(pre, task);
            match crate::manager::first_pos(pre, task) {
                Some(i) => {
                    assert(self.ready() =~= pre.take(i) + pre.skip(i + 1));
                    assert forall|a: int| 0 <= a < self.ready().len() implies self.ready()[a]
                        == pre[
                        if a < i {
                            a
                        } else {
                            a + 1
                        }
                    ] by {}
                    assert forall|a: int, b: int| 0 <= a < b < self.ready().len() implies self.ready()[a]
                        != self.ready()[b] by {
                        let pa = if a < i { a } else { a + 1 };
                        let pb = if b < i { b } else { b + 1 };
                        assert(pre[pa] != pre[pb]);
                    }
                },
                None => {},
            }
        }
    }

    /// Pop the head of the ready queue, or signal emptiness. The caller is
    /// the processor loop; the task stays `Ready` until it is switched to.
    pub fn fetch_task(&mut self) -> (r: Option<usize>)
        requires
            old(self).wf(),
        ensures
            final(self).wf(),
            old(self).ready().len() == 0 ==> r is None && final(self).ready() == old(self).ready(),
            old(self).ready().len() > 0 ==> r == Some(old(self).ready()[0]) && final(self).ready()
                == old(self).ready().drop_first(),
            final(self).tasks@ == old(self).tasks@,
            final(self).current == old(self).current,
            Kernel::same_procs(*old(self), *final(self)),
            Kernel::same_timers(*old(self), *final(self)),
            Kernel::same_hw(*old(self), *final(self)),
    {
        self.manager.fetch()
    }

    /// With the hart idle, fetch the next ready task and make it the
    /// running one; `None` signals the idle condition (the caller must wait
    /// for an interrupt).
    pub fn schedule(&mut self) -> (r: Option<usize>)
        requires
            old(self).wf(),
            old(self).current is None,
        ensures
            final(self).wf(),
            old(self).ready().len() == 0 ==> r is None && final(self).current is None
                && final(self).ready() == old(self).ready() && final(self).tasks@
                == old(self).tasks@,
            old(self).ready().len() > 0 ==> ({
                let h = old(self).ready()[0];
                &&& r == Some(h)
                &&& final(self).current == Some(h)
                &&& final(self).ready() == old(self).ready().drop_first()
                &&& final(self).tasks@ == old(self).tasks@.update(
                    h as int,
                    (TaskControlBlock {
                        task_status: TaskStatus::Running,
                        ..old(self).tasks@[h as int]
                    }),
                )
            }),
            Kernel::same_procs(*old(self), *final(self)),
            Kernel::same_timers(*old(self), *final(self)),
            Kernel::same_hw(*old(self), *final(self)),
    {
        match self.manager.fetch() {
            Some(h) => {
                self.set_status(h, TaskStatus::Running);
                self.current = Some(h);
                proof {
                    let pre = old(self).ready();
                    assert forall|a: int, b: int| 0 <= a < b < self.ready().len() implies self.ready()[a]
                        != self.ready()[b] by {
                        assert(pre[a + 1] != pre[b + 1]);
                    }
                    assert forall|a: int| 0 <= a < self.ready().len() implies (
                    #[trigger] self.ready()[a]) < self.tasks@.len()
                        && self.tasks@[self.ready()[a] as int].task_status
                        == TaskStatus::Ready by {
                        assert(self.ready()[a] == pre[a + 1]);
                        assert(pre[a + 1] != pre[0]);
                    }
                    lemma_vec_len_bound(&self.tasks);
                    assert forall|t: int| 0 <= t < self.tasks@.len() implies ((
                    #[trigger] self.tasks@[t].task_status) == TaskStatus::Running
                        <==> self.current == Some(t as usize)) by {
                        if t != pre[0] as int {
                            assert(old(self).tasks@[t].task_status != TaskStatus::Running);
                            assert(t as usize != pre[0]);
                        }
                    }
                }
                Some(h)
            },
            None => None,
        }
    }

    /// The effect of suspending the running task of `pre` back into the
    /// ready queue and scheduling the head of the queue: what
    /// `suspend_current_and_run_next` does.
    pub open spec fn suspended_and_ran_next(pre: Kernel, post: Kernel) -> bool {
        let cur = pre.current.unwrap();
        let q = pre.ready().push(cur);
        &&& post.current == Some(q[0])
        &&& post.ready() == q.drop_first()
        &&& post.tasks@ == pre.tasks@.update(
            cur as int,
            (TaskControlBlock { task_status: TaskStatus::Ready, ..pre.tasks@[cur as int] }),
        ).update(
            q[0] as int,
            (TaskControlBlock { task_status: TaskStatus::Running, ..pre.tasks@[q[0] as int] }),
        )
        &&& Kernel::same_procs(pre, post)
        &&& Kernel::same_timers(pre, post)
        &&& Kernel::same_hw(pre, post)
    }

    /// Voluntary preemption point: the running task goes back to `Ready` at
    /// the tail of the ready queue, and the head of the queue (possibly the
    /// same task, when it was alone) becomes the running one.
    pub fn suspend_current_and_run_next(&mut self)
        requires
            old(self).wf(),
            old(self).current is Some,
        ensures
            final(self).wf(),
            Kernel::suspended_and_ran_next(*old(self), *final(self)),
    {
        let cur = self.current.unwrap();
        self.set_status(cur, TaskStatus::Ready);
        self.manager.add(cur);
        self.current = None;
        proof {
            lemma_vec_len_bound(&self.tasks);
            let pre = old(self).ready();
            assert forall|i: int| 0 <= i < self.ready().len() implies (#[trigger] self.ready()[i])
                < self.tasks@.len() && self.tasks@[self.ready()[i] as int].task_status
                == TaskStatus::Ready by {
                if i < pre.len() {
                    assert(old(self).tasks@[pre[i] as int].task_status == TaskStatus::Ready);
                    assert(pre[i] != cur);
                }
            }
            assert forall|a: int, b: int| 0 <= a < b < self.ready().len() implies self.ready()[a]
                != self.ready()[b] by {
                if b == self.ready().len() - 1 {
                    assert(old(self).tasks@[pre[a] as int].task_status == TaskStatus::Ready);
                }
            }
            assert forall|t: int| 0 <= t < self.tasks@.len() implies ((
            #[trigger] self.tasks@[t].task_status) != TaskStatus::Running) by {
                if t != cur as int {
                    assert(old(self).tasks@[t].task_status == TaskStatus::Running <==> old(
                        self,
                    ).current == Some(t as usize));
                }
            }
        }
        self.schedule();
        proof {
            let cur_g = old(self).current.unwrap();
            let q = old(self).ready().push(cur_g);
            assert(final(self).tasks@ =~= old(self).tasks@.update(
                cur_g as int,
                (TaskControlBlock {
                    task_status: TaskStatus::Ready,
                    ..old(self).tasks@[cur_g as int]
                }),
            ).update(
                q[0] as int,
                (TaskControlBlock {
                    task_status: TaskStatus::Running,
                    ..old(self).tasks@[q[0] as int]
                }),
            ));
        }
    }

    /// Block the running task without scheduling a successor: its status
    /// becomes `Blocked`, the hart is left idle, and the task id is
    /// returned as the handle to the suspended context. The caller has
    /// already queued (or will queue) the task on exactly one wait queue.
    pub fn block_current_task(&mut self) -> (tid: usize)
        requires
            old(self).wf(),
            old(self).current is Some,
        ensures
            final(self).wf(),
            tid == old(self).current.unwrap(),
            final(self).current is None,
            final(self).tasks@ == old(self).tasks@.update(
                tid as int,
                (TaskControlBlock {
                    task_status: TaskStatus::Blocked,
                    ..old(self).tasks@[tid as int]
                }),
            ),
            final(self).ready() == old(self).ready(),
            Kernel::same_procs(*old(self), *final(self)),
            Kernel::same_timers(*old(self), *final(self)),
            Kernel::same_hw(*old(self), *final(self)),
    {
        let cur = self.current.unwrap();
        self.set_status(cur, TaskStatus::Blocked);
        self.current = None;
        proof {
            lemma_vec_len_bound(&self.tasks);
            let pre = old(self).ready();
            assert forall|i: int| 0 <= i < self.ready().len() implies (#[trigger] self.ready()[i])
                < self.tasks@.len() && self.tasks@[self.ready()[i] as int].task_status
                == TaskStatus::Ready by {
                assert(old(self).tasks@[pre[i] as int].task_status == TaskStatus::Ready);
                assert(pre[i] != cur);
            }
            assert forall|t: int| 0 <= t < self.tasks@.len() implies ((
            #[trigger] self.tasks@[t].task_status) != TaskStatus::Running) by {
                if t != cur as int {
                    assert(old(self).tasks@[t].task_status == TaskStatus::Running <==> old(
                        self,
                    ).current == Some(t as usize));
                }
            }
        }
        cur
    }

    /// The effect of blocking the running task of `pre` and scheduling the
    /// head of its ready queue (the hart goes idle when the queue is
    /// empty): what `block_current_and_run_next` does.
    pub open spec fn blocked_and_ran_next(pre: Kernel, post: Kernel) -> bool {
        let cur = pre.current.unwrap();
        let t1 = pre.tasks@.update(
            cur as int,
            (TaskControlBlock { task_status: TaskStatus::Blocked, ..pre.tasks@[cur as int] }),
        );
        &&& if pre.ready().len() > 0 {
            let h = pre.ready()[0];
            &&& post.current == Some(h)
            &&& post.ready() == pre.ready().drop_first()
            &&& post.tasks@ == t1.update(
                h as int,
                (TaskControlBlock { task_status: TaskStatus::Running, ..pre.tasks@[h as int] }),
            )
        } else {
            &&& post.current is None
            &&& post.ready() == pre.ready()
            &&& post.tasks@ == t1
        }
        &&& Kernel::same_procs(pre, post)
        &&& Kernel::same_timers(pre, post)
        &&& Kernel::same_hw(pre, post)
    }

    /// Block the running task and schedule the next ready one, if any:
    /// the suspension path of every blocking primitive.
    pub fn block_current_and_run_next(&mut self)
        requires
            old(self).wf(),
            old(self).current is Some,
        ensures
            final(self).wf(),
            Kernel::blocked_and_ran_next(*old(self), *final(self)),
    {
        let cur = self.block_current_task();
        self.schedule();
        proof {
            if old(self).ready().len() > 0 {
                let h = old(self).ready()[0];
                let t1 = old(self).tasks@.update(
                    cur as int,
                    (TaskControlBlock {
                        task_status: TaskStatus::Blocked,
                        ..old(self).tasks@[cur as int]
                    }),
                );
                assert(old(self).tasks@[h as int].task_status == TaskStatus::Ready);
                assert(h != cur);
                assert(final(self).tasks@ =~= t1.update(
                    h as int,
                    (TaskControlBlock {
                        task_status: TaskStatus::Running,
                        ..old(self).tasks@[h as int]
                    }),
                ));
            }
        }
    }

    /// Every task the process owns is a `Zombie` in the given task table.
    pub open spec fn proc_tasks_zombie(p: ProcessControlBlock, tasks: Seq<TaskControlBlock>) -> bool {
        forall|j: int| 0 <= j < p.tasks@.len() ==> tasks[(#[trigger] p.tasks@[j]) as int].task_status
            == TaskStatus::Zombie
    }

    /// Whether every task owned by the process at registry index `pi` is a
    /// `Zombie`.
    fn proc_all_zombie(&self, pi: usize) -> (r: bool)
        requires
            self.wf(),
            pi < self.processes@.len(),
        ensures
            r == Kernel::proc_tasks_zombie(self.processes@[pi as int], self.tasks@),
    {
        let mut j: usize = 0;
        let mut r = true;
        while j < self.processes[pi].tasks.len()
            invariant
                self.wf(),
                pi < self.processes@.len(),
                0 <= j <= self.processes@[pi as int].tasks@.len(),
                r == (forall|x: int| 0 <= x < j ==> self.tasks@[(
                #[trigger] self.processes@[pi as int].tasks@[x]) as int].task_status
                    == TaskStatus::Zombie),
            decreases self.processes@[pi as int].tasks@.len() - j,
        {
            let tid = self.processes[pi].tasks[j];
            if !(matches!(self.tasks[tid].task_status, TaskStatus::Zombie)) {
                r = false;
            }
            j = j + 1;
        }
        r
    }

    /// The effect of terminating the running task of `pre` with
    /// `exit_code` and scheduling the head of the ready queue: what
    /// `exit_current_and_run_next` does.
    pub open spec fn exited_and_ran_next(pre: Kernel, post: Kernel, exit_code: i32) -> bool {
        let cur = pre.current.unwrap();
        let t1 = pre.tasks@.update(
            cur as int,
            (TaskControlBlock {
                task_status: TaskStatus::Zombie,
                exit_code: exit_code,
                ..pre.tasks@[cur as int]
            }),
        );
        let pi = pid_index(pre.processes@, pre.tasks@[cur as int].process).unwrap();
        &&& post.processes@ == if Kernel::proc_tasks_zombie(pre.processes@[pi], t1) {
            pre.processes@.remove(pi)
        } else {
            pre.processes@
        }
        &&& if pre.ready().len() > 0 {
            let h = pre.ready()[0];
            &&& post.current == Some(h)
            &&& post.ready() == pre.ready().drop_first()
            &&& post.tasks@ == t1.update(
                h as int,
                (TaskControlBlock { task_status: TaskStatus::Running, ..pre.tasks@[h as int] }),
            )
        } else {
            &&& post.current is None
            &&& post.ready() == pre.ready()
            &&& post.tasks@ == t1
        }
        &&& Kernel::same_timers(pre, post)
        &&& Kernel::same_hw(pre, post)
    }

    /// Terminate the running task with `exit_code`: it becomes `Zombie`
    /// (terminal), its process leaves the pid registry once this was its
    /// last live task, and the next ready task (if any) is scheduled.
    pub fn exit_current_and_run_next(&mut self, exit_code: i32)
        requires
            old(self).wf(),
            old(self).current is Some,
            pid_index(
                old(self).processes@,
                old(self).tasks@[old(self).current.unwrap() as int].process,
            ) is Some,
        ensures
            final(self).wf(),
            Kernel::exited_and_ran_next(*old(self), *final(self), exit_code),
    {
        let cur = self.current.unwrap();
        let pid = self.tasks[cur].process;
        {
            let t = &mut self.tasks[cur];
            t.task_status = TaskStatus::Zombie;
            t.exit_code = exit_code;
        }
        self.current = None;
        proof {
            lemma_vec_len_bound(&self.tasks);
            let pre = old(self).ready();
            assert forall|i: int| 0 <= i < self.ready().len() implies (#[trigger] self.ready()[i])
                < self.tasks@.len() && self.tasks@[self.ready()[i] as int].task_status
                == TaskStatus::Ready by {
                assert(old(self).tasks@[pre[i] as int].task_status == TaskStatus::Ready);
                assert(pre[i] != cur);
            }
            assert forall|t: int| 0 <= t < self.tasks@.len() implies ((
            #[trigger] self.tasks@[t].task_status) != TaskStatus::Running) by {
                if t != cur as int {
                    assert(old(self).tasks@[t].task_status == TaskStatus::Running <==> old(
                        self,
                    ).current == Some(t as usize));
                }
            }
        }
        proof {
            lemma_pid_index_bounds(self.processes@, pid);
        }
        match self.find_pid(pid) {
            Some(pi) => {
                if self.proc_all_zombie(pi) {
                    self.remove_from_pid2process(pid);
                }
            },
            None => {},
        }
        self.schedule();
    }

    /// Raise signals against the running task's process (how the trap
    /// dispatcher converts a task-level fault into a signal instead of a
    /// kernel panic).
    pub fn current_add_signal(&mut self, signal: SignalFlags)
        requires
            old(self).wf(),
            old(self).current is Some,
            pid_index(
                old(self).processes@,
                old(self).tasks@[old(self).current.unwrap() as int].process,
            ) is Some,
        ensures
            final(self).wf(),
            ({
                let pi = pid_index(
                    old(self).processes@,
                    old(self).tasks@[old(self).current.unwrap() as int].process,
                ).unwrap();
                final(self).processes@ == old(self).processes@.update(
                    pi,
                    (ProcessControlBlock {
                        signals: old(self).processes@[pi].signals.spec_or(signal),
                        ..old(self).processes@[pi]
                    }),
                )
            }),
            final(self).tasks@ == old(self).tasks@,
            final(self).ready() == old(self).ready(),
            final(self).current == old(self).current,
            Kernel::same_timers(*old(self), *final(self)),
            Kernel::same_hw(*old(self), *final(self)),
    {
        let cur = self.current.unwrap();
        let pid = self.tasks[cur].process;
        proof {
            lemma_pid_index_bounds(self.processes@, pid);
        }
        match self.find_pid(pid) {
            Some(pi) => {
                let p = &mut self.processes[pi];
                p.signals.insert(signal);
                proof {
                    let pre = old(self).processes@;
                    let post = self.processes@;
                    assert forall|a: int, b: int| 0 <= a < b < post.len() implies post[a].pid
                        != post[b].pid by {
                        assert(pre[a].pid == post[a].pid && pre[b].pid == post[b].pid);
                    }
                }
            },
            None => {},
        }
    }

    /// Check the running task's process for a pending terminating signal:
    /// the exit code and a diagnostic if one is pending.
    pub fn check_signals_of_current(&self) -> (r: Option<(i32, &'static str)>)
        requires
            self.wf(),
            self.current is Some,
            pid_index(self.processes@, self.tasks@[self.current.unwrap() as int].process) is Some,
        ensures
            ({
                let pi = pid_index(
                    self.processes@,
                    self.tasks@[self.current.unwrap() as int].process,
                ).unwrap();
                let sf = self.processes@[pi].signals;
                &&& (r is Some) == sf.any()
                &&& (r matches Some(p) ==> Some(p.0) == sf.first_error_code())
            }),
    {
        let cur = self.current.unwrap();
        let pid = self.tasks[cur].process;
        proof {
            lemma_pid_index_bounds(self.processes@, pid);
        }
        match self.find_pid(pid) {
            Some(pi) => self.processes[pi].signals.check_error(),
            None => None,
        }
    }

    /// Count one invocation of syscall `id` against the running task. A
    /// counter that has reached its ceiling stays there.
    pub fn count_syscall(&mut self, id: usize)
        requires
            old(self).wf(),
            old(self).current is Some,
            id < MAX_SYSCALL_NUM,
        ensures
            final(self).wf(),
            ({
                let cur = old(self).current.unwrap() as int;
                let pre = old(self).tasks@[cur];
                let c = pre.task_info.syscall_times@[id as int];
                let nc: u32 = if c < u32::MAX {
                    (c + 1) as u32
                } else {
                    c
                };
                &&& final(self).tasks@.len() == old(self).tasks@.len()
                &&& forall|t: int| 0 <= t < old(self).tasks@.len() && t != cur
                    ==> final(self).tasks@[t] == old(self).tasks@[t]
                &&& final(self).tasks@[cur].task_status == pre.task_status
                &&& final(self).tasks@[cur].task_cx == pre.task_cx
                &&& final(self).tasks@[cur].trap_cx == pre.trap_cx
                &&& final(self).tasks@[cur].time == pre.time
                &&& final(self).tasks@[cur].process == pre.process
                &&& final(self).tasks@[cur].exit_code == pre.exit_code
                &&& final(self).tasks@[cur].task_info.status == pre.task_info.status
                &&& final(self).tasks@[cur].task_info.time_duration == pre.task_info.time_duration
                &&& final(self).tasks@[cur].task_info.syscall_times@
                    == pre.task_info.syscall_times@.update(id as int, nc)
            }),
            final(self).ready() == old(self).ready(),
            final(self).current == old(self).current,
            Kernel::same_procs(*old(self), *final(self)),
            Kernel::same_timers(*old(self), *final(self)),
            Kernel::same_hw(*old(self), *final(self)),
    {
        let cur = self.current.unwrap();
        let t = &mut self.tasks[cur];
        let c = t.task_info.syscall_times[id];
        let nc = if c < u32::MAX {
            c + 1
        } else {
            c
        };
        t.task_info.syscall_times.set(id, nc);
    }

    /// Record the running task's time accounting slot, in milliseconds.
    pub fn modify_time(&mut self, t: usize)
        requires
            old(self).wf(),
            old(self).current is Some,
        ensures
            final(self).wf(),
            ({
                let cur = old(self).current.unwrap() as int;
                final(self).tasks@ == old(self).tasks@.update(
                    cur,
                    (TaskControlBlock {
                        task_info: (TaskInfo {
                            time_duration: t,
                            ..old(self).tasks@[cur].task_info
                        }),
                        ..old(self).tasks@[cur]
                    }),
                )
            }),
            final(self).ready() == old(self).ready(),
            final(self).current == old(self).current,
            Kernel::same_procs(*old(self), *final(self)),
            Kernel::same_timers(*old(self), *final(self)),
            Kernel::same_hw(*old(self), *final(self)),
    {
        let cur = self.current.unwrap();
        let tk = &mut self.tasks[cur];
        tk.task_info.time_duration = t;
    }

    /// A snapshot of the running task's accounting record, with its live
    /// status.
    pub fn get_info(&self) -> (r: TaskInfo)
        requires
            self.wf(),
            self.current is Some,
        ensures
            ({
                let cur = self.current.unwrap() as int;
                &&& r.status == self.tasks@[cur].task_status
                &&& r.syscall_times@ == self.tasks@[cur].task_info.syscall_times@
                &&& r.time_duration == self.tasks@[cur].task_info.time_duration
            }),
    {
        let cur = self.current.unwrap();
        let t = &self.tasks[cur];
        let info = TaskInfo {
            status: t.task_status,
            syscall_times: t.task_info.syscall_times.clone(),
            time_duration: t.task_info.time_duration,
        };
        proof {
            assert(info.syscall_times@ =~= t.task_info.syscall_times@);
        }
        info
    }

    /// Register a timer-driven wakeup of `task` at time `expire_ms` (used
    /// by sleep and by the blocking primitives' timed waits).
    pub fn add_timer(&mut self, expire_ms: usize, task: usize)
        requires
            old(self).wf(),
            task < old(self).tasks@.len(),
            !has_task(old(self).timers.timers@, task),
        ensures
            final(self).wf(),
            final(self).timers.timers@ == old(self).timers.timers@.insert(
                split_point(old(self).timers.timers@, expire_ms),
                TimerCondVar { expire_ms, task },
            ),
            final(self).tasks@ == old(self).tasks@,
            final(self).ready() == old(self).ready(),
            final(self).current == old(self).current,
            Kernel::same_procs(*old(self), *final(self)),
            Kernel::same_hw(*old(self), *final(self)),
    {
        self.timers.add_timer(expire_ms, task);
        proof {
            crate::timer::lemma_split_point_bounds(old(self).timers.timers@, expire_ms);
            let pre = old(self).timers.timers@;
            let i = split_point(pre, expire_ms);
            assert(self.timers.timers@ =~= pre.take(i).push(TimerCondVar { expire_ms, task })
                + pre.skip(i));
            assert forall|j: int| 0 <= j < self.timers.timers@.len() implies (
            #[trigger] self.timers.timers@[j]).task < self.tasks@.len() by {
                if j != i {
                    assert(self.timers.timers@[j] == pre[
                        if j < i {
                            j
                        } else {
                            j - 1
                        }
                    ]);
                }
            }
        }
    }

    /// Cancel every pending wakeup of `task` (used when a timed wait is
    /// satisfied by another path before its deadline).
    pub fn remove_timer(&mut self, task: usize)
        requires
            old(self).wf(),
        ensures
            final(self).wf(),
            final(self).timers.timers@ == crate::timer::without_task(
                old(self).timers.timers@,
                task,
            ),
            final(self).tasks@ == old(self).tasks@,
            final(self).ready() == old(self).ready(),
            final(self).current == old(self).current,
            Kernel::same_procs(*old(self), *final(self)),
            Kernel::same_hw(*old(self), *final(self)),
    {
        self.timers.remove_timer(task);
        proof {
            crate::timer::lemma_without_task_entries(old(self).timers.timers@, task);
            assert forall|j: int| 0 <= j < self.timers.timers@.len() implies (
            #[trigger] self.timers.timers@[j]).task < self.tasks@.len() by {
                let m = choose|m: int| 0 <= m < old(self).timers.timers@.len() && old(
                    self,
                ).timers.timers@[m] == self.timers.timers@[j];
                assert(old(self).timers.timers@[m].task < self.tasks@.len());
            }
        }
    }

    /// Process timer expiry at time `current_ms` (invoked on every timer
    /// interrupt): wake exactly the tasks whose deadline has passed, in
    /// ascending deadline order, and leave the other entries intact. The
    /// precondition models the interrupt-masked discipline: a task with a
    /// pending timer has blocked before the timer can fire.
    pub fn check_timer(&mut self, current_ms: usize)
        requires
            old(self).wf(),
            forall|i: int| 0 <= i < split_point(old(self).timers.timers@, current_ms)
                ==> old(self).tasks@[(#[trigger] old(self).timers.timers@[i]).task as int].task_status
                == TaskStatus::Blocked,
        ensures
            final(self).wf(),
            ({
                let tm = old(self).timers.timers@;
                let k = split_point(tm, current_ms);
                &&& final(self).timers.timers@ == tm.skip(k)
                &&& final(self).ready() == old(self).ready() + tm.take(k).map_values(
                    |e: TimerCondVar| e.task,
                )
                &&& only_statuses_changed(old(self).tasks@, final(self).tasks@)
                &&& forall|j: int| 0 <= j < k ==> final(self).tasks@[(
                #[trigger] tm[j]).task as int].task_status == TaskStatus::Ready
                &&& forall|t: int|
                    #![trigger final(self).tasks@[t]]
                    0 <= t < old(self).tasks@.len() && !(exists|j: int|
                        0 <= j < k && (#[trigger] tm[j]).task == t) ==> final(self).tasks@[t]
                        == old(self).tasks@[t]
            }),
            final(self).current == old(self).current,
            Kernel::same_procs(*old(self), *final(self)),
            Kernel::same_hw(*old(self), *final(self)),
    {
        let ghost tm = old(self).timers.timers@;
        let ghost k = split_point(tm, current_ms);
        proof {
            crate::timer::lemma_split_point_bounds(tm, current_ms);
        }
        let ghost mut popped: int = 0;
        while self.timers.timers.len() > 0 && self.timers.timers[0].expire_ms <= current_ms
            invariant
                0 <= popped <= k <= tm.len(),
                k == split_point(tm, current_ms),
                sorted_by_expiry(tm),
                distinct_tasks(tm),
                forall|j: int| 0 <= j < k ==> (#[trigger] tm[j]).expire_ms <= current_ms,
                forall|j: int| k <= j < tm.len() ==> (#[trigger] tm[j]).expire_ms > current_ms,
                forall|j: int| 0 <= j < tm.len() ==> (#[trigger] tm[j]).task
                    < old(self).tasks@.len(),
                self.timers.timers@ == tm.skip(popped),
                self.ready() == old(self).ready() + tm.take(popped).map_values(
                    |e: TimerCondVar| e.task,
                ),
                only_statuses_changed(old(self).tasks@, self.tasks@),
                forall|j: int| 0 <= j < popped ==> self.tasks@[(
                #[trigger] tm[j]).task as int].task_status == TaskStatus::Ready,
                forall|j: int| popped <= j < k ==> self.tasks@[(
                #[trigger] tm[j]).task as int].task_status == TaskStatus::Blocked,
                forall|t: int|
                    #![trigger self.tasks@[t]]
                    0 <= t < old(self).tasks@.len() && !(exists|j: int|
                        0 <= j < popped && (#[trigger] tm[j]).task == t) ==> self.tasks@[t]
                        == old(self).tasks@[t],
                self.current == old(self).current,
                Kernel::same_procs(*old(self), *self),
                Kernel::same_hw(*old(self), *self),
                self.wf(),
            decreases self.timers.timers@.len(),
        {
            proof {
                assert(self.timers.timers@[0] == tm[popped]);
                if popped >= k {
                    assert(tm[popped].expire_ms > current_ms);
                }
            }
            let timer = self.timers.timers[0];
            self.timers.timers.remove(0);
            proof {
                assert(self.timers.timers@ =~= tm.skip(popped + 1));
                assert forall|a: int, b: int| 0 <= a < b < self.timers.timers@.len() implies (
                self.timers.timers@[a].expire_ms <= self.timers.timers@[b].expire_ms
                    && self.timers.timers@[a].task != self.timers.timers@[b].task) by {
                    assert(self.timers.timers@[a] == tm[popped + 1 + a]);
                    assert(self.timers.timers@[b] == tm[popped + 1 + b]);
                }
                assert forall|j: int| 0 <= j < self.timers.timers@.len() implies (
                #[trigger] self.timers.timers@[j]).task < self.tasks@.len() by {
                    assert(self.timers.timers@[j] == tm[popped + 1 + j]);
                }
            }
            self.wakeup_task(timer.task);
            proof {
                let prev = popped;
                popped = popped + 1;
                assert(tm.take(popped).map_values(|e: TimerCondVar| e.task) =~= tm.take(
                    prev,
                ).map_values(|e: TimerCondVar| e.task).push(tm[prev].task));
                assert forall|j: int| popped <= j < k implies self.tasks@[(
                #[trigger] tm[j]).task as int].task_status == TaskStatus::Blocked by {
                    assert(tm[j].task != tm[prev].task);
                }
                assert forall|j: int| 0 <= j < popped implies self.tasks@[(
                #[trigger] tm[j]).task as int].task_status == TaskStatus::Ready by {
                    if j < prev {
                        assert(tm[j].task != tm[prev].task);
                    }
                }
            }
        }
        proof {
            if popped < k {
                assert(tm.skip(popped).len() > 0);
                assert(self.timers.timers@[0] == tm[popped]);
                assert(tm[popped].expire_ms <= current_ms);
            }
        }
    }
}

/// The suspension path of the blocking primitives makes only lawful
/// lifecycle transitions: any task whose status differs after
/// `block_current_and_run_next` moved along one edge of the task state
/// machine (the blocker `Running -> Blocked`, the scheduled head
/// `Ready -> Running`).
pub proof fn lemma_block_step_follows_lifecycle(pre: Kernel, post: Kernel)
    requires
        pre.wf(),
        pre.current is Some,
        Kernel::blocked_and_ran_next(pre, post),
    ensures
        forall|t: int| 0 <= t < pre.tasks@.len() && pre.tasks@[t].task_status != (
        #[trigger] post.tasks@[t]).task_status ==> status_can_step(
            pre.tasks@[t].task_status,
            post.tasks@[t].task_status,
        ),
{
    let cur = pre.current.unwrap();
    assert(pre.tasks@[cur as int].task_status == TaskStatus::Running);
    assert forall|t: int| 0 <= t < pre.tasks@.len() && pre.tasks@[t].task_status != (
    #[trigger] post.tasks@[t]).task_status implies status_can_step(
        pre.tasks@[t].task_status,
        post.tasks@[t].task_status,
    ) by {
        if pre.ready().len() > 0 {
            let h = pre.ready()[0];
            assert(pre.tasks@[h as int].task_status == TaskStatus::Ready);
        }
    }
}

/// The voluntary preemption point makes only lawful lifecycle transitions:
/// after `suspend_current_and_run_next`, the yielder moved
/// `Running -> Ready` (unless it was alone and runs again), and the
/// scheduled head moved `Ready -> Running`.
pub proof fn lemma_suspend_step_follows_lifecycle(pre: Kernel, post: Kernel)
    requires
        pre.wf(),
        pre.current is Some,
        Kernel::suspended_and_ran_next(pre, post),
    ensures
        forall|t: int| 0 <= t < pre.tasks@.len() && pre.tasks@[t].task_status != (
        #[trigger] post.tasks@[t]).task_status ==> status_can_step(
            pre.tasks@[t].task_status,
            post.tasks@[t].task_status,
        ),
{
    let cur = pre.current.unwrap();
    assert(pre.tasks@[cur as int].task_status == TaskStatus::Running);
    assert forall|t: int| 0 <= t < pre.tasks@.len() && pre.tasks@[t].task_status != (
    #[trigger] post.tasks@[t]).task_status implies status_can_step(
        pre.tasks@[t].task_status,
        post.tasks@[t].task_status,
    ) by {
        let q = pre.ready().push(cur);
        if q[0] != cur {
            assert(pre.tasks@[q[0] as int].task_status == TaskStatus::Ready);
        }
    }
}

/// Task termination makes only lawful lifecycle transitions: the exiting
/// task moved `Running -> Zombie` (terminal), and the scheduled head moved
/// `Ready -> Running`.
pub proof fn lemma_exit_step_follows_lifecycle(pre: Kernel, post: Kernel, exit_code: i32)
    requires
        pre.wf(),
        pre.current is Some,
        Kernel::exited_and_ran_next(pre, post, exit_code),
    ensures
        forall|t: int| 0 <= t < pre.tasks@.len() && pre.tasks@[t].task_status != (
        #[trigger] post.tasks@[t]).task_status ==> status_can_step(
            pre.tasks@[t].task_status,
            post.tasks@[t].task_status,
        ),
{
    let cur = pre.current.unwrap();
    assert(pre.tasks@[cur as int].task_status == TaskStatus::Running);
    assert forall|t: int| 0 <= t < pre.tasks@.len() && pre.tasks@[t].task_status != (
    #[trigger] post.tasks@[t]).task_status implies status_can_step(
        pre.tasks@[t].task_status,
        post.tasks@[t].task_status,
    ) by {
        if pre.ready().len() > 0 {
            let h = pre.ready()[0];
            assert(pre.tasks@[h as int].task_status == TaskStatus::Ready);
            assert(h != cur);
        }
    }
}

} // verus!
