//! The data model of a schedulable unit of execution: its lifecycle status,
//! its saved register contexts, and its accounting record.

use vstd::prelude::*;

verus! {

/// Upper bound (exclusive) on the syscall numbers the per-task invocation
/// counters cover; every dispatched syscall number lies below it.
pub const MAX_SYSCALL_NUM: usize = 500;

/// The status of a task in its lifecycle.
#[derive(Copy, Clone, PartialEq, Eq, Structural, Debug)]
pub enum TaskStatus {
    /// Created but not yet eligible to run.
    UnInit,
    /// In the ready queue, eligible to be scheduled.
    Ready,
    /// The one task currently executing on the hart.
    Running,
    /// Parked in a synchronization primitive's or the timer's wait queue.
    Blocked,
    /// Exited; terminal.
    Zombie,
}

/// The task lifecycle state machine: the only status changes the kernel
/// ever performs. `Zombie` is terminal.
pub open spec fn status_can_step(pre: TaskStatus, post: TaskStatus) -> bool {
    ||| (pre == TaskStatus::UnInit && post == TaskStatus::Ready)
    ||| (pre == TaskStatus::Ready && post == TaskStatus::Running)
    ||| (pre == TaskStatus::Running && (post == TaskStatus::Ready || post == TaskStatus::Blocked
        || post == TaskStatus::Zombie))
    ||| (pre == TaskStatus::Blocked && post == TaskStatus::Ready)
}

/// The callee-saved part of a task's register state, swapped by the opaque
/// context-switch primitive. The library never interprets it; it models the
/// blob as the two registers that select where execution resumes.
#[derive(Copy, Clone, PartialEq, Eq, Structural, Debug)]
pub struct TaskContext {
    /// Return address: where the task resumes.
    pub ra: usize,
    /// Kernel stack pointer of the task.
    pub sp: usize,
}

impl TaskContext {
    /// An all-zero context, the state of a task before its first switch-in.
    pub fn zero_init() -> (r: Self)
        ensures
            r == (TaskContext { ra: 0, sp: 0 }),
    {
        TaskContext { ra: 0, sp: 0 }
    }
}

/// The registers of a trapped task that the dispatcher reads and writes:
/// the program counter saved at the trap, the syscall number register and
/// the argument/return-value registers of the syscall convention.
#[derive(Copy, Clone, PartialEq, Eq, Structural, Debug)]
pub struct TrapContext {
    /// Program counter at which the trap was taken; user execution resumes here.
    pub sepc: usize,
    /// First argument register; also receives the syscall return value.
    pub x10: usize,
    /// Second argument register.
    pub x11: usize,
    /// Third argument register.
    pub x12: usize,
    /// Fourth argument register of the syscall convention.
    pub x14: usize,
    /// Carries the syscall number.
    pub x17: usize,
}

impl TrapContext {
    /// An all-zero trap context.
    pub fn zero_init() -> (r: Self)
        ensures
            r == (TrapContext { sepc: 0, x10: 0, x11: 0, x12: 0, x14: 0, x17: 0 }),
    {
        TrapContext { sepc: 0, x10: 0, x11: 0, x12: 0, x14: 0, x17: 0 }
    }
}

/// Accounting record of one task: its status snapshot, how often it invoked
/// each syscall, and its cumulative scheduled time.
#[derive(Clone, Debug)]
pub struct TaskInfo {
    /// Status at the time the record is read.
    pub status: TaskStatus,
    /// Invocation count per syscall number, indexed by the number.
    pub syscall_times: Vec<u32>,
    /// Cumulative scheduled time, in milliseconds.
    pub time_duration: usize,
}

impl TaskInfo {
    /// A fresh record: status `Running`, every counter zero, no time spent.
    pub fn new() -> (r: TaskInfo)
        ensures
            r.status == TaskStatus::Running,
            r.syscall_times@.len() == MAX_SYSCALL_NUM,
            forall|i: int| 0 <= i < MAX_SYSCALL_NUM ==> r.syscall_times@[i] == 0u32,
            r.time_duration == 0,
    {
        let mut syscall_times: Vec<u32> = Vec::new();
        syscall_times.resize(MAX_SYSCALL_NUM, 0);
        TaskInfo { status: TaskStatus::Running, syscall_times, time_duration: 0 }
    }
}

/// The task control block: the per-task record the kernel owns.
#[derive(Clone, Debug)]
pub struct TaskControlBlock {
    /// Current lifecycle status.
    pub task_status: TaskStatus,
    /// Saved callee-saved context, swapped by the context-switch primitive.
    pub task_cx: TaskContext,
    /// Saved trap-time registers of the task.
    pub trap_cx: TrapContext,
    /// Accounting record.
    pub task_info: TaskInfo,
    /// Timestamp accounting slot, in milliseconds.
    pub time: usize,
    /// Pid of the owning process. A non-owning back-reference: the process's
    /// task list is the owning edge, this is used for lookup only.
    pub process: usize,
    /// Exit code, meaningful once the task is `Zombie`.
    pub exit_code: i32,
}

impl TaskControlBlock {
    /// A fresh, uninitialized task owned by the process with pid `process`.
    pub fn new(process: usize) -> (r: TaskControlBlock)
        ensures
            r.task_status == TaskStatus::UnInit,
            r.task_cx == (TaskContext { ra: 0, sp: 0 }),
            r.trap_cx == (TrapContext { sepc: 0, x10: 0, x11: 0, x12: 0, x14: 0, x17: 0 }),
            r.task_info.status == TaskStatus::Running,
            r.task_info.syscall_times@.len() == MAX_SYSCALL_NUM,
            forall|i: int| 0 <= i < MAX_SYSCALL_NUM ==> r.task_info.syscall_times@[i] == 0u32,
            r.task_info.time_duration == 0,
            r.time == 0,
            r.process == process,
            r.exit_code == 0,
    {
        TaskControlBlock {
            task_status: TaskStatus::UnInit,
            task_cx: TaskContext::zero_init(),
            trap_cx: TrapContext::zero_init(),
            task_info: TaskInfo::new(),
            time: 0,
            process,
            exit_code: 0,
        }
    }
}

} // verus!
