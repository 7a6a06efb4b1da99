//! The trap dispatcher: the single entry point between user execution and
//! kernel control flow. It decodes nothing itself — the hardware cause
//! arrives already decoded as a [`Trap`] value, and the clock reading is
//! passed in — and it returns every hardware action it decided on, so the
//! unverified edge only reads registers, calls here, and obeys the
//! outcome.
//!
//! Routing: a user environment call advances the saved program counter
//! past the call instruction and dispatches the syscall; memory and
//! instruction faults are translated into a signal against the current
//! task rather than a kernel panic; a timer interrupt rearms the next
//! trigger, wakes expired timers and forces the current task to yield (the
//! sole preemption mechanism); an external interrupt is delegated to the
//! platform; anything else halts the kernel.
//!
//! After handling, pending signals of the current task's process are
//! checked; a pending terminating signal exits the task with the signal's
//! error code instead of returning to user execution. On paths that
//! suspend the invoking task (yield, timer preemption, exit), that task's
//! own signal check belongs to the moment it is scheduled again, so the
//! outcome reports no check for it.

use vstd::prelude::*;

verus! {

use crate::kernel::Kernel;
use crate::kernel::TrapEntry;
use crate::kernel::lemma_pid_index_bounds;
use crate::kernel::lemma_pid_index_same_pids;
use crate::kernel::pid_index;
use crate::process::SignalFlags;
use crate::syscall::DelegatedCall;
use crate::syscall::SYSCALL_CONNECT;
use crate::syscall::SYSCALL_EXIT;
use crate::syscall::SYSCALL_GET_TIME;
use crate::syscall::SYSCALL_MMAP;
use crate::syscall::SYSCALL_MUNMAP;
use crate::syscall::SYSCALL_SBRK;
use crate::syscall::SYSCALL_TASK_INFO;
use crate::syscall::SYSCALL_YIELD;
use crate::syscall::TimeVal;
use crate::syscall::sys_connect;
use crate::syscall::sys_exit;
use crate::syscall::sys_get_time;
use crate::syscall::sys_sbrk;
use crate::syscall::sys_task_info;
use crate::syscall::sys_yield;
use crate::syscall::time_slot_ms;
use crate::task::TaskControlBlock;
use crate::task::TaskStatus;
use crate::task::TrapContext;
use crate::timer::split_point;

/// The lowest address of the trampoline page, where the shared trap
/// entry/exit code is mapped in every address space.
pub const TRAMPOLINE: usize = usize::MAX - 4096 + 1;

/// A decoded exception cause.
#[derive(Copy, Clone, PartialEq, Eq, Structural, Debug)]
pub enum Exception {
    /// Environment call from user mode: a syscall.
    UserEnvCall,
    /// Store access fault.
    StoreFault,
    /// Store page fault.
    StorePageFault,
    /// Instruction access fault.
    InstructionFault,
    /// Instruction page fault.
    InstructionPageFault,
    /// Load access fault.
    LoadFault,
    /// Load page fault.
    LoadPageFault,
    /// Illegal instruction.
    IllegalInstruction,
}

/// A decoded interrupt cause.
#[derive(Copy, Clone, PartialEq, Eq, Structural, Debug)]
pub enum Interrupt {
    /// The timer interrupt.
    SupervisorTimer,
    /// An external device interrupt.
    SupervisorExternal,
}

/// A decoded hardware trap cause.
#[derive(Copy, Clone, PartialEq, Eq, Structural, Debug)]
pub enum Trap {
    /// An exception raised by the current instruction.
    Exception(Exception),
    /// An asynchronous interrupt.
    Interrupt(Interrupt),
    /// Any cause this core does not support: fatal.
    Unknown,
}

/// Whether the exception is a memory access fault (translated to a
/// bad-address signal).
pub open spec fn is_memory_fault(e: Exception) -> bool {
    ||| e == Exception::StoreFault
    ||| e == Exception::StorePageFault
    ||| e == Exception::InstructionFault
    ||| e == Exception::InstructionPageFault
    ||| e == Exception::LoadFault
    ||| e == Exception::LoadPageFault
}

/// What the dispatcher tells the unverified edge to do next.
pub enum TrapControl {
    /// Return to user execution of the current task via the restore path.
    ReturnToUser,
    /// No runnable task: wait for an interrupt.
    Idle,
    /// Unsupported trap: the kernel halts with a diagnostic.
    Halt,
    /// A collaborator call is pending; perform it and finish the syscall
    /// with `trap_complete_syscall`.
    AwaitReply(DelegatedCall),
}

/// Everything a trap handling pass decided.
pub struct TrapOutcome {
    /// The next timer trigger must be armed (timer interrupt path).
    pub rearm_timer: bool,
    /// The platform's external-interrupt handler must run.
    pub delegate_external: bool,
    /// A task exited during handling, with this code.
    pub exited: Option<i32>,
    /// How control proceeds.
    pub control: TrapControl,
}

/// The saved trap context after the program counter is advanced past the
/// call instruction, so re-entry resumes after it, not on it.
pub open spec fn cx_after_call(cx: TrapContext) -> TrapContext {
    TrapContext { sepc: (cx.sepc + 4) as usize, ..cx }
}

/// The saved trap context after the call instruction, with the syscall
/// return value stored in the return-value register slot.
pub open spec fn cx_with_ret(cx: TrapContext, ret: usize) -> TrapContext {
    TrapContext { x10: ret, ..cx_after_call(cx) }
}

/// The scheduling tail: from task records `tasks1` and ready queue
/// `ready1` with the hart idle, `post` runs the head of the queue, or
/// reports the idle condition.
pub open spec fn ran_next_from(
    tasks1: Seq<TaskControlBlock>,
    ready1: Seq<usize>,
    post: Kernel,
    control: TrapControl,
) -> bool {
    if ready1.len() > 0 {
        let h = ready1[0];
        &&& post.current == Some(h)
        &&& post.ready() == ready1.drop_first()
        &&& post.tasks@ == tasks1.update(
            h as int,
            (TaskControlBlock { task_status: TaskStatus::Running, ..tasks1[h as int] }),
        )
        &&& control == TrapControl::ReturnToUser
    } else {
        &&& post.current is None
        &&& post.ready() == ready1
        &&& post.tasks@ == tasks1
        &&& control == TrapControl::Idle
    }
}

/// The signal-driven exit tail: from task records `tasks1`, registry
/// `procs1` and ready queue `ready1`, the task `cur` exits with `code`
/// (its process leaves the registry once this was its last live task) and
/// the next ready task, if any, runs.
pub open spec fn exit_tail(
    tasks1: Seq<TaskControlBlock>,
    procs1: Seq<crate::process::ProcessControlBlock>,
    ready1: Seq<usize>,
    cur: usize,
    code: i32,
    post: Kernel,
    control: TrapControl,
) -> bool {
    let t1 = tasks1.update(
        cur as int,
        (TaskControlBlock {
            task_status: TaskStatus::Zombie,
            exit_code: code,
            ..tasks1[cur as int]
        }),
    );
    let pid = tasks1[cur as int].process;
    let pi = pid_index(procs1, pid).unwrap();
    &&& post.processes@ == if Kernel::proc_tasks_zombie(procs1[pi], t1) {
        procs1.remove(pi)
    } else {
        procs1
    }
    &&& ran_next_from(t1, ready1, post, control)
}

/// Initialize trap handling: install the kernel-mode trap vector.
pub fn init(k: &mut Kernel)
    ensures
        final(k).trap_entry == TrapEntry::ForKernel,
        final(k).tasks@ == old(k).tasks@,
        final(k).ready() == old(k).ready(),
        final(k).current == old(k).current,
        Kernel::same_procs(*old(k), *final(k)),
        Kernel::same_timers(*old(k), *final(k)),
        final(k).timer_interrupt_enabled == old(k).timer_interrupt_enabled,
        old(k).wf() ==> final(k).wf(),
{
    set_kernel_trap_entry(k);
}

/// Point the trap vector at the kernel-mode entry, which never schedules
/// and treats every cause as fatal.
pub fn set_kernel_trap_entry(k: &mut Kernel)
    ensures
        final(k).trap_entry == TrapEntry::ForKernel,
        final(k).tasks@ == old(k).tasks@,
        final(k).ready() == old(k).ready(),
        final(k).current == old(k).current,
        Kernel::same_procs(*old(k), *final(k)),
        Kernel::same_timers(*old(k), *final(k)),
        final(k).timer_interrupt_enabled == old(k).timer_interrupt_enabled,
        old(k).wf() ==> final(k).wf(),
{
    k.trap_entry = TrapEntry::ForKernel;
}

/// Point the trap vector at the user-mode entry on the trampoline page.
pub fn set_user_trap_entry(k: &mut Kernel)
    ensures
        final(k).trap_entry == TrapEntry::ForUser,
        final(k).tasks@ == old(k).tasks@,
        final(k).ready() == old(k).ready(),
        final(k).current == old(k).current,
        Kernel::same_procs(*old(k), *final(k)),
        Kernel::same_timers(*old(k), *final(k)),
        final(k).timer_interrupt_enabled == old(k).timer_interrupt_enabled,
        old(k).wf() ==> final(k).wf(),
{
    k.trap_entry = TrapEntry::ForUser;
}

/// Enable the timer interrupt in the supervisor interrupt mask.
pub fn enable_timer_interrupt(k: &mut Kernel)
    ensures
        final(k).timer_interrupt_enabled,
        final(k).tasks@ == old(k).tasks@,
        final(k).ready() == old(k).ready(),
        final(k).current == old(k).current,
        Kernel::same_procs(*old(k), *final(k)),
        Kernel::same_timers(*old(k), *final(k)),
        final(k).trap_entry == old(k).trap_entry,
        old(k).wf() ==> final(k).wf(),
{
    k.timer_interrupt_enabled = true;
}

/// Prepare the return to user space: install the user trap vector and
/// compute the jump target of the shared restore code inside the
/// trampoline page, from the link-time addresses of the trap entry and
/// restore symbols. The actual jump (with the trap-context address and the
/// address-space token in the argument registers) is the unverified edge's
/// last act.
pub fn trap_return(k: &mut Kernel, alltraps: usize, restore: usize) -> (jump: usize)
    requires
        alltraps <= restore,
        restore - alltraps + TRAMPOLINE <= usize::MAX,
    ensures
        jump == TRAMPOLINE + (restore - alltraps),
        final(k).trap_entry == TrapEntry::ForUser,
        final(k).tasks@ == old(k).tasks@,
        final(k).ready() == old(k).ready(),
        final(k).current == old(k).current,
        Kernel::same_procs(*old(k), *final(k)),
        Kernel::same_timers(*old(k), *final(k)),
        final(k).timer_interrupt_enabled == old(k).timer_interrupt_enabled,
        old(k).wf() ==> final(k).wf(),
{
    set_user_trap_entry(k);
    let restore_va = restore - alltraps + TRAMPOLINE;
    restore_va
}

/// A trap taken while already in kernel mode cannot be handled: the
/// decision is always to halt, with the cause and the faulting addresses
/// as the diagnostic.
pub fn trap_from_kernel(cause: Trap, stval: usize, sepc: usize) -> (r: (TrapControl, usize, usize))
    ensures
        r.0 == TrapControl::Halt,
        r.1 == stval,
        r.2 == sepc,
{
    (TrapControl::Halt, stval, sepc)
}


/// Finish a syscall whose work was delegated: store the collaborator's
/// return value into the current task's return-value register slot, then
/// run the signal check that ends every trap handling pass.
pub fn trap_complete_syscall(k: &mut Kernel, ret: isize) -> (out: TrapOutcome)
    requires
        old(k).wf(),
        old(k).current is Some,
        pid_index(
            old(k).processes@,
            old(k).tasks@[old(k).current.unwrap() as int].process,
        ) is Some,
    ensures
        final(k).wf(),
        !out.rearm_timer && !out.delegate_external,
        ({
            let cur = old(k).current.unwrap();
            let cx = old(k).tasks@[cur as int].trap_cx;
            let pi = pid_index(old(k).processes@, old(k).tasks@[cur as int].process).unwrap();
            let p = old(k).processes@[pi];
            let tasks1 = old(k).tasks@.update(
                cur as int,
                (TaskControlBlock {
                    trap_cx: (TrapContext { x10: ret as usize, ..cx }),
                    ..old(k).tasks@[cur as int]
                }),
            );
            &&& if p.signals.any() {
                let errno = p.signals.first_error_code().unwrap();
                &&& out.exited == Some(errno)
                &&& exit_tail(
                    tasks1,
                    old(k).processes@,
                    old(k).ready(),
                    cur,
                    errno,
                    *final(k),
                    out.control,
                )
            } else {
                &&& out.exited is None
                &&& out.control == TrapControl::ReturnToUser
                &&& final(k).tasks@ == tasks1
                &&& final(k).ready() == old(k).ready()
                &&& final(k).current == old(k).current
                &&& Kernel::same_procs(*old(k), *final(k))
            }
            &&& Kernel::same_timers(*old(k), *final(k))
            &&& final(k).trap_entry == old(k).trap_entry
            &&& final(k).timer_interrupt_enabled == old(k).timer_interrupt_enabled
        }),
{
    let cur = k.current_task().unwrap();
    {
        let t = &mut k.tasks[cur];
        t.trap_cx.x10 = #[verifier::truncate] (ret as usize);
    }
    let (exited, control) = check_and_exit(k);
    TrapOutcome { rearm_timer: false, delegate_external: false, exited, control }
}

/// The signal check that ends a trap handling pass, for paths on which the
/// invoking task is still the running one: a pending terminating signal
/// exits the task with the signal's error code, otherwise control returns
/// to user execution.
fn check_and_exit(k: &mut Kernel) -> (r: (Option<i32>, TrapControl))
    requires
        old(k).wf(),
        old(k).current is Some,
        pid_index(
            old(k).processes@,
            old(k).tasks@[old(k).current.unwrap() as int].process,
        ) is Some,
    ensures
        final(k).wf(),
        ({
            let cur = old(k).current.unwrap();
            let pi = pid_index(old(k).processes@, old(k).tasks@[cur as int].process).unwrap();
            let p = old(k).processes@[pi];
            &&& if p.signals.any() {
                let errno = p.signals.first_error_code().unwrap();
                &&& r.0 == Some(errno)
                &&& exit_tail(
                    old(k).tasks@,
                    old(k).processes@,
                    old(k).ready(),
                    cur,
                    errno,
                    *final(k),
                    r.1,
                )
            } else {
                &&& r.0 is None
                &&& r.1 == TrapControl::ReturnToUser
                &&& *final(k) == *old(k)
            }
            &&& Kernel::same_timers(*old(k), *final(k))
            &&& final(k).trap_entry == old(k).trap_entry
            &&& final(k).timer_interrupt_enabled == old(k).timer_interrupt_enabled
        }),
{
    match k.check_signals_of_current() {
        Some((errno, _msg)) => {
            k.exit_current_and_run_next(errno);
            let control = match k.current_task() {
                Some(_) => TrapControl::ReturnToUser,
                None => TrapControl::Idle,
            };
            (Some(errno), control)
        },
        None => (None, TrapControl::ReturnToUser),
    }
}


/// Handle one hardware trap: the single entry point from the trap vector.
/// The cause arrives decoded, `now_us` is the clock reading (microseconds
/// since boot) taken at the trap edge. The kernel trap vector is installed
/// for the duration of handling; hardware actions the dispatcher decided
/// on (rearming the timer, delegating an external interrupt, a pending
/// collaborator call, the halt verdict) come back in the outcome.
pub fn trap_handler(k: &mut Kernel, cause: Trap, now_us: usize) -> (out: TrapOutcome)
    requires
        old(k).wf(),
        old(k).current is Some,
        pid_index(
            old(k).processes@,
            old(k).tasks@[old(k).current.unwrap() as int].process,
        ) is Some,
        cause == Trap::Exception(Exception::UserEnvCall)
            ==> old(k).tasks@[old(k).current.unwrap() as int].trap_cx.sepc + 4 <= usize::MAX,
        cause == Trap::Interrupt(Interrupt::SupervisorTimer) ==> forall|i: int|
            0 <= i < split_point(old(k).timers.timers@, now_us / 1000)
                ==> old(k).tasks@[(#[trigger] old(k).timers.timers@[i]).task as int].task_status
                == TaskStatus::Blocked,
    ensures
        final(k).wf(),
        final(k).trap_entry == TrapEntry::ForKernel,
        final(k).timer_interrupt_enabled == old(k).timer_interrupt_enabled,
        ({
            let cur = old(k).current.unwrap();
            let cx = old(k).tasks@[cur as int].trap_cx;
            let pi = pid_index(old(k).processes@, old(k).tasks@[cur as int].process).unwrap();
            let p = old(k).processes@[pi];
            match cause {
                Trap::Exception(Exception::UserEnvCall) => {
                    let tasks_adv = old(k).tasks@.update(
                        cur as int,
                        (TaskControlBlock {
                            trap_cx: cx_after_call(cx),
                            ..old(k).tasks@[cur as int]
                        }),
                    );
                    &&& !out.rearm_timer
                    &&& !out.delegate_external
                    &&& Kernel::same_timers(*old(k), *final(k))
                    &&& if cx.x17 == SYSCALL_EXIT {
                        &&& out.exited == Some(cx.x10 as i32)
                        &&& exit_tail(
                            tasks_adv,
                            old(k).processes@,
                            old(k).ready(),
                            cur,
                            cx.x10 as i32,
                            *final(k),
                            out.control,
                        )
                    } else if cx.x17 == SYSCALL_YIELD {
                        let t_y = old(k).tasks@.update(
                            cur as int,
                            (TaskControlBlock {
                                trap_cx: cx_with_ret(cx, 0),
                                ..old(k).tasks@[cur as int]
                            }),
                        );
                        let q = old(k).ready().push(cur);
                        &&& out.exited is None
                        &&& out.control == TrapControl::ReturnToUser
                        &&& Kernel::same_procs(*old(k), *final(k))
                        &&& final(k).current == Some(q[0])
                        &&& final(k).ready() == q.drop_first()
                        &&& final(k).tasks@ == t_y.update(
                            cur as int,
                            (TaskControlBlock {
                                task_status: TaskStatus::Ready,
                                ..t_y[cur as int]
                            }),
                        ).update(
                            q[0] as int,
                            (TaskControlBlock {
                                task_status: TaskStatus::Running,
                                ..t_y[q[0] as int]
                            }),
                        )
                    } else if cx.x17 == SYSCALL_GET_TIME {
                        &&& out.exited is None
                        &&& out.control == TrapControl::AwaitReply(
                            DelegatedCall::WriteTimeVal {
                                addr: cx.x10,
                                val: (TimeVal {
                                    sec: (now_us / 1000000) as usize,
                                    usec: (now_us % 1000000) as usize,
                                }),
                            },
                        )
                        &&& Kernel::same_procs(*old(k), *final(k))
                        &&& final(k).current == old(k).current
                        &&& final(k).ready() == old(k).ready()
                        &&& final(k).tasks@ == old(k).tasks@.update(
                            cur as int,
                            (TaskControlBlock {
                                trap_cx: cx_after_call(cx),
                                task_info: (crate::task::TaskInfo {
                                    time_duration: time_slot_ms(now_us) as usize,
                                    ..old(k).tasks@[cur as int].task_info
                                }),
                                ..old(k).tasks@[cur as int]
                            }),
                        )
                    } else if cx.x17 == SYSCALL_TASK_INFO {
                        &&& out.exited is None
                        &&& (out.control matches TrapControl::AwaitReply(
                            DelegatedCall::WriteTaskInfo { addr, info },
                        ) && addr == cx.x10 && info.status == old(k).tasks@[cur as int].task_status
                            && info.syscall_times@
                            == old(k).tasks@[cur as int].task_info.syscall_times@ && info.time
                            == old(k).tasks@[cur as int].task_info.time_duration)
                        &&& Kernel::same_procs(*old(k), *final(k))
                        &&& final(k).current == old(k).current
                        &&& final(k).ready() == old(k).ready()
                        &&& final(k).tasks@ == tasks_adv
                    } else if cx.x17 == SYSCALL_MMAP {
                        &&& out.exited is None
                        &&& out.control == TrapControl::AwaitReply(
                            DelegatedCall::Mmap { start: cx.x10, len: cx.x11, port: cx.x12 },
                        )
                        &&& Kernel::same_procs(*old(k), *final(k))
                        &&& final(k).current == old(k).current
                        &&& final(k).ready() == old(k).ready()
                        &&& final(k).tasks@ == tasks_adv
                    } else if cx.x17 == SYSCALL_MUNMAP {
                        &&& out.exited is None
                        &&& out.control == TrapControl::AwaitReply(
                            DelegatedCall::Munmap { start: cx.x10, len: cx.x11 },
                        )
                        &&& Kernel::same_procs(*old(k), *final(k))
                        &&& final(k).current == old(k).current
                        &&& final(k).ready() == old(k).ready()
                        &&& final(k).tasks@ == tasks_adv
                    } else if cx.x17 == SYSCALL_SBRK {
                        let size = cx.x10 as i32;
                        let nb = p.brk + size;
                        let ok = p.heap_bottom <= nb <= usize::MAX;
                        let rr: isize = if ok {
                            p.brk as isize
                        } else {
                            (-1) as isize
                        };
                        let procs1 = if ok {
                            old(k).processes@.update(
                                pi,
                                (crate::process::ProcessControlBlock { brk: nb as usize, ..p }),
                            )
                        } else {
                            old(k).processes@
                        };
                        let tasks1 = old(k).tasks@.update(
                            cur as int,
                            (TaskControlBlock {
                                trap_cx: cx_with_ret(cx, rr as usize),
                                ..old(k).tasks@[cur as int]
                            }),
                        );
                        &&& if p.signals.any() {
                            let errno = p.signals.first_error_code().unwrap();
                            &&& out.exited == Some(errno)
                            &&& exit_tail(
                                tasks1,
                                procs1,
                                old(k).ready(),
                                cur,
                                errno,
                                *final(k),
                                out.control,
                            )
                        } else {
                            &&& out.exited is None
                            &&& out.control == TrapControl::ReturnToUser
                            &&& final(k).tasks@ == tasks1
                            &&& final(k).processes@ == procs1
                            &&& final(k).ready() == old(k).ready()
                            &&& final(k).current == old(k).current
                        }
                    } else if cx.x17 == SYSCALL_CONNECT {
                        let desc = crate::process::FileDescriptor::Udp(
                            crate::process::UdpEndpoint {
                                raddr: cx.x10 as u32,
                                lport: cx.x11 as u16,
                                rport: cx.x12 as u16,
                            },
                        );
                        let fd = match crate::process::first_free_slot(p.fd_table@) {
                            Some(i) => i,
                            None => p.fd_table@.len() as int,
                        };
                        let newtab = match crate::process::first_free_slot(p.fd_table@) {
                            Some(i) => p.fd_table@.update(i, Some(desc)),
                            None => p.fd_table@.push(Some(desc)),
                        };
                        let rr: isize = fd as isize;
                        let tasks1 = old(k).tasks@.update(
                            cur as int,
                            (TaskControlBlock {
                                trap_cx: cx_with_ret(cx, rr as usize),
                                ..old(k).tasks@[cur as int]
                            }),
                        );
                        &&& if p.signals.any() {
                            let errno = p.signals.first_error_code().unwrap();
                            let t1 = tasks1.update(
                                cur as int,
                                (TaskControlBlock {
                                    task_status: TaskStatus::Zombie,
                                    exit_code: errno,
                                    ..tasks1[cur as int]
                                }),
                            );
                            &&& out.exited == Some(errno)
                            &&& if Kernel::proc_tasks_zombie(p, t1) {
                                final(k).processes@ == old(k).processes@.remove(pi)
                            } else {
                                &&& final(k).processes@.len() == old(k).processes@.len()
                                &&& forall|j: int| 0 <= j < old(k).processes@.len() && j != pi
                                    ==> final(k).processes@[j] == old(k).processes@[j]
                                &&& final(k).processes@[pi].pid == p.pid
                                &&& final(k).processes@[pi].tasks@ == p.tasks@
                                &&& final(k).processes@[pi].fd_table@ == newtab
                                &&& final(k).processes@[pi].heap_bottom == p.heap_bottom
                                &&& final(k).processes@[pi].brk == p.brk
                                &&& final(k).processes@[pi].signals == p.signals
                            }
                            &&& ran_next_from(t1, old(k).ready(), *final(k), out.control)
                        } else {
                            &&& out.exited is None
                            &&& out.control == TrapControl::ReturnToUser
                            &&& final(k).tasks@ == tasks1
                            &&& final(k).ready() == old(k).ready()
                            &&& final(k).current == old(k).current
                            &&& final(k).processes@.len() == old(k).processes@.len()
                            &&& forall|j: int| 0 <= j < old(k).processes@.len() && j != pi
                                ==> final(k).processes@[j] == old(k).processes@[j]
                            &&& final(k).processes@[pi].pid == p.pid
                            &&& final(k).processes@[pi].tasks@ == p.tasks@
                            &&& final(k).processes@[pi].fd_table@ == newtab
                            &&& final(k).processes@[pi].heap_bottom == p.heap_bottom
                            &&& final(k).processes@[pi].brk == p.brk
                            &&& final(k).processes@[pi].signals == p.signals
                        }
                    } else {
                        &&& out.exited is None
                        &&& out.control == TrapControl::Halt
                        &&& final(k).tasks@ == tasks_adv
                        &&& final(k).ready() == old(k).ready()
                        &&& final(k).current == old(k).current
                        &&& Kernel::same_procs(*old(k), *final(k))
                    }
                },
                Trap::Exception(e) => {
                    let sig = if is_memory_fault(e) {
                        SignalFlags {
                            sigint: false,
                            sigill: false,
                            sigabrt: false,
                            sigfpe: false,
                            sigsegv: true,
                        }
                    } else {
                        SignalFlags {
                            sigint: false,
                            sigill: true,
                            sigabrt: false,
                            sigfpe: false,
                            sigsegv: false,
                        }
                    };
                    let sf = p.signals.spec_or(sig);
                    let procs1 = old(k).processes@.update(
                        pi,
                        (crate::process::ProcessControlBlock { signals: sf, ..p }),
                    );
                    let errno = sf.first_error_code().unwrap();
                    &&& !out.rearm_timer
                    &&& !out.delegate_external
                    &&& Kernel::same_timers(*old(k), *final(k))
                    &&& out.exited == Some(errno)
                    &&& exit_tail(
                        old(k).tasks@,
                        procs1,
                        old(k).ready(),
                        cur,
                        errno,
                        *final(k),
                        out.control,
                    )
                },
                Trap::Interrupt(Interrupt::SupervisorTimer) => {
                    let tm = old(k).timers.timers@;
                    let kk = split_point(tm, now_us / 1000);
                    let woken = tm.take(kk).map_values(|e: crate::timer::TimerCondVar| e.task);
                    let q = (old(k).ready() + woken).push(cur);
                    &&& out.rearm_timer
                    &&& !out.delegate_external
                    &&& out.exited is None
                    &&& out.control == TrapControl::ReturnToUser
                    &&& Kernel::same_procs(*old(k), *final(k))
                    &&& final(k).timers.timers@ == tm.skip(kk)
                    &&& final(k).current == Some(q[0])
                    &&& final(k).ready() == q.drop_first()
                    &&& crate::kernel::only_statuses_changed(old(k).tasks@, final(k).tasks@)
                    &&& final(k).tasks@[q[0] as int].task_status == TaskStatus::Running
                    &&& q[0] != cur ==> final(k).tasks@[cur as int].task_status
                        == TaskStatus::Ready
                    &&& forall|j: int| 0 <= j < kk && (#[trigger] tm[j]).task != q[0]
                        ==> final(k).tasks@[tm[j].task as int].task_status == TaskStatus::Ready
                    &&& forall|t: int|
                        #![trigger final(k).tasks@[t]]
                        0 <= t < old(k).tasks@.len() && t != cur && t != q[0] as int && !(
                        exists|j: int| 0 <= j < kk && (#[trigger] tm[j]).task == t)
                            ==> final(k).tasks@[t] == old(k).tasks@[t]
                },
                Trap::Interrupt(Interrupt::SupervisorExternal) => {
                    &&& !out.rearm_timer
                    &&& out.delegate_external
                    &&& Kernel::same_timers(*old(k), *final(k))
                    &&& if p.signals.any() {
                        let errno = p.signals.first_error_code().unwrap();
                        &&& out.exited == Some(errno)
                        &&& exit_tail(
                            old(k).tasks@,
                            old(k).processes@,
                            old(k).ready(),
                            cur,
                            errno,
                            *final(k),
                            out.control,
                        )
                    } else {
                        &&& out.exited is None
                        &&& out.control == TrapControl::ReturnToUser
                        &&& final(k).tasks@ == old(k).tasks@
                        &&& final(k).ready() == old(k).ready()
                        &&& final(k).current == old(k).current
                        &&& Kernel::same_procs(*old(k), *final(k))
                    }
                },
                Trap::Unknown => {
                    &&& !out.rearm_timer
                    &&& !out.delegate_external
                    &&& out.exited is None
                    &&& out.control == TrapControl::Halt
                    &&& final(k).tasks@ == old(k).tasks@
                    &&& final(k).ready() == old(k).ready()
                    &&& final(k).current == old(k).current
                    &&& Kernel::same_procs(*old(k), *final(k))
                    &&& Kernel::same_timers(*old(k), *final(k))
                },
            }
        }),
{
    set_kernel_trap_entry(k);
    match cause {
        Trap::Exception(Exception::UserEnvCall) => {
            let cur = k.current_task().unwrap();
            let cx: TrapContext = k.tasks[cur].trap_cx;
            {
                let t = &mut k.tasks[cur];
                t.trap_cx.sepc = t.trap_cx.sepc + 4;
            }
            let id = cx.x17;
            if id == SYSCALL_EXIT {
                let code = #[verifier::truncate] (cx.x10 as i32);
                sys_exit(k, code);
                let control = match k.current_task() {
                    Some(_) => TrapControl::ReturnToUser,
                    None => TrapControl::Idle,
                };
                TrapOutcome {
                    rearm_timer: false,
                    delegate_external: false,
                    exited: Some(code),
                    control,
                }
            } else if id == SYSCALL_YIELD {
                {
                    let t = &mut k.tasks[cur];
                    t.trap_cx.x10 = 0;
                }
                sys_yield(k);
                TrapOutcome {
                    rearm_timer: false,
                    delegate_external: false,
                    exited: None,
                    control: TrapControl::ReturnToUser,
                }
            } else if id == SYSCALL_GET_TIME {
                let tv = sys_get_time(k, now_us);
                TrapOutcome {
                    rearm_timer: false,
                    delegate_external: false,
                    exited: None,
                    control: TrapControl::AwaitReply(
                        DelegatedCall::WriteTimeVal { addr: cx.x10, val: tv },
                    ),
                }
            } else if id == SYSCALL_TASK_INFO {
                let info = sys_task_info(k);
                TrapOutcome {
                    rearm_timer: false,
                    delegate_external: false,
                    exited: None,
                    control: TrapControl::AwaitReply(
                        DelegatedCall::WriteTaskInfo { addr: cx.x10, info },
                    ),
                }
            } else if id == SYSCALL_MMAP {
                TrapOutcome {
                    rearm_timer: false,
                    delegate_external: false,
                    exited: None,
                    control: TrapControl::AwaitReply(
                        DelegatedCall::Mmap { start: cx.x10, len: cx.x11, port: cx.x12 },
                    ),
                }
            } else if id == SYSCALL_MUNMAP {
                TrapOutcome {
                    rearm_timer: false,
                    delegate_external: false,
                    exited: None,
                    control: TrapControl::AwaitReply(
                        DelegatedCall::Munmap { start: cx.x10, len: cx.x11 },
                    ),
                }
            } else if id == SYSCALL_SBRK {
                let size = #[verifier::truncate] (cx.x10 as i32);
                let ret = sys_sbrk(k, size);
                {
                    let t = &mut k.tasks[cur];
                    t.trap_cx.x10 = #[verifier::truncate] (ret as usize);
                }
                proof {
                    lemma_pid_index_bounds(old(k).processes@, old(k).tasks@[cur as int].process);
                    assert forall|i: int| 0 <= i < old(k).processes@.len() implies old(
                        k,
                    ).processes@[i].pid == k.processes@[i].pid by {}
                    lemma_pid_index_same_pids(
                        old(k).processes@,
                        k.processes@,
                        old(k).tasks@[cur as int].process,
                    );
                    assert(k.tasks@ =~= old(k).tasks@.update(
                        cur as int,
                        (TaskControlBlock {
                            trap_cx: cx_with_ret(cx, ret as usize),
                            ..old(k).tasks@[cur as int]
                        }),
                    ));
                }
                let (exited, control) = check_and_exit(k);
                TrapOutcome { rearm_timer: false, delegate_external: false, exited, control }
            } else if id == SYSCALL_CONNECT {
                let raddr = #[verifier::truncate] (cx.x10 as u32);
                let lport = #[verifier::truncate] (cx.x11 as u16);
                let rport = #[verifier::truncate] (cx.x12 as u16);
                let ret = sys_connect(k, raddr, lport, rport);
                {
                    let t = &mut k.tasks[cur];
                    t.trap_cx.x10 = #[verifier::truncate] (ret as usize);
                }
                proof {
                    lemma_pid_index_bounds(old(k).processes@, old(k).tasks@[cur as int].process);
                    assert forall|i: int| 0 <= i < old(k).processes@.len() implies old(
                        k,
                    ).processes@[i].pid == k.processes@[i].pid by {}
                    lemma_pid_index_same_pids(
                        old(k).processes@,
                        k.processes@,
                        old(k).tasks@[cur as int].process,
                    );
                    assert(k.tasks@ =~= old(k).tasks@.update(
                        cur as int,
                        (TaskControlBlock {
                            trap_cx: cx_with_ret(cx, ret as usize),
                            ..old(k).tasks@[cur as int]
                        }),
                    ));
                }
                let (exited, control) = check_and_exit(k);
                TrapOutcome { rearm_timer: false, delegate_external: false, exited, control }
            } else {
                TrapOutcome {
                    rearm_timer: false,
                    delegate_external: false,
                    exited: None,
                    control: TrapControl::Halt,
                }
            }
        },
        Trap::Exception(e) => {
            let mut sig = SignalFlags::empty();
            match e {
                Exception::IllegalInstruction => {
                    sig.sigill = true;
                },
                _ => {
                    sig.sigsegv = true;
                },
            }
            k.current_add_signal(sig);
            proof {
                let cur = old(k).current.unwrap();
                lemma_pid_index_bounds(old(k).processes@, old(k).tasks@[cur as int].process);
                assert forall|i: int| 0 <= i < old(k).processes@.len() implies old(
                    k,
                ).processes@[i].pid == k.processes@[i].pid by {}
                lemma_pid_index_same_pids(
                    old(k).processes@,
                    k.processes@,
                    old(k).tasks@[cur as int].process,
                );
            }
            let (exited, control) = check_and_exit(k);
            TrapOutcome { rearm_timer: false, delegate_external: false, exited, control }
        },
        Trap::Interrupt(Interrupt::SupervisorTimer) => {
            k.check_timer(now_us / 1000);
            let ghost mid = *k;
            k.suspend_current_and_run_next();
            proof {
                let tm = old(k).timers.timers@;
                let kk = split_point(tm, now_us / 1000);
                let cur = old(k).current.unwrap();
                crate::timer::lemma_split_point_bounds(tm, now_us / 1000);
                assert forall|j: int| 0 <= j < kk implies (#[trigger] tm[j]).task != cur by {
                    assert(old(k).tasks@[tm[j].task as int].task_status == TaskStatus::Blocked);
                }
                assert forall|t: int| 0 <= t < old(k).tasks@.len() implies #[trigger] k.tasks@[t]
                    == (TaskControlBlock {
                    task_status: k.tasks@[t].task_status,
                    ..old(k).tasks@[t]
                }) by {
                    assert(mid.tasks@[t] == (TaskControlBlock {
                        task_status: mid.tasks@[t].task_status,
                        ..old(k).tasks@[t]
                    }));
                }
                let q = (old(k).ready() + tm.take(kk).map_values(
                    |e: crate::timer::TimerCondVar| e.task,
                )).push(cur);
                assert(mid.ready().push(cur) =~= q);
                assert forall|j: int| 0 <= j < kk && (#[trigger] tm[j]).task != q[0] implies
                    k.tasks@[tm[j].task as int].task_status == TaskStatus::Ready by {
                    let w = tm[j].task;
                    assert(mid.tasks@[w as int].task_status == TaskStatus::Ready);
                    assert(w != cur);
                    let qs = mid.ready().push(mid.current.unwrap());
                    assert(mid.current == Some(cur));
                    assert(qs == q);
                    assert(w != qs[0]);
                    assert(k.tasks@ == mid.tasks@.update(
                        cur as int,
                        (TaskControlBlock {
                            task_status: TaskStatus::Ready,
                            ..mid.tasks@[cur as int]
                        }),
                    ).update(
                        qs[0] as int,
                        (TaskControlBlock {
                            task_status: TaskStatus::Running,
                            ..mid.tasks@[qs[0] as int]
                        }),
                    ));
                    assert(w < old(k).tasks@.len());
                    assert(mid.tasks@.len() == old(k).tasks@.len());
                    assert(k.tasks@[w as int] == mid.tasks@[w as int]);
                }
            }
            TrapOutcome {
                rearm_timer: true,
                delegate_external: false,
                exited: None,
                control: TrapControl::ReturnToUser,
            }
        },
        Trap::Interrupt(Interrupt::SupervisorExternal) => {
            let (exited, control) = check_and_exit(k);
            TrapOutcome { rearm_timer: false, delegate_external: true, exited, control }
        },
        Trap::Unknown => {
            TrapOutcome {
                rearm_timer: false,
                delegate_external: false,
                exited: None,
                control: TrapControl::Halt,
            }
        },
    }
}

} // verus!
