//! The syscall layer: the numbered operations a task requests of the
//! kernel, and the dispatcher that routes a decoded syscall to them.
//!
//! Syscalls that only read or mutate the scheduling core complete here.
//! Syscalls whose effect lives in an external collaborator (the
//! address-space capability, a write through the page table into user
//! memory) compute everything the kernel owes and hand the rest out as a
//! [`DelegatedCall`]; the trap layer finishes the syscall when the
//! collaborator replies.

use vstd::prelude::*;
use vstd::pervasive::VecAdditionalExecFns;

verus! {

use crate::kernel::Kernel;
use crate::kernel::lemma_pid_index_bounds;
use crate::kernel::pid_index;
use crate::process::FileDescriptor;
use crate::process::ProcessControlBlock;
use crate::process::UdpEndpoint;
use crate::process::first_free_slot;
use crate::task::MAX_SYSCALL_NUM;
use crate::task::TaskStatus;

/// Syscall number of `connect`.
pub const SYSCALL_CONNECT: usize = 29;

/// Syscall number of `exit`.
pub const SYSCALL_EXIT: usize = 93;

/// Syscall number of `yield`.
pub const SYSCALL_YIELD: usize = 124;

/// Syscall number of `get_time`.
pub const SYSCALL_GET_TIME: usize = 169;

/// Syscall number of `sbrk`.
pub const SYSCALL_SBRK: usize = 214;

/// Syscall number of `munmap`.
pub const SYSCALL_MUNMAP: usize = 215;

/// Syscall number of `mmap`.
pub const SYSCALL_MMAP: usize = 222;

/// Syscall number of `task_info`.
pub const SYSCALL_TASK_INFO: usize = 410;

/// A clock reading split into seconds and microseconds, as delivered to
/// user memory by the get-time syscall.
#[derive(Copy, Clone, PartialEq, Eq, Structural, Debug)]
pub struct TimeVal {
    /// Whole seconds.
    pub sec: usize,
    /// Microseconds below a second.
    pub usec: usize,
}

/// Task information as delivered to user memory by the task-info syscall.
#[derive(Clone, Debug)]
pub struct TaskInfo {
    /// Task status in its life cycle.
    pub status: TaskStatus,
    /// The numbers of syscall called by task, indexed by syscall number.
    pub syscall_times: Vec<u32>,
    /// Total running time of task.
    pub time: usize,
}

impl TaskInfo {
    /// A fresh record: status `Running`, every counter zero, no time spent.
    pub fn new() -> (r: TaskInfo)
        ensures
            r.status == TaskStatus::Running,
            r.syscall_times@.len() == MAX_SYSCALL_NUM,
            forall|i: int| 0 <= i < MAX_SYSCALL_NUM ==> r.syscall_times@[i] == 0u32,
            r.time == 0,
    {
        let mut syscall_times: Vec<u32> = Vec::new();
        syscall_times.resize(MAX_SYSCALL_NUM, 0);
        TaskInfo { status: TaskStatus::Running, syscall_times, time: 0 }
    }
}

/// Work a syscall hands to an external collaborator: the address-space
/// capability, or the page-table path that writes a value into user
/// memory. The caller performs it and reports the syscall's return value
/// back through the trap layer.
pub enum DelegatedCall {
    /// Map user memory: delegated to the address-space capability.
    Mmap {
        /// Start address of the mapping.
        start: usize,
        /// Length of the mapping.
        len: usize,
        /// Protection bits.
        port: usize,
    },
    /// Unmap user memory: delegated to the address-space capability.
    Munmap {
        /// Start address of the mapping.
        start: usize,
        /// Length of the mapping.
        len: usize,
    },
    /// Write a clock reading into user memory at a user virtual address.
    WriteTimeVal {
        /// User virtual address of the destination.
        addr: usize,
        /// The value to store.
        val: TimeVal,
    },
    /// Write a task-information record into user memory.
    WriteTaskInfo {
        /// User virtual address of the destination.
        addr: usize,
        /// The record to store.
        info: TaskInfo,
    },
}

/// What a dispatched syscall decided.
pub enum SyscallOutcome {
    /// The syscall completed with this return value.
    Done(isize),
    /// The calling task yielded: the return value 0 is already stored in
    /// its saved context and another task may be running now.
    Yielded,
    /// The calling task exited with this code and was unscheduled.
    Exited(i32),
    /// The syscall needs an external collaborator; finish with the trap
    /// layer once its return value is known.
    Delegated(DelegatedCall),
    /// The syscall number is not supported: fatal.
    Unsupported,
}

/// Task exits and submits an exit code: the task becomes a `Zombie` and
/// the next ready task, if any, is scheduled. Never returns to the caller.
pub fn sys_exit(k: &mut Kernel, exit_code: i32)
    requires
        old(k).wf(),
        old(k).current is Some,
        pid_index(
            old(k).processes@,
            old(k).tasks@[old(k).current.unwrap() as int].process,
        ) is Some,
    ensures
        final(k).wf(),
        Kernel::exited_and_ran_next(*old(k), *final(k), exit_code),
{
    k.exit_current_and_run_next(exit_code);
}

/// Current task gives up the processor for other tasks: it goes to the
/// tail of the ready queue and the head is scheduled. Returns 0.
pub fn sys_yield(k: &mut Kernel) -> (r: isize)
    requires
        old(k).wf(),
        old(k).current is Some,
    ensures
        final(k).wf(),
        Kernel::suspended_and_ran_next(*old(k), *final(k)),
        r == 0,
{
    k.suspend_current_and_run_next();
    0
}

/// The time-accounting slot value the get-time syscall records: the low
/// sixteen bits of the seconds, scaled to milliseconds, plus the
/// milliseconds below a second.
pub open spec fn time_slot_ms(now_us: usize) -> int {
    ((now_us / 1000000) & 0xffff) * 1000 + (now_us % 1000000) / 1000
}

/// Get the time, with seconds and microseconds, from the clock reading
/// `now_us` (microseconds since boot, read by the caller at the trap
/// edge): the split value is returned for delivery to user memory, and
/// the running task's time-accounting slot is updated.
pub fn sys_get_time(k: &mut Kernel, now_us: usize) -> (tv: TimeVal)
    requires
        old(k).wf(),
        old(k).current is Some,
    ensures
        final(k).wf(),
        tv.sec == now_us / 1000000,
        tv.usec == now_us % 1000000,
        ({
            let cur = old(k).current.unwrap() as int;
            final(k).tasks@ == old(k).tasks@.update(
                cur,
                (crate::task::TaskControlBlock {
                    task_info: (crate::task::TaskInfo {
                        time_duration: time_slot_ms(now_us) as usize,
                        ..old(k).tasks@[cur].task_info
                    }),
                    ..old(k).tasks@[cur]
                }),
            )
        }),
        final(k).ready() == old(k).ready(),
        final(k).current == old(k).current,
        Kernel::same_procs(*old(k), *final(k)),
        Kernel::same_timers(*old(k), *final(k)),
        Kernel::same_hw(*old(k), *final(k)),
{
    let us = now_us;
    let sec = us / 1_000_000;
    let usec = us % 1_000_000;
    let masked = sec & 0xffff;
    proof {
        assert(masked <= 0xffff) by (bit_vector)
            requires
                masked == sec & 0xffff,
        ;
    }
    let t = masked * 1000 + usec / 1000;
    k.modify_time(t);
    TimeVal { sec, usec }
}

/// Report the running task's information record, for delivery to user
/// memory: its live status, its syscall counters, its total running time.
pub fn sys_task_info(k: &Kernel) -> (r: TaskInfo)
    requires
        k.wf(),
        k.current is Some,
    ensures
        ({
            let cur = k.current.unwrap() as int;
            &&& r.status == k.tasks@[cur].task_status
            &&& r.syscall_times@ == k.tasks@[cur].task_info.syscall_times@
            &&& r.time == k.tasks@[cur].task_info.time_duration
        }),
{
    let info = k.get_info();
    TaskInfo { status: info.status, syscall_times: info.syscall_times, time: info.time_duration }
}

/// Map user memory: the request is delegated whole to the address-space
/// capability, which is outside this core.
pub fn sys_mmap(start: usize, len: usize, port: usize) -> (r: DelegatedCall)
    ensures
        r == (DelegatedCall::Mmap { start, len, port }),
{
    DelegatedCall::Mmap { start, len, port }
}

/// Unmap user memory: delegated whole to the address-space capability.
pub fn sys_munmap(start: usize, len: usize) -> (r: DelegatedCall)
    ensures
        r == (DelegatedCall::Munmap { start, len }),
{
    DelegatedCall::Munmap { start, len }
}

/// Change the data segment size by `size` bytes: returns the previous
/// program break, or -1 when the move would fall below the heap bottom or
/// past the address range. The returned break is truncated into `isize`
/// exactly as the syscall ABI does.
pub fn sys_sbrk(k: &mut Kernel, size: i32) -> (r: isize)
    requires
        old(k).wf(),
        old(k).current is Some,
        pid_index(
            old(k).processes@,
            old(k).tasks@[old(k).current.unwrap() as int].process,
        ) is Some,
    ensures
        final(k).wf(),
        ({
            let pi = pid_index(
                old(k).processes@,
                old(k).tasks@[old(k).current.unwrap() as int].process,
            ).unwrap();
            let p = old(k).processes@[pi];
            let nb = p.brk + size;
            if p.heap_bottom <= nb <= usize::MAX {
                &&& r == p.brk as isize
                &&& final(k).processes@ == old(k).processes@.update(
                    pi,
                    (ProcessControlBlock { brk: nb as usize, ..p }),
                )
            } else {
                &&& r == -1
                &&& final(k).processes@ == old(k).processes@
            }
        }),
        final(k).tasks@ == old(k).tasks@,
        final(k).ready() == old(k).ready(),
        final(k).current == old(k).current,
        Kernel::same_timers(*old(k), *final(k)),
        Kernel::same_hw(*old(k), *final(k)),
{
    let cur = k.current_task().unwrap();
    let pid = k.tasks[cur].process;
    proof {
        lemma_pid_index_bounds(k.processes@, pid);
    }
    let mut ret: isize = -1;
    match k.find_pid(pid) {
        Some(pi) => {
            let p = &mut k.processes[pi];
            match p.change_program_brk(size) {
                Some(old_brk) => {
                    ret = #[verifier::truncate] (old_brk as isize);
                },
                None => {},
            }
            proof {
                let pre = old(k).processes@;
                let post = k.processes@;
                assert forall|a: int, b: int| 0 <= a < b < post.len() implies post[a].pid
                    != post[b].pid by {
                    assert(pre[a].pid == post[a].pid && pre[b].pid == post[b].pid);
                }
                if !(pre[pi as int].heap_bottom <= pre[pi as int].brk + size <= usize::MAX) {
                    assert(post =~= pre);
                }
            }
        },
        None => {},
    }
    ret
}

/// Allocate a file descriptor bound to a transport endpoint: the lowest
/// free slot of the caller's descriptor table records the endpoint, and
/// the descriptor number is returned. The capability that moves data is an
/// external collaborator; this core owns the table bookkeeping.
pub fn sys_connect(k: &mut Kernel, raddr: u32, lport: u16, rport: u16) -> (r: isize)
    requires
        old(k).wf(),
        old(k).current is Some,
        pid_index(
            old(k).processes@,
            old(k).tasks@[old(k).current.unwrap() as int].process,
        ) is Some,
    ensures
        final(k).wf(),
        ({
            let pi = pid_index(
                old(k).processes@,
                old(k).tasks@[old(k).current.unwrap() as int].process,
            ).unwrap();
            let p = old(k).processes@[pi];
            let desc = FileDescriptor::Udp(UdpEndpoint { raddr, lport, rport });
            let fd = match first_free_slot(p.fd_table@) {
                Some(i) => i,
                None => p.fd_table@.len() as int,
            };
            &&& r == fd as isize
            &&& final(k).processes@.len() == old(k).processes@.len()
            &&& forall|j: int| 0 <= j < old(k).processes@.len() && j != pi
                ==> final(k).processes@[j] == old(k).processes@[j]
            &&& final(k).processes@[pi].pid == p.pid
            &&& final(k).processes@[pi].tasks@ == p.tasks@
            &&& final(k).processes@[pi].heap_bottom == p.heap_bottom
            &&& final(k).processes@[pi].brk == p.brk
            &&& final(k).processes@[pi].signals == p.signals
            &&& final(k).processes@[pi].fd_table@ == match first_free_slot(p.fd_table@) {
                Some(i) => p.fd_table@.update(i, Some(desc)),
                None => p.fd_table@.push(Some(desc)),
            }
        }),
        final(k).tasks@ == old(k).tasks@,
        final(k).ready() == old(k).ready(),
        final(k).current == old(k).current,
        Kernel::same_timers(*old(k), *final(k)),
        Kernel::same_hw(*old(k), *final(k)),
{
    let cur = k.current_task().unwrap();
    let pid = k.tasks[cur].process;
    proof {
        lemma_pid_index_bounds(k.processes@, pid);
    }
    let mut ret: isize = -1;
    match k.find_pid(pid) {
        Some(pi) => {
            let p = &mut k.processes[pi];
            let fd = p.alloc_fd();
            let udp = FileDescriptor::Udp(UdpEndpoint { raddr, lport, rport });
            p.fd_table.set(fd, Some(udp));
            ret = #[verifier::truncate] (fd as isize);
            proof {
                let pre = old(k).processes@;
                let post = k.processes@;
                assert forall|a: int, b: int| 0 <= a < b < post.len() implies post[a].pid
                    != post[b].pid by {
                    assert(pre[a].pid == post[a].pid && pre[b].pid == post[b].pid);
                }
            }
        },
        None => {},
    }
    ret
}

} // verus!
