use sched_core::kernel::{Kernel, TrapEntry};
use sched_core::process::{ProcessControlBlock, SignalFlags};
use sched_core::syscall::{
    sys_connect, sys_get_time, sys_sbrk, sys_task_info, DelegatedCall, SYSCALL_EXIT,
    SYSCALL_MMAP, SYSCALL_YIELD,
};
use sched_core::task::TaskStatus;
use sched_core::timer::{TimerCondVar, TimerQueue};
use sched_core::trap::{
    init, trap_complete_syscall, trap_handler, trap_return, trap_from_kernel, Exception,
    Interrupt, Trap, TrapControl, TRAMPOLINE,
};

fn boot(n_tasks: usize) -> (Kernel, Vec<usize>) {
    let mut k = Kernel::new();
    k.insert_into_pid2process(1, ProcessControlBlock::new(1, 0x1000));
    let mut tids = Vec::new();
    for _ in 0..n_tasks {
        let tid = k.create_task(1);
        k.start_task(tid);
        tids.push(tid);
    }
    (k, tids)
}

#[test]
fn timer_queue_keeps_ascending_order() {
    let mut q = TimerQueue::new();
    q.add_timer(300, 1);
    q.add_timer(100, 2);
    q.add_timer(200, 3);
    let deadlines: Vec<usize> = q.timers.iter().map(|t| t.expire_ms).collect();
    assert_eq!(deadlines, vec![100, 200, 300]);
}

#[test]
fn remove_timer_cancels_one_task_and_no_others() {
    let mut q = TimerQueue::new();
    q.add_timer(300, 1);
    q.add_timer(100, 2);
    q.add_timer(200, 3);
    q.remove_timer(2);
    assert_eq!(q.timers, vec![
        TimerCondVar { expire_ms: 200, task: 3 },
        TimerCondVar { expire_ms: 300, task: 1 },
    ]);
    q.remove_timer(42); // absent: no effect
    assert_eq!(q.timers.len(), 2);
}

#[test]
fn check_timer_before_deadline_wakes_nothing() {
    // add_timer(100, t) then check at simulated time 50: nothing woken,
    // the entry stays queued.
    let (mut k, tids) = boot(2);
    k.schedule();
    let t = k.block_current_task();
    assert_eq!(t, tids[0]);
    k.add_timer(100, t);
    k.check_timer(50);
    assert_eq!(k.tasks[t].task_status, TaskStatus::Blocked);
    assert_eq!(k.timers.timers.len(), 1);
}

#[test]
fn check_timer_after_deadline_wakes_exactly_once() {
    let (mut k, tids) = boot(2);
    k.schedule();
    let t = k.block_current_task();
    k.add_timer(100, t);
    k.check_timer(150);
    assert_eq!(k.tasks[t].task_status, TaskStatus::Ready);
    assert!(k.timers.timers.is_empty());
    // the entry fired once and is gone: a later tick wakes nothing more
    assert_eq!(k.manager.ready_queue, vec![tids[1], t]);
    k.check_timer(200);
    assert_eq!(k.manager.ready_queue, vec![tids[1], t]);
}

#[test]
fn check_timer_wakes_expired_set_in_ascending_order() {
    let (mut k, tids) = boot(3);
    // park all three tasks
    k.schedule();
    let a = k.block_current_task();
    k.schedule();
    let b = k.block_current_task();
    k.schedule();
    let c = k.block_current_task();
    assert_eq!((a, b, c), (tids[0], tids[1], tids[2]));
    k.add_timer(300, a);
    k.add_timer(100, b);
    k.add_timer(200, c);
    k.check_timer(250);
    // exactly {b (100), c (200)} woken, in ascending deadline order
    assert_eq!(k.manager.ready_queue, vec![b, c]);
    assert_eq!(k.tasks[a].task_status, TaskStatus::Blocked);
    assert_eq!(k.timers.timers, vec![TimerCondVar { expire_ms: 300, task: a }]);
}

#[test]
fn trap_init_and_timer_interrupt_enable() {
    let mut k = Kernel::new();
    k.trap_entry = TrapEntry::ForUser;
    init(&mut k);
    assert_eq!(k.trap_entry, TrapEntry::ForKernel);
    assert!(!k.timer_interrupt_enabled);
    sched_core::trap::enable_timer_interrupt(&mut k);
    assert!(k.timer_interrupt_enabled);
}

#[test]
fn timer_interrupt_preempts_running_task() {
    // a timer interrupt arrives while x is running: the dispatcher asks
    // for the next trigger, runs the timer check, and forces x to yield.
    let (mut k, tids) = boot(2);
    let (x, y) = (tids[0], tids[1]);
    k.schedule();
    assert_eq!(k.current_task(), Some(x));
    let out = trap_handler(&mut k, Trap::Interrupt(Interrupt::SupervisorTimer), 10_000);
    assert!(out.rearm_timer);
    assert_eq!(out.exited, None);
    assert!(matches!(out.control, TrapControl::ReturnToUser));
    assert_eq!(k.tasks[x].task_status, TaskStatus::Ready);
    assert_eq!(k.manager.ready_queue, vec![x]);
    assert_eq!(k.current_task(), Some(y));
    assert_eq!(k.tasks[y].task_status, TaskStatus::Running);
}

#[test]
fn timer_interrupt_also_wakes_expired_sleepers() {
    let (mut k, tids) = boot(2);
    k.schedule();
    let sleeper = k.block_current_task(); // tids[0] parks
    k.add_timer(5, sleeper);
    k.schedule(); // tids[1] runs
    let out = trap_handler(&mut k, Trap::Interrupt(Interrupt::SupervisorTimer), 9_000);
    assert!(out.rearm_timer);
    // 9 ms > 5 ms: the sleeper was woken ahead of the preempted task
    assert_eq!(k.manager.ready_queue, vec![tids[1]]);
    assert_eq!(k.current_task(), Some(sleeper));
    assert!(k.timers.timers.is_empty());
}

#[test]
fn syscall_yield_requeues_caller() {
    let (mut k, tids) = boot(2);
    k.schedule();
    k.tasks[tids[0]].trap_cx.sepc = 0x400;
    k.tasks[tids[0]].trap_cx.x17 = SYSCALL_YIELD;
    let out = trap_handler(&mut k, Trap::Exception(Exception::UserEnvCall), 0);
    assert_eq!(out.exited, None);
    assert!(matches!(out.control, TrapControl::ReturnToUser));
    assert_eq!(k.tasks[tids[0]].trap_cx.sepc, 0x404); // resumes after the call
    assert_eq!(k.tasks[tids[0]].trap_cx.x10, 0); // yield returns 0
    assert_eq!(k.tasks[tids[0]].task_status, TaskStatus::Ready);
    assert_eq!(k.current_task(), Some(tids[1]));
}

#[test]
fn syscall_exit_unschedules_and_reports_code() {
    let (mut k, tids) = boot(1);
    k.schedule();
    k.tasks[tids[0]].trap_cx.x17 = SYSCALL_EXIT;
    k.tasks[tids[0]].trap_cx.x10 = 7;
    let out = trap_handler(&mut k, Trap::Exception(Exception::UserEnvCall), 0);
    assert_eq!(out.exited, Some(7));
    assert!(matches!(out.control, TrapControl::Idle)); // nothing left to run
    assert_eq!(k.tasks[tids[0]].task_status, TaskStatus::Zombie);
    assert_eq!(k.tasks[tids[0]].exit_code, 7);
    assert!(k.pid2process(1).is_none()); // last task: pid unregistered
}

#[test]
fn syscall_mmap_is_delegated_whole() {
    let (mut k, tids) = boot(1);
    k.schedule();
    k.tasks[tids[0]].trap_cx.x17 = SYSCALL_MMAP;
    k.tasks[tids[0]].trap_cx.x10 = 0x10000;
    k.tasks[tids[0]].trap_cx.x11 = 4096;
    k.tasks[tids[0]].trap_cx.x12 = 3;
    let out = trap_handler(&mut k, Trap::Exception(Exception::UserEnvCall), 0);
    match out.control {
        TrapControl::AwaitReply(DelegatedCall::Mmap { start, len, port }) => {
            assert_eq!((start, len, port), (0x10000, 4096, 3));
        },
        _ => panic!("mmap was not delegated"),
    }
    // the collaborator replies 0: the syscall finishes with x10 = 0
    let fin = trap_complete_syscall(&mut k, 0);
    assert_eq!(fin.exited, None);
    assert_eq!(k.tasks[tids[0]].trap_cx.x10, 0);
}

#[test]
fn unsupported_trap_halts() {
    let (mut k, _tids) = boot(1);
    k.schedule();
    let out = trap_handler(&mut k, Trap::Unknown, 0);
    assert!(matches!(out.control, TrapControl::Halt));
    assert_eq!(out.exited, None);
}

#[test]
fn memory_fault_exits_task_with_sigsegv_code() {
    let (mut k, tids) = boot(2);
    k.schedule();
    let out = trap_handler(&mut k, Trap::Exception(Exception::StorePageFault), 0);
    assert_eq!(out.exited, Some(-11));
    assert_eq!(k.tasks[tids[0]].task_status, TaskStatus::Zombie);
    assert_eq!(k.tasks[tids[0]].exit_code, -11);
    assert_eq!(k.current_task(), Some(tids[1])); // the kernel did not halt
}

#[test]
fn illegal_instruction_exits_task_with_sigill_code() {
    let (mut k, tids) = boot(1);
    k.schedule();
    let out = trap_handler(&mut k, Trap::Exception(Exception::IllegalInstruction), 0);
    assert_eq!(out.exited, Some(-4));
    assert_eq!(k.tasks[tids[0]].exit_code, -4);
}

#[test]
fn signal_check_errors_follow_fixed_order() {
    let mut sf = SignalFlags::empty();
    assert_eq!(sf.check_error(), None);
    sf.sigsegv = true;
    assert_eq!(sf.check_error().unwrap().0, -11);
    sf.sigfpe = true;
    assert_eq!(sf.check_error().unwrap().0, -8);
    sf.sigabrt = true;
    assert_eq!(sf.check_error().unwrap().0, -6);
    sf.sigill = true;
    assert_eq!(sf.check_error().unwrap().0, -4);
    sf.sigint = true;
    assert_eq!(sf.check_error().unwrap().0, -2);
}

#[test]
fn get_time_splits_and_records_accounting() {
    let (mut k, tids) = boot(1);
    k.schedule();
    let tv = sys_get_time(&mut k, 1_234_567);
    assert_eq!(tv.sec, 1);
    assert_eq!(tv.usec, 234_567);
    // accounting slot: (1 & 0xffff) * 1000 + 234567 / 1000 = 1234
    assert_eq!(k.tasks[tids[0]].task_info.time_duration, 1234);
}

#[test]
fn task_info_reports_counters_and_time() {
    let (mut k, _tids) = boot(1);
    k.schedule();
    k.count_syscall(169);
    k.count_syscall(169);
    k.modify_time(55);
    let info = sys_task_info(&k);
    assert_eq!(info.status, TaskStatus::Running);
    assert_eq!(info.syscall_times[169], 2);
    assert_eq!(info.time, 55);
}

#[test]
fn sbrk_grows_shrinks_and_rejects_underflow() {
    let (mut k, _tids) = boot(1);
    k.schedule();
    assert_eq!(sys_sbrk(&mut k, 100), 0x1000); // returns the old break
    assert_eq!(k.processes[0].brk, 0x1000 + 100);
    assert_eq!(sys_sbrk(&mut k, -100), 0x1000 + 100);
    assert_eq!(k.processes[0].brk, 0x1000);
    // shrinking below the heap bottom is refused with -1, nothing moves
    assert_eq!(sys_sbrk(&mut k, -1), -1);
    assert_eq!(k.processes[0].brk, 0x1000);
}

#[test]
fn connect_allocates_lowest_free_descriptor() {
    let (mut k, _tids) = boot(1);
    k.schedule();
    assert_eq!(sys_connect(&mut k, 0x0a00_0001, 5555, 80), 0);
    assert_eq!(sys_connect(&mut k, 0x0a00_0002, 5556, 443), 1);
    let p = k.pid2process(1).unwrap();
    assert_eq!(p.fd_table.len(), 2);
    match p.fd_table[1] {
        Some(sched_core::process::FileDescriptor::Udp(ep)) => {
            assert_eq!(ep.raddr, 0x0a00_0002);
            assert_eq!(ep.lport, 5556);
            assert_eq!(ep.rport, 443);
        },
        _ => panic!("descriptor not recorded"),
    }
}

#[test]
fn trap_return_targets_restore_inside_trampoline() {
    let mut k = Kernel::new();
    let jump = trap_return(&mut k, 0x8020_0000, 0x8020_0042);
    assert_eq!(jump, TRAMPOLINE + 0x42);
    assert_eq!(k.trap_entry, TrapEntry::ForUser);
}

#[test]
fn kernel_mode_trap_is_fatal() {
    let (control, stval, sepc) = trap_from_kernel(Trap::Unknown, 0xdead, 0x80200000);
    assert!(matches!(control, TrapControl::Halt));
    assert_eq!(stval, 0xdead);
    assert_eq!(sepc, 0x80200000);
}

#[test]
fn timers_with_equal_deadlines_both_fire() {
    let (mut k, tids) = boot(2);
    k.schedule();
    let a = k.block_current_task();
    k.schedule();
    let b = k.block_current_task();
    k.add_timer(100, a);
    k.add_timer(100, b); // tie: order between the two is unspecified
    k.check_timer(100); // deadlines at exactly the current time fire
    assert_eq!(k.tasks[a].task_status, TaskStatus::Ready);
    assert_eq!(k.tasks[b].task_status, TaskStatus::Ready);
    assert!(k.timers.timers.is_empty());
    let mut woken = vec![k.fetch_task().unwrap(), k.fetch_task().unwrap()];
    woken.sort();
    assert_eq!(woken, vec![tids[0], tids[1]]);
}

#[test]
fn timer_interrupt_with_single_task_reschedules_it() {
    let (mut k, tids) = boot(1);
    k.schedule();
    let out = trap_handler(&mut k, Trap::Interrupt(Interrupt::SupervisorTimer), 1_000);
    assert!(out.rearm_timer);
    // alone in the system: the task yields to itself
    assert_eq!(k.current_task(), Some(tids[0]));
    assert_eq!(k.tasks[tids[0]].task_status, TaskStatus::Running);
    assert!(k.manager.ready_queue.is_empty());
}

#[test]
fn remove_timer_cancels_before_expiry() {
    // a timed wait satisfied early: the cancelled timer never fires
    let (mut k, tids) = boot(2);
    k.schedule();
    let t = k.block_current_task();
    k.add_timer(10, t);
    k.remove_timer(t);
    k.wakeup_task(t); // woken by the non-timeout path instead
    k.check_timer(1_000);
    // woken exactly once: queued once behind the other ready task
    assert_eq!(k.manager.ready_queue, vec![tids[1], t]);
}
