use sched_core::kernel::{Kernel, TrapEntry};
use sched_core::manager::TaskManager;
use sched_core::process::ProcessControlBlock;
use sched_core::task::{TaskStatus, MAX_SYSCALL_NUM};

fn boot(n_tasks: usize) -> (Kernel, Vec<usize>) {
    let mut k = Kernel::new();
    k.insert_into_pid2process(1, ProcessControlBlock::new(1, 0x1000));
    let mut tids = Vec::new();
    for _ in 0..n_tasks {
        let tid = k.create_task(1);
        k.start_task(tid);
        tids.push(tid);
    }
    (k, tids)
}

#[test]
fn manager_fifo_returns_in_add_order() {
    let mut m = TaskManager::new();
    m.add(7);
    m.add(3);
    m.add(9);
    assert_eq!(m.fetch(), Some(7));
    m.add(1);
    assert_eq!(m.fetch(), Some(3));
    assert_eq!(m.fetch(), Some(9));
    assert_eq!(m.fetch(), Some(1));
}

#[test]
fn manager_fetch_on_empty_signals_emptiness() {
    let mut m = TaskManager::new();
    assert_eq!(m.fetch(), None);
    m.add(4);
    assert_eq!(m.fetch(), Some(4));
    assert_eq!(m.fetch(), None);
}

#[test]
fn manager_remove_takes_first_occurrence_only() {
    let mut m = TaskManager::new();
    m.add(5);
    m.add(6);
    m.add(7);
    m.remove(6);
    assert_eq!(m.fetch(), Some(5));
    assert_eq!(m.fetch(), Some(7));
    assert_eq!(m.fetch(), None);
    m.remove(42); // absent: no effect
    assert_eq!(m.fetch(), None);
}

#[test]
fn new_kernel_is_empty_and_booted() {
    let k = Kernel::new();
    assert!(k.tasks.is_empty());
    assert!(k.processes.is_empty());
    assert_eq!(k.current, None);
    assert_eq!(k.trap_entry, TrapEntry::ForKernel);
    assert!(!k.timer_interrupt_enabled);
}

#[test]
fn task_lifecycle_uninit_ready_running() {
    let mut k = Kernel::new();
    k.insert_into_pid2process(1, ProcessControlBlock::new(1, 0));
    let tid = k.create_task(1);
    assert_eq!(k.tasks[tid].task_status, TaskStatus::UnInit);
    assert_eq!(k.tasks[tid].task_info.syscall_times.len(), MAX_SYSCALL_NUM);
    k.start_task(tid);
    assert_eq!(k.tasks[tid].task_status, TaskStatus::Ready);
    assert_eq!(k.schedule(), Some(tid));
    assert_eq!(k.tasks[tid].task_status, TaskStatus::Running);
    assert_eq!(k.current_task(), Some(tid));
}

#[test]
fn wakeup_task_appends_to_ready_tail() {
    let (mut k, tids) = boot(2);
    k.schedule();
    let running = k.current_task().unwrap();
    assert_eq!(running, tids[0]);
    k.block_current_task();
    assert_eq!(k.tasks[tids[0]].task_status, TaskStatus::Blocked);
    k.wakeup_task(tids[0]);
    assert_eq!(k.tasks[tids[0]].task_status, TaskStatus::Ready);
    // FIFO: the earlier task is still ahead in the queue
    assert_eq!(k.fetch_task(), Some(tids[1]));
    assert_eq!(k.fetch_task(), Some(tids[0]));
}

#[test]
fn suspend_requeues_and_schedules_head() {
    let (mut k, tids) = boot(2);
    k.schedule();
    assert_eq!(k.current_task(), Some(tids[0]));
    k.suspend_current_and_run_next();
    assert_eq!(k.current_task(), Some(tids[1]));
    assert_eq!(k.tasks[tids[0]].task_status, TaskStatus::Ready);
    assert_eq!(k.tasks[tids[1]].task_status, TaskStatus::Running);
    k.suspend_current_and_run_next();
    assert_eq!(k.current_task(), Some(tids[0]));
}

#[test]
fn exit_marks_zombie_and_removes_last_pid() {
    let (mut k, tids) = boot(1);
    k.schedule();
    assert!(k.pid2process(1).is_some());
    k.exit_current_and_run_next(17);
    assert_eq!(k.tasks[tids[0]].task_status, TaskStatus::Zombie);
    assert_eq!(k.tasks[tids[0]].exit_code, 17);
    assert_eq!(k.current_task(), None);
    assert!(k.pid2process(1).is_none());
}

#[test]
fn exit_keeps_pid_while_other_tasks_live() {
    let (mut k, _tids) = boot(2);
    k.schedule();
    k.exit_current_and_run_next(0);
    assert!(k.pid2process(1).is_some());
    // the second task exits too: now the pid goes away
    k.exit_current_and_run_next(0);
    assert!(k.pid2process(1).is_none());
}

#[test]
fn pid_registry_lookup_insert_remove() {
    let mut k = Kernel::new();
    k.insert_into_pid2process(10, ProcessControlBlock::new(10, 0));
    k.insert_into_pid2process(11, ProcessControlBlock::new(11, 0));
    assert_eq!(k.pid2process(10).unwrap().pid, 10);
    assert_eq!(k.pid2process(11).unwrap().pid, 11);
    assert!(k.pid2process(12).is_none());
    k.remove_from_pid2process(10);
    assert!(k.pid2process(10).is_none());
    assert!(k.pid2process(11).is_some());
}

#[test]
fn remove_task_pulls_out_of_ready_queue() {
    let (mut k, tids) = boot(3);
    k.remove_task(tids[1]);
    assert_eq!(k.fetch_task(), Some(tids[0]));
    assert_eq!(k.fetch_task(), Some(tids[2]));
    assert_eq!(k.fetch_task(), None);
    // the removed task keeps its Ready status, it is just not queued
    assert_eq!(k.tasks[tids[1]].task_status, TaskStatus::Ready);
}

#[test]
fn count_syscall_saturates_at_ceiling() {
    let (mut k, tids) = boot(1);
    k.schedule();
    k.count_syscall(124);
    k.count_syscall(124);
    k.count_syscall(93);
    assert_eq!(k.tasks[tids[0]].task_info.syscall_times[124], 2);
    assert_eq!(k.tasks[tids[0]].task_info.syscall_times[93], 1);
    k.tasks[tids[0]].task_info.syscall_times[124] = u32::MAX;
    k.count_syscall(124);
    assert_eq!(k.tasks[tids[0]].task_info.syscall_times[124], u32::MAX);
}
