use sched_core::condvar::Condvar;
use sched_core::kernel::Kernel;
use sched_core::mutex::{MutexBlocking, MutexSpin};
use sched_core::process::ProcessControlBlock;
use sched_core::semaphore::Semaphore;
use sched_core::task::TaskStatus;

fn boot(n_tasks: usize) -> (Kernel, Vec<usize>) {
    let mut k = Kernel::new();
    k.insert_into_pid2process(1, ProcessControlBlock::new(1, 0x1000));
    let mut tids = Vec::new();
    for _ in 0..n_tasks {
        let tid = k.create_task(1);
        k.start_task(tid);
        tids.push(tid);
    }
    (k, tids)
}

#[test]
fn mutex_uncontended_lock_and_unlock() {
    let (mut k, _tids) = boot(1);
    k.schedule();
    let mut m = MutexBlocking::new();
    m.lock(&mut k);
    assert!(m.locked);
    assert!(m.wait_queue.is_empty());
    m.unlock(&mut k);
    assert!(!m.locked);
}

#[test]
fn mutex_contender_blocks_and_unlock_hands_over_fifo() {
    let (mut k, tids) = boot(3);
    let (a, b, c) = (tids[0], tids[1], tids[2]);
    k.schedule(); // a runs
    let mut m = MutexBlocking::new();
    m.lock(&mut k); // a acquires
    k.suspend_current_and_run_next(); // b runs
    assert_eq!(k.current_task(), Some(b));
    m.lock(&mut k); // b blocks on the mutex; c runs
    assert_eq!(k.tasks[b].task_status, TaskStatus::Blocked);
    assert_eq!(m.wait_queue, vec![b]);
    assert_eq!(k.current_task(), Some(c));
    m.lock(&mut k); // c blocks too; a runs again
    assert_eq!(m.wait_queue, vec![b, c]);
    assert_eq!(k.current_task(), Some(a));
    // at most one task holds the lock: a releasing hands it to b, not c
    m.unlock(&mut k);
    assert!(m.locked); // ownership transferred, never observed free
    assert_eq!(m.wait_queue, vec![c]);
    assert_eq!(k.tasks[b].task_status, TaskStatus::Ready);
    assert_eq!(k.tasks[c].task_status, TaskStatus::Blocked);
}

#[test]
fn spin_mutex_yields_instead_of_blocking() {
    let (mut k, tids) = boot(2);
    k.schedule(); // tids[0] runs
    let mut m = MutexSpin::new();
    assert!(m.lock(&mut k)); // free: acquired, nothing scheduled
    assert_eq!(k.current_task(), Some(tids[0]));
    k.suspend_current_and_run_next(); // tids[1] runs
    assert!(!m.lock(&mut k)); // busy: the caller yields, no wait queue
    assert_eq!(k.tasks[tids[1]].task_status, TaskStatus::Ready);
    assert_eq!(k.current_task(), Some(tids[0]));
    m.unlock();
    assert!(!m.locked);
}

#[test]
fn semaphore_capacity_two_admits_two_blocks_third() {
    let (mut k, tids) = boot(3);
    k.schedule();
    let mut s = Semaphore::new(2);
    s.down(&mut k); // first unit: no block
    assert_eq!(k.current_task(), Some(tids[0]));
    k.suspend_current_and_run_next();
    s.down(&mut k); // second unit: no block
    assert_eq!(k.current_task(), Some(tids[1]));
    k.suspend_current_and_run_next();
    s.down(&mut k); // third caller blocks
    assert_eq!(s.count, -1);
    assert_eq!(k.tasks[tids[2]].task_status, TaskStatus::Blocked);
    assert_eq!(s.wait_queue, vec![tids[2]]);
}

#[test]
fn semaphore_up_wakes_blocked_waiters_fifo() {
    let (mut k, tids) = boot(3);
    let (a, b, c) = (tids[0], tids[1], tids[2]);
    k.schedule();
    let mut s = Semaphore::new(0);
    s.down(&mut k); // a blocks; b runs
    s.down(&mut k); // b blocks; c runs
    assert_eq!(s.wait_queue, vec![a, b]);
    assert_eq!(k.current_task(), Some(c));
    s.up(&mut k); // wakes a, not b
    assert_eq!(k.tasks[a].task_status, TaskStatus::Ready);
    assert_eq!(k.tasks[b].task_status, TaskStatus::Blocked);
    s.up(&mut k); // wakes b
    assert_eq!(k.tasks[b].task_status, TaskStatus::Ready);
    assert_eq!(s.count, 0); // two downs, two ups: balance restored
    assert!(s.wait_queue.is_empty());
}

#[test]
fn semaphore_down_then_up_end_to_end() {
    // task a downs an empty semaphore, blocks and leaves the ready queue;
    // task b ups: a is woken, appended at the tail, and fetched next.
    let (mut k, tids) = boot(2);
    let (a, b) = (tids[0], tids[1]);
    k.schedule(); // a runs
    let mut s = Semaphore::new(0);
    s.down(&mut k); // a blocks, b runs
    assert_eq!(k.tasks[a].task_status, TaskStatus::Blocked);
    assert_eq!(k.current_task(), Some(b));
    assert!(k.manager.ready_queue.is_empty());
    s.up(&mut k); // b hands the unit to a
    assert_eq!(k.tasks[a].task_status, TaskStatus::Ready);
    assert_eq!(k.manager.ready_queue, vec![a]);
    assert_eq!(k.fetch_task(), Some(a));
}

#[test]
fn condvar_signal_on_empty_queue_is_noop() {
    let (mut k, tids) = boot(2);
    k.schedule();
    let statuses: Vec<TaskStatus> = k.tasks.iter().map(|t| t.task_status).collect();
    let ready = k.manager.ready_queue.clone();
    let mut cv = Condvar::new();
    cv.signal(&mut k);
    // no task was incorrectly marked ready, nothing moved
    for (i, t) in k.tasks.iter().enumerate() {
        assert_eq!(t.task_status, statuses[i]);
    }
    assert_eq!(k.manager.ready_queue, ready);
    assert_eq!(k.current_task(), Some(tids[0]));
}

#[test]
fn condvar_signal_wakes_exactly_the_head() {
    let (mut k, tids) = boot(3);
    let (a, b, c) = (tids[0], tids[1], tids[2]);
    k.schedule();
    let mut cv = Condvar::new();
    cv.wait_no_sched(&mut k); // a parks
    k.schedule(); // b runs
    cv.wait_no_sched(&mut k); // b parks
    k.schedule(); // c runs
    assert_eq!(cv.inner.wait_queue, vec![a, b]);
    cv.signal(&mut k);
    assert_eq!(k.tasks[a].task_status, TaskStatus::Ready);
    assert_eq!(k.tasks[b].task_status, TaskStatus::Blocked);
    assert_eq!(cv.inner.wait_queue, vec![b]);
}

#[test]
fn condvar_wait_no_sched_returns_handle_without_scheduling() {
    let (mut k, tids) = boot(2);
    k.schedule();
    let mut cv = Condvar::new();
    let handle = cv.wait_no_sched(&mut k);
    assert_eq!(handle, tids[0]);
    assert_eq!(k.tasks[tids[0]].task_status, TaskStatus::Blocked);
    // the processor was not handed to anyone: that is the caller's job
    assert_eq!(k.current_task(), None);
}

#[test]
fn condvar_wait_with_mutex_releases_waits_and_reacquires() {
    let (mut k, tids) = boot(2);
    let (a, b) = (tids[0], tids[1]);
    k.schedule(); // a runs
    let mut m = MutexBlocking::new();
    let mut cv = Condvar::new();
    m.lock(&mut k); // a holds the mutex
    cv.wait_with_mutex(&mut k, &mut m); // a releases, parks, b runs
    assert!(!m.locked); // released before parking: no lost wakeup window
    assert_eq!(k.tasks[a].task_status, TaskStatus::Blocked);
    assert_eq!(cv.inner.wait_queue, vec![a]);
    assert_eq!(k.current_task(), Some(b));
    m.lock(&mut k); // b takes the mutex
    cv.signal(&mut k); // wakes exactly a
    assert_eq!(k.tasks[a].task_status, TaskStatus::Ready);
    m.unlock(&mut k);
    k.suspend_current_and_run_next(); // a is scheduled again
    assert_eq!(k.current_task(), Some(a));
    m.lock(&mut k); // a reacquires its mutex before proceeding
    assert!(m.locked);
    assert!(m.wait_queue.is_empty());
}
