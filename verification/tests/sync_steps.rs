use pyattrs::error::PyError;
use pyattrs::sync_state::{
    event_wait, lock_acquire_step, lock_enter_step, lock_release, lock_try_take, queue_get_step,
    queue_put, queue_size, thread_join, thread_start, AcquireStep, EnterStep, GetStep, JoinAction,
    RLockState, WaitOutcome,
};
use std::collections::VecDeque;

#[test]
fn plain_lock_take_and_release() {
    let mut locked = false;
    assert!(lock_try_take(&mut locked));
    assert!(!lock_try_take(&mut locked));
    lock_release(&mut locked);
    assert!(!locked);
}

#[test]
fn acquire_steps() {
    let mut locked = false;
    assert_eq!(lock_acquire_step(&mut locked, true, false, false), AcquireStep::Done(true));
    assert_eq!(lock_acquire_step(&mut locked, false, false, false), AcquireStep::Done(false));
    assert_eq!(lock_acquire_step(&mut locked, true, true, false), AcquireStep::Wait);
    assert_eq!(lock_acquire_step(&mut locked, true, true, true), AcquireStep::Done(false));
    assert_eq!(lock_acquire_step(&mut locked, true, false, true), AcquireStep::Wait);
    assert!(locked);
}

#[test]
fn enter_drains_then_reports_deadlock() {
    let mut locked = false;
    assert_eq!(lock_enter_step(&mut locked, false), EnterStep::Entered);
    assert_eq!(lock_enter_step(&mut locked, false), EnterStep::Drain);
    assert_eq!(
        lock_enter_step(&mut locked, true),
        EnterStep::Deadlock(PyError::RuntimeError(
            "lock acquire deadlock in single-threaded interpreter".to_string()
        ))
    );
}

#[test]
fn rlock_reentry_and_release() {
    let mut l = RLockState::new();
    assert!(l.acquire_step(7));
    assert!(l.acquire_step(7));
    assert!(!l.acquire_step(8));
    assert_eq!(l.count, 2);
    assert_eq!(
        l.release(8),
        Err(PyError::RuntimeError("cannot release un-acquired lock".to_string()))
    );
    assert_eq!(l.release(7), Ok(()));
    assert_eq!(l.owner, Some(7));
    assert_eq!(l.release(7), Ok(()));
    assert_eq!(l.owner, None);
    assert_eq!(l.count, 0);
    assert!(l.acquire_step(8));
    assert_eq!(l.owner, Some(8));
}

#[test]
fn event_wait_outcomes() {
    assert_eq!(event_wait(true, true), WaitOutcome::Flag(true));
    assert_eq!(event_wait(false, false), WaitOutcome::Flag(false));
    assert_eq!(event_wait(false, true), WaitOutcome::Unwind);
}

#[test]
fn queue_is_first_in_first_out() {
    let mut q: VecDeque<i32> = VecDeque::new();
    assert_eq!(queue_get_step(&mut q, false), GetStep::Drain);
    assert_eq!(
        queue_get_step(&mut q, true),
        GetStep::Empty(PyError::RuntimeError("empty queue".to_string()))
    );
    queue_put(&mut q, 1);
    queue_put(&mut q, 2);
    assert_eq!(queue_size(&q), 2);
    assert_eq!(queue_get_step(&mut q, false), GetStep::Item(1));
    assert_eq!(queue_get_step(&mut q, true), GetStep::Item(2));
    assert_eq!(queue_size(&q), 0);
}

#[test]
fn thread_start_once_and_join() {
    let mut started = false;
    assert_eq!(
        thread_join(false, started),
        JoinAction::Refuse(PyError::RuntimeError(
            "cannot join thread before it is started".to_string()
        ))
    );
    assert_eq!(thread_start(&mut started), Ok(()));
    assert_eq!(
        thread_start(&mut started),
        Err(PyError::RuntimeError("threads can only be started once".to_string()))
    );
    assert_eq!(thread_join(false, started), JoinAction::ReturnResult);
    assert_eq!(thread_join(true, started), JoinAction::JoinHandle);
}
