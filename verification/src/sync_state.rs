//! The decisions of the cooperative threading objects: `Lock`, `RLock`,
//! `Event`, `Queue` and `Thread`. Everything that waits (running deferred
//! thread bodies, yielding, reading the clock) happens around these steps;
//! each step says what the object's state becomes and what has to happen
//! next.

use vstd::prelude::*;
use std::collections::VecDeque;
use crate::error::PyError;

verus! {

/// One attempt to take a plain lock: a free lock becomes held and the
/// attempt succeeds; a held lock stays held and the attempt fails.
pub fn lock_try_take(locked: &mut bool) -> (took: bool)
    ensures
        took == !*old(locked),
        *final(locked),
{
    if *locked {
        false
    } else {
        *locked = true;
        true
    }
}

/// `release()` and `__exit__`: the lock is free afterwards.
pub fn lock_release(locked: &mut bool)
    ensures
        !*final(locked),
{
    *locked = false;
}

/// What an `acquire` step decided.
#[derive(Debug, PartialEq, Eq, Structural)]
pub enum AcquireStep {
    /// `acquire` returns this value.
    Done(bool),
    /// The caller yields, then takes another step.
    Wait,
}

/// One step of `acquire(blocking, timeout)`: try to take the lock; a
/// non-blocking call returns at once, a call with a deadline (`has_deadline`)
/// gives up once the deadline has passed (`past_deadline`), and any other
/// call waits and tries again.
pub fn lock_acquire_step(locked: &mut bool, blocking: bool, has_deadline: bool, past_deadline: bool) -> (r: AcquireStep)
    ensures
        *final(locked),
        !*old(locked) ==> r == AcquireStep::Done(true),
        *old(locked) && !blocking ==> r == AcquireStep::Done(false),
        *old(locked) && blocking && has_deadline && past_deadline ==> r == AcquireStep::Done(false),
        *old(locked) && blocking && !(has_deadline && past_deadline) ==> r == AcquireStep::Wait,
{
    if lock_try_take(locked) {
        AcquireStep::Done(true)
    } else if !blocking {
        AcquireStep::Done(false)
    } else if has_deadline && past_deadline {
        AcquireStep::Done(false)
    } else {
        AcquireStep::Wait
    }
}

/// What an `__enter__` step on a plain lock decided.
#[derive(Debug, PartialEq)]
pub enum EnterStep {
    /// The lock was taken; `__enter__` returns the lock.
    Entered,
    /// The lock is held: the caller runs the deferred thread bodies and
    /// takes another step with `drained` set.
    Drain,
    /// Still held after the deferred bodies ran.
    Deadlock(PyError),
}

/// One step of `__enter__` on a plain lock: a free lock is taken; a held
/// one first has the deferred thread bodies run, and if it is still held
/// after that, the interpreter reports a deadlock.
pub fn lock_enter_step(locked: &mut bool, drained: bool) -> (r: EnterStep)
    ensures
        *final(locked),
        !*old(locked) ==> r == EnterStep::Entered,
        *old(locked) && !drained ==> r == EnterStep::Drain,
        *old(locked) && drained ==> (r matches EnterStep::Deadlock(PyError::RuntimeError(m))
            && m@ == "lock acquire deadlock in single-threaded interpreter"@),
{
    if lock_try_take(locked) {
        EnterStep::Entered
    } else if !drained {
        EnterStep::Drain
    } else {
        EnterStep::Deadlock(PyError::RuntimeError(
            "lock acquire deadlock in single-threaded interpreter".to_owned(),
        ))
    }
}

/// The `(owner, count)` of a re-entrant lock after thread `me` takes it
/// once more or takes it free; a lock held by another thread is unchanged.
pub open spec fn rlock_acquired(owner: Option<u64>, count: int, me: u64) -> (Option<u64>, int) {
    match owner {
        Some(o) => if o == me { (Some(me), count + 1) } else { (owner, count) },
        None => (Some(me), 1),
    }
}

/// The `(owner, count)` of a re-entrant lock after thread `me` releases
/// it: only the owner's release counts, and the last one frees the lock.
pub open spec fn rlock_released(owner: Option<u64>, count: int, me: u64) -> (Option<u64>, int) {
    if owner != Some(me) {
        (owner, count)
    } else if count - 1 == 0 {
        (None, 0)
    } else {
        (Some(me), count - 1)
    }
}

/// A re-entrant lock: the thread that holds it and how many times.
pub struct RLockState {
    pub owner: Option<u64>,
    pub count: u64,
}

impl RLockState {
    /// A lock is held exactly when its count is positive.
    pub open spec fn wf(self) -> bool {
        self.owner is Some <==> self.count > 0
    }

    /// A free re-entrant lock.
    pub fn new() -> (s: RLockState)
        ensures
            s.wf(),
            s.owner is None,
    {
        RLockState { owner: None, count: 0 }
    }

    /// One step of `acquire()` / `__enter__` by thread `me`: the owner takes
    /// it once more, a free lock becomes `me`'s, and a lock held by another
    /// thread makes `me` wait (the result is `false`).
    pub fn acquire_step(&mut self, me: u64) -> (took: bool)
        requires
            old(self).wf(),
            old(self).count < u64::MAX,
        ensures
            final(self).wf(),
            (final(self).owner, final(self).count as int) == rlock_acquired(old(self).owner, old(self).count as int, me),
            took == (old(self).owner is None || old(self).owner == Some(me)),
    {
        match self.owner {
            Some(o) => {
                if o == me {
                    self.count = self.count + 1;
                    true
                } else {
                    false
                }
            },
            None => {
                self.owner = Some(me);
                self.count = 1;
                true
            },
        }
    }

    /// `release()` / `__exit__` by thread `me`: only the owner may release;
    /// the last release frees the lock.
    pub fn release(&mut self, me: u64) -> (r: Result<(), PyError>)
        requires
            old(self).wf(),
        ensures
            final(self).wf(),
            (final(self).owner, final(self).count as int) == rlock_released(old(self).owner, old(self).count as int, me),
            old(self).owner != Some(me) ==> (r matches Err(PyError::RuntimeError(m))
                && m@ == "cannot release un-acquired lock"@),
            old(self).owner == Some(me) ==> r is Ok,
    {
        if self.owner != Some(me) {
            return Err(PyError::RuntimeError("cannot release un-acquired lock".to_owned()));
        }
        self.count = self.count - 1;
        if self.count == 0 {
            self.owner = None;
        }
        Ok(())
    }
}

/// What `Event.wait()` decided once the deferred thread bodies have run.
#[derive(Debug, PartialEq, Eq, Structural)]
pub enum WaitOutcome {
    /// `wait` returns this flag.
    Flag(bool),
    /// The waiting body can never be woken: it is unwound.
    Unwind,
}

/// `Event.wait()` after the deferred thread bodies ran: a set event
/// answers `true`; an unset one answers `false`, unless the caller is a
/// deferred body that nothing left can wake (`blocked_forever`), which is
/// unwound.
pub fn event_wait(flag: bool, blocked_forever: bool) -> (r: WaitOutcome)
    ensures
        flag ==> r == WaitOutcome::Flag(true),
        !flag && blocked_forever ==> r == WaitOutcome::Unwind,
        !flag && !blocked_forever ==> r == WaitOutcome::Flag(false),
{
    if !flag && blocked_forever {
        WaitOutcome::Unwind
    } else {
        WaitOutcome::Flag(flag)
    }
}

/// What a `Queue.get()` step decided.
#[derive(Debug, PartialEq)]
pub enum GetStep<T> {
    /// The front item, now removed.
    Item(T),
    /// The queue is empty: the caller runs the deferred thread bodies and
    /// takes another step with `drained` set.
    Drain,
    /// Still empty after the deferred bodies ran.
    Empty(PyError),
}

/// `Queue.put(item)`: the item goes to the back.
pub fn queue_put<T>(q: &mut VecDeque<T>, item: T)
    ensures
        final(q)@ == old(q)@.push(item),
{
    q.push_back(item);
}

/// One step of `Queue.get()`: the front item comes out; an empty queue
/// first has the deferred producers run, and if it is still empty after
/// that, raises `RuntimeError`.
pub fn queue_get_step<T>(q: &mut VecDeque<T>, drained: bool) -> (r: GetStep<T>)
    ensures
        old(q)@.len() > 0 ==> r == GetStep::Item(old(q)@[0]) && final(q)@ == old(q)@.drop_first(),
        old(q)@.len() == 0 && !drained ==> r == GetStep::<T>::Drain && final(q)@ == old(q)@,
        old(q)@.len() == 0 && drained ==> (r matches GetStep::Empty(PyError::RuntimeError(m))
            && m@ == "empty queue"@ && final(q)@ == old(q)@),
{
    match q.pop_front() {
        Some(x) => GetStep::Item(x),
        None => if drained {
            GetStep::Empty(PyError::RuntimeError("empty queue".to_owned()))
        } else {
            GetStep::Drain
        },
    }
}

/// `Queue.qsize()`: the number of items.
pub fn queue_size<T>(q: &VecDeque<T>) -> (r: usize)
    ensures
        r == q@.len(),
{
    q.len()
}

/// `Thread.start()`: a thread starts once; the caller then queues its
/// target to run deferred.
pub fn thread_start(started: &mut bool) -> (r: Result<(), PyError>)
    ensures
        *final(started),
        *old(started) ==> (r matches Err(PyError::RuntimeError(m)) && m@ == "threads can only be started once"@),
        !*old(started) ==> r is Ok,
{
    if *started {
        return Err(PyError::RuntimeError("threads can only be started once".to_owned()));
    }
    *started = true;
    Ok(())
}

/// What `Thread.join()` does once the deferred thread bodies have run.
#[derive(Debug, PartialEq)]
pub enum JoinAction {
    /// Join the OS thread, then return the recorded result.
    JoinHandle,
    /// Return the recorded result (`None` if there is none).
    ReturnResult,
    Refuse(PyError),
}

/// `Thread.join()`: a thread with an OS handle is joined; a started thread
/// without one has already run; a thread never started cannot be joined.
pub fn thread_join(has_handle: bool, started: bool) -> (r: JoinAction)
    ensures
        has_handle ==> r == JoinAction::JoinHandle,
        !has_handle && started ==> r == JoinAction::ReturnResult,
        !has_handle && !started ==> (r matches JoinAction::Refuse(PyError::RuntimeError(m))
            && m@ == "cannot join thread before it is started"@),
{
    if has_handle {
        JoinAction::JoinHandle
    } else if started {
        JoinAction::ReturnResult
    } else {
        JoinAction::Refuse(PyError::RuntimeError("cannot join thread before it is started".to_owned()))
    }
}

} // verus!
