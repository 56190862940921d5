//! The return-code bookkeeping of a child-process object (`Popen`):
//! `poll`, `wait` and `communicate` ask the operating system about the
//! child only while no return code is recorded, and record the first one
//! they learn. Waiting on the child happens around these decisions.

use vstd::prelude::*;

verus! {

/// What a process object knows of its child.
pub struct ProcessState {
    /// The recorded return code, once the child has been reaped.
    pub returncode: Option<i64>,
    /// Whether the child handle is still held (`communicate` gives it up).
    pub has_child: bool,
}

/// What `poll` or `wait` does next.
#[derive(Debug, PartialEq, Eq)]
pub enum ReapStep {
    /// Answer with the recorded return code.
    Recorded(i64),
    /// Ask the operating system about the child.
    AskChild,
    /// No child to ask: answer `None`.
    NoChild,
}

/// What `poll` and `wait` do first, given what the object knows.
pub open spec fn reap_spec(returncode: Option<i64>, has_child: bool) -> ReapStep {
    match returncode {
        Some(rc) => ReapStep::Recorded(rc),
        None => if has_child { ReapStep::AskChild } else { ReapStep::NoChild },
    }
}

/// The first decision of `poll` and `wait`.
pub fn reap_step(state: &ProcessState) -> (r: ReapStep)
    ensures
        r == reap_spec(state.returncode, state.has_child),
{
    match state.returncode {
        Some(rc) => ReapStep::Recorded(rc),
        None => if state.has_child { ReapStep::AskChild } else { ReapStep::NoChild },
    }
}

/// The return code of an exit status: its exit code, or -1 when the child
/// ended without one (killed by a signal).
pub open spec fn code_of(code: Option<i32>) -> i64 {
    match code {
        Some(c) => c as i64,
        None => -1i64,
    }
}

/// The child exited with `code` (`None` when a signal ended it): the
/// return code is recorded and returned.
pub fn record_exit(state: &mut ProcessState, code: Option<i32>) -> (rc: i64)
    ensures
        rc == code_of(code),
        final(state).returncode == Some(rc),
        final(state).has_child == old(state).has_child,
{
    let rc: i64 = match code {
        Some(c) => c as i64,
        None => -1,
    };
    state.returncode = Some(rc);
    rc
}

/// The return code `communicate` records once it has given up the child:
/// the exit code of the reaped child (`Some(code)` for a wait that
/// succeeded; -1 for a failed wait or a signal), or, when no child was left,
/// the code already recorded (-1 if none).
pub fn communicate_returncode(state: &mut ProcessState, waited: Option<Option<Option<i32>>>) -> (rc: i64)
    ensures
        rc == (match waited {
            Some(Some(code)) => code_of(code),
            Some(None) => -1i64,
            None => match old(state).returncode { Some(r) => r, None => -1i64 },
        }),
        final(state).returncode == Some(rc),
        !final(state).has_child,
{
    let rc: i64 = match waited {
        Some(Some(code)) => match code {
            Some(c) => c as i64,
            None => -1,
        },
        Some(None) => -1,
        None => match state.returncode {
            Some(r) => r,
            None => -1,
        },
    };
    state.returncode = Some(rc);
    state.has_child = false;
    rc
}

} // verus!
