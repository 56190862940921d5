//! The states of a socket object and which method each state admits. The
//! network work itself (binding, connecting, accepting, sending) happens
//! around these decisions; a method that succeeds moves the socket to the
//! state `after` names.

use vstd::prelude::*;
use crate::error::PyError;

verus! {

/// What a socket object holds.
#[derive(Debug, Clone, Copy, PartialEq, Eq, Structural)]
pub enum SocketState {
    /// Neither bound nor connected (a new or closed socket).
    Fresh,
    /// Bound and listening for connections.
    Listener,
    /// Connected to a peer.
    Stream,
}

/// The socket methods that depend on the state.
#[derive(Debug, Clone, Copy, PartialEq, Eq, Structural)]
pub enum SocketMethod {
    Bind,
    Connect,
    Listen,
    Accept,
    Send,
    Recv,
    Close,
    GetSockName,
    GetPeerName,
}

/// Whether `m` may run on a socket in state `s`.
pub open spec fn admits(s: SocketState, m: SocketMethod) -> bool {
    match m {
        SocketMethod::Bind | SocketMethod::Connect => s == SocketState::Fresh,
        SocketMethod::Listen | SocketMethod::Accept => s == SocketState::Listener,
        SocketMethod::Send | SocketMethod::Recv | SocketMethod::GetPeerName => s == SocketState::Stream,
        SocketMethod::GetSockName => s != SocketState::Fresh,
        SocketMethod::Close => true,
    }
}

/// The state after `m` succeeds on a socket in state `s`.
pub open spec fn after(s: SocketState, m: SocketMethod) -> SocketState {
    match m {
        SocketMethod::Bind => SocketState::Listener,
        SocketMethod::Connect => SocketState::Stream,
        SocketMethod::Close => SocketState::Fresh,
        _ => s,
    }
}

/// Whether `method` may run on a socket in `state`; when it may not, the
/// error it raises.
pub fn socket_check(state: SocketState, method: SocketMethod) -> (r: Result<(), PyError>)
    ensures
        r is Ok <==> admits(state, method),
        !admits(state, method) ==> (match method {
            SocketMethod::Bind => r matches Err(PyError::RuntimeError(m)) && m@ == "socket already bound or connected"@,
            SocketMethod::Connect => r matches Err(PyError::RuntimeError(m)) && m@ == "socket already connected or listening"@,
            SocketMethod::Listen => r matches Err(PyError::RuntimeError(m)) && m@ == "listen on non-listener"@,
            SocketMethod::Accept => r matches Err(PyError::RuntimeError(m)) && m@ == "accept on non-listener"@,
            SocketMethod::Send => r matches Err(PyError::RuntimeError(m)) && m@ == "send on non-stream"@,
            SocketMethod::Recv => r matches Err(PyError::RuntimeError(m)) && m@ == "recv on non-stream"@,
            SocketMethod::GetSockName => r matches Err(PyError::OsError(m)) && m@ == "Bad file descriptor"@,
            SocketMethod::GetPeerName => r matches Err(PyError::OsError(m)) && m@ == "Socket is not connected"@,
            SocketMethod::Close => false,
        }),
{
    match method {
        SocketMethod::Bind => if state == SocketState::Fresh { Ok(()) } else {
            Err(PyError::RuntimeError("socket already bound or connected".to_owned()))
        },
        SocketMethod::Connect => if state == SocketState::Fresh { Ok(()) } else {
            Err(PyError::RuntimeError("socket already connected or listening".to_owned()))
        },
        SocketMethod::Listen => if state == SocketState::Listener { Ok(()) } else {
            Err(PyError::RuntimeError("listen on non-listener".to_owned()))
        },
        SocketMethod::Accept => if state == SocketState::Listener { Ok(()) } else {
            Err(PyError::RuntimeError("accept on non-listener".to_owned()))
        },
        SocketMethod::Send => if state == SocketState::Stream { Ok(()) } else {
            Err(PyError::RuntimeError("send on non-stream".to_owned()))
        },
        SocketMethod::Recv => if state == SocketState::Stream { Ok(()) } else {
            Err(PyError::RuntimeError("recv on non-stream".to_owned()))
        },
        SocketMethod::GetSockName => if state != SocketState::Fresh { Ok(()) } else {
            Err(PyError::OsError("Bad file descriptor".to_owned()))
        },
        SocketMethod::GetPeerName => if state == SocketState::Stream { Ok(()) } else {
            Err(PyError::OsError("Socket is not connected".to_owned()))
        },
        SocketMethod::Close => Ok(()),
    }
}

/// The state of a socket once `method` has succeeded on it.
pub fn socket_after(state: SocketState, method: SocketMethod) -> (r: SocketState)
    ensures
        r == after(state, method),
{
    match method {
        SocketMethod::Bind => SocketState::Listener,
        SocketMethod::Connect => SocketState::Stream,
        SocketMethod::Close => SocketState::Fresh,
        _ => state,
    }
}

/// The largest read a single `recv` performs.
pub const RECV_LIMIT: usize = 65536;

/// The number of bytes `recv` reads at most: the requested size (4096 when
/// none is given), as an unsigned size, and never more than `RECV_LIMIT`.
/// A negative request wraps to a huge size and so reads `RECV_LIMIT`.
pub fn recv_capacity(requested: Option<i64>) -> (n: usize)
    ensures
        n == (match requested {
            None => 4096int,
            Some(k) => if k < 0 || k >= RECV_LIMIT { RECV_LIMIT as int } else { k as int },
        }),
{
    match requested {
        None => 4096,
        Some(k) => if k < 0 || k >= 65536 { RECV_LIMIT } else { k as usize },
    }
}

} // verus!
