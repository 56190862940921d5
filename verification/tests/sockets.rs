use pyattrs::error::PyError;
use pyattrs::socket_state::{recv_capacity, socket_after, socket_check, SocketMethod, SocketState};

fn runtime(msg: &str) -> Result<(), PyError> {
    Err(PyError::RuntimeError(msg.to_string()))
}

#[test]
fn fresh_socket_binds_then_listens_and_accepts() {
    let s = SocketState::Fresh;
    assert_eq!(socket_check(s, SocketMethod::Bind), Ok(()));
    let s = socket_after(s, SocketMethod::Bind);
    assert_eq!(s, SocketState::Listener);
    assert_eq!(socket_check(s, SocketMethod::Listen), Ok(()));
    assert_eq!(socket_check(s, SocketMethod::Accept), Ok(()));
    assert_eq!(socket_after(s, SocketMethod::Accept), SocketState::Listener);
    assert_eq!(socket_check(s, SocketMethod::Bind), runtime("socket already bound or connected"));
    assert_eq!(socket_check(s, SocketMethod::Connect), runtime("socket already connected or listening"));
    assert_eq!(socket_check(s, SocketMethod::Send), runtime("send on non-stream"));
    assert_eq!(socket_check(s, SocketMethod::Recv), runtime("recv on non-stream"));
    assert_eq!(socket_check(s, SocketMethod::GetSockName), Ok(()));
    assert_eq!(
        socket_check(s, SocketMethod::GetPeerName),
        Err(PyError::OsError("Socket is not connected".to_string()))
    );
}

#[test]
fn connected_socket_sends_and_receives() {
    let s = socket_after(SocketState::Fresh, SocketMethod::Connect);
    assert_eq!(s, SocketState::Stream);
    assert_eq!(socket_check(s, SocketMethod::Send), Ok(()));
    assert_eq!(socket_check(s, SocketMethod::Recv), Ok(()));
    assert_eq!(socket_check(s, SocketMethod::GetPeerName), Ok(()));
    assert_eq!(socket_check(s, SocketMethod::Listen), runtime("listen on non-listener"));
    assert_eq!(socket_check(s, SocketMethod::Accept), runtime("accept on non-listener"));
}

#[test]
fn fresh_socket_has_no_name() {
    let s = SocketState::Fresh;
    assert_eq!(
        socket_check(s, SocketMethod::GetSockName),
        Err(PyError::OsError("Bad file descriptor".to_string()))
    );
    assert_eq!(socket_check(s, SocketMethod::Send), runtime("send on non-stream"));
}

#[test]
fn close_resets_any_socket() {
    for s in [SocketState::Fresh, SocketState::Listener, SocketState::Stream] {
        assert_eq!(socket_check(s, SocketMethod::Close), Ok(()));
        let c = socket_after(s, SocketMethod::Close);
        assert_eq!(c, SocketState::Fresh);
        assert_eq!(socket_check(c, SocketMethod::Bind), Ok(()));
        assert_eq!(socket_check(c, SocketMethod::Connect), Ok(()));
    }
}

#[test]
fn recv_reads_at_most_the_limit() {
    assert_eq!(recv_capacity(None), 4096);
    assert_eq!(recv_capacity(Some(10)), 10);
    assert_eq!(recv_capacity(Some(0)), 0);
    assert_eq!(recv_capacity(Some(1 << 20)), 65536);
    assert_eq!(recv_capacity(Some(-1)), 65536);
}
