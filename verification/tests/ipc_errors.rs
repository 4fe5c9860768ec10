use ipc_channel::ipc::IpcError;
use mccs::daemon;
use mccs::ipc::{
    ChannelTryRecvError, ControlError, Error, IpcRecvError, IpcSendError,
    OtherError, RecvFdError, ShmIpcError, ShmObjError, ShmRingbufError, TryRecvError, UCred,
    UnixError, MAX_MSG_LEN,
};

fn io_error() -> std::io::Error {
    std::io::Error::new(std::io::ErrorKind::Other, "pipe is full")
}

fn bincode_error() -> bincode::Error {
    Box::new(bincode::ErrorKind::SizeLimit)
}

fn bincode_text() -> String {
    format!("{}", bincode_error())
}

fn said(text: &str) -> OtherError {
    OtherError::Message(String::from(text))
}

#[test]
fn try_recv_error_from_channel_error() {
    assert!(matches!(
        TryRecvError::from(ChannelTryRecvError::Empty),
        TryRecvError::Empty
    ));
    assert!(matches!(
        TryRecvError::from(ChannelTryRecvError::IpcError(IpcError::Disconnected)),
        TryRecvError::Disconnected
    ));
    match TryRecvError::from(ChannelTryRecvError::IpcError(IpcError::Io(io_error()))) {
        TryRecvError::Other(OtherError::Io(e)) => assert_eq!(e.to_string(), "pipe is full"),
        other => panic!("{:?}", other),
    }
    match TryRecvError::from(ChannelTryRecvError::IpcError(IpcError::Bincode(
        bincode_error(),
    ))) {
        TryRecvError::Other(OtherError::Bincode(e)) => assert_eq!(e.to_string(), bincode_text()),
        other => panic!("{:?}", other),
    }
}

#[test]
fn recv_error_from_channel_error() {
    assert!(matches!(
        IpcRecvError::from(IpcError::Disconnected),
        IpcRecvError::Disconnected
    ));
    match IpcRecvError::from(IpcError::Io(io_error())) {
        IpcRecvError::Other(OtherError::Io(e)) => assert_eq!(e.to_string(), "pipe is full"),
        other => panic!("{:?}", other),
    }
    match IpcRecvError::from(IpcError::Bincode(bincode_error())) {
        IpcRecvError::Other(OtherError::Bincode(e)) => assert_eq!(e.to_string(), bincode_text()),
        other => panic!("{:?}", other),
    }
}

#[test]
fn send_error_from_encoding_error() {
    match IpcSendError::from(bincode_error()) {
        IpcSendError::Bincode(e) => assert_eq!(e.to_string(), bincode_text()),
        other => panic!("{:?}", other),
    }
}

#[test]
fn try_recv_and_recv_fail_alike() {
    let disconnected = ChannelTryRecvError::IpcError(IpcError::Disconnected);
    assert_eq!(
        TryRecvError::from(disconnected).message(),
        IpcRecvError::from(IpcError::Disconnected).message()
    );
    let io = ChannelTryRecvError::IpcError(IpcError::Io(io_error()));
    assert_eq!(
        TryRecvError::from(io).message(),
        IpcRecvError::from(IpcError::Io(io_error())).message()
    );
}

#[test]
fn receive_errors_say_what_happened() {
    assert_eq!(TryRecvError::Empty.message(), "Empty");
    assert_eq!(TryRecvError::Disconnected.message(), "Disconnected");
    assert_eq!(
        TryRecvError::Other(OtherError::Io(io_error())).message(),
        "Other: pipe is full"
    );
    assert_eq!(IpcRecvError::Disconnected.message(), "Disconnected");
    assert_eq!(IpcRecvError::Other(said("odd")).message(), "Other: odd");
    assert_eq!(RecvFdError::Empty.message(), "Empty");
    assert_eq!(RecvFdError::Disconnected.message(), "Disconnected");
    assert_eq!(RecvFdError::Other(said("odd")).message(), "Other: odd");
}

#[test]
fn send_errors_say_what_happened() {
    assert_eq!(
        IpcSendError::Bincode(bincode_error()).message(),
        format!("Bincode: {}", bincode_text())
    );
    assert_eq!(IpcSendError::Crossbeam.message(), "Crossbeam");
    assert_eq!(
        IpcSendError::Other(OtherError::Bincode(bincode_error())).message(),
        format!("Other: {}", bincode_text())
    );
}

#[test]
fn message_with_puts_the_detail_in_place() {
    assert_eq!(Error::Io(io_error()).message_with("xyz"), "IO Error xyz");
    assert_eq!(said("own").message_with("xyz"), "own");
    assert_eq!(OtherError::Io(io_error()).message_with("xyz"), "xyz");
}

#[test]
fn errors_say_what_happened() {
    assert_eq!(Error::from(io_error()).message(), "IO Error pipe is full");
    assert_eq!(
        Error::from(bincode_error()).message(),
        format!("Bincode error: {}", bincode_text())
    );
    assert_eq!(
        Error::IpcSend(IpcSendError::Crossbeam).message(),
        "IPC send error: Crossbeam"
    );
    assert_eq!(
        Error::IpcRecv(IpcRecvError::Disconnected).message(),
        "IPC recv error"
    );
    assert_eq!(
        Error::TryRecv(TryRecvError::Empty).message(),
        "IPC try recv error"
    );
    assert_eq!(
        Error::from(UnixError(OtherError::Io(io_error()))).message(),
        "DomainSocket error: pipe is full"
    );
    assert_eq!(Error::SendFd(said("no fd")).message(), "Send fd error: no fd");
    assert_eq!(
        Error::RecvFd(RecvFdError::Empty).message(),
        "Recv fd error: Empty"
    );
    assert_eq!(
        Error::TryRecvFd(TryRecvError::Other(said("odd"))).message(),
        "Try recv fd error: Other: odd"
    );
    assert_eq!(
        Error::from(ShmIpcError(said("gone"))).message(),
        "Shared memory queue error: gone"
    );
    assert_eq!(
        Error::from(ShmRingbufError(said("full"))).message(),
        "Shared memory queue ringbuf error: full"
    );
    assert_eq!(
        Error::from(ShmObjError(said("lost"))).message(),
        "ShmObject error: lost"
    );
    assert_eq!(
        Error::EmptyCredential.message(),
        "Expect a credential from the peer"
    );
    assert_eq!(
        Error::ControlPlane("NewClient", ControlError(said("refused"))).message(),
        "Control plane error NewClient: refused"
    );
}

#[test]
fn credential_mismatch_shows_both_credentials() {
    let ours = UCred { uid: 1000, gid: 100, pid: Some(4321) };
    let theirs = UCred { uid: 0, gid: 0, pid: None };
    assert_eq!(ours.describe(), format!("{:?}", ours));
    assert_eq!(theirs.describe(), format!("{:?}", theirs));
    assert_eq!(
        Error::CredentialMismatch(ours, theirs).message(),
        "Credential mismatch UCred { uid: 1000, gid: 100, pid: Some(4321) } vs UCred { uid: 0, gid: 0, pid: None }"
    );
    let odd = UCred { uid: 1, gid: 2, pid: Some(-3) };
    assert_eq!(odd.describe(), "UCred { uid: 1, gid: 2, pid: Some(-3) }");
}

#[test]
fn daemon_errors_say_what_happened() {
    assert_eq!(daemon::Error::IpcTryRecv.message(), "ipc-channel TryRecvError");
    assert_eq!(
        daemon::Error::from(Error::from(io_error())).message(),
        "Customer error: IO Error pipe is full"
    );
    assert_eq!(
        daemon::Error::from(Error::EmptyCredential).message_with("unused"),
        "Customer error: Expect a credential from the peer"
    );
}

#[test]
fn longest_message() {
    assert_eq!(MAX_MSG_LEN, 65536);
}
