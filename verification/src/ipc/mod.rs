//! Errors of the communication between the service and its clients.
use vstd::prelude::*;

pub mod text;

verus! {

/// The longest message, in bytes.
pub const MAX_MSG_LEN: usize = 65536;

/// `std`'s I/O error; carried along unopened.
#[verifier::external_type_specification]
#[verifier::external_body]
pub struct ExIoError(std::io::Error);

/// What `bincode` boxes as its error; carried along unopened.
#[verifier::external_type_specification]
#[verifier::external_body]
pub struct ExBincodeErrorKind(bincode::ErrorKind);

/// Why a channel of `ipc_channel` did not hand out a message; its variants are told apart here.
#[verifier::external_type_specification]
pub struct ExIpcError(ipc_channel::ipc::IpcError);

/// An error of another layer, kept as it came.
#[derive(Debug)]
pub enum OtherError {
    Io(std::io::Error),
    Bincode(bincode::Error),
    /// An error of which only its text is kept.
    Message(String),
}

/// Why an inter-process channel did not hand out a message at once, as the channel reports it:
/// `ipc_channel`'s error of that kind, variant by variant.
#[derive(Debug)]
pub enum ChannelTryRecvError {
    Empty,
    IpcError(ipc_channel::ipc::IpcError),
}

/// Why no message was received at once.
#[derive(Debug)]
pub enum TryRecvError {
    Empty,
    Disconnected,
    Other(OtherError),
}

/// Why no message was received.
#[derive(Debug)]
pub enum IpcRecvError {
    Disconnected,
    Other(OtherError),
}

/// Why a message was not sent.
#[derive(Debug)]
pub enum IpcSendError {
    Bincode(bincode::Error),
    Crossbeam,
    Other(OtherError),
}

/// Why no file descriptor was received.
#[derive(Debug)]
pub enum RecvFdError {
    Empty,
    Disconnected,
    Other(OtherError),
}

/// An error of the domain sockets.
#[derive(Debug)]
pub struct UnixError(pub OtherError);

/// An error of the queues in shared memory.
#[derive(Debug)]
pub struct ShmIpcError(pub OtherError);

/// An error of the ring buffers in shared memory.
#[derive(Debug)]
pub struct ShmRingbufError(pub OtherError);

/// An error of the objects in shared memory.
#[derive(Debug)]
pub struct ShmObjError(pub OtherError);

/// An error that the control plane reports.
#[derive(Debug)]
pub struct ControlError(pub OtherError);

/// Who is at the other end of a domain socket.
#[derive(Clone, Copy, Debug, PartialEq, Eq, Structural)]
pub struct UCred {
    pub uid: u32,
    pub gid: u32,
    pub pid: Option<i32>,
}

/// What can go wrong between the service and its clients.
#[derive(Debug)]
pub enum Error {
    Io(std::io::Error),
    Bincode(bincode::Error),
    IpcSend(IpcSendError),
    IpcRecv(IpcRecvError),
    TryRecv(TryRecvError),
    UnixDomainSocket(UnixError),
    SendFd(OtherError),
    RecvFd(RecvFdError),
    TryRecvFd(TryRecvError),
    ShmIpc(ShmIpcError),
    ShmRingbuf(ShmRingbufError),
    ShmObj(ShmObjError),
    EmptyCredential,
    CredentialMismatch(UCred, UCred),
    ControlPlane(&'static str, ControlError),
}

impl From<ChannelTryRecvError> for TryRecvError {
    fn from(other: ChannelTryRecvError) -> (r: TryRecvError) {
        match other {
            ChannelTryRecvError::Empty => TryRecvError::Empty,
            ChannelTryRecvError::IpcError(e) => match e {
                ipc_channel::ipc::IpcError::Disconnected => TryRecvError::Disconnected,
                ipc_channel::ipc::IpcError::Io(err) => TryRecvError::Other(OtherError::Io(err)),
                ipc_channel::ipc::IpcError::Bincode(err) => TryRecvError::Other(
                    OtherError::Bincode(err),
                ),
            },
        }
    }
}

impl vstd::std_specs::convert::FromSpecImpl<ChannelTryRecvError> for TryRecvError {
    open spec fn obeys_from_spec() -> bool {
        true
    }

    open spec fn from_spec(other: ChannelTryRecvError) -> TryRecvError {
        match other {
            ChannelTryRecvError::Empty => TryRecvError::Empty,
            ChannelTryRecvError::IpcError(e) => match e {
                ipc_channel::ipc::IpcError::Disconnected => TryRecvError::Disconnected,
                ipc_channel::ipc::IpcError::Io(err) => TryRecvError::Other(OtherError::Io(err)),
                ipc_channel::ipc::IpcError::Bincode(err) => TryRecvError::Other(
                    OtherError::Bincode(err),
                ),
            },
        }
    }
}

impl From<ipc_channel::ipc::IpcError> for IpcRecvError {
    fn from(other: ipc_channel::ipc::IpcError) -> (r: IpcRecvError) {
        match other {
            ipc_channel::ipc::IpcError::Disconnected => IpcRecvError::Disconnected,
            ipc_channel::ipc::IpcError::Io(err) => IpcRecvError::Other(OtherError::Io(err)),
            ipc_channel::ipc::IpcError::Bincode(err) => IpcRecvError::Other(
                OtherError::Bincode(err),
            ),
        }
    }
}

impl vstd::std_specs::convert::FromSpecImpl<ipc_channel::ipc::IpcError> for IpcRecvError {
    open spec fn obeys_from_spec() -> bool {
        true
    }

    open spec fn from_spec(other: ipc_channel::ipc::IpcError) -> IpcRecvError {
        match other {
            ipc_channel::ipc::IpcError::Disconnected => IpcRecvError::Disconnected,
            ipc_channel::ipc::IpcError::Io(err) => IpcRecvError::Other(OtherError::Io(err)),
            ipc_channel::ipc::IpcError::Bincode(err) => IpcRecvError::Other(
                OtherError::Bincode(err),
            ),
        }
    }
}

impl From<bincode::Error> for IpcSendError {
    fn from(other: bincode::Error) -> (r: IpcSendError) {
        IpcSendError::Bincode(other)
    }
}

impl vstd::std_specs::convert::FromSpecImpl<bincode::Error> for IpcSendError {
    open spec fn obeys_from_spec() -> bool {
        true
    }

    open spec fn from_spec(other: bincode::Error) -> IpcSendError {
        IpcSendError::Bincode(other)
    }
}

impl From<std::io::Error> for Error {
    fn from(other: std::io::Error) -> (r: Error) {
        Error::Io(other)
    }
}

impl vstd::std_specs::convert::FromSpecImpl<std::io::Error> for Error {
    open spec fn obeys_from_spec() -> bool {
        true
    }

    open spec fn from_spec(other: std::io::Error) -> Error {
        Error::Io(other)
    }
}

impl From<bincode::Error> for Error {
    fn from(other: bincode::Error) -> (r: Error) {
        Error::Bincode(other)
    }
}

impl vstd::std_specs::convert::FromSpecImpl<bincode::Error> for Error {
    open spec fn obeys_from_spec() -> bool {
        true
    }

    open spec fn from_spec(other: bincode::Error) -> Error {
        Error::Bincode(other)
    }
}

impl From<UnixError> for Error {
    fn from(other: UnixError) -> (r: Error) {
        Error::UnixDomainSocket(other)
    }
}

impl vstd::std_specs::convert::FromSpecImpl<UnixError> for Error {
    open spec fn obeys_from_spec() -> bool {
        true
    }

    open spec fn from_spec(other: UnixError) -> Error {
        Error::UnixDomainSocket(other)
    }
}

impl From<ShmIpcError> for Error {
    fn from(other: ShmIpcError) -> (r: Error) {
        Error::ShmIpc(other)
    }
}

impl vstd::std_specs::convert::FromSpecImpl<ShmIpcError> for Error {
    open spec fn obeys_from_spec() -> bool {
        true
    }

    open spec fn from_spec(other: ShmIpcError) -> Error {
        Error::ShmIpc(other)
    }
}

impl From<ShmRingbufError> for Error {
    fn from(other: ShmRingbufError) -> (r: Error) {
        Error::ShmRingbuf(other)
    }
}

impl vstd::std_specs::convert::FromSpecImpl<ShmRingbufError> for Error {
    open spec fn obeys_from_spec() -> bool {
        true
    }

    open spec fn from_spec(other: ShmRingbufError) -> Error {
        Error::ShmRingbuf(other)
    }
}

impl From<ShmObjError> for Error {
    fn from(other: ShmObjError) -> (r: Error) {
        Error::ShmObj(other)
    }
}

impl vstd::std_specs::convert::FromSpecImpl<ShmObjError> for Error {
    open spec fn obeys_from_spec() -> bool {
        true
    }

    open spec fn from_spec(other: ShmObjError) -> Error {
        Error::ShmObj(other)
    }
}

/// Receiving at once and receiving fail alike: what the channel reports as an error of its own is
/// reported by both in the same way, and only a channel without a message counts as empty.
pub proof fn try_recv_fails_as_recv(other: ChannelTryRecvError)
    ensures
        <TryRecvError as vstd::std_specs::convert::FromSpec<ChannelTryRecvError>>::from_spec(
            other,
        ) is Empty <==> other is Empty,
        other matches ChannelTryRecvError::IpcError(e) ==> match (
            <TryRecvError as vstd::std_specs::convert::FromSpec<ChannelTryRecvError>>::from_spec(
                other,
            ),
            <IpcRecvError as vstd::std_specs::convert::FromSpec<
                ipc_channel::ipc::IpcError,
            >>::from_spec(e),
        ) {
            (TryRecvError::Disconnected, IpcRecvError::Disconnected) => true,
            (TryRecvError::Other(a), IpcRecvError::Other(b)) => a == b,
            _ => false,
        },
{
}

/// Nothing of what a channel reports is lost: different reports stay different.
pub proof fn try_recv_reports_stay_distinct(a: ChannelTryRecvError, b: ChannelTryRecvError)
    requires
        <TryRecvError as vstd::std_specs::convert::FromSpec<ChannelTryRecvError>>::from_spec(a)
            == <TryRecvError as vstd::std_specs::convert::FromSpec<ChannelTryRecvError>>::from_spec(
            b,
        ),
    ensures
        a == b,
{
}

} // verus!
