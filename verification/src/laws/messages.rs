//! Laws of the errors: what each of them says, and what each becomes.
use vstd::prelude::*;

use crate::ipc::text::{bincode_says, io_says};
use crate::ipc::{
    ChannelTryRecvError, Error, IpcRecvError, IpcSendError, OtherError, RecvFdError, ShmIpcError,
    ShmObjError, ShmRingbufError, TryRecvError, UCred, UnixError,
};
use crate::laws::text::{lemma_decimal_reads, lemma_signed_reads, reads_as, reads_as_signed};
use crate::utils::text::{decimal_text, signed_text};

verus! {

/// `text` is `front` and what an error of another layer says behind it: its own words, or `detail`
/// if it wraps an error that speaks for itself.
pub open spec fn says_of_other(
    text: Seq<char>,
    front: Seq<char>,
    err: OtherError,
    detail: Seq<char>,
) -> bool {
    match err {
        OtherError::Io(_) => text == front + detail,
        OtherError::Bincode(_) => text == front + detail,
        OtherError::Message(message) => text == front + message@,
    }
}

/// `detail` is what the error that `err` wraps says of itself; empty if it wraps none.
pub open spec fn quotes_other(err: OtherError, detail: Seq<char>) -> bool {
    match err {
        OtherError::Io(wrapped) => io_says(wrapped, detail),
        OtherError::Bincode(wrapped) => bincode_says(wrapped, detail),
        OtherError::Message(_) => detail.len() == 0,
    }
}

/// What an error of another layer says.
pub proof fn other_errors_say(err: OtherError, detail: &str, r: String)
    requires
        call_ensures(OtherError::message_with, (&err, detail), r),
    ensures
        says_of_other(r@, Seq::empty(), err, detail@),
{
    assert(Seq::<char>::empty() + r@ =~= r@);
}

/// What an error of another layer says by itself.
pub proof fn other_errors_speak(err: OtherError, r: String)
    requires
        call_ensures(OtherError::message, (&err,), r),
    ensures
        exists|detail: Seq<char>|
            quotes_other(err, detail) && #[trigger] says_of_other(r@, Seq::empty(), err, detail),
{
    let detail = choose|detail: Seq<char>| err.repeats(detail) && r@ == #[trigger] err.text(detail);
    assert(Seq::<char>::empty() + r@ =~= r@);
    assert(says_of_other(r@, Seq::empty(), err, detail));
}

/// `text` is `front` and what an error of receiving at once says behind it.
pub open spec fn says_of_try_recv(
    text: Seq<char>,
    front: Seq<char>,
    err: TryRecvError,
    detail: Seq<char>,
) -> bool {
    match err {
        TryRecvError::Empty => text == front + "Empty"@,
        TryRecvError::Disconnected => text == front + "Disconnected"@,
        TryRecvError::Other(other) => says_of_other(text, front + "Other: "@, other, detail),
    }
}

/// `detail` is what the error that `err` wraps says of itself; empty if it wraps none.
pub open spec fn quotes_try_recv(err: TryRecvError, detail: Seq<char>) -> bool {
    match err {
        TryRecvError::Other(other) => quotes_other(other, detail),
        _ => detail.len() == 0,
    }
}

/// What an error of receiving at once says.
pub proof fn try_recv_errors_say(err: TryRecvError, detail: &str, r: String)
    requires
        call_ensures(TryRecvError::message_with, (&err, detail), r),
    ensures
        says_of_try_recv(r@, Seq::empty(), err, detail@),
{
    lemma_try_recv(err, detail@, Seq::empty());
    assert(Seq::<char>::empty() + r@ =~= r@);
}

/// What an error of receiving at once says by itself.
pub proof fn try_recv_errors_speak(err: TryRecvError, r: String)
    requires
        call_ensures(TryRecvError::message, (&err,), r),
    ensures
        exists|detail: Seq<char>|
            quotes_try_recv(err, detail) && #[trigger] says_of_try_recv(
                r@,
                Seq::empty(),
                err,
                detail,
            ),
{
    let detail = choose|detail: Seq<char>| err.repeats(detail) && r@ == #[trigger] err.text(detail);
    lemma_try_recv(err, detail, Seq::empty());
    assert(Seq::<char>::empty() + r@ =~= r@);
    assert(says_of_try_recv(r@, Seq::empty(), err, detail));
}

/// What the contracts call the text of an error of receiving at once.
proof fn lemma_try_recv(err: TryRecvError, detail: Seq<char>, front: Seq<char>)
    ensures
        says_of_try_recv(front + err.text(detail), front, err, detail),
{
    if let TryRecvError::Other(other) = err {
        assert(front + ("Other: "@ + other.text(detail)) =~= front + "Other: "@ + other.text(detail));
    }
}

/// `text` is what an error of receiving says.
pub open spec fn says_of_recv(text: Seq<char>, err: IpcRecvError, detail: Seq<char>) -> bool {
    match err {
        IpcRecvError::Disconnected => text == "Disconnected"@,
        IpcRecvError::Other(other) => says_of_other(text, "Other: "@, other, detail),
    }
}

/// `detail` is what the error that `err` wraps says of itself; empty if it wraps none.
pub open spec fn quotes_recv(err: IpcRecvError, detail: Seq<char>) -> bool {
    match err {
        IpcRecvError::Disconnected => detail.len() == 0,
        IpcRecvError::Other(other) => quotes_other(other, detail),
    }
}

/// What an error of receiving says.
pub proof fn recv_errors_say(err: IpcRecvError, detail: &str, r: String)
    requires
        call_ensures(IpcRecvError::message_with, (&err, detail), r),
    ensures
        says_of_recv(r@, err, detail@),
{
}

/// What an error of receiving says by itself.
pub proof fn recv_errors_speak(err: IpcRecvError, r: String)
    requires
        call_ensures(IpcRecvError::message, (&err,), r),
    ensures
        exists|detail: Seq<char>|
            quotes_recv(err, detail) && #[trigger] says_of_recv(r@, err, detail),
{
    let detail = choose|detail: Seq<char>| err.repeats(detail) && r@ == #[trigger] err.text(detail);
    assert(says_of_recv(r@, err, detail));
}

/// `text` is `front` and what an error of sending says behind it.
pub open spec fn says_of_send(
    text: Seq<char>,
    front: Seq<char>,
    err: IpcSendError,
    detail: Seq<char>,
) -> bool {
    match err {
        IpcSendError::Bincode(_) => text == front + "Bincode: "@ + detail,
        IpcSendError::Crossbeam => text == front + "Crossbeam"@,
        IpcSendError::Other(other) => says_of_other(text, front + "Other: "@, other, detail),
    }
}

/// `detail` is what the error that `err` wraps says of itself; empty if it wraps none.
pub open spec fn quotes_send(err: IpcSendError, detail: Seq<char>) -> bool {
    match err {
        IpcSendError::Bincode(wrapped) => bincode_says(wrapped, detail),
        IpcSendError::Crossbeam => detail.len() == 0,
        IpcSendError::Other(other) => quotes_other(other, detail),
    }
}

/// What an error of sending says.
pub proof fn send_errors_say(err: IpcSendError, detail: &str, r: String)
    requires
        call_ensures(IpcSendError::message_with, (&err, detail), r),
    ensures
        says_of_send(r@, Seq::empty(), err, detail@),
{
    lemma_send(err, detail@, Seq::empty());
    assert(Seq::<char>::empty() + r@ =~= r@);
}

/// What an error of sending says by itself.
pub proof fn send_errors_speak(err: IpcSendError, r: String)
    requires
        call_ensures(IpcSendError::message, (&err,), r),
    ensures
        exists|detail: Seq<char>|
            quotes_send(err, detail) && #[trigger] says_of_send(r@, Seq::empty(), err, detail),
{
    let detail = choose|detail: Seq<char>| err.repeats(detail) && r@ == #[trigger] err.text(detail);
    lemma_send(err, detail, Seq::empty());
    assert(Seq::<char>::empty() + r@ =~= r@);
    assert(says_of_send(r@, Seq::empty(), err, detail));
}

/// What the contracts call the text of an error of sending.
proof fn lemma_send(err: IpcSendError, detail: Seq<char>, front: Seq<char>)
    ensures
        says_of_send(front + err.text(detail), front, err, detail),
{
    match err {
        IpcSendError::Bincode(_) => {
            assert(front + ("Bincode: "@ + detail) =~= front + "Bincode: "@ + detail);
        },
        IpcSendError::Crossbeam => {},
        IpcSendError::Other(other) => {
            assert(front + ("Other: "@ + other.text(detail)) =~= front + "Other: "@ + other.text(
                detail,
            ));
        },
    }
}

/// `text` is `front` and what an error of receiving a file descriptor says behind it.
pub open spec fn says_of_recv_fd(
    text: Seq<char>,
    front: Seq<char>,
    err: RecvFdError,
    detail: Seq<char>,
) -> bool {
    match err {
        RecvFdError::Empty => text == front + "Empty"@,
        RecvFdError::Disconnected => text == front + "Disconnected"@,
        RecvFdError::Other(other) => says_of_other(text, front + "Other: "@, other, detail),
    }
}

/// `detail` is what the error that `err` wraps says of itself; empty if it wraps none.
pub open spec fn quotes_recv_fd(err: RecvFdError, detail: Seq<char>) -> bool {
    match err {
        RecvFdError::Other(other) => quotes_other(other, detail),
        _ => detail.len() == 0,
    }
}

/// What an error of receiving a file descriptor says.
pub proof fn recv_fd_errors_say(err: RecvFdError, detail: &str, r: String)
    requires
        call_ensures(RecvFdError::message_with, (&err, detail), r),
    ensures
        says_of_recv_fd(r@, Seq::empty(), err, detail@),
{
    lemma_recv_fd(err, detail@, Seq::empty());
    assert(Seq::<char>::empty() + r@ =~= r@);
}

/// What an error of receiving a file descriptor says by itself.
pub proof fn recv_fd_errors_speak(err: RecvFdError, r: String)
    requires
        call_ensures(RecvFdError::message, (&err,), r),
    ensures
        exists|detail: Seq<char>|
            quotes_recv_fd(err, detail) && #[trigger] says_of_recv_fd(
                r@,
                Seq::empty(),
                err,
                detail,
            ),
{
    let detail = choose|detail: Seq<char>| err.repeats(detail) && r@ == #[trigger] err.text(detail);
    lemma_recv_fd(err, detail, Seq::empty());
    assert(Seq::<char>::empty() + r@ =~= r@);
    assert(says_of_recv_fd(r@, Seq::empty(), err, detail));
}

/// What the contracts call the text of an error of receiving a file descriptor.
proof fn lemma_recv_fd(err: RecvFdError, detail: Seq<char>, front: Seq<char>)
    ensures
        says_of_recv_fd(front + err.text(detail), front, err, detail),
{
    if let RecvFdError::Other(other) = err {
        assert(front + ("Other: "@ + other.text(detail)) =~= front + "Other: "@ + other.text(detail));
    }
}

/// `text` is a credential with the user `uid`, the group `gid` and the process `pid`.
pub open spec fn lists_credential(
    text: Seq<char>,
    uid: Seq<char>,
    gid: Seq<char>,
    pid: Seq<char>,
) -> bool {
    text == "UCred { uid: "@ + uid + ", gid: "@ + gid + ", pid: "@ + pid + " }"@
}

/// `text` is a process, or says that there is none.
pub open spec fn names_process(text: Seq<char>, pid: Option<i32>) -> bool {
    match pid {
        Some(number) => exists|digits: Seq<char>|
            text == "Some("@ + digits + ")"@ && #[trigger] reads_as_signed(digits, number as int),
        None => text == "None"@,
    }
}

/// `text` describes a credential: each field stands under its own name and reads as its value.
pub open spec fn describes(text: Seq<char>, credential: UCred) -> bool {
    exists|uid: Seq<char>, gid: Seq<char>, pid: Seq<char>| #[trigger]
        lists_credential(text, uid, gid, pid) && reads_as(uid, credential.uid as int) && reads_as(
            gid,
            credential.gid as int,
        ) && names_process(pid, credential.pid)
}

/// Every field of a credential is described.
pub proof fn credentials_are_described(credential: UCred, r: String)
    requires
        call_ensures(UCred::describe, (&credential,), r),
    ensures
        describes(r@, credential),
{
    lemma_describes(credential);
}

/// What the contracts call the text of a credential describes it.
proof fn lemma_describes(credential: UCred)
    ensures
        describes(credential.text(), credential),
{
    let uid = decimal_text(credential.uid as nat);
    let gid = decimal_text(credential.gid as nat);
    lemma_decimal_reads(credential.uid as nat);
    lemma_decimal_reads(credential.gid as nat);
    let pid = match credential.pid {
        Some(number) => "Some("@ + signed_text(number as int) + ")"@,
        None => "None"@,
    };
    if let Some(number) = credential.pid {
        lemma_signed_reads(number);
        assert(reads_as_signed(signed_text(number as int), number as int));
    }
    assert(names_process(pid, credential.pid));
    assert(lists_credential(credential.text(), uid, gid, pid));
}

/// `text` says that two credentials differ, and which.
pub open spec fn says_of_mismatch(text: Seq<char>, ours: UCred, theirs: UCred) -> bool {
    exists|first: Seq<char>, second: Seq<char>|
        text == "Credential mismatch "@ + first + " vs "@ + second && #[trigger] describes(
            first,
            ours,
        ) && #[trigger] describes(second, theirs)
}

/// `text` is what an error between the service and its clients says.
pub open spec fn says(text: Seq<char>, err: Error, detail: Seq<char>) -> bool {
    match err {
        Error::Io(_) => text == "IO Error "@ + detail,
        Error::Bincode(_) => text == "Bincode error: "@ + detail,
        Error::IpcSend(e) => says_of_send(text, "IPC send error: "@, e, detail),
        Error::IpcRecv(_) => text == "IPC recv error"@,
        Error::TryRecv(_) => text == "IPC try recv error"@,
        Error::UnixDomainSocket(e) => says_of_other(text, "DomainSocket error: "@, e.0, detail),
        Error::SendFd(e) => says_of_other(text, "Send fd error: "@, e, detail),
        Error::RecvFd(e) => says_of_recv_fd(text, "Recv fd error: "@, e, detail),
        Error::TryRecvFd(e) => says_of_try_recv(text, "Try recv fd error: "@, e, detail),
        Error::ShmIpc(e) => says_of_other(text, "Shared memory queue error: "@, e.0, detail),
        Error::ShmRingbuf(e) => says_of_other(
            text,
            "Shared memory queue ringbuf error: "@,
            e.0,
            detail,
        ),
        Error::ShmObj(e) => says_of_other(text, "ShmObject error: "@, e.0, detail),
        Error::EmptyCredential => text == "Expect a credential from the peer"@,
        Error::CredentialMismatch(ours, theirs) => says_of_mismatch(text, ours, theirs),
        Error::ControlPlane(request, e) => says_of_other(
            text,
            "Control plane error "@ + request@ + ": "@,
            e.0,
            detail,
        ),
    }
}

/// `detail` is what the error that `err` wraps says of itself; empty if nothing of it is repeated.
pub open spec fn quotes(err: Error, detail: Seq<char>) -> bool {
    match err {
        Error::Io(wrapped) => io_says(wrapped, detail),
        Error::Bincode(wrapped) => bincode_says(wrapped, detail),
        Error::IpcSend(e) => quotes_send(e, detail),
        Error::IpcRecv(_) => detail.len() == 0,
        Error::TryRecv(_) => detail.len() == 0,
        Error::UnixDomainSocket(e) => quotes_other(e.0, detail),
        Error::SendFd(e) => quotes_other(e, detail),
        Error::RecvFd(e) => quotes_recv_fd(e, detail),
        Error::TryRecvFd(e) => quotes_try_recv(e, detail),
        Error::ShmIpc(e) => quotes_other(e.0, detail),
        Error::ShmRingbuf(e) => quotes_other(e.0, detail),
        Error::ShmObj(e) => quotes_other(e.0, detail),
        Error::EmptyCredential => detail.len() == 0,
        Error::CredentialMismatch(_, _) => detail.len() == 0,
        Error::ControlPlane(_, e) => quotes_other(e.0, detail),
    }
}

/// What the contracts call the text of an error is what it says.
proof fn lemma_says(err: Error, detail: Seq<char>)
    ensures
        says(err.text(detail), err, detail),
{
    match err {
        Error::IpcSend(e) => lemma_send(e, detail, "IPC send error: "@),
        Error::RecvFd(e) => lemma_recv_fd(e, detail, "Recv fd error: "@),
        Error::TryRecvFd(e) => lemma_try_recv(e, detail, "Try recv fd error: "@),
        Error::CredentialMismatch(ours, theirs) => {
            lemma_describes(ours);
            lemma_describes(theirs);
            assert(describes(ours.text(), ours) && describes(theirs.text(), theirs));
        },
        _ => {},
    }
}

/// What an error between the service and its clients says.
pub proof fn errors_say(err: Error, detail: &str, r: String)
    requires
        call_ensures(Error::message_with, (&err, detail), r),
    ensures
        says(r@, err, detail@),
{
    lemma_says(err, detail@);
}

/// What an error between the service and its clients says by itself.
pub proof fn errors_speak(err: Error, r: String)
    requires
        call_ensures(Error::message, (&err,), r),
    ensures
        exists|detail: Seq<char>| quotes(err, detail) && #[trigger] says(r@, err, detail),
{
    let detail = choose|detail: Seq<char>| err.repeats(detail) && r@ == #[trigger] err.text(detail);
    lemma_says(err, detail);
    assert(says(r@, err, detail));
}

/// `text` is what an error of a daemon says: that it came from the channel, or what the client's
/// error says.
pub open spec fn says_of_daemon(
    text: Seq<char>,
    err: crate::daemon::Error,
    detail: Seq<char>,
) -> bool {
    match err {
        crate::daemon::Error::IpcTryRecv => text == "ipc-channel TryRecvError"@,
        crate::daemon::Error::Customer(e) => says_of_customer(text, e, detail),
    }
}

/// `text` is what an error of a daemon's client says.
pub open spec fn says_of_customer(text: Seq<char>, err: Error, detail: Seq<char>) -> bool {
    exists|rest: Seq<char>| text == "Customer error: "@ + rest && #[trigger] says(rest, err, detail)
}

/// `detail` is what the error that `err` wraps says of itself; empty if nothing of it is repeated.
pub open spec fn quotes_daemon(err: crate::daemon::Error, detail: Seq<char>) -> bool {
    match err {
        crate::daemon::Error::IpcTryRecv => detail.len() == 0,
        crate::daemon::Error::Customer(e) => quotes(e, detail),
    }
}

/// What an error of a daemon says.
pub proof fn daemon_errors_say(err: crate::daemon::Error, detail: &str, r: String)
    requires
        call_ensures(crate::daemon::Error::message_with, (&err, detail), r),
    ensures
        says_of_daemon(r@, err, detail@),
{
    if let crate::daemon::Error::Customer(e) = err {
        lemma_says(e, detail@);
    }
}

/// What an error of a daemon says by itself.
pub proof fn daemon_errors_speak(err: crate::daemon::Error, r: String)
    requires
        call_ensures(crate::daemon::Error::message, (&err,), r),
    ensures
        exists|detail: Seq<char>|
            quotes_daemon(err, detail) && #[trigger] says_of_daemon(r@, err, detail),
{
    let detail = choose|detail: Seq<char>| err.repeats(detail) && r@ == #[trigger] err.text(detail);
    if let crate::daemon::Error::Customer(e) = err {
        lemma_says(e, detail);
    }
    assert(says_of_daemon(r@, err, detail));
}

/// A channel without a message is empty, one without a sender is disconnected, and every other error
/// is kept as it came.
pub proof fn channel_errors_are_kept_at_once(err: ChannelTryRecvError, r: TryRecvError)
    requires
        call_ensures(<TryRecvError as From<ChannelTryRecvError>>::from, (err,), r),
    ensures
        r is Empty <==> err is Empty,
        r is Disconnected <==> (err matches ChannelTryRecvError::IpcError(e) && e is Disconnected),
        err matches ChannelTryRecvError::IpcError(ipc_channel::ipc::IpcError::Io(e)) ==> r
            == TryRecvError::Other(OtherError::Io(e)),
        err matches ChannelTryRecvError::IpcError(ipc_channel::ipc::IpcError::Bincode(e)) ==> r
            == TryRecvError::Other(OtherError::Bincode(e)),
{
}

/// A channel without a sender is disconnected, and every other error is kept as it came.
pub proof fn channel_errors_are_kept(err: ipc_channel::ipc::IpcError, r: IpcRecvError)
    requires
        call_ensures(<IpcRecvError as From<ipc_channel::ipc::IpcError>>::from, (err,), r),
    ensures
        r is Disconnected <==> err is Disconnected,
        err matches ipc_channel::ipc::IpcError::Io(e) ==> r == IpcRecvError::Other(
            OtherError::Io(e),
        ),
        err matches ipc_channel::ipc::IpcError::Bincode(e) ==> r == IpcRecvError::Other(
            OtherError::Bincode(e),
        ),
{
}

/// An encoding error makes a message unsent, and is kept.
pub proof fn encoding_errors_are_kept(err: bincode::Error, unsent: IpcSendError, r: Error)
    requires
        call_ensures(<IpcSendError as From<bincode::Error>>::from, (err,), unsent),
        call_ensures(<Error as From<bincode::Error>>::from, (err,), r),
    ensures
        unsent matches IpcSendError::Bincode(kept) && kept == err,
        r matches Error::Bincode(kept) && kept == err,
{
}

/// An I/O error is kept.
pub proof fn io_errors_are_kept(err: std::io::Error, r: Error)
    requires
        call_ensures(<Error as From<std::io::Error>>::from, (err,), r),
    ensures
        r matches Error::Io(kept) && kept == err,
{
}

/// An error of the domain sockets is kept.
pub proof fn socket_errors_are_kept(err: UnixError, r: Error)
    requires
        call_ensures(<Error as From<UnixError>>::from, (err,), r),
    ensures
        r matches Error::UnixDomainSocket(kept) && kept == err,
{
}

/// An error of the queues in shared memory is kept.
pub proof fn queue_errors_are_kept(err: ShmIpcError, r: Error)
    requires
        call_ensures(<Error as From<ShmIpcError>>::from, (err,), r),
    ensures
        r matches Error::ShmIpc(kept) && kept == err,
{
}

/// An error of the ring buffers in shared memory is kept.
pub proof fn ringbuf_errors_are_kept(err: ShmRingbufError, r: Error)
    requires
        call_ensures(<Error as From<ShmRingbufError>>::from, (err,), r),
    ensures
        r matches Error::ShmRingbuf(kept) && kept == err,
{
}

/// An error of the objects in shared memory is kept.
pub proof fn object_errors_are_kept(err: ShmObjError, r: Error)
    requires
        call_ensures(<Error as From<ShmObjError>>::from, (err,), r),
    ensures
        r matches Error::ShmObj(kept) && kept == err,
{
}

/// An error of a daemon's client is kept.
pub proof fn customer_errors_are_kept(err: Error, r: crate::daemon::Error)
    requires
        call_ensures(<crate::daemon::Error as From<Error>>::from, (err,), r),
    ensures
        r matches crate::daemon::Error::Customer(kept) && kept == err,
{
}

} // verus!
