//! What the errors say.
//!
//! An error may wrap an I/O error or an encoding error and repeat what that one says of itself;
//! in the specifications `detail` stands for this.
use vstd::prelude::*;

use crate::ipc::{
    Error, IpcRecvError, IpcSendError, OtherError, RecvFdError, TryRecvError, UCred,
};
use crate::utils::text::{decimal, decimal_text, joined, signed_decimal, signed_text};

verus! {

/// Calls the `Display` of `std::io::Error`. What it says comes from the operating system for some
/// errors, so nothing is stated of it.
#[verifier::external_body]
fn io_error_text(err: &std::io::Error) -> (r: String) {
    format!("{}", err)
}

/// Calls the `Display` of `bincode::Error`. It may repeat what an I/O error says, so nothing is
/// stated of it.
#[verifier::external_body]
fn bincode_error_text(err: &bincode::Error) -> (r: String) {
    format!("{}", err)
}

/// `detail` is what an I/O error said of itself when it was asked.
pub closed spec fn io_says(err: std::io::Error, detail: Seq<char>) -> bool {
    exists|said: String| #[trigger] call_ensures(io_error_text, (&err,), said) && said@ == detail
}

/// `detail` is what an encoding error said of itself when it was asked.
pub closed spec fn bincode_says(err: bincode::Error, detail: Seq<char>) -> bool {
    exists|said: String| #[trigger]
        call_ensures(bincode_error_text, (&err,), said) && said@ == detail
}

impl OtherError {
    /// What the error says, where what it wraps says `detail`.
    pub open spec fn text(self, detail: Seq<char>) -> Seq<char> {
        match self {
            OtherError::Message(message) => message@,
            _ => detail,
        }
    }

    /// What the error says, where what it wraps says `detail`.
    pub fn message_with(&self, detail: &str) -> (r: String)
        ensures
            r@ == self.text(detail@),
    {
        match self {
            OtherError::Message(message) => message.clone(),
            _ => detail.to_owned(),
        }
    }

    /// `detail` is what the I/O error or the encoding error says whose text this one repeats; empty
    /// if it repeats none.
    pub open spec fn repeats(self, detail: Seq<char>) -> bool {
        match self {
            OtherError::Io(err) => io_says(err, detail),
            OtherError::Bincode(err) => bincode_says(err, detail),
            OtherError::Message(message) => detail == Seq::<char>::empty(),
        }
    }

    /// What the I/O error or the encoding error says whose text this one repeats; empty if it
    /// repeats none.
    pub(crate) fn detail(&self) -> (r: String)
        ensures
            self.repeats(r@),
    {
        match self {
            OtherError::Io(err) => io_error_text(err),
            OtherError::Bincode(err) => bincode_error_text(err),
            OtherError::Message(_) => String::new(),
        }
    }

    /// What the error says.
    pub fn message(&self) -> (r: String)
        ensures
            exists|detail: Seq<char>|
                self.repeats(detail) && r@ == #[trigger] self.text(detail),
    {
        let detail = self.detail();
        let r = self.message_with(detail.as_str());
        assert(r@ == self.text(detail@));
        r
    }
}

impl TryRecvError {
    /// What the error says, where what it wraps says `detail`.
    pub open spec fn text(self, detail: Seq<char>) -> Seq<char> {
        match self {
            TryRecvError::Empty => "Empty"@,
            TryRecvError::Disconnected => "Disconnected"@,
            TryRecvError::Other(err) => "Other: "@ + err.text(detail),
        }
    }

    /// What the error says, where what it wraps says `detail`.
    pub fn message_with(&self, detail: &str) -> (r: String)
        ensures
            r@ == self.text(detail@),
    {
        match self {
            TryRecvError::Empty => "Empty".to_owned(),
            TryRecvError::Disconnected => "Disconnected".to_owned(),
            TryRecvError::Other(err) => joined("Other: ", err.message_with(detail).as_str()),
        }
    }

    /// `detail` is what the I/O error or the encoding error says whose text this one repeats; empty
    /// if it repeats none.
    pub open spec fn repeats(self, detail: Seq<char>) -> bool {
        match self {
            TryRecvError::Other(err) => err.repeats(detail),
            _ => detail == Seq::<char>::empty(),
        }
    }

    /// What the I/O error or the encoding error says whose text this one repeats; empty if it
    /// repeats none.
    pub(crate) fn detail(&self) -> (r: String)
        ensures
            self.repeats(r@),
    {
        match self {
            TryRecvError::Empty => String::new(),
            TryRecvError::Disconnected => String::new(),
            TryRecvError::Other(err) => err.detail(),
        }
    }

    /// What the error says.
    pub fn message(&self) -> (r: String)
        ensures
            exists|detail: Seq<char>|
                self.repeats(detail) && r@ == #[trigger] self.text(detail),
    {
        let detail = self.detail();
        let r = self.message_with(detail.as_str());
        assert(r@ == self.text(detail@));
        r
    }
}

impl IpcRecvError {
    /// What the error says, where what it wraps says `detail`.
    pub open spec fn text(self, detail: Seq<char>) -> Seq<char> {
        match self {
            IpcRecvError::Disconnected => "Disconnected"@,
            IpcRecvError::Other(err) => "Other: "@ + err.text(detail),
        }
    }

    /// What the error says, where what it wraps says `detail`.
    pub fn message_with(&self, detail: &str) -> (r: String)
        ensures
            r@ == self.text(detail@),
    {
        match self {
            IpcRecvError::Disconnected => "Disconnected".to_owned(),
            IpcRecvError::Other(err) => joined("Other: ", err.message_with(detail).as_str()),
        }
    }

    /// `detail` is what the I/O error or the encoding error says whose text this one repeats; empty
    /// if it repeats none.
    pub open spec fn repeats(self, detail: Seq<char>) -> bool {
        match self {
            IpcRecvError::Disconnected => detail == Seq::<char>::empty(),
            IpcRecvError::Other(err) => err.repeats(detail),
        }
    }

    /// What the I/O error or the encoding error says whose text this one repeats; empty if it
    /// repeats none.
    pub(crate) fn detail(&self) -> (r: String)
        ensures
            self.repeats(r@),
    {
        match self {
            IpcRecvError::Disconnected => String::new(),
            IpcRecvError::Other(err) => err.detail(),
        }
    }

    /// What the error says.
    pub fn message(&self) -> (r: String)
        ensures
            exists|detail: Seq<char>|
                self.repeats(detail) && r@ == #[trigger] self.text(detail),
    {
        let detail = self.detail();
        let r = self.message_with(detail.as_str());
        assert(r@ == self.text(detail@));
        r
    }
}

impl IpcSendError {
    /// What the error says, where what it wraps says `detail`.
    pub open spec fn text(self, detail: Seq<char>) -> Seq<char> {
        match self {
            IpcSendError::Bincode(err) => "Bincode: "@ + detail,
            IpcSendError::Crossbeam => "Crossbeam"@,
            IpcSendError::Other(err) => "Other: "@ + err.text(detail),
        }
    }

    /// What the error says, where what it wraps says `detail`.
    pub fn message_with(&self, detail: &str) -> (r: String)
        ensures
            r@ == self.text(detail@),
    {
        match self {
            IpcSendError::Bincode(_) => joined("Bincode: ", detail),
            IpcSendError::Crossbeam => "Crossbeam".to_owned(),
            IpcSendError::Other(err) => joined("Other: ", err.message_with(detail).as_str()),
        }
    }

    /// `detail` is what the I/O error or the encoding error says whose text this one repeats; empty
    /// if it repeats none.
    pub open spec fn repeats(self, detail: Seq<char>) -> bool {
        match self {
            IpcSendError::Bincode(err) => bincode_says(err, detail),
            IpcSendError::Crossbeam => detail == Seq::<char>::empty(),
            IpcSendError::Other(err) => err.repeats(detail),
        }
    }

    /// What the I/O error or the encoding error says whose text this one repeats; empty if it
    /// repeats none.
    pub(crate) fn detail(&self) -> (r: String)
        ensures
            self.repeats(r@),
    {
        match self {
            IpcSendError::Bincode(err) => bincode_error_text(err),
            IpcSendError::Crossbeam => String::new(),
            IpcSendError::Other(err) => err.detail(),
        }
    }

    /// What the error says.
    pub fn message(&self) -> (r: String)
        ensures
            exists|detail: Seq<char>|
                self.repeats(detail) && r@ == #[trigger] self.text(detail),
    {
        let detail = self.detail();
        let r = self.message_with(detail.as_str());
        assert(r@ == self.text(detail@));
        r
    }
}

impl RecvFdError {
    /// What the error says, where what it wraps says `detail`.
    pub open spec fn text(self, detail: Seq<char>) -> Seq<char> {
        match self {
            RecvFdError::Empty => "Empty"@,
            RecvFdError::Disconnected => "Disconnected"@,
            RecvFdError::Other(err) => "Other: "@ + err.text(detail),
        }
    }

    /// What the error says, where what it wraps says `detail`.
    pub fn message_with(&self, detail: &str) -> (r: String)
        ensures
            r@ == self.text(detail@),
    {
        match self {
            RecvFdError::Empty => "Empty".to_owned(),
            RecvFdError::Disconnected => "Disconnected".to_owned(),
            RecvFdError::Other(err) => joined("Other: ", err.message_with(detail).as_str()),
        }
    }

    /// `detail` is what the I/O error or the encoding error says whose text this one repeats; empty
    /// if it repeats none.
    pub open spec fn repeats(self, detail: Seq<char>) -> bool {
        match self {
            RecvFdError::Other(err) => err.repeats(detail),
            _ => detail == Seq::<char>::empty(),
        }
    }

    /// What the I/O error or the encoding error says whose text this one repeats; empty if it
    /// repeats none.
    pub(crate) fn detail(&self) -> (r: String)
        ensures
            self.repeats(r@),
    {
        match self {
            RecvFdError::Empty => String::new(),
            RecvFdError::Disconnected => String::new(),
            RecvFdError::Other(err) => err.detail(),
        }
    }

    /// What the error says.
    pub fn message(&self) -> (r: String)
        ensures
            exists|detail: Seq<char>|
                self.repeats(detail) && r@ == #[trigger] self.text(detail),
    {
        let detail = self.detail();
        let r = self.message_with(detail.as_str());
        assert(r@ == self.text(detail@));
        r
    }
}

impl UCred {
    /// The credential, field by field.
    pub open spec fn text(self) -> Seq<char> {
        "UCred { uid: "@ + decimal_text(self.uid as nat) + ", gid: "@ + decimal_text(
            self.gid as nat,
        ) + ", pid: "@ + match self.pid {
            Some(pid) => "Some("@ + signed_text(pid as int) + ")"@,
            None => "None"@,
        } + " }"@
    }

    /// The credential, field by field.
    pub fn describe(&self) -> (r: String)
        ensures
            r@ == self.text(),
    {
        let mut r = joined("UCred { uid: ", decimal(self.uid as u64).as_str());
        r.append(", gid: ");
        r.append(decimal(self.gid as u64).as_str());
        r.append(", pid: ");
        match self.pid {
            Some(pid) => {
                let mut text = joined("Some(", signed_decimal(pid).as_str());
                text.append(")");
                r.append(text.as_str());
            },
            None => {
                r.append("None");
            },
        }
        r.append(" }");
        r
    }
}

impl Error {
    /// What the error says, where what it wraps says `detail`.
    pub open spec fn text(self, detail: Seq<char>) -> Seq<char> {
        match self {
            Error::Io(err) => "IO Error "@ + detail,
            Error::Bincode(err) => "Bincode error: "@ + detail,
            Error::IpcSend(err) => "IPC send error: "@ + err.text(detail),
            Error::IpcRecv(err) => "IPC recv error"@,
            Error::TryRecv(err) => "IPC try recv error"@,
            Error::UnixDomainSocket(err) => "DomainSocket error: "@ + err.0.text(detail),
            Error::SendFd(err) => "Send fd error: "@ + err.text(detail),
            Error::RecvFd(err) => "Recv fd error: "@ + err.text(detail),
            Error::TryRecvFd(err) => "Try recv fd error: "@ + err.text(detail),
            Error::ShmIpc(err) => "Shared memory queue error: "@ + err.0.text(detail),
            Error::ShmRingbuf(err) => "Shared memory queue ringbuf error: "@ + err.0.text(detail),
            Error::ShmObj(err) => "ShmObject error: "@ + err.0.text(detail),
            Error::EmptyCredential => "Expect a credential from the peer"@,
            Error::CredentialMismatch(ours, theirs) => "Credential mismatch "@ + ours.text()
                + " vs "@ + theirs.text(),
            Error::ControlPlane(request, err) => "Control plane error "@ + request@ + ": "@
                + err.0.text(detail),
        }
    }

    /// What the error says, where what it wraps says `detail`.
    pub fn message_with(&self, detail: &str) -> (r: String)
        ensures
            r@ == self.text(detail@),
    {
        match self {
            Error::Io(_) => joined("IO Error ", detail),
            Error::Bincode(_) => joined("Bincode error: ", detail),
            Error::IpcSend(err) => joined("IPC send error: ", err.message_with(detail).as_str()),
            Error::IpcRecv(_) => "IPC recv error".to_owned(),
            Error::TryRecv(_) => "IPC try recv error".to_owned(),
            Error::UnixDomainSocket(err) => joined(
                "DomainSocket error: ",
                err.0.message_with(detail).as_str(),
            ),
            Error::SendFd(err) => joined("Send fd error: ", err.message_with(detail).as_str()),
            Error::RecvFd(err) => joined("Recv fd error: ", err.message_with(detail).as_str()),
            Error::TryRecvFd(err) => joined(
                "Try recv fd error: ",
                err.message_with(detail).as_str(),
            ),
            Error::ShmIpc(err) => joined(
                "Shared memory queue error: ",
                err.0.message_with(detail).as_str(),
            ),
            Error::ShmRingbuf(err) => joined(
                "Shared memory queue ringbuf error: ",
                err.0.message_with(detail).as_str(),
            ),
            Error::ShmObj(err) => joined("ShmObject error: ", err.0.message_with(detail).as_str()),
            Error::EmptyCredential => "Expect a credential from the peer".to_owned(),
            Error::CredentialMismatch(ours, theirs) => {
                let mut r = joined("Credential mismatch ", ours.describe().as_str());
                r.append(" vs ");
                r.append(theirs.describe().as_str());
                r
            },
            Error::ControlPlane(request, err) => {
                let mut r = joined("Control plane error ", *request);
                r.append(": ");
                r.append(err.0.message_with(detail).as_str());
                r
            },
        }
    }

    /// `detail` is what the I/O error or the encoding error says whose text this one repeats; empty
    /// if it repeats none.
    pub open spec fn repeats(self, detail: Seq<char>) -> bool {
        match self {
            Error::Io(err) => io_says(err, detail),
            Error::Bincode(err) => bincode_says(err, detail),
            Error::IpcSend(err) => err.repeats(detail),
            Error::UnixDomainSocket(err) => err.0.repeats(detail),
            Error::SendFd(err) => err.repeats(detail),
            Error::RecvFd(err) => err.repeats(detail),
            Error::TryRecvFd(err) => err.repeats(detail),
            Error::ShmIpc(err) => err.0.repeats(detail),
            Error::ShmRingbuf(err) => err.0.repeats(detail),
            Error::ShmObj(err) => err.0.repeats(detail),
            Error::ControlPlane(request, err) => err.0.repeats(detail),
            _ => detail == Seq::<char>::empty(),
        }
    }

    /// What the I/O error or the encoding error says whose text this one repeats; empty if it
    /// repeats none.
    pub(crate) fn detail(&self) -> (r: String)
        ensures
            self.repeats(r@),
    {
        match self {
            Error::Io(err) => io_error_text(err),
            Error::Bincode(err) => bincode_error_text(err),
            Error::IpcSend(err) => err.detail(),
            Error::IpcRecv(_) => String::new(),
            Error::TryRecv(_) => String::new(),
            Error::UnixDomainSocket(err) => err.0.detail(),
            Error::SendFd(err) => err.detail(),
            Error::RecvFd(err) => err.detail(),
            Error::TryRecvFd(err) => err.detail(),
            Error::ShmIpc(err) => err.0.detail(),
            Error::ShmRingbuf(err) => err.0.detail(),
            Error::ShmObj(err) => err.0.detail(),
            Error::EmptyCredential => String::new(),
            Error::CredentialMismatch(_, _) => String::new(),
            Error::ControlPlane(_, err) => err.0.detail(),
        }
    }

    /// What the error says.
    pub fn message(&self) -> (r: String)
        ensures
            exists|detail: Seq<char>|
                self.repeats(detail) && r@ == #[trigger] self.text(detail),
    {
        let detail = self.detail();
        let r = self.message_with(detail.as_str());
        assert(r@ == self.text(detail@));
        r
    }
}

/// What an I/O error said of itself came out of its `Display`.
proof fn io_errors_say_it_themselves(err: std::io::Error, detail: Seq<char>)
    requires
        io_says(err, detail),
    ensures
        exists|said: String| #[trigger]
            call_ensures(io_error_text, (&err,), said) && said@ == detail,
{
}

/// What an encoding error said of itself came out of its `Display`.
proof fn encoding_errors_say_it_themselves(err: bincode::Error, detail: Seq<char>)
    requires
        bincode_says(err, detail),
    ensures
        exists|said: String| #[trigger]
            call_ensures(bincode_error_text, (&err,), said) && said@ == detail,
{
}

} // verus!
