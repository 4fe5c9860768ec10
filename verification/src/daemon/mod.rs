//! The daemons, one for each client.
use vstd::prelude::*;

use crate::utils::text::joined;

pub mod engine;

verus! {

/// Names a daemon.
pub type DaemonId = u64;

/// What can go wrong in a daemon.
#[derive(Debug)]
pub enum Error {
    IpcTryRecv,
    Customer(crate::ipc::Error),
}

impl From<crate::ipc::Error> for Error {
    fn from(other: crate::ipc::Error) -> (r: Error) {
        Error::Customer(other)
    }
}

impl vstd::std_specs::convert::FromSpecImpl<crate::ipc::Error> for Error {
    open spec fn obeys_from_spec() -> bool {
        true
    }

    open spec fn from_spec(other: crate::ipc::Error) -> Error {
        Error::Customer(other)
    }
}

impl Error {
    /// What the error says, where what it wraps says `detail`.
    pub open spec fn text(self, detail: Seq<char>) -> Seq<char> {
        match self {
            Error::IpcTryRecv => "ipc-channel TryRecvError"@,
            Error::Customer(err) => "Customer error: "@ + err.text(detail),
        }
    }

    /// What the error says, where what it wraps says `detail`.
    pub fn message_with(&self, detail: &str) -> (r: String)
        ensures
            r@ == self.text(detail@),
    {
        match self {
            Error::IpcTryRecv => "ipc-channel TryRecvError".to_owned(),
            Error::Customer(err) => joined("Customer error: ", err.message_with(detail).as_str()),
        }
    }

    /// `detail` is what the I/O error or the encoding error says whose text this one repeats; empty
    /// if it repeats none.
    pub open spec fn repeats(self, detail: Seq<char>) -> bool {
        match self {
            Error::IpcTryRecv => detail == Seq::<char>::empty(),
            Error::Customer(err) => err.repeats(detail),
        }
    }

    /// What the error says.
    pub fn message(&self) -> (r: String)
        ensures
            exists|detail: Seq<char>|
                self.repeats(detail) && r@ == #[trigger] self.text(detail),
    {
        let detail = match self {
            Error::IpcTryRecv => String::new(),
            Error::Customer(err) => err.detail(),
        };
        let r = self.message_with(detail.as_str());
        assert(r@ == self.text(detail@));
        r
    }
}

} // verus!
