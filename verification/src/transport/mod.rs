//! Transports between the ranks of a communicator.
use vstd::prelude::*;

pub mod account;
pub mod agents;
pub mod catalog;
pub mod channel;
pub mod engine;
pub mod message;
pub mod meta;
pub mod shm;
pub mod transporter;

verus! {

/// Number of slots in a connection's buffer.
pub const NUM_BUFFER_SLOTS: usize = 8;

/// Number of protocols.
pub const NUM_PROTOCOLS: usize = 1;

/// Size in bytes of a connection's buffer unless a profile says otherwise.
pub const DEFAULT_BUFFER_SIZE: usize = 0x40_0000;

/// How data goes through a connection.
#[derive(PartialEq, Eq, Structural, Clone, Copy, Debug)]
pub enum Protocol {
    Simple,
}

impl Protocol {
    /// The place of a protocol in the tables that have an entry per protocol.
    pub open spec fn place_in_tables(self) -> nat {
        match self {
            Protocol::Simple => 0,
        }
    }

    /// The place of a protocol in the tables that have an entry per protocol.
    pub fn index(self) -> (r: usize)
        ensures
            r == self.place_in_tables(),
            r < NUM_PROTOCOLS,
    {
        match self {
            Protocol::Simple => 0,
        }
    }
}

/// There are [`NUM_PROTOCOLS`] protocols: each place in a table of protocols belongs to one, and to
/// one only.
pub proof fn protocols_fill_tables(place: nat)
    requires
        place < NUM_PROTOCOLS,
    ensures
        exists|p: Protocol| p.place_in_tables() == place,
        forall|p: Protocol, q: Protocol| p.place_in_tables() == q.place_in_tables() ==> p == q,
{
    assert(Protocol::Simple.place_in_tables() == place);
}

} // verus!
