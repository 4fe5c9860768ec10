//! Communicators and what they are made of.
use vstd::prelude::*;

use crate::transport::NUM_PROTOCOLS;

pub mod device;

verus! {

/// Names a communicator on every host that takes part in it.
#[derive(Clone, Copy, Debug, PartialEq, Eq, Structural, Hash)]
pub struct CommunicatorId(pub u32);

/// The settings of a communicator.
#[derive(Clone, Copy)]
pub struct CommProfile {
    /// Buffer size in bytes, per protocol.
    pub buff_sizes: [usize; NUM_PROTOCOLS],
}

/// An address to connect to.
#[derive(Clone, Copy, Debug, PartialEq, Eq, Structural, Hash)]
pub struct SocketAddress {
    pub ip: IpAddress,
    pub port: u16,
}

/// An IP address, as one number.
#[derive(Clone, Copy, Debug, PartialEq, Eq, Structural, Hash)]
pub enum IpAddress {
    V4(u32),
    V6(u128),
}

/// Names a host by the address at which it is reached.
#[derive(Clone, Copy, Debug, PartialEq, Eq, Structural, Hash)]
pub struct HostIdent(pub SocketAddress);

} // verus!
