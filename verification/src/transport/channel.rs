//! The channels of a communicator: rings of ranks, and the connections to the peers.
use std::collections::HashMap;

use vstd::prelude::*;

use crate::cuda::ptr::DeviceNonNull;
use crate::transport::NUM_PROTOCOLS;

verus! {

/// Where a connection keeps its buffers and counters in device memory.
#[derive(Clone, Copy)]
pub struct PeerConnInfo {
    /// Buffer, per protocol.
    pub bufs: [DeviceNonNull; NUM_PROTOCOLS],
    /// Counter that the receiving side advances.
    pub head: DeviceNonNull,
    /// Counter that the sending side advances.
    pub tail: DeviceNonNull,
    /// Sizes of the buffer's slots, where the transport announces them.
    pub slots_size: Option<DeviceNonNull>,
}

/// One end of an established connection.
#[derive(Clone, Copy)]
pub struct PeerConnector {
    pub conn_info: PeerConnInfo,
}

/// The connections to one peer, each under its connection index.
pub struct ChannelPeerConn {
    pub send: HashMap<u32, PeerConnector>,
    pub recv: HashMap<u32, PeerConnector>,
}

/// A rank's place in the ring of a channel.
pub struct RingPattern {
    /// Rank before this one.
    pub prev: usize,
    /// Rank after this one.
    pub next: usize,
    /// The ranks in ring order, starting with this one.
    pub user_ranks: Vec<usize>,
    /// Position of this rank counted from rank 0.
    pub index: usize,
}

/// A channel of a communicator as one rank sees it.
pub struct CommChannel {
    /// Connections to the other ranks, under the peer's rank.
    pub peers: HashMap<usize, ChannelPeerConn>,
    pub ring: RingPattern,
}

} // verus!
