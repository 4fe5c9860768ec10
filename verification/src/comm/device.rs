//! The description of a communicator that the kernels on a device read.
//!
//! The host builds the description out of plain values, with the device addresses that were
//! allocated for it already filled in; copying it to the device is left to the caller.
use std::collections::HashMap;

use vstd::prelude::*;

use crate::comm::CommProfile;
use crate::cuda::ptr::{DeviceNonNull, DEVICE_NULL};
use crate::transport::channel::{ChannelPeerConn, CommChannel, PeerConnInfo, PeerConnector};
use crate::transport::NUM_PROTOCOLS;
use crate::utils::walk::{entries, lists_map};

verus! {

broadcast use vstd::std_specs::hash::group_hash_axioms;

/// Bytes of one completion counter.
pub const WORK_DONE_SIZE: usize = 4;

/// How many entries the device-side arrays have.
#[derive(Clone, Copy)]
pub struct DevLimits {
    /// Channels of a communicator.
    pub max_channels: u32,
    /// Connections in each direction to one peer.
    pub max_conns: u32,
}

/// A connection as the device sees it. Addresses are null where there is nothing.
#[derive(Clone, Copy)]
pub struct DevConnInfo {
    pub buffs: [usize; NUM_PROTOCOLS],
    pub tail: usize,
    pub head: usize,
    pub sizes_fifo: usize,
    pub offs_fifo: usize,
    pub step: u64,
}

/// The connections to one peer, by connection index.
pub struct DevChannelPeer {
    pub send: Vec<DevConnInfo>,
    pub recv: Vec<DevConnInfo>,
}

/// A ring as the device sees it.
#[derive(Clone, Copy)]
pub struct DevRing {
    pub prev: i32,
    pub next: i32,
    /// Address of the ranks in ring order.
    pub user_ranks: usize,
    pub index: i32,
}

/// A channel as the device sees it.
#[derive(Clone, Copy)]
pub struct DevChannel {
    /// Address of the peers' connections, by rank.
    pub peers: usize,
    pub ring: DevRing,
    /// Address of the counter in which the device reports completed work.
    pub work_fifo_done: usize,
}

/// What the device has to know of a communicator as a whole.
#[derive(Clone, Copy)]
pub struct DevComm {
    pub rank: i32,
    pub n_ranks: i32,
    pub buff_sizes: [i32; NUM_PROTOCOLS],
    pub abort_flag: usize,
}

/// A communicator with its channels, by channel id. The communicator stands first.
pub struct DevCommAndChannels {
    pub comm: DevComm,
    pub channels: Vec<DevChannel>,
}

/// What goes to the device memory that was allocated for one channel.
pub struct ChanDevImage {
    /// For [`ChanDevStorage::ring_user_ranks`].
    pub ring_user_ranks: Vec<i32>,
    /// For [`ChanDevStorage::peers`].
    pub peers: Vec<DevChannelPeer>,
}

/// Everything that has to be copied to the device for a communicator.
pub struct CommDevImage {
    pub comm: DevCommAndChannels,
    /// One image for each entry of the communicator's channel storage, in the same order.
    pub chan_images: Vec<ChanDevImage>,
}

/// Device memory of one channel.
#[derive(Clone, Copy)]
pub struct ChanDevStorage {
    pub peers: DeviceNonNull,
    pub ring_user_ranks: DeviceNonNull,
}

/// Counters shared by host and device.
pub struct DevHostSyncResources {
    /// Address, on the device, of the first completion counter.
    pub work_queue_done: DeviceNonNull,
    /// Maps an index into the completion counters to the channel that it belongs to.
    pub chan_mapping: Vec<u32>,
}

/// The device resources of a communicator.
pub struct CommDevResources {
    pub comm_dev: DeviceNonNull,
    pub chan_storage: Vec<ChanDevStorage>,
    pub sync: DevHostSyncResources,
}

/// The bytes of an address-free, empty connection: all zero.
pub open spec fn zeroed_conn() -> DevConnInfo {
    DevConnInfo {
        buffs: [0usize; NUM_PROTOCOLS],
        tail: 0,
        head: 0,
        sizes_fifo: 0,
        offs_fifo: 0,
        step: 0,
    }
}

/// An unused channel: all zero.
pub open spec fn zeroed_channel() -> DevChannel {
    DevChannel {
        peers: 0,
        ring: DevRing { prev: 0, next: 0, user_ranks: 0, index: 0 },
        work_fifo_done: 0,
    }
}

/// `dev` describes the connection `info`.
pub open spec fn describes_conn(dev: DevConnInfo, info: PeerConnInfo) -> bool {
    &&& forall|p: int|
        0 <= p < NUM_PROTOCOLS ==> #[trigger] dev.buffs@[p] == info.bufs@[p].addr()
    &&& dev.tail == info.tail.addr()
    &&& dev.head == info.head.addr()
    &&& dev.sizes_fifo == match info.slots_size {
        Some(sizes) => sizes.addr(),
        None => DEVICE_NULL,
    }
    &&& dev.offs_fifo == DEVICE_NULL
    &&& dev.step == 0
}

/// `dev` holds, under each connection index, the connection of `conns` or zeroes.
pub open spec fn describes_conns(
    dev: Seq<DevConnInfo>,
    conns: Map<u32, PeerConnector>,
    max_conns: u32,
) -> bool {
    &&& dev.len() == max_conns
    &&& forall|c: u32|
        c < max_conns ==> #[trigger] conn_slot(dev, conns, c)
}

/// The slot `c` of `dev` holds the connection that `conns` has under `c`, or zeroes.
pub open spec fn conn_slot(
    dev: Seq<DevConnInfo>,
    conns: Map<u32, PeerConnector>,
    c: u32,
) -> bool {
    if conns.contains_key(c) {
        describes_conn(dev[c as int], conns[c].conn_info)
    } else {
        dev[c as int] == zeroed_conn()
    }
}

/// `dev` describes the connections to the peer `rank` of a channel, or is zeroes where the channel
/// has no such peer.
pub open spec fn describes_peer(
    dev: DevChannelPeer,
    peers: Map<usize, ChannelPeerConn>,
    rank: usize,
    max_conns: u32,
) -> bool {
    if peers.contains_key(rank) {
        &&& describes_conns(dev.send@, peers[rank].send@, max_conns)
        &&& describes_conns(dev.recv@, peers[rank].recv@, max_conns)
    } else {
        &&& describes_conns(dev.send@, Map::empty(), max_conns)
        &&& describes_conns(dev.recv@, Map::empty(), max_conns)
    }
}

/// `dev` describes, rank by rank, the peers of a channel.
pub open spec fn describes_peers(
    dev: Seq<DevChannelPeer>,
    peers: Map<usize, ChannelPeerConn>,
    num_ranks: nat,
    max_conns: u32,
) -> bool {
    &&& dev.len() == num_ranks
    &&& forall|rank: usize|
        rank < num_ranks ==> describes_peer(
            #[trigger] dev[rank as int],
            peers,
            rank,
            max_conns,
        )
}

/// The first `num_ranks` ranks of a ring, as the device stores ranks.
pub open spec fn ranks_image(user_ranks: Seq<usize>, num_ranks: nat) -> Seq<i32> {
    Seq::new(num_ranks, |i: int| user_ranks[i] as i32)
}

/// The channel `chan` with its memory at `storage` and its completion counter at `work_done`.
pub open spec fn channel_image(
    chan: CommChannel,
    storage: ChanDevStorage,
    work_done: int,
) -> DevChannel {
    DevChannel {
        peers: storage.peers.addr(),
        ring: DevRing {
            prev: chan.ring.prev as i32,
            next: chan.ring.next as i32,
            user_ranks: storage.ring_user_ranks.addr(),
            index: chan.ring.index as i32,
        },
        work_fifo_done: work_done as usize,
    }
}

/// `dev` describes a communicator of `num_ranks` ranks to its rank `rank`.
pub open spec fn describes_comm(
    dev: DevComm,
    rank: usize,
    num_ranks: usize,
    profile: CommProfile,
) -> bool {
    &&& dev.rank == rank as i32
    &&& dev.n_ranks == num_ranks as i32
    &&& forall|p: int|
        0 <= p < NUM_PROTOCOLS ==> #[trigger] dev.buff_sizes@[p] == profile.buff_sizes@[p] as i32
    &&& dev.abort_flag == DEVICE_NULL
}

/// The connections fit into the device's arrays.
pub open spec fn conns_fit(conns: Map<u32, PeerConnector>, max_conns: u32) -> bool {
    forall|c: u32| #[trigger] conns.contains_key(c) ==> c < max_conns
}

/// The peers of a channel fit into the device's arrays.
pub open spec fn peers_fit(
    peers: Map<usize, ChannelPeerConn>,
    num_ranks: usize,
    max_conns: u32,
) -> bool {
    forall|rank: usize| #[trigger]
        peers.contains_key(rank) ==> {
            &&& rank < num_ranks
            &&& conns_fit(peers[rank].send@, max_conns)
            &&& conns_fit(peers[rank].recv@, max_conns)
        }
}

/// The channel fits into the device's arrays: no peer and no connection index lies outside them,
/// and the ring names every rank.
pub open spec fn channel_fits(chan: CommChannel, num_ranks: usize, limits: DevLimits) -> bool {
    &&& chan.ring.user_ranks@.len() >= num_ranks
    &&& peers_fit(chan.peers@, num_ranks, limits.max_conns)
}

/// Every channel fits into the device's arrays.
pub open spec fn channels_fit(
    channels: Map<u32, CommChannel>,
    num_ranks: usize,
    limits: DevLimits,
) -> bool {
    forall|id: u32| #[trigger]
        channels.contains_key(id) ==> id < limits.max_channels && channel_fits(
            channels[id],
            num_ranks,
            limits,
        )
}

/// Checks that connections fit into the device's arrays.
fn check_conns(conns: &HashMap<u32, PeerConnector>, max_conns: u32) -> (r: bool)
    ensures
        r == conns_fit(conns@, max_conns),
{
    let list = entries(conns);
    let mut i: usize = 0;
    while i < list.len()
        invariant
            i <= list.len(),
            lists_map(list@, conns@),
            forall|k: int| 0 <= k < i ==> (#[trigger] list@[k]).0 < max_conns,
        decreases list.len() - i,
    {
        if list[i].0 >= max_conns {
            assert(conns@.contains_key(list@[i as int].0));
            return false;
        }
        i += 1;
    }
    true
}

/// Checks that the peers of a channel fit into the device's arrays.
fn check_peers(
    peers: &HashMap<usize, ChannelPeerConn>,
    num_ranks: usize,
    max_conns: u32,
) -> (r: bool)
    ensures
        r == peers_fit(peers@, num_ranks, max_conns),
{
    let list = entries(peers);
    let mut i: usize = 0;
    while i < list.len()
        invariant
            i <= list.len(),
            lists_map(list@, peers@),
            forall|k: int|
                0 <= k < i ==> {
                    &&& (#[trigger] list@[k]).0 < num_ranks
                    &&& conns_fit(list@[k].1.send@, max_conns)
                    &&& conns_fit(list@[k].1.recv@, max_conns)
                },
        decreases list.len() - i,
    {
        if list[i].0 >= num_ranks || !check_conns(&list[i].1.send, max_conns) || !check_conns(
            &list[i].1.recv,
            max_conns,
        ) {
            assert(peers@.contains_key(list@[i as int].0));
            return false;
        }
        i += 1;
    }
    true
}

/// Checks that every channel fits into the device's arrays.
pub fn check_channels(
    channels: &HashMap<u32, CommChannel>,
    num_ranks: usize,
    limits: DevLimits,
) -> (r: bool)
    ensures
        r == channels_fit(channels@, num_ranks, limits),
{
    let list = entries(channels);
    let mut i: usize = 0;
    while i < list.len()
        invariant
            i <= list.len(),
            lists_map(list@, channels@),
            forall|k: int|
                0 <= k < i ==> {
                    &&& (#[trigger] list@[k]).0 < limits.max_channels
                    &&& channel_fits(*list@[k].1, num_ranks, limits)
                },
        decreases list.len() - i,
    {
        if list[i].0 >= limits.max_channels || list[i].1.ring.user_ranks.len() < num_ranks
            || !check_peers(&list[i].1.peers, num_ranks, limits.max_conns) {
            assert(channels@.contains_key(list@[i as int].0));
            return false;
        }
        i += 1;
    }
    true
}

impl ChanDevStorage {
    /// The device memory of a channel, once it is allocated.
    pub fn new(peers: DeviceNonNull, ring_user_ranks: DeviceNonNull) -> (r: ChanDevStorage)
        ensures
            r.peers == peers,
            r.ring_user_ranks == ring_user_ranks,
    {
        ChanDevStorage { peers, ring_user_ranks }
    }
}

impl DevHostSyncResources {
    /// Takes the device address of `num_channels` completion counters, none of which belongs to a
    /// channel yet.
    pub fn new(work_queue_done: DeviceNonNull, num_channels: usize) -> (r: DevHostSyncResources)
        ensures
            r.work_queue_done == work_queue_done,
            r.chan_mapping@ == Seq::<u32>::empty(),
    {
        DevHostSyncResources { work_queue_done, chan_mapping: Vec::with_capacity(num_channels) }
    }
}

/// Describes a connection to the device.
pub fn conn_info_to_dev(conn_info: &PeerConnInfo) -> (r: DevConnInfo)
    ensures
        describes_conn(r, *conn_info),
{
    let mut buffs: [usize; NUM_PROTOCOLS] = [0; NUM_PROTOCOLS];
    let mut p: usize = 0;
    while p < NUM_PROTOCOLS
        invariant
            p <= NUM_PROTOCOLS,
            forall|q: int| 0 <= q < p ==> #[trigger] buffs@[q] == conn_info.bufs@[q].addr(),
        decreases NUM_PROTOCOLS - p,
    {
        buffs[p] = conn_info.bufs[p].as_ptr();
        p += 1;
    }
    let sizes_fifo: usize = match &conn_info.slots_size {
        Some(slots_size) => slots_size.as_ptr(),
        None => DEVICE_NULL,
    };
    DevConnInfo {
        buffs,
        tail: conn_info.tail.as_ptr(),
        head: conn_info.head.as_ptr(),
        sizes_fifo,
        offs_fifo: DEVICE_NULL,
        step: 0,
    }
}

/// Describes the connections in one direction to a peer.
fn conns_to_dev(conns: &HashMap<u32, PeerConnector>, max_conns: u32) -> (r: Vec<DevConnInfo>)
    requires
        conns_fit(conns@, max_conns),
    ensures
        describes_conns(r@, conns@, max_conns),
{
    let mut dev = zeroed_conns(max_conns);
    let list = entries(conns);
    let mut i: usize = 0;
    while i < list.len()
        invariant
            i <= list.len(),
            lists_map(list@, conns@),
            conns_fit(conns@, max_conns),
            dev@.len() == max_conns,
            forall|k: int|
                0 <= k < i ==> describes_conn(
                    dev@[(#[trigger] list@[k]).0 as int],
                    conns@[list@[k].0].conn_info,
                ),
            forall|c: u32| #![trigger dev@[c as int]]
                c < max_conns && !conns@.contains_key(c) ==> dev@[c as int] == zeroed_conn(),
        decreases list.len() - i,
    {
        let conn_index: u32 = list[i].0;
        assert(conns@.contains_key(list@[i as int].0));
        dev[conn_index as usize] = conn_info_to_dev(&list[i].1.conn_info);
        i += 1;
    }
    assert forall|c: u32| c < max_conns implies #[trigger] conn_slot(dev@, conns@, c) by {
        if conns@.contains_key(c) {
            let k = choose|k: int| 0 <= k < list@.len() && (#[trigger] list@[k]).0 == c;
            assert(list@[k].0 == c);
        }
    }
    dev
}

/// `max_conns` unused connections.
fn zeroed_conns(max_conns: u32) -> (r: Vec<DevConnInfo>)
    ensures
        r@ == Seq::new(max_conns as nat, |i: int| zeroed_conn()),
{
    let zero = DevConnInfo {
        buffs: [0; NUM_PROTOCOLS],
        tail: DEVICE_NULL,
        head: DEVICE_NULL,
        sizes_fifo: DEVICE_NULL,
        offs_fifo: DEVICE_NULL,
        step: 0,
    };
    let mut conns: Vec<DevConnInfo> = Vec::new();
    let mut i: u32 = 0;
    while i < max_conns
        invariant
            i <= max_conns,
            zero == zeroed_conn(),
            conns@ == Seq::new(i as nat, |i: int| zeroed_conn()),
        decreases max_conns - i,
    {
        conns.push(zero);
        i += 1;
    }
    conns
}

/// A peer without connections.
fn zeroed_peer(max_conns: u32) -> (r: DevChannelPeer)
    ensures
        describes_conns(r.send@, Map::empty(), max_conns),
        describes_conns(r.recv@, Map::empty(), max_conns),
{
    DevChannelPeer { send: zeroed_conns(max_conns), recv: zeroed_conns(max_conns) }
}

/// Describes the peers of a channel, rank by rank.
fn peers_to_dev(
    peers: &HashMap<usize, ChannelPeerConn>,
    num_ranks: usize,
    max_conns: u32,
) -> (r: Vec<DevChannelPeer>)
    requires
        peers_fit(peers@, num_ranks, max_conns),
    ensures
        describes_peers(r@, peers@, num_ranks as nat, max_conns),
{
    let mut dev: Vec<DevChannelPeer> = Vec::new();
    let mut n: usize = 0;
    while n < num_ranks
        invariant
            n <= num_ranks,
            dev@.len() == n,
            forall|rank: int|
                0 <= rank < n ==> {
                    &&& describes_conns((#[trigger] dev@[rank]).send@, Map::empty(), max_conns)
                    &&& describes_conns(dev@[rank].recv@, Map::empty(), max_conns)
                },
        decreases num_ranks - n,
    {
        dev.push(zeroed_peer(max_conns));
        n += 1;
    }
    let list = entries(peers);
    let mut i: usize = 0;
    while i < list.len()
        invariant
            i <= list.len(),
            lists_map(list@, peers@),
            peers_fit(peers@, num_ranks, max_conns),
            dev@.len() == num_ranks,
            forall|k: int|
                0 <= k < i ==> {
                    &&& describes_conns(
                        dev@[(#[trigger] list@[k]).0 as int].send@,
                        peers@[list@[k].0].send@,
                        max_conns,
                    )
                    &&& describes_conns(
                        dev@[list@[k].0 as int].recv@,
                        peers@[list@[k].0].recv@,
                        max_conns,
                    )
                },
            forall|rank: usize|
                #![trigger dev@[rank as int]]
                rank < num_ranks && !peers@.contains_key(rank) ==> {
                    &&& describes_conns(dev@[rank as int].send@, Map::empty(), max_conns)
                    &&& describes_conns(dev@[rank as int].recv@, Map::empty(), max_conns)
                },
        decreases list.len() - i,
    {
        let peer_rank: usize = list[i].0;
        assert(peers@.contains_key(list@[i as int].0));
        let send = conns_to_dev(&list[i].1.send, max_conns);
        let recv = conns_to_dev(&list[i].1.recv, max_conns);
        dev[peer_rank] = DevChannelPeer { send, recv };
        i += 1;
    }
    assert forall|rank: usize| rank < num_ranks implies describes_peer(
        #[trigger] dev@[rank as int],
        peers@,
        rank,
        max_conns,
    ) by {
        if peers@.contains_key(rank) {
            let k = choose|k: int| 0 <= k < list@.len() && (#[trigger] list@[k]).0 == rank;
            assert(list@[k].0 == rank);
        }
    }
    dev
}

/// The first `num_ranks` ranks of a ring, as the device stores ranks.
fn ranks_to_dev(user_ranks: &Vec<usize>, num_ranks: usize) -> (r: Vec<i32>)
    requires
        user_ranks@.len() >= num_ranks,
    ensures
        r@ == ranks_image(user_ranks@, num_ranks as nat),
{
    let mut ranks: Vec<i32> = Vec::new();
    let mut i: usize = 0;
    while i < num_ranks
        invariant
            i <= num_ranks <= user_ranks@.len(),
            ranks@ == ranks_image(user_ranks@, i as nat),
        decreases num_ranks - i,
    {
        ranks.push(user_ranks[i] as i32);
        i += 1;
    }
    ranks
}

/// Describes a communicator, channels aside.
fn comm_to_dev(rank: usize, num_ranks: usize, profile: &CommProfile) -> (r: DevComm)
    ensures
        describes_comm(r, rank, num_ranks, *profile),
{
    let mut buff_sizes: [i32; NUM_PROTOCOLS] = [0; NUM_PROTOCOLS];
    let mut p: usize = 0;
    while p < NUM_PROTOCOLS
        invariant
            p <= NUM_PROTOCOLS,
            forall|q: int|
                0 <= q < p ==> #[trigger] buff_sizes@[q] == profile.buff_sizes@[q] as i32,
        decreases NUM_PROTOCOLS - p,
    {
        buff_sizes[p] = profile.buff_sizes[p] as i32;
        p += 1;
    }
    DevComm {
        rank: rank as i32,
        n_ranks: num_ranks as i32,
        buff_sizes,
        abort_flag: DEVICE_NULL,
    }
}

/// `max_channels` unused channels.
fn zeroed_channels(max_channels: u32) -> (r: Vec<DevChannel>)
    ensures
        r@ == Seq::new(max_channels as nat, |i: int| zeroed_channel()),
{
    let zero = DevChannel {
        peers: DEVICE_NULL,
        ring: DevRing { prev: 0, next: 0, user_ranks: DEVICE_NULL, index: 0 },
        work_fifo_done: DEVICE_NULL,
    };
    let mut channels: Vec<DevChannel> = Vec::new();
    let mut i: u32 = 0;
    while i < max_channels
        invariant
            i <= max_channels,
            zero == zeroed_channel(),
            channels@ == Seq::new(i as nat, |i: int| zeroed_channel()),
        decreases max_channels - i,
    {
        channels.push(zero);
        i += 1;
    }
    channels
}

impl CommDevResources {
    /// The completion counter with the index `idx`.
    pub open spec fn work_done(self, idx: int) -> int {
        self.sync.work_queue_done.addr() + idx * WORK_DONE_SIZE
    }

    /// The completion counters and the channels match one to one: each counter belongs to one of
    /// `channels`, each channel has a counter, and no two counters belong to the same channel.
    pub open spec fn maps_counters_to(self, channels: Set<u32>) -> bool {
        &&& self.sync.chan_mapping@.no_duplicates()
        &&& self.sync.chan_mapping@.to_set() == channels
    }

    /// `image` describes the communicator to the device, with these resources filled in.
    pub open spec fn described_by(
        self,
        image: CommDevImage,
        rank: usize,
        num_ranks: usize,
        profile: CommProfile,
        channels: Map<u32, CommChannel>,
        limits: DevLimits,
    ) -> bool {
        &&& self.sync.chan_mapping@.len() == self.chan_storage@.len()
        &&& self.maps_counters_to(channels.dom())
        &&& describes_comm(image.comm.comm, rank, num_ranks, profile)
        &&& image.comm.channels@.len() == limits.max_channels
        &&& image.chan_images@.len() == self.chan_storage@.len()
        &&& forall|i: int|
            #![trigger self.sync.chan_mapping@[i]]
            0 <= i < self.chan_storage@.len() ==> {
                let id = self.sync.chan_mapping@[i];
                &&& image.comm.channels@[id as int] == channel_image(
                    channels[id],
                    self.chan_storage@[i],
                    self.work_done(i),
                )
                &&& image.chan_images@[i].ring_user_ranks@ == ranks_image(
                    channels[id].ring.user_ranks@,
                    num_ranks as nat,
                )
                &&& describes_peers(
                    image.chan_images@[i].peers@,
                    channels[id].peers@,
                    num_ranks as nat,
                    limits.max_conns,
                )
            }
        &&& forall|id: u32|
            #![trigger image.comm.channels@[id as int]]
            id < limits.max_channels && !channels.contains_key(id)
                ==> image.comm.channels@[id as int] == zeroed_channel()
    }

    /// Describes a communicator to the device of its rank `rank`.
    ///
    /// The memory that the description refers to is already allocated: `comm_dev` for the
    /// communicator, one element of `storage` for each channel, and completion counters at
    /// `work_queue_done`. The storage and the counters go to the channels in the order in which the
    /// map hands the channels out; [`DevHostSyncResources::chan_mapping`] records that order. What
    /// has to be copied to the device comes back beside the resources.
    pub fn new(
        rank: usize,
        num_ranks: usize,
        profile: &CommProfile,
        channels: &HashMap<u32, CommChannel>,
        limits: DevLimits,
        comm_dev: DeviceNonNull,
        storage: Vec<ChanDevStorage>,
        work_queue_done: DeviceNonNull,
    ) -> (r: (CommDevResources, CommDevImage))
        requires
            channels_fit(channels@, num_ranks, limits),
            storage@.len() == channels@.dom().len(),
            work_queue_done.addr() + storage@.len() * WORK_DONE_SIZE <= usize::MAX,
        ensures
            r.0.comm_dev == comm_dev,
            r.0.chan_storage@ == storage@,
            r.0.sync.work_queue_done == work_queue_done,
            r.0.described_by(r.1, rank, num_ranks, *profile, channels@, limits),
    {
        let mut sync = DevHostSyncResources::new(work_queue_done, storage.len());
        let mut dev_channels = zeroed_channels(limits.max_channels);
        let mut chan_images: Vec<ChanDevImage> = Vec::new();
        let base: usize = work_queue_done.as_ptr();
        let list = entries(channels);
        let mut idx: usize = 0;
        while idx < list.len()
            invariant
                idx <= list.len() == storage@.len(),
                lists_map(list@, channels@),
                channels_fit(channels@, num_ranks, limits),
                base == work_queue_done.addr(),
                base + storage@.len() * WORK_DONE_SIZE <= usize::MAX,
                sync.work_queue_done == work_queue_done,
                sync.chan_mapping@.len() == idx,
                forall|i: int| 0 <= i < idx ==> #[trigger] sync.chan_mapping@[i] == list@[i].0,
                dev_channels@.len() == limits.max_channels,
                chan_images@.len() == idx,
                forall|i: int|
                    #![trigger list@[i]]
                    0 <= i < idx ==> {
                        let id = list@[i].0;
                        &&& dev_channels@[id as int] == channel_image(
                            channels@[id],
                            storage@[i],
                            base + i * WORK_DONE_SIZE,
                        )
                        &&& chan_images@[i].ring_user_ranks@ == ranks_image(
                            channels@[id].ring.user_ranks@,
                            num_ranks as nat,
                        )
                        &&& describes_peers(
                            chan_images@[i].peers@,
                            channels@[id].peers@,
                            num_ranks as nat,
                            limits.max_conns,
                        )
                    },
                forall|id: u32|
                    #![trigger dev_channels@[id as int]]
                    id < limits.max_channels && !channels@.contains_key(id)
                        ==> dev_channels@[id as int] == zeroed_channel(),
            decreases list.len() - idx,
        {
            let chan_id: u32 = list[idx].0;
            let chan: &CommChannel = list[idx].1;
            assert(channels@.contains_key(list@[idx as int].0));
            let peers = peers_to_dev(&chan.peers, num_ranks, limits.max_conns);
            let ring_user_ranks = ranks_to_dev(&chan.ring.user_ranks, num_ranks);
            let ring = DevRing {
                prev: chan.ring.prev as i32,
                next: chan.ring.next as i32,
                user_ranks: storage[idx].ring_user_ranks.as_ptr(),
                index: chan.ring.index as i32,
            };
            assert(base + idx * WORK_DONE_SIZE <= usize::MAX);
            let work_done: usize = base + idx * WORK_DONE_SIZE;
            sync.chan_mapping.push(chan_id);
            dev_channels[chan_id as usize] = DevChannel {
                peers: storage[idx].peers.as_ptr(),
                ring,
                work_fifo_done: work_done,
            };
            chan_images.push(ChanDevImage { ring_user_ranks, peers });
            idx += 1;
        }
        let comm = DevCommAndChannels {
            comm: comm_to_dev(rank, num_ranks, profile),
            channels: dev_channels,
        };
        let res = CommDevResources { comm_dev, chan_storage: storage, sync };
        proof {
            let mapping = res.sync.chan_mapping@;
            assert forall|i: int, j: int|
                0 <= i < mapping.len() && 0 <= j < mapping.len() && i != j implies mapping[i]
                != mapping[j] by {
                assert(list@[i].0 != list@[j].0);
            }
            assert forall|id: u32| mapping.to_set().contains(id) <==> channels@.dom().contains(id) by {
                if channels@.contains_key(id) {
                    let i = choose|i: int| 0 <= i < list@.len() && (#[trigger] list@[i]).0 == id;
                    assert(mapping[i] == id);
                }
                if mapping.contains(id) {
                    let i = choose|i: int| 0 <= i < mapping.len() && mapping[i] == id;
                    assert(channels@.contains_key(list@[i].0));
                }
            }
            assert(mapping.to_set() =~= channels@.dom());
        }
        (res, CommDevImage { comm, chan_images })
    }

    /// Where the device finds the description of the communicator: it stands first in the memory
    /// of communicator and channels.
    pub fn get_dev_comm_ptr(&self) -> (r: DeviceNonNull)
        ensures
            r == self.comm_dev,
    {
        self.comm_dev
    }
}

/// The mapping from completion counters to channels tells, for every channel, which counter the
/// device was given for it; and no other counter is taken for that channel's.
pub proof fn mapping_finds_the_counter(
    res: CommDevResources,
    image: CommDevImage,
    rank: usize,
    num_ranks: usize,
    profile: CommProfile,
    channels: Map<u32, CommChannel>,
    limits: DevLimits,
    id: u32,
)
    requires
        res.described_by(image, rank, num_ranks, profile, channels, limits),
        res.sync.work_queue_done.addr() + res.chan_storage@.len() * WORK_DONE_SIZE <= usize::MAX,
        channels.contains_key(id),
    ensures
        exists|i: int|
            0 <= i < res.sync.chan_mapping@.len() && #[trigger] res.sync.chan_mapping@[i] == id
                && image.comm.channels@[id as int].work_fifo_done == res.work_done(i),
        forall|i: int, j: int|
            #![trigger res.sync.chan_mapping@[i], res.sync.chan_mapping@[j]]
            0 <= i < res.sync.chan_mapping@.len() && 0 <= j < res.sync.chan_mapping@.len()
                && res.sync.chan_mapping@[i] == id && res.sync.chan_mapping@[j] == id ==> i == j,
{
    let mapping = res.sync.chan_mapping@;
    assert(mapping.to_set().contains(id));
    let i = choose|i: int| 0 <= i < mapping.len() && mapping[i] == id;
    assert(res.sync.chan_mapping@[i] == id);
    assert(i * WORK_DONE_SIZE <= res.chan_storage@.len() * WORK_DONE_SIZE);
}

/// Different channels report their completed work in different counters.
pub proof fn channels_have_their_own_counters(
    res: CommDevResources,
    image: CommDevImage,
    rank: usize,
    num_ranks: usize,
    profile: CommProfile,
    channels: Map<u32, CommChannel>,
    limits: DevLimits,
    a: u32,
    b: u32,
)
    requires
        res.described_by(image, rank, num_ranks, profile, channels, limits),
        res.sync.work_queue_done.addr() + res.chan_storage@.len() * WORK_DONE_SIZE <= usize::MAX,
        channels.contains_key(a),
        channels.contains_key(b),
        a != b,
    ensures
        image.comm.channels@[a as int].work_fifo_done != image.comm.channels@[b as int].work_fifo_done,
{
    let mapping = res.sync.chan_mapping@;
    mapping_finds_the_counter(res, image, rank, num_ranks, profile, channels, limits, a);
    mapping_finds_the_counter(res, image, rank, num_ranks, profile, channels, limits, b);
    let i = choose|i: int|
        0 <= i < mapping.len() && #[trigger] mapping[i] == a
            && image.comm.channels@[a as int].work_fifo_done == res.work_done(i);
    let j = choose|j: int|
        0 <= j < mapping.len() && #[trigger] mapping[j] == b
            && image.comm.channels@[b as int].work_fifo_done == res.work_done(j);
    assert(i != j);
    assert(i * WORK_DONE_SIZE != j * WORK_DONE_SIZE);
}

/// A connection announces the sizes of its slots to the device exactly if it has them: an address
/// that is there is never null.
pub proof fn sizes_announced_iff_there(dev: DevConnInfo, info: PeerConnInfo)
    requires
        describes_conn(dev, info),
        info.slots_size matches Some(sizes) ==> sizes.addr() != DEVICE_NULL,
    ensures
        dev.sizes_fifo != DEVICE_NULL <==> info.slots_size is Some,
{
}

} // verus!
