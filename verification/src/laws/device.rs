//! Laws of the description that a device gets of a communicator.
use std::collections::HashMap;

use vstd::prelude::*;

use crate::comm::device::{
    check_channels, conn_info_to_dev, ChanDevStorage, CommDevImage, CommDevResources, DevConnInfo,
    DevHostSyncResources, DevLimits,
};
use crate::comm::CommProfile;
use crate::cuda::ptr::DeviceNonNull;
use crate::transport::channel::{CommChannel, PeerConnInfo};
use crate::transport::NUM_PROTOCOLS;

verus! {

/// A call of [`CommDevResources::new`]: what it was given and what it returned.
pub ghost struct Description {
    pub rank: usize,
    pub num_ranks: usize,
    pub profile: CommProfile,
    pub channels: HashMap<u32, CommChannel>,
    pub limits: DevLimits,
    pub comm_dev: DeviceNonNull,
    pub storage: Vec<ChanDevStorage>,
    pub work_queue_done: DeviceNonNull,
    pub resources: CommDevResources,
    pub image: CommDevImage,
}

impl Description {
    /// The call returned this.
    pub open spec fn returned(self) -> bool {
        call_ensures(
            CommDevResources::new,
            (
                self.rank,
                self.num_ranks,
                &self.profile,
                &self.channels,
                self.limits,
                self.comm_dev,
                self.storage,
                self.work_queue_done,
            ),
            (self.resources, self.image),
        )
    }

    /// The counter with the number `i` belongs to the channel `id`.
    pub open spec fn counts(self, i: int, id: u32) -> bool {
        &&& 0 <= i < self.resources.sync.chan_mapping@.len()
        &&& self.resources.sync.chan_mapping@[i] == id
    }
}

/// A device address is the number that it was made of, and no null address is one.
pub proof fn device_addresses_are_kept(
    addr: usize,
    unchecked: DeviceNonNull,
    checked: Option<DeviceNonNull>,
    read: usize,
)
    requires
        call_ensures(DeviceNonNull::new_unchecked, (addr,), unchecked),
        call_ensures(DeviceNonNull::new, (addr,), checked),
        call_ensures(DeviceNonNull::as_ptr, (&unchecked,), read),
    ensures
        read == addr,
        read != 0,
        addr != 0 ==> checked is Some && checked->0.addr() == addr,
        addr == 0 ==> checked is None,
{
}

/// The memory of a channel is kept as it was allocated, each address in its place.
pub proof fn storage_is_kept(
    peers: DeviceNonNull,
    ring_user_ranks: DeviceNonNull,
    r: ChanDevStorage,
)
    requires
        call_ensures(ChanDevStorage::new, (peers, ring_user_ranks), r),
    ensures
        r.peers == peers,
        r.ring_user_ranks == ring_user_ranks,
{
}

/// Counters start without channels, at the address that they were allocated at.
pub proof fn counters_start_unused(
    work_queue_done: DeviceNonNull,
    num_channels: usize,
    r: DevHostSyncResources,
)
    requires
        call_ensures(DevHostSyncResources::new, (work_queue_done, num_channels), r),
    ensures
        r.work_queue_done == work_queue_done,
        r.chan_mapping@.len() == 0,
{
}

/// The device finds a connection's buffers, its head and its tail where the connection has them, and
/// the sizes of its slots exactly if the connection announces them; it starts at step 0, without
/// offsets.
pub proof fn connection_is_described(info: PeerConnInfo, dev: DevConnInfo, p: int)
    requires
        call_ensures(conn_info_to_dev, (&info,), dev),
        0 <= p < NUM_PROTOCOLS,
    ensures
        dev.buffs@[p] == info.bufs@[p].addr(),
        dev.head == info.head.addr(),
        dev.tail == info.tail.addr(),
        info.slots_size matches Some(sizes) ==> dev.sizes_fifo == sizes.addr(),
        info.slots_size is None ==> dev.sizes_fifo == 0,
        dev.offs_fifo == 0,
        dev.step == 0,
{
}

/// The communicator is described by its rank, its number of ranks and its buffer sizes; the
/// resources are those that were allocated for it.
pub proof fn communicator_is_described(call: Description, p: int)
    requires
        call.returned(),
        0 <= p < NUM_PROTOCOLS,
    ensures
        call.resources.comm_dev == call.comm_dev,
        call.resources.chan_storage@ == call.storage@,
        call.resources.sync.work_queue_done == call.work_queue_done,
        call.image.comm.comm.rank == call.rank as i32,
        call.image.comm.comm.n_ranks == call.num_ranks as i32,
        call.image.comm.comm.buff_sizes@[p] == call.profile.buff_sizes@[p] as i32,
        call.image.comm.comm.abort_flag == 0,
        call.image.comm.channels@.len() == call.limits.max_channels,
        call.rank <= i32::MAX ==> call.image.comm.comm.rank as int == call.rank,
        call.num_ranks <= i32::MAX ==> call.image.comm.comm.n_ranks as int == call.num_ranks,
        call.profile.buff_sizes@[p] <= i32::MAX ==> call.image.comm.comm.buff_sizes@[p] as int
            == call.profile.buff_sizes@[p],
{
}

/// The device finds the communicator where it was allocated.
pub proof fn communicator_is_found(resources: CommDevResources, r: DeviceNonNull)
    requires
        call_ensures(CommDevResources::get_dev_comm_ptr, (&resources,), r),
    ensures
        r.addr() == resources.comm_dev.addr(),
{
}

/// Every channel has a counter, no channel has two, and no counter belongs to anything else.
pub proof fn channels_and_counters_match(call: Description, id: u32)
    requires
        call.returned(),
    ensures
        call.resources.sync.chan_mapping@.len() == call.storage@.len(),
        call.image.chan_images@.len() == call.storage@.len(),
        call.channels@.contains_key(id) <==> exists|i: int| #[trigger] call.counts(i, id),
        forall|i: int, j: int| #[trigger]
            call.counts(i, id) && #[trigger] call.counts(j, id) ==> i == j,
{
    let mapping = call.resources.sync.chan_mapping@;
    if call.channels@.contains_key(id) {
        assert(mapping.to_set().contains(id));
        let i = choose|i: int| 0 <= i < mapping.len() && mapping[i] == id;
        assert(call.counts(i, id));
    }
    if exists|i: int| #[trigger] call.counts(i, id) {
        let i = choose|i: int| #[trigger] call.counts(i, id);
        assert(mapping.contains(id));
        assert(mapping.to_set().contains(id));
    }
}

/// A channel's place in the ring, its memory and its counter are described as they are: the `i`-th
/// channel of the mapping has the `i`-th memory and the `i`-th counter of four bytes.
pub proof fn channel_is_described(call: Description, i: int, id: u32)
    requires
        call.returned(),
        call.counts(i, id),
        call.work_queue_done.addr() + 4 * call.storage@.len() <= usize::MAX,
    ensures
        ({
            let dev = call.image.comm.channels@[id as int];
            let chan = call.channels@[id];
            &&& dev.peers == call.storage@[i].peers.addr()
            &&& dev.ring.user_ranks == call.storage@[i].ring_user_ranks.addr()
            &&& dev.work_fifo_done == call.work_queue_done.addr() + 4 * i
            &&& dev.ring.prev == chan.ring.prev as i32
            &&& dev.ring.next == chan.ring.next as i32
            &&& dev.ring.index == chan.ring.index as i32
            &&& chan.ring.prev <= i32::MAX ==> dev.ring.prev as int == chan.ring.prev
            &&& chan.ring.next <= i32::MAX ==> dev.ring.next as int == chan.ring.next
            &&& chan.ring.index <= i32::MAX ==> dev.ring.index as int == chan.ring.index
        }),
{
}

/// There is room for every channel, and what no channel uses is zero.
pub proof fn unused_channels_are_zero(call: Description, id: u32)
    requires
        call.returned(),
        id < call.limits.max_channels,
        !call.channels@.contains_key(id),
    ensures
        call.image.comm.channels@.len() == call.limits.max_channels,
        ({
            let dev = call.image.comm.channels@[id as int];
            &&& dev.peers == 0
            &&& dev.ring.prev == 0
            &&& dev.ring.next == 0
            &&& dev.ring.user_ranks == 0
            &&& dev.ring.index == 0
            &&& dev.work_fifo_done == 0
        }),
{
}

/// The ranks of a channel's ring are described in the order in which the channel has them.
pub proof fn ring_is_described_in_order(call: Description, i: int, id: u32, k: int)
    requires
        call.returned(),
        call.counts(i, id),
        0 <= k < call.num_ranks,
    ensures
        call.image.chan_images@[i].ring_user_ranks@.len() == call.num_ranks,
        call.image.chan_images@[i].ring_user_ranks@[k]
            == call.channels@[id].ring.user_ranks@[k] as i32,
        call.channels@[id].ring.user_ranks@[k] <= i32::MAX
            ==> call.image.chan_images@[i].ring_user_ranks@[k] as int
            == call.channels@[id].ring.user_ranks@[k],
{
}

/// If the rank itself stands first in the ring of a channel, its device reads its own rank first.
pub proof fn ring_starts_with_the_rank(call: Description, i: int, id: u32)
    requires
        call.returned(),
        call.counts(i, id),
        call.num_ranks > 0,
        call.channels@[id].ring.user_ranks@[0] == call.rank,
    ensures
        call.image.chan_images@[i].ring_user_ranks@[0] == call.image.comm.comm.rank,
{
}

/// Two rings that differ at some place are described differently at that place.
pub proof fn different_rings_look_different(
    a: Description,
    b: Description,
    i: int,
    j: int,
    id: u32,
    k: int,
)
    requires
        a.returned(),
        b.returned(),
        a.counts(i, id),
        b.counts(j, id),
        0 <= k < a.num_ranks,
        k < b.num_ranks,
        a.channels@[id].ring.user_ranks@[k] <= i32::MAX,
        b.channels@[id].ring.user_ranks@[k] <= i32::MAX,
        a.channels@[id].ring.user_ranks@[k] != b.channels@[id].ring.user_ranks@[k],
    ensures
        a.image.chan_images@[i].ring_user_ranks@[k] != b.image.chan_images@[j].ring_user_ranks@[k],
{
}

/// `dev` shows a connection: its addresses, as far as it has them.
pub open spec fn shows(dev: DevConnInfo, info: PeerConnInfo) -> bool {
    &&& forall|p: int|
        0 <= p < NUM_PROTOCOLS ==> #[trigger] dev.buffs@[p] == info.bufs@[p].addr()
    &&& dev.head == info.head.addr()
    &&& dev.tail == info.tail.addr()
    &&& info.slots_size matches Some(sizes) ==> dev.sizes_fifo == sizes.addr()
    &&& info.slots_size is None ==> dev.sizes_fifo == 0
    &&& dev.offs_fifo == 0
    &&& dev.step == 0
}

/// `dev` shows no connection: all of it is zero.
pub open spec fn shows_nothing(dev: DevConnInfo) -> bool {
    &&& forall|p: int| 0 <= p < NUM_PROTOCOLS ==> #[trigger] dev.buffs@[p] == 0
    &&& dev.head == 0
    &&& dev.tail == 0
    &&& dev.sizes_fifo == 0
    &&& dev.offs_fifo == 0
    &&& dev.step == 0
}

/// Under the peer's rank and the connection's index, in its direction, the device finds the
/// connection that the channel has there; and zero where the channel has none.
pub proof fn peers_are_described(call: Description, i: int, id: u32, rank: usize, conn: u32)
    requires
        call.returned(),
        call.counts(i, id),
        rank < call.num_ranks,
        conn < call.limits.max_conns,
    ensures
        call.image.chan_images@[i].peers@.len() == call.num_ranks,
        ({
            let dev = call.image.chan_images@[i].peers@[rank as int];
            let peers = call.channels@[id].peers@;
            &&& dev.send@.len() == call.limits.max_conns
            &&& dev.recv@.len() == call.limits.max_conns
            &&& if peers.contains_key(rank) && peers[rank].send@.contains_key(conn) {
                shows(dev.send@[conn as int], peers[rank].send@[conn].conn_info)
            } else {
                shows_nothing(dev.send@[conn as int])
            }
            &&& if peers.contains_key(rank) && peers[rank].recv@.contains_key(conn) {
                shows(dev.recv@[conn as int], peers[rank].recv@[conn].conn_info)
            } else {
                shows_nothing(dev.recv@[conn as int])
            }
        }),
{
    let dev = call.image.chan_images@[i].peers@[rank as int];
    let peers = call.channels@[id].peers@;
    let send = if peers.contains_key(rank) {
        peers[rank].send@
    } else {
        Map::empty()
    };
    let recv = if peers.contains_key(rank) {
        peers[rank].recv@
    } else {
        Map::empty()
    };
    assert(crate::comm::device::conn_slot(dev.send@, send, conn));
    assert(crate::comm::device::conn_slot(dev.recv@, recv, conn));
}

/// Channels fit into the device's arrays exactly if none of their numbers, none of their peers and
/// none of their connections lies outside them, and every ring names all ranks.
pub proof fn channels_fit_if_nothing_lies_outside(
    channels: HashMap<u32, CommChannel>,
    num_ranks: usize,
    limits: DevLimits,
    r: bool,
)
    requires
        call_ensures(check_channels, (&channels, num_ranks, limits), r),
    ensures
        r <==> {
            &&& forall|id: u32| #[trigger] channels@.contains_key(id) ==> id < limits.max_channels
            &&& forall|id: u32| #[trigger]
                channels@.contains_key(id) ==> channels@[id].ring.user_ranks@.len() >= num_ranks
            &&& forall|id: u32, rank: usize|
                channels@.contains_key(id) && #[trigger] channels@[id].peers@.contains_key(rank)
                    ==> rank < num_ranks
            &&& forall|id: u32, rank: usize, conn: u32|
                channels@.contains_key(id) && channels@[id].peers@.contains_key(rank)
                    && #[trigger] channels@[id].peers@[rank].send@.contains_key(conn) ==> conn
                    < limits.max_conns
            &&& forall|id: u32, rank: usize, conn: u32|
                channels@.contains_key(id) && channels@[id].peers@.contains_key(rank)
                    && #[trigger] channels@[id].peers@[rank].recv@.contains_key(conn) ==> conn
                    < limits.max_conns
        },
{
}

} // verus!
