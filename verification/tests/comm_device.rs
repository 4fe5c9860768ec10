use std::collections::HashMap;

use mccs::comm::device::{
    check_channels, conn_info_to_dev, ChanDevStorage, CommDevImage, CommDevResources, DevConnInfo,
    DevHostSyncResources, DevLimits, WORK_DONE_SIZE,
};
use mccs::comm::CommProfile;
use mccs::cuda::ptr::DeviceNonNull;
use mccs::transport::channel::{
    ChannelPeerConn, CommChannel, PeerConnInfo, PeerConnector, RingPattern,
};

const LIMITS: DevLimits = DevLimits { max_channels: 4, max_conns: 2 };

fn at(addr: usize) -> DeviceNonNull {
    DeviceNonNull::new_unchecked(addr)
}

fn connector(base: usize, sizes: bool) -> PeerConnector {
    PeerConnector {
        conn_info: PeerConnInfo {
            bufs: [at(base)],
            head: at(base + 1),
            tail: at(base + 2),
            slots_size: if sizes { Some(at(base + 3)) } else { None },
        },
    }
}

fn channel(base: usize) -> CommChannel {
    let mut send = HashMap::new();
    send.insert(1, connector(base + 100, true));
    let mut recv = HashMap::new();
    recv.insert(0, connector(base + 200, false));
    let mut peers = HashMap::new();
    peers.insert(1, ChannelPeerConn { send, recv });
    CommChannel {
        peers,
        ring: RingPattern { prev: 2, next: 1, user_ranks: vec![0, 1, 2], index: base },
    }
}

fn is_zero(conn: &DevConnInfo) -> bool {
    conn.buffs == [0]
        && conn.tail == 0
        && conn.head == 0
        && conn.sizes_fifo == 0
        && conn.offs_fifo == 0
        && conn.step == 0
}

fn describe(ids: &[u32]) -> (CommDevResources, CommDevImage) {
    let mut channels = HashMap::new();
    let mut storage = Vec::new();
    for (i, id) in ids.iter().enumerate() {
        channels.insert(*id, channel(*id as usize * 1000));
        storage.push(ChanDevStorage::new(at(50_000 + i), at(60_000 + i)));
    }
    assert!(check_channels(&channels, 3, LIMITS));
    let profile = CommProfile { buff_sizes: [1 << 22] };
    CommDevResources::new(0, 3, &profile, &channels, LIMITS, at(70_000), storage, at(80_000))
}

#[test]
fn null_is_no_device_address() {
    assert!(DeviceNonNull::new(0).is_none());
    assert_eq!(DeviceNonNull::new(16).unwrap().as_ptr(), 16);
    assert_eq!(at(17).as_ptr(), 17);
}

#[test]
fn connection_is_described_by_its_addresses() {
    let dev = conn_info_to_dev(&connector(1000, true).conn_info);
    assert_eq!(dev.buffs, [1000]);
    assert_eq!(dev.head, 1001);
    assert_eq!(dev.tail, 1002);
    assert_eq!(dev.sizes_fifo, 1003);
    assert_eq!(dev.offs_fifo, 0);
    assert_eq!(dev.step, 0);
}

#[test]
fn sizes_are_null_where_there_are_none() {
    let dev = conn_info_to_dev(&connector(1000, false).conn_info);
    assert_eq!(dev.sizes_fifo, 0);
}

#[test]
fn counters_start_without_channels() {
    let sync = DevHostSyncResources::new(at(5), 3);
    assert_eq!(sync.work_queue_done.as_ptr(), 5);
    assert!(sync.chan_mapping.is_empty());
}

#[test]
fn communicator_is_described_as_a_whole() {
    let (res, image) = describe(&[0, 2]);
    assert_eq!(res.get_dev_comm_ptr().as_ptr(), 70_000);
    assert_eq!(image.comm.comm.rank, 0);
    assert_eq!(image.comm.comm.n_ranks, 3);
    assert_eq!(image.comm.comm.buff_sizes, [1 << 22]);
    assert_eq!(image.comm.comm.abort_flag, 0);
}

#[test]
fn every_channel_has_a_counter_of_its_own() {
    let (res, image) = describe(&[0, 2, 3]);
    let mut mapped = res.sync.chan_mapping.clone();
    mapped.sort();
    assert_eq!(mapped, vec![0, 2, 3]);
    for (i, id) in res.sync.chan_mapping.iter().enumerate() {
        let dev = &image.comm.channels[*id as usize];
        assert_eq!(dev.work_fifo_done, 80_000 + i * WORK_DONE_SIZE);
        assert_eq!(dev.peers, 50_000 + i);
        assert_eq!(dev.ring.user_ranks, 60_000 + i);
        assert_eq!(dev.ring.prev, 2);
        assert_eq!(dev.ring.next, 1);
        assert_eq!(dev.ring.index, *id as i32 * 1000);
    }
}

#[test]
fn unused_channels_are_zero() {
    let (_, image) = describe(&[0, 2]);
    assert_eq!(image.comm.channels.len(), 4);
    for id in [1, 3] {
        let dev = &image.comm.channels[id];
        assert_eq!(dev.peers, 0);
        assert_eq!(dev.ring.prev, 0);
        assert_eq!(dev.ring.next, 0);
        assert_eq!(dev.ring.user_ranks, 0);
        assert_eq!(dev.ring.index, 0);
        assert_eq!(dev.work_fifo_done, 0);
    }
}

#[test]
fn peers_are_described_by_rank_and_connection() {
    let (res, image) = describe(&[2, 0]);
    for (i, id) in res.sync.chan_mapping.iter().enumerate() {
        let base = *id as usize * 1000;
        let chan = &image.chan_images[i];
        assert_eq!(chan.ring_user_ranks, vec![0, 1, 2]);
        assert_eq!(chan.peers.len(), 3);
        for rank in [0, 2] {
            assert_eq!(chan.peers[rank].send.len(), 2);
            assert!(chan.peers[rank].send.iter().all(is_zero));
            assert!(chan.peers[rank].recv.iter().all(is_zero));
        }
        let peer = &chan.peers[1];
        assert!(is_zero(&peer.send[0]));
        assert_eq!(peer.send[1].buffs, [base + 100]);
        assert_eq!(peer.send[1].sizes_fifo, base + 103);
        assert_eq!(peer.recv[0].tail, base + 202);
        assert_eq!(peer.recv[0].sizes_fifo, 0);
        assert!(is_zero(&peer.recv[1]));
    }
}

#[test]
fn communicator_without_channels() {
    let (res, image) = describe(&[]);
    assert!(res.sync.chan_mapping.is_empty());
    assert!(res.chan_storage.is_empty());
    assert!(image.chan_images.is_empty());
    assert_eq!(image.comm.channels.len(), 4);
}

#[test]
fn channels_that_do_not_fit_are_found() {
    let fits = |id: u32, change: fn(&mut CommChannel)| {
        let mut chan = channel(1000);
        change(&mut chan);
        let mut channels = HashMap::new();
        channels.insert(id, chan);
        check_channels(&channels, 3, LIMITS)
    };
    assert!(fits(3, |_| ()));
    assert!(!fits(4, |_| ()));
    assert!(!fits(0, |chan| {
        chan.ring.user_ranks.pop();
    }));
    assert!(!fits(0, |chan| {
        let peer = chan.peers.remove(&1).unwrap();
        chan.peers.insert(3, peer);
    }));
    assert!(!fits(0, |chan| {
        chan.peers.get_mut(&1).unwrap().send.insert(2, connector(9, false));
    }));
    assert!(!fits(0, |chan| {
        chan.peers.get_mut(&1).unwrap().recv.insert(2, connector(9, false));
    }));
}
