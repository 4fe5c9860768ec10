use mccs::comm::CommunicatorId;
use mccs::transport::agents::AgentTable;
use mccs::transport::meta::{
    RecvBufMeta, SendBufMeta, CACHE_LINE_SIZE, COUNTER_PAD, EXCHANGE_PAD, WORD_SIZE,
};
use mccs::transport::transporter::{ConnType, PeerConnId, TransportAgentId};
use mccs::transport::{Protocol, DEFAULT_BUFFER_SIZE, NUM_BUFFER_SLOTS, NUM_PROTOCOLS};

fn agent(peer_rank: usize) -> TransportAgentId {
    TransportAgentId {
        communicator_id: CommunicatorId(3),
        client_rank: 0,
        client_cuda_dev: 1,
        peer_conn: PeerConnId { peer_rank, channel: 0, conn_index: 0, conn_type: ConnType::Recv },
    }
}

#[test]
fn constants_of_the_transports() {
    assert_eq!(NUM_BUFFER_SLOTS, 8);
    assert_eq!(NUM_PROTOCOLS, 1);
    assert_eq!(DEFAULT_BUFFER_SIZE, 1 << 22);
}

#[test]
fn protocols_have_places_in_tables() {
    assert_eq!(Protocol::Simple.index(), 0);
    assert!(Protocol::Simple.index() < NUM_PROTOCOLS);
}

#[test]
fn send_meta_starts_zeroed() {
    let meta = SendBufMeta::new();
    assert_eq!(meta.head, 0);
    assert_eq!(meta._pad1, [0; 120]);
    assert_eq!(meta._ptr_exchange, 0);
    assert_eq!(meta._reduce_op_arg_exchange, [0; 2]);
    assert_eq!(meta._pad2, [0; EXCHANGE_PAD]);
    assert_eq!(meta._slots_offsets, [0; 8]);
}

#[test]
fn recv_meta_starts_zeroed() {
    let meta = RecvBufMeta::new();
    assert_eq!(meta.tail, 0);
    assert_eq!(meta._pad1, [0; 120]);
    assert_eq!(meta.slots_sizes, [0; 8]);
    assert_eq!(meta._slots_offsets, [0; 8]);
    assert!(!meta._flush);
}

#[test]
fn paddings_fill_cache_lines() {
    assert_eq!(CACHE_LINE_SIZE, 128);
    assert_eq!(std::mem::size_of::<u64>(), WORD_SIZE);
    assert_eq!(COUNTER_PAD, CACHE_LINE_SIZE - std::mem::size_of::<u64>());
    assert_eq!(
        EXCHANGE_PAD,
        CACHE_LINE_SIZE - std::mem::size_of::<usize>() - 2 * std::mem::size_of::<u64>()
    );
}

#[test]
fn agent_table_keeps_one_value_under_each_name() {
    let mut table: AgentTable<&'static str> = AgentTable::new();
    assert_eq!(table.get(&agent(0)), None);
    table.insert(agent(0), "a");
    table.insert(agent(1), "b");
    assert_eq!(table.get(&agent(0)), Some(&"a"));
    table.insert(agent(0), "c");
    assert_eq!(table.get(&agent(0)), Some(&"c"));
    assert_eq!(table.get(&agent(1)), Some(&"b"));
    assert_eq!(table.remove(&agent(0)), Some("c"));
    assert_eq!(table.remove(&agent(0)), None);
    assert_eq!(table.get(&agent(1)), Some(&"b"));
}

#[test]
fn agent_table_tells_directions_apart() {
    let mut table: AgentTable<u8> = AgentTable::new();
    let mut sending = agent(0);
    sending.peer_conn.conn_type = ConnType::Send;
    table.insert(agent(0), 1);
    assert_eq!(table.get(&sending), None);
    table.insert(sending, 2);
    assert_eq!(table.get(&agent(0)), Some(&1));
    assert_eq!(table.remove(&sending), Some(2));
}
