use std::collections::HashSet;

use mccs::comm::{CommunicatorId, HostIdent, IpAddress, SocketAddress};
use mccs::control::{
    after_announcement, after_recv, before_recv, create_proxies, instance_name, local_host,
    received, Control, ControlConfig, DispatchError, LoopStep, RecvOutcome, Refusal,
};
use mccs::daemon::engine::DaemonTypes;
use mccs::exchange::command::{ExchangeCommand, ExchangeNotification};
use mccs::proxy::{
    ControlCommand, InitCommunicator, ProxyCommand, ProxyCompletion, ProxyResources, ProxyTypes,
};
use mccs::registry::{shm_transport_config, GlobalRegistry};
use mccs::transport::catalog::TransportCatalog;
use mccs::transport::shm::config::{ShmConfig, ShmLocality};
use mccs::transport::transporter::{TaskPoll, TransportAgentId, Transporter};
use mccs::utils::duplex_chan::{ChannelIds, DuplexChannel, Polled};

#[derive(Clone, Copy)]
struct NoTransport;

impl Transporter for NoTransport {
    type Message = ();
    type Resources = ();
    type Catalog = ();
    type Task = ();

    fn agent_send_setup(&self, _id: TransportAgentId, _request: (), _catalog: &()) {}

    fn agent_recv_setup(&self, _id: TransportAgentId, _request: (), _catalog: &()) {}

    fn agent_send_connect(&self, _id: TransportAgentId, _request: (), _left: Option<()>) {}

    fn agent_recv_connect(&self, _id: TransportAgentId, _request: (), _left: Option<()>) {}

    fn poll(&self, _task: &mut ()) -> TaskPoll<(), ()> {
        TaskPoll::Pending
    }
}

struct Types;

impl ProxyTypes for Types {
    type ControlRequest = u8;
    type PeerMessage = (i32, i32);
    type CommInfo = ();
    type Delegator = u64;
    type CommInit = ();
    type Communicator = ();
    type Transport = NoTransport;
    type TransportOp = ();
}

impl DaemonTypes for Types {
    type Customer = &'static str;
    type MemoryHandle = u64;
    type DeviceMemory = u64;
    type CommHandle = u32;
    type Delegation = i32;
}

fn control(devices: i32) -> (Control<Types>, Vec<ProxyResources<Types>>) {
    let config = ControlConfig { mccs_daemon_basename: String::from("mccs-daemon") };
    Control::new(config, 7, devices)
}

#[test]
fn loop_sees_to_messages_with_a_credential_only() {
    for exiting in [false, true] {
        assert_eq!(
            after_recv(RecvOutcome::Received { credential: true }, exiting),
            LoopStep::Dispatch
        );
        assert_eq!(
            after_recv(RecvOutcome::Received { credential: false }, exiting),
            LoopStep::Listen
        );
        assert_eq!(after_recv(RecvOutcome::WouldBlock, exiting), LoopStep::Listen);
    }
}

#[test]
fn loop_listens_until_told_to_stop() {
    assert!(before_recv(false));
    assert!(!before_recv(true));
}

#[test]
fn messages_with_a_credential_are_dispatched_in_order() {
    let outcomes = [
        RecvOutcome::Received { credential: true },
        RecvOutcome::WouldBlock,
        RecvOutcome::Received { credential: false },
        RecvOutcome::Failed,
        RecvOutcome::Received { credential: true },
        RecvOutcome::Failed,
        RecvOutcome::Received { credential: true },
    ];
    let mut dispatched = Vec::new();
    for (i, outcome) in outcomes.into_iter().enumerate() {
        let exiting = i == 5;
        match after_recv(outcome, exiting) {
            LoopStep::Dispatch => dispatched.push(i),
            LoopStep::Listen => {}
            LoopStep::Stop => break,
        }
    }
    assert_eq!(dispatched, vec![0, 4]);
}

#[test]
fn announcement_decides_over_the_daemon() {
    assert_eq!(after_announcement(2, Ok(())), Ok(()));
    let mut ids = ChannelIds::new();
    let (_daemon_side, chan) = DuplexChannel::new_unbound_pair(&mut ids);
    let back = Err(ControlCommand::NewDaemon { id: 0, chan });
    assert_eq!(after_announcement(2, back), Err(DispatchError::ProxyGone(2)));
}

#[test]
fn daemons_are_named_in_turn_whatever_fails_in_between() {
    let (mut control, proxies) = control(1);
    let mut names = Vec::new();
    control.daemon_cnt = 5;
    for accepted in [Ok("a"), Err(2), Ok("b"), Err(4), Err(5), Ok("c")] {
        if let Ok(daemon) = control.client_accepted::<Types, i32>(accepted) {
            names.push((daemon.id, daemon.customer));
        }
    }
    assert_eq!(names, vec![(5, "a"), (6, "b"), (7, "c")]);
    drop(proxies);
    assert!(control.client_accepted::<Types, i32>(Ok("d")).is_err());
    assert_eq!(control.daemon_cnt, 8);
}

#[test]
fn loop_stops_at_a_failure_only_when_told_to() {
    assert_eq!(after_recv(RecvOutcome::Failed, false), LoopStep::Listen);
    assert_eq!(after_recv(RecvOutcome::Failed, true), LoopStep::Stop);
}

#[test]
fn proxies_start_idle_on_their_devices() {
    let (control, proxies) = control(3);
    assert_eq!(control.daemon_cnt, 0);
    assert_eq!(control.proxy_channels.len(), 3);
    assert_eq!(proxies.len(), 3);
    for (dev, proxy) in proxies.iter().enumerate() {
        assert_eq!(proxy.device_info.cuda_device_idx, dev as i32);
        assert_eq!(proxy.device_info.host, local_host());
        assert_eq!(proxy.global_registry.transport_delegator, 7);
        assert!(proxy.global_registry.communicators.is_empty());
        assert!(std::sync::Arc::ptr_eq(&proxy.global_registry, &proxies[0].global_registry));
        assert!(proxy.daemon_tx.is_empty());
        assert!(proxy.daemon_rx.is_empty());
        assert!(proxy.comms_init.is_empty());
        assert!(proxy.communicators.is_empty());
        assert!(proxy.transport_engines_tx.is_empty());
        assert!(proxy.transport_engines_rx.is_empty());
        assert!(proxy.transport_submission_pool.is_empty());
        assert_eq!(proxy.proxy_peer_tx.len(), 2);
    }
}

#[test]
fn local_host_is_the_loopback_address() {
    assert_eq!(
        local_host(),
        HostIdent(SocketAddress { ip: IpAddress::V4(0x7f000001), port: 8000 })
    );
}

#[test]
fn shared_memory_transport_is_registered_for_the_sender() {
    let (name, config) = shm_transport_config();
    assert_eq!(name, "ShmTransport");
    assert_eq!(config.locality, ShmLocality::Sender);
    assert!(!config.use_memcpy_send);
    assert!(!config.use_memcpy_recv);
}

#[test]
fn registry_starts_without_communicators_and_with_shared_memory() {
    let registry = GlobalRegistry::<(), u8>::new(3);
    assert_eq!(registry.transport_delegator, 3);
    assert_eq!(registry.communicators.len(), 0);
    let config = registry.transport_catalog.get_config(&String::from("ShmTransport")).unwrap();
    assert_eq!(config.locality, ShmLocality::Sender);
    assert!(!config.use_memcpy_send);
    assert!(!config.use_memcpy_recv);
    assert!(registry.transport_catalog.get_config(&String::from("NetTransport")).is_none());
}

#[test]
fn catalog_finds_the_latest_configuration_under_a_name() {
    let config = |send: bool| ShmConfig {
        locality: ShmLocality::Receiver,
        use_memcpy_send: send,
        use_memcpy_recv: false,
    };
    let mut catalog = TransportCatalog::new();
    assert_eq!(catalog.get_config(&String::from("a")), None);
    catalog.register_config(String::from("a"), config(false));
    catalog.register_config(String::from("b"), config(false));
    catalog.register_config(String::from("a"), config(true));
    assert_eq!(catalog.get_config(&String::from("a")), Some(config(true)));
    assert_eq!(catalog.get_config(&String::from("b")), Some(config(false)));
    assert_eq!(catalog.get_config(&String::from("c")), None);
}

#[test]
fn received_message_is_what_the_buffer_begins_with() {
    let buf = vec![1u8, 2, 3, 9, 9];
    assert_eq!(received(&buf, 3), &[1u8, 2, 3][..]);
    assert!(received(&buf, 0).is_empty());
    assert_eq!(received(&buf, 5).len(), 5);
}

#[test]
fn each_proxy_reaches_each_other_proxy_once() {
    let (_control, mut proxies) = control(4);
    for from in 0..4usize {
        for k in 0..3usize {
            assert!(proxies[from].proxy_peer_tx[k].send((from as i32, k as i32)).is_ok());
        }
    }
    for to in 0..4usize {
        let mut senders = HashSet::new();
        for _ in 0..3 {
            match proxies[to].proxy_peer_rx.try_recv() {
                Polled::Message((from, k)) => {
                    assert_ne!(from, to as i32);
                    let expected = if (to as i32) < from { to as i32 } else { to as i32 - 1 };
                    assert_eq!(k, expected);
                    senders.insert(from);
                }
                _ => panic!("a message is missing"),
            }
        }
        assert_eq!(senders.len(), 3);
        assert!(matches!(proxies[to].proxy_peer_rx.try_recv(), Polled::Empty));
    }
}

#[test]
fn a_single_proxy_has_no_peers() {
    let (_control, proxies) = control(1);
    assert!(proxies[0].proxy_peer_tx.is_empty());
}

#[test]
fn a_host_without_devices_has_no_proxies() {
    let (mut control, proxies) = control(0);
    assert!(proxies.is_empty());
    let links = control.register_daemon().unwrap();
    assert_eq!(links.id, 0);
    assert!(links.proxy_chan.is_empty());
}

#[test]
fn control_and_proxies_are_connected_pairwise() {
    let mut ids = ChannelIds::new();
    let host = local_host();
    let (mut channels, mut proxies): (Vec<DuplexChannel<ControlCommand, u8>>, Vec<ProxyResources<Types>>) =
        create_proxies(&mut ids, &GlobalRegistry::new(1), host, 2);
    assert!(proxies[1].control_chan.tx.send(5).is_ok());
    assert!(matches!(channels[0].rx.try_recv(), Polled::Empty));
    assert!(matches!(channels[1].rx.try_recv(), Polled::Message(5)));
    let (_daemon_side, proxy_side) = DuplexChannel::new_unbound_pair(&mut ids);
    assert!(channels[0].tx.send(ControlCommand::NewDaemon { id: 3, chan: proxy_side }).is_ok());
    assert!(matches!(proxies[1].control_chan.rx.try_recv(), Polled::Empty));
    match proxies[0].control_chan.rx.try_recv() {
        Polled::Message(ControlCommand::NewDaemon { id, .. }) => assert_eq!(id, 3),
        _ => panic!("no command"),
    }
}

fn is_uuid_v4(text: &str) -> bool {
    let bytes = text.as_bytes();
    bytes.len() == 36
        && bytes.iter().enumerate().all(|(i, b)| match i {
            8 | 13 | 18 | 23 => *b == b'-',
            14 => *b == b'4',
            19 => b"89ab".contains(b),
            _ => b"0123456789abcdef".contains(b),
        })
}

#[test]
fn clients_get_a_daemon_name_of_their_own() {
    let (control, _proxies) = control(1);
    let mut names = HashSet::new();
    for _ in 0..20 {
        let (path, name) = control.new_client(Some("/tmp/client.sock")).unwrap();
        assert_eq!(path, "/tmp/client.sock");
        let uuid = name.strip_prefix("mccs-daemon-").unwrap().strip_suffix(".sock").unwrap();
        assert!(is_uuid_v4(uuid), "{}", uuid);
        names.insert(name);
    }
    assert_eq!(names.len(), 20);
}

#[test]
fn daemon_names_are_put_together() {
    assert_eq!(instance_name("base", "1-2"), "base-1-2.sock");
}

#[test]
fn unnamed_clients_are_refused() {
    let (control, _proxies) = control(1);
    let refused: Result<(&str, String), DispatchError> = control.new_client(None);
    assert_eq!(refused, Err(DispatchError::UnnamedPeer));
    assert_eq!(
        DispatchError::UnnamedPeer.message(),
        "peer is unnamed, something is wrong"
    );
}

#[test]
fn a_daemon_is_connected_with_every_proxy() {
    let (mut control, mut proxies) = control(2);
    for expected in 0..2u64 {
        let mut links = control.register_daemon().unwrap();
        assert_eq!(links.id, expected);
        assert_eq!(control.daemon_cnt, expected + 1);
        assert_eq!(links.proxy_chan.len(), 2);
        for dev in 0..2usize {
            let mut chan = match proxies[dev].control_chan.rx.try_recv() {
                Polled::Message(ControlCommand::NewDaemon { id, chan }) => {
                    assert_eq!(id, expected);
                    chan
                }
                _ => panic!("the proxy was not told"),
            };
            let command = ProxyCommand::InitCommunicator(InitCommunicator {
                communicator_id: CommunicatorId(9),
                rank: dev,
                num_ranks: 2,
            });
            assert!(links.proxy_chan[dev].tx.send(command).is_ok());
            match chan.rx.try_recv() {
                Polled::Message(got) => assert_eq!(got, command),
                _ => panic!("the command did not arrive"),
            }
            assert!(chan.tx.send(ProxyCompletion::InitCommunicator).is_ok());
            match links.proxy_chan[dev].rx.try_recv() {
                Polled::Message(got) => assert_eq!(got, ProxyCompletion::InitCommunicator),
                _ => panic!("the report did not arrive"),
            }
        }
    }
}

#[test]
fn two_daemons_share_no_channel() {
    let (mut control, mut proxies) = control(1);
    let mut first = control.register_daemon().unwrap();
    let mut second = control.register_daemon().unwrap();
    assert_ne!(first.id, second.id);
    let mut ends = Vec::new();
    for _ in 0..2 {
        match proxies[0].control_chan.rx.try_recv() {
            Polled::Message(ControlCommand::NewDaemon { chan, .. }) => ends.push(chan),
            _ => panic!("the proxy was not told"),
        }
    }
    assert!(ends[1].tx.send(ProxyCompletion::AllGather).is_ok());
    assert!(matches!(first.proxy_chan[0].rx.try_recv(), Polled::Empty));
    assert!(matches!(
        second.proxy_chan[0].rx.try_recv(),
        Polled::Message(ProxyCompletion::AllGather)
    ));
}

#[test]
fn a_proxy_that_is_gone_refuses_the_daemon() {
    let (mut control, mut proxies) = control(3);
    drop(proxies.remove(1));
    let refused = control.register_daemon();
    assert!(matches!(refused, Err(DispatchError::ProxyGone(1))));
    assert_eq!(control.daemon_cnt, 0);
    assert!(matches!(
        proxies[0].control_chan.rx.try_recv(),
        Polled::Message(ControlCommand::NewDaemon { id: 0, .. })
    ));
    assert!(matches!(proxies[1].control_chan.rx.try_recv(), Polled::Empty));
    assert_eq!(DispatchError::ProxyGone(12).message(), "no proxy for device 12");
}

#[test]
fn an_accepted_client_gets_a_daemon() {
    let (mut control, mut proxies) = control(1);
    let accepted: Result<&str, u8> = Ok("customer");
    match control.client_accepted::<Types, u8>(accepted) {
        Ok(daemon) => {
            assert_eq!(daemon.customer, "customer");
            assert_eq!(daemon.id, 0);
            assert_eq!(daemon.proxy_chan.len(), 1);
            assert!(daemon.device_mem.is_empty());
            assert!(daemon.comm_delegation.is_empty());
        }
        Err(_) => panic!("the client was refused"),
    }
    assert_eq!(control.daemon_cnt, 1);
    assert!(matches!(
        proxies[0].control_chan.rx.try_recv(),
        Polled::Message(ControlCommand::NewDaemon { id: 0, .. })
    ));
}

#[test]
fn a_client_that_is_not_accepted_leaves_no_trace() {
    let (mut control, mut proxies) = control(1);
    let accepted: Result<&str, u8> = Err(4);
    assert!(matches!(control.client_accepted::<Types, u8>(accepted), Err(Refusal::NotAccepted(4))));
    assert_eq!(control.daemon_cnt, 0);
    assert!(matches!(proxies[0].control_chan.rx.try_recv(), Polled::Empty));
    drop(proxies);
    let accepted: Result<&str, u8> = Ok("customer");
    assert!(matches!(
        control.client_accepted::<Types, u8>(accepted),
        Err(Refusal::NotConnected(DispatchError::ProxyGone(0)))
    ));
}

#[test]
fn exchange_engine_is_told_where_to_look() {
    let addr = SocketAddress { ip: IpAddress::V6(1), port: 80 };
    let commands = vec![
        ExchangeCommand::RegisterBootstrapHandle(CommunicatorId(1), "handle"),
        ExchangeCommand::RecvBootstrapHandle(CommunicatorId(2), addr),
        ExchangeCommand::RemoveCommunicator(CommunicatorId(3)),
    ];
    assert!(matches!(
        commands[0],
        ExchangeCommand::RegisterBootstrapHandle(CommunicatorId(1), "handle")
    ));
    match &commands[1] {
        ExchangeCommand::RecvBootstrapHandle(id, at) => {
            assert_eq!(*id, CommunicatorId(2));
            assert_eq!(*at, addr);
        }
        _ => panic!("wrong command"),
    }
    assert!(matches!(commands[2], ExchangeCommand::RemoveCommunicator(CommunicatorId(3))));
    let answer = ExchangeNotification::RecvBootstrapHandle(CommunicatorId(2), "handle");
    assert!(!matches!(answer, ExchangeNotification::RegisterBootstrapHandle));
}
