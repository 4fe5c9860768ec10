use mccs::comm::CommunicatorId;
use mccs::control::local_host;
use mccs::control::selftest::{
    check_data, initialize_test_region, start_test_proxy, Action, Buffers, Event, Failure, Job,
    SelfTest, Step, TestBed,
};
use mccs::proxy::{
    AllGather, InitCommunicator, ProxyCommand, ProxyCompletion, ProxyResources,
    ProxyTypes,
};
use mccs::registry::GlobalRegistry;
use mccs::transport::transporter::{TaskPoll, TransportAgentId, Transporter};
use mccs::utils::duplex_chan::{ChannelIds, Polled};

#[derive(Clone, Copy)]
struct NoTransport;

impl Transporter for NoTransport {
    type Message = ();
    type Resources = ();
    type Catalog = ();
    type Task = ();

    fn agent_send_setup(&self, _id: TransportAgentId, _request: (), _catalog: &()) {}

    fn agent_recv_setup(&self, _id: TransportAgentId, _request: (), _catalog: &()) {}

    fn agent_send_connect(&self, _id: TransportAgentId, _request: (), _left: Option<()>) {}

    fn agent_recv_connect(&self, _id: TransportAgentId, _request: (), _left: Option<()>) {}

    fn poll(&self, _task: &mut ()) -> TaskPoll<(), ()> {
        TaskPoll::Pending
    }
}

struct Types;

impl ProxyTypes for Types {
    type ControlRequest = u8;
    type PeerMessage = u8;
    type CommInfo = ();
    type Delegator = u64;
    type CommInit = ();
    type Communicator = ();
    type Transport = NoTransport;
    type TransportOp = ();
}

fn job(id: u32) -> Job {
    Job {
        communicator_id: CommunicatorId(id),
        buffer_size: 16,
        first_content: 11,
        second_content: 22,
    }
}

/// Does what a run asks for as two devices would, and returns how it ended.
fn run(test: &mut SelfTest, spoil: bool) -> Result<Vec<Step>, Failure> {
    let mut steps = Vec::new();
    let mut memory: Vec<Vec<i32>> = Vec::new();
    let mut asked_last = ProxyCompletion::InitCommunicator;
    loop {
        steps.push(test.next_step());
        let event = match test.next_action() {
            Action::Send { command, .. } => {
                asked_last = match command {
                    ProxyCommand::InitCommunicator(_) => ProxyCompletion::InitCommunicator,
                    ProxyCommand::AllGather(_) => ProxyCompletion::AllGather,
                };
                Event::Sent
            }
            Action::Await { .. } => Event::Report(Polled::Message(asked_last)),
            Action::Prepare { first, second, .. } => {
                let half = first.len() / 2;
                let mut gathered = Vec::new();
                gathered.extend_from_slice(&first[..half]);
                gathered.extend_from_slice(&second[half..]);
                memory.push(if spoil { second } else { gathered });
                Event::Prepared(Buffers { first: 0x1000, second: 0x2000 })
            }
            Action::ReadBack { job, .. } => Event::Data(memory[job].clone()),
            Action::Finish => return Ok(steps),
        };
        test.advance(event)?;
    }
}

#[test]
fn regions_hold_each_ranks_half() {
    let (first, second) = initialize_test_region(&job(0));
    assert_eq!(first, vec![11, 11, 0, 0]);
    assert_eq!(second, vec![0, 0, 22, 22]);
}

#[test]
fn empty_regions_hold_nothing() {
    let empty = Job { buffer_size: 0, ..job(0) };
    let (first, second) = initialize_test_region(&empty);
    assert!(first.is_empty());
    assert!(second.is_empty());
    assert!(!check_data(&empty, &first));
}

#[test]
fn data_is_checked_at_the_start_of_each_half() {
    assert!(check_data(&job(0), &vec![11, 0, 22, 0]));
    assert!(!check_data(&job(0), &vec![0, 11, 22, 22]));
    assert!(!check_data(&job(0), &vec![11, 11, 0, 22]));
    assert!(!check_data(&job(0), &vec![11, 11]));
    assert!(!check_data(&job(0), &vec![]));
}

#[test]
fn prepared_data_alone_does_not_pass() {
    let (first, second) = initialize_test_region(&job(0));
    assert!(!check_data(&job(0), &first));
    assert!(!check_data(&job(0), &second));
}

#[test]
fn gathered_data_passes_the_check() {
    let (first, second) = initialize_test_region(&job(0));
    let mut gathered = first[..2].to_vec();
    gathered.extend_from_slice(&second[2..]);
    assert!(check_data(&job(0), &gathered));
}

#[test]
fn short_run_has_one_job() {
    let test = SelfTest::test();
    assert_eq!(test.at, 0);
    assert_eq!(
        test.jobs,
        vec![Job {
            communicator_id: CommunicatorId(0),
            buffer_size: 1024 * 1024 * 512,
            first_content: 1883,
            second_content: 2042,
        }]
    );
}

#[test]
fn long_run_has_two_jobs() {
    let test = SelfTest::test2();
    assert_eq!(
        test.jobs,
        vec![
            Job {
                communicator_id: CommunicatorId(0),
                buffer_size: 1024 * 1024 * 1024 * 2,
                first_content: 1883,
                second_content: 2042,
            },
            Job {
                communicator_id: CommunicatorId(1),
                buffer_size: 1024 * 1024 * 1024 * 4,
                first_content: 2049,
                second_content: 40999,
            },
        ]
    );
}

#[test]
fn steps_of_two_jobs_come_in_order() {
    let mut test = SelfTest::new(vec![job(0), job(1)]);
    let steps = run(&mut test, false).unwrap();
    assert_eq!(
        steps,
        vec![
            Step::Init { job: 0, rank: 0 },
            Step::Init { job: 0, rank: 1 },
            Step::AwaitInit { job: 0, rank: 0 },
            Step::AwaitInit { job: 0, rank: 1 },
            Step::Init { job: 1, rank: 0 },
            Step::Init { job: 1, rank: 1 },
            Step::AwaitInit { job: 1, rank: 0 },
            Step::AwaitInit { job: 1, rank: 1 },
            Step::Prepare { job: 0 },
            Step::Prepare { job: 1 },
            Step::Gather { job: 0, rank: 0 },
            Step::Gather { job: 0, rank: 1 },
            Step::Gather { job: 1, rank: 0 },
            Step::Gather { job: 1, rank: 1 },
            Step::AwaitGather { job: 0, rank: 0 },
            Step::AwaitGather { job: 0, rank: 1 },
            Step::AwaitGather { job: 1, rank: 0 },
            Step::AwaitGather { job: 1, rank: 1 },
            Step::Check { job: 0 },
            Step::Check { job: 1 },
            Step::Done,
        ]
    );
    assert_eq!(test.at, 20);
}

#[test]
fn commands_of_a_job() {
    let mut test = SelfTest::new(vec![job(6)]);
    let mut commands = Vec::new();
    loop {
        let event = match test.next_action() {
            Action::Send { rank, command, .. } => {
                commands.push((rank, command));
                Event::Sent
            }
            Action::Await { .. } if commands.len() <= 2 => {
                Event::Report(Polled::Message(ProxyCompletion::InitCommunicator))
            }
            Action::Await { .. } => Event::Report(Polled::Message(ProxyCompletion::AllGather)),
            Action::Prepare { bytes, .. } => {
                assert_eq!(bytes, 16);
                Event::Prepared(Buffers { first: 0x1000, second: 0x2000 })
            }
            Action::ReadBack { address, bytes, job } => {
                assert_eq!((address, bytes, job), (0x2000, 16, 0));
                Event::Data(vec![11, 11, 22, 22])
            }
            Action::Finish => break,
        };
        assert_eq!(test.advance(event), Ok(()));
    }
    let init = |rank: usize| {
        ProxyCommand::InitCommunicator(InitCommunicator {
            communicator_id: CommunicatorId(6),
            rank,
            num_ranks: 2,
        })
    };
    let gather = |send: u64, recv: u64| {
        ProxyCommand::AllGather(AllGather {
            communicator_id: CommunicatorId(6),
            send_buf_addr: send,
            recv_buf_addr: recv,
            size: 8,
        })
    };
    assert_eq!(
        commands,
        vec![
            (0, init(0)),
            (1, init(1)),
            (0, gather(0x1000, 0x1000)),
            (1, gather(0x2008, 0x2000)),
        ]
    );
}

#[test]
fn wrong_data_fails_the_run() {
    let mut test = SelfTest::new(vec![job(0)]);
    assert_eq!(run(&mut test, true), Err(Failure::WrongData));
    assert_eq!(test.next_step(), Step::Check { job: 0 });
}

#[test]
fn wrong_reports_fail_the_run() {
    let mut test = SelfTest::new(vec![job(0)]);
    assert_eq!(test.advance(Event::Sent), Ok(()));
    assert_eq!(test.advance(Event::Sent), Ok(()));
    assert_eq!(
        test.advance(Event::Report(Polled::Message(ProxyCompletion::AllGather))),
        Err(Failure::WrongReport)
    );
    assert_eq!(
        test.advance(Event::Report(Polled::Disconnected)),
        Err(Failure::WrongReport)
    );
    assert_eq!(test.at, 2);
    assert_eq!(
        test.advance(Event::Report(Polled::Message(ProxyCompletion::InitCommunicator))),
        Ok(())
    );
}

#[test]
fn buffers_without_an_address_for_the_second_half_fail_the_run() {
    let mut test = SelfTest::new(vec![job(0)]);
    test.at = 4;
    let bad = Buffers { first: 0, second: u64::MAX - 7 };
    assert_eq!(test.advance(Event::Prepared(bad)), Err(Failure::BadBuffers));
    let good = Buffers { first: u64::MAX, second: u64::MAX - 8 };
    assert_eq!(test.advance(Event::Prepared(good)), Ok(()));
    assert_eq!(test.advance(Event::Sent), Ok(()));
    match test.next_action() {
        Action::Send { rank: 1, command: ProxyCommand::AllGather(gather), .. } => {
            assert_eq!(gather.send_buf_addr, u64::MAX);
            assert_eq!(gather.recv_buf_addr, u64::MAX - 8);
        }
        _ => panic!("wrong action"),
    }
}

#[test]
fn events_out_of_place_fail_the_run() {
    let mut test = SelfTest::new(vec![job(0)]);
    assert_eq!(test.advance(Event::Data(vec![])), Err(Failure::WrongEvent));
    assert_eq!(test.at, 0);
    let mut empty = SelfTest::new(vec![]);
    assert_eq!(empty.next_step(), Step::Done);
    assert!(matches!(empty.next_action(), Action::Finish));
    assert_eq!(empty.advance(Event::Sent), Err(Failure::WrongEvent));
}

#[test]
fn test_bed_connects_daemons_and_proxies() {
    let mut bed: TestBed<Types> = TestBed::test2(7);
    assert_eq!(bed.proxies.len(), 2);
    for dev in 0..2usize {
        assert_eq!(bed.proxies[dev].device_info.cuda_device_idx, dev as i32);
        assert_eq!(bed.proxies[dev].device_info.host, local_host());
        assert_eq!(bed.proxies[dev].global_registry.transport_delegator, 7);
        assert!(bed.proxies[dev].global_registry.communicators.is_empty());
        assert_eq!(bed.proxies[dev].daemon_tx.len(), 2);
        assert_eq!(bed.daemons[dev].len(), 2);
        for j in 0..2usize {
            assert_eq!(bed.proxies[dev].daemon_rx[j].0, j as u64);
            let command = ProxyCommand::InitCommunicator(InitCommunicator {
                communicator_id: CommunicatorId(j as u32),
                rank: dev,
                num_ranks: 2,
            });
            assert!(bed.daemons[dev][j].tx.send(command).is_ok());
            match bed.proxies[dev].daemon_rx[j].1.try_recv() {
                Polled::Message(got) => assert_eq!(got, command),
                _ => panic!("the command did not arrive"),
            }
            let tx = bed.proxies[dev].daemon_tx.get_mut(&(j as u64)).unwrap();
            assert!(tx.send(ProxyCompletion::AllGather).is_ok());
            match bed.daemons[dev][j].rx.try_recv() {
                Polled::Message(got) => assert_eq!(got, ProxyCompletion::AllGather),
                _ => panic!("the report did not arrive"),
            }
        }
    }
}

#[test]
fn test_bed_connects_each_proxy_with_all() {
    let mut bed: TestBed<Types> = TestBed::test(7);
    for from in 0..2usize {
        for to in 0..2usize {
            assert!(bed.proxies[from].proxy_peer_tx[to].send(from as u8).is_ok());
        }
    }
    for to in 0..2usize {
        assert!(matches!(bed.proxies[to].proxy_peer_rx.try_recv(), Polled::Message(0)));
        assert!(matches!(bed.proxies[to].proxy_peer_rx.try_recv(), Polled::Message(1)));
        assert!(matches!(bed.proxies[to].proxy_peer_rx.try_recv(), Polled::Empty));
    }
}

#[test]
fn short_test_bed_keeps_the_control_sides() {
    let mut bed: TestBed<Types> = TestBed::test(7);
    assert_eq!(bed.daemons[0].len(), 1);
    assert_eq!(bed.controls.len(), 2);
    for dev in 0..2usize {
        assert!(matches!(bed.proxies[dev].control_chan.rx.try_recv(), Polled::Empty));
        assert!(bed.proxies[dev].control_chan.tx.send(dev as u8).is_ok());
        match bed.controls[dev].rx.try_recv() {
            Polled::Message(request) => assert_eq!(request, dev as u8),
            _ => panic!("the request did not arrive"),
        }
    }
}

#[test]
fn long_test_bed_has_nobody_at_the_control_sides() {
    let mut bed: TestBed<Types> = TestBed::test2(7);
    assert!(bed.controls.is_empty());
    for dev in 0..2usize {
        assert_eq!(bed.proxies[dev].control_chan.tx.send(1), Err(1));
        assert!(matches!(bed.proxies[dev].control_chan.rx.try_recv(), Polled::Disconnected));
    }
}

#[test]
fn test_proxy_takes_its_channels() {
    let mut ids = ChannelIds::new();
    let (mut peer_tx, peer_rx) = ids.open();
    let mut proxy: ProxyResources<Types> = start_test_proxy(
        &mut ids,
        5,
        local_host(),
        std::collections::HashMap::new(),
        vec![],
        vec![],
        peer_rx,
        GlobalRegistry::new(9),
    );
    assert_eq!(proxy.device_info.cuda_device_idx, 5);
    assert_eq!(proxy.global_registry.transport_delegator, 9);
    assert!(proxy.daemon_tx.is_empty());
    assert!(peer_tx.send(3).is_ok());
    assert!(matches!(proxy.proxy_peer_rx.try_recv(), Polled::Message(3)));
    assert_eq!(proxy.control_chan.tx.send(1), Err(1));
    assert!(matches!(proxy.control_chan.rx.try_recv(), Polled::Disconnected));
}
