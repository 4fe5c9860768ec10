use mccs::comm::CommunicatorId;
use mccs::transport::agents::AgentTable;
use mccs::transport::engine::{
    new_connect_task, new_setup_task, AsyncTask, AsyncTaskResult, EngineError, TaskStage,
    TransportEngine, TransportEngineId, TransportEngineResources,
};
use mccs::transport::message::{TransportEngineReply, TransportEngineRequest};
use mccs::transport::transporter::{
    ConnType, PeerConnId, TaskPoll, TransportAgentId, Transporter,
};
use mccs::utils::duplex_chan::{ChannelIds, DuplexChannel, Polled};
use mccs::utils::pool::WorkPool;

/// A transport whose work takes as many rounds as its catalog or its request says.
#[derive(Clone, Copy, Debug, PartialEq, Eq)]
struct Fake {
    tag: u8,
}

#[derive(Clone, Debug, PartialEq, Eq)]
struct Job {
    what: &'static str,
    rounds: u32,
    fails: bool,
    found: Option<String>,
    request: u32,
}

impl Transporter for Fake {
    type Message = u32;
    type Resources = String;
    type Catalog = u32;
    type Task = Job;

    fn agent_send_setup(&self, _id: TransportAgentId, request: u32, catalog: &u32) -> Job {
        Job { what: "send setup", rounds: *catalog, fails: request == 99, found: None, request }
    }

    fn agent_recv_setup(&self, _id: TransportAgentId, request: u32, catalog: &u32) -> Job {
        Job { what: "recv setup", rounds: *catalog, fails: request == 99, found: None, request }
    }

    fn agent_send_connect(&self, _id: TransportAgentId, request: u32, found: Option<String>) -> Job {
        Job { what: "send connect", rounds: 0, fails: request == 99, found, request }
    }

    fn agent_recv_connect(&self, _id: TransportAgentId, request: u32, found: Option<String>) -> Job {
        Job { what: "recv connect", rounds: 0, fails: request == 99, found, request }
    }

    fn poll(&self, task: &mut Job) -> TaskPoll<String, u32> {
        if task.rounds > 0 {
            task.rounds -= 1;
            TaskPoll::Pending
        } else if task.fails {
            TaskPoll::Failed
        } else {
            TaskPoll::Ready(format!("{} {}", task.what, task.request), task.request + 1)
        }
    }
}

type Proxy = DuplexChannel<TransportEngineRequest<Fake, u8>, TransportEngineReply<u32>>;

fn agent(dev: i32, peer_rank: usize, conn_type: ConnType) -> TransportAgentId {
    TransportAgentId {
        communicator_id: CommunicatorId(0),
        client_rank: 0,
        client_cuda_dev: dev,
        peer_conn: PeerConnId { peer_rank, channel: 0, conn_index: 0, conn_type },
    }
}

fn engine(proxies: usize, catalog: u32) -> (TransportEngine<Fake, u8>, Vec<Proxy>) {
    let mut ids = ChannelIds::new();
    let mut proxy_chan = Vec::new();
    let mut sides = Vec::new();
    for _ in 0..proxies {
        let (engine_side, proxy_side) = DuplexChannel::new_unbound_pair(&mut ids);
        proxy_chan.push(engine_side);
        sides.push(proxy_side);
    }
    let engine = TransportEngine {
        id: TransportEngineId { cuda_device_idx: 0, index: 0 },
        resources: TransportEngineResources {
            agent_setup: AgentTable::new(),
            agent_connected: AgentTable::new(),
            proxy_chan,
            transport_catalog: catalog,
        },
        async_tasks: WorkPool::new(),
        op_queue: WorkPool::new(),
    };
    (engine, sides)
}

fn heard(side: &mut Proxy) -> TransportEngineReply<u32> {
    match side.rx.try_recv() {
        Polled::Message(reply) => reply,
        _ => panic!("no reply"),
    }
}

fn silent(side: &mut Proxy) -> bool {
    matches!(side.rx.try_recv(), Polled::Empty)
}

#[test]
fn setup_goes_in_the_direction_of_the_connection() {
    let send = agent(0, 1, ConnType::Send);
    let task: AsyncTask<Fake> = new_setup_task(Fake { tag: 4 }, send, 10, &3);
    assert_eq!(task.agent_id, send);
    assert_eq!(task.transporter, Fake { tag: 4 });
    assert_eq!(task.stage, TaskStage::Setup);
    assert_eq!(task.task.what, "send setup");
    assert_eq!(task.task.rounds, 3);
    assert_eq!(task.task.request, 10);
    let recv = agent(0, 1, ConnType::Recv);
    let task: AsyncTask<Fake> = new_setup_task(Fake { tag: 4 }, recv, 10, &3);
    assert_eq!(task.task.what, "recv setup");
}

#[test]
fn connecting_goes_in_the_direction_of_the_connection() {
    let send = agent(0, 1, ConnType::Send);
    let left = Some(String::from("left"));
    let task: AsyncTask<Fake> = new_connect_task(Fake { tag: 4 }, send, 10, left.clone());
    assert_eq!(task.agent_id, send);
    assert_eq!(task.stage, TaskStage::Connect);
    assert_eq!(task.task.what, "send connect");
    assert_eq!(task.task.found, left);
    let recv = agent(0, 1, ConnType::Recv);
    let task: AsyncTask<Fake> = new_connect_task(Fake { tag: 4 }, recv, 10, None);
    assert_eq!(task.task.what, "recv connect");
    assert_eq!(task.task.found, None);
}

#[test]
fn each_proxy_is_asked_once_a_round() {
    let (mut engine, mut sides) = engine(2, 0);
    let a = agent(0, 1, ConnType::Send);
    let b = agent(1, 2, ConnType::Recv);
    let fake = Fake { tag: 0 };
    assert!(sides[0].tx.send(TransportEngineRequest::AgentSetup(fake, a, 1)).is_ok());
    assert!(sides[0].tx.send(TransportEngineRequest::AgentSetup(fake, a, 2)).is_ok());
    assert!(sides[1].tx.send(TransportEngineRequest::AgentSetup(fake, b, 3)).is_ok());
    assert_eq!(engine.check_proxy_requests(), Ok(()));
    let asked: Vec<u32> = engine.async_tasks.work.iter().map(|t| t.task.request).collect();
    assert_eq!(asked, vec![1, 3]);
    assert_eq!(engine.check_proxy_requests(), Ok(()));
    let asked: Vec<u32> = engine.async_tasks.work.iter().map(|t| t.task.request).collect();
    assert_eq!(asked, vec![1, 3, 2]);
    assert_eq!(engine.check_proxy_requests(), Ok(()));
    assert_eq!(engine.async_tasks.work.len(), 3);
}

#[test]
fn a_proxy_that_is_gone_stops_the_engine() {
    let (mut engine, mut sides) = engine(3, 0);
    let fake = Fake { tag: 0 };
    let a = agent(0, 1, ConnType::Send);
    assert!(sides[0].tx.send(TransportEngineRequest::AgentSetup(fake, a, 1)).is_ok());
    assert!(sides[2].tx.send(TransportEngineRequest::AgentSetup(fake, a, 2)).is_ok());
    drop(sides.remove(1));
    assert_eq!(engine.check_proxy_requests(), Err(EngineError::ProxyDisconnected(1)));
    assert_eq!(engine.async_tasks.work.len(), 1);
    assert_eq!(engine.async_tasks.work[0].task.request, 1);
}

#[test]
fn operations_over_connections_are_not_served() {
    let (mut engine, mut sides) = engine(1, 0);
    let a = agent(0, 1, ConnType::Send);
    assert!(sides[0].tx.send(TransportEngineRequest::AgentTransportOp(a, 5)).is_ok());
    assert_eq!(engine.check_proxy_requests(), Err(EngineError::TransportOpUnsupported(a)));
    assert_eq!(engine.async_tasks.work.len(), 0);
}

#[test]
fn work_goes_on_until_it_is_done() {
    let (mut engine, mut sides) = engine(1, 2);
    let a = agent(0, 1, ConnType::Send);
    let fake = Fake { tag: 7 };
    assert_eq!(engine.take_request(TransportEngineRequest::AgentSetup(fake, a, 10)), Ok(()));
    for _ in 0..2 {
        assert_eq!(engine.progress_async_tasks(), Ok(()));
        assert_eq!(engine.async_tasks.work.len(), 1);
        assert!(silent(&mut sides[0]));
    }
    assert_eq!(engine.progress_async_tasks(), Ok(()));
    assert_eq!(engine.async_tasks.work.len(), 0);
    match heard(&mut sides[0]) {
        TransportEngineReply::AgentSetup(id, message) => {
            assert_eq!(id, a);
            assert_eq!(message, 11);
        }
        _ => panic!("wrong reply"),
    }
    assert_eq!(engine.resources.agent_setup.get(&a), Some(&String::from("send setup 10")));
    assert!(engine.resources.agent_connected.get(&a).is_none());
}

#[test]
fn what_a_setup_left_serves_one_connect() {
    let (mut engine, mut sides) = engine(1, 0);
    let a = agent(0, 1, ConnType::Recv);
    let fake = Fake { tag: 7 };
    assert!(sides[0].tx.send(TransportEngineRequest::AgentSetup(fake, a, 10)).is_ok());
    assert_eq!(engine.round(), Ok(()));
    assert!(matches!(heard(&mut sides[0]), TransportEngineReply::AgentSetup(_, 11)));

    assert_eq!(engine.take_request(TransportEngineRequest::AgentConnect(fake, a, 20)), Ok(()));
    assert_eq!(engine.async_tasks.work[0].task.found, Some(String::from("recv setup 10")));
    assert!(engine.resources.agent_setup.get(&a).is_none());
    assert_eq!(engine.take_request(TransportEngineRequest::AgentConnect(fake, a, 30)), Ok(()));
    assert_eq!(engine.async_tasks.work[1].task.found, None);

    assert_eq!(engine.progress_async_tasks(), Ok(()));
    assert!(matches!(heard(&mut sides[0]), TransportEngineReply::AgentConnect(_, 21)));
    assert!(matches!(heard(&mut sides[0]), TransportEngineReply::AgentConnect(_, 31)));
    let connected = engine.resources.agent_connected.get(&a).unwrap();
    assert_eq!(connected.transporter, fake);
    assert_eq!(connected.agent_resources, "recv connect 30");
}

#[test]
fn replies_go_to_the_proxy_of_the_agents_device() {
    let (mut engine, mut sides) = engine(3, 0);
    let fake = Fake { tag: 0 };
    let a = agent(2, 1, ConnType::Send);
    let b = agent(1, 1, ConnType::Send);
    assert_eq!(engine.take_request(TransportEngineRequest::AgentSetup(fake, a, 1)), Ok(()));
    assert_eq!(engine.take_request(TransportEngineRequest::AgentSetup(fake, b, 2)), Ok(()));
    assert_eq!(engine.progress_async_tasks(), Ok(()));
    assert!(silent(&mut sides[0]));
    assert!(matches!(heard(&mut sides[1]), TransportEngineReply::AgentSetup(_, 3)));
    assert!(silent(&mut sides[1]));
    assert!(matches!(heard(&mut sides[2]), TransportEngineReply::AgentSetup(_, 2)));
    assert!(silent(&mut sides[2]));
}

#[test]
fn agents_do_not_disturb_each_other() {
    let (mut engine, _sides) = engine(1, 0);
    let fake = Fake { tag: 0 };
    let a = agent(0, 1, ConnType::Send);
    let b = agent(0, 2, ConnType::Send);
    engine.resources.agent_setup.insert(b, String::from("mine"));
    assert_eq!(engine.take_request(TransportEngineRequest::AgentSetup(fake, a, 1)), Ok(()));
    assert_eq!(engine.take_request(TransportEngineRequest::AgentConnect(fake, a, 2)), Ok(()));
    assert_eq!(engine.progress_async_tasks(), Ok(()));
    assert_eq!(engine.resources.agent_setup.get(&b), Some(&String::from("mine")));
    assert!(engine.resources.agent_connected.get(&b).is_none());
}

#[test]
fn failed_work_stops_the_engine_and_leaves_the_rest() {
    let (mut engine, mut sides) = engine(1, 0);
    let fake = Fake { tag: 0 };
    let a = agent(0, 1, ConnType::Send);
    let b = agent(0, 2, ConnType::Send);
    assert_eq!(engine.take_request(TransportEngineRequest::AgentSetup(fake, b, 5)), Ok(()));
    assert_eq!(engine.take_request(TransportEngineRequest::AgentSetup(fake, a, 99)), Ok(()));
    assert_eq!(engine.take_request(TransportEngineRequest::AgentSetup(fake, b, 6)), Ok(()));
    assert_eq!(engine.progress_async_tasks(), Err(EngineError::TaskFailed(a)));
    assert!(matches!(heard(&mut sides[0]), TransportEngineReply::AgentSetup(_, 6)));
    assert!(silent(&mut sides[0]));
    assert_eq!(engine.async_tasks.work.len(), 1);
    assert_eq!(engine.async_tasks.work[0].task.request, 6);
}

#[test]
fn a_device_without_a_proxy_stops_the_engine() {
    let (mut engine, _sides) = engine(1, 0);
    for dev in [1, -1] {
        let a = agent(dev, 1, ConnType::Send);
        let result = AsyncTaskResult::Setup { setup_resources: String::new(), reply: 1 };
        assert_eq!(
            engine.resources.finish_task(a, Fake { tag: 0 }, result),
            Err(EngineError::NoProxy(a))
        );
        assert!(engine.resources.agent_setup.get(&a).is_none());
    }
}

#[test]
fn an_undelivered_reply_stops_the_engine() {
    let (mut engine, sides) = engine(1, 0);
    drop(sides);
    let a = agent(0, 1, ConnType::Send);
    let result = AsyncTaskResult::Connect { agent_resources: String::new(), reply: 1 };
    assert_eq!(
        engine.resources.finish_task(a, Fake { tag: 0 }, result),
        Err(EngineError::ReplyUndelivered(a))
    );
    assert!(engine.resources.agent_connected.get(&a).is_none());
}

#[test]
fn pending_work_keeps_its_order() {
    let (mut engine, mut sides) = engine(1, 1);
    let fake = Fake { tag: 0 };
    let a = agent(0, 1, ConnType::Send);
    assert_eq!(engine.take_request(TransportEngineRequest::AgentSetup(fake, a, 1)), Ok(()));
    assert_eq!(engine.take_request(TransportEngineRequest::AgentConnect(fake, a, 2)), Ok(()));
    assert_eq!(engine.take_request(TransportEngineRequest::AgentSetup(fake, a, 3)), Ok(()));
    assert_eq!(engine.progress_async_tasks(), Ok(()));
    let left: Vec<u32> = engine.async_tasks.work.iter().map(|t| t.task.request).collect();
    assert_eq!(left, vec![1, 3]);
    assert!(matches!(heard(&mut sides[0]), TransportEngineReply::AgentConnect(_, 3)));
}

#[test]
fn one_task_is_driven_once() {
    let (mut engine, _sides) = engine(1, 0);
    let a = agent(0, 1, ConnType::Send);
    let mut task: AsyncTask<Fake> = new_setup_task(Fake { tag: 0 }, a, 1, &1);
    assert_eq!(engine.resources.progress_async_task(&mut task), Ok(false));
    assert_eq!(engine.resources.progress_async_task(&mut task), Ok(true));
    let mut failing: AsyncTask<Fake> = new_setup_task(Fake { tag: 0 }, a, 99, &0);
    assert_eq!(
        engine.resources.progress_async_task(&mut failing),
        Err(EngineError::TaskFailed(a))
    );
}

#[test]
fn operations_complete_at_once() {
    let (mut engine, _sides) = engine(1, 0);
    engine.op_queue.enqueue(1);
    engine.op_queue.enqueue(2);
    assert!(engine.resources.progress_op(&mut 3));
    engine.progress_ops();
    assert_eq!(engine.op_queue.work.len(), 0);
}

#[test]
fn a_round_does_everything_once() {
    let (mut engine, mut sides) = engine(1, 0);
    let a = agent(0, 1, ConnType::Send);
    let fake = Fake { tag: 1 };
    engine.op_queue.enqueue(1);
    assert!(sides[0].tx.send(TransportEngineRequest::AgentSetup(fake, a, 10)).is_ok());
    assert!(sides[0].tx.send(TransportEngineRequest::AgentConnect(fake, a, 20)).is_ok());
    assert_eq!(engine.round(), Ok(()));
    assert_eq!(engine.op_queue.work.len(), 0);
    assert!(matches!(heard(&mut sides[0]), TransportEngineReply::AgentSetup(_, 11)));
    assert_eq!(engine.round(), Ok(()));
    assert!(matches!(heard(&mut sides[0]), TransportEngineReply::AgentConnect(_, 21)));
    drop(sides);
    engine.op_queue.enqueue(1);
    assert_eq!(engine.round(), Err(EngineError::ProxyDisconnected(0)));
    assert_eq!(engine.op_queue.work.len(), 1);
}

#[test]
fn a_result_is_recorded_only_after_its_reply_was_taken() {
    let (mut engine, _sides) = engine(1, 0);
    let a = agent(0, 1, ConnType::Send);
    let fake = Fake { tag: 1 };
    let back = Err(TransportEngineReply::AgentSetup(a, 1));
    assert_eq!(
        engine.resources.after_reply(a, fake, TaskStage::Setup, String::from("lost"), back),
        Err(EngineError::ReplyUndelivered(a))
    );
    assert!(engine.resources.agent_setup.get(&a).is_none());
    assert_eq!(
        engine.resources.after_reply(a, fake, TaskStage::Setup, String::from("kept"), Ok(())),
        Ok(())
    );
    assert_eq!(engine.resources.agent_setup.get(&a), Some(&String::from("kept")));
    assert!(engine.resources.agent_connected.get(&a).is_none());
    assert_eq!(
        engine.resources.after_reply(a, fake, TaskStage::Connect, String::from("up"), Ok(())),
        Ok(())
    );
    assert_eq!(engine.resources.agent_connected.get(&a).unwrap().agent_resources, "up");
}

#[test]
fn requests_are_answered_at_most_once_over_many_rounds() {
    let (mut engine, mut sides) = engine(1, 2);
    let fake = Fake { tag: 0 };
    let a = agent(0, 1, ConnType::Send);
    let mut asked = 0;
    let mut answered = 0;
    for round in 0..20u32 {
        if round % 3 == 0 && round < 10 {
            assert!(sides[0].tx.send(TransportEngineRequest::AgentSetup(fake, a, round)).is_ok());
            asked += 1;
        }
        assert_eq!(engine.round(), Ok(()));
        while let Polled::Message(reply) = sides[0].rx.try_recv() {
            assert!(matches!(reply, TransportEngineReply::AgentSetup(_, _)));
            answered += 1;
        }
        assert!(answered <= asked);
        assert_eq!(answered + engine.async_tasks.work.len(), asked);
    }
    assert_eq!(answered, 4);
}
