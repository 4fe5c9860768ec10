//! The engine that runs the agents of the transports of one device.
use vstd::prelude::*;

use crate::transport::agents::AgentTable;
use crate::transport::message::{TransportEngineReply, TransportEngineRequest};
use crate::transport::transporter::{ConnType, TaskPoll, TransportAgentId, Transporter};
use crate::utils::duplex_chan::{came_back, found_at_once, was_taken, DuplexChannel, Polled};
use crate::utils::pool::WorkPool;

verus! {

/// Names a transport engine.
#[derive(Clone, Copy, Debug, PartialEq, Eq, Structural, Hash)]
pub struct TransportEngineId {
    pub cuda_device_idx: i32,
    pub index: u32,
}

/// A connected agent.
#[verifier::reject_recursive_types(T)]
pub struct TransportAgent<T: Transporter> {
    pub transporter: T,
    pub agent_resources: T::Resources,
}

/// What an agent's work is for.
#[derive(Clone, Copy, Debug, PartialEq, Eq, Structural)]
pub enum TaskStage {
    Setup,
    Connect,
}

/// What an agent's work came to.
pub enum AsyncTaskResult<R, M> {
    Setup { setup_resources: R, reply: M },
    Connect { agent_resources: R, reply: M },
}

/// Work of an agent that is under way.
#[verifier::reject_recursive_types(T)]
pub struct AsyncTask<T: Transporter> {
    pub agent_id: TransportAgentId,
    pub transporter: T,
    pub stage: TaskStage,
    pub task: T::Task,
    /// What came of each time the work was driven, oldest first; for the proofs only.
    pub polled: Ghost<Seq<TaskPoll<T::Resources, T::Message>>>,
}

/// Why an engine cannot go on.
#[derive(Clone, Copy, Debug, PartialEq, Eq, Structural)]
pub enum EngineError {
    /// The proxy with this index is gone; proxies never shut down while an engine runs.
    ProxyDisconnected(usize),
    /// Operations over a connection are not served yet.
    TransportOpUnsupported(TransportAgentId),
    /// The work of the agent failed.
    TaskFailed(TransportAgentId),
    /// The agent's client names a device without a proxy.
    NoProxy(TransportAgentId),
    /// The proxy of the agent's client did not take the reply.
    ReplyUndelivered(TransportAgentId),
}

/// What an engine holds apart from its queues. `O` is an operation on a connected transport.
#[verifier::reject_recursive_types(T)]
#[verifier::reject_recursive_types(O)]
pub struct TransportEngineResources<T: Transporter, O> {
    /// What the setup of an agent left for its connecting.
    pub agent_setup: AgentTable<T::Resources>,
    /// The connected agents.
    pub agent_connected: AgentTable<TransportAgent<T>>,
    /// The proxies, by device.
    pub proxy_chan: Vec<
        DuplexChannel<TransportEngineReply<T::Message>, TransportEngineRequest<T, O>>,
    >,
    /// Where the configurations of the transports are found.
    pub transport_catalog: T::Catalog,
}

/// A transport engine.
#[verifier::reject_recursive_types(T)]
#[verifier::reject_recursive_types(O)]
pub struct TransportEngine<T: Transporter, O> {
    pub id: TransportEngineId,
    pub resources: TransportEngineResources<T, O>,
    pub async_tasks: WorkPool<AsyncTask<T>>,
    pub op_queue: WorkPool<O>,
}

/// `task` is new work that sets up the agent `id`.
pub open spec fn is_setup_task<T: Transporter>(
    task: AsyncTask<T>,
    transporter: T,
    id: TransportAgentId,
    request: T::Message,
    catalog: T::Catalog,
) -> bool {
    &&& task.agent_id == id
    &&& task.transporter == transporter
    &&& task.stage == TaskStage::Setup
    &&& task.polled@ == Seq::<TaskPoll<T::Resources, T::Message>>::empty()
    &&& match id.peer_conn.conn_type {
        ConnType::Send => call_ensures(
            T::agent_send_setup,
            (&transporter, id, request, &catalog),
            task.task,
        ),
        ConnType::Recv => call_ensures(
            T::agent_recv_setup,
            (&transporter, id, request, &catalog),
            task.task,
        ),
    }
}

/// `task` is new work that connects the agent `id`.
pub open spec fn is_connect_task<T: Transporter>(
    task: AsyncTask<T>,
    transporter: T,
    id: TransportAgentId,
    request: T::Message,
    setup_resources: Option<T::Resources>,
) -> bool {
    &&& task.agent_id == id
    &&& task.transporter == transporter
    &&& task.stage == TaskStage::Connect
    &&& task.polled@ == Seq::<TaskPoll<T::Resources, T::Message>>::empty()
    &&& match id.peer_conn.conn_type {
        ConnType::Send => call_ensures(
            T::agent_send_connect,
            (&transporter, id, request, setup_resources),
            task.task,
        ),
        ConnType::Recv => call_ensures(
            T::agent_recv_connect,
            (&transporter, id, request, setup_resources),
            task.task,
        ),
    }
}

/// Starts to set up an agent, in the direction of its connection.
pub fn new_setup_task<T: Transporter>(
    transporter: T,
    id: TransportAgentId,
    request: T::Message,
    catalog: &T::Catalog,
) -> (r: AsyncTask<T>)
    ensures
        is_setup_task(r, transporter, id, request, *catalog),
{
    let task = match id.peer_conn.conn_type {
        ConnType::Send => transporter.agent_send_setup(id, request, catalog),
        ConnType::Recv => transporter.agent_recv_setup(id, request, catalog),
    };
    AsyncTask {
        agent_id: id,
        transporter,
        stage: TaskStage::Setup,
        task,
        polled: Ghost(Seq::empty()),
    }
}

/// Starts to connect an agent, in the direction of its connection.
pub fn new_connect_task<T: Transporter>(
    transporter: T,
    id: TransportAgentId,
    request: T::Message,
    setup_resources: Option<T::Resources>,
) -> (r: AsyncTask<T>)
    ensures
        is_connect_task(r, transporter, id, request, setup_resources),
{
    let task = match id.peer_conn.conn_type {
        ConnType::Send => transporter.agent_send_connect(id, request, setup_resources),
        ConnType::Recv => transporter.agent_recv_connect(id, request, setup_resources),
    };
    AsyncTask {
        agent_id: id,
        transporter,
        stage: TaskStage::Connect,
        task,
        polled: Ghost(Seq::empty()),
    }
}

/// The result of work of the stage `stage` that left `resources` and `reply`.
pub open spec fn result_of<R, M>(stage: TaskStage, resources: R, reply: M) -> AsyncTaskResult<
    R,
    M,
> {
    match stage {
        TaskStage::Setup => AsyncTaskResult::Setup { setup_resources: resources, reply },
        TaskStage::Connect => AsyncTaskResult::Connect { agent_resources: resources, reply },
    }
}

/// What the client of the agent `id` is told of a result.
pub open spec fn reply_to<R, M>(
    id: TransportAgentId,
    result: AsyncTaskResult<R, M>,
) -> TransportEngineReply<M> {
    match result {
        AsyncTaskResult::Setup { setup_resources, reply } => TransportEngineReply::AgentSetup(
            id,
            reply,
        ),
        AsyncTaskResult::Connect { agent_resources, reply } => TransportEngineReply::AgentConnect(
            id,
            reply,
        ),
    }
}

/// What is left behind by setups, once a result of the agent `id` is recorded.
pub open spec fn setup_with<R, M>(
    setup: Map<TransportAgentId, R>,
    id: TransportAgentId,
    result: AsyncTaskResult<R, M>,
) -> Map<TransportAgentId, R> {
    match result {
        AsyncTaskResult::Setup { setup_resources, reply } => setup.insert(id, setup_resources),
        AsyncTaskResult::Connect { agent_resources, reply } => setup,
    }
}

/// The connected agents, once a result of the agent `id` is recorded.
pub open spec fn connected_with<T: Transporter>(
    connected: Map<TransportAgentId, TransportAgent<T>>,
    id: TransportAgentId,
    transporter: T,
    result: AsyncTaskResult<T::Resources, T::Message>,
) -> Map<TransportAgentId, TransportAgent<T>> {
    match result {
        AsyncTaskResult::Setup { setup_resources, reply } => connected,
        AsyncTaskResult::Connect { agent_resources, reply } => connected.insert(
            id,
            TransportAgent { transporter, agent_resources },
        ),
    }
}

/// The same work, driven on: all that may differ is how far it got.
pub open spec fn same_work<T: Transporter>(before: AsyncTask<T>, after: AsyncTask<T>) -> bool {
    &&& after.agent_id == before.agent_id
    &&& after.transporter == before.transporter
    &&& after.stage == before.stage
}

/// `poll` is what driving `task` came to.
pub open spec fn came_of_driving<T: Transporter>(
    task: AsyncTask<T>,
    poll: TaskPoll<T::Resources, T::Message>,
) -> bool {
    exists|after: T::Task| #[trigger] task.transporter.drives(task.task, after, poll)
}

impl<T: Transporter, O> TransportEngineResources<T, O> {
    /// There is a proxy for the device of the agent's client.
    pub open spec fn has_proxy(self, id: TransportAgentId) -> bool {
        0 <= id.client_cuda_dev < self.proxy_chan@.len()
    }

    /// All is as in `before`, the tables aside and what was sent aside.
    pub open spec fn same_links(self, before: Self) -> bool {
        &&& self.transport_catalog == before.transport_catalog
        &&& self.proxy_chan@.len() == before.proxy_chan@.len()
        &&& forall|d: int|
            0 <= d < self.proxy_chan@.len() ==> {
                &&& (#[trigger] self.proxy_chan@[d]).rx == before.proxy_chan@[d].rx
                &&& self.proxy_chan@[d].tx.id() == before.proxy_chan@[d].tx.id()
                &&& self.proxy_chan@[d].tx.channel() == before.proxy_chan@[d].tx.channel()
                &&& self.proxy_chan@[d].tx.others() == before.proxy_chan@[d].tx.others()
            }
    }

    /// What was sent to the proxies is what was sent in `before`.
    pub open spec fn same_sent(self, before: Self) -> bool {
        forall|d: int|
            0 <= d < self.proxy_chan@.len() ==> (#[trigger] self.proxy_chan@[d]).tx.sent()
                == before.proxy_chan@[d].tx.sent()
    }

    /// The proxy of the client of the agent `id` took a reply.
    pub open spec fn told(
        self,
        id: TransportAgentId,
        reply: TransportEngineReply<T::Message>,
    ) -> bool {
        &&& self.has_proxy(id)
        &&& was_taken(self.proxy_chan@[id.client_cuda_dev as int].tx.channel(), reply)
    }

    /// A reply to the proxy of the client of the agent `id` came back.
    pub open spec fn undelivered(
        self,
        id: TransportAgentId,
        reply: TransportEngineReply<T::Message>,
    ) -> bool {
        &&& self.has_proxy(id)
        &&& came_back(self.proxy_chan@[id.client_cuda_dev as int].tx.channel(), reply)
    }

    /// The result of the agent `id` is recorded, and its client's proxy is told.
    pub open spec fn records(
        self,
        before: Self,
        id: TransportAgentId,
        transporter: T,
        result: AsyncTaskResult<T::Resources, T::Message>,
    ) -> bool {
        &&& self.same_links(before)
        &&& before.told(id, reply_to(id, result))
        &&& self.agent_setup@ == setup_with(before.agent_setup@, id, result)
        &&& self.agent_connected@ == connected_with(
            before.agent_connected@,
            id,
            transporter,
            result,
        )
        &&& forall|d: int|
            0 <= d < self.proxy_chan@.len() ==> (#[trigger] self.proxy_chan@[d]).tx.sent() == if d
                == id.client_cuda_dev {
                before.proxy_chan@[d].tx.sent().push(reply_to(id, result))
            } else {
                before.proxy_chan@[d].tx.sent()
            }
    }

    /// Nothing is recorded and no proxy is told anything.
    pub open spec fn records_nothing(self, before: Self) -> bool {
        &&& self.same_links(before)
        &&& self.same_sent(before)
        &&& self.agent_setup@ == before.agent_setup@
        &&& self.agent_connected@ == before.agent_connected@
    }

    /// Goes on with a result after the proxy of the agent's client was told of it. `sent` is what
    /// came of telling it; nothing is recorded where the reply came back.
    pub fn after_reply(
        &mut self,
        agent_id: TransportAgentId,
        transporter: T,
        stage: TaskStage,
        resources: T::Resources,
        sent: Result<(), TransportEngineReply<T::Message>>,
    ) -> (r: Result<(), EngineError>)
        ensures
            final(self).proxy_chan == old(self).proxy_chan,
            final(self).transport_catalog == old(self).transport_catalog,
            match sent {
                Ok(_) => {
                    &&& r is Ok
                    &&& match stage {
                        TaskStage::Setup => {
                            &&& final(self).agent_setup@ == old(self).agent_setup@.insert(
                                agent_id,
                                resources,
                            )
                            &&& final(self).agent_connected == old(self).agent_connected
                        },
                        TaskStage::Connect => {
                            &&& final(self).agent_setup == old(self).agent_setup
                            &&& final(self).agent_connected@ == old(self).agent_connected@.insert(
                                agent_id,
                                TransportAgent { transporter, agent_resources: resources },
                            )
                        },
                    }
                },
                Err(_) => {
                    &&& r == Err::<(), EngineError>(EngineError::ReplyUndelivered(agent_id))
                    &&& *final(self) == *old(self)
                },
            },
    {
        match sent {
            Ok(()) => {
                match stage {
                    TaskStage::Setup => {
                        self.agent_setup.insert(agent_id, resources);
                    },
                    TaskStage::Connect => {
                        let connected = TransportAgent { transporter, agent_resources: resources };
                        self.agent_connected.insert(agent_id, connected);
                    },
                }
                Ok(())
            },
            Err(_) => Err(EngineError::ReplyUndelivered(agent_id)),
        }
    }

    /// Tells the proxy of the agent's client of a result and records it.
    ///
    /// Nothing is recorded where the proxy cannot be told.
    pub fn finish_task(
        &mut self,
        agent_id: TransportAgentId,
        transporter: T,
        result: AsyncTaskResult<T::Resources, T::Message>,
    ) -> (r: Result<(), EngineError>)
        ensures
            r == Err::<(), EngineError>(EngineError::NoProxy(agent_id)) <==> !old(self).has_proxy(
                agent_id,
            ),
            match r {
                Ok(_) => final(self).records(*old(self), agent_id, transporter, result),
                Err(e) => {
                    &&& e == EngineError::NoProxy(agent_id) || e == EngineError::ReplyUndelivered(
                        agent_id,
                    ) && old(self).undelivered(agent_id, reply_to(agent_id, result))
                    &&& final(self).records_nothing(*old(self))
                },
            },
    {
        if agent_id.client_cuda_dev < 0 {
            return Err(EngineError::NoProxy(agent_id));
        }
        let dev: usize = agent_id.client_cuda_dev as usize;
        if dev >= self.proxy_chan.len() {
            return Err(EngineError::NoProxy(agent_id));
        }
        let (stage, resources, reply) = match result {
            AsyncTaskResult::Setup { setup_resources, reply } => (
                TaskStage::Setup,
                setup_resources,
                TransportEngineReply::AgentSetup(agent_id, reply),
            ),
            AsyncTaskResult::Connect { agent_resources, reply } => (
                TaskStage::Connect,
                agent_resources,
                TransportEngineReply::AgentConnect(agent_id, reply),
            ),
        };
        let sent = self.proxy_chan[dev].tx.send(reply);
        self.after_reply(agent_id, transporter, stage, resources, sent)
    }

    /// Drives an operation over a connection; `true` says that it is complete.
    pub fn progress_op(&mut self, _op: &mut O) -> (r: bool)
        ensures
            r,
            *final(self) == *old(self),
            *final(_op) == *old(_op),
    {
        true
    }

    /// Drives the work of an agent; `true` says that it is done.
    pub fn progress_async_task(&mut self, task: &mut AsyncTask<T>) -> (r: Result<bool, EngineError>)
        ensures
            same_work(*old(task), *final(task)),
            final(task).polled@.len() == old(task).polled@.len() + 1,
            final(task).polled@.drop_last() == old(task).polled@,
            old(task).transporter.drives(
                old(task).task,
                final(task).task,
                final(task).polled@.last(),
            ),
            match final(task).polled@.last() {
                TaskPoll::Pending => {
                    &&& r == Ok::<bool, EngineError>(false)
                    &&& *final(self) == *old(self)
                },
                TaskPoll::Ready(resources, reply) => {
                    let result = result_of(old(task).stage, resources, reply);
                    &&& r == Err::<bool, EngineError>(EngineError::NoProxy(old(task).agent_id))
                        <==> !old(self).has_proxy(old(task).agent_id)
                    &&& match r {
                        Ok(done) => {
                            &&& done
                            &&& final(self).records(
                                *old(self),
                                old(task).agent_id,
                                old(task).transporter,
                                result,
                            )
                        },
                        Err(e) => {
                            &&& e == EngineError::NoProxy(old(task).agent_id) || e
                                == EngineError::ReplyUndelivered(old(task).agent_id) && old(
                                self,
                            ).undelivered(
                                old(task).agent_id,
                                reply_to(old(task).agent_id, result),
                            )
                            &&& final(self).records_nothing(*old(self))
                        },
                    }
                },
                TaskPoll::Failed => {
                    &&& r == Err::<bool, EngineError>(EngineError::TaskFailed(old(task).agent_id))
                    &&& *final(self) == *old(self)
                },
            },
    {
        let poll = task.transporter.poll(&mut task.task);
        task.polled = Ghost(task.polled@.push(poll));
        assert(task.polled@.drop_last() =~= old(task).polled@);
        match poll {
            TaskPoll::Pending => Ok(false),
            TaskPoll::Ready(resources, reply) => {
                let result = match task.stage {
                    TaskStage::Setup => AsyncTaskResult::Setup {
                        setup_resources: resources,
                        reply,
                    },
                    TaskStage::Connect => AsyncTaskResult::Connect {
                        agent_resources: resources,
                        reply,
                    },
                };
                match self.finish_task(task.agent_id, task.transporter, result) {
                    Ok(()) => Ok(true),
                    Err(e) => Err(e),
                }
            },
            TaskPoll::Failed => Err(EngineError::TaskFailed(task.agent_id)),
        }
    }
}

/// `task` is the new work that a request asks for, where setups left `setup` behind.
pub open spec fn answers<T: Transporter, O>(
    task: AsyncTask<T>,
    request: TransportEngineRequest<T, O>,
    setup: Map<TransportAgentId, T::Resources>,
    catalog: T::Catalog,
) -> bool {
    match request {
        TransportEngineRequest::AgentSetup(transporter, id, message) => is_setup_task(
            task,
            transporter,
            id,
            message,
            catalog,
        ),
        TransportEngineRequest::AgentConnect(transporter, id, message) => is_connect_task(
            task,
            transporter,
            id,
            message,
            if setup.contains_key(id) {
                Some(setup[id])
            } else {
                None
            },
        ),
        TransportEngineRequest::AgentTransportOp(id, op) => false,
    }
}

/// What setups left behind, once a request is taken: connecting an agent uses up what its setup
/// left.
pub open spec fn setup_after<T: Transporter, O>(
    setup: Map<TransportAgentId, T::Resources>,
    request: TransportEngineRequest<T, O>,
) -> Map<TransportAgentId, T::Resources> {
    match request {
        TransportEngineRequest::AgentConnect(transporter, id, message) => setup.remove(id),
        _ => setup,
    }
}

/// What setups left behind, once requests are taken one after the other.
pub open spec fn setup_after_all<T: Transporter, O>(
    setup: Map<TransportAgentId, T::Resources>,
    requests: Seq<TransportEngineRequest<T, O>>,
) -> Map<TransportAgentId, T::Resources>
    decreases requests.len(),
{
    if requests.len() == 0 {
        setup
    } else {
        setup_after(setup_after_all(setup, requests.drop_last()), requests.last())
    }
}

/// The messages among what was found, in order.
pub open spec fn messages<M>(polls: Seq<Polled<M>>) -> Seq<M>
    decreases polls.len(),
{
    if polls.len() == 0 {
        Seq::empty()
    } else {
        match polls.last() {
            Polled::Message(message) => messages(polls.drop_last()).push(message),
            _ => messages(polls.drop_last()),
        }
    }
}

/// Why the engine cannot go on after what it found at the proxy `from`.
pub open spec fn request_failure<T: Transporter, O>(
    from: int,
    poll: Polled<TransportEngineRequest<T, O>>,
) -> Option<EngineError> {
    match poll {
        Polled::Message(TransportEngineRequest::AgentTransportOp(id, op)) => Some(
            EngineError::TransportOpUnsupported(id),
        ),
        Polled::Disconnected => Some(EngineError::ProxyDisconnected(from as usize)),
        _ => None,
    }
}

/// `after` is `before` with one piece of new work behind it for each request.
pub open spec fn enqueues<T: Transporter, O>(
    before: Seq<AsyncTask<T>>,
    after: Seq<AsyncTask<T>>,
    requests: Seq<TransportEngineRequest<T, O>>,
    setup: Map<TransportAgentId, T::Resources>,
    catalog: T::Catalog,
) -> bool {
    &&& after.len() == before.len() + requests.len()
    &&& forall|i: int| 0 <= i < before.len() ==> #[trigger] after[i] == before[i]
    &&& forall|k: int|
        0 <= k < requests.len() ==> answers(
            after[before.len() + k],
            #[trigger] requests[k],
            setup_after_all(setup, requests.take(k)),
            catalog,
        )
}

impl<T: Transporter, O> TransportEngine<T, O> {
    /// The proxies were asked in order, and `polls` is what was found; proxies beyond `polls` were
    /// not asked. Nothing was sent.
    pub open spec fn asked(
        self,
        before: Self,
        polls: Seq<Polled<TransportEngineRequest<T, O>>>,
    ) -> bool {
        let now = self.resources.proxy_chan@;
        let then = before.resources.proxy_chan@;
        &&& now.len() == then.len()
        &&& polls.len() <= now.len()
        &&& forall|d: int|
            0 <= d < now.len() ==> {
                &&& (#[trigger] now[d]).tx == then[d].tx
                &&& now[d].rx.id() == then[d].rx.id()
                &&& now[d].rx.channel() == then[d].rx.channel()
                &&& d < polls.len() ==> found_at_once(then[d].rx.channel(), polls[d])
                &&& now[d].rx.polled() == if d < polls.len() {
                    then[d].rx.polled().push(polls[d])
                } else {
                    then[d].rx.polled()
                }
            }
    }

    /// The requests were taken: what setups left behind is used up where it is needed, and the
    /// work that was asked for is under way. All else is as in `before`.
    pub open spec fn takes(
        self,
        before: Self,
        requests: Seq<TransportEngineRequest<T, O>>,
    ) -> bool {
        &&& self.id == before.id
        &&& self.op_queue == before.op_queue
        &&& self.resources.agent_connected == before.resources.agent_connected
        &&& self.resources.transport_catalog == before.resources.transport_catalog
        &&& self.resources.agent_setup@ == setup_after_all(
            before.resources.agent_setup@,
            requests,
        )
        &&& enqueues(
            before.async_tasks@,
            self.async_tasks@,
            requests,
            before.resources.agent_setup@,
            before.resources.transport_catalog,
        )
    }

    /// The engine asked its proxies for requests. It stopped early, with the error `r`, at the
    /// first proxy at which it found something that it cannot deal with.
    pub open spec fn checked(
        self,
        before: Self,
        polls: Seq<Polled<TransportEngineRequest<T, O>>>,
        r: Result<(), EngineError>,
    ) -> bool {
        &&& self.asked(before, polls)
        &&& self.takes(
            before,
            messages(
                match r {
                    Ok(_) => polls,
                    Err(_) => polls.drop_last(),
                },
            ),
        )
        &&& match r {
            Ok(_) => {
                &&& polls.len() == self.resources.proxy_chan@.len()
                &&& forall|d: int|
                    0 <= d < polls.len() ==> request_failure(d, #[trigger] polls[d]) is None
            },
            Err(e) => {
                &&& polls.len() > 0
                &&& forall|d: int|
                    0 <= d < polls.len() - 1 ==> request_failure(d, #[trigger] polls[d]) is None
                &&& request_failure(polls.len() - 1, polls.last()) == Some(e)
            },
        }
    }

    /// Takes a request: starts the work that it asks for.
    pub fn take_request(&mut self, request: TransportEngineRequest<T, O>) -> (r: Result<
        (),
        EngineError,
    >)
        ensures
            final(self).resources.proxy_chan == old(self).resources.proxy_chan,
            match request {
                TransportEngineRequest::AgentTransportOp(id, op) => {
                    &&& r == Err::<(), EngineError>(EngineError::TransportOpUnsupported(id))
                    &&& *final(self) == *old(self)
                },
                _ => {
                    &&& r is Ok
                    &&& final(self).takes(*old(self), seq![request])
                },
            },
    {
        let ghost asked = request;
        proof {
            reveal_with_fuel(setup_after_all, 2);
            assert(seq![asked].drop_last() =~= Seq::empty());
            assert(seq![asked].take(0) =~= Seq::empty());
        }
        let task = match request {
            TransportEngineRequest::AgentSetup(transporter, agent_id, message) => new_setup_task(
                transporter,
                agent_id,
                message,
                &self.resources.transport_catalog,
            ),
            TransportEngineRequest::AgentConnect(transporter, agent_id, message) => {
                let setup_resources = self.resources.agent_setup.remove(&agent_id);
                new_connect_task(transporter, agent_id, message, setup_resources)
            },
            TransportEngineRequest::AgentTransportOp(agent_id, _) => {
                return Err(EngineError::TransportOpUnsupported(agent_id));
            },
        };
        self.async_tasks.enqueue(task);
        Ok(())
    }

    /// Asks each proxy once for a request and starts the work that is asked for.
    pub fn check_proxy_requests(&mut self) -> (r: Result<(), EngineError>)
        ensures
            exists|polls: Seq<Polled<TransportEngineRequest<T, O>>>| #[trigger]
                final(self).checked(*old(self), polls, r),
    {
        let ghost mut polls: Seq<Polled<TransportEngineRequest<T, O>>> = Seq::empty();
        let mut from: usize = 0;
        let n: usize = self.resources.proxy_chan.len();
        while from < n
            invariant
                from <= n == self.resources.proxy_chan@.len(),
                polls.len() == from,
                self.asked(*old(self), polls),
                self.takes(*old(self), messages(polls)),
                forall|d: int|
                    0 <= d < polls.len() ==> request_failure(d, #[trigger] polls[d]) is None,
            decreases n - from,
        {
            let ghost earlier = polls;
            let poll = self.resources.proxy_chan[from].rx.try_recv();
            proof {
                polls = polls.push(poll);
                assert(polls.drop_last() =~= earlier);
            }
            assert(self.asked(*old(self), polls));
            assert(self.takes(*old(self), messages(earlier)));
            match poll {
                Polled::Message(request) => {
                    let ghost mid = *self;
                    match self.take_request(request) {
                        Ok(()) => {
                            proof {
                                lemma_takes_more(
                                    *old(self),
                                    mid,
                                    *self,
                                    messages(earlier),
                                    request,
                                );
                            }
                        },
                        Err(e) => {
                            assert(self.checked(*old(self), polls, Err(e)));
                            return Err(e);
                        },
                    }
                },
                Polled::Empty => {},
                Polled::Disconnected => {
                    let r: Result<(), EngineError> = Err(EngineError::ProxyDisconnected(from));
                    assert(self.checked(*old(self), polls, r));
                    return r;
                },
            }
            from += 1;
        }
        assert(self.checked(*old(self), polls, Ok(())));
        Ok(())
    }
}

/// Taking one more request.
proof fn lemma_takes_more<T: Transporter, O>(
    before: TransportEngine<T, O>,
    mid: TransportEngine<T, O>,
    after: TransportEngine<T, O>,
    requests: Seq<TransportEngineRequest<T, O>>,
    request: TransportEngineRequest<T, O>,
)
    requires
        mid.takes(before, requests),
        after.takes(mid, seq![request]),
    ensures
        after.takes(before, requests.push(request)),
{
    reveal_with_fuel(setup_after_all, 2);
    let more = requests.push(request);
    assert(more.drop_last() =~= requests);
    assert(seq![request].drop_last() =~= Seq::empty());
    assert(seq![request].take(0) =~= Seq::empty());
    assert(more.take(requests.len() as int) =~= requests);
    assert forall|k: int| 0 <= k < more.len() implies answers(
        after.async_tasks@[before.async_tasks@.len() + k],
        #[trigger] more[k],
        setup_after_all(before.resources.agent_setup@, more.take(k)),
        before.resources.transport_catalog,
    ) by {
        if k < requests.len() {
            assert(more.take(k) =~= requests.take(k));
            assert(requests[k] == more[k]);
        } else {
            assert(seq![request][0] == request);
        }
    }
}

/// Work that is done.
#[verifier::reject_recursive_types(T)]
pub ghost struct Finished<T: Transporter> {
    pub agent_id: TransportAgentId,
    pub transporter: T,
    pub result: AsyncTaskResult<T::Resources, T::Message>,
}

/// The work that is done after it was driven once, in order; `polls` is what came of driving it.
pub open spec fn finished<T: Transporter>(
    tasks: Seq<AsyncTask<T>>,
    polls: Seq<TaskPoll<T::Resources, T::Message>>,
) -> Seq<Finished<T>>
    decreases polls.len(),
{
    if polls.len() == 0 {
        Seq::empty()
    } else {
        let task = tasks[polls.len() - 1];
        match polls.last() {
            TaskPoll::Ready(resources, reply) => finished(tasks, polls.drop_last()).push(
                Finished {
                    agent_id: task.agent_id,
                    transporter: task.transporter,
                    result: result_of(task.stage, resources, reply),
                },
            ),
            _ => finished(tasks, polls.drop_last()),
        }
    }
}

/// The places of the work that goes on, in order.
pub open spec fn going_on<R, M>(polls: Seq<TaskPoll<R, M>>) -> Seq<int>
    decreases polls.len(),
{
    if polls.len() == 0 {
        Seq::empty()
    } else {
        match polls.last() {
            TaskPoll::Pending => going_on(polls.drop_last()).push(polls.len() - 1),
            _ => going_on(polls.drop_last()),
        }
    }
}

/// What is left behind by setups, once results are recorded one after the other.
pub open spec fn setup_with_all<T: Transporter>(
    setup: Map<TransportAgentId, T::Resources>,
    done: Seq<Finished<T>>,
) -> Map<TransportAgentId, T::Resources>
    decreases done.len(),
{
    if done.len() == 0 {
        setup
    } else {
        setup_with(
            setup_with_all(setup, done.drop_last()),
            done.last().agent_id,
            done.last().result,
        )
    }
}

/// The connected agents, once results are recorded one after the other.
pub open spec fn connected_with_all<T: Transporter>(
    connected: Map<TransportAgentId, TransportAgent<T>>,
    done: Seq<Finished<T>>,
) -> Map<TransportAgentId, TransportAgent<T>>
    decreases done.len(),
{
    if done.len() == 0 {
        connected
    } else {
        connected_with(
            connected_with_all(connected, done.drop_last()),
            done.last().agent_id,
            done.last().transporter,
            done.last().result,
        )
    }
}

/// What the proxy of the device `dev` is told of results, in order.
pub open spec fn replies_for<T: Transporter>(dev: int, done: Seq<Finished<T>>) -> Seq<
    TransportEngineReply<T::Message>,
>
    decreases done.len(),
{
    if done.len() == 0 {
        Seq::empty()
    } else {
        let earlier = replies_for(dev, done.drop_last());
        if done.last().agent_id.client_cuda_dev == dev {
            earlier.push(reply_to(done.last().agent_id, done.last().result))
        } else {
            earlier
        }
    }
}

/// `after` is what is left of `before` when its first pieces of work, one for each of `polls`, were
/// driven: those that go on, in order, and behind them those that were not driven. Where the last
/// one was not dealt with (`dealt_with` counts the others), it is gone.
pub open spec fn keeps_going<T: Transporter>(
    before: Seq<AsyncTask<T>>,
    after: Seq<AsyncTask<T>>,
    polls: Seq<TaskPoll<T::Resources, T::Message>>,
    dealt_with: nat,
) -> bool {
    let kept = going_on(polls.take(dealt_with as int));
    &&& after.len() == kept.len() + before.len() - polls.len()
    &&& forall|k: int|
        #![trigger kept[k]]
        0 <= k < kept.len() ==> {
            &&& same_work(before[kept[k]], after[k])
            &&& before[kept[k]].transporter.drives(
                before[kept[k]].task,
                after[k].task,
                TaskPoll::Pending,
            )
            &&& after[k].polled@ == before[kept[k]].polled@.push(TaskPoll::Pending)
        }
    &&& forall|k: int|
        kept.len() <= k < after.len() ==> #[trigger] after[k] == before[k - kept.len()
            + polls.len()]
}

impl<T: Transporter, O> TransportEngineResources<T, O> {
    /// The results are recorded one after the other, and the proxies are told.
    pub open spec fn records_all(self, before: Self, done: Seq<Finished<T>>) -> bool {
        &&& self.same_links(before)
        &&& forall|k: int|
            0 <= k < done.len() ==> before.told(
                (#[trigger] done[k]).agent_id,
                reply_to(done[k].agent_id, done[k].result),
            )
        &&& self.agent_setup@ == setup_with_all(before.agent_setup@, done)
        &&& self.agent_connected@ == connected_with_all(before.agent_connected@, done)
        &&& forall|d: int|
            0 <= d < self.proxy_chan@.len() ==> (#[trigger] self.proxy_chan@[d]).tx.sent()
                == before.proxy_chan@[d].tx.sent() + replies_for(d, done)
    }

    /// Why the engine cannot go on after it drove `task`, whatever its proxies do.
    pub open spec fn task_failure(
        self,
        task: AsyncTask<T>,
        poll: TaskPoll<T::Resources, T::Message>,
    ) -> Option<EngineError> {
        match poll {
            TaskPoll::Pending => None,
            TaskPoll::Ready(resources, reply) => if self.has_proxy(task.agent_id) {
                None
            } else {
                Some(EngineError::NoProxy(task.agent_id))
            },
            TaskPoll::Failed => Some(EngineError::TaskFailed(task.agent_id)),
        }
    }
}

/// Recording one more result.
proof fn lemma_records_one_more<T: Transporter, O>(
    before: TransportEngineResources<T, O>,
    mid: TransportEngineResources<T, O>,
    after: TransportEngineResources<T, O>,
    done: Seq<Finished<T>>,
    last: Finished<T>,
)
    requires
        mid.records_all(before, done),
        after.records(mid, last.agent_id, last.transporter, last.result),
    ensures
        after.records_all(before, done.push(last)),
{
    let more = done.push(last);
    assert(more.drop_last() =~= done);
    assert forall|d: int| 0 <= d < after.proxy_chan@.len() implies (
    #[trigger] after.proxy_chan@[d]).tx.sent() == before.proxy_chan@[d].tx.sent() + replies_for(
        d,
        more,
    ) by {
        assert(mid.proxy_chan@[d].tx.sent() == before.proxy_chan@[d].tx.sent() + replies_for(
            d,
            done,
        ));
        assert(after.proxy_chan@[d].tx.sent() =~= before.proxy_chan@[d].tx.sent() + replies_for(
            d,
            more,
        ));
    }
}

/// Driving one more piece of work, which stays if it goes on and leaves if not.
proof fn lemma_keeps_going<T: Transporter>(
    before: Seq<AsyncTask<T>>,
    mid: Seq<AsyncTask<T>>,
    after: Seq<AsyncTask<T>>,
    earlier: Seq<TaskPoll<T::Resources, T::Message>>,
    polls: Seq<TaskPoll<T::Resources, T::Message>>,
)
    requires
        polls.len() > 0,
        polls.drop_last() == earlier,
        keeps_going(before, mid, earlier, earlier.len()),
        earlier.len() < before.len(),
        ({
            let i = going_on(earlier).len() as int;
            if polls.last() is Pending {
                &&& after.len() == mid.len()
                &&& forall|k: int| 0 <= k < mid.len() && k != i ==> #[trigger] after[k] == mid[k]
                &&& same_work(mid[i], after[i])
                &&& mid[i].transporter.drives(mid[i].task, after[i].task, TaskPoll::Pending)
                &&& after[i].polled@ == mid[i].polled@.push(TaskPoll::Pending)
            } else {
                &&& after.len() == mid.len() - 1
                &&& forall|k: int| 0 <= k < i ==> #[trigger] after[k] == mid[k]
                &&& forall|k: int| i <= k < after.len() ==> #[trigger] after[k] == mid[k + 1]
            }
        }),
    ensures
        keeps_going(before, after, polls, polls.len()),
{
    assert(polls.take(polls.len() as int) =~= polls);
    assert(earlier.take(earlier.len() as int) =~= earlier);
    let kept = going_on(earlier);
    let now = going_on(polls);
    let i = kept.len() as int;
    assert(mid[i] == before[earlier.len() as int]);
    assert forall|k: int| 0 <= k < now.len() implies {
        &&& same_work(before[#[trigger] now[k]], after[k])
        &&& before[now[k]].transporter.drives(before[now[k]].task, after[k].task, TaskPoll::Pending)
        &&& after[k].polled@ == before[now[k]].polled@.push(TaskPoll::Pending)
    } by {
        if k < i {
            assert(now[k] == kept[k]);
            assert(after[k] == mid[k]);
        }
    }
    assert forall|k: int| now.len() <= k < after.len() implies #[trigger] after[k] == before[k
        - now.len() + polls.len()] by {
        if polls.last() is Pending {
            assert(after[k] == mid[k]);
        } else {
            assert(after[k] == mid[k + 1]);
        }
    }
}

impl<T: Transporter, O> TransportEngine<T, O> {
    /// The engine drove its work in order, and `polls` is what came of it. It stopped early, with
    /// the error `r`, at the first piece of work that it could not deal with.
    pub open spec fn progressed(
        self,
        before: Self,
        polls: Seq<TaskPoll<T::Resources, T::Message>>,
        r: Result<(), EngineError>,
    ) -> bool {
        let dealt_with = match r {
            Ok(_) => polls.len(),
            Err(_) => (polls.len() - 1) as nat,
        };
        let tasks = before.async_tasks@;
        &&& self.id == before.id
        &&& self.op_queue == before.op_queue
        &&& polls.len() <= tasks.len()
        &&& self.resources.records_all(
            before.resources,
            finished(tasks, polls.take(dealt_with as int)),
        )
        &&& keeps_going(tasks, self.async_tasks@, polls, dealt_with)
        &&& forall|i: int|
            0 <= i < polls.len() ==> came_of_driving(tasks[i], #[trigger] polls[i])
        &&& forall|i: int|
            0 <= i < dealt_with ==> before.resources.task_failure(
                tasks[i],
                #[trigger] polls[i],
            ) is None
        &&& match r {
            Ok(_) => polls.len() == tasks.len(),
            Err(e) => {
                let task = tasks[polls.len() - 1];
                &&& polls.len() > 0
                &&& match before.resources.task_failure(task, polls.last()) {
                    Some(failure) => e == failure,
                    None => {
                        &&& e == EngineError::ReplyUndelivered(task.agent_id)
                        &&& polls.last() matches TaskPoll::Ready(resources, reply)
                            && before.resources.undelivered(
                            task.agent_id,
                            reply_to(task.agent_id, result_of(task.stage, resources, reply)),
                        )
                    },
                }
            },
        }
    }

    /// Drives each piece of work once, and drops what is done.
    pub fn progress_async_tasks(&mut self) -> (r: Result<(), EngineError>)
        ensures
            exists|polls: Seq<TaskPoll<T::Resources, T::Message>>| #[trigger]
                final(self).progressed(*old(self), polls, r),
    {
        let ghost mut polls: Seq<TaskPoll<T::Resources, T::Message>> = Seq::empty();
        let ghost tasks = self.async_tasks@;
        let mut i: usize = 0;
        proof {
            assert(polls.take(0) =~= polls);
        }
        while i < self.async_tasks.work.len()
            invariant
                tasks == old(self).async_tasks@,
                self.id == old(self).id,
                self.op_queue == old(self).op_queue,
                polls.len() <= tasks.len(),
                i == going_on(polls).len(),
                polls.take(polls.len() as int) == polls,
                self.resources.records_all(old(self).resources, finished(tasks, polls)),
                keeps_going(tasks, self.async_tasks@, polls, polls.len()),
                forall|k: int|
                    0 <= k < polls.len() ==> came_of_driving(tasks[k], #[trigger] polls[k]),
                forall|k: int|
                    0 <= k < polls.len() ==> old(self).resources.task_failure(
                        tasks[k],
                        #[trigger] polls[k],
                    ) is None,
            decreases tasks.len() - polls.len(),
        {
            let ghost earlier = polls;
            let ghost mid = *self;
            let ghost at = polls.len() as int;
            let done = self.resources.progress_async_task(&mut self.async_tasks.work[i]);
            proof {
                let poll = self.async_tasks@[i as int].polled@.last();
                polls = polls.push(poll);
                assert(polls.drop_last() =~= earlier);
                assert(polls.take(at) =~= earlier);
                assert(polls.take(at + 1) =~= polls);
                assert(mid.async_tasks@[i as int] == tasks[at]);
                assert(tasks[at].transporter.drives(
                    tasks[at].task,
                    self.async_tasks@[i as int].task,
                    poll,
                ));
                assert(came_of_driving(tasks[at], poll));
            }
            match done {
                Ok(true) => {
                    let ghost driven = self.async_tasks@;
                    let _ = self.async_tasks.work.remove(i);
                    proof {
                        lemma_records_one_more(
                            old(self).resources,
                            mid.resources,
                            self.resources,
                            finished(tasks, earlier),
                            finished(tasks, polls).last(),
                        );
                        assert(finished(tasks, polls).drop_last() =~= finished(tasks, earlier));
                        assert(self.async_tasks@ =~= driven.remove(i as int));
                        lemma_keeps_going(
                            tasks,
                            mid.async_tasks@,
                            self.async_tasks@,
                            earlier,
                            polls,
                        );
                    }
                },
                Ok(false) => {
                    proof {
                        assert(self.async_tasks@[i as int].polled@
                            =~= mid.async_tasks@[i as int].polled@.push(TaskPoll::Pending));
                        lemma_keeps_going(
                            tasks,
                            mid.async_tasks@,
                            self.async_tasks@,
                            earlier,
                            polls,
                        );
                    }
                    i += 1;
                },
                Err(e) => {
                    let _ = self.async_tasks.work.remove(i);
                    assert(self.progressed(*old(self), polls, Err(e)));
                    return Err(e);
                },
            }
        }
        assert(self.progressed(*old(self), polls, Ok(())));
        Ok(())
    }

    /// Drives each operation once, and drops those that are complete: all of them.
    pub fn progress_ops(&mut self)
        ensures
            final(self).op_queue@ == Seq::<O>::empty(),
            final(self).id == old(self).id,
            final(self).resources == old(self).resources,
            final(self).async_tasks == old(self).async_tasks,
    {
        let mut i: usize = 0;
        while i < self.op_queue.work.len()
            invariant
                i == 0,
                self.id == old(self).id,
                self.resources == old(self).resources,
                self.async_tasks == old(self).async_tasks,
            decreases self.op_queue@.len() - i,
        {
            if self.resources.progress_op(&mut self.op_queue.work[i]) {
                let _ = self.op_queue.work.remove(i);
            } else {
                i += 1;
            }
        }
    }

    /// One round of the engine came to `r`. Asking the proxies brought it to `asked` and came to
    /// `checked`; where that went well it drove its work, and where that went well too, its
    /// operations.
    pub open spec fn went_round(
        self,
        before: Self,
        asked: Self,
        checked: Result<(), EngineError>,
        requests: Seq<Polled<TransportEngineRequest<T, O>>>,
        polls: Seq<TaskPoll<T::Resources, T::Message>>,
        r: Result<(), EngineError>,
    ) -> bool {
        &&& asked.checked(before, requests, checked)
        &&& match checked {
            Ok(_) => {
                let driven = TransportEngine { op_queue: asked.op_queue, ..self };
                &&& driven.progressed(asked, polls, r)
                &&& self.op_queue@ == match r {
                    Ok(_) => Seq::<O>::empty(),
                    Err(_) => asked.op_queue@,
                }
            },
            Err(_) => self == asked && r == checked,
        }
    }

    /// Does what the engine does over and over: asks the proxies for requests, and drives the work
    /// and the operations. An engine runs by doing so until it cannot go on.
    pub fn round(&mut self) -> (r: Result<(), EngineError>)
        ensures
            exists|
                asked: Self,
                checked: Result<(), EngineError>,
                requests: Seq<Polled<TransportEngineRequest<T, O>>>,
                polls: Seq<TaskPoll<T::Resources, T::Message>>,
            | #[trigger]
                final(self).went_round(*old(self), asked, checked, requests, polls, r),
    {
        let checked = self.check_proxy_requests();
        let ghost asked = *self;
        let ghost requests = choose|requests: Seq<Polled<TransportEngineRequest<T, O>>>| #[trigger]
            asked.checked(*old(self), requests, checked);
        if checked.is_err() {
            assert(self.went_round(*old(self), asked, checked, requests, Seq::empty(), checked));
            return checked;
        }
        let r = self.progress_async_tasks();
        let ghost driven = *self;
        let ghost polls = choose|polls: Seq<TaskPoll<T::Resources, T::Message>>| #[trigger]
            driven.progressed(asked, polls, r);
        if r.is_ok() {
            self.progress_ops();
        }
        proof {
            assert(TransportEngine { op_queue: asked.op_queue, ..*self } == driven);
            assert(self.went_round(*old(self), asked, checked, requests, polls, r));
        }
        r
    }
}

/// What the setup of an agent left behind goes to the connecting of that agent, and only once: if
/// the agent is asked to connect again, nothing is there.
pub proof fn setup_serves_one_connect<T: Transporter, O>(
    start: TransportEngine<T, O>,
    set_up: TransportEngine<T, O>,
    once: TransportEngine<T, O>,
    twice: TransportEngine<T, O>,
    transporter: T,
    id: TransportAgentId,
    left: T::Resources,
    reply: T::Message,
    first: T::Message,
    second: T::Message,
)
    requires
        set_up.resources.records(
            start.resources,
            id,
            transporter,
            AsyncTaskResult::Setup { setup_resources: left, reply },
        ),
        once.takes(
            set_up,
            seq![TransportEngineRequest::<T, O>::AgentConnect(transporter, id, first)],
        ),
        twice.takes(
            once,
            seq![TransportEngineRequest::<T, O>::AgentConnect(transporter, id, second)],
        ),
    ensures
        is_connect_task(once.async_tasks@.last(), transporter, id, first, Some(left)),
        is_connect_task(twice.async_tasks@.last(), transporter, id, second, None),
{
    let ask_first = TransportEngineRequest::<T, O>::AgentConnect(transporter, id, first);
    let ask_second = TransportEngineRequest::<T, O>::AgentConnect(transporter, id, second);
    reveal_with_fuel(setup_after_all, 2);
    assert(seq![ask_first].drop_last() =~= Seq::empty());
    assert(seq![ask_first].take(0) =~= Seq::empty());
    assert(seq![ask_second].take(0) =~= Seq::empty());
    assert(seq![ask_first][0] == ask_first);
    assert(seq![ask_second][0] == ask_second);
}

/// What a request is about.
pub open spec fn requested_agent<T: Transporter, O>(
    request: TransportEngineRequest<T, O>,
) -> TransportAgentId {
    match request {
        TransportEngineRequest::AgentSetup(transporter, id, message) => id,
        TransportEngineRequest::AgentConnect(transporter, id, message) => id,
        TransportEngineRequest::AgentTransportOp(id, op) => id,
    }
}

/// Taking requests leaves what setups left behind for other agents alone.
pub proof fn requests_do_not_interfere<T: Transporter, O>(
    setup: Map<TransportAgentId, T::Resources>,
    requests: Seq<TransportEngineRequest<T, O>>,
    other: TransportAgentId,
)
    requires
        forall|k: int| 0 <= k < requests.len() ==> requested_agent(#[trigger] requests[k]) != other,
    ensures
        setup_after_all(setup, requests).contains_key(other) == setup.contains_key(other),
        setup.contains_key(other) ==> setup_after_all(setup, requests)[other] == setup[other],
    decreases requests.len(),
{
    if requests.len() > 0 {
        let earlier = requests.drop_last();
        assert forall|k: int| 0 <= k < earlier.len() implies requested_agent(
            #[trigger] earlier[k],
        ) != other by {
            assert(earlier[k] == requests[k]);
        }
        requests_do_not_interfere(setup, earlier, other);
        assert(requested_agent(requests[requests.len() - 1]) != other);
    }
}

/// Recording the result of an agent leaves what is kept for the others alone.
pub proof fn results_do_not_interfere<T: Transporter, O>(
    before: TransportEngineResources<T, O>,
    after: TransportEngineResources<T, O>,
    id: TransportAgentId,
    transporter: T,
    result: AsyncTaskResult<T::Resources, T::Message>,
    other: TransportAgentId,
)
    requires
        after.records(before, id, transporter, result),
        other != id,
    ensures
        after.agent_setup@.contains_key(other) == before.agent_setup@.contains_key(other),
        before.agent_setup@.contains_key(other) ==> after.agent_setup@[other]
            == before.agent_setup@[other],
        after.agent_connected@.contains_key(other) == before.agent_connected@.contains_key(other),
        before.agent_connected@.contains_key(other) ==> after.agent_connected@[other]
            == before.agent_connected@[other],
{
}

/// No work is lost: unless work fails, whatever was driven either goes on or is done.
pub proof fn work_goes_on_or_is_done<T: Transporter>(
    tasks: Seq<AsyncTask<T>>,
    polls: Seq<TaskPoll<T::Resources, T::Message>>,
)
    requires
        forall|i: int| 0 <= i < polls.len() ==> !((#[trigger] polls[i]) is Failed),
    ensures
        going_on(polls).len() + finished(tasks, polls).len() == polls.len(),
    decreases polls.len(),
{
    if polls.len() > 0 {
        let earlier = polls.drop_last();
        assert forall|i: int| 0 <= i < earlier.len() implies !((#[trigger] earlier[i]) is Failed) by {
            assert(earlier[i] == polls[i]);
        }
        work_goes_on_or_is_done(tasks, earlier);
        assert(!(polls[polls.len() - 1] is Failed));
    }
}

/// The agent that a reply is about.
pub open spec fn agent_of<M>(reply: TransportEngineReply<M>) -> TransportAgentId {
    match reply {
        TransportEngineReply::AgentSetup(id, message) => id,
        TransportEngineReply::AgentConnect(id, message) => id,
    }
}

/// The proxy of a device is told of agents of that device only.
pub proof fn replies_reach_their_device<T: Transporter>(dev: int, done: Seq<Finished<T>>)
    ensures
        forall|k: int|
            0 <= k < replies_for(dev, done).len() ==> agent_of(
                #[trigger] replies_for(dev, done)[k],
            ).client_cuda_dev == dev,
    decreases done.len(),
{
    if done.len() > 0 {
        replies_reach_their_device(dev, done.drop_last());
    }
}

/// Each piece of work that is done is reported exactly once to the proxy of its agent's device:
/// the one reply more that this proxy gets, when one more piece of work is done, is about it.
pub proof fn each_result_is_reported_once<T: Transporter>(
    dev: int,
    done: Seq<Finished<T>>,
    last: Finished<T>,
)
    ensures
        replies_for(dev, done.push(last)) == if last.agent_id.client_cuda_dev == dev {
            replies_for(dev, done).push(reply_to(last.agent_id, last.result))
        } else {
            replies_for(dev, done)
        },
{
    assert(done.push(last).drop_last() =~= done);
}

} // verus!
