//! Laws of the transport engine.
use vstd::prelude::*;

use crate::transport::engine::{
    answers, came_of_driving, connected_with_all, finished, going_on, messages, new_connect_task,
    new_setup_task, replies_for, reply_to, setup_after_all, setup_with_all, AsyncTask,
    AsyncTaskResult, EngineError, TaskStage, TransportAgent, TransportEngine, TransportEngineResources,
};
use crate::transport::message::{TransportEngineReply, TransportEngineRequest};
use crate::transport::transporter::{ConnType, TaskPoll, TransportAgentId, Transporter};
use crate::utils::duplex_chan::{came_back, found_at_once, was_taken, Polled};

verus! {

/// `task` sets up the agent `id`: it came out of the transport's setup in the direction of the
/// agent's connection, whatever else the agent's name says.
pub open spec fn sets_up<T: Transporter>(
    task: AsyncTask<T>,
    transporter: T,
    id: TransportAgentId,
    request: T::Message,
    catalog: T::Catalog,
) -> bool {
    &&& task.agent_id == id
    &&& task.transporter == transporter
    &&& task.stage == TaskStage::Setup
    &&& task.polled@.len() == 0
    &&& id.peer_conn.conn_type == ConnType::Send ==> call_ensures(
        T::agent_send_setup,
        (&transporter, id, request, &catalog),
        task.task,
    )
    &&& id.peer_conn.conn_type == ConnType::Recv ==> call_ensures(
        T::agent_recv_setup,
        (&transporter, id, request, &catalog),
        task.task,
    )
}

/// `task` connects the agent `id`: it came out of the transport's connecting in the direction of the
/// agent's connection, whatever else the agent's name says.
pub open spec fn connects<T: Transporter>(
    task: AsyncTask<T>,
    transporter: T,
    id: TransportAgentId,
    request: T::Message,
    left: Option<T::Resources>,
) -> bool {
    &&& task.agent_id == id
    &&& task.transporter == transporter
    &&& task.stage == TaskStage::Connect
    &&& task.polled@.len() == 0
    &&& id.peer_conn.conn_type == ConnType::Send ==> call_ensures(
        T::agent_send_connect,
        (&transporter, id, request, left),
        task.task,
    )
    &&& id.peer_conn.conn_type == ConnType::Recv ==> call_ensures(
        T::agent_recv_connect,
        (&transporter, id, request, left),
        task.task,
    )
}

/// Setting up goes in the direction of the connection, with the request and the catalog handed on
/// unchanged.
pub proof fn setup_follows_the_direction<T: Transporter>(
    transporter: T,
    id: TransportAgentId,
    request: T::Message,
    catalog: T::Catalog,
    task: AsyncTask<T>,
)
    requires
        call_ensures(new_setup_task::<T>, (transporter, id, request, &catalog), task),
    ensures
        task.agent_id == id,
        task.transporter == transporter,
        task.stage == TaskStage::Setup,
        task.polled@.len() == 0,
        id.peer_conn.conn_type == ConnType::Send ==> call_ensures(
            T::agent_send_setup,
            (&transporter, id, request, &catalog),
            task.task,
        ),
        id.peer_conn.conn_type == ConnType::Recv ==> call_ensures(
            T::agent_recv_setup,
            (&transporter, id, request, &catalog),
            task.task,
        ),
{
}

/// Connecting goes in the direction of the connection, with the request and what the setup left
/// handed on unchanged.
pub proof fn connect_follows_the_direction<T: Transporter>(
    transporter: T,
    id: TransportAgentId,
    request: T::Message,
    left: Option<T::Resources>,
    task: AsyncTask<T>,
)
    requires
        call_ensures(new_connect_task::<T>, (transporter, id, request, left), task),
    ensures
        task.agent_id == id,
        task.transporter == transporter,
        task.stage == TaskStage::Connect,
        task.polled@.len() == 0,
        id.peer_conn.conn_type == ConnType::Send ==> call_ensures(
            T::agent_send_connect,
            (&transporter, id, request, left),
            task.task,
        ),
        id.peer_conn.conn_type == ConnType::Recv ==> call_ensures(
            T::agent_recv_connect,
            (&transporter, id, request, left),
            task.task,
        ),
{
}

/// Two tables agree on all agents but `id`.
pub open spec fn agree_elsewhere<V>(
    before: Map<TransportAgentId, V>,
    after: Map<TransportAgentId, V>,
    id: TransportAgentId,
) -> bool {
    forall|other: TransportAgentId|
        other != id ==> (#[trigger] after.contains_key(other) <==> before.contains_key(other)) && (
        before.contains_key(other) ==> after[other] == before[other])
}

/// The links to the proxies are the same, what was sent aside.
pub open spec fn same_proxies<T: Transporter, O>(
    before: TransportEngineResources<T, O>,
    after: TransportEngineResources<T, O>,
) -> bool {
    &&& after.transport_catalog == before.transport_catalog
    &&& after.proxy_chan@.len() == before.proxy_chan@.len()
    &&& forall|d: int|
        0 <= d < after.proxy_chan@.len() ==> {
            &&& (#[trigger] after.proxy_chan@[d]).rx == before.proxy_chan@[d].rx
            &&& after.proxy_chan@[d].tx.id() == before.proxy_chan@[d].tx.id()
            &&& after.proxy_chan@[d].tx.channel() == before.proxy_chan@[d].tx.channel()
            &&& after.proxy_chan@[d].tx.others() == before.proxy_chan@[d].tx.others()
        }
}

/// One message more went to the proxy of the device `dev`, which took it; no other proxy got one.
pub open spec fn one_more_sent<T: Transporter, O>(
    before: TransportEngineResources<T, O>,
    after: TransportEngineResources<T, O>,
    dev: int,
    reply: TransportEngineReply<T::Message>,
) -> bool {
    &&& 0 <= dev < before.proxy_chan@.len()
    &&& was_taken(before.proxy_chan@[dev].tx.channel(), reply)
    &&& after.proxy_chan@[dev].tx.sent() == before.proxy_chan@[dev].tx.sent().push(reply)
    &&& forall|d: int|
        0 <= d < after.proxy_chan@.len() && d != dev ==> (#[trigger] after.proxy_chan@[d]).tx.sent()
            == before.proxy_chan@[d].tx.sent()
}

/// Nothing is recorded, and no proxy got anything.
pub open spec fn nothing_happened<T: Transporter, O>(
    before: TransportEngineResources<T, O>,
    after: TransportEngineResources<T, O>,
) -> bool {
    &&& same_proxies(before, after)
    &&& after.agent_setup@ == before.agent_setup@
    &&& after.agent_connected@ == before.agent_connected@
    &&& forall|d: int|
        0 <= d < after.proxy_chan@.len() ==> (#[trigger] after.proxy_chan@[d]).tx.sent()
            == before.proxy_chan@[d].tx.sent()
}

/// The setup of the agent `id` left `resources`: they stand under its name, and the proxy of its
/// client's device got the reply.
pub open spec fn is_set_up<T: Transporter, O>(
    before: TransportEngineResources<T, O>,
    after: TransportEngineResources<T, O>,
    id: TransportAgentId,
    resources: T::Resources,
    reply: T::Message,
) -> bool {
    &&& same_proxies(before, after)
    &&& one_more_sent(
        before,
        after,
        id.client_cuda_dev as int,
        TransportEngineReply::AgentSetup(id, reply),
    )
    &&& after.agent_setup@.contains_key(id)
    &&& after.agent_setup@[id] == resources
    &&& agree_elsewhere(before.agent_setup@, after.agent_setup@, id)
    &&& after.agent_connected@ == before.agent_connected@
}

/// The agent `id` is connected: it stands under its name with its transporter and its resources, and
/// the proxy of its client's device got the reply.
pub open spec fn is_connected<T: Transporter, O>(
    before: TransportEngineResources<T, O>,
    after: TransportEngineResources<T, O>,
    id: TransportAgentId,
    transporter: T,
    resources: T::Resources,
    reply: T::Message,
) -> bool {
    &&& same_proxies(before, after)
    &&& one_more_sent(
        before,
        after,
        id.client_cuda_dev as int,
        TransportEngineReply::AgentConnect(id, reply),
    )
    &&& after.agent_connected@.contains_key(id)
    &&& after.agent_connected@[id].transporter == transporter
    &&& after.agent_connected@[id].agent_resources == resources
    &&& agree_elsewhere(before.agent_connected@, after.agent_connected@, id)
    &&& after.agent_setup@ == before.agent_setup@
}

/// Every result of every agent, sending or receiving, is recorded under the agent's name once the
/// proxy of its client's device took the reply; where there is no such proxy, or the reply came
/// back, nothing is.
pub proof fn results_are_recorded<T: Transporter, O>(
    engine: &mut TransportEngineResources<T, O>,
    id: TransportAgentId,
    transporter: T,
    result: AsyncTaskResult<T::Resources, T::Message>,
    r: Result<(), EngineError>,
)
    requires
        call_ensures(
            TransportEngineResources::<T, O>::finish_task,
            (engine, id, transporter, result),
            r,
        ),
    ensures
        ({
            let dev = id.client_cuda_dev as int;
            let missing = dev < 0 || dev >= old(engine).proxy_chan@.len();
            &&& missing <==> r == Err::<(), EngineError>(EngineError::NoProxy(id))
            &&& r is Ok ==> match result {
                AsyncTaskResult::Setup { setup_resources, reply } => is_set_up(
                    *old(engine),
                    *final(engine),
                    id,
                    setup_resources,
                    reply,
                ),
                AsyncTaskResult::Connect { agent_resources, reply } => is_connected(
                    *old(engine),
                    *final(engine),
                    id,
                    transporter,
                    agent_resources,
                    reply,
                ),
            }
            &&& r is Err ==> nothing_happened(*old(engine), *final(engine))
            &&& r is Err && !missing ==> {
                &&& r == Err::<(), EngineError>(EngineError::ReplyUndelivered(id))
                &&& came_back(
                    old(engine).proxy_chan@[dev].tx.channel(),
                    match result {
                        AsyncTaskResult::Setup { setup_resources, reply } => {
                            TransportEngineReply::AgentSetup(id, reply)
                        },
                        AsyncTaskResult::Connect { agent_resources, reply } => {
                            TransportEngineReply::AgentConnect(id, reply)
                        },
                    },
                )
            }
        }),
{
}

/// After a reply was taken, what the work left stands in the table of its stage under the agent's
/// name; after one that came back, nothing changed.
pub proof fn replies_decide_what_is_recorded<T: Transporter, O>(
    engine: &mut TransportEngineResources<T, O>,
    id: TransportAgentId,
    transporter: T,
    stage: TaskStage,
    resources: T::Resources,
    sent: Result<(), TransportEngineReply<T::Message>>,
    r: Result<(), EngineError>,
)
    requires
        call_ensures(
            TransportEngineResources::<T, O>::after_reply,
            (engine, id, transporter, stage, resources, sent),
            r,
        ),
    ensures
        final(engine).proxy_chan == old(engine).proxy_chan,
        final(engine).transport_catalog == old(engine).transport_catalog,
        sent is Ok <==> r is Ok,
        sent is Err ==> r == Err::<(), EngineError>(EngineError::ReplyUndelivered(id))
            && *final(engine) == *old(engine),
        sent is Ok && stage == TaskStage::Setup ==> {
            &&& final(engine).agent_setup@.contains_key(id)
            &&& final(engine).agent_setup@[id] == resources
            &&& agree_elsewhere(old(engine).agent_setup@, final(engine).agent_setup@, id)
            &&& final(engine).agent_connected@ == old(engine).agent_connected@
        },
        sent is Ok && stage == TaskStage::Connect ==> {
            &&& final(engine).agent_connected@.contains_key(id)
            &&& final(engine).agent_connected@[id].transporter == transporter
            &&& final(engine).agent_connected@[id].agent_resources == resources
            &&& agree_elsewhere(old(engine).agent_connected@, final(engine).agent_connected@, id)
            &&& final(engine).agent_setup@ == old(engine).agent_setup@
        },
{
}

/// Driving work polls it once. Work that goes on leaves the engine as it is, work that failed too,
/// and work that is done is recorded by its stage.
pub proof fn work_is_driven<T: Transporter, O>(
    engine: &mut TransportEngineResources<T, O>,
    task: &mut AsyncTask<T>,
    r: Result<bool, EngineError>,
)
    requires
        call_ensures(TransportEngineResources::<T, O>::progress_async_task, (engine, task), r),
    ensures
        final(task).agent_id == old(task).agent_id,
        final(task).transporter == old(task).transporter,
        final(task).stage == old(task).stage,
        final(task).polled@.len() == old(task).polled@.len() + 1,
        final(task).polled@.drop_last() == old(task).polled@,
        ({
            let id = old(task).agent_id;
            let dev = id.client_cuda_dev as int;
            let missing = dev < 0 || dev >= old(engine).proxy_chan@.len();
            let outcome = final(task).polled@.last();
            &&& old(task).transporter.drives(old(task).task, final(task).task, outcome)
            &&& outcome is Pending ==> r == Ok::<bool, EngineError>(false) && *final(engine)
                == *old(engine)
            &&& outcome is Failed ==> r == Err::<bool, EngineError>(EngineError::TaskFailed(id))
                && *final(engine) == *old(engine)
            &&& outcome matches TaskPoll::Ready(resources, reply) ==> {
                &&& missing ==> r == Err::<bool, EngineError>(EngineError::NoProxy(id))
                &&& !missing && r is Err ==> {
                    &&& r == Err::<bool, EngineError>(EngineError::ReplyUndelivered(id))
                    &&& old(task).stage == TaskStage::Setup ==> came_back(
                        old(engine).proxy_chan@[dev].tx.channel(),
                        TransportEngineReply::AgentSetup(id, reply),
                    )
                    &&& old(task).stage == TaskStage::Connect ==> came_back(
                        old(engine).proxy_chan@[dev].tx.channel(),
                        TransportEngineReply::AgentConnect(id, reply),
                    )
                }
                &&& r is Err ==> nothing_happened(*old(engine), *final(engine))
                &&& r is Ok ==> r == Ok::<bool, EngineError>(true)
                &&& r is Ok && old(task).stage == TaskStage::Setup ==> is_set_up(
                    *old(engine),
                    *final(engine),
                    id,
                    resources,
                    reply,
                )
                &&& r is Ok && old(task).stage == TaskStage::Connect ==> is_connected(
                    *old(engine),
                    *final(engine),
                    id,
                    old(task).transporter,
                    resources,
                    reply,
                )
            }
        }),
{
}

/// An operation completes at once and changes nothing.
pub proof fn operations_complete_at_once<T: Transporter, O>(
    resources: &mut TransportEngineResources<T, O>,
    op: &mut O,
    r: bool,
)
    requires
        call_ensures(TransportEngineResources::<T, O>::progress_op, (resources, op), r),
    ensures
        r,
        *final(resources) == *old(resources),
        *final(op) == *old(op),
{
}

/// Driving the operations leaves none, and nothing else changes.
pub proof fn operations_are_driven<T: Transporter, O>(engine: &mut TransportEngine<T, O>)
    requires
        call_ensures(TransportEngine::<T, O>::progress_ops, (engine,), ()),
    ensures
        final(engine).op_queue@.len() == 0,
        final(engine).id == old(engine).id,
        final(engine).resources == old(engine).resources,
        final(engine).async_tasks == old(engine).async_tasks,
{
}

/// A request to set up an agent adds the work that does it; a request to connect one adds the work
/// that does it and hands it what the agent's setup left, which is used up; a request for an
/// operation is refused.
pub proof fn requests_are_taken<T: Transporter, O>(
    engine: &mut TransportEngine<T, O>,
    request: TransportEngineRequest<T, O>,
    r: Result<(), EngineError>,
)
    requires
        call_ensures(TransportEngine::<T, O>::take_request, (engine, request), r),
    ensures
        final(engine).id == old(engine).id,
        final(engine).op_queue == old(engine).op_queue,
        final(engine).resources.proxy_chan == old(engine).resources.proxy_chan,
        final(engine).resources.transport_catalog == old(engine).resources.transport_catalog,
        final(engine).resources.agent_connected == old(engine).resources.agent_connected,
        ({
            let before = old(engine).async_tasks@;
            let after = final(engine).async_tasks@;
            let setup = old(engine).resources.agent_setup@;
            let left = final(engine).resources.agent_setup@;
            &&& request matches TransportEngineRequest::AgentSetup(transporter, id, message) ==> {
                &&& r is Ok
                &&& after.len() == before.len() + 1
                &&& after.drop_last() == before
                &&& sets_up(
                    after.last(),
                    transporter,
                    id,
                    message,
                    old(engine).resources.transport_catalog,
                )
                &&& left == setup
            }
            &&& request matches TransportEngineRequest::AgentConnect(transporter, id, message) ==> {
                &&& r is Ok
                &&& after.len() == before.len() + 1
                &&& after.drop_last() == before
                &&& setup.contains_key(id) ==> connects(
                    after.last(),
                    transporter,
                    id,
                    message,
                    Some(setup[id]),
                )
                &&& !setup.contains_key(id) ==> connects(
                    after.last(),
                    transporter,
                    id,
                    message,
                    None,
                )
                &&& !left.contains_key(id)
                &&& agree_elsewhere(setup, left, id)
            }
            &&& request matches TransportEngineRequest::AgentTransportOp(id, op) ==> {
                &&& r == Err::<(), EngineError>(EngineError::TransportOpUnsupported(id))
                &&& *final(engine) == *old(engine)
            }
        }),
{
    reveal_with_fuel(setup_after_all, 2);
    assert(seq![request].drop_last() =~= Seq::empty());
    assert(seq![request].take(0) =~= Seq::empty());
    assert(seq![request][0] == request);
    if !(request is AgentTransportOp) {
        assert(final(engine).async_tasks@.drop_last() =~= old(engine).async_tasks@);
    }
}

/// What the last look for a message at the proxy `d` found.
pub open spec fn found<T: Transporter, O>(
    after: TransportEngine<T, O>,
    d: int,
) -> Polled<TransportEngineRequest<T, O>> {
    after.resources.proxy_chan@[d].rx.polled().last()
}

/// How many of the first `n` proxies had a request.
pub open spec fn requests_found<T: Transporter, O>(after: TransportEngine<T, O>, n: int) -> nat
    decreases n,
{
    if n <= 0 {
        0
    } else {
        requests_found(after, n - 1) + if found(after, n - 1) is Message {
            1nat
        } else {
            0
        }
    }
}

/// One of the first `n` proxies asked to connect the agent `id`.
pub open spec fn connect_found<T: Transporter, O>(
    after: TransportEngine<T, O>,
    id: TransportAgentId,
    n: int,
) -> bool {
    exists|d: int|
        0 <= d < n && (#[trigger] found(after, d) matches Polled::Message(
            TransportEngineRequest::AgentConnect(transporter, agent, message),
        ) && agent == id)
}

/// The first `n` proxies were asked, once each and in order; they had nothing, or a request that was
/// taken. The work that was asked for stands behind what was there, in the order of the proxies.
pub open spec fn took_from_first<T: Transporter, O>(
    before: TransportEngine<T, O>,
    after: TransportEngine<T, O>,
    n: int,
) -> bool {
    let had = before.async_tasks@;
    let work = after.async_tasks@;
    let setup = before.resources.agent_setup@;
    let left = after.resources.agent_setup@;
    &&& after.id == before.id
    &&& after.op_queue == before.op_queue
    &&& after.resources.agent_connected == before.resources.agent_connected
    &&& after.resources.transport_catalog == before.resources.transport_catalog
    &&& after.resources.proxy_chan@.len() == before.resources.proxy_chan@.len()
    &&& 0 <= n <= after.resources.proxy_chan@.len()
    &&& forall|d: int|
        0 <= d < after.resources.proxy_chan@.len() ==> {
            let now = #[trigger] after.resources.proxy_chan@[d];
            let then = before.resources.proxy_chan@[d];
            &&& now.tx == then.tx
            &&& now.rx.id() == then.rx.id()
            &&& now.rx.channel() == then.rx.channel()
            &&& d < n ==> now.rx.polled() == then.rx.polled().push(found(after, d))
            &&& d < n ==> found_at_once(then.rx.channel(), found(after, d))
            &&& d < n ==> !(found(after, d) is Disconnected)
        }
    &&& work.len() == had.len() + requests_found(after, n)
    &&& forall|i: int| 0 <= i < had.len() ==> #[trigger] work[i] == had[i]
    &&& forall|d: int|
        0 <= d < n ==> match #[trigger] found(after, d) {
            Polled::Message(TransportEngineRequest::AgentSetup(transporter, id, message)) => {
                sets_up(
                    work[(had.len() + requests_found(after, d)) as int],
                    transporter,
                    id,
                    message,
                    before.resources.transport_catalog,
                )
            },
            Polled::Message(TransportEngineRequest::AgentConnect(transporter, id, message)) => {
                let task = work[(had.len() + requests_found(after, d)) as int];
                if setup.contains_key(id) && !connect_found(after, id, d) {
                    connects(task, transporter, id, message, Some(setup[id]))
                } else {
                    connects(task, transporter, id, message, None)
                }
            },
            Polled::Message(TransportEngineRequest::AgentTransportOp(id, op)) => false,
            _ => true,
        }
    &&& forall|id: TransportAgentId|
        #[trigger] left.contains_key(id) <==> setup.contains_key(id) && !connect_found(
            after,
            id,
            n,
        )
    &&& forall|id: TransportAgentId|
        left.contains_key(id) ==> #[trigger] left[id] == setup[id]
}

/// All proxies were asked, or all up to one at which the engine found what it cannot deal with.
pub open spec fn asked_the_proxies<T: Transporter, O>(
    before: TransportEngine<T, O>,
    after: TransportEngine<T, O>,
    r: Result<(), EngineError>,
) -> bool {
    match r {
        Ok(_) => took_from_first(before, after, after.resources.proxy_chan@.len() as int),
        Err(e) => exists|d: int| #[trigger] stopped_at(before, after, d, e),
    }
}

/// The proxies before `d` were asked; the one at `d` is gone or asked for an operation, and no
/// further one was asked.
pub open spec fn stopped_at<T: Transporter, O>(
    before: TransportEngine<T, O>,
    after: TransportEngine<T, O>,
    d: int,
    e: EngineError,
) -> bool {
    &&& 0 <= d < after.resources.proxy_chan@.len()
    &&& took_from_first(before, after, d)
    &&& after.resources.proxy_chan@[d].rx.polled()
        == before.resources.proxy_chan@[d].rx.polled().push(found(after, d))
    &&& found_at_once(before.resources.proxy_chan@[d].rx.channel(), found(after, d))
    &&& match found(after, d) {
        Polled::Disconnected => e == EngineError::ProxyDisconnected(d as usize),
        Polled::Message(TransportEngineRequest::AgentTransportOp(id, op)) => e
            == EngineError::TransportOpUnsupported(id),
        _ => false,
    }
    &&& forall|other: int|
        d < other < after.resources.proxy_chan@.len()
            ==> (#[trigger] after.resources.proxy_chan@[other]).rx.polled()
            == before.resources.proxy_chan@[other].rx.polled()
}

/// What setups left is there still unless a request to connect the agent was taken.
proof fn lemma_left_after<T: Transporter, O>(
    setup: Map<TransportAgentId, T::Resources>,
    requests: Seq<TransportEngineRequest<T, O>>,
    id: TransportAgentId,
)
    ensures
        setup_after_all(setup, requests).contains_key(id) <==> setup.contains_key(id) && !(exists|
            k: int,
        |
            0 <= k < requests.len() && (#[trigger] requests[k] matches
                TransportEngineRequest::AgentConnect(transporter, agent, message) && agent == id)),
        setup_after_all(setup, requests).contains_key(id) ==> setup_after_all(setup, requests)[id]
            == setup[id],
    decreases requests.len(),
{
    if requests.len() > 0 {
        let earlier = requests.drop_last();
        lemma_left_after(setup, earlier, id);
        let last = requests.len() - 1;
        assert(requests[last] == requests.last());
        if exists|k: int|
            0 <= k < earlier.len() && (#[trigger] earlier[k] matches
                TransportEngineRequest::AgentConnect(transporter, agent, message) && agent == id) {
            let k = choose|k: int|
                0 <= k < earlier.len() && (#[trigger] earlier[k] matches
                    TransportEngineRequest::AgentConnect(transporter, agent, message) && agent
                    == id);
            assert(requests[k] == earlier[k]);
        }
        if exists|k: int|
            0 <= k < requests.len() && (#[trigger] requests[k] matches
                TransportEngineRequest::AgentConnect(transporter, agent, message) && agent == id) {
            let k = choose|k: int|
                0 <= k < requests.len() && (#[trigger] requests[k] matches
                    TransportEngineRequest::AgentConnect(transporter, agent, message) && agent
                    == id);
            if k < last {
                assert(earlier[k] == requests[k]);
            }
        }
    }
}

/// The messages among what the first `n` proxies had.
proof fn lemma_messages<T: Transporter, O>(
    after: TransportEngine<T, O>,
    polls: Seq<Polled<TransportEngineRequest<T, O>>>,
    n: int,
)
    requires
        0 <= n <= polls.len(),
        forall|d: int| 0 <= d < n ==> #[trigger] polls[d] == found(after, d),
    ensures
        messages(polls.take(n)).len() == requests_found(after, n),
        forall|d: int|
            0 <= d < n ==> (#[trigger] found(after, d) matches Polled::Message(m) ==> {
                &&& requests_found(after, d) < requests_found(after, n)
                &&& messages(polls.take(n))[requests_found(after, d) as int] == m
            }),
        forall|k: int|
            0 <= k < requests_found(after, n) ==> exists|d: int|
                0 <= d < n && requests_found(after, d) == k && (#[trigger] found(after, d)
                    matches Polled::Message(m) && m == #[trigger] messages(polls.take(n))[k]),
    decreases n,
{
    if n > 0 {
        lemma_messages(after, polls, n - 1);
        assert(polls.take(n).drop_last() =~= polls.take(n - 1));
        assert(polls.take(n).last() == polls[n - 1]);
        assert(polls[n - 1] == found(after, n - 1));
        let now = messages(polls.take(n));
        let then = messages(polls.take(n - 1));
        assert forall|k: int| 0 <= k < requests_found(after, n) implies exists|d: int|
            0 <= d < n && requests_found(after, d) == k && (#[trigger] found(after, d)
                matches Polled::Message(m) && m == #[trigger] now[k]) by {
            if k < then.len() {
                assert(then[k] == now[k]);
                let d = choose|d: int|
                    0 <= d < n - 1 && requests_found(after, d) == k && (#[trigger] found(after, d)
                        matches Polled::Message(m) && m == then[k]);
                assert(found(after, d) matches Polled::Message(m) && m == now[k]);
            } else {
                assert(found(after, n - 1) matches Polled::Message(m) && m == now[k]);
            }
        }
    }
}

/// Fewer proxies had no more requests.
proof fn lemma_found_grows<T: Transporter, O>(after: TransportEngine<T, O>, a: int, b: int)
    requires
        0 <= a <= b,
    ensures
        requests_found(after, a) <= requests_found(after, b),
    decreases b - a,
{
    if a < b {
        lemma_found_grows(after, a, b - 1);
    }
}

/// From the engine's own account of asking to the plain one.
proof fn lemma_took<T: Transporter, O>(
    before: TransportEngine<T, O>,
    after: TransportEngine<T, O>,
    polls: Seq<Polled<TransportEngineRequest<T, O>>>,
    n: int,
)
    requires
        after.asked(before, polls),
        0 <= n <= polls.len(),
        after.takes(before, messages(polls.take(n))),
        forall|d: int|
            0 <= d < n ==> !(#[trigger] polls[d] is Disconnected) && !(polls[d] matches
                Polled::Message(TransportEngineRequest::AgentTransportOp(id, op))),
    ensures
        took_from_first(before, after, n),
{
    let requests = messages(polls.take(n));
    let setup = before.resources.agent_setup@;
    let left = after.resources.agent_setup@;
    let had = before.async_tasks@;
    let work = after.async_tasks@;
    assert forall|d: int| 0 <= d < polls.len() implies #[trigger] polls[d] == found(after, d) by {
        let now = after.resources.proxy_chan@[d];
        assert(now.rx.polled() == before.resources.proxy_chan@[d].rx.polled().push(polls[d]));
    }
    lemma_messages(after, polls, n);
    assert forall|id: TransportAgentId, d: int| 0 <= d <= n implies (exists|k: int|
        0 <= k < requests_found(after, d) && (#[trigger] requests[k] matches
            TransportEngineRequest::AgentConnect(transporter, agent, message) && agent == id))
        == #[trigger] connect_found(after, id, d) by {
        lemma_messages(after, polls, d);
        lemma_found_grows(after, d, n);
        lemma_prefix(polls, d, n);
        let some = messages(polls.take(d));
        if connect_found(after, id, d) {
            let at = choose|at: int|
                0 <= at < d && (#[trigger] found(after, at) matches Polled::Message(
                    TransportEngineRequest::AgentConnect(transporter, agent, message),
                ) && agent == id);
            let k = requests_found(after, at) as int;
            assert(some[k] == requests[k]);
            assert(requests[k] matches TransportEngineRequest::AgentConnect(
                transporter,
                agent,
                message,
            ) && agent == id);
        }
        if exists|k: int|
            0 <= k < requests_found(after, d) && (#[trigger] requests[k] matches
                TransportEngineRequest::AgentConnect(transporter, agent, message) && agent == id) {
            let k = choose|k: int|
                0 <= k < requests_found(after, d) && (#[trigger] requests[k] matches
                    TransportEngineRequest::AgentConnect(transporter, agent, message) && agent
                    == id);
            assert(some[k] == requests[k]);
            let at = choose|at: int|
                0 <= at < d && requests_found(after, at) == k && (#[trigger] found(after, at)
                    matches Polled::Message(m) && m == some[k]);
            assert(found(after, at) matches Polled::Message(
                TransportEngineRequest::AgentConnect(transporter, agent, message),
            ) && agent == id);
        }
    }
    assert forall|d: int| 0 <= d < n implies match #[trigger] found(after, d) {
        Polled::Message(TransportEngineRequest::AgentSetup(transporter, id, message)) => sets_up(
            work[(had.len() + requests_found(after, d)) as int],
            transporter,
            id,
            message,
            before.resources.transport_catalog,
        ),
        Polled::Message(TransportEngineRequest::AgentConnect(transporter, id, message)) => {
            let task = work[(had.len() + requests_found(after, d)) as int];
            if setup.contains_key(id) && !connect_found(after, id, d) {
                connects(task, transporter, id, message, Some(setup[id]))
            } else {
                connects(task, transporter, id, message, None)
            }
        },
        Polled::Message(TransportEngineRequest::AgentTransportOp(id, op)) => false,
        _ => true,
    } by {
        assert(polls[d] == found(after, d));
        if let Polled::Message(m) = found(after, d) {
            let k = requests_found(after, d) as int;
            assert(requests[k] == m);
            assert(answers(
                work[had.len() + k],
                requests[k],
                setup_after_all(setup, requests.take(k)),
                before.resources.transport_catalog,
            ));
            if let TransportEngineRequest::AgentConnect(transporter, id, message) = m {
                lemma_left_after(setup, requests.take(k), id);
                assert(connect_found(after, id, d) == (exists|j: int|
                    0 <= j < k && (#[trigger] requests[j] matches
                        TransportEngineRequest::AgentConnect(t, agent, w) && agent == id)));
                if exists|j: int|
                    0 <= j < k && (#[trigger] requests[j] matches
                        TransportEngineRequest::AgentConnect(t, agent, w) && agent == id) {
                    let j = choose|j: int|
                        0 <= j < k && (#[trigger] requests[j] matches
                            TransportEngineRequest::AgentConnect(t, agent, w) && agent == id);
                    assert(requests.take(k)[j] == requests[j]);
                }
                if exists|j: int|
                    0 <= j < requests.take(k).len() && (#[trigger] requests.take(k)[j] matches
                        TransportEngineRequest::AgentConnect(t, agent, w) && agent == id) {
                    let j = choose|j: int|
                        0 <= j < requests.take(k).len() && (#[trigger] requests.take(k)[j] matches
                            TransportEngineRequest::AgentConnect(t, agent, w) && agent == id);
                    assert(requests[j] == requests.take(k)[j]);
                }
            }
        }
    }
    assert forall|id: TransportAgentId|
        #[trigger] left.contains_key(id) <==> setup.contains_key(id) && !connect_found(
            after,
            id,
            n,
        ) by {
        lemma_left_after(setup, requests, id);
        assert(connect_found(after, id, n) == (exists|k: int|
            0 <= k < requests_found(after, n) && (#[trigger] requests[k] matches
                TransportEngineRequest::AgentConnect(transporter, agent, message) && agent == id)));
    }
    assert forall|id: TransportAgentId| left.contains_key(id) implies #[trigger] left[id]
        == setup[id] by {
        lemma_left_after(setup, requests, id);
    }
}

/// The messages among the first of what was found come first among the messages.
proof fn lemma_prefix<M>(polls: Seq<Polled<M>>, a: int, b: int)
    requires
        0 <= a <= b <= polls.len(),
    ensures
        messages(polls.take(a)).len() <= messages(polls.take(b)).len(),
        forall|k: int|
            0 <= k < messages(polls.take(a)).len() ==> #[trigger] messages(polls.take(a))[k]
                == messages(polls.take(b))[k],
    decreases b - a,
{
    if a < b {
        lemma_prefix(polls, a, b - 1);
        assert(polls.take(b).drop_last() =~= polls.take(b - 1));
    }
}

/// Each proxy is asked once, in order, and what it asks for is started; the engine stops at the
/// first that is gone or asks for an operation.
pub proof fn proxies_are_asked<T: Transporter, O>(
    engine: &mut TransportEngine<T, O>,
    r: Result<(), EngineError>,
)
    requires
        call_ensures(TransportEngine::<T, O>::check_proxy_requests, (engine,), r),
    ensures
        asked_the_proxies(*old(engine), *final(engine), r),
{
    lemma_asked(*old(engine), *final(engine), r);
}

/// From the engine's own account of asking to the plain one.
proof fn lemma_asked<T: Transporter, O>(
    before: TransportEngine<T, O>,
    after: TransportEngine<T, O>,
    r: Result<(), EngineError>,
)
    requires
        exists|polls: Seq<Polled<TransportEngineRequest<T, O>>>| #[trigger]
            after.checked(before, polls, r),
    ensures
        asked_the_proxies(before, after, r),
{
    let polls = choose|polls: Seq<Polled<TransportEngineRequest<T, O>>>| #[trigger]
        after.checked(before, polls, r);
    match r {
        Ok(_) => {
            assert(polls.take(polls.len() as int) =~= polls);
            lemma_took(before, after, polls, polls.len() as int);
        },
        Err(e) => {
            let d = polls.len() - 1;
            assert(polls.take(d) =~= polls.drop_last());
            lemma_took(before, after, polls, d);
            assert(polls[d] == found(after, d)) by {
                let now = after.resources.proxy_chan@[d];
            }
            assert(stopped_at(before, after, d, e));
        },
    }
}

/// What the proxy of the agent's client hears when `task` is done.
pub open spec fn reply_of<T: Transporter>(
    task: AsyncTask<T>,
    message: T::Message,
) -> TransportEngineReply<T::Message> {
    if task.stage == TaskStage::Setup {
        TransportEngineReply::AgentSetup(task.agent_id, message)
    } else {
        TransportEngineReply::AgentConnect(task.agent_id, message)
    }
}

/// How much of the first `n` pieces of work goes on.
pub open spec fn pending_before<R, M>(polls: Seq<TaskPoll<R, M>>, n: int) -> nat
    decreases n,
{
    if n <= 0 {
        0
    } else {
        pending_before(polls, n - 1) + if polls[n - 1] is Pending {
            1nat
        } else {
            0
        }
    }
}

/// How much of the first `n` pieces of work is done, of agents with clients on the device `dev`.
pub open spec fn done_for<T: Transporter>(
    tasks: Seq<AsyncTask<T>>,
    polls: Seq<TaskPoll<T::Resources, T::Message>>,
    dev: int,
    n: int,
) -> nat
    decreases n,
{
    if n <= 0 {
        0
    } else {
        done_for(tasks, polls, dev, n - 1) + if polls[n - 1] is Ready && tasks[n
            - 1].agent_id.client_cuda_dev == dev {
            1nat
        } else {
            0
        }
    }
}

/// The last of the first `n` pieces of work that did the stage `stage` of the agent `id`.
pub open spec fn latest<T: Transporter>(
    tasks: Seq<AsyncTask<T>>,
    polls: Seq<TaskPoll<T::Resources, T::Message>>,
    id: TransportAgentId,
    stage: TaskStage,
    n: int,
) -> Option<int>
    decreases n,
{
    if n <= 0 {
        None
    } else if polls[n - 1] is Ready && tasks[n - 1].agent_id == id && tasks[n - 1].stage == stage {
        Some(n - 1)
    } else {
        latest(tasks, polls, id, stage, n - 1)
    }
}

/// What a piece of work left behind when it was done.
pub open spec fn left_by<R, M>(poll: TaskPoll<R, M>) -> R {
    match poll {
        TaskPoll::Ready(resources, message) => resources,
        _ => arbitrary(),
    }
}

/// Polling `task` once came to `poll`.
pub open spec fn polled_to<T: Transporter>(
    task: AsyncTask<T>,
    poll: TaskPoll<T::Resources, T::Message>,
) -> bool {
    exists|driven: T::Task| #[trigger] task.transporter.drives(task.task, driven, poll)
}

/// The work was driven in order, each piece once; `polls` is what came of it. Of the first `n`
/// pieces, what goes on stays, in order; what was not driven follows behind.
pub open spec fn what_goes_on_stays<T: Transporter, O>(
    before: TransportEngine<T, O>,
    after: TransportEngine<T, O>,
    polls: Seq<TaskPoll<T::Resources, T::Message>>,
    n: int,
) -> bool {
    let tasks = before.async_tasks@;
    let rest = after.async_tasks@;
    &&& 0 <= n <= polls.len() <= tasks.len()
    &&& forall|i: int|
        0 <= i < polls.len() ==> polled_to(tasks[i], #[trigger] polls[i])
    &&& rest.len() == pending_before(polls, n) + tasks.len() - polls.len()
    &&& forall|i: int|
        0 <= i < n ==> (#[trigger] polls[i] is Pending ==> {
            let task = rest[pending_before(polls, i) as int];
            &&& pending_before(polls, i) < rest.len()
            &&& task.agent_id == tasks[i].agent_id
            &&& task.transporter == tasks[i].transporter
            &&& task.stage == tasks[i].stage
            &&& tasks[i].transporter.drives(tasks[i].task, task.task, TaskPoll::Pending)
            &&& task.polled@ == tasks[i].polled@.push(TaskPoll::Pending)
        })
    &&& forall|k: int|
        pending_before(polls, n) <= k < rest.len() ==> #[trigger] rest[k] == tasks[k
            - pending_before(polls, n) + polls.len()]
}

/// Of the first `n` pieces of work, none failed, and of each that is done the proxy of its client's
/// device got the reply, in order; no proxy got anything else.
pub open spec fn what_is_done_is_reported<T: Transporter, O>(
    before: TransportEngine<T, O>,
    after: TransportEngine<T, O>,
    polls: Seq<TaskPoll<T::Resources, T::Message>>,
    n: int,
) -> bool {
    let tasks = before.async_tasks@;
    let then = before.resources.proxy_chan@;
    let now = after.resources.proxy_chan@;
    &&& same_proxies(before.resources, after.resources)
    &&& forall|i: int| 0 <= i < n ==> !(#[trigger] polls[i] is Failed)
    &&& forall|i: int|
        0 <= i < n ==> (#[trigger] polls[i] matches TaskPoll::Ready(resources, message) ==> {
            let dev = tasks[i].agent_id.client_cuda_dev as int;
            let place = then[dev].tx.sent().len() + done_for(tasks, polls, dev, i);
            &&& 0 <= dev < then.len()
            &&& was_taken(then[dev].tx.channel(), reply_of(tasks[i], message))
            &&& place < now[dev].tx.sent().len()
            &&& now[dev].tx.sent()[place as int] == reply_of(tasks[i], message)
        })
    &&& forall|d: int|
        0 <= d < now.len() ==> {
            let sent = (#[trigger] now[d]).tx.sent();
            &&& sent.len() == then[d].tx.sent().len() + done_for(tasks, polls, d, n)
            &&& sent.take(then[d].tx.sent().len() as int) == then[d].tx.sent()
        }
}

/// What the latest of the first `n` pieces of work that did a stage of the agent `id` left stands
/// under its name; where there was none, what stood there stands.
pub open spec fn what_is_done_is_recorded<T: Transporter, O>(
    before: TransportEngine<T, O>,
    after: TransportEngine<T, O>,
    polls: Seq<TaskPoll<T::Resources, T::Message>>,
    id: TransportAgentId,
    n: int,
) -> bool {
    let tasks = before.async_tasks@;
    let setup = before.resources.agent_setup@;
    let set_up = after.resources.agent_setup@;
    let connected = before.resources.agent_connected@;
    let connected_now = after.resources.agent_connected@;
    let last_setup = latest(tasks, polls, id, TaskStage::Setup, n);
    let last_connect = latest(tasks, polls, id, TaskStage::Connect, n);
    &&& set_up.contains_key(id) <==> setup.contains_key(id) || last_setup is Some
    &&& set_up.contains_key(id) ==> set_up[id] == match last_setup {
        Some(i) => left_by(polls[i]),
        None => setup[id],
    }
    &&& connected_now.contains_key(id) <==> connected.contains_key(id) || last_connect is Some
    &&& connected_now.contains_key(id) ==> match last_connect {
        Some(i) => {
            &&& connected_now[id].transporter == tasks[i].transporter
            &&& connected_now[id].agent_resources == left_by(polls[i])
        },
        None => connected_now[id] == connected[id],
    }
}

/// The work was driven in order, each piece once; `polls` is what came of it. Of the first `n`
/// pieces, what goes on stays, and what is done is reported and recorded.
pub open spec fn drove<T: Transporter, O>(
    before: TransportEngine<T, O>,
    after: TransportEngine<T, O>,
    polls: Seq<TaskPoll<T::Resources, T::Message>>,
    n: int,
) -> bool {
    &&& after.id == before.id
    &&& after.op_queue == before.op_queue
    &&& what_goes_on_stays(before, after, polls, n)
    &&& what_is_done_is_reported(before, after, polls, n)
    &&& forall|id: TransportAgentId| #[trigger]
        what_is_done_is_recorded(before, after, polls, id, n)
}

/// All work was driven, or all up to a piece that failed or could not be reported; that piece is
/// gone, and nothing is recorded of it.
pub open spec fn drove_the_work<T: Transporter, O>(
    before: TransportEngine<T, O>,
    after: TransportEngine<T, O>,
    r: Result<(), EngineError>,
) -> bool {
    exists|polls: Seq<TaskPoll<T::Resources, T::Message>>| #[trigger]
        drove_until(before, after, polls, r)
}

/// As [`drove_the_work`]; `polls` is what came of driving the work.
pub open spec fn drove_until<T: Transporter, O>(
    before: TransportEngine<T, O>,
    after: TransportEngine<T, O>,
    polls: Seq<TaskPoll<T::Resources, T::Message>>,
    r: Result<(), EngineError>,
) -> bool {
    match r {
        Ok(_) => {
            &&& polls.len() == before.async_tasks@.len()
            &&& drove(before, after, polls, polls.len() as int)
        },
        Err(e) => {
            let last = polls.len() - 1;
            let task = before.async_tasks@[last];
            let dev = task.agent_id.client_cuda_dev as int;
            &&& last >= 0
            &&& drove(before, after, polls, last)
            &&& match polls[last] {
                TaskPoll::Pending => false,
                TaskPoll::Failed => e == EngineError::TaskFailed(task.agent_id),
                TaskPoll::Ready(resources, message) => if 0 <= dev
                    < before.resources.proxy_chan@.len() {
                    &&& e == EngineError::ReplyUndelivered(task.agent_id)
                    &&& came_back(
                        before.resources.proxy_chan@[dev].tx.channel(),
                        reply_of(task, message),
                    )
                } else {
                    e == EngineError::NoProxy(task.agent_id)
                },
            }
        },
    }
}

/// How much of the first `n` pieces of work is done.
spec fn done_before<R, M>(polls: Seq<TaskPoll<R, M>>, n: int) -> nat
    decreases n,
{
    if n <= 0 {
        0
    } else {
        done_before(polls, n - 1) + if polls[n - 1] is Ready {
            1nat
        } else {
            0
        }
    }
}

/// Where the work that goes on stands.
proof fn lemma_pending<R, M>(polls: Seq<TaskPoll<R, M>>, n: int)
    requires
        0 <= n <= polls.len(),
    ensures
        going_on(polls.take(n)).len() == pending_before(polls, n),
        forall|i: int|
            0 <= i < n ==> (#[trigger] polls[i] is Pending ==> {
                &&& pending_before(polls, i) < pending_before(polls, n)
                &&& going_on(polls.take(n))[pending_before(polls, i) as int] == i
            }),
    decreases n,
{
    if n > 0 {
        lemma_pending(polls, n - 1);
        assert(polls.take(n).drop_last() =~= polls.take(n - 1));
        assert(polls.take(n).last() == polls[n - 1]);
    }
}

/// Where the results stand.
proof fn lemma_done<T: Transporter>(
    tasks: Seq<AsyncTask<T>>,
    polls: Seq<TaskPoll<T::Resources, T::Message>>,
    n: int,
)
    requires
        0 <= n <= polls.len() <= tasks.len(),
    ensures
        finished(tasks, polls.take(n)).len() == done_before(polls, n),
        forall|i: int|
            0 <= i < n ==> (#[trigger] polls[i] matches TaskPoll::Ready(resources, message) ==> {
                let done = finished(tasks, polls.take(n))[done_before(polls, i) as int];
                &&& done_before(polls, i) < done_before(polls, n)
                &&& done.agent_id == tasks[i].agent_id
                &&& reply_to(done.agent_id, done.result) == reply_of(tasks[i], message)
            }),
    decreases n,
{
    if n > 0 {
        lemma_done(tasks, polls, n - 1);
        assert(polls.take(n).drop_last() =~= polls.take(n - 1));
        assert(polls.take(n).last() == polls[n - 1]);
    }
}

/// Which replies a proxy gets, and where they stand among all that it gets.
proof fn lemma_replies<T: Transporter>(
    tasks: Seq<AsyncTask<T>>,
    polls: Seq<TaskPoll<T::Resources, T::Message>>,
    dev: int,
    n: int,
)
    requires
        0 <= n <= polls.len() <= tasks.len(),
    ensures
        replies_for(dev, finished(tasks, polls.take(n))).len() == done_for(tasks, polls, dev, n),
        forall|i: int|
            0 <= i < n && tasks[i].agent_id.client_cuda_dev == dev ==> (#[trigger] polls[i] matches
                TaskPoll::Ready(resources, message) ==> {
                &&& done_for(tasks, polls, dev, i) < done_for(tasks, polls, dev, n)
                &&& replies_for(dev, finished(tasks, polls.take(n)))[done_for(
                    tasks,
                    polls,
                    dev,
                    i,
                ) as int] == reply_of(tasks[i], message)
            }),
    decreases n,
{
    if n > 0 {
        lemma_replies(tasks, polls, dev, n - 1);
        assert(polls.take(n).drop_last() =~= polls.take(n - 1));
        assert(polls.take(n).last() == polls[n - 1]);
        let done = finished(tasks, polls.take(n));
        if polls[n - 1] is Ready {
            assert(done.drop_last() =~= finished(tasks, polls.take(n - 1)));
        }
    }
}

/// What stands in the tables once the results are recorded.
proof fn lemma_tables<T: Transporter>(
    setup: Map<TransportAgentId, T::Resources>,
    connected: Map<TransportAgentId, TransportAgent<T>>,
    tasks: Seq<AsyncTask<T>>,
    polls: Seq<TaskPoll<T::Resources, T::Message>>,
    id: TransportAgentId,
    n: int,
)
    requires
        0 <= n <= polls.len() <= tasks.len(),
    ensures
        ({
            let done = finished(tasks, polls.take(n));
            let set_up = setup_with_all(setup, done);
            let connected_now = connected_with_all(connected, done);
            &&& set_up.contains_key(id) <==> setup.contains_key(id) || latest(
                tasks,
                polls,
                id,
                TaskStage::Setup,
                n,
            ) is Some
            &&& set_up.contains_key(id) ==> set_up[id] == match latest(
                tasks,
                polls,
                id,
                TaskStage::Setup,
                n,
            ) {
                Some(i) => left_by(polls[i]),
                None => setup[id],
            }
            &&& connected_now.contains_key(id) <==> connected.contains_key(id) || latest(
                tasks,
                polls,
                id,
                TaskStage::Connect,
                n,
            ) is Some
            &&& connected_now.contains_key(id) ==> match latest(
                tasks,
                polls,
                id,
                TaskStage::Connect,
                n,
            ) {
                Some(i) => {
                    &&& connected_now[id].transporter == tasks[i].transporter
                    &&& connected_now[id].agent_resources == left_by(polls[i])
                },
                None => connected_now[id] == connected[id],
            }
        }),
    decreases n,
{
    if n > 0 {
        lemma_tables(setup, connected, tasks, polls, id, n - 1);
        assert(polls.take(n).drop_last() =~= polls.take(n - 1));
        assert(polls.take(n).last() == polls[n - 1]);
        let done = finished(tasks, polls.take(n));
        if polls[n - 1] is Ready {
            assert(done.drop_last() =~= finished(tasks, polls.take(n - 1)));
        }
    }
}

/// How many of the first pieces of work were dealt with.
spec fn dealt_with<R, M>(polls: Seq<TaskPoll<R, M>>, r: Result<(), EngineError>) -> int {
    match r {
        Ok(_) => polls.len() as int,
        Err(_) => polls.len() - 1,
    }
}

/// What goes on stays.
proof fn lemma_stays<T: Transporter, O>(
    before: TransportEngine<T, O>,
    after: TransportEngine<T, O>,
    polls: Seq<TaskPoll<T::Resources, T::Message>>,
    r: Result<(), EngineError>,
)
    requires
        after.progressed(before, polls, r),
    ensures
        what_goes_on_stays(before, after, polls, dealt_with(polls, r)),
{
    let n = dealt_with(polls, r);
    let tasks = before.async_tasks@;
    let rest = after.async_tasks@;
    lemma_pending(polls, n);
    assert forall|i: int| 0 <= i < polls.len() implies polled_to(tasks[i], #[trigger] polls[i]) by {
        assert(came_of_driving(tasks[i], polls[i]));
    }
    assert forall|i: int| 0 <= i < n && #[trigger] polls[i] is Pending implies {
        let task = rest[pending_before(polls, i) as int];
        &&& pending_before(polls, i) < rest.len()
        &&& task.agent_id == tasks[i].agent_id
        &&& task.transporter == tasks[i].transporter
        &&& task.stage == tasks[i].stage
        &&& tasks[i].transporter.drives(tasks[i].task, task.task, TaskPoll::Pending)
        &&& task.polled@ == tasks[i].polled@.push(TaskPoll::Pending)
    } by {
        let k = pending_before(polls, i) as int;
        assert(going_on(polls.take(n))[k] == i);
    }
    let kept = going_on(polls.take(n));
    assert forall|k: int| pending_before(polls, n) <= k < rest.len() implies #[trigger] rest[k]
        == tasks[k - pending_before(polls, n) + polls.len()] by {
        assert(rest[k] == tasks[k - kept.len() + polls.len()]);
    }
}

/// What is done is reported.
proof fn lemma_reported<T: Transporter, O>(
    before: TransportEngine<T, O>,
    after: TransportEngine<T, O>,
    polls: Seq<TaskPoll<T::Resources, T::Message>>,
    r: Result<(), EngineError>,
)
    requires
        after.progressed(before, polls, r),
    ensures
        what_is_done_is_reported(before, after, polls, dealt_with(polls, r)),
{
    let n = dealt_with(polls, r);
    let tasks = before.async_tasks@;
    let then = before.resources.proxy_chan@;
    let now = after.resources.proxy_chan@;
    let done = finished(tasks, polls.take(n));
    lemma_done(tasks, polls, n);
    assert forall|i: int| 0 <= i < n implies !(#[trigger] polls[i] is Failed) by {
        assert(before.resources.task_failure(tasks[i], polls[i]) is None);
    }
    assert forall|i: int| 0 <= i < n implies (#[trigger] polls[i] matches TaskPoll::Ready(
        resources,
        message,
    ) ==> {
        let dev = tasks[i].agent_id.client_cuda_dev as int;
        let place = then[dev].tx.sent().len() + done_for(tasks, polls, dev, i);
        &&& 0 <= dev < then.len()
        &&& was_taken(then[dev].tx.channel(), reply_of(tasks[i], message))
        &&& place < now[dev].tx.sent().len()
        &&& now[dev].tx.sent()[place as int] == reply_of(tasks[i], message)
    }) by {
        if let TaskPoll::Ready(resources, message) = polls[i] {
            assert(before.resources.task_failure(tasks[i], polls[i]) is None);
            let dev = tasks[i].agent_id.client_cuda_dev as int;
            let k = done_before(polls, i) as int;
            assert(before.resources.told(
                done[k].agent_id,
                reply_to(done[k].agent_id, done[k].result),
            ));
            lemma_replies(tasks, polls, dev, n);
            assert(now[dev].tx.sent() == then[dev].tx.sent() + replies_for(dev, done));
        }
    }
    assert forall|d: int| 0 <= d < now.len() implies {
        let sent = (#[trigger] now[d]).tx.sent();
        &&& sent.len() == then[d].tx.sent().len() + done_for(tasks, polls, d, n)
        &&& sent.take(then[d].tx.sent().len() as int) == then[d].tx.sent()
    } by {
        lemma_replies(tasks, polls, d, n);
        let earlier = then[d].tx.sent();
        assert(now[d].tx.sent() == earlier + replies_for(d, done));
        assert((earlier + replies_for(d, done)).take(earlier.len() as int) =~= earlier);
    }
}

/// From the engine's own account of driving to the plain one.
proof fn lemma_drove<T: Transporter, O>(
    before: TransportEngine<T, O>,
    after: TransportEngine<T, O>,
    polls: Seq<TaskPoll<T::Resources, T::Message>>,
    r: Result<(), EngineError>,
)
    requires
        after.progressed(before, polls, r),
    ensures
        drove_until(before, after, polls, r),
{
    let n = dealt_with(polls, r);
    lemma_stays(before, after, polls, r);
    lemma_reported(before, after, polls, r);
    assert forall|id: TransportAgentId| #[trigger]
        what_is_done_is_recorded(before, after, polls, id, n) by {
        lemma_tables(
            before.resources.agent_setup@,
            before.resources.agent_connected@,
            before.async_tasks@,
            polls,
            id,
            n,
        );
    }
    assert(drove(before, after, polls, n));
}

/// Each piece of work is driven once, in order: what goes on stays, what is done is reported and
/// recorded, and the engine stops at the first piece that failed or could not be reported.
pub proof fn all_work_is_driven<T: Transporter, O>(
    engine: &mut TransportEngine<T, O>,
    r: Result<(), EngineError>,
)
    requires
        call_ensures(TransportEngine::<T, O>::progress_async_tasks, (engine,), r),
    ensures
        drove_the_work(*old(engine), *final(engine), r),
{
    let polls = choose|polls: Seq<TaskPoll<T::Resources, T::Message>>| #[trigger]
        final(engine).progressed(*old(engine), polls, r);
    lemma_drove(*old(engine), *final(engine), polls, r);
}

/// Where a round is before the operations are driven: as after it, but with the operations that there
/// were.
pub open spec fn with_operations<T: Transporter, O>(
    engine: TransportEngine<T, O>,
    before: TransportEngine<T, O>,
) -> TransportEngine<T, O> {
    TransportEngine {
        id: engine.id,
        resources: engine.resources,
        async_tasks: engine.async_tasks,
        op_queue: before.op_queue,
    }
}

/// A round asked the proxies, which brought the engine to `asked` and came to `checked`.
pub open spec fn round_through<T: Transporter, O>(
    before: TransportEngine<T, O>,
    asked: TransportEngine<T, O>,
    checked: Result<(), EngineError>,
    after: TransportEngine<T, O>,
    r: Result<(), EngineError>,
) -> bool {
    &&& asked_the_proxies(before, asked, checked)
    &&& checked is Err ==> after == asked && r == checked
    &&& checked is Ok ==> drove_the_work(asked, with_operations(after, asked), r)
    &&& checked is Ok && r is Ok ==> after.op_queue@.len() == 0
    &&& checked is Ok && r is Err ==> after.op_queue@ == asked.op_queue@
}

/// A round asks the proxies, then drives all work, then drives the operations, and stops at the
/// first failure.
pub proof fn a_round_does_everything_in_order<T: Transporter, O>(
    engine: &mut TransportEngine<T, O>,
    r: Result<(), EngineError>,
)
    requires
        call_ensures(TransportEngine::<T, O>::round, (engine,), r),
    ensures
        exists|asked: TransportEngine<T, O>, checked: Result<(), EngineError>| #[trigger]
            round_through(*old(engine), asked, checked, *final(engine), r),
{
    let (asked, checked, requests, polls) = choose|
        asked: TransportEngine<T, O>,
        checked: Result<(), EngineError>,
        requests: Seq<Polled<TransportEngineRequest<T, O>>>,
        polls: Seq<TaskPoll<T::Resources, T::Message>>,
    | #[trigger]
        final(engine).went_round(*old(engine), asked, checked, requests, polls, r);
    lemma_asked(*old(engine), asked, checked);
    if checked is Ok {
        let driven = with_operations(*final(engine), asked);
        assert(driven == TransportEngine { op_queue: asked.op_queue, ..*final(engine) });
        lemma_drove(asked, driven, polls, r);
        assert(drove_until(asked, driven, polls, r));
    }
    assert(round_through(*old(engine), asked, checked, *final(engine), r));
}

} // verus!
