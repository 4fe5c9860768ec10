//! An account of what a transport engine is asked for and what it answers, over any number of
//! rounds.
//!
//! Requests, work and replies are counted for one agent and one stage at a time.
use vstd::prelude::*;

use crate::transport::engine::{
    finished, going_on, keeps_going, messages, replies_for, AsyncTask, AsyncTaskResult, EngineError,
    Finished, TaskStage, TransportEngine,
};
use crate::transport::message::{TransportEngineReply, TransportEngineRequest};
use crate::transport::transporter::{TaskPoll, TransportAgentId, Transporter};
use crate::utils::duplex_chan::Polled;

verus! {

/// The work is the stage `stage` of the agent `id`.
pub open spec fn is_for<T: Transporter>(
    task: AsyncTask<T>,
    id: TransportAgentId,
    stage: TaskStage,
) -> bool {
    task.agent_id == id && task.stage == stage
}

/// How much of the work is the stage `stage` of the agent `id`.
pub open spec fn tasks_for<T: Transporter>(
    tasks: Seq<AsyncTask<T>>,
    id: TransportAgentId,
    stage: TaskStage,
) -> nat
    decreases tasks.len(),
{
    if tasks.len() == 0 {
        0
    } else {
        tasks_for(tasks.drop_last(), id, stage) + if is_for(tasks.last(), id, stage) {
            1nat
        } else {
            0
        }
    }
}

/// The request asks for the stage `stage` of the agent `id`.
pub open spec fn asks_for<T: Transporter, O>(
    request: TransportEngineRequest<T, O>,
    id: TransportAgentId,
    stage: TaskStage,
) -> bool {
    match request {
        TransportEngineRequest::AgentSetup(transporter, agent, message) => agent == id && stage
            == TaskStage::Setup,
        TransportEngineRequest::AgentConnect(transporter, agent, message) => agent == id && stage
            == TaskStage::Connect,
        TransportEngineRequest::AgentTransportOp(agent, op) => false,
    }
}

/// How many requests ask for the stage `stage` of the agent `id`.
pub open spec fn requests_for<T: Transporter, O>(
    requests: Seq<TransportEngineRequest<T, O>>,
    id: TransportAgentId,
    stage: TaskStage,
) -> nat
    decreases requests.len(),
{
    if requests.len() == 0 {
        0
    } else {
        requests_for(requests.drop_last(), id, stage) + if asks_for(requests.last(), id, stage) {
            1nat
        } else {
            0
        }
    }
}

/// The reply is about the stage `stage` of the agent `id`.
pub open spec fn tells_of<M>(
    reply: TransportEngineReply<M>,
    id: TransportAgentId,
    stage: TaskStage,
) -> bool {
    match reply {
        TransportEngineReply::AgentSetup(agent, message) => agent == id && stage
            == TaskStage::Setup,
        TransportEngineReply::AgentConnect(agent, message) => agent == id && stage
            == TaskStage::Connect,
    }
}

/// How many replies are about the stage `stage` of the agent `id`.
pub open spec fn replies_about<M>(
    replies: Seq<TransportEngineReply<M>>,
    id: TransportAgentId,
    stage: TaskStage,
) -> nat
    decreases replies.len(),
{
    if replies.len() == 0 {
        0
    } else {
        replies_about(replies.drop_last(), id, stage) + if tells_of(replies.last(), id, stage) {
            1nat
        } else {
            0
        }
    }
}

impl<T: Transporter, O> TransportEngine<T, O> {
    /// How many replies about the stage `stage` of the agent `id` its client's proxy took so far.
    pub open spec fn answered(self, id: TransportAgentId, stage: TaskStage) -> nat {
        if self.resources.has_proxy(id) {
            replies_about(
                self.resources.proxy_chan@[id.client_cuda_dev as int].tx.sent(),
                id,
                stage,
            )
        } else {
            0
        }
    }

    /// What was answered and what is under way.
    pub open spec fn accounted(self, id: TransportAgentId, stage: TaskStage) -> nat {
        self.answered(id, stage) + tasks_for(self.async_tasks@, id, stage)
    }
}

/// A round of an engine: how far asking the proxies brought it, and what was found on the way.
#[verifier::reject_recursive_types(T)]
#[verifier::reject_recursive_types(O)]
pub ghost struct Round<T: Transporter, O> {
    pub asked: TransportEngine<T, O>,
    pub checked: Result<(), EngineError>,
    pub requests: Seq<Polled<TransportEngineRequest<T, O>>>,
    pub polls: Seq<TaskPoll<T::Resources, T::Message>>,
    pub r: Result<(), EngineError>,
}

impl<T: Transporter, O> Round<T, O> {
    /// The round brought an engine from `before` to `after`.
    pub open spec fn brings(
        self,
        before: TransportEngine<T, O>,
        after: TransportEngine<T, O>,
    ) -> bool {
        after.went_round(before, self.asked, self.checked, self.requests, self.polls, self.r)
    }

    /// The requests that were taken in the round.
    pub open spec fn taken(self) -> Seq<TransportEngineRequest<T, O>> {
        messages(
            match self.checked {
                Ok(_) => self.requests,
                Err(_) => self.requests.drop_last(),
            },
        )
    }
}

/// How many requests for the stage `stage` of the agent `id` were taken in all rounds.
pub open spec fn taken_in_all<T: Transporter, O>(
    rounds: Seq<Round<T, O>>,
    id: TransportAgentId,
    stage: TaskStage,
) -> nat
    decreases rounds.len(),
{
    if rounds.len() == 0 {
        0
    } else {
        taken_in_all(rounds.drop_last(), id, stage) + requests_for(rounds.last().taken(), id, stage)
    }
}

/// Counting work in two parts.
proof fn lemma_tasks_in_parts<T: Transporter>(
    a: Seq<AsyncTask<T>>,
    b: Seq<AsyncTask<T>>,
    id: TransportAgentId,
    stage: TaskStage,
)
    ensures
        tasks_for(a + b, id, stage) == tasks_for(a, id, stage) + tasks_for(b, id, stage),
    decreases b.len(),
{
    if b.len() == 0 {
        assert(a + b =~= a);
    } else {
        assert((a + b).drop_last() =~= a + b.drop_last());
        lemma_tasks_in_parts(a, b.drop_last(), id, stage);
    }
}

/// Counting replies in two parts.
proof fn lemma_replies_in_parts<M>(
    a: Seq<TransportEngineReply<M>>,
    b: Seq<TransportEngineReply<M>>,
    id: TransportAgentId,
    stage: TaskStage,
)
    ensures
        replies_about(a + b, id, stage) == replies_about(a, id, stage) + replies_about(
            b,
            id,
            stage,
        ),
    decreases b.len(),
{
    if b.len() == 0 {
        assert(a + b =~= a);
    } else {
        assert((a + b).drop_last() =~= a + b.drop_last());
        lemma_replies_in_parts(a, b.drop_last(), id, stage);
    }
}

/// Work that answers to requests, one for each, counts as they do.
proof fn lemma_work_of_requests<T: Transporter, O>(
    work: Seq<AsyncTask<T>>,
    requests: Seq<TransportEngineRequest<T, O>>,
    id: TransportAgentId,
    stage: TaskStage,
)
    requires
        work.len() == requests.len(),
        forall|k: int|
            0 <= k < work.len() ==> is_for(#[trigger] work[k], id, stage) == asks_for(
                requests[k],
                id,
                stage,
            ),
    ensures
        tasks_for(work, id, stage) == requests_for(requests, id, stage),
    decreases work.len(),
{
    if work.len() > 0 {
        let last = work.len() - 1;
        let earlier = work.drop_last();
        assert forall|k: int| 0 <= k < earlier.len() implies is_for(
            #[trigger] earlier[k],
            id,
            stage,
        ) == asks_for(requests.drop_last()[k], id, stage) by {
            assert(earlier[k] == work[k]);
        }
        lemma_work_of_requests(earlier, requests.drop_last(), id, stage);
        assert(is_for(work[last], id, stage) == asks_for(requests[last], id, stage));
    }
}

/// Asking the proxies adds to the account what was asked for.
proof fn lemma_asking<T: Transporter, O>(
    before: TransportEngine<T, O>,
    after: TransportEngine<T, O>,
    polls: Seq<Polled<TransportEngineRequest<T, O>>>,
    requests: Seq<TransportEngineRequest<T, O>>,
    id: TransportAgentId,
    stage: TaskStage,
)
    requires
        after.asked(before, polls),
        after.takes(before, requests),
    ensures
        after.accounted(id, stage) == before.accounted(id, stage) + requests_for(
            requests,
            id,
            stage,
        ),
{
    let n = before.async_tasks@.len() as int;
    let work = after.async_tasks@.skip(n);
    assert(after.async_tasks@ =~= before.async_tasks@ + work);
    lemma_tasks_in_parts(before.async_tasks@, work, id, stage);
    assert forall|k: int| 0 <= k < work.len() implies is_for(#[trigger] work[k], id, stage)
        == asks_for(requests[k], id, stage) by {
        assert(work[k] == after.async_tasks@[n + k]);
        let request = requests[k];
        assert(request == requests[k]);
    }
    lemma_work_of_requests(work, requests, id, stage);
    if before.resources.has_proxy(id) {
        let d = id.client_cuda_dev as int;
        assert(after.resources.proxy_chan@[d].tx == before.resources.proxy_chan@[d].tx);
    }
}

/// How much of the work at the places `places` is the stage `stage` of the agent `id`.
spec fn tasks_at<T: Transporter>(
    tasks: Seq<AsyncTask<T>>,
    places: Seq<int>,
    id: TransportAgentId,
    stage: TaskStage,
) -> nat
    decreases places.len(),
{
    if places.len() == 0 {
        0
    } else {
        tasks_at(tasks, places.drop_last(), id, stage) + if is_for(
            tasks[places.last()],
            id,
            stage,
        ) {
            1nat
        } else {
            0
        }
    }
}

/// The result is that of the stage `stage` of the agent `id`.
spec fn is_result<T: Transporter>(
    done: Finished<T>,
    id: TransportAgentId,
    stage: TaskStage,
) -> bool {
    done.agent_id == id && match done.result {
        AsyncTaskResult::Setup { setup_resources, reply } => stage == TaskStage::Setup,
        AsyncTaskResult::Connect { agent_resources, reply } => stage == TaskStage::Connect,
    }
}

/// How many results are those of the stage `stage` of the agent `id`.
spec fn results_of<T: Transporter>(
    done: Seq<Finished<T>>,
    id: TransportAgentId,
    stage: TaskStage,
) -> nat
    decreases done.len(),
{
    if done.len() == 0 {
        0
    } else {
        results_of(done.drop_last(), id, stage) + if is_result(done.last(), id, stage) {
            1nat
        } else {
            0
        }
    }
}

/// Work that was driven goes on or is done, and not both.
proof fn lemma_driven<T: Transporter>(
    tasks: Seq<AsyncTask<T>>,
    polls: Seq<TaskPoll<T::Resources, T::Message>>,
    id: TransportAgentId,
    stage: TaskStage,
)
    requires
        polls.len() <= tasks.len(),
    ensures
        tasks_at(tasks, going_on(polls), id, stage) + results_of(finished(tasks, polls), id, stage)
            <= tasks_for(tasks.take(polls.len() as int), id, stage),
    decreases polls.len(),
{
    if polls.len() > 0 {
        let earlier = polls.drop_last();
        lemma_driven(tasks, earlier, id, stage);
        assert(tasks.take(polls.len() as int).drop_last() =~= tasks.take(earlier.len() as int));
        match polls.last() {
            TaskPoll::Pending => {
                assert(going_on(polls).drop_last() =~= going_on(earlier));
            },
            TaskPoll::Ready(resources, reply) => {
                assert(finished(tasks, polls).drop_last() =~= finished(tasks, earlier));
            },
            TaskPoll::Failed => {},
        }
    }
}

/// The work that goes on counts as it did.
proof fn lemma_kept<T: Transporter>(
    tasks: Seq<AsyncTask<T>>,
    work: Seq<AsyncTask<T>>,
    places: Seq<int>,
    id: TransportAgentId,
    stage: TaskStage,
)
    requires
        work.len() == places.len(),
        forall|k: int|
            0 <= k < work.len() ==> is_for(#[trigger] work[k], id, stage) == is_for(
                tasks[places[k]],
                id,
                stage,
            ),
    ensures
        tasks_for(work, id, stage) == tasks_at(tasks, places, id, stage),
    decreases work.len(),
{
    if work.len() > 0 {
        let last = work.len() - 1;
        let earlier = work.drop_last();
        assert forall|k: int| 0 <= k < earlier.len() implies is_for(
            #[trigger] earlier[k],
            id,
            stage,
        ) == is_for(tasks[places.drop_last()[k]], id, stage) by {
            assert(earlier[k] == work[k]);
        }
        lemma_kept(tasks, earlier, places.drop_last(), id, stage);
        assert(is_for(work[last], id, stage) == is_for(tasks[places[last]], id, stage));
    }
}

/// The proxy of the agent's client hears of each result once.
proof fn lemma_reported<T: Transporter>(
    done: Seq<Finished<T>>,
    id: TransportAgentId,
    stage: TaskStage,
)
    ensures
        replies_about(replies_for(id.client_cuda_dev as int, done), id, stage) == results_of(
            done,
            id,
            stage,
        ),
    decreases done.len(),
{
    if done.len() > 0 {
        let dev = id.client_cuda_dev as int;
        lemma_reported(done.drop_last(), id, stage);
        if done.last().agent_id.client_cuda_dev == dev {
            assert(replies_for(dev, done).drop_last() =~= replies_for(dev, done.drop_last()));
        }
    }
}

/// What is left of work that was driven, and its results, are no more than there was.
proof fn lemma_left<T: Transporter>(
    tasks: Seq<AsyncTask<T>>,
    after: Seq<AsyncTask<T>>,
    polls: Seq<TaskPoll<T::Resources, T::Message>>,
    dealt_with: nat,
    id: TransportAgentId,
    stage: TaskStage,
)
    requires
        polls.len() <= tasks.len(),
        dealt_with <= polls.len(),
        keeps_going(tasks, after, polls, dealt_with),
    ensures
        tasks_for(after, id, stage) + results_of(
            finished(tasks, polls.take(dealt_with as int)),
            id,
            stage,
        ) <= tasks_for(tasks, id, stage),
{
    let seen = polls.take(dealt_with as int);
    let kept = going_on(seen);
    let n = polls.len() as int;
    let front = after.take(kept.len() as int);
    let back = after.skip(kept.len() as int);
    lemma_driven(tasks, seen, id, stage);
    lemma_going_on_bound(seen);
    assert(after =~= front + back);
    lemma_tasks_in_parts(front, back, id, stage);
    assert forall|k: int| 0 <= k < front.len() implies is_for(#[trigger] front[k], id, stage)
        == is_for(tasks[kept[k]], id, stage) by {
        assert(front[k] == after[k]);
    }
    lemma_kept(tasks, front, kept, id, stage);
    assert forall|k: int| 0 <= k < back.len() implies back[k] == tasks.skip(n)[k] by {
        assert(back[k] == after[k + kept.len()]);
    }
    assert(back =~= tasks.skip(n));
    assert(tasks =~= tasks.take(n) + tasks.skip(n));
    lemma_tasks_in_parts(tasks.take(n), tasks.skip(n), id, stage);
    let d = dealt_with as int;
    let gone = tasks.subrange(d, n);
    assert(tasks.take(n) =~= tasks.take(d) + gone);
    lemma_tasks_in_parts(tasks.take(d), gone, id, stage);
}

/// No more goes on than was driven.
proof fn lemma_going_on_bound<R, M>(polls: Seq<TaskPoll<R, M>>)
    ensures
        going_on(polls).len() <= polls.len(),
    decreases polls.len(),
{
    if polls.len() > 0 {
        lemma_going_on_bound(polls.drop_last());
    }
}

/// Driving work adds nothing to the account.
proof fn lemma_driving<T: Transporter, O>(
    before: TransportEngine<T, O>,
    after: TransportEngine<T, O>,
    polls: Seq<TaskPoll<T::Resources, T::Message>>,
    r: Result<(), EngineError>,
    id: TransportAgentId,
    stage: TaskStage,
)
    requires
        after.progressed(before, polls, r),
    ensures
        after.accounted(id, stage) <= before.accounted(id, stage),
{
    let dealt_with = match r {
        Ok(_) => polls.len(),
        Err(_) => (polls.len() - 1) as nat,
    };
    let tasks = before.async_tasks@;
    let done = finished(tasks, polls.take(dealt_with as int));
    lemma_left(tasks, after.async_tasks@, polls, dealt_with, id, stage);
    if before.resources.has_proxy(id) {
        let d = id.client_cuda_dev as int;
        let sent = before.resources.proxy_chan@[d].tx.sent();
        assert(after.resources.proxy_chan@[d].tx.sent() == sent + replies_for(d, done));
        lemma_replies_in_parts(sent, replies_for(d, done), id, stage);
        lemma_reported(done, id, stage);
    }
}

/// A round adds to the account no more than what was asked for in it.
proof fn lemma_round<T: Transporter, O>(
    before: TransportEngine<T, O>,
    after: TransportEngine<T, O>,
    round: Round<T, O>,
    id: TransportAgentId,
    stage: TaskStage,
)
    requires
        round.brings(before, after),
    ensures
        after.accounted(id, stage) <= before.accounted(id, stage) + requests_for(
            round.taken(),
            id,
            stage,
        ),
{
    lemma_asking(before, round.asked, round.requests, round.taken(), id, stage);
    if round.checked is Ok {
        let driven = TransportEngine { op_queue: round.asked.op_queue, ..after };
        lemma_driving(round.asked, driven, round.polls, round.r, id, stage);
        assert(driven.accounted(id, stage) == after.accounted(id, stage));
    }
}

/// Over any number of rounds, whatever the transports and the proxies do: what was answered about a
/// stage of an agent, and what is under way of it, is no more than there was at first and what was
/// asked for since. `engines` are the states of an engine, with one of `rounds` between each and
/// the next.
pub proof fn nothing_is_answered_unasked<T: Transporter, O>(
    engines: Seq<TransportEngine<T, O>>,
    rounds: Seq<Round<T, O>>,
    id: TransportAgentId,
    stage: TaskStage,
)
    requires
        engines.len() == rounds.len() + 1,
        forall|i: int|
            0 <= i < rounds.len() ==> (#[trigger] rounds[i]).brings(engines[i], engines[i + 1]),
    ensures
        engines.last().accounted(id, stage) <= engines[0].accounted(id, stage) + taken_in_all(
            rounds,
            id,
            stage,
        ),
    decreases rounds.len(),
{
    if rounds.len() > 0 {
        let last = rounds.len() - 1;
        let earlier = rounds.drop_last();
        let then = engines.drop_last();
        assert forall|i: int| 0 <= i < earlier.len() implies (#[trigger] earlier[i]).brings(
            then[i],
            then[i + 1],
        ) by {
            assert(rounds[i] == earlier[i]);
        }
        nothing_is_answered_unasked(then, earlier, id, stage);
        assert(rounds[last].brings(engines[last], engines[last + 1]));
        lemma_round(engines[last], engines[last + 1], rounds[last], id, stage);
    }
}

/// Each request is answered at most once, and only after it was taken: at every point in the life of
/// an engine that starts with nothing, there are no more replies about a stage of an agent than
/// requests for it were taken by then.
pub proof fn each_request_is_answered_at_most_once<T: Transporter, O>(
    engines: Seq<TransportEngine<T, O>>,
    rounds: Seq<Round<T, O>>,
    id: TransportAgentId,
    stage: TaskStage,
    at: int,
)
    requires
        engines.len() == rounds.len() + 1,
        forall|i: int|
            0 <= i < rounds.len() ==> (#[trigger] rounds[i]).brings(engines[i], engines[i + 1]),
        engines[0].accounted(id, stage) == 0,
        0 <= at < engines.len(),
    ensures
        engines[at].answered(id, stage) <= taken_in_all(rounds.take(at), id, stage),
{
    let so_far = engines.take(at + 1);
    let by_then = rounds.take(at);
    assert forall|i: int| 0 <= i < by_then.len() implies (#[trigger] by_then[i]).brings(
        so_far[i],
        so_far[i + 1],
    ) by {
        assert(rounds[i] == by_then[i]);
    }
    nothing_is_answered_unasked(so_far, by_then, id, stage);
}

} // verus!
