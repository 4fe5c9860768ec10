//! Laws of the self-test.
use std::collections::HashMap;

use vstd::prelude::*;

use crate::comm::HostIdent;
use crate::control::selftest::{
    check_data, every_step_is_taken, initialize_test_region, start_test_proxy, Action, Buffers,
    Event, Failure, Job, SelfTest, Step, TestBed,
};
use crate::daemon::DaemonId;
use crate::laws::control::{has_nothing_yet, is_new_registry, is_this_host, joined, untouched};
use crate::proxy::{
    ControlCommand, ProxyCommand, ProxyCompletion, ProxyResources, ProxyTypes, SharedRegistry,
};
use crate::utils::duplex_chan::{
    linked, one_channel, opened_together, ChannelIds, DuplexChannel, Polled, Rx, Tx,
};

verus! {

/// How many elements each rank contributes: half of the buffer, in elements of four bytes.
pub open spec fn share(job: Job) -> int {
    job.buffer_size as int / 8
}

/// Data has what rank 0 contributes at its start and what rank 1 contributes at the start of its
/// second half.
pub open spec fn has_both_contributions(job: Job, data: Seq<i32>) -> bool {
    &&& data.len() > share(job)
    &&& data[0] == job.first_content
    &&& data[share(job)] == job.second_content
}

/// Data passes exactly if the contribution of each rank stands where it belongs: whatever differs
/// from the gathered data at one of the two places is refused.
pub proof fn data_is_checked_at_both_places(job: Job, data: Vec<i32>, r: bool)
    requires
        call_ensures(check_data, (&job, &data), r),
    ensures
        r ==> data@.len() > share(job),
        r ==> data@[0] == job.first_content,
        r ==> data@[share(job)] == job.second_content,
        data@[0] != job.first_content ==> !r,
        data@[share(job)] != job.second_content ==> !r,
        data@.len() > share(job) && data@[0] == job.first_content && data@[share(job)]
            == job.second_content ==> r,
{
}

/// The same data cannot pass for two jobs of one size with different contributions.
pub proof fn contributions_are_told_apart(a: Job, b: Job, data: Vec<i32>)
    requires
        a.buffer_size == b.buffer_size,
        call_ensures(check_data, (&a, &data), true),
        call_ensures(check_data, (&b, &data), true),
    ensures
        a.first_content == b.first_content,
        a.second_content == b.second_content,
{
}

/// The buffers start with each rank's contribution in its own half, and zeroes in the other.
pub proof fn regions_start_half_filled(job: Job, r: (Vec<i32>, Vec<i32>), i: int)
    requires
        call_ensures(initialize_test_region, (&job,), r),
    ensures
        r.0@.len() == 2 * share(job),
        r.1@.len() == 2 * share(job),
        0 <= i < share(job) ==> r.0@[i] == job.first_content,
        0 <= i < share(job) ==> r.0@[share(job) + i] == 0,
        0 <= i < share(job) ==> r.1@[i] == 0,
        0 <= i < share(job) ==> r.1@[share(job) + i] == job.second_content,
{
}

/// Data made of the first half of rank 0's buffer and the second half of rank 1's passes.
pub proof fn gathering_the_regions_passes(
    job: Job,
    regions: (Vec<i32>, Vec<i32>),
    data: Vec<i32>,
    r: bool,
)
    requires
        job.buffer_size >= 8,
        call_ensures(initialize_test_region, (&job,), regions),
        data@ == regions.0@.take(share(job)) + regions.1@.skip(share(job)),
        call_ensures(check_data, (&job, &data), r),
    ensures
        r,
{
    regions_start_half_filled(job, regions, 0);
}

/// A run starts with its jobs, at its first step, without buffers.
pub proof fn runs_start_at_the_beginning(jobs: Vec<Job>, r: SelfTest)
    requires
        call_ensures(SelfTest::new, (jobs,), r),
    ensures
        r.jobs == jobs,
        r.at == 0,
        jobs@.len() > 0 ==> r.buffers@.len() == 0,
{
}

/// The two runs: one job with 512 MiB, and two jobs with 2 and 4 GiB.
pub proof fn runs_have_their_jobs(short: SelfTest, long: SelfTest)
    requires
        call_ensures(SelfTest::test, (), short),
        call_ensures(SelfTest::test2, (), long),
    ensures
        short.at == 0,
        short.jobs@.len() == 1,
        short.jobs@[0].communicator_id.0 == 0,
        short.jobs@[0].buffer_size == 512 * 1024 * 1024,
        short.jobs@[0].first_content == 1883,
        short.jobs@[0].second_content == 2042,
        long.at == 0,
        long.jobs@.len() == 2,
        long.jobs@[0].communicator_id.0 == 0,
        long.jobs@[0].buffer_size == 2 * 1024 * 1024 * 1024,
        long.jobs@[0].first_content == 1883,
        long.jobs@[0].second_content == 2042,
        long.jobs@[1].communicator_id.0 == 1,
        long.jobs@[1].buffer_size == 4 * 1024 * 1024 * 1024,
        long.jobs@[1].first_content == 2049,
        long.jobs@[1].second_content == 40999,
{
}

/// Which step a number is: four steps for each job to make its communicator, then one for each to
/// prepare its buffers, two for each to ask for the all-gathers, two for each to wait for them, and
/// one for each to check its data.
pub proof fn steps_are_numbered(test: SelfTest, job: usize, rank: usize, r: Step)
    requires
        call_ensures(SelfTest::next_step, (&test,), r),
        10 * test.jobs@.len() <= usize::MAX,
        job < test.jobs@.len(),
        rank < 2,
    ensures
        test.at == 4 * job + rank ==> r == (Step::Init { job, rank }),
        test.at == 4 * job + 2 + rank ==> r == (Step::AwaitInit { job, rank }),
        test.at == 4 * test.jobs@.len() + job ==> r == (Step::Prepare { job }),
        test.at == 5 * test.jobs@.len() + 2 * job + rank ==> r == (Step::Gather { job, rank }),
        test.at == 7 * test.jobs@.len() + 2 * job + rank ==> r == (Step::AwaitGather { job, rank }),
        test.at == 9 * test.jobs@.len() + job ==> r == (Step::Check { job }),
        test.at == 10 * test.jobs@.len() ==> r == Step::Done,
{
    lemma_step(test, job, rank);
}

/// The step at each number.
proof fn lemma_step(test: SelfTest, job: usize, rank: usize)
    requires
        10 * test.jobs@.len() <= usize::MAX,
        job < test.jobs@.len(),
        rank < 2,
    ensures
        test.at == 4 * job + rank ==> test.step() == (Step::Init { job, rank }),
        test.at == 4 * job + 2 + rank ==> test.step() == (Step::AwaitInit { job, rank }),
        test.at == 4 * test.jobs@.len() + job ==> test.step() == (Step::Prepare { job }),
        test.at == 5 * test.jobs@.len() + 2 * job + rank ==> test.step() == (Step::Gather {
            job,
            rank,
        }),
        test.at == 7 * test.jobs@.len() + 2 * job + rank ==> test.step() == (Step::AwaitGather {
            job,
            rank,
        }),
        test.at == 9 * test.jobs@.len() + job ==> test.step() == (Step::Check { job }),
        test.at == 10 * test.jobs@.len() ==> test.step() == Step::Done,
{
    every_step_is_taken(test.jobs@.len(), Step::Init { job, rank });
    every_step_is_taken(test.jobs@.len(), Step::AwaitInit { job, rank });
    every_step_is_taken(test.jobs@.len(), Step::Prepare { job });
    every_step_is_taken(test.jobs@.len(), Step::Gather { job, rank });
    every_step_is_taken(test.jobs@.len(), Step::AwaitGather { job, rank });
    every_step_is_taken(test.jobs@.len(), Step::Check { job });
}

/// The caller is to ask the proxy of `rank` for the communicator of a job, as rank `rank` of two.
pub open spec fn asks_for_communicator(r: Action, the_job: Job, job: usize, rank: usize) -> bool {
    &&& r matches Action::Send {
        job: to_job,
        rank: to_rank,
        command: ProxyCommand::InitCommunicator(init),
    }
    &&& to_job == job
    &&& to_rank == rank
    &&& init.communicator_id == the_job.communicator_id
    &&& init.rank == rank
    &&& init.num_ranks == 2
}

/// The caller is to fill the first half of the first buffer and the second half of the second.
pub open spec fn asks_for_regions(r: Action, the_job: Job, job: usize) -> bool {
    &&& r matches Action::Prepare { job: to_job, bytes, first, second }
    &&& to_job == job
    &&& bytes == the_job.buffer_size
    &&& first@.len() == 2 * share(the_job)
    &&& second@.len() == 2 * share(the_job)
    &&& forall|i: int| 0 <= i < share(the_job) ==> #[trigger] first@[i] == the_job.first_content
    &&& forall|i: int| share(the_job) <= i < 2 * share(the_job) ==> #[trigger] first@[i] == 0
    &&& forall|i: int| 0 <= i < share(the_job) ==> #[trigger] second@[i] == 0
    &&& forall|i: int|
        share(the_job) <= i < 2 * share(the_job) ==> #[trigger] second@[i]
            == the_job.second_content
}

/// The caller is to ask the proxy of `rank` to gather: rank 0 sends the first half of its buffer and
/// rank 1 the second half of its own, and each receives into the whole of its own.
pub open spec fn asks_for_gather(
    r: Action,
    the_job: Job,
    buffers: Buffers,
    job: usize,
    rank: usize,
) -> bool {
    &&& r matches Action::Send {
        job: to_job,
        rank: to_rank,
        command: ProxyCommand::AllGather(gather),
    }
    &&& to_job == job
    &&& to_rank == rank
    &&& gather.communicator_id == the_job.communicator_id
    &&& gather.size == the_job.buffer_size as int / 2
    &&& rank == 0 ==> gather.send_buf_addr == buffers.first
    &&& rank == 0 ==> gather.recv_buf_addr == buffers.first
    &&& rank == 1 ==> gather.send_buf_addr == buffers.second + the_job.buffer_size as int / 2
    &&& rank == 1 ==> gather.recv_buf_addr == buffers.second
}

/// What each step asks the caller to do.
pub proof fn steps_ask_for_their_actions(test: SelfTest, job: usize, rank: usize, r: Action)
    requires
        call_ensures(SelfTest::next_action, (&test,), r),
        10 * test.jobs@.len() <= usize::MAX,
        job < test.jobs@.len(),
        rank < 2,
        test.buffers@[job as int].second + test.jobs@[job as int].buffer_size as int / 2
            <= u64::MAX,
    ensures
        test.at == 4 * job + rank ==> asks_for_communicator(r, test.jobs@[job as int], job, rank),
        test.at == 4 * job + 2 + rank ==> r == (Action::Await { job, rank }),
        test.at == 4 * test.jobs@.len() + job ==> asks_for_regions(r, test.jobs@[job as int], job),
        test.at == 5 * test.jobs@.len() + 2 * job + rank ==> asks_for_gather(
            r,
            test.jobs@[job as int],
            test.buffers@[job as int],
            job,
            rank,
        ),
        test.at == 7 * test.jobs@.len() + 2 * job + rank ==> r == (Action::Await { job, rank }),
        test.at == 9 * test.jobs@.len() + job ==> r == (Action::ReadBack {
            job,
            address: test.buffers@[job as int].second,
            bytes: test.jobs@[job as int].buffer_size,
        }),
        test.at == 10 * test.jobs@.len() ==> r is Finish,
{
    lemma_step(test, job, rank);
    let size = test.jobs@[job as int].buffer_size / 2;
    assert(0 * (size as int) == 0);
    assert(1 * (size as int) == size);
}

/// The run goes on exactly if what came back is what the step is to bring, and otherwise says what
/// was wrong and stays where it is.
pub proof fn runs_go_on_only_as_they_should(
    test: &mut SelfTest,
    event: Event,
    job: usize,
    rank: usize,
    r: Result<(), Failure>,
)
    requires
        call_ensures(SelfTest::advance, (test, event), r),
        10 * old(test).jobs@.len() <= usize::MAX,
        job < old(test).jobs@.len(),
        rank < 2,
    ensures
        final(test).jobs == old(test).jobs,
        r is Ok ==> final(test).at == old(test).at + 1,
        r is Err ==> final(test).at == old(test).at && final(test).buffers == old(test).buffers,
        r is Ok ==> (event matches Event::Prepared(buffers) ==> final(test).buffers@
            == old(test).buffers@.push(buffers)),
        r is Ok && !(event is Prepared) ==> final(test).buffers@ == old(test).buffers@,
        ({
            let n = old(test).jobs@.len();
            let the_job = old(test).jobs@[job as int];
            let at = old(test).at as int;
            let asks = at == 4 * job + rank || at == 5 * n + 2 * job + rank;
            let waits_for_init = at == 4 * job + 2 + rank;
            let waits_for_gather = at == 7 * n + 2 * job + rank;
            let prepares = at == 4 * n + job;
            let checks = at == 9 * n + job;
            &&& asks ==> if event is Sent {
                r is Ok
            } else {
                r == Err::<(), Failure>(Failure::WrongEvent)
            }
            &&& waits_for_init ==> match event {
                Event::Report(Polled::Message(ProxyCompletion::InitCommunicator)) => r is Ok,
                Event::Report(_) => r == Err::<(), Failure>(Failure::WrongReport),
                _ => r == Err::<(), Failure>(Failure::WrongEvent),
            }
            &&& waits_for_gather ==> match event {
                Event::Report(Polled::Message(ProxyCompletion::AllGather)) => r is Ok,
                Event::Report(_) => r == Err::<(), Failure>(Failure::WrongReport),
                _ => r == Err::<(), Failure>(Failure::WrongEvent),
            }
            &&& prepares ==> match event {
                Event::Prepared(buffers) => if buffers.second + the_job.buffer_size as int / 2
                    <= u64::MAX {
                    r is Ok
                } else {
                    r == Err::<(), Failure>(Failure::BadBuffers)
                },
                _ => r == Err::<(), Failure>(Failure::WrongEvent),
            }
            &&& checks ==> match event {
                Event::Data(data) => if has_both_contributions(the_job, data@) {
                    r is Ok
                } else {
                    r == Err::<(), Failure>(Failure::WrongData)
                },
                _ => r == Err::<(), Failure>(Failure::WrongEvent),
            }
            &&& at == 10 * n ==> r == Err::<(), Failure>(Failure::WrongEvent)
        }),
{
    lemma_step(*old(test), job, rank);
}

/// The proxy belongs to the device `dev` of this host and has channels of its own for the control
/// engine, a registry, and nothing else yet.
pub open spec fn starts_for_test<S: ProxyTypes>(
    proxy: ProxyResources<S>,
    dev: int,
    delegator: S::Delegator,
) -> bool {
    &&& is_this_host(proxy.device_info.host)
    &&& proxy.device_info.cuda_device_idx as int == dev
    &&& has_nothing_yet(proxy)
    &&& has_a_far_side(proxy)
    &&& is_new_registry(*proxy.global_registry, delegator)
    &&& proxy.proxy_peer_rx.polled().len() == 0
}

/// The channels of a proxy for the control engine are untouched, and each was made with another end.
pub open spec fn has_a_far_side<S: ProxyTypes>(proxy: ProxyResources<S>) -> bool {
    &&& untouched(proxy.control_chan)
    &&& exists|far: DuplexChannel<ControlCommand, S::ControlRequest>| #[trigger]
        joined(far, proxy.control_chan)
}

/// The proxy hears the daemon of the job `job` and reports to it; `side` is the daemon's side.
pub open spec fn serves<S: ProxyTypes>(
    proxy: ProxyResources<S>,
    job: int,
    side: DuplexChannel<ProxyCommand, ProxyCompletion>,
) -> bool {
    &&& untouched(side)
    &&& proxy.daemon_tx@.contains_key(job as u64)
    &&& opened_together(proxy.daemon_tx@[job as u64].channel(), side.rx.channel())
    &&& proxy.daemon_tx@[job as u64].sent().len() == 0
    &&& proxy.daemon_rx@[job].0 as int == job
    &&& opened_together(side.tx.channel(), proxy.daemon_rx@[job].1.channel())
    &&& proxy.daemon_rx@[job].1.polled().len() == 0
}

/// Two proxies on this host, with one new registry, each connected with the daemons of all jobs and
/// with both proxies.
pub open spec fn is_wired<S: ProxyTypes>(
    bed: TestBed<S>,
    jobs: int,
    delegator: S::Delegator,
) -> bool {
    &&& bed.proxies@.len() == 2
    &&& bed.daemons@.len() == 2
    &&& bed.proxies@[0].global_registry == bed.proxies@[1].global_registry
    &&& forall|dev: int|
        0 <= dev < 2 ==> {
            &&& starts_for_test(#[trigger] bed.proxies@[dev], dev, delegator)
            &&& bed.daemons@[dev]@.len() == jobs
            &&& bed.proxies@[dev].daemon_rx@.len() == jobs
            &&& bed.proxies@[dev].proxy_peer_tx@.len() == 2
        }
    &&& forall|dev: int, id: DaemonId|
        0 <= dev < 2 ==> (#[trigger] bed.proxies@[dev].daemon_tx@.contains_key(id) <==> id < jobs)
    &&& forall|dev: int, job: int|
        0 <= dev < 2 && 0 <= job < jobs ==> serves(
            bed.proxies@[dev],
            job,
            #[trigger] bed.daemons@[dev]@[job],
        )
    &&& forall|dev: int, to: int|
        0 <= dev < 2 && 0 <= to < 2 ==> {
            let tx = #[trigger] bed.proxies@[dev].proxy_peer_tx@[to];
            &&& opened_together(tx.channel(), bed.proxies@[to].proxy_peer_rx.channel())
            &&& tx.sent().len() == 0
        }
    &&& bed.proxies@[0].proxy_peer_rx.id() != bed.proxies@[1].proxy_peer_rx.id()
    &&& forall|a: int, i: int, b: int, j: int|
        0 <= a < 2 && 0 <= i < jobs && 0 <= b < 2 && 0 <= j < jobs && (a != b || i != j) ==> {
            let side = #[trigger] bed.daemons@[a]@[i];
            let other = #[trigger] bed.daemons@[b]@[j];
            &&& side.tx.id() != other.tx.id()
            &&& side.rx.id() != other.rx.id()
            &&& side.tx.id() != other.rx.id()
        }
}

/// From the contracts' own account of a test bed to the plain one.
proof fn lemma_wired<S: ProxyTypes>(bed: TestBed<S>, jobs: nat, delegator: S::Delegator)
    requires
        bed.ready_afresh(jobs, delegator),
        jobs <= 2,
    ensures
        is_wired(bed, jobs as int, delegator),
{
    let registry = choose|registry: SharedRegistry<S>| #[trigger]
        bed.ready(jobs, registry) && registry.fresh() && registry.transport_delegator == delegator;
    assert(is_new_registry(*registry, delegator));
    assert forall|dev: int| 0 <= dev < 2 implies {
        &&& starts_for_test(#[trigger] bed.proxies@[dev], dev, delegator)
        &&& bed.daemons@[dev]@.len() == jobs
        &&& bed.proxies@[dev].daemon_rx@.len() == jobs
        &&& bed.proxies@[dev].proxy_peer_tx@.len() == 2
    } by {
        assert(bed.device_ready(dev, jobs, registry));
        let proxy = bed.proxies@[dev];
        let far = choose|far: DuplexChannel<ControlCommand, S::ControlRequest>| #[trigger]
            linked(far, proxy.control_chan);
        assert(joined(far, proxy.control_chan));
    }
    assert forall|dev: int, id: DaemonId| 0 <= dev < 2 implies (
    #[trigger] bed.proxies@[dev].daemon_tx@.contains_key(id) <==> id < jobs) by {
        assert(bed.device_ready(dev, jobs, registry));
    }
    assert forall|dev: int, job: int| 0 <= dev < 2 && 0 <= job < jobs implies serves(
        bed.proxies@[dev],
        job,
        #[trigger] bed.daemons@[dev]@[job],
    ) by {
        assert(bed.device_ready(dev, jobs, registry));
        assert(bed.proxies@[dev].daemon_tx@.contains_key(job as u64));
    }
    assert forall|dev: int, to: int| 0 <= dev < 2 && 0 <= to < 2 implies {
        let tx = #[trigger] bed.proxies@[dev].proxy_peer_tx@[to];
        &&& opened_together(tx.channel(), bed.proxies@[to].proxy_peer_rx.channel())
        &&& tx.sent().len() == 0
    } by {
        assert(one_channel(
            bed.proxies@[dev].proxy_peer_tx@[to],
            bed.proxies@[to].proxy_peer_rx,
        ));
    }
}

/// The test bed of the short run: one job, and the control engine's sides are kept.
pub proof fn short_bed_is_wired<S: ProxyTypes>(delegator: S::Delegator, bed: TestBed<S>)
    requires
        call_ensures(TestBed::<S>::test, (delegator,), bed),
    ensures
        is_wired(bed, 1, delegator),
        bed.controls@.len() == 2,
        forall|dev: int|
            0 <= dev < 2 ==> joined(#[trigger] bed.controls@[dev], bed.proxies@[dev].control_chan)
                && untouched(bed.controls@[dev]),
{
    lemma_wired(bed, 1, delegator);
}

/// The test bed of the long run: two jobs, and nobody holds the control engine's sides.
pub proof fn long_bed_is_wired<S: ProxyTypes>(delegator: S::Delegator, bed: TestBed<S>)
    requires
        call_ensures(TestBed::<S>::test2, (delegator,), bed),
    ensures
        is_wired(bed, 2, delegator),
        bed.controls@.len() == 0,
{
    lemma_wired(bed, 2, delegator);
}

/// A proxy of a test starts with what it is given, each thing in its place.
pub proof fn test_proxies_start_with_what_they_get<S: ProxyTypes>(
    ids: &mut ChannelIds,
    cuda_device: i32,
    host: HostIdent,
    daemon_tx: HashMap<DaemonId, Tx<ProxyCompletion>>,
    daemon_rx: Vec<(DaemonId, Rx<ProxyCommand>)>,
    proxy_peer_tx: Vec<Tx<S::PeerMessage>>,
    proxy_peer_rx: Rx<S::PeerMessage>,
    global_registry: SharedRegistry<S>,
    r: ProxyResources<S>,
)
    requires
        call_ensures(
            start_test_proxy::<S>,
            (
                ids,
                cuda_device,
                host,
                daemon_tx,
                daemon_rx,
                proxy_peer_tx,
                proxy_peer_rx,
                global_registry,
            ),
            r,
        ),
    ensures
        r.device_info.host == host,
        r.device_info.cuda_device_idx == cuda_device,
        r.daemon_tx == daemon_tx,
        r.daemon_rx == daemon_rx,
        r.proxy_peer_tx == proxy_peer_tx,
        r.proxy_peer_rx == proxy_peer_rx,
        r.global_registry == global_registry,
        has_nothing_yet(r),
        has_a_far_side(r),
{
    let far = choose|far: DuplexChannel<ControlCommand, S::ControlRequest>| #[trigger]
        linked(far, r.control_chan);
    assert(joined(far, r.control_chan));
}

} // verus!
