//! A run of the whole service on two devices, with data that shows whether it worked.
//!
//! Each job of a run is a communicator of two ranks, one on each device, and an all-gather over
//! it. The run is a fixed sequence of steps; what the steps do with devices and channels is left to
//! the caller, who reports back what came of each.
use std::collections::HashMap;
use std::sync::Arc;

use vstd::prelude::*;

use crate::comm::{CommunicatorId, HostIdent};
use crate::control::local_host;
use crate::daemon::DaemonId;
use crate::proxy::{
    AllGather, ControlCommand, DeviceInfo, InitCommunicator, ProxyCommand, ProxyCompletion,
    ProxyResources, ProxyTypes, SharedRegistry,
};
use crate::registry::GlobalRegistry;
use crate::utils::duplex_chan::{
    linked, one_channel, unused, ChannelIds, DuplexChannel, Polled, Rx, Tx,
};

verus! {

broadcast use vstd::std_specs::hash::group_hash_axioms;

/// Bytes of an element of the data.
pub const ELEMENT_SIZE: u64 = 4;

/// Bytes of one element from each rank.
pub const PAIR_SIZE: u64 = 8;

/// Ranks of each communicator, and devices in use.
pub const NUM_RANKS: usize = 2;

/// An all-gather over a communicator of its own.
#[derive(Clone, Copy, Debug, PartialEq, Eq, Structural)]
pub struct Job {
    pub communicator_id: CommunicatorId,
    /// Bytes of the buffer on each device, half of which comes from each rank.
    pub buffer_size: u64,
    /// What rank 0 contributes, over and over.
    pub first_content: i32,
    /// What rank 1 contributes, over and over.
    pub second_content: i32,
}

impl Job {
    /// The buffer holds a whole number of elements from each rank, and the host can hold it in
    /// memory.
    pub open spec fn fits(self) -> bool {
        &&& self.buffer_size % PAIR_SIZE == 0
        &&& self.buffer_size / ELEMENT_SIZE <= usize::MAX
    }

    /// Elements that come from each rank.
    pub open spec fn half(self) -> nat {
        (self.buffer_size / 2 / ELEMENT_SIZE) as nat
    }
}

/// `n` elements, each of them `content`.
pub open spec fn filled(content: i32, n: nat) -> Seq<i32> {
    Seq::new(n, |i: int| content)
}

/// What the buffer of rank 0 holds at first: its contribution, and room for the other.
pub open spec fn first_region(job: Job) -> Seq<i32> {
    filled(job.first_content, job.half()) + filled(0, job.half())
}

/// What the buffer of rank 1 holds at first: room for the other contribution, and its own.
pub open spec fn second_region(job: Job) -> Seq<i32> {
    filled(0, job.half()) + filled(job.second_content, job.half())
}

/// What every buffer holds once the contributions are gathered.
pub open spec fn gathered_region(job: Job) -> Seq<i32> {
    filled(job.first_content, job.half()) + filled(job.second_content, job.half())
}

/// `n` elements, each of them `front`, and behind them `n` elements, each of them `back`.
fn two_halves(front: i32, back: i32, n: usize) -> (r: Vec<i32>)
    requires
        2 * n <= usize::MAX,
    ensures
        r@ == filled(front, n as nat) + filled(back, n as nat),
{
    let mut buf: Vec<i32> = Vec::new();
    let mut i: usize = 0;
    while i < n
        invariant
            i <= n,
            buf@ == filled(front, i as nat),
        decreases n - i,
    {
        buf.push(front);
        i += 1;
        assert(buf@ =~= filled(front, i as nat));
    }
    i = 0;
    while i < n
        invariant
            i <= n,
            buf@ == filled(front, n as nat) + filled(back, i as nat),
        decreases n - i,
    {
        buf.push(back);
        i += 1;
        assert(buf@ =~= filled(front, n as nat) + filled(back, i as nat));
    }
    buf
}

/// What the buffers of the two ranks hold at first.
pub fn initialize_test_region(job: &Job) -> (r: (Vec<i32>, Vec<i32>))
    requires
        job.fits(),
    ensures
        r.0@ == first_region(*job),
        r.1@ == second_region(*job),
{
    let n: usize = (job.buffer_size / 2 / ELEMENT_SIZE) as usize;
    (two_halves(job.first_content, 0, n), two_halves(0, job.second_content, n))
}

/// Whether data that was read back has the contribution of each rank where it belongs. One element
/// of each is looked at.
pub open spec fn data_passes(job: Job, data: Seq<i32>) -> bool {
    &&& data.len() > job.half()
    &&& data[0] == job.first_content
    &&& data[job.half() as int] == job.second_content
}

/// Checks data that was read back.
pub fn check_data(job: &Job, data: &Vec<i32>) -> (r: bool)
    requires
        job.fits(),
    ensures
        r == data_passes(*job, data@),
{
    let half: usize = (job.buffer_size / 2 / ELEMENT_SIZE) as usize;
    data.len() > half && data[0] == job.first_content && data[half] == job.second_content
}

/// Where the buffers of a job are, by rank.
#[derive(Clone, Copy, Debug, PartialEq, Eq, Structural)]
pub struct Buffers {
    pub first: u64,
    pub second: u64,
}

impl Buffers {
    /// The buffer of a rank.
    pub open spec fn of(self, rank: int) -> u64 {
        if rank == 0 {
            self.first
        } else {
            self.second
        }
    }

    /// The half of its buffer that rank 1 sends has an address.
    pub open spec fn fit(self, job: Job) -> bool {
        self.second + job.buffer_size / 2 <= u64::MAX
    }
}

/// What rank `rank` asks its proxy first.
pub open spec fn init_command(job: Job, rank: int) -> ProxyCommand {
    ProxyCommand::InitCommunicator(
        InitCommunicator {
            communicator_id: job.communicator_id,
            rank: rank as usize,
            num_ranks: NUM_RANKS,
        },
    )
}

/// The all-gather that rank `rank` asks for: it sends its own half of its buffer and receives into
/// the whole.
pub open spec fn gather_command(job: Job, buffers: Buffers, rank: int) -> ProxyCommand {
    ProxyCommand::AllGather(
        AllGather {
            communicator_id: job.communicator_id,
            send_buf_addr: (buffers.of(rank) + rank * (job.buffer_size / 2)) as u64,
            recv_buf_addr: buffers.of(rank),
            size: job.buffer_size / 2,
        },
    )
}

/// A step of a run.
#[derive(Clone, Copy, Debug, PartialEq, Eq, Structural)]
pub enum Step {
    /// Rank `rank` of a job asks for the communicator.
    Init { job: usize, rank: usize },
    /// Rank `rank` of a job hears that the communicator is there.
    AwaitInit { job: usize, rank: usize },
    /// The buffers of a job are allocated and filled.
    Prepare { job: usize },
    /// Rank `rank` of a job asks for the all-gather.
    Gather { job: usize, rank: usize },
    /// Rank `rank` of a job hears that the all-gather is complete.
    AwaitGather { job: usize, rank: usize },
    /// The buffer of rank 1 of a job is read back and checked.
    Check { job: usize },
    /// Nothing is left to do.
    Done,
}

/// The step with the number `at` of a run with `jobs` jobs: job by job, the communicators are made;
/// then all buffers are prepared; then all all-gathers are asked for before any is waited for; and
/// then the data of all jobs is checked.
pub open spec fn step_at(jobs: nat, at: nat) -> Step {
    if at < 4 * jobs {
        let job = (at / 4) as usize;
        let rank = (at % 2) as usize;
        if at % 4 < 2 {
            Step::Init { job, rank }
        } else {
            Step::AwaitInit { job, rank }
        }
    } else if at < 5 * jobs {
        Step::Prepare { job: (at - 4 * jobs) as usize }
    } else if at < 7 * jobs {
        let k = (at - 5 * jobs) as nat;
        Step::Gather { job: (k / 2) as usize, rank: (k % 2) as usize }
    } else if at < 9 * jobs {
        let k = (at - 7 * jobs) as nat;
        Step::AwaitGather { job: (k / 2) as usize, rank: (k % 2) as usize }
    } else if at < 10 * jobs {
        Step::Check { job: (at - 9 * jobs) as usize }
    } else {
        Step::Done
    }
}

/// What the caller has to do.
pub enum Action {
    /// Send a command to the proxy of the device `rank`, for the daemon of the job.
    Send { job: usize, rank: usize, command: ProxyCommand },
    /// Wait for a report of the proxy of the device `rank` to the daemon of the job.
    Await { job: usize, rank: usize },
    /// Allocate a buffer of `bytes` bytes on each device and fill it.
    Prepare { job: usize, bytes: u64, first: Vec<i32>, second: Vec<i32> },
    /// Read `bytes` bytes back from the buffer of rank 1.
    ReadBack { job: usize, address: u64, bytes: u64 },
    /// Nothing: the run is complete.
    Finish,
}

/// What came of an action.
pub enum Event {
    /// The command is sent.
    Sent,
    /// The proxy reported.
    Report(Polled<ProxyCompletion>),
    /// The buffers are there.
    Prepared(Buffers),
    /// The data was read back.
    Data(Vec<i32>),
}

/// Why a run failed.
#[derive(Clone, Copy, Debug, PartialEq, Eq, Structural)]
pub enum Failure {
    /// The proxy reported something else than was asked for, or is gone.
    WrongReport,
    /// What rank 1 sends would lie outside the address space.
    BadBuffers,
    /// The data is not what the ranks contributed.
    WrongData,
    /// What came back does not belong to the action.
    WrongEvent,
}

/// A run and how far it got.
pub struct SelfTest {
    /// The jobs of the run.
    pub jobs: Vec<Job>,
    /// Where the buffers of the jobs are, once they are prepared.
    pub buffers: Vec<Buffers>,
    /// The number of the next step.
    pub at: usize,
}

/// Whether an event brings a run past a step, and if not, why.
pub open spec fn verdict(step: Step, jobs: Seq<Job>, event: Event) -> Option<Failure> {
    match (step, event) {
        (Step::Init { job, rank }, Event::Sent) => None,
        (Step::AwaitInit { job, rank }, Event::Report(report)) => if report == Polled::Message(
            ProxyCompletion::InitCommunicator,
        ) {
            None
        } else {
            Some(Failure::WrongReport)
        },
        (Step::Prepare { job }, Event::Prepared(buffers)) => if buffers.fit(jobs[job as int]) {
            None
        } else {
            Some(Failure::BadBuffers)
        },
        (Step::Gather { job, rank }, Event::Sent) => None,
        (Step::AwaitGather { job, rank }, Event::Report(report)) => if report == Polled::Message(
            ProxyCompletion::AllGather,
        ) {
            None
        } else {
            Some(Failure::WrongReport)
        },
        (Step::Check { job }, Event::Data(data)) => if data_passes(jobs[job as int], data@) {
            None
        } else {
            Some(Failure::WrongData)
        },
        _ => Some(Failure::WrongEvent),
    }
}

impl SelfTest {
    /// The jobs can be run, and the buffers are there of the jobs that are past their preparation.
    pub open spec fn wf(self) -> bool {
        let jobs = self.jobs@;
        &&& 10 * jobs.len() <= usize::MAX
        &&& forall|j: int| 0 <= j < jobs.len() ==> (#[trigger] jobs[j]).fits()
        &&& self.at <= 10 * jobs.len()
        &&& self.buffers@.len() == if self.at < 4 * jobs.len() {
            0
        } else if self.at < 5 * jobs.len() {
            self.at - 4 * jobs.len()
        } else {
            jobs.len() as int
        }
        &&& forall|j: int|
            0 <= j < self.buffers@.len() ==> (#[trigger] self.buffers@[j]).fit(jobs[j])
    }

    /// The next step.
    pub open spec fn step(self) -> Step {
        step_at(self.jobs@.len(), self.at as nat)
    }

    /// The run is complete: every step was passed.
    pub open spec fn passed(self) -> bool {
        self.at == 10 * self.jobs@.len()
    }

    /// A run of its own.
    pub fn new(jobs: Vec<Job>) -> (r: SelfTest)
        requires
            10 * jobs@.len() <= usize::MAX,
            forall|j: int| 0 <= j < jobs@.len() ==> (#[trigger] jobs@[j]).fits(),
        ensures
            r.wf(),
            r.jobs == jobs,
            r.at == 0,
    {
        SelfTest { jobs, buffers: Vec::new(), at: 0 }
    }

    /// The next step.
    pub fn next_step(&self) -> (r: Step)
        requires
            self.wf(),
        ensures
            r == self.step(),
    {
        let n: usize = self.jobs.len();
        let at: usize = self.at;
        if at < 4 * n {
            let job: usize = at / 4;
            let rank: usize = at % 2;
            if at % 4 < 2 {
                Step::Init { job, rank }
            } else {
                Step::AwaitInit { job, rank }
            }
        } else if at < 5 * n {
            Step::Prepare { job: at - 4 * n }
        } else if at < 7 * n {
            Step::Gather { job: (at - 5 * n) / 2, rank: (at - 5 * n) % 2 }
        } else if at < 9 * n {
            Step::AwaitGather { job: (at - 7 * n) / 2, rank: (at - 7 * n) % 2 }
        } else if at < 10 * n {
            Step::Check { job: at - 9 * n }
        } else {
            Step::Done
        }
    }

    /// Steps speak of jobs that there are, of the two ranks, and of buffers that are there.
    proof fn lemma_step(self)
        requires
            self.wf(),
        ensures
            match self.step() {
                Step::Init { job, rank } => job < self.jobs@.len() && rank < NUM_RANKS,
                Step::AwaitInit { job, rank } => job < self.jobs@.len() && rank < NUM_RANKS,
                Step::Prepare { job } => job < self.jobs@.len() && job == self.buffers@.len(),
                Step::Gather { job, rank } => job < self.buffers@.len() && rank < NUM_RANKS,
                Step::AwaitGather { job, rank } => job < self.jobs@.len() && rank < NUM_RANKS,
                Step::Check { job } => job < self.buffers@.len(),
                Step::Done => true,
            },
    {
    }

    /// What the caller has to do next.
    pub fn next_action(&self) -> (r: Action)
        requires
            self.wf(),
        ensures
            match self.step() {
                Step::Init { job, rank } => r == (Action::Send {
                    job,
                    rank,
                    command: init_command(self.jobs@[job as int], rank as int),
                }),
                Step::AwaitInit { job, rank } => r == (Action::Await { job, rank }),
                Step::Prepare { job } => {
                    &&& r matches Action::Prepare { job: named, bytes, first, second }
                    &&& named == job
                    &&& bytes == self.jobs@[job as int].buffer_size
                    &&& first@ == first_region(self.jobs@[job as int])
                    &&& second@ == second_region(self.jobs@[job as int])
                },
                Step::Gather { job, rank } => r == (Action::Send {
                    job,
                    rank,
                    command: gather_command(
                        self.jobs@[job as int],
                        self.buffers@[job as int],
                        rank as int,
                    ),
                }),
                Step::AwaitGather { job, rank } => r == (Action::Await { job, rank }),
                Step::Check { job } => r == (Action::ReadBack {
                    job,
                    address: self.buffers@[job as int].second,
                    bytes: self.jobs@[job as int].buffer_size,
                }),
                Step::Done => r == Action::Finish,
            },
    {
        proof {
            self.lemma_step();
        }
        match self.next_step() {
            Step::Init { job, rank } => {
                let command = ProxyCommand::InitCommunicator(
                    InitCommunicator {
                        communicator_id: self.jobs[job].communicator_id,
                        rank,
                        num_ranks: NUM_RANKS,
                    },
                );
                Action::Send { job, rank, command }
            },
            Step::AwaitInit { job, rank } => Action::Await { job, rank },
            Step::Prepare { job } => {
                let (first, second) = initialize_test_region(&self.jobs[job]);
                Action::Prepare { job, bytes: self.jobs[job].buffer_size, first, second }
            },
            Step::Gather { job, rank } => {
                let size: u64 = self.jobs[job].buffer_size / 2;
                let buffers = self.buffers[job];
                assert(buffers.fit(self.jobs@[job as int]));
                assert(rank * size == if rank == 0 {
                    0
                } else {
                    size as int
                }) by (nonlinear_arith)
                    requires
                        rank == 0 || rank == 1,
                ;
                let (send_buf_addr, recv_buf_addr): (u64, u64) = if rank == 0 {
                    (buffers.first, buffers.first)
                } else {
                    (buffers.second + size, buffers.second)
                };
                let command = ProxyCommand::AllGather(
                    AllGather {
                        communicator_id: self.jobs[job].communicator_id,
                        send_buf_addr,
                        recv_buf_addr,
                        size,
                    },
                );
                Action::Send { job, rank, command }
            },
            Step::AwaitGather { job, rank } => Action::Await { job, rank },
            Step::Check { job } => Action::ReadBack {
                job,
                address: self.buffers[job].second,
                bytes: self.jobs[job].buffer_size,
            },
            Step::Done => Action::Finish,
        }
    }

    /// Goes on to the next step if `event` is what the present one is to bring. A run that failed
    /// stays where it is.
    pub fn advance(&mut self, event: Event) -> (r: Result<(), Failure>)
        requires
            old(self).wf(),
        ensures
            final(self).wf(),
            final(self).jobs == old(self).jobs,
            match verdict(old(self).step(), old(self).jobs@, event) {
                None => {
                    &&& r is Ok
                    &&& final(self).at == old(self).at + 1
                    &&& final(self).buffers@ == match event {
                        Event::Prepared(buffers) => old(self).buffers@.push(buffers),
                        _ => old(self).buffers@,
                    }
                },
                Some(failure) => {
                    &&& r == Err::<(), Failure>(failure)
                    &&& final(self).at == old(self).at
                    &&& final(self).buffers == old(self).buffers
                },
            },
    {
        proof {
            self.lemma_step();
        }
        match (self.next_step(), event) {
            (Step::Init { .. }, Event::Sent) => {},
            (Step::AwaitInit { .. }, Event::Report(report)) => {
                match report {
                    Polled::Message(ProxyCompletion::InitCommunicator) => {},
                    _ => {
                        return Err(Failure::WrongReport);
                    },
                }
            },
            (Step::Prepare { job }, Event::Prepared(buffers)) => {
                let size: u64 = self.jobs[job].buffer_size / 2;
                if buffers.second > u64::MAX - size {
                    return Err(Failure::BadBuffers);
                }
                self.buffers.push(buffers);
            },
            (Step::Gather { .. }, Event::Sent) => {},
            (Step::AwaitGather { .. }, Event::Report(report)) => {
                match report {
                    Polled::Message(ProxyCompletion::AllGather) => {},
                    _ => {
                        return Err(Failure::WrongReport);
                    },
                }
            },
            (Step::Check { job }, Event::Data(data)) => {
                if !check_data(&self.jobs[job], &data) {
                    return Err(Failure::WrongData);
                }
            },
            _ => {
                return Err(Failure::WrongEvent);
            },
        }
        self.at = self.at + 1;
        Ok(())
    }
}

/// The job of the short run.
pub open spec fn short_jobs() -> Seq<Job> {
    seq![
        Job {
            communicator_id: CommunicatorId(0),
            buffer_size: 0x2000_0000,
            first_content: 1883,
            second_content: 2042,
        },
    ]
}

/// The jobs of the long run: two applications that use the devices at the same time.
pub open spec fn long_jobs() -> Seq<Job> {
    seq![
        Job {
            communicator_id: CommunicatorId(0),
            buffer_size: 0x8000_0000,
            first_content: 1883,
            second_content: 2042,
        },
        Job {
            communicator_id: CommunicatorId(1),
            buffer_size: 0x1_0000_0000,
            first_content: 2049,
            second_content: 40999,
        },
    ]
}

impl SelfTest {
    /// The short run: one job with buffers of 512 MiB.
    pub fn test() -> (r: SelfTest)
        ensures
            r.wf(),
            r.at == 0,
            r.jobs@ == short_jobs(),
    {
        let mut jobs: Vec<Job> = Vec::new();
        jobs.push(
            Job {
                communicator_id: CommunicatorId(0),
                buffer_size: 0x2000_0000,
                first_content: 1883,
                second_content: 2042,
            },
        );
        assert(jobs@ =~= short_jobs());
        SelfTest::new(jobs)
    }

    /// The long run: one job with buffers of 2 GiB and one with buffers of 4 GiB.
    pub fn test2() -> (r: SelfTest)
        ensures
            r.wf(),
            r.at == 0,
            r.jobs@ == long_jobs(),
    {
        let mut jobs: Vec<Job> = Vec::new();
        jobs.push(
            Job {
                communicator_id: CommunicatorId(0),
                buffer_size: 0x8000_0000,
                first_content: 1883,
                second_content: 2042,
            },
        );
        jobs.push(
            Job {
                communicator_id: CommunicatorId(1),
                buffer_size: 0x1_0000_0000,
                first_content: 2049,
                second_content: 40999,
            },
        );
        assert(jobs@ =~= long_jobs());
        SelfTest::new(jobs)
    }
}

/// What a proxy starts with, and the other side of its way to the control engine.
fn connect_proxy<S: ProxyTypes>(
    ids: &mut ChannelIds,
    cuda_device: i32,
    host: HostIdent,
    daemon_tx: HashMap<DaemonId, Tx<ProxyCompletion>>,
    daemon_rx: Vec<(DaemonId, Rx<ProxyCommand>)>,
    proxy_peer_tx: Vec<Tx<S::PeerMessage>>,
    proxy_peer_rx: Rx<S::PeerMessage>,
    global_registry: SharedRegistry<S>,
) -> (r: (ProxyResources<S>, DuplexChannel<ControlCommand, S::ControlRequest>))
    ensures
        r.0.idle(),
        r.0.device_info == (DeviceInfo { host, cuda_device_idx: cuda_device }),
        linked(r.1, r.0.control_chan),
        unused(r.1),
        unused(r.0.control_chan),
        r.0.daemon_tx == daemon_tx,
        r.0.daemon_rx == daemon_rx,
        r.0.proxy_peer_tx == proxy_peer_tx,
        r.0.proxy_peer_rx == proxy_peer_rx,
        r.0.global_registry == global_registry,
        final(ids).next() == old(ids).next() + 2,
{
    let (control_side, proxy_side) = DuplexChannel::new_unbound_pair(ids);
    let proxy = ProxyResources::start(
        DeviceInfo { host, cuda_device_idx: cuda_device },
        proxy_side,
        daemon_tx,
        daemon_rx,
        proxy_peer_tx,
        proxy_peer_rx,
        global_registry,
    );
    (proxy, control_side)
}

/// What a proxy of the long run starts with. It has channels for the control engine, but nobody is
/// at their other ends: those are dropped here.
pub fn start_test_proxy<S: ProxyTypes>(
    ids: &mut ChannelIds,
    cuda_device: i32,
    host: HostIdent,
    daemon_tx: HashMap<DaemonId, Tx<ProxyCompletion>>,
    daemon_rx: Vec<(DaemonId, Rx<ProxyCommand>)>,
    proxy_peer_tx: Vec<Tx<S::PeerMessage>>,
    proxy_peer_rx: Rx<S::PeerMessage>,
    global_registry: SharedRegistry<S>,
) -> (r: ProxyResources<S>)
    ensures
        r.idle(),
        r.device_info == (DeviceInfo { host, cuda_device_idx: cuda_device }),
        has_control_channels(r),
        r.daemon_tx == daemon_tx,
        r.daemon_rx == daemon_rx,
        r.proxy_peer_tx == proxy_peer_tx,
        r.proxy_peer_rx == proxy_peer_rx,
        r.global_registry == global_registry,
        final(ids).next() == old(ids).next() + 2,
{
    let (proxy, control_side) = connect_proxy(
        ids,
        cuda_device,
        host,
        daemon_tx,
        daemon_rx,
        proxy_peer_tx,
        proxy_peer_rx,
        global_registry,
    );
    assert(linked(control_side, proxy.control_chan));
    proxy
}

/// The channels of a proxy for the control engine were made for it, and nothing went through them.
pub open spec fn has_control_channels<S: ProxyTypes>(proxy: ProxyResources<S>) -> bool {
    &&& unused(proxy.control_chan)
    &&& exists|far: DuplexChannel<ControlCommand, S::ControlRequest>| #[trigger]
        linked(far, proxy.control_chan)
}

/// The daemons of the jobs, whose names are the numbers of the jobs, are connected with a proxy;
/// `sides` are their sides of the connections.
pub open spec fn daemons_connected<S: ProxyTypes>(
    proxy: ProxyResources<S>,
    sides: Seq<DuplexChannel<ProxyCommand, ProxyCompletion>>,
) -> bool {
    &&& forall|id: DaemonId| #[trigger] proxy.daemon_tx@.contains_key(id) <==> id < sides.len()
    &&& proxy.daemon_rx@.len() == sides.len()
    &&& forall|j: int|
        0 <= j < sides.len() ==> {
            let side = #[trigger] sides[j];
            &&& unused(side)
            &&& one_channel(proxy.daemon_tx@[j as u64], side.rx)
            &&& proxy.daemon_tx@[j as u64].sent() == Seq::<ProxyCompletion>::empty()
            &&& proxy.daemon_rx@[j].0 == j
            &&& one_channel(side.tx, proxy.daemon_rx@[j].1)
            &&& proxy.daemon_rx@[j].1.polled() == Seq::<Polled<ProxyCommand>>::empty()
        }
}

/// The ways between the proxies of a run: each has one to every proxy, itself included.
pub open spec fn all_connected<S: ProxyTypes>(proxies: Seq<ProxyResources<S>>) -> bool {
    forall|dev: int|
        0 <= dev < proxies.len() ==> {
            let tx = (#[trigger] proxies[dev]).proxy_peer_tx@;
            &&& tx.len() == proxies.len()
            &&& forall|k: int|
                0 <= k < tx.len() ==> {
                    &&& one_channel(#[trigger] tx[k], proxies[k].proxy_peer_rx)
                    &&& tx[k].sent() == Seq::<S::PeerMessage>::empty()
                }
        }
}

/// The two ends of the ways between a proxy and the daemons of `jobs` jobs.
fn connect_daemons(ids: &mut ChannelIds, jobs: u64) -> (r: (
    Vec<DuplexChannel<ProxyCommand, ProxyCompletion>>,
    HashMap<DaemonId, Tx<ProxyCompletion>>,
    Vec<(DaemonId, Rx<ProxyCommand>)>,
))
    ensures
        r.0@.len() == jobs,
        r.2@.len() == jobs,
        forall|id: DaemonId| #[trigger] r.1@.contains_key(id) <==> id < jobs,
        forall|j: int|
            0 <= j < jobs ==> {
                let side = #[trigger] r.0@[j];
                &&& unused(side)
                &&& one_channel(r.1@[j as u64], side.rx)
                &&& r.1@[j as u64].sent() == Seq::<ProxyCompletion>::empty()
                &&& r.2@[j].0 == j
                &&& one_channel(side.tx, r.2@[j].1)
                &&& r.2@[j].1.polled() == Seq::<Polled<ProxyCommand>>::empty()
            },
        forall|j: int|
            0 <= j < jobs ==> {
                &&& (#[trigger] r.0@[j]).tx.id() == old(ids).next() + 2 * j
                &&& r.0@[j].rx.id() == old(ids).next() + 2 * j + 1
            },
        final(ids).next() == old(ids).next() + 2 * jobs,
{
    let mut sides: Vec<DuplexChannel<ProxyCommand, ProxyCompletion>> = Vec::new();
    let mut daemon_tx: HashMap<DaemonId, Tx<ProxyCompletion>> = HashMap::new();
    let mut daemon_rx: Vec<(DaemonId, Rx<ProxyCommand>)> = Vec::new();
    let mut id: DaemonId = 0;
    while id < jobs
        invariant
            id <= jobs,
            sides@.len() == id,
            daemon_rx@.len() == id,
            forall|other: DaemonId| #[trigger] daemon_tx@.contains_key(other) <==> other < id,
            forall|j: int|
                0 <= j < id ==> {
                    let side = #[trigger] sides@[j];
                    &&& unused(side)
                    &&& one_channel(daemon_tx@[j as u64], side.rx)
                    &&& daemon_tx@[j as u64].sent() == Seq::<ProxyCompletion>::empty()
                    &&& daemon_rx@[j].0 == j
                    &&& one_channel(side.tx, daemon_rx@[j].1)
                    &&& daemon_rx@[j].1.polled() == Seq::<Polled<ProxyCommand>>::empty()
                },
            forall|j: int|
                0 <= j < id ==> {
                    &&& (#[trigger] sides@[j]).tx.id() == old(ids).next() + 2 * j
                    &&& sides@[j].rx.id() == old(ids).next() + 2 * j + 1
                },
            ids.next() == old(ids).next() + 2 * id,
        decreases jobs - id,
    {
        let (daemon_side, proxy_side) = DuplexChannel::new_unbound_pair(ids);
        sides.push(daemon_side);
        daemon_tx.insert(id, proxy_side.tx);
        daemon_rx.push((id, proxy_side.rx));
        id += 1;
    }
    (sides, daemon_tx, daemon_rx)
}

/// The devices and channels of a run.
#[verifier::reject_recursive_types(S)]
pub struct TestBed<S: ProxyTypes> {
    /// What the proxies start with, by device.
    pub proxies: Vec<ProxyResources<S>>,
    /// The other sides of the proxies' ways to the control engine, by device, in a run that keeps
    /// them.
    pub controls: Vec<DuplexChannel<ControlCommand, S::ControlRequest>>,
    /// The daemons' sides of the ways to the proxies, by device and by job.
    pub daemons: Vec<Vec<DuplexChannel<ProxyCommand, ProxyCompletion>>>,
}

/// What leads to a proxy of a run, and comes from it, but for the control engine: the ends that the
/// proxy gets, and the daemons' sides.
#[verifier::reject_recursive_types(M)]
struct Wiring<M> {
    sides: Vec<DuplexChannel<ProxyCommand, ProxyCompletion>>,
    daemon_tx: HashMap<DaemonId, Tx<ProxyCompletion>>,
    daemon_rx: Vec<(DaemonId, Rx<ProxyCommand>)>,
    proxy_peer_tx: Vec<Tx<M>>,
    proxy_peer_rx: Rx<M>,
}

impl<M> Wiring<M> {
    /// The daemons of `jobs` jobs are connected, through channels with the numbers from `first` on.
    spec fn ready(self, jobs: nat, first: nat) -> bool {
        &&& self.sides@.len() == jobs
        &&& self.daemon_rx@.len() == jobs
        &&& forall|id: DaemonId| #[trigger] self.daemon_tx@.contains_key(id) <==> id < jobs
        &&& forall|j: int|
            0 <= j < jobs ==> {
                let side = #[trigger] self.sides@[j];
                &&& unused(side)
                &&& one_channel(self.daemon_tx@[j as u64], side.rx)
                &&& self.daemon_tx@[j as u64].sent() == Seq::<ProxyCompletion>::empty()
                &&& self.daemon_rx@[j].0 == j
                &&& one_channel(side.tx, self.daemon_rx@[j].1)
                &&& self.daemon_rx@[j].1.polled() == Seq::<Polled<ProxyCommand>>::empty()
                &&& side.tx.id() == first + 2 * j
                &&& side.rx.id() == first + 2 * j + 1
            }
        &&& self.proxy_peer_rx.polled() == Seq::<Polled<M>>::empty()
    }

    /// The proxies of two devices have one way to each of the two.
    spec fn both_reach(self, first: Rx<M>, second: Rx<M>) -> bool {
        &&& self.proxy_peer_tx@.len() == NUM_RANKS
        &&& one_channel(self.proxy_peer_tx@[0], first)
        &&& one_channel(self.proxy_peer_tx@[1], second)
        &&& self.proxy_peer_tx@[0].sent() == Seq::<M>::empty()
        &&& self.proxy_peer_tx@[1].sent() == Seq::<M>::empty()
    }
}

/// Opens the channels between the daemons of `jobs` jobs and the proxies of two devices, and between
/// the proxies.
fn connect_all<M>(ids: &mut ChannelIds, jobs: u64) -> (r: (Wiring<M>, Wiring<M>))
    ensures
        r.0.ready(jobs as nat, old(ids).next() + 2),
        r.1.ready(jobs as nat, old(ids).next() + 2 + 2 * jobs as nat),
        r.0.both_reach(r.0.proxy_peer_rx, r.1.proxy_peer_rx),
        r.1.both_reach(r.0.proxy_peer_rx, r.1.proxy_peer_rx),
        r.0.proxy_peer_rx.id() != r.1.proxy_peer_rx.id(),
{
    let (mut peer_0_tx, peer_0_rx) = ids.open();
    let (mut peer_1_tx, peer_1_rx) = ids.open();
    let (sides_0, daemon_tx_0, daemon_rx_0) = connect_daemons(ids, jobs);
    let mut peers_of_0: Vec<Tx<M>> = Vec::new();
    peers_of_0.push(peer_0_tx.another());
    peers_of_0.push(peer_1_tx.another());
    let (sides_1, daemon_tx_1, daemon_rx_1) = connect_daemons(ids, jobs);
    let mut peers_of_1: Vec<Tx<M>> = Vec::new();
    peers_of_1.push(peer_0_tx);
    peers_of_1.push(peer_1_tx);
    (
        Wiring {
            sides: sides_0,
            daemon_tx: daemon_tx_0,
            daemon_rx: daemon_rx_0,
            proxy_peer_tx: peers_of_0,
            proxy_peer_rx: peer_0_rx,
        },
        Wiring {
            sides: sides_1,
            daemon_tx: daemon_tx_1,
            daemon_rx: daemon_rx_1,
            proxy_peer_tx: peers_of_1,
            proxy_peer_rx: peer_1_rx,
        },
    )
}

impl<S: ProxyTypes> TestBed<S> {
    /// The proxy of the device `dev` and what leads to it.
    pub open spec fn device_ready(self, dev: int, jobs: nat, registry: SharedRegistry<S>) -> bool {
        let proxy = self.proxies@[dev];
        &&& proxy.idle()
        &&& proxy.device_info == (DeviceInfo {
            host: HostIdent(
                crate::comm::SocketAddress {
                    ip: crate::comm::IpAddress::V4(0x7f00_0001),
                    port: 8000,
                },
            ),
            cuda_device_idx: dev as i32,
        })
        &&& has_control_channels(proxy)
        &&& proxy.proxy_peer_rx.polled() == Seq::<Polled<S::PeerMessage>>::empty()
        &&& self.daemons@[dev]@.len() == jobs
        &&& daemons_connected(proxy, self.daemons@[dev]@)
        &&& proxy.global_registry == registry
    }

    /// No two daemons share a channel, and no daemon shares one between its proxies.
    pub open spec fn daemons_distinct(self) -> bool {
        forall|dev: int, job: int, other_dev: int, other_job: int|
            #![trigger self.daemons@[dev]@[job], self.daemons@[other_dev]@[other_job]]
            0 <= dev < self.daemons@.len() && 0 <= job < self.daemons@[dev]@.len() && 0 <= other_dev
                < self.daemons@.len() && 0 <= other_job < self.daemons@[other_dev]@.len() && (dev
                != other_dev || job != other_job) ==> {
                let side = self.daemons@[dev]@[job];
                let other = self.daemons@[other_dev]@[other_job];
                &&& side.tx.id() != other.tx.id()
                &&& side.rx.id() != other.rx.id()
                &&& side.tx.id() != other.rx.id()
            }
    }

    /// The proxies of two devices and the daemons of `jobs` jobs are there and connected.
    pub open spec fn ready(self, jobs: nat, registry: SharedRegistry<S>) -> bool {
        &&& self.proxies@.len() == NUM_RANKS
        &&& self.daemons@.len() == NUM_RANKS
        &&& self.device_ready(0, jobs, registry)
        &&& self.device_ready(1, jobs, registry)
        &&& self.daemons_distinct()
        &&& all_connected(self.proxies@)
        &&& self.proxies@[0].proxy_peer_rx.id() != self.proxies@[1].proxy_peer_rx.id()
    }

    /// As [`TestBed::ready`], with a fresh registry.
    pub open spec fn ready_afresh(self, jobs: nat, transport_delegator: S::Delegator) -> bool {
        exists|registry: SharedRegistry<S>| #[trigger]
            self.ready(jobs, registry) && registry.fresh() && registry.transport_delegator
                == transport_delegator
    }

    /// The test bed of the short run, which keeps the control engine's sides of the proxies'
    /// channels.
    pub fn test(transport_delegator: S::Delegator) -> (r: TestBed<S>)
        ensures
            r.ready_afresh(1, transport_delegator),
            r.controls@.len() == NUM_RANKS,
            forall|dev: int|
                0 <= dev < NUM_RANKS ==> {
                    &&& linked(#[trigger] r.controls@[dev], r.proxies@[dev].control_chan)
                    &&& unused(r.controls@[dev])
                },
    {
        let registry = GlobalRegistry::new(transport_delegator);
        let mut ids = ChannelIds::new();
        let (first, second) = connect_all(&mut ids, 1);
        let (proxy_0, control_0) = connect_proxy(
            &mut ids,
            0,
            local_host(),
            first.daemon_tx,
            first.daemon_rx,
            first.proxy_peer_tx,
            first.proxy_peer_rx,
            Arc::clone(&registry),
        );
        let (proxy_1, control_1) = connect_proxy(
            &mut ids,
            1,
            local_host(),
            second.daemon_tx,
            second.daemon_rx,
            second.proxy_peer_tx,
            second.proxy_peer_rx,
            Arc::clone(&registry),
        );
        assert(has_control_channels(proxy_0)) by {
            assert(linked(control_0, proxy_0.control_chan));
        }
        assert(has_control_channels(proxy_1)) by {
            assert(linked(control_1, proxy_1.control_chan));
        }
        let mut controls: Vec<DuplexChannel<ControlCommand, S::ControlRequest>> = Vec::new();
        controls.push(control_0);
        controls.push(control_1);
        let mut bed = TestBed::of(proxy_0, first.sides, proxy_1, second.sides);
        bed.controls = controls;
        assert(bed.ready(1, registry));
        bed
    }

    /// The test bed of the long run, in which nobody is at the other ends of the proxies' channels
    /// for the control engine.
    pub fn test2(transport_delegator: S::Delegator) -> (r: TestBed<S>)
        ensures
            r.ready_afresh(2, transport_delegator),
            r.controls@.len() == 0,
    {
        let registry = GlobalRegistry::new(transport_delegator);
        let mut ids = ChannelIds::new();
        let (first, second) = connect_all(&mut ids, 2);
        let proxy_0 = start_test_proxy(
            &mut ids,
            0,
            local_host(),
            first.daemon_tx,
            first.daemon_rx,
            first.proxy_peer_tx,
            first.proxy_peer_rx,
            Arc::clone(&registry),
        );
        let proxy_1 = start_test_proxy(
            &mut ids,
            1,
            local_host(),
            second.daemon_tx,
            second.daemon_rx,
            second.proxy_peer_tx,
            second.proxy_peer_rx,
            Arc::clone(&registry),
        );
        let bed = TestBed::of(proxy_0, first.sides, proxy_1, second.sides);
        assert(bed.ready(2, registry));
        bed
    }

    /// Two proxies and the daemons' sides of the ways to them.
    fn of(
        proxy_0: ProxyResources<S>,
        sides_0: Vec<DuplexChannel<ProxyCommand, ProxyCompletion>>,
        proxy_1: ProxyResources<S>,
        sides_1: Vec<DuplexChannel<ProxyCommand, ProxyCompletion>>,
    ) -> (r: TestBed<S>)
        ensures
            r.proxies@ == seq![proxy_0, proxy_1],
            r.controls@.len() == 0,
            r.daemons@ == seq![sides_0, sides_1],
    {
        let mut proxies: Vec<ProxyResources<S>> = Vec::new();
        proxies.push(proxy_0);
        proxies.push(proxy_1);
        let mut daemons: Vec<Vec<DuplexChannel<ProxyCommand, ProxyCompletion>>> = Vec::new();
        daemons.push(sides_0);
        daemons.push(sides_1);
        assert(proxies@ =~= seq![proxy_0, proxy_1]);
        assert(daemons@ =~= seq![sides_0, sides_1]);
        TestBed { proxies, controls: Vec::new(), daemons }
    }
}

/// What rank `rank` sends when it asks for the all-gather of a job and its buffer holds `region`.
pub open spec fn contribution(job: Job, buffers: Buffers, rank: int, region: Seq<i32>) -> Seq<i32> {
    match gather_command(job, buffers, rank) {
        ProxyCommand::AllGather(gather) => {
            let from = gather.send_buf_addr - gather.recv_buf_addr;
            region.subrange(
                from / (ELEMENT_SIZE as int),
                (from + gather.size) / (ELEMENT_SIZE as int),
            )
        },
        _ => Seq::empty(),
    }
}

/// Gathering what the ranks send out of their prepared buffers gives data that passes the check,
/// unless there is no room for data at all.
pub proof fn gathered_data_passes(job: Job, buffers: Buffers)
    requires
        job.fits(),
        job.buffer_size > 0,
        buffers.fit(job),
    ensures
        contribution(job, buffers, 0, first_region(job)) + contribution(
            job,
            buffers,
            1,
            second_region(job),
        ) == gathered_region(job),
        data_passes(job, gathered_region(job)),
{
    let size = job.buffer_size / 2;
    assert(0 * (size as int) == 0);
    assert(1 * (size as int) == size);
    assert(size as int / ELEMENT_SIZE as int == job.half());
    assert((size + size) / (ELEMENT_SIZE as int) == 2 * job.half());
    assert(contribution(job, buffers, 0, first_region(job)) =~= filled(
        job.first_content,
        job.half(),
    ));
    assert(contribution(job, buffers, 1, second_region(job)) =~= filled(
        job.second_content,
        job.half(),
    ));
}

/// A prepared buffer by itself does not pass the check, unless the other rank contributes zeroes.
pub proof fn prepared_data_fails(job: Job)
    requires
        job.fits(),
        job.first_content != 0,
    ensures
        !data_passes(job, second_region(job)),
{
}

/// The number of a step in a run with `jobs` jobs.
pub open spec fn number_of(jobs: nat, step: Step) -> nat {
    match step {
        Step::Init { job, rank } => (4 * job + rank) as nat,
        Step::AwaitInit { job, rank } => (4 * job + 2 + rank) as nat,
        Step::Prepare { job } => (4 * jobs + job) as nat,
        Step::Gather { job, rank } => (5 * jobs + 2 * job + rank) as nat,
        Step::AwaitGather { job, rank } => (7 * jobs + 2 * job + rank) as nat,
        Step::Check { job } => (9 * jobs + job) as nat,
        Step::Done => 10 * jobs,
    }
}

/// A step of a run with `jobs` jobs.
pub open spec fn belongs_to_run(jobs: nat, step: Step) -> bool {
    match step {
        Step::Init { job, rank } => job < jobs && rank < NUM_RANKS,
        Step::AwaitInit { job, rank } => job < jobs && rank < NUM_RANKS,
        Step::Prepare { job } => job < jobs,
        Step::Gather { job, rank } => job < jobs && rank < NUM_RANKS,
        Step::AwaitGather { job, rank } => job < jobs && rank < NUM_RANKS,
        Step::Check { job } => job < jobs,
        Step::Done => true,
    }
}

/// A number put together of pairs and a rest.
proof fn lemma_pairs(n: int, k: int)
    requires
        0 <= k < 2,
    ensures
        (2 * n + k) / 2 == n,
        (2 * n + k) % 2 == k,
{
}

/// A number put together of fours and a rest.
proof fn lemma_fours(n: int, k: int)
    requires
        0 <= k < 4,
    ensures
        (4 * n + k) / 4 == n,
        (4 * n + k) % 4 == k,
        (4 * n + k) % 2 == k % 2,
{
    if k < 2 {
        lemma_pairs(2 * n, k);
    } else {
        lemma_pairs(2 * n + 1, k - 2);
    }
}

/// A complete run went through every step of every job and every rank, each of them at its number.
pub proof fn every_step_is_taken(jobs: nat, step: Step)
    requires
        10 * jobs <= usize::MAX,
        belongs_to_run(jobs, step),
    ensures
        step_at(jobs, number_of(jobs, step)) == step,
        step != Step::Done ==> number_of(jobs, step) < 10 * jobs,
{
    match step {
        Step::Init { job, rank } => lemma_fours(job as int, rank as int),
        Step::AwaitInit { job, rank } => lemma_fours(job as int, 2 + rank),
        Step::Gather { job, rank } => lemma_pairs(job as int, rank as int),
        Step::AwaitGather { job, rank } => lemma_pairs(job as int, rank as int),
        _ => {},
    }
}

/// A job's steps come in this order: a rank asks for the communicator, hears of it, the buffers are
/// prepared, the rank asks for the all-gather, hears of it, and the data is checked.
pub proof fn steps_come_in_order(jobs: nat, job: usize, rank: usize)
    requires
        job < jobs,
        rank < NUM_RANKS,
    ensures
        number_of(jobs, Step::Init { job, rank }) < number_of(jobs, Step::AwaitInit { job, rank })
            < number_of(jobs, Step::Prepare { job }) < number_of(jobs, Step::Gather { job, rank })
            < number_of(jobs, Step::AwaitGather { job, rank }) < number_of(
            jobs,
            Step::Check { job },
        ),
{
}

/// All all-gathers are asked for before any of them is waited for, so that the jobs share the
/// devices.
pub proof fn gathers_overlap(jobs: nat, asked: nat, awaited: nat)
    requires
        step_at(jobs, asked) is Gather,
        step_at(jobs, awaited) is AwaitGather,
    ensures
        asked < awaited,
{
}

} // verus!
