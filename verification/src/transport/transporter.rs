//! What a transport has to offer, and how its agents are named.
use vstd::prelude::*;

use crate::comm::CommunicatorId;

verus! {

/// The direction of a connection, seen from the agent's client.
#[derive(Clone, Copy, Debug, PartialEq, Eq, Structural, Hash)]
pub enum ConnType {
    Send,
    Recv,
}

/// Names a connection of a rank.
#[derive(Clone, Copy, Debug, PartialEq, Eq, Structural, Hash)]
pub struct PeerConnId {
    pub peer_rank: usize,
    pub channel: u32,
    pub conn_index: u32,
    pub conn_type: ConnType,
}

/// Names the agent that serves a connection.
#[derive(Clone, Copy, Debug, PartialEq, Eq, Structural, Hash)]
pub struct TransportAgentId {
    pub communicator_id: CommunicatorId,
    pub client_rank: usize,
    /// The device of the client; its proxy hears of the agent's progress.
    pub client_cuda_dev: i32,
    pub peer_conn: PeerConnId,
}

/// What came of driving an agent's work once.
pub enum TaskPoll<R, M> {
    /// The work goes on.
    Pending,
    /// The work is done; it left these resources and this reply.
    Ready(R, M),
    /// The work failed.
    Failed,
}

/// A transport, as the engine that runs its agents uses it.
pub trait Transporter: Copy {
    /// What the agents and their clients tell each other.
    type Message;

    /// What an agent holds on to.
    type Resources;

    /// Where the configurations of the transports are found.
    type Catalog;

    /// Work under way.
    type Task;

    /// Starts to set up the agent of a sending connection.
    fn agent_send_setup(
        &self,
        id: TransportAgentId,
        request: Self::Message,
        catalog: &Self::Catalog,
    ) -> Self::Task;

    /// Starts to set up the agent of a receiving connection.
    fn agent_recv_setup(
        &self,
        id: TransportAgentId,
        request: Self::Message,
        catalog: &Self::Catalog,
    ) -> Self::Task;

    /// Starts to connect the agent of a sending connection.
    fn agent_send_connect(
        &self,
        id: TransportAgentId,
        request: Self::Message,
        setup_resources: Option<Self::Resources>,
    ) -> Self::Task;

    /// Starts to connect the agent of a receiving connection.
    fn agent_recv_connect(
        &self,
        id: TransportAgentId,
        request: Self::Message,
        setup_resources: Option<Self::Resources>,
    ) -> Self::Task;

    /// Driving the work `before` once can bring it to `after` and come to `outcome`. Which outcomes
    /// there are is for each transport to say; of one that does not, all are possible. The engine
    /// relies on none: to it, only what `poll` brought counts as an outcome.
    open spec fn drives(
        &self,
        before: Self::Task,
        after: Self::Task,
        outcome: TaskPoll<Self::Resources, Self::Message>,
    ) -> bool {
        true
    }

    /// Drives work without waiting for it.
    fn poll(&self, task: &mut Self::Task) -> (r: TaskPoll<Self::Resources, Self::Message>)
        ensures
            self.drives(*old(task), *final(task), r),
    ;
}

} // verus!
