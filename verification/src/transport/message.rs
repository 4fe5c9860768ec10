//! What proxies and transport engines tell each other.
use vstd::prelude::*;

use crate::transport::transporter::{TransportAgentId, Transporter};

verus! {

/// What a proxy asks of a transport engine. `O` is an operation on a connected transport.
#[verifier::reject_recursive_types(T)]
#[verifier::reject_recursive_types(O)]
pub enum TransportEngineRequest<T: Transporter, O> {
    /// Set up an agent.
    AgentSetup(T, TransportAgentId, T::Message),
    /// Connect an agent, with what its setup left behind if it had one.
    AgentConnect(T, TransportAgentId, T::Message),
    /// Run an operation over an agent's connection.
    AgentTransportOp(TransportAgentId, O),
}

/// What a transport engine answers.
pub enum TransportEngineReply<M> {
    /// The agent is set up.
    AgentSetup(TransportAgentId, M),
    /// The agent is connected.
    AgentConnect(TransportAgentId, M),
}

} // verus!
