//! What the exchange engine is told and what it answers.
use vstd::prelude::*;

use crate::comm::{CommunicatorId, SocketAddress};

verus! {

/// What the exchange engine is asked to do. `H` is a bootstrap handle.
pub enum ExchangeCommand<H> {
    /// Keep the handle of a communicator for the hosts that will ask for it.
    RegisterBootstrapHandle(CommunicatorId, H),
    /// Fetch the handle of a communicator from the exchange engine that listens at the address, on
    /// the communicator's root.
    RecvBootstrapHandle(CommunicatorId, SocketAddress),
    /// Forget a communicator.
    RemoveCommunicator(CommunicatorId),
}

/// What the exchange engine reports. `H` is a bootstrap handle.
pub enum ExchangeNotification<H> {
    /// The handle is kept.
    RegisterBootstrapHandle,
    /// The handle of the communicator was fetched.
    RecvBootstrapHandle(CommunicatorId, H),
}

} // verus!
