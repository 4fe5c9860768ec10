//! A daemon as it starts.
use std::collections::HashMap;

use vstd::prelude::*;

use crate::control::DaemonLinks;
use crate::daemon::DaemonId;
use crate::proxy::{ProxyCommand, ProxyCompletion};
use crate::utils::duplex_chan::DuplexChannel;

verus! {

/// The types that a daemon handles and that are not looked into here.
pub trait DaemonTypes {
    /// The connection with the client.
    type Customer;

    /// Names device memory towards the client.
    type MemoryHandle;

    /// Device memory of the client.
    type DeviceMemory;

    /// Names a communicator towards the client.
    type CommHandle;

    /// Who takes care of a communicator.
    type Delegation;
}

/// What a daemon holds.
#[verifier::reject_recursive_types(D)]
pub struct DaemonEngine<D: DaemonTypes> {
    pub id: DaemonId,
    /// One way to each proxy.
    pub proxy_chan: Vec<DuplexChannel<ProxyCommand, ProxyCompletion>>,
    /// The client's device memory.
    pub device_mem: HashMap<D::MemoryHandle, D::DeviceMemory>,
    /// The client's communicators.
    pub comm_delegation: HashMap<D::CommHandle, D::Delegation>,
    pub customer: D::Customer,
}

impl<D: DaemonTypes> DaemonEngine<D> {
    /// The daemon has neither device memory nor communicators yet.
    pub open spec fn idle(self) -> bool {
        &&& self.device_mem@ == Map::<D::MemoryHandle, D::DeviceMemory>::empty()
        &&& self.comm_delegation@ == Map::<D::CommHandle, D::Delegation>::empty()
    }

    /// The daemon's name and its ways to the proxies.
    pub open spec fn links(self) -> DaemonLinks {
        DaemonLinks { id: self.id, proxy_chan: self.proxy_chan }
    }

    /// A daemon as it starts, once it is named and connected.
    pub fn start(links: DaemonLinks, customer: D::Customer) -> (r: DaemonEngine<D>)
        ensures
            r.idle(),
            r.links() == links,
            r.customer == customer,
    {
        DaemonEngine {
            id: links.id,
            proxy_chan: links.proxy_chan,
            device_mem: HashMap::new(),
            comm_delegation: HashMap::new(),
            customer,
        }
    }
}

} // verus!
