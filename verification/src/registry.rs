//! What all proxies share.
use std::sync::Arc;

use vstd::prelude::*;

use crate::comm::CommunicatorId;
use crate::transport::catalog::TransportCatalog;
use crate::transport::shm::config::{ShmConfig, ShmLocality};

verus! {

/// `dashmap`'s map, which threads share; nothing of its inside is known here.
#[verifier::external_type_specification]
#[verifier::external_body]
#[verifier::reject_recursive_types(K)]
#[verifier::reject_recursive_types(V)]
#[verifier::reject_recursive_types(S)]
pub struct ExDashMap<K, V, S>(dashmap::DashMap<K, V, S>);

/// Calls `dashmap::DashMap::new`, which makes a map without entries. What such a map holds later
/// depends on the threads that share it, so no clause speaks of its entries; [`starts_empty`] says
/// of a map that it came out of this call.
#[verifier::external_body]
fn dashmap_new<K: Eq + std::hash::Hash, V>() -> (r: dashmap::DashMap<K, V>) {
    dashmap::DashMap::new()
}

/// `m` came out of the call that makes a map without entries.
pub closed spec fn starts_empty<K: Eq + std::hash::Hash, V>(m: dashmap::DashMap<K, V>) -> bool {
    call_ensures(dashmap_new::<K, V>, (), m)
}

/// What all proxies share. `C` is what is known of a communicator, `D` assigns transport engines.
#[verifier::reject_recursive_types(C)]
pub struct GlobalRegistry<C, D> {
    pub communicators: dashmap::DashMap<CommunicatorId, C>,
    pub transport_delegator: D,
    pub transport_catalog: Arc<TransportCatalog>,
}

/// The settings of the transport through shared memory at start.
pub open spec fn shm_settings() -> ShmConfig {
    ShmConfig { locality: ShmLocality::Sender, use_memcpy_send: false, use_memcpy_recv: false }
}

/// The settings under which the transport through shared memory is registered at start, and the
/// name under which it is found.
pub fn shm_transport_config() -> (r: (String, ShmConfig))
    ensures
        r.0@ == "ShmTransport"@,
        r.1 == shm_settings(),
{
    let shm_config = ShmConfig {
        locality: ShmLocality::Sender,
        use_memcpy_send: false,
        use_memcpy_recv: false,
    };
    ("ShmTransport".to_owned(), shm_config)
}

impl<C, D> GlobalRegistry<C, D> {
    /// The registry starts without communicators, and with the transport through shared memory and
    /// no other in its catalog.
    pub open spec fn fresh(self) -> bool {
        &&& starts_empty(self.communicators)
        &&& self.transport_catalog@ == Map::<Seq<char>, ShmConfig>::empty().insert(
            "ShmTransport"@,
            shm_settings(),
        )
    }

    /// The registry that a service starts with.
    pub fn new(transport_delegator: D) -> (r: Arc<GlobalRegistry<C, D>>)
        ensures
            r.fresh(),
            r.transport_delegator == transport_delegator,
    {
        let mut transport_catalog = TransportCatalog::new();
        let (name, config) = shm_transport_config();
        transport_catalog.register_config(name, config);
        Arc::new(
            GlobalRegistry {
                communicators: dashmap_new(),
                transport_delegator,
                transport_catalog: Arc::new(transport_catalog),
            },
        )
    }
}

/// The communicators of a new registry are a map that came out of `dashmap::DashMap::new`.
proof fn communicators_start_as_a_new_map<C, D>(delegator: D, r: Arc<GlobalRegistry<C, D>>)
    requires
        call_ensures(GlobalRegistry::<C, D>::new, (delegator,), r),
    ensures
        call_ensures(dashmap_new::<CommunicatorId, C>, (), r.communicators),
{
}

} // verus!
