//! Laws of the tables, pools and catalogs: what is put in is found again, and nothing else changes.
use std::collections::HashMap;

use vstd::prelude::*;

use crate::transport::agents::AgentTable;
use crate::transport::catalog::TransportCatalog;
use crate::transport::meta::{RecvBufMeta, SendBufMeta};
use crate::transport::shm::config::ShmConfig;
use crate::transport::transporter::TransportAgentId;
use crate::transport::Protocol;
use crate::utils::pool::WorkPool;
use crate::utils::walk::entries;

verus! {

/// A new table has nothing under any name.
pub proof fn new_tables_have_nothing<V>(
    table: AgentTable<V>,
    id: TransportAgentId,
    found: Option<&V>,
)
    requires
        call_ensures(AgentTable::<V>::new, (), table),
        call_ensures(AgentTable::<V>::get, (&table, &id), found),
    ensures
        found is None,
{
}

/// What is put under a name is found there, and under every other name what was there before.
pub proof fn inserted_values_are_found<V>(
    table: &mut AgentTable<V>,
    id: TransportAgentId,
    value: V,
    other: TransportAgentId,
    before: Option<&V>,
    after: Option<&V>,
)
    requires
        call_ensures(AgentTable::<V>::get, (&*old(table), &other), before),
        call_ensures(AgentTable::<V>::insert, (table, id, value), ()),
        call_ensures(AgentTable::<V>::get, (&*final(table), &other), after),
    ensures
        other == id ==> after == Some(&value),
        other != id ==> after == before,
{
}

/// Taking out hands over what was under the name and leaves nothing there, and leaves everything
/// under the other names.
pub proof fn removed_values_are_gone<V>(
    table: &mut AgentTable<V>,
    id: TransportAgentId,
    removed: Option<V>,
    other: TransportAgentId,
    before: Option<&V>,
    after: Option<&V>,
)
    requires
        call_ensures(AgentTable::<V>::get, (&*old(table), &other), before),
        call_ensures(AgentTable::<V>::remove, (table, &id), removed),
        call_ensures(AgentTable::<V>::get, (&*final(table), &other), after),
    ensures
        other == id ==> after is None,
        other == id ==> (removed is Some <==> before is Some),
        other == id ==> (removed matches Some(value) ==> before == Some(&value)),
        other != id ==> after == before,
{
}

/// A table is what is found in it: under a name in its map there is the map's value, and under any
/// other name there is nothing.
pub proof fn tables_are_what_is_found<V>(
    table: AgentTable<V>,
    id: TransportAgentId,
    found: Option<&V>,
)
    requires
        call_ensures(AgentTable::<V>::get, (&table, &id), found),
    ensures
        found is Some <==> table@.contains_key(id),
        table@.contains_key(id) ==> found == Some(&table@[id]),
{
}

/// A new catalog has no configuration under any name.
pub proof fn new_catalogs_have_nothing(
    catalog: TransportCatalog,
    name: String,
    found: Option<ShmConfig>,
)
    requires
        call_ensures(TransportCatalog::new, (), catalog),
        call_ensures(TransportCatalog::get_config, (&catalog, &name), found),
    ensures
        found is None,
{
}

/// A registered configuration is found under its name, and under every other name the one that was
/// there before.
pub proof fn registered_configurations_are_found(
    catalog: &mut TransportCatalog,
    name: String,
    config: ShmConfig,
    other: String,
    before: Option<ShmConfig>,
    after: Option<ShmConfig>,
)
    requires
        call_ensures(TransportCatalog::get_config, (&*old(catalog), &other), before),
        call_ensures(TransportCatalog::register_config, (catalog, name, config), ()),
        call_ensures(TransportCatalog::get_config, (&*final(catalog), &other), after),
    ensures
        other@ == name@ ==> after == Some(config),
        other@ != name@ ==> after == before,
{
}

/// A catalog is what is found in it.
pub proof fn catalogs_are_what_is_found(
    catalog: TransportCatalog,
    name: String,
    found: Option<ShmConfig>,
)
    requires
        call_ensures(TransportCatalog::get_config, (&catalog, &name), found),
    ensures
        found is Some <==> catalog@.contains_key(name@),
        catalog@.contains_key(name@) ==> found == Some(catalog@[name@]),
{
}

/// A new pool has no work.
pub proof fn new_pools_have_no_work<T>(pool: WorkPool<T>)
    requires
        call_ensures(WorkPool::<T>::new, (), pool),
    ensures
        pool.work@.len() == 0,
{
}

/// Work is added at the end, and what was there stays in its place.
pub proof fn work_is_added_at_the_end<T>(pool: &mut WorkPool<T>, item: T, i: int)
    requires
        call_ensures(WorkPool::<T>::enqueue, (pool, item), ()),
    ensures
        final(pool).work@.len() == old(pool).work@.len() + 1,
        0 <= i < old(pool).work@.len() ==> final(pool).work@[i] == old(pool).work@[i],
        final(pool).work@[old(pool).work@.len() as int] == item,
{
}

/// `key` is handed out at the place `i`.
pub open spec fn is_handed_out_at<K, V>(handed_out: Seq<(K, &V)>, key: K, i: int) -> bool {
    0 <= i < handed_out.len() && handed_out[i].0 == key
}

/// A walk hands out every entry of a map, with its value, and each key at one place only.
pub proof fn walks_hand_out_every_entry_once<K: Copy, V>(
    m: HashMap<K, V>,
    r: Vec<(K, &V)>,
    key: K,
    i: int,
    j: int,
)
    requires
        call_ensures(entries::<K, V>, (&m,), r),
    ensures
        m@.contains_key(key) ==> exists|place: int| #[trigger] is_handed_out_at(r@, key, place),
        is_handed_out_at(r@, key, i) ==> m@.contains_key(key) && m@[key] == *r@[i].1,
        is_handed_out_at(r@, key, i) && is_handed_out_at(r@, key, j) ==> i == j,
        r@.len() == m@.dom().len(),
{
    if m@.contains_key(key) {
        let place = choose|place: int| 0 <= place < r@.len() && (#[trigger] r@[place]).0 == key;
        assert(is_handed_out_at(r@, key, place));
    }
}

/// There is one protocol, and it comes first in the tables.
pub proof fn the_simple_protocol_comes_first(protocol: Protocol, r: usize)
    requires
        call_ensures(Protocol::index, (protocol,), r),
    ensures
        r == 0,
{
}

/// What the sending side shares starts with zeroes only.
pub proof fn sending_starts_at_zero(r: SendBufMeta, i: int)
    requires
        call_ensures(SendBufMeta::new, (), r),
    ensures
        r.head == 0,
        r._ptr_exchange == 0,
        r._reduce_op_arg_exchange@.len() == 2,
        r._reduce_op_arg_exchange@[0] == 0,
        r._reduce_op_arg_exchange@[1] == 0,
        0 <= i < 120 ==> r._pad1@[i] == 0,
        0 <= i < r._pad2@.len() ==> r._pad2@[i] == 0,
        0 <= i < r._slots_offsets@.len() ==> r._slots_offsets@[i] == 0,
{
}

/// What the receiving side shares starts with zeroes only, and without a flush.
pub proof fn receiving_starts_at_zero(r: RecvBufMeta, i: int)
    requires
        call_ensures(RecvBufMeta::new, (), r),
    ensures
        r.tail == 0,
        0 <= i < 120 ==> r._pad1@[i] == 0,
        0 <= i < r.slots_sizes@.len() ==> r.slots_sizes@[i] == 0,
        0 <= i < r._slots_offsets@.len() ==> r._slots_offsets@[i] == 0,
        !r._flush,
{
}

} // verus!
