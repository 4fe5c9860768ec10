//! Walking a hash map entry by entry.
use std::collections::HashMap;

use vstd::prelude::*;

verus! {

/// `entries` lists every entry of `m` once, in some order.
pub open spec fn lists_map<K, V>(entries: Seq<(K, &V)>, m: Map<K, V>) -> bool {
    &&& entries.len() == m.dom().len()
    &&& forall|i: int|
        0 <= i < entries.len() ==> m.contains_key((#[trigger] entries[i]).0) && m[entries[i].0]
            == *entries[i].1
    &&& forall|i: int, j: int|
        0 <= i < j < entries.len() ==> (#[trigger] entries[i]).0 != (#[trigger] entries[j]).0
    &&& forall|k: K| #[trigger]
        m.contains_key(k) ==> exists|i: int|
            0 <= i < entries.len() && (#[trigger] entries[i]).0 == k
}

/// The entries of `m` in the order in which the map hands them out.
///
/// That order is the map's own: two walks of equal maps may differ.
pub fn entries<'a, K: Copy, V>(m: &'a HashMap<K, V>) -> (r: Vec<(K, &'a V)>)
    requires
        vstd::std_specs::hash::obeys_key_model::<K>(),
    ensures
        lists_map(r@, m@),
{
    broadcast use vstd::std_specs::hash::group_hash_axioms;

    let mut r: Vec<(K, &'a V)> = Vec::new();
    let iter = m.iter();
    let ghost s = vstd::std_specs::iter::IteratorSpec::remaining(&iter);
    for (k, v) in it: iter
        invariant
            it.seq() == s,
            r@.len() == it.index(),
            forall|j: int| 0 <= j < r@.len() ==> #[trigger] r@[j] == (*s[j].0, s[j].1),
    {
        r.push((*k, v));
    }
    proof {
        assert(s == vstd::std_specs::iter::IteratorSpec::remaining(
            &vstd::std_specs::hash::spec_hash_map_iter(m),
        ));
        assert forall|i: int, j: int| 0 <= i < j < r@.len() implies (#[trigger] r@[i]).0 != (
        #[trigger] r@[j]).0 by {
            if r@[i].0 == r@[j].0 {
                assert(m@[*s[i].0] == *s[i].1);
                assert(m@[*s[j].0] == *s[j].1);
                assert(s[i] == s[j]);
            }
        }
        assert forall|k: K| #[trigger] m@.contains_key(k) implies exists|i: int|
            0 <= i < r@.len() && (#[trigger] r@[i]).0 == k by {
            let i = choose|i: int| 0 <= i < s.len() && s[i] == (&k, &m@[k]);
            assert(r@[i].0 == k);
        }
    }
    r
}

} // verus!
