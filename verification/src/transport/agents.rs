//! A table with one entry per agent.
use vstd::prelude::*;

use crate::transport::transporter::TransportAgentId;

verus! {

/// Values under the names of agents, at most one under each name.
pub struct AgentTable<V> {
    entries: Vec<(TransportAgentId, V)>,
}

/// No name stands twice.
spec fn distinct_keys<V>(entries: Seq<(TransportAgentId, V)>) -> bool {
    forall|i: int, j: int|
        0 <= i < j < entries.len() ==> (#[trigger] entries[i]).0 != (#[trigger] entries[j]).0
}

/// `id` is the name of the `i`-th entry.
spec fn key_at<V>(entries: Seq<(TransportAgentId, V)>, i: int, id: TransportAgentId) -> bool {
    0 <= i < entries.len() && entries[i].0 == id
}

/// The entries as a map.
spec fn as_map<V>(entries: Seq<(TransportAgentId, V)>) -> Map<TransportAgentId, V> {
    Map::new(
        |id: TransportAgentId| exists|i: int| key_at(entries, i, id),
        |id: TransportAgentId| entries[choose|i: int| key_at(entries, i, id)].1,
    )
}

/// What the map says of the name of an entry.
proof fn lemma_entry<V>(entries: Seq<(TransportAgentId, V)>, i: int)
    requires
        distinct_keys(entries),
        0 <= i < entries.len(),
    ensures
        as_map(entries).contains_key(entries[i].0),
        as_map(entries)[entries[i].0] == entries[i].1,
{
    let id = entries[i].0;
    assert(key_at(entries, i, id));
    let j = choose|j: int| key_at(entries, j, id);
    assert(key_at(entries, j, id));
    if i < j {
        assert(entries[i].0 != entries[j].0);
    }
    if j < i {
        assert(entries[j].0 != entries[i].0);
    }
}

/// What the map says of a name that no entry has.
proof fn lemma_no_entry<V>(entries: Seq<(TransportAgentId, V)>, id: TransportAgentId)
    requires
        forall|i: int| 0 <= i < entries.len() ==> (#[trigger] entries[i]).0 != id,
    ensures
        !as_map(entries).contains_key(id),
{
    if exists|i: int| key_at(entries, i, id) {
        let i = choose|i: int| key_at(entries, i, id);
        assert(entries[i].0 != id);
    }
}

/// Taking an entry out takes its name out of the map and leaves the rest.
proof fn lemma_remove<V>(entries: Seq<(TransportAgentId, V)>, k: int)
    requires
        distinct_keys(entries),
        0 <= k < entries.len(),
    ensures
        distinct_keys(entries.remove(k)),
        as_map(entries.remove(k)) == as_map(entries).remove(entries[k].0),
{
    let rest = entries.remove(k);
    assert forall|i: int, j: int| 0 <= i < j < rest.len() implies (#[trigger] rest[i]).0 != (
    #[trigger] rest[j]).0 by {
        let oi = if i < k { i } else { i + 1 };
        let oj = if j < k { j } else { j + 1 };
        assert(entries[oi].0 != entries[oj].0);
    }
    assert forall|id: TransportAgentId|
        as_map(rest).contains_key(id) <==> as_map(entries).remove(entries[k].0).contains_key(id) by {
        if as_map(rest).contains_key(id) {
            let i = choose|i: int| key_at(rest, i, id);
            let oi = if i < k { i } else { i + 1 };
            lemma_entry(entries, oi);
            if oi < k {
                assert(entries[oi].0 != entries[k].0);
            } else {
                assert(entries[k].0 != entries[oi].0);
            }
        }
        if as_map(entries).contains_key(id) && id != entries[k].0 {
            let i = choose|i: int| key_at(entries, i, id);
            let ri = if i < k { i } else { i - 1 };
            assert(key_at(rest, ri, id));
        }
    }
    assert forall|id: TransportAgentId| as_map(rest).contains_key(id) implies as_map(rest)[id]
        == as_map(entries).remove(entries[k].0)[id] by {
        let i = choose|i: int| key_at(rest, i, id);
        let oi = if i < k { i } else { i + 1 };
        lemma_entry(rest, i);
        lemma_entry(entries, oi);
    }
    assert(as_map(rest) =~= as_map(entries).remove(entries[k].0));
}

/// Adding an entry under a new name adds it to the map.
proof fn lemma_push<V>(entries: Seq<(TransportAgentId, V)>, id: TransportAgentId, value: V)
    requires
        distinct_keys(entries),
        !as_map(entries).contains_key(id),
    ensures
        distinct_keys(entries.push((id, value))),
        as_map(entries.push((id, value))) == as_map(entries).insert(id, value),
{
    let more = entries.push((id, value));
    assert forall|i: int, j: int| 0 <= i < j < more.len() implies (#[trigger] more[i]).0 != (
    #[trigger] more[j]).0 by {
        if j < entries.len() {
            assert(entries[i].0 != entries[j].0);
        } else {
            lemma_entry(entries, i);
        }
    }
    lemma_entry(more, entries.len() as int);
    assert forall|other: TransportAgentId|
        as_map(more).contains_key(other) <==> as_map(entries).insert(id, value).contains_key(other) by {
        if as_map(more).contains_key(other) && other != id {
            let i = choose|i: int| key_at(more, i, other);
            assert(key_at(entries, i, other));
        }
        if as_map(entries).contains_key(other) {
            let i = choose|i: int| key_at(entries, i, other);
            assert(key_at(more, i, other));
        }
    }
    assert forall|other: TransportAgentId| as_map(more).contains_key(other) implies as_map(
        more,
    )[other] == as_map(entries).insert(id, value)[other] by {
        if other != id {
            let i = choose|i: int| key_at(more, i, other);
            assert(key_at(entries, i, other));
            lemma_entry(more, i);
            lemma_entry(entries, i);
        }
    }
    assert(as_map(more) =~= as_map(entries).insert(id, value));
}

impl<V> View for AgentTable<V> {
    type V = Map<TransportAgentId, V>;

    closed spec fn view(&self) -> Map<TransportAgentId, V> {
        as_map(self.entries@)
    }
}

impl<V> AgentTable<V> {
    #[verifier::type_invariant]
    spec fn inv(self) -> bool {
        distinct_keys(self.entries@)
    }

    /// A table without entries.
    pub fn new() -> (r: AgentTable<V>)
        ensures
            r@ == Map::<TransportAgentId, V>::empty(),
    {
        let r = AgentTable { entries: Vec::new() };
        assert(r@ =~= Map::<TransportAgentId, V>::empty());
        r
    }

    /// The place of the entry under `id`, if there is one.
    fn position(&self, id: &TransportAgentId) -> (r: Option<usize>)
        ensures
            match r {
                Some(i) => i < self.entries@.len() && self.entries@[i as int].0 == *id,
                None => forall|i: int|
                    0 <= i < self.entries@.len() ==> (#[trigger] self.entries@[i]).0 != *id,
            },
    {
        let mut i: usize = 0;
        while i < self.entries.len()
            invariant
                i <= self.entries@.len(),
                forall|j: int| 0 <= j < i ==> (#[trigger] self.entries@[j]).0 != *id,
            decreases self.entries@.len() - i,
        {
            if self.entries[i].0 == *id {
                return Some(i);
            }
            i += 1;
        }
        None
    }

    /// The value under `id`.
    pub fn get(&self, id: &TransportAgentId) -> (r: Option<&V>)
        ensures
            match r {
                Some(value) => self@.contains_key(*id) && *value == self@[*id],
                None => !self@.contains_key(*id),
            },
    {
        proof {
            use_type_invariant(self);
        }
        match self.position(id) {
            Some(i) => {
                proof {
                    lemma_entry(self.entries@, i as int);
                }
                Some(&self.entries[i].1)
            },
            None => {
                proof {
                    lemma_no_entry(self.entries@, *id);
                }
                None
            },
        }
    }

    /// Takes the value under `id` out of the table.
    pub fn remove(&mut self, id: &TransportAgentId) -> (r: Option<V>)
        ensures
            final(self)@ == old(self)@.remove(*id),
            match r {
                Some(value) => old(self)@.contains_key(*id) && value == old(self)@[*id],
                None => !old(self)@.contains_key(*id),
            },
    {
        proof {
            use_type_invariant(&*self);
        }
        match self.position(id) {
            Some(i) => {
                proof {
                    lemma_entry(self.entries@, i as int);
                    lemma_remove(self.entries@, i as int);
                }
                let mut entries: Vec<(TransportAgentId, V)> = Vec::new();
                std::mem::swap(&mut entries, &mut self.entries);
                let (_, value) = entries.remove(i);
                self.entries = entries;
                Some(value)
            },
            None => {
                proof {
                    lemma_no_entry(self.entries@, *id);
                    assert(self@.remove(*id) =~= self@);
                }
                None
            },
        }
    }

    /// Puts a value under `id`, in place of the one that was there.
    pub fn insert(&mut self, id: TransportAgentId, value: V)
        ensures
            final(self)@ == old(self)@.insert(id, value),
    {
        let _ = self.remove(&id);
        proof {
            use_type_invariant(&*self);
            lemma_push(self.entries@, id, value);
            assert(old(self)@.remove(id).insert(id, value) =~= old(self)@.insert(id, value));
        }
        let mut entries: Vec<(TransportAgentId, V)> = Vec::new();
        std::mem::swap(&mut entries, &mut self.entries);
        entries.push((id, value));
        self.entries = entries;
    }
}

} // verus!
