//! A map keyed by query type, held as a vector of unique-key entries.

use vstd::prelude::*;
use crate::queries::QueryType;

verus! {

/// Mapping from query types to values; each type occurs at most once.
pub struct KeyedMap<V: View> {
    entries: Vec<(QueryType, V)>,
    contents: Ghost<Map<QueryType, V::V>>,
}

impl<V: View> View for KeyedMap<V> {
    type V = Map<QueryType, V::V>;

    closed spec fn view(&self) -> Map<QueryType, V::V> {
        self.contents@
    }
}

/// `e` has distinct keys and lists exactly the entries of `m`.
pub closed spec fn keyed_agree<V: View>(e: Seq<(QueryType, V)>, m: Map<QueryType, V::V>) -> bool {
    &&& forall|i: int, j: int| 0 <= i < j < e.len() ==> e[i].0 != e[j].0
    &&& forall|i: int| 0 <= i < e.len() ==> #[trigger] m.contains_key(e[i].0) && m[e[i].0] == e[i].1@
    &&& forall|k: QueryType| #[trigger] m.contains_key(k) ==> exists|i: int| 0 <= i < e.len() && e[i].0 == k
}

impl<V: View> KeyedMap<V> {
    /// Entries have distinct keys and agree with the abstract map.
    #[verifier::type_invariant]
    pub closed spec fn inv(&self) -> bool {
        keyed_agree(self.entries@, self.contents@)
    }

    /// The keys in the order in which they were first inserted.
    pub closed spec fn key_order(&self) -> Seq<QueryType> {
        self.entries@.map_values(|e: (QueryType, V)| e.0)
    }

    pub fn new() -> (r: KeyedMap<V>)
        ensures
            r@ == Map::<QueryType, V::V>::empty(),
    {
        KeyedMap { entries: Vec::new(), contents: Ghost(Map::empty()) }
    }

    fn find(&self, key: QueryType) -> (r: Option<usize>)
        ensures
            match r {
                Some(i) => i < self.entries@.len() && self.entries@[i as int].0 == key,
                None => !self@.contains_key(key),
            },
    {
        proof {
            use_type_invariant(self);
        }
        let mut i: usize = 0;
        while i < self.entries.len()
            invariant
                self.inv(),
                i <= self.entries@.len(),
                forall|j: int| 0 <= j < i ==> self.entries@[j].0 != key,
            decreases self.entries@.len() - i,
        {
            if self.entries[i].0 == key {
                return Some(i);
            }
            i = i + 1;
        }
        None
    }

    /// Number of keys.
    pub fn len(&self) -> (r: usize)
        ensures
            r == self@.dom().len(),
    {
        proof {
            use_type_invariant(self);
        }
        proof {
            self.lemma_key_order();
            let keys = self.key_order();
            assert(self@.dom() =~= keys.to_set());
            keys.unique_seq_to_set();
        }
        self.entries.len()
    }

    pub fn contains_key(&self, key: &QueryType) -> (r: bool)
        ensures
            r == self@.contains_key(*key),
    {
        proof {
            use_type_invariant(self);
        }
        self.find(*key).is_some()
    }

    pub fn get(&self, key: &QueryType) -> (r: Option<&V>)
        ensures
            match r {
                Some(v) => self@.contains_key(*key) && self@[*key] == v@,
                None => !self@.contains_key(*key),
            },
    {
        proof {
            use_type_invariant(self);
        }
        match self.find(*key) {
            Some(i) => {
                assert(self@.contains_key(self.entries@[i as int].0));
                Some(&self.entries[i].1)
            },
            None => None,
        }
    }

    /// Sets `key` to `value`, replacing an earlier value.
    pub fn insert(&mut self, key: QueryType, value: V)
        ensures
            final(self)@ == old(self)@.insert(key, value@),
    {
        proof {
            use_type_invariant(&*self);
        }
        let found = self.find(key);
        let mut taken = KeyedMap::new();
        core::mem::swap(self, &mut taken);
        proof {
            use_type_invariant(&taken);
        }
        let KeyedMap { mut entries, contents } = taken;
        let ghost old_entries = entries@;
        let ghost m = contents@.insert(key, value@);
        assert(keyed_agree(old_entries, contents@));
        match found {
            Some(i) => {
                entries.set(i, (key, value));
                assert forall|k2: QueryType| #[trigger] m.contains_key(k2)
                    implies exists|j: int| 0 <= j < entries@.len() && entries@[j].0 == k2 by {
                    if k2 != key {
                        let j = choose|j: int| 0 <= j < old_entries.len() && old_entries[j].0 == k2;
                        assert(entries@[j].0 == old_entries[j].0);
                    } else {
                        assert(entries@[i as int].0 == k2);
                    }
                }
            },
            None => {
                entries.push((key, value));
                assert forall|k2: QueryType| #[trigger] m.contains_key(k2)
                    implies exists|j: int| 0 <= j < entries@.len() && entries@[j].0 == k2 by {
                    if k2 != key {
                        let j = choose|j: int| 0 <= j < old_entries.len() && old_entries[j].0 == k2;
                        assert(entries@[j].0 == k2);
                    } else {
                        assert(entries@[old_entries.len() as int].0 == k2);
                    }
                }
            },
        }
        assert forall|a: int, b: int| 0 <= a < b < entries@.len() implies entries@[a].0
            != entries@[b].0 by {
            if b < old_entries.len() {
                assert(entries@[a].0 == old_entries[a].0);
                assert(entries@[b].0 == old_entries[b].0);
            }
        }
        assert forall|j: int| 0 <= j < entries@.len() implies #[trigger] m.contains_key(
            entries@[j].0) && m[entries@[j].0] == entries@[j].1@ by {
            if j < old_entries.len() && entries@[j].0 != key {
                assert(entries@[j] == old_entries[j]);
            }
        }
        assert(keyed_agree(entries@, m));
        *self = KeyedMap { entries, contents: Ghost(m) };
    }

    /// Number of entries; equal to the number of keys.
    pub fn entry_count(&self) -> (r: usize)
        ensures
            r == self.key_order().len(),
    {
        proof {
            use_type_invariant(self);
        }
        self.entries.len()
    }

    /// The entry at position `i`, in first-insertion order.
    pub fn entry_at(&self, i: usize) -> (r: (QueryType, &V))
        requires
            i < self.key_order().len(),
        ensures
            r.0 == self.key_order()[i as int],
            self@.contains_key(r.0),
            self@[r.0] == r.1@,
    {
        proof {
            use_type_invariant(self);
        }
        assert(self@.contains_key(self.entries@[i as int].0));
        (self.entries[i].0, &self.entries[i].1)
    }

    pub proof fn lemma_key_order(&self)
        requires
            self.inv(),
        ensures
            forall|i: int| 0 <= i < self.key_order().len() ==> #[trigger] self@.contains_key(
                self.key_order()[i],
            ),
            forall|k: QueryType| #[trigger] self@.contains_key(k) ==> self.key_order().contains(k),
            self.key_order().no_duplicates(),
            self@.dom() == self.key_order().to_set(),
    {
        assert forall|k: QueryType| #[trigger] self@.contains_key(k) implies self.key_order().contains(k) by {
            let i = choose|i: int| 0 <= i < self.entries@.len() && self.entries@[i].0 == k;
            assert(self.key_order()[i] == k);
        }
        assert forall|i: int, j: int| 0 <= i < self.key_order().len() && 0 <= j < self.key_order().len() && i != j
            implies self.key_order()[i] != self.key_order()[j] by {
            if i < j {
            } else {
            }
        }
        assert forall|i: int| 0 <= i < self.key_order().len() implies #[trigger] self@.contains_key(
                self.key_order()[i]) by {
            assert(self.key_order()[i] == self.entries@[i].0);
        }
        assert forall|k: QueryType| self.key_order().to_set().contains(k) implies self@.contains_key(k) by {
            let i = choose|i: int| 0 <= i < self.key_order().len() && self.key_order()[i] == k;
            assert(self@.contains_key(self.key_order()[i]));
        }
        assert(self@.dom() =~= self.key_order().to_set());
    }
}

} // verus!
