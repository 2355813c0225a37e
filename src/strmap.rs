//! A string-keyed map held as a vector of unique-key entries.

use vstd::prelude::*;
use vstd::string::StringExecFns;

verus! {

/// Mapping from names to string values; each name occurs at most once.
pub struct StrMap {
    entries: Vec<(String, String)>,
    contents: Ghost<Map<Seq<char>, Seq<char>>>,
}

impl View for StrMap {
    type V = Map<Seq<char>, Seq<char>>;

    closed spec fn view(&self) -> Map<Seq<char>, Seq<char>> {
        self.contents@
    }
}

/// `e` has distinct keys and lists exactly the entries of `m`.
pub closed spec fn entries_agree(e: Seq<(String, String)>, m: Map<Seq<char>, Seq<char>>) -> bool {
    &&& forall|i: int, j: int| 0 <= i < j < e.len() ==> e[i].0@ != e[j].0@
    &&& forall|i: int|
        0 <= i < e.len() ==> #[trigger] m.contains_key(e[i].0@) && m[e[i].0@] == e[i].1@
    &&& forall|k: Seq<char>|
        #[trigger] m.contains_key(k) ==> exists|i: int| 0 <= i < e.len() && e[i].0@ == k
}

impl StrMap {
    /// Entries have distinct keys and agree with the abstract map.
    #[verifier::type_invariant]
    pub closed spec fn inv(&self) -> bool {
        entries_agree(self.entries@, self.contents@)
    }

    /// The keys in the order in which they were first inserted.
    pub closed spec fn key_order(&self) -> Seq<Seq<char>> {
        self.entries@.map_values(|e: (String, String)| e.0@)
    }

    pub fn new() -> (r: StrMap)
        ensures
            r@ == Map::<Seq<char>, Seq<char>>::empty(),
    {
        StrMap { entries: Vec::new(), contents: Ghost(Map::empty()) }
    }

    /// Position of `key` among the entries, if present.
    fn find(&self, key: &str) -> (r: Option<usize>)
        ensures
            match r {
                Some(i) => i < self.entries@.len() && self.entries@[i as int].0@ == key@,
                None => !self@.contains_key(key@),
            },
    {
        proof {
            use_type_invariant(self);
        }
        let k = String::from_str(key);
        let mut i: usize = 0;
        while i < self.entries.len()
            invariant
                self.inv(),
                k@ == key@,
                i <= self.entries@.len(),
                forall|j: int| 0 <= j < i ==> self.entries@[j].0@ != key@,
            decreases self.entries@.len() - i,
        {
            if self.entries[i].0 == k {
                return Some(i);
            }
            i = i + 1;
        }
        None
    }

    pub fn len(&self) -> (r: usize)
        ensures
            r == self@.dom().len(),
    {
        proof {
            use_type_invariant(self);
        }
        proof {
            self.lemma_len();
        }
        self.entries.len()
    }

    proof fn lemma_len(&self)
        requires
            self.inv(),
        ensures
            self@.dom().len() == self.entries@.len(),
            self@.dom().finite(),
    {
        let keys = self.key_order();
        assert(keys.no_duplicates()) by {
            assert forall|i: int, j: int| 0 <= i < keys.len() && 0 <= j < keys.len() && i != j
                implies keys[i] != keys[j] by {
                if i < j {
                } else {
                }
            }
        }
        assert(self@.dom() =~= keys.to_set()) by {
            assert forall|k: Seq<char>| self@.dom().contains(k) implies keys.to_set().contains(k) by {
                let i = choose|i: int| 0 <= i < self.entries@.len() && self.entries@[i].0@ == k;
                assert(keys[i] == k);
            }
            assert forall|k: Seq<char>| keys.to_set().contains(k) implies self@.dom().contains(k) by {
                let i = choose|i: int| 0 <= i < keys.len() && keys[i] == k;
                assert(self@.contains_key(self.entries@[i].0@));
            }
        }
        keys.unique_seq_to_set();
    }

    pub fn contains_key(&self, key: &str) -> (r: bool)
        ensures
            r == self@.contains_key(key@),
    {
        proof {
            use_type_invariant(self);
        }
        self.find(key).is_some()
    }

    pub fn get(&self, key: &str) -> (r: Option<&String>)
        ensures
            match r {
                Some(v) => self@.contains_key(key@) && self@[key@] == v@,
                None => !self@.contains_key(key@),
            },
    {
        proof {
            use_type_invariant(self);
        }
        match self.find(key) {
            Some(i) => {
                assert(self@.contains_key(self.entries@[i as int].0@));
                Some(&self.entries[i].1)
            },
            None => None,
        }
    }

    /// Sets `key` to `value`, replacing an earlier value.
    pub fn insert(&mut self, key: String, value: String)
        ensures
            final(self)@ == old(self)@.insert(key@, value@),
    {
        proof {
            use_type_invariant(&*self);
        }
        let found = self.find(key.as_str());
        let mut taken = StrMap::new();
        core::mem::swap(self, &mut taken);
        proof {
            use_type_invariant(&taken);
        }
        let StrMap { mut entries, contents } = taken;
        let ghost old_entries = entries@;
        let ghost m = contents@.insert(key@, value@);
        assert(entries_agree(old_entries, contents@));
        match found {
            Some(i) => {
                let k = entries[i].0.clone();
                entries.set(i, (k, value));
                assert forall|k2: Seq<char>| #[trigger] m.contains_key(k2)
                    implies exists|j: int| 0 <= j < entries@.len() && entries@[j].0@ == k2 by {
                    if k2 != key@ {
                        let j = choose|j: int| 0 <= j < old_entries.len() && old_entries[j].0@ == k2;
                        assert(entries@[j].0@ == old_entries[j].0@);
                    } else {
                        assert(entries@[i as int].0@ == k2);
                    }
                }
            },
            None => {
                entries.push((key, value));
                assert forall|k2: Seq<char>| #[trigger] m.contains_key(k2)
                    implies exists|j: int| 0 <= j < entries@.len() && entries@[j].0@ == k2 by {
                    if k2 != key@ {
                        let j = choose|j: int| 0 <= j < old_entries.len() && old_entries[j].0@ == k2;
                        assert(entries@[j].0@ == k2);
                    } else {
                        assert(entries@[old_entries.len() as int].0@ == k2);
                    }
                }
            },
        }
        assert forall|a: int, b: int| 0 <= a < b < entries@.len() implies entries@[a].0@
            != entries@[b].0@ by {
            if b < old_entries.len() {
                assert(entries@[a].0@ == old_entries[a].0@);
                assert(entries@[b].0@ == old_entries[b].0@);
            }
        }
        assert forall|j: int| 0 <= j < entries@.len() implies #[trigger] m.contains_key(
            entries@[j].0@) && m[entries@[j].0@] == entries@[j].1@ by {
            if j < old_entries.len() && entries@[j].0@ != key@ {
                assert(entries@[j] == old_entries[j]);
            }
        }
        assert(entries_agree(entries@, m));
        *self = StrMap { entries, contents: Ghost(m) };
    }

    /// Removes `key`, returning the value it had.
    pub fn remove(&mut self, key: &str) -> (r: Option<String>)
        ensures
            final(self)@ == old(self)@.remove(key@),
            match r {
                Some(v) => old(self)@.contains_key(key@) && old(self)@[key@] == v@,
                None => !old(self)@.contains_key(key@),
            },
    {
        proof {
            use_type_invariant(&*self);
        }
        match self.find(key) {
            Some(i) => {
                let mut taken = StrMap::new();
                core::mem::swap(self, &mut taken);
                proof {
                    use_type_invariant(&taken);
                }
                let StrMap { mut entries, contents } = taken;
                let ghost old_entries = entries@;
                assert(entries_agree(old_entries, contents@));
                assert(contents@.contains_key(entries@[i as int].0@));
                let ghost m = contents@.remove(key@);
                let e = entries.remove(i);
                assert forall|j: int| 0 <= j < entries@.len() implies
                    #[trigger] m.contains_key(entries@[j].0@)
                    && m[entries@[j].0@] == entries@[j].1@ by {
                    if j < i {
                        assert(entries@[j] == old_entries[j]);
                    } else {
                        assert(entries@[j] == old_entries[j + 1]);
                    }
                }
                assert forall|k2: Seq<char>| #[trigger] m.contains_key(k2)
                    implies exists|j: int| 0 <= j < entries@.len() && entries@[j].0@ == k2 by {
                    let j = choose|j: int| 0 <= j < old_entries.len() && old_entries[j].0@ == k2;
                    if j < i {
                        assert(entries@[j].0@ == k2);
                    } else {
                        assert(entries@[j - 1].0@ == k2);
                    }
                }
                assert forall|a: int, b: int| 0 <= a < b < entries@.len() implies entries@[a].0@
                    != entries@[b].0@ by {
                    let oa = if a < i { a } else { a + 1 };
                    let ob = if b < i { b } else { b + 1 };
                    assert(entries@[a] == old_entries[oa]);
                    assert(entries@[b] == old_entries[ob]);
                }
                assert(entries_agree(entries@, m));
                *self = StrMap { entries, contents: Ghost(m) };
                Some(e.1)
            },
            None => {
                assert(self@.remove(key@) =~= self@);
                None
            },
        }
    }

    /// Number of entries; equal to the number of keys.
    pub fn entry_count(&self) -> (r: usize)
        ensures
            r == self.key_order().len(),
    {
        proof {
            use_type_invariant(self);
        }
        self.entries.len()
    }

    /// The entry at position `i`, in first-insertion order.
    pub fn entry_at(&self, i: usize) -> (r: (&String, &String))
        requires
            i < self.key_order().len(),
        ensures
            r.0@ == self.key_order()[i as int],
            self@.contains_key(r.0@),
            self@[r.0@] == r.1@,
    {
        proof {
            use_type_invariant(self);
        }
        (&self.entries[i].0, &self.entries[i].1)
    }

    pub proof fn lemma_key_order(&self)
        requires
            self.inv(),
        ensures
            forall|i: int| 0 <= i < self.key_order().len() ==> #[trigger] self@.contains_key(
                self.key_order()[i],
            ),
            forall|k: Seq<char>| #[trigger] self@.contains_key(k) ==> self.key_order().contains(k),
            self.key_order().no_duplicates(),
    {
        assert forall|k: Seq<char>| #[trigger] self@.contains_key(k) implies self.key_order().contains(k) by {
            let i = choose|i: int| 0 <= i < self.entries@.len() && self.entries@[i].0@ == k;
            assert(self.key_order()[i] == k);
        }
        assert forall|i: int, j: int| 0 <= i < self.key_order().len() && 0 <= j < self.key_order().len() && i != j
            implies self.key_order()[i] != self.key_order()[j] by {
            if i < j {
            } else {
            }
        }
        assert forall|i: int| 0 <= i < self.key_order().len() implies #[trigger] self@.contains_key(
                self.key_order()[i]) by {
            assert(self.key_order()[i] == self.entries@[i].0@);
        }
    }

    /// A copy with the same contents.
    pub fn duplicate(&self) -> (r: StrMap)
        ensures
            r@ == self@,
    {
        proof {
            use_type_invariant(self);
        }
        let mut out = StrMap::new();
        let mut i: usize = 0;
        proof {
            self.lemma_key_order();
        }
        while i < self.entries.len()
            invariant
                self.inv(),
                i <= self.entries@.len(),
                out@ =~= Map::new(
                    |k: Seq<char>| exists|j: int| 0 <= j < i && self.entries@[j].0@ == k,
                    |k: Seq<char>| self@[k],
                ),
            decreases self.entries@.len() - i,
        {
            let k = self.entries[i].0.clone();
            let v = self.entries[i].1.clone();
            out.insert(k, v);
            proof {
                assert(self@.contains_key(self.entries@[i as int].0@));
                let m = Map::new(
                    |k: Seq<char>| exists|j: int| 0 <= j < i + 1 && self.entries@[j].0@ == k,
                    |k: Seq<char>| self@[k],
                );
                assert forall|k2: Seq<char>| m.contains_key(k2) implies out@.contains_key(k2) by {
                    let j = choose|j: int| 0 <= j < i + 1 && self.entries@[j].0@ == k2;
                    if j < i {
                        assert(exists|j: int| 0 <= j < i && self.entries@[j].0@ == k2);
                    }
                }
                assert forall|k2: Seq<char>| out@.contains_key(k2) implies m.contains_key(k2) by {
                    if k2 != self.entries@[i as int].0@ {
                        let j = choose|j: int| 0 <= j < i && self.entries@[j].0@ == k2;
                        assert(0 <= j < i + 1 && self.entries@[j].0@ == k2);
                    } else {
                        assert(self.entries@[i as int].0@ == k2);
                    }
                }
                assert(out@ =~= m);
            }
            i = i + 1;
        }
        proof {
            assert forall|k: Seq<char>| self@.contains_key(k) implies out@.contains_key(k) by {
                let j = choose|j: int| 0 <= j < self.entries@.len() && self.entries@[j].0@ == k;
                assert(exists|j: int| 0 <= j < i && self.entries@[j].0@ == k);
            }
            assert(out@ =~= self@);
        }
        out
    }
}

} // verus!
