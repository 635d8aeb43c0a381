//! A string-keyed table.
//!
//! The three process-wide registries — endpoints, rate-limit cells, gRPC
//! mocks — are each a mapping from a string key to a value, read and written
//! under a lock that the caller holds. This table gives them one verified
//! core: a vector of entries with pairwise-distinct keys, abstracted as a
//! `Map` from the key's characters to the stored value.

use vstd::prelude::*;
use crate::chars::str_eq;

verus! {

pub struct StrTable<V> {
    entries: Vec<(String, V)>,
    model: Ghost<Map<Seq<char>, V>>,
}

impl<V> StrTable<V> {
    /// The mapping this table holds.
    pub closed spec fn view(&self) -> Map<Seq<char>, V> {
        self.model@
    }

    /// The stored entries agree with the mapping: keys are distinct, every
    /// entry is in the mapping, and nothing else is.
    pub closed spec fn wf(&self) -> bool {
        &&& (forall|i: int, j: int|
            0 <= i < j < self.entries@.len() ==> self.entries@[i].0@ != self.entries@[j].0@)
        &&& (forall|i: int|
            0 <= i < self.entries@.len() ==> #[trigger] self.model@.contains_pair(
                self.entries@[i].0@,
                self.entries@[i].1,
            ))
        &&& (forall|k: Seq<char>|
            self.model@.contains_key(k) ==> exists|i: int|
                0 <= i < self.entries@.len() && #[trigger] self.entries@[i].0@ == k)
    }

    /// The entries in storage order; their key views list the mapping's domain.
    pub closed spec fn entry_seq(&self) -> Seq<(String, V)> {
        self.entries@
    }

    pub fn new() -> (r: Self)
        ensures
            r.wf(),
            r@ == Map::<Seq<char>, V>::empty(),
            r.entry_seq() == Seq::<(String, V)>::empty(),
    {
        let r = StrTable { entries: Vec::new(), model: Ghost(Map::empty()) };
        proof {
            assert(r.entries@.len() == 0);
        }
        r
    }

    /// The index holding `key`, if one does.
    fn find(&self, key: &str) -> (r: Option<usize>)
        requires
            self.wf(),
        ensures
            match r {
                Some(i) => i < self.entries@.len() && self.entries@[i as int].0@ == key@,
                None => !self@.contains_key(key@),
            },
    {
        let mut i: usize = 0;
        while i < self.entries.len()
            invariant
                self.wf(),
                0 <= i <= self.entries@.len(),
                forall|j: int| 0 <= j < i ==> self.entries@[j].0@ != key@,
            decreases self.entries@.len() - i,
        {
            if str_eq(self.entries[i].0.as_str(), key) {
                return Some(i);
            }
            i += 1;
        }
        proof {
            if self@.contains_key(key@) {
                let j = choose|j: int|
                    0 <= j < self.entries@.len() && #[trigger] self.entries@[j].0@ == key@;
                assert(self.entries@[j].0@ != key@);
            }
        }
        None
    }

    /// Binds `key` to `value`, overwriting any earlier binding.
    pub fn insert(&mut self, key: String, value: V)
        requires
            old(self).wf(),
        ensures
            final(self).wf(),
            final(self)@ == old(self)@.insert(key@, value),
    {
        let ghost m2 = self.model@.insert(key@, value);
        match self.find(key.as_str()) {
            Some(i) => {
                self.entries[i] = (key, value);
                self.model = Ghost(m2);
                proof {
                    assert forall|i2: int| 0 <= i2 < final(self).entries@.len()
                        implies #[trigger] final(self).model@.contains_pair(final(self).entries@[i2].0@, final(self).entries@[i2].1)
                    by {
                        if i2 != i as int {
                            assert(old(self).model@.contains_pair(old(self).entries@[i2].0@, old(self).entries@[i2].1));
                            assert(old(self).entries@[i2].0@ != key@);
                        }
                    }
                    assert forall|k: Seq<char>| final(self).model@.contains_key(k)
                        implies exists|j: int| 0 <= j < final(self).entries@.len() && #[trigger] final(self).entries@[j].0@ == k
                    by {
                        if k == key@ {
                            assert(final(self).entries@[i as int].0@ == k);
                        } else {
                            let j = choose|j: int| 0 <= j < old(self).entries@.len() && #[trigger] old(self).entries@[j].0@ == k;
                            assert(final(self).entries@[j].0@ == k);
                        }
                    }
                }
            },
            None => {
                self.entries.push((key, value));
                self.model = Ghost(m2);
                proof {
                    let n = old(self).entries@.len() as int;
                    assert forall|i2: int| 0 <= i2 < n
                        implies old(self).entries@[i2].0@ != key@
                    by {
                        assert(old(self).model@.contains_pair(old(self).entries@[i2].0@, old(self).entries@[i2].1));
                    }
                    assert forall|i2: int| 0 <= i2 < final(self).entries@.len()
                        implies #[trigger] final(self).model@.contains_pair(final(self).entries@[i2].0@, final(self).entries@[i2].1)
                    by {
                        if i2 < n {
                            assert(old(self).model@.contains_pair(old(self).entries@[i2].0@, old(self).entries@[i2].1));
                        }
                    }
                    assert forall|k: Seq<char>| final(self).model@.contains_key(k)
                        implies exists|j: int| 0 <= j < final(self).entries@.len() && #[trigger] final(self).entries@[j].0@ == k
                    by {
                        if k == key@ {
                            assert(final(self).entries@[n].0@ == k);
                        } else {
                            let j = choose|j: int| 0 <= j < old(self).entries@.len() && #[trigger] old(self).entries@[j].0@ == k;
                            assert(final(self).entries@[j].0@ == k);
                        }
                    }
                }
            },
        }
    }

    /// Takes the binding of `key` out, handing its value back.
    pub fn remove(&mut self, key: &str) -> (r: Option<V>)
        requires
            old(self).wf(),
        ensures
            final(self).wf(),
            final(self)@ == old(self)@.remove(key@),
            match r {
                Some(v) => old(self)@.contains_key(key@) && old(self)@[key@] == v,
                None => !old(self)@.contains_key(key@),
            },
    {
        match self.find(key) {
            Some(i) => {
                let (_k, v) = self.entries.remove(i);
                self.model = Ghost(self.model@.remove(key@));
                proof {
                    let n = old(self).entries@.len() as int;
                    assert(old(self).model@.contains_pair(old(self).entries@[i as int].0@, old(self).entries@[i as int].1));
                    assert forall|i2: int| 0 <= i2 < final(self).entries@.len()
                        implies #[trigger] final(self).model@.contains_pair(final(self).entries@[i2].0@, final(self).entries@[i2].1)
                    by {
                        let i0 = if i2 < i as int { i2 } else { i2 + 1 };
                        assert(old(self).model@.contains_pair(old(self).entries@[i0].0@, old(self).entries@[i0].1));
                        assert(old(self).entries@[i0].0@ != key@);
                    }
                    assert forall|k2: Seq<char>| final(self).model@.contains_key(k2)
                        implies exists|j: int| 0 <= j < final(self).entries@.len() && #[trigger] final(self).entries@[j].0@ == k2
                    by {
                        let j = choose|j: int| 0 <= j < old(self).entries@.len() && #[trigger] old(self).entries@[j].0@ == k2;
                        if j < i as int {
                            assert(final(self).entries@[j].0@ == k2);
                        } else {
                            assert(final(self).entries@[j - 1].0@ == k2);
                        }
                    }
                    assert forall|a: int, b: int| 0 <= a < b < final(self).entries@.len()
                        implies final(self).entries@[a].0@ != final(self).entries@[b].0@
                    by {
                        let a0 = if a < i as int { a } else { a + 1 };
                        let b0 = if b < i as int { b } else { b + 1 };
                        assert(old(self).entries@[a0].0@ != old(self).entries@[b0].0@);
                    }
                    assert(final(self)@ =~= old(self)@.remove(key@));
                }
                Some(v)
            },
            None => {
                proof {
                    assert(final(self)@ =~= old(self)@.remove(key@));
                }
                None
            },
        }
    }

    /// The value bound to `key`, if one is.
    pub fn get(&self, key: &str) -> (r: Option<&V>)
        requires
            self.wf(),
        ensures
            match r {
                Some(v) => self@.contains_key(key@) && self@[key@] == *v,
                None => !self@.contains_key(key@),
            },
    {
        match self.find(key) {
            Some(i) => {
                proof {
                    assert(self.model@.contains_pair(self.entries@[i as int].0@, self.entries@[i as int].1));
                }
                Some(&self.entries[i].1)
            },
            None => None,
        }
    }

    /// The entries as stored, for walking them in order.
    pub fn entries(&self) -> (r: &Vec<(String, V)>)
        ensures
            r@ == self.entry_seq(),
    {
        &self.entries
    }

    /// Every entry's key and value stand in the mapping, and every key of the
    /// mapping stands in some entry.
    pub proof fn lemma_entries_model(&self)
        requires
            self.wf(),
        ensures
            forall|i: int|
                0 <= i < self.entry_seq().len() ==> #[trigger] self@.contains_pair(
                    self.entry_seq()[i].0@,
                    self.entry_seq()[i].1,
                ),
            forall|k: Seq<char>|
                self@.contains_key(k) ==> exists|i: int|
                    0 <= i < self.entry_seq().len() && #[trigger] self.entry_seq()[i].0@ == k,
            forall|i: int, j: int|
                0 <= i < j < self.entry_seq().len() ==> self.entry_seq()[i].0@
                    != self.entry_seq()[j].0@,
    {
        assert forall|k: Seq<char>| self@.contains_key(k) implies exists|i: int|
            0 <= i < self.entry_seq().len() && #[trigger] self.entry_seq()[i].0@ == k by {
            let i = choose|i: int|
                0 <= i < self.entries@.len() && #[trigger] self.entries@[i].0@ == k;
            assert(self.entry_seq()[i].0@ == k);
        }
    }
}

} // verus!
