//! The lookup from a verified identity to its profile.
//!
//! Identities are compared by what they spell, so the lookup is a list of
//! pairs in which no identity occurs twice.

use crate::identity::{AuthenticationWithAddress, IdentityKey};
use vstd::prelude::*;

verus! {

pub struct IdentityIndex {
    entries: Vec<(AuthenticationWithAddress, u64)>,
}

/// Whether the entry at `i` is the one for `key`.
spec fn entry_for(
    entries: Seq<(AuthenticationWithAddress, u64)>,
    key: IdentityKey,
    i: int,
) -> bool {
    0 <= i < entries.len() && entries[i].0@ == key
}

impl View for IdentityIndex {
    type V = Map<IdentityKey, u64>;

    closed spec fn view(&self) -> Map<IdentityKey, u64> {
        Map::new(
            |key: IdentityKey| exists|i: int| entry_for(self.entries@, key, i),
            |key: IdentityKey| self.entries@[choose|i: int| entry_for(self.entries@, key, i)].1,
        )
    }
}

impl IdentityIndex {
    /// No identity occurs twice.
    pub closed spec fn wf(&self) -> bool {
        forall|i: int, j: int|
            0 <= i < self.entries@.len() && 0 <= j < self.entries@.len() && i != j ==> (
            #[trigger] self.entries@[i]).0@ != (#[trigger] self.entries@[j]).0@
    }

    proof fn lemma_entry(&self, i: int)
        requires
            self.wf(),
            0 <= i < self.entries@.len(),
        ensures
            self@.contains_key(self.entries@[i].0@),
            self@[self.entries@[i].0@] == self.entries@[i].1,
    {
        let key = self.entries@[i].0@;
        assert(entry_for(self.entries@, key, i));
        let j = choose|j: int| entry_for(self.entries@, key, j);
        if j != i {
            assert(self.entries@[i].0@ != self.entries@[j].0@);
        }
    }

    /// The lookup without entries.
    pub fn new() -> (index: IdentityIndex)
        ensures
            index.wf(),
            index@ == Map::<IdentityKey, u64>::empty(),
    {
        let index = IdentityIndex { entries: Vec::new() };
        assert(index@ =~= Map::<IdentityKey, u64>::empty());
        index
    }

    /// The place of the entry for `key`, if there is one.
    fn find(&self, key: &AuthenticationWithAddress) -> (r: Option<usize>)
        requires
            self.wf(),
        ensures
            match r {
                Some(i) => entry_for(self.entries@, key@, i as int),
                None => forall|i: int| !entry_for(self.entries@, key@, i),
            },
    {
        let mut i: usize = 0;
        while i < self.entries.len()
            invariant
                i <= self.entries@.len(),
                forall|j: int| 0 <= j < i ==> !entry_for(self.entries@, key@, j),
            decreases self.entries.len() - i,
        {
            if self.entries[i].0.same(key) {
                return Some(i);
            }
            i = i + 1;
        }
        None
    }

    /// The profile of the identity, if it has one.
    pub fn get(&self, key: &AuthenticationWithAddress) -> (r: Option<u64>)
        requires
            self.wf(),
        ensures
            r == (if self@.contains_key(key@) {
                Some(self@[key@])
            } else {
                None
            }),
    {
        match self.find(key) {
            Some(i) => {
                proof {
                    self.lemma_entry(i as int);
                }
                Some(self.entries[i].1)
            },
            None => None,
        }
    }

    /// Makes `id` the profile of the identity.
    pub fn insert(&mut self, key: AuthenticationWithAddress, id: u64)
        requires
            old(self).wf(),
        ensures
            final(self).wf(),
            final(self)@ == old(self)@.insert(key@, id),
    {
        let found = self.find(&key);
        let ghost k = key@;
        match found {
            Some(i) => {
                self.entries.set(i, (key, id));
                proof {
                    assert forall|a: int, b: int|
                        0 <= a < self.entries@.len() && 0 <= b < self.entries@.len() && a
                            != b implies (#[trigger] self.entries@[a]).0@ != (
                    #[trigger] self.entries@[b]).0@ by {
                        assert(old(self).entries@[a].0@ != old(self).entries@[b].0@);
                    }
                    assert forall|q: IdentityKey|
                        self@.contains_key(q) <==> old(self)@.insert(k, id).contains_key(q) by {
                        if self@.contains_key(q) {
                            let j = choose|j: int| entry_for(self.entries@, q, j);
                            assert(entry_for(old(self).entries@, q, j));
                        }
                        if old(self)@.contains_key(q) {
                            let j = choose|j: int| entry_for(old(self).entries@, q, j);
                            assert(entry_for(self.entries@, q, j));
                        }
                        if q == k {
                            assert(entry_for(self.entries@, q, i as int));
                        }
                    }
                    assert forall|q: IdentityKey| self@.contains_key(q) implies self@[q] == old(
                        self,
                    )@.insert(k, id)[q] by {
                        let j = choose|j: int| entry_for(self.entries@, q, j);
                        self.lemma_entry(j);
                        if q != k {
                            assert(j != i);
                            old(self).lemma_entry(j);
                        } else {
                            if j != i {
                                assert(self.entries@[i as int].0@ != self.entries@[j].0@);
                            }
                        }
                    }
                    assert(self@ =~= old(self)@.insert(k, id));
                }
            },
            None => {
                self.entries.push((key, id));
                proof {
                    let n = old(self).entries@.len() as int;
                    assert forall|a: int, b: int|
                        0 <= a < self.entries@.len() && 0 <= b < self.entries@.len() && a
                            != b implies (#[trigger] self.entries@[a]).0@ != (
                    #[trigger] self.entries@[b]).0@ by {
                        if a < n && b < n {
                            assert(old(self).entries@[a].0@ != old(self).entries@[b].0@);
                        } else if a < n {
                            assert(!entry_for(old(self).entries@, k, a));
                        } else {
                            assert(!entry_for(old(self).entries@, k, b));
                        }
                    }
                    assert forall|q: IdentityKey|
                        self@.contains_key(q) <==> old(self)@.insert(k, id).contains_key(q) by {
                        if self@.contains_key(q) {
                            let j = choose|j: int| entry_for(self.entries@, q, j);
                            if j < n {
                                assert(entry_for(old(self).entries@, q, j));
                            }
                        }
                        if old(self)@.contains_key(q) {
                            let j = choose|j: int| entry_for(old(self).entries@, q, j);
                            assert(entry_for(self.entries@, q, j));
                        }
                        if q == k {
                            assert(entry_for(self.entries@, q, n));
                        }
                    }
                    assert forall|q: IdentityKey| self@.contains_key(q) implies self@[q] == old(
                        self,
                    )@.insert(k, id)[q] by {
                        let j = choose|j: int| entry_for(self.entries@, q, j);
                        self.lemma_entry(j);
                        if q != k {
                            assert(j < n);
                            old(self).lemma_entry(j);
                        } else {
                            if j != n {
                                assert(self.entries@[n].0@ != self.entries@[j].0@);
                            }
                        }
                    }
                    assert(self@ =~= old(self)@.insert(k, id));
                }
            },
        }
    }
}

} // verus!
