//! A bidirectional many-to-many index between two spaces of surrogate ids.
//!
//! The index is a finite set of edges `(x, y)`. It is held twice, once by
//! `x` and once by `y`, so that both directions are answered by a lookup.
//! Every bucket that is kept holds at least one id.

use crate::ordered::{enumerates, lemma_tree_set_finite, map_keys, set_elements};
use std::collections::BTreeMap;
use std::collections::BTreeSet;
use vstd::prelude::*;

verus! {

/// The ids that `x` is related to by `edges`.
pub open spec fn items_of(edges: Set<(u64, u64)>, x: u64) -> Set<u64> {
    Set::new(|y: u64| edges.contains((x, y)))
}

/// The ids that are related to `y` by `edges`.
pub open spec fn sources_of(edges: Set<(u64, u64)>, y: u64) -> Set<u64> {
    Set::new(|x: u64| edges.contains((x, y)))
}

/// The pairs `(k, v)` with `v` in the bucket of `k`.
spec fn pairs(m: Map<u64, BTreeSet<u64>>) -> Set<(u64, u64)> {
    Set::new(|p: (u64, u64)| m.contains_key(p.0) && m[p.0]@.contains(p.1))
}

/// Every bucket of `m` holds at least one id.
spec fn no_empty_bucket(m: Map<u64, BTreeSet<u64>>) -> bool {
    forall|k: u64| #[trigger] m.contains_key(k) ==> exists|v: u64| #[trigger] m[k]@.contains(v)
}

fn bucket_insert(m: &mut BTreeMap<u64, BTreeSet<u64>>, k: u64, v: u64)
    requires
        no_empty_bucket(old(m)@),
    ensures
        no_empty_bucket(final(m)@),
        pairs(final(m)@) == pairs(old(m)@).insert((k, v)),
{
    let taken = m.remove(&k);
    let mut bucket = match taken {
        Some(b) => b,
        None => BTreeSet::new(),
    };
    bucket.insert(v);
    m.insert(k, bucket);
    proof {
        assert(m@[k]@.contains(v));
        assert forall|a: u64| #[trigger] m@.contains_key(a) implies exists|b: u64| #[trigger]
            m@[a]@.contains(b) by {
            if a != k {
                assert(old(m)@.contains_key(a));
                let b = choose|b: u64| #[trigger] old(m)@[a]@.contains(b);
                assert(m@[a]@.contains(b));
            }
        }
        assert(pairs(m@) =~= pairs(old(m)@).insert((k, v)));
    }
}

fn bucket_remove(m: &mut BTreeMap<u64, BTreeSet<u64>>, k: u64, v: u64)
    requires
        no_empty_bucket(old(m)@),
    ensures
        no_empty_bucket(final(m)@),
        pairs(final(m)@) == pairs(old(m)@).remove((k, v)),
{
    let taken = m.remove(&k);
    match taken {
        Some(b) => {
            let mut bucket = b;
            bucket.remove(&v);
            if !bucket.is_empty() {
                proof {
                    if !(exists|j: u64| #[trigger] bucket@.contains(j)) {
                        assert(bucket@ =~= Set::<u64>::empty());
                    }
                }
                let ghost kept = bucket@;
                m.insert(k, bucket);
                proof {
                    assert forall|a: u64| #[trigger] m@.contains_key(a) implies exists|j: u64|
                        #[trigger] m@[a]@.contains(j) by {
                        if a == k {
                            let j = choose|j: u64| #[trigger] kept.contains(j);
                            assert(m@[a]@.contains(j));
                        } else {
                            assert(old(m)@.contains_key(a));
                            let j = choose|j: u64| #[trigger] old(m)@[a]@.contains(j);
                            assert(m@[a]@.contains(j));
                        }
                    }
                    assert(pairs(m@) =~= pairs(old(m)@).remove((k, v)));
                }
            } else {
                proof {
                    assert forall|a: u64| #[trigger] m@.contains_key(a) implies exists|j: u64|
                        #[trigger] m@[a]@.contains(j) by {
                        assert(old(m)@.contains_key(a));
                        let j = choose|j: u64| #[trigger] old(m)@[a]@.contains(j);
                        assert(m@[a]@.contains(j));
                    }
                    assert forall|p: (u64, u64)| pairs(m@).contains(p) <==> pairs(
                        old(m)@,
                    ).remove((k, v)).contains(p) by {
                        if p.0 == k && p.1 != v {
                            assert(!bucket@.contains(p.1));
                        }
                    }
                    assert(pairs(m@) =~= pairs(old(m)@).remove((k, v)));
                }
            }
        },
        None => {
            proof {
                assert forall|a: u64| #[trigger] m@.contains_key(a) implies exists|j: u64|
                    #[trigger] m@[a]@.contains(j) by {
                    assert(old(m)@.contains_key(a));
                    let j = choose|j: u64| #[trigger] old(m)@[a]@.contains(j);
                    assert(m@[a]@.contains(j));
                }
                assert(pairs(m@) =~= pairs(old(m)@).remove((k, v)));
            }
        },
    }
}

pub struct Relation {
    forward: BTreeMap<u64, BTreeSet<u64>>,
    backward: BTreeMap<u64, BTreeSet<u64>>,
}

impl View for Relation {
    type V = Set<(u64, u64)>;

    /// The edges of the relation.
    closed spec fn view(&self) -> Set<(u64, u64)> {
        pairs(self.forward@)
    }
}

impl Relation {
    /// Both directions hold the same edges and no bucket is empty.
    pub closed spec fn wf(&self) -> bool {
        &&& no_empty_bucket(self.forward@)
        &&& no_empty_bucket(self.backward@)
        &&& forall|x: u64, y: u64|
            #![trigger pairs(self.forward@).contains((x, y))]
            #![trigger pairs(self.backward@).contains((y, x))]
            pairs(self.forward@).contains((x, y)) <==> pairs(self.backward@).contains((y, x))
    }

    /// The ids that `x` is related to.
    pub open spec fn forward_set(&self, x: u64) -> Set<u64> {
        items_of(self@, x)
    }

    /// The ids that are related to `y`.
    pub open spec fn backward_set(&self, y: u64) -> Set<u64> {
        sources_of(self@, y)
    }

    /// The ids on the left that have at least one edge.
    pub open spec fn sources(&self) -> Set<u64> {
        Set::new(|x: u64| exists|y: u64| self@.contains((x, y)))
    }

    /// The ids on the right that have at least one edge.
    pub open spec fn targets(&self) -> Set<u64> {
        Set::new(|y: u64| exists|x: u64| self@.contains((x, y)))
    }

    proof fn lemma_forward_bucket(&self, x: u64)
        requires
            self.wf(),
        ensures
            self.forward@.contains_key(x) ==> self.forward_set(x) =~= self.forward@[x]@,
            !self.forward@.contains_key(x) ==> self.forward_set(x) =~= Set::<u64>::empty(),
            self.forward@.contains_key(x) <==> self.sources().contains(x),
            self.forward_set(x).finite(),
    {
        if self.forward@.contains_key(x) {
            lemma_tree_set_finite(&self.forward@[x]);
            let y = choose|y: u64| #[trigger] self.forward@[x]@.contains(y);
            assert(pairs(self.forward@).contains((x, y)));
            assert forall|k: u64| self.forward_set(x).contains(k) <==> self.forward@[x]@.contains(
                k,
            ) by {
                assert(self@.contains((x, k)) <==> pairs(self.forward@).contains((x, k)));
            }
            assert(self.forward_set(x) =~= self.forward@[x]@);
        } else {
            assert forall|k: u64| !self.forward_set(x).contains(k) by {
                assert(!pairs(self.forward@).contains((x, k)));
            }
            assert(self.forward_set(x) =~= Set::<u64>::empty());
        }
        if self.sources().contains(x) {
            let y = choose|y: u64| self@.contains((x, y));
            assert(pairs(self.forward@).contains((x, y)));
        }
    }

    proof fn lemma_backward_bucket(&self, y: u64)
        requires
            self.wf(),
        ensures
            self.backward@.contains_key(y) ==> self.backward_set(y) =~= self.backward@[y]@,
            !self.backward@.contains_key(y) ==> self.backward_set(y) =~= Set::<u64>::empty(),
            self.backward@.contains_key(y) <==> self.targets().contains(y),
            self.backward_set(y).finite(),
    {
        if self.backward@.contains_key(y) {
            lemma_tree_set_finite(&self.backward@[y]);
        }
        assert forall|k: u64| self.backward_set(y).contains(k) <==> pairs(
            self.backward@,
        ).contains((y, k)) by {
            assert(self@.contains((k, y)) <==> pairs(self.forward@).contains((k, y)));
        }
        if self.backward@.contains_key(y) {
            let x = choose|x: u64| #[trigger] self.backward@[y]@.contains(x);
            assert(pairs(self.backward@).contains((y, x)));
            assert(self.backward_set(y).contains(x));
            assert(self@.contains((x, y)));
        }
        if self.targets().contains(y) {
            let x = choose|x: u64| self@.contains((x, y));
            assert(self.backward_set(y).contains(x));
        }
    }

    /// Every id is related to finitely many ids, in both directions.
    pub proof fn lemma_finite(&self, x: u64, y: u64)
        requires
            self.wf(),
        ensures
            self.forward_set(x).finite(),
            self.backward_set(y).finite(),
    {
        self.lemma_forward_bucket(x);
        self.lemma_backward_bucket(y);
    }

    /// The relation without edges.
    pub fn new() -> (r: Relation)
        ensures
            r.wf(),
            r@ == Set::<(u64, u64)>::empty(),
    {
        let r = Relation { forward: BTreeMap::new(), backward: BTreeMap::new() };
        assert(r@ =~= Set::<(u64, u64)>::empty());
        r
    }

    /// Adds the edge `(x, y)` in both directions. Adding an edge that is
    /// there already changes nothing.
    pub fn insert(&mut self, x: u64, y: u64)
        requires
            old(self).wf(),
        ensures
            final(self).wf(),
            final(self)@ == old(self)@.insert((x, y)),
            final(self).forward_set(x).contains(y),
            final(self).backward_set(y).contains(x),
    {
        bucket_insert(&mut self.forward, x, y);
        bucket_insert(&mut self.backward, y, x);
        proof {
            assert forall|a: u64, b: u64|
                #![trigger pairs(self.forward@).contains((a, b))]
                #![trigger pairs(self.backward@).contains((b, a))]
                pairs(self.forward@).contains((a, b)) <==> pairs(self.backward@).contains(
                    (b, a),
                ) by {
                assert(pairs(old(self).forward@).contains((a, b)) <==> pairs(
                    old(self).backward@,
                ).contains((b, a)));
            }
        }
    }

    /// Removes the edge `(x, y)` in both directions. A bucket that loses
    /// its last id is dropped. Removing an edge that is not there changes
    /// nothing.
    pub fn remove(&mut self, x: u64, y: u64)
        requires
            old(self).wf(),
        ensures
            final(self).wf(),
            final(self)@ == old(self)@.remove((x, y)),
            !final(self).forward_set(x).contains(y),
            !final(self).backward_set(y).contains(x),
    {
        bucket_remove(&mut self.forward, x, y);
        bucket_remove(&mut self.backward, y, x);
        proof {
            assert forall|a: u64, b: u64|
                #![trigger pairs(self.forward@).contains((a, b))]
                #![trigger pairs(self.backward@).contains((b, a))]
                pairs(self.forward@).contains((a, b)) <==> pairs(self.backward@).contains(
                    (b, a),
                ) by {
                assert(pairs(old(self).forward@).contains((a, b)) <==> pairs(
                    old(self).backward@,
                ).contains((b, a)));
            }
        }
    }

    /// Whether the edge `(x, y)` is held.
    pub fn contains(&self, x: u64, y: u64) -> (r: bool)
        requires
            self.wf(),
        ensures
            r == self@.contains((x, y)),
    {
        match self.forward.get(&x) {
            Some(bucket) => {
                let r = bucket.contains(&y);
                assert(r == pairs(self.forward@).contains((x, y)));
                r
            },
            None => {
                assert(!pairs(self.forward@).contains((x, y)));
                false
            },
        }
    }

    /// The ids that `x` is related to, smallest first; empty when there
    /// are none.
    pub fn forward(&self, x: u64) -> (v: Vec<u64>)
        requires
            self.wf(),
        ensures
            enumerates(v@, self.forward_set(x)),
            v@.len() == self.forward_set(x).len(),
    {
        proof {
            self.lemma_forward_bucket(x);
        }
        match self.forward.get(&x) {
            Some(bucket) => set_elements(bucket),
            None => Vec::new(),
        }
    }

    /// The ids that are related to `y`, smallest first; empty when there
    /// are none.
    pub fn backward(&self, y: u64) -> (v: Vec<u64>)
        requires
            self.wf(),
        ensures
            enumerates(v@, self.backward_set(y)),
            v@.len() == self.backward_set(y).len(),
    {
        proof {
            self.lemma_backward_bucket(y);
        }
        match self.backward.get(&y) {
            Some(bucket) => set_elements(bucket),
            None => Vec::new(),
        }
    }

    /// How many ids `x` is related to.
    pub fn forward_len(&self, x: u64) -> (n: usize)
        requires
            self.wf(),
        ensures
            n == self.forward_set(x).len(),
    {
        proof {
            self.lemma_forward_bucket(x);
        }
        match self.forward.get(&x) {
            Some(bucket) => bucket.len(),
            None => 0,
        }
    }

    /// How many ids are related to `y`.
    pub fn backward_len(&self, y: u64) -> (n: usize)
        requires
            self.wf(),
        ensures
            n == self.backward_set(y).len(),
    {
        proof {
            self.lemma_backward_bucket(y);
        }
        match self.backward.get(&y) {
            Some(bucket) => bucket.len(),
            None => 0,
        }
    }

    /// Whether `x` has any edge, that is, whether it has a bucket.
    pub fn has_forward(&self, x: u64) -> (r: bool)
        requires
            self.wf(),
        ensures
            r == self.sources().contains(x),
    {
        proof {
            self.lemma_forward_bucket(x);
        }
        self.forward.contains_key(&x)
    }

    /// Whether `y` has any edge, that is, whether it has a bucket.
    pub fn has_backward(&self, y: u64) -> (r: bool)
        requires
            self.wf(),
        ensures
            r == self.targets().contains(y),
    {
        proof {
            self.lemma_backward_bucket(y);
        }
        self.backward.contains_key(&y)
    }

    /// The left ids that have a bucket, smallest first.
    pub fn forward_keys(&self) -> (v: Vec<u64>)
        requires
            self.wf(),
        ensures
            enumerates(v@, self.sources()),
    {
        let v = map_keys(&self.forward);
        proof {
            assert forall|k: u64| v@.contains(k) <==> self.sources().contains(k) by {
                self.lemma_forward_bucket(k);
            }
        }
        v
    }

    /// The right ids that have a bucket, smallest first.
    pub fn backward_keys(&self) -> (v: Vec<u64>)
        requires
            self.wf(),
        ensures
            enumerates(v@, self.targets()),
    {
        let v = map_keys(&self.backward);
        proof {
            assert forall|k: u64| v@.contains(k) <==> self.targets().contains(k) by {
                self.lemma_backward_bucket(k);
            }
        }
        v
    }

    /// The smallest id related to `y`, if there is one.
    pub fn first_backward(&self, y: u64) -> (r: Option<u64>)
        requires
            self.wf(),
        ensures
            match r {
                Some(x) => self@.contains((x, y)) && forall|k: u64|
                    self@.contains((k, y)) ==> x <= k,
                None => forall|k: u64| !self@.contains((k, y)),
            },
    {
        let v = self.backward(y);
        if v.len() == 0 {
            assert forall|k: u64| !self@.contains((k, y)) by {
                assert(self.backward_set(y).contains(k) <==> v@.contains(k));
            }
            None
        } else {
            let x = v[0];
            proof {
                assert(v@.contains(x));
                assert(self.backward_set(y).contains(x));
                assert forall|k: u64| self@.contains((k, y)) implies x <= k by {
                    assert(self.backward_set(y).contains(k));
                    assert(v@.contains(k));
                    let i = choose|i: int| 0 <= i < v@.len() && v@[i] == k;
                    if i > 0 {
                        assert(v@[0] < v@[i]);
                    }
                }
            }
            Some(x)
        }
    }

    /// The largest id related to `y`, if there is one.
    pub fn last_backward(&self, y: u64) -> (r: Option<u64>)
        requires
            self.wf(),
        ensures
            match r {
                Some(x) => self@.contains((x, y)) && forall|k: u64|
                    self@.contains((k, y)) ==> k <= x,
                None => forall|k: u64| !self@.contains((k, y)),
            },
    {
        let v = self.backward(y);
        if v.len() == 0 {
            assert forall|k: u64| !self@.contains((k, y)) by {
                assert(self.backward_set(y).contains(k) <==> v@.contains(k));
            }
            None
        } else {
            let x = v[v.len() - 1];
            proof {
                assert(v@.contains(x));
                assert(self.backward_set(y).contains(x));
                assert forall|k: u64| self@.contains((k, y)) implies k <= x by {
                    assert(self.backward_set(y).contains(k));
                    assert(v@.contains(k));
                    let i = choose|i: int| 0 <= i < v@.len() && v@[i] == k;
                    if i < v@.len() - 1 {
                        assert(v@[i] < v@[v@.len() - 1]);
                    }
                }
            }
            Some(x)
        }
    }

    /// The smallest id that `x` is related to, if there is one.
    pub fn first_forward(&self, x: u64) -> (r: Option<u64>)
        requires
            self.wf(),
        ensures
            match r {
                Some(y) => self@.contains((x, y)) && forall|k: u64|
                    self@.contains((x, k)) ==> y <= k,
                None => forall|k: u64| !self@.contains((x, k)),
            },
    {
        let v = self.forward(x);
        if v.len() == 0 {
            assert forall|k: u64| !self@.contains((x, k)) by {
                assert(self.forward_set(x).contains(k) <==> v@.contains(k));
            }
            None
        } else {
            let y = v[0];
            proof {
                assert(v@.contains(y));
                assert(self.forward_set(x).contains(y));
                assert forall|k: u64| self@.contains((x, k)) implies y <= k by {
                    assert(self.forward_set(x).contains(k));
                    assert(v@.contains(k));
                    let i = choose|i: int| 0 <= i < v@.len() && v@[i] == k;
                    if i > 0 {
                        assert(v@[0] < v@[i]);
                    }
                }
            }
            Some(y)
        }
    }
}

/// After `insert(x, y)` the edge is seen from both sides.
pub proof fn lemma_insert_round_trip(before: Relation, after: Relation, x: u64, y: u64)
    requires
        after@ == before@.insert((x, y)),
    ensures
        after.forward_set(x).contains(y),
        after.backward_set(y).contains(x),
        after.sources().contains(x),
        after.targets().contains(y),
{
    assert(after@.contains((x, y)));
}

/// After `remove(x, y)` the edge is seen from neither side, and a side
/// that had no other edge is no longer listed.
pub proof fn lemma_remove_round_trip(before: Relation, after: Relation, x: u64, y: u64)
    requires
        after@ == before@.remove((x, y)),
    ensures
        !after.forward_set(x).contains(y),
        !after.backward_set(y).contains(x),
        (forall|k: u64| k != y ==> !before.forward_set(x).contains(k)) ==> !after.sources().contains(
            x,
        ),
        (forall|k: u64| k != x ==> !before.backward_set(y).contains(k))
            ==> !after.targets().contains(y),
{
    if forall|k: u64| k != y ==> !before.forward_set(x).contains(k) {
        assert forall|k: u64| !after@.contains((x, k)) by {
            if k != y {
                assert(!before.forward_set(x).contains(k));
            }
        }
    }
    if forall|k: u64| k != x ==> !before.backward_set(y).contains(k) {
        assert forall|k: u64| !after@.contains((k, y)) by {
            if k != x {
                assert(!before.backward_set(y).contains(k));
            }
        }
    }
}

} // verus!
