//! The "most liked" ranking, kept per owner.
//!
//! For every scope the index holds one entry `(item, count)` for each item
//! with a positive count. A scope's entries are ranked by count, largest
//! first, and among equal counts by item id, smallest first. The index is
//! never cut down to the part that a query returns.

use crate::ordered::{pair_elements, pair_lt};
use std::collections::BTreeMap;
use std::collections::BTreeSet;
use vstd::prelude::*;

verus! {

/// How many entries a ranking query returns at most.
pub const TOP_K: usize = 10;

/// An entry of an index: a key and the value it is ranked by.
#[derive(Debug, PartialEq, Eq)]
pub struct ValueEntry<K, V>(pub K, pub V);

impl<K: Copy, V: Copy> Copy for ValueEntry<K, V> {

}

impl<K: Copy, V: Copy> Clone for ValueEntry<K, V> {
    fn clone(&self) -> (r: Self)
        ensures
            r == *self,
    {
        *self
    }
}

impl<K, V> ValueEntry<K, V> {
    /// The entry as a pair.
    pub open spec fn pair(self) -> (K, V) {
        (self.0, self.1)
    }

    pub fn new(k: K, v: V) -> (e: Self)
        ensures
            e.pair() == (k, v),
    {
        ValueEntry(k, v)
    }

    pub fn get(&self) -> (r: (&K, &V))
        ensures
            (*r.0, *r.1) == self.pair(),
    {
        (&self.0, &self.1)
    }
}

/// Whether the entry `a` stands before the entry `b` in a ranking: by
/// count, largest first, then by item, smallest first.
pub open spec fn ranks_before(a: (u64, u64), b: (u64, u64)) -> bool {
    a.1 > b.1 || (a.1 == b.1 && a.0 < b.0)
}

/// `r` lists the entries of `set`, each once, in ranking order.
pub open spec fn is_ranking(r: Seq<(u64, u64)>, set: Set<(u64, u64)>) -> bool {
    &&& forall|i: int, j: int| 0 <= i < j < r.len() ==> ranks_before(r[i], r[j])
    &&& forall|e: (u64, u64)| r.contains(e) <==> set.contains(e)
}

/// The first `k` entries of `r`, or all of them where there are fewer.
pub open spec fn leading(r: Seq<(u64, u64)>, k: nat) -> Seq<(u64, u64)> {
    if k <= r.len() {
        r.take(k as int)
    } else {
        r
    }
}

/// The place of a count in the ordered set: the larger the count, the
/// smaller the place.
pub open spec fn inverted(count: u64) -> u64 {
    (u64::MAX - count) as u64
}

/// The entries `(item, count)` that `counts` holds for a scope.
pub open spec fn scope_entries(counts: Map<(u64, u64), u64>, scope: u64) -> Set<(u64, u64)> {
    Set::new(|e: (u64, u64)| counts.contains_key((scope, e.0)) && counts[(scope, e.0)] == e.1)
}

/// The entries `(item, count)` that an ordered set of `(place, item)`
/// stands for.
pub open spec fn placed_entries(placed: Set<(u64, u64)>) -> Set<(u64, u64)> {
    Set::new(|e: (u64, u64)| placed.contains((inverted(e.1), e.0)))
}

/// The entries that an ordered set of `(place, item)` stands for, in
/// ranking order.
pub fn rank_placed(placed: &BTreeSet<(u64, u64)>) -> (r: Vec<ValueEntry<u64, u64>>)
    ensures
        is_ranking(r@.map_values(|e: ValueEntry<u64, u64>| e.pair()), placed_entries(placed@)),
{
    let mut r: Vec<ValueEntry<u64, u64>> = Vec::new();
    let all = pair_elements(placed);
    let mut i: usize = 0;
    while i < all.len()
        invariant
            i <= all.len(),
            r@.len() == i,
            forall|j: int|
                0 <= j < i ==> (#[trigger] r@[j]).pair() == (all@[j].1, inverted(all@[j].0)),
        decreases all.len() - i,
    {
        let (place, item) = all[i];
        r.push(ValueEntry::new(item, u64::MAX - place));
        i = i + 1;
    }
    proof {
        let listed = r@.map_values(|e: ValueEntry<u64, u64>| e.pair());
        assert forall|a: int, b: int| 0 <= a < b < listed.len() implies ranks_before(
            listed[a],
            listed[b],
        ) by {
            assert(listed[a] == r@[a].pair());
            assert(listed[b] == r@[b].pair());
            assert(pair_lt(all@[a], all@[b]));
        }
        assert forall|e: (u64, u64)| listed.contains(e) <==> placed_entries(placed@).contains(
            e,
        ) by {
            if listed.contains(e) {
                let a = choose|a: int| 0 <= a < listed.len() && listed[a] == e;
                assert(listed[a] == r@[a].pair());
                assert(all@.contains(all@[a]));
                assert(placed@.contains(all@[a]));
            }
            if placed_entries(placed@).contains(e) {
                let place = inverted(e.1);
                assert(all@.contains((place, e.0)));
                let a = choose|a: int| 0 <= a < all@.len() && all@[a] == (place, e.0);
                assert(listed[a] == r@[a].pair());
                assert(listed[a] == e);
            }
        }
    }
    r
}

/// The first `k` of the given entries, or all of them where there are
/// fewer.
pub fn take_leading(all: &Vec<ValueEntry<u64, u64>>, k: usize) -> (r: Vec<ValueEntry<u64, u64>>)
    ensures
        r@.map_values(|e: ValueEntry<u64, u64>| e.pair()) == leading(
            all@.map_values(|e: ValueEntry<u64, u64>| e.pair()),
            k as nat,
        ),
        r@.len() <= k,
        r@.len() <= all@.len(),
        forall|j: int| 0 <= j < r@.len() ==> r@[j] == all@[j],
{
    let end = if k <= all.len() {
        k
    } else {
        all.len()
    };
    let mut r: Vec<ValueEntry<u64, u64>> = Vec::new();
    let mut i: usize = 0;
    while i < end
        invariant
            i <= end <= all.len(),
            r@.len() == i,
            forall|j: int| 0 <= j < i ==> r@[j] == all@[j],
        decreases end - i,
    {
        r.push(all[i]);
        i = i + 1;
    }
    proof {
        assert(r@.map_values(|e: ValueEntry<u64, u64>| e.pair()) =~= leading(
            all@.map_values(|e: ValueEntry<u64, u64>| e.pair()),
            k as nat,
        ));
    }
    r
}

/// Whether the ordered set of `scope` holds `item` at `place`.
spec fn ranked_has(
    ranked: Map<u64, BTreeSet<(u64, u64)>>,
    scope: u64,
    place: u64,
    item: u64,
) -> bool {
    ranked.contains_key(scope) && ranked[scope]@.contains((place, item))
}

/// Whether `item` has a count in `scope` whose place is `place`.
spec fn counted(counts: Map<(u64, u64), u64>, scope: u64, place: u64, item: u64) -> bool {
    counts.contains_key((scope, item)) && inverted(counts[(scope, item)]) == place
}

pub struct RankIndex {
    ranked: BTreeMap<u64, BTreeSet<(u64, u64)>>,
    counts: BTreeMap<(u64, u64), u64>,
}

impl View for RankIndex {
    type V = Map<(u64, u64), u64>;

    /// The count of each `(scope, item)` that has an entry.
    closed spec fn view(&self) -> Map<(u64, u64), u64> {
        self.counts@
    }
}

impl RankIndex {
    /// Every entry has a positive count and stands in its scope's ordered
    /// set at the place of that count, and the ordered sets hold nothing
    /// else.
    pub closed spec fn wf(&self) -> bool {
        &&& forall|key: (u64, u64)| #[trigger] self.counts@.contains_key(key) ==> self.counts@[key] > 0
        &&& forall|scope: u64, place: u64, item: u64|
            #![trigger ranked_has(self.ranked@, scope, place, item)]
            #![trigger counted(self.counts@, scope, place, item)]
            ranked_has(self.ranked@, scope, place, item) <==> counted(
                self.counts@,
                scope,
                place,
                item,
            )
    }

    /// The entries `(item, count)` of a scope.
    pub open spec fn entries(&self, scope: u64) -> Set<(u64, u64)> {
        scope_entries(self@, scope)
    }

    /// The index without entries.
    pub fn new() -> (r: RankIndex)
        ensures
            r.wf(),
            r@ == Map::<(u64, u64), u64>::empty(),
    {
        RankIndex { ranked: BTreeMap::new(), counts: BTreeMap::new() }
    }

    /// The count that the index holds for an item, if it holds one.
    pub fn count_of(&self, scope: u64, item: u64) -> (r: Option<u64>)
        ensures
            r == (if self@.contains_key((scope, item)) {
                Some(self@[(scope, item)])
            } else {
                None
            }),
    {
        match self.counts.get(&(scope, item)) {
            Some(c) => Some(*c),
            None => None,
        }
    }

    /// Replaces what the index holds for an item by its current count: the
    /// stale entry leaves, and an entry with the new count enters unless
    /// the count is zero.
    pub fn refresh(&mut self, scope: u64, item: u64, count: u64)
        requires
            old(self).wf(),
        ensures
            final(self).wf(),
            final(self)@ == (if count > 0 {
                old(self)@.insert((scope, item), count)
            } else {
                old(self)@.remove((scope, item))
            }),
    {
        let stale = self.counts.remove(&(scope, item));
        let taken = self.ranked.remove(&scope);
        let mut bucket = match taken {
            Some(b) => b,
            None => BTreeSet::new(),
        };
        let ghost bucket_before = bucket@;
        match stale {
            Some(c) => {
                bucket.remove(&(u64::MAX - c, item));
            },
            None => {},
        }
        if count > 0 {
            bucket.insert((u64::MAX - count, item));
            self.counts.insert((scope, item), count);
        }
        let ghost bucket_after = bucket@;
        self.ranked.insert(scope, bucket);
        proof {
            assert(self.ranked@ == old(self).ranked@.insert(scope, self.ranked@[scope]));
            assert(self.ranked@[scope]@ == bucket_after);
            if !old(self).ranked@.contains_key(scope) {
                assert(bucket_before =~= Set::<(u64, u64)>::empty());
            }
            assert forall|s: u64, place: u64, it: u64|
                #![trigger ranked_has(self.ranked@, s, place, it)]
                #![trigger counted(self.counts@, s, place, it)]
                ranked_has(self.ranked@, s, place, it) <==> counted(self.counts@, s, place, it) by {
                assert(ranked_has(old(self).ranked@, s, place, it) <==> counted(
                    old(self).counts@,
                    s,
                    place,
                    it,
                ));
                if s == scope && it == item {
                    if old(self).counts@.contains_key((scope, item)) {
                        let p = inverted(old(self).counts@[(scope, item)]);
                        assert(ranked_has(old(self).ranked@, scope, p, item) <==> counted(
                            old(self).counts@,
                            scope,
                            p,
                            item,
                        ));
                    }
                }
            }
        }
    }

    /// The entries of a scope in ranking order.
    pub fn ranking(&self, scope: u64) -> (r: Vec<ValueEntry<u64, u64>>)
        requires
            self.wf(),
        ensures
            is_ranking(r@.map_values(|e: ValueEntry<u64, u64>| e.pair()), self.entries(scope)),
    {
        match self.ranked.get(&scope) {
            Some(bucket) => {
                let r = rank_placed(bucket);
                proof {
                    assert forall|e: (u64, u64)|
                        placed_entries(bucket@).contains(e) <==> self.entries(scope).contains(
                            e,
                        ) by {
                        assert(ranked_has(self.ranked@, scope, inverted(e.1), e.0) <==> counted(
                            self.counts@,
                            scope,
                            inverted(e.1),
                            e.0,
                        ));
                    }
                    assert(placed_entries(bucket@) =~= self.entries(scope));
                }
                r
            },
            None => {
                let r: Vec<ValueEntry<u64, u64>> = Vec::new();
                proof {
                    assert forall|e: (u64, u64)| !self.entries(scope).contains(e) by {
                        if self.entries(scope).contains(e) {
                            let place = inverted(e.1);
                            assert(counted(self.counts@, scope, place, e.0));
                            assert(ranked_has(self.ranked@, scope, place, e.0));
                        }
                    }
                }
                r
            },
        }
    }

    /// The first `k` entries of a scope in ranking order.
    pub fn top(&self, scope: u64, k: usize) -> (r: Vec<ValueEntry<u64, u64>>)
        requires
            self.wf(),
        ensures
            exists|full: Seq<(u64, u64)>|
                #![trigger is_ranking(full, self.entries(scope))]
                is_ranking(full, self.entries(scope)) && r@.map_values(
                    |e: ValueEntry<u64, u64>| e.pair(),
                ) == leading(full, k as nat),
            r@.len() <= k,
            forall|j: int| 0 <= j < r@.len() ==> self.entries(scope).contains(r@[j].pair()),
    {
        let all = self.ranking(scope);
        let ghost full = all@.map_values(|e: ValueEntry<u64, u64>| e.pair());
        let r = take_leading(&all, k);
        proof {
            assert(is_ranking(full, self.entries(scope)));
            assert forall|j: int| 0 <= j < r@.len() implies self.entries(scope).contains(
                r@[j].pair(),
            ) by {
                assert(full[j] == all@[j].pair());
                assert(full.contains(full[j]));
            }
        }
        r
    }
}

/// A scope has one ranking only.
pub proof fn lemma_ranking_unique(a: Seq<(u64, u64)>, b: Seq<(u64, u64)>, set: Set<(u64, u64)>)
    requires
        is_ranking(a, set),
        is_ranking(b, set),
    ensures
        a == b,
    decreases a.len(),
{
    if a.len() == 0 {
        if b.len() > 0 {
            assert(b.contains(b[0]));
            assert(a.contains(b[0]));
        }
        assert(a =~= b);
    } else {
        assert(a.contains(a[0]));
        assert(b.contains(a[0]));
        assert(b.contains(b[0]));
        assert(a.contains(b[0]));
        let ia = choose|i: int| 0 <= i < a.len() && a[i] == b[0];
        let ib = choose|i: int| 0 <= i < b.len() && b[i] == a[0];
        if ia > 0 {
            assert(ranks_before(a[0], a[ia]));
        }
        if ib > 0 {
            assert(ranks_before(b[0], b[ib]));
        }
        assert(a[0] == b[0]);
        let rest = set.remove(a[0]);
        let ta = a.drop_first();
        let tb = b.drop_first();
        assert forall|e: (u64, u64)| ta.contains(e) <==> rest.contains(e) by {
            if ta.contains(e) {
                let i = choose|i: int| 0 <= i < ta.len() && ta[i] == e;
                assert(a[i + 1] == e);
                assert(ranks_before(a[0], a[i + 1]));
                assert(a.contains(e));
            }
            if rest.contains(e) {
                assert(a.contains(e));
                let i = choose|i: int| 0 <= i < a.len() && a[i] == e;
                assert(ta[i - 1] == e);
            }
        }
        assert forall|e: (u64, u64)| tb.contains(e) <==> rest.contains(e) by {
            if tb.contains(e) {
                let i = choose|i: int| 0 <= i < tb.len() && tb[i] == e;
                assert(b[i + 1] == e);
                assert(ranks_before(b[0], b[i + 1]));
                assert(b.contains(e));
            }
            if rest.contains(e) {
                assert(b.contains(e));
                let i = choose|i: int| 0 <= i < b.len() && b[i] == e;
                assert(tb[i - 1] == e);
            }
        }
        assert forall|i: int, j: int| 0 <= i < j < ta.len() implies ranks_before(ta[i], ta[j]) by {
            assert(ranks_before(a[i + 1], a[j + 1]));
        }
        assert forall|i: int, j: int| 0 <= i < j < tb.len() implies ranks_before(tb[i], tb[j]) by {
            assert(ranks_before(b[i + 1], b[j + 1]));
        }
        lemma_ranking_unique(ta, tb, rest);
        assert(a =~= seq![a[0]] + ta);
        assert(b =~= seq![b[0]] + tb);
    }
}

} // verus!
