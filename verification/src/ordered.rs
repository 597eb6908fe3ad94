//! Ascending enumerations of the standard ordered collections.
//!
//! The rest of the crate walks a `BTreeSet` or the keys of a `BTreeMap`
//! through the vectors produced here, so that every loop runs over a plain
//! `Vec` whose order and contents are known.

use std::collections::BTreeMap;
use std::collections::BTreeSet;
use vstd::prelude::*;
use vstd::std_specs::btree::*;
use vstd::std_specs::cmp::OrdSpec;
use vstd::std_specs::iter::IteratorSpec;

verus! {

/// `s` is strictly increasing.
pub open spec fn ascending(s: Seq<u64>) -> bool {
    forall|i: int, j: int| 0 <= i < j < s.len() ==> s[i] < s[j]
}

/// `s` lists the members of `set`, each once, smallest first.
pub open spec fn enumerates(s: Seq<u64>, set: Set<u64>) -> bool {
    &&& ascending(s)
    &&& forall|k: u64| s.contains(k) <==> set.contains(k)
}

/// `s` is strictly increasing.
pub open spec fn ascending_wide(s: Seq<u128>) -> bool {
    forall|i: int, j: int| 0 <= i < j < s.len() ==> s[i] < s[j]
}

/// `s` lists the members of `set`, each once, smallest first.
pub open spec fn enumerates_wide(s: Seq<u128>, set: Set<u128>) -> bool {
    &&& ascending_wide(s)
    &&& forall|k: u128| s.contains(k) <==> set.contains(k)
}

/// Lexicographic order on pairs.
pub open spec fn pair_lt(a: (u64, u64), b: (u64, u64)) -> bool {
    a.0 < b.0 || (a.0 == b.0 && a.1 < b.1)
}

/// `s` is strictly increasing in the lexicographic order.
pub open spec fn ascending_pairs(s: Seq<(u64, u64)>) -> bool {
    forall|i: int, j: int| 0 <= i < j < s.len() ==> pair_lt(s[i], s[j])
}

/// `s` lists the members of `set`, each once, smallest first.
pub open spec fn enumerates_pairs(s: Seq<(u64, u64)>, set: Set<(u64, u64)>) -> bool {
    &&& ascending_pairs(s)
    &&& forall|k: (u64, u64)| s.contains(k) <==> set.contains(k)
}

/// An ascending sequence holds no value twice.
pub proof fn lemma_ascending_no_duplicates(s: Seq<u64>)
    requires
        ascending(s),
    ensures
        s.no_duplicates(),
{
    assert forall|i: int, j: int| 0 <= i < s.len() && 0 <= j < s.len() && i != j implies s[i]
        != s[j] by {
        if i < j {
            assert(s[i] < s[j]);
        } else {
            assert(s[j] < s[i]);
        }
    }
}

/// A sequence without repetition that lists a set is as long as the set is
/// large.
pub proof fn lemma_listing_len<A>(s: Seq<A>, set: Set<A>)
    requires
        s.no_duplicates(),
        forall|k: A| s.contains(k) <==> set.contains(k),
    ensures
        set.finite(),
        set.len() == s.len(),
{
    broadcast use vstd::seq_lib::seq_to_set_is_finite;

    s.unique_seq_to_set();
    assert(s.to_set() =~= set);
}

/// An ascending enumeration is as long as its set is large.
pub proof fn lemma_enumeration_len(s: Seq<u64>, set: Set<u64>)
    requires
        enumerates(s, set),
    ensures
        set.finite(),
        set.len() == s.len(),
{
    lemma_ascending_no_duplicates(s);
    lemma_listing_len(s, set);
}

/// An ascending enumeration is as long as its set is large.
pub proof fn lemma_enumeration_len_wide(s: Seq<u128>, set: Set<u128>)
    requires
        enumerates_wide(s, set),
    ensures
        set.finite(),
        set.len() == s.len(),
{
    assert forall|i: int, j: int| 0 <= i < s.len() && 0 <= j < s.len() && i != j implies s[i]
        != s[j] by {
        if i < j {
            assert(s[i] < s[j]);
        } else {
            assert(s[j] < s[i]);
        }
    }
    lemma_listing_len(s, set);
}

/// Two ascending enumerations of one set are the same sequence.
pub proof fn lemma_enumeration_unique(a: Seq<u64>, b: Seq<u64>, set: Set<u64>)
    requires
        enumerates(a, set),
        enumerates(b, set),
    ensures
        a == b,
    decreases a.len(),
{
    if a.len() == 0 {
        if b.len() > 0 {
            assert(b.contains(b[0]));
            assert(a.contains(b[0]));
        }
        assert(a =~= b);
    } else {
        assert(a.contains(a[0]));
        assert(b.contains(a[0]));
        assert(b.len() > 0);
        assert(b.contains(b[0]));
        assert(a.contains(b[0]));
        let ia = choose|i: int| 0 <= i < a.len() && a[i] == b[0];
        let ib = choose|i: int| 0 <= i < b.len() && b[i] == a[0];
        if ia > 0 {
            assert(a[0] < a[ia]);
        }
        if ib > 0 {
            assert(b[0] < b[ib]);
        }
        assert(a[0] == b[0]);
        let rest = set.remove(a[0]);
        let ta = a.drop_first();
        let tb = b.drop_first();
        assert forall|k: u64| ta.contains(k) <==> rest.contains(k) by {
            if ta.contains(k) {
                let i = choose|i: int| 0 <= i < ta.len() && ta[i] == k;
                assert(a[i + 1] == k);
                assert(a[0] < a[i + 1]);
                assert(a.contains(k));
            }
            if rest.contains(k) {
                assert(a.contains(k));
                let i = choose|i: int| 0 <= i < a.len() && a[i] == k;
                assert(i > 0);
                assert(ta[i - 1] == k);
            }
        }
        assert forall|k: u64| tb.contains(k) <==> rest.contains(k) by {
            if tb.contains(k) {
                let i = choose|i: int| 0 <= i < tb.len() && tb[i] == k;
                assert(b[i + 1] == k);
                assert(b[0] < b[i + 1]);
                assert(b.contains(k));
            }
            if rest.contains(k) {
                assert(b.contains(k));
                let i = choose|i: int| 0 <= i < b.len() && b[i] == k;
                assert(i > 0);
                assert(tb[i - 1] == k);
            }
        }
        assert(ascending(ta)) by {
            assert forall|i: int, j: int| 0 <= i < j < ta.len() implies ta[i] < ta[j] by {
                assert(a[i + 1] < a[j + 1]);
            }
        }
        assert(ascending(tb)) by {
            assert forall|i: int, j: int| 0 <= i < j < tb.len() implies tb[i] < tb[j] by {
                assert(b[i + 1] < b[j + 1]);
            }
        }
        lemma_enumeration_unique(ta, tb, rest);
        assert(a =~= seq![a[0]] + ta);
        assert(b =~= seq![b[0]] + tb);
    }
}

/// An ordered set holds finitely many ids.
pub proof fn lemma_tree_set_finite(s: &BTreeSet<u64>)
    ensures
        s@.finite(),
{
    broadcast use vstd::seq_lib::seq_to_set_is_finite;

    let keys: Seq<&u64> = s.iter().remaining();
    assert(keys.unref().to_set() == s@);
}

/// The members of `s`, smallest first.
pub fn set_elements(s: &BTreeSet<u64>) -> (v: Vec<u64>)
    ensures
        enumerates(v@, s@),
        v@.len() == s@.len(),
{
    let mut v: Vec<u64> = Vec::new();
    let ghost keys: Seq<&u64> = s.iter().remaining();
    for k in it: s.iter()
        invariant
            it.seq() == keys,
            v.len() == it.index(),
            forall|j: int| 0 <= j < v.len() ==> v@[j] == *keys[j],
    {
        v.push(*k);
    }
    proof {
        broadcast use vstd::laws_cmp::group_laws_cmp;

        assert(v@ =~= keys.unref());
        assert(increasing_seq(keys));
        axiom_increasing_seq_meaning::<&u64>(keys);
        assert forall|i: int, j: int| 0 <= i < j < v.len() implies v[i] < v[j] by {
            assert(OrdSpec::cmp_spec(&keys[i], &keys[j]) is Less);
        }
        assert forall|k: u64| v@.contains(k) <==> s@.contains(k) by {
            assert(v@.to_set().contains(k) <==> v@.contains(k));
        }
    }
    v
}

/// The keys of `m`, smallest first.
pub fn map_keys<V>(m: &BTreeMap<u64, V>) -> (v: Vec<u64>)
    ensures
        enumerates(v@, m@.dom()),
        v@.len() == m@.len(),
{
    let mut v: Vec<u64> = Vec::new();
    let ghost keys: Seq<&u64> = m.keys().remaining();
    for k in it: m.keys()
        invariant
            it.seq() == keys,
            v.len() == it.index(),
            forall|j: int| 0 <= j < v.len() ==> v@[j] == *keys[j],
    {
        v.push(*k);
    }
    proof {
        broadcast use vstd::laws_cmp::group_laws_cmp;

        assert(v@ =~= keys.unref());
        assert(increasing_seq(keys));
        axiom_increasing_seq_meaning::<&u64>(keys);
        assert forall|i: int, j: int| 0 <= i < j < v.len() implies v[i] < v[j] by {
            assert(OrdSpec::cmp_spec(&keys[i], &keys[j]) is Less);
        }
        assert forall|k: u64| v@.contains(k) <==> m@.dom().contains(k) by {
            assert(v@.to_set().contains(k) <==> v@.contains(k));
        }
    }
    v
}

/// The keys of `m`, smallest first.
pub fn map_keys_wide<V>(m: &BTreeMap<u128, V>) -> (v: Vec<u128>)
    ensures
        enumerates_wide(v@, m@.dom()),
        v@.len() == m@.len(),
{
    let mut v: Vec<u128> = Vec::new();
    let ghost keys: Seq<&u128> = m.keys().remaining();
    for k in it: m.keys()
        invariant
            it.seq() == keys,
            v.len() == it.index(),
            forall|j: int| 0 <= j < v.len() ==> v@[j] == *keys[j],
    {
        v.push(*k);
    }
    proof {
        broadcast use vstd::laws_cmp::group_laws_cmp;

        assert(v@ =~= keys.unref());
        assert(increasing_seq(keys));
        axiom_increasing_seq_meaning::<&u128>(keys);
        assert forall|i: int, j: int| 0 <= i < j < v.len() implies v[i] < v[j] by {
            assert(OrdSpec::cmp_spec(&keys[i], &keys[j]) is Less);
        }
        assert forall|k: u128| v@.contains(k) <==> m@.dom().contains(k) by {
            assert(v@.to_set().contains(k) <==> v@.contains(k));
        }
    }
    v
}

/// The members of `s`, smallest first in the lexicographic order.
pub fn pair_elements(s: &BTreeSet<(u64, u64)>) -> (v: Vec<(u64, u64)>)
    ensures
        enumerates_pairs(v@, s@),
        v@.len() == s@.len(),
{
    let mut v: Vec<(u64, u64)> = Vec::new();
    let ghost keys: Seq<&(u64, u64)> = s.iter().remaining();
    for k in it: s.iter()
        invariant
            it.seq() == keys,
            v.len() == it.index(),
            forall|j: int| 0 <= j < v.len() ==> v@[j] == *keys[j],
    {
        v.push(*k);
    }
    proof {
        broadcast use vstd::laws_cmp::group_laws_cmp;

        assert(v@ =~= keys.unref());
        assert(increasing_seq(keys));
        axiom_increasing_seq_meaning::<&(u64, u64)>(keys);
        assert forall|i: int, j: int| 0 <= i < j < v.len() implies pair_lt(v[i], v[j]) by {
            assert(OrdSpec::cmp_spec(&keys[i], &keys[j]) is Less);
        }
        assert forall|k: (u64, u64)| v@.contains(k) <==> s@.contains(k) by {
            assert(v@.to_set().contains(k) <==> v@.contains(k));
        }
    }
    v
}

/// The members of `keys` whose flag in `keep` is set.
pub open spec fn kept(keys: Seq<u64>, keep: Seq<bool>) -> Set<u64> {
    Set::new(|k: u64| exists|j: int| 0 <= j < keys.len() && #[trigger] keys[j] == k && keep[j])
}

/// The ids of `keys` whose flag in `keep` is set, in the order of `keys`.
pub fn select(keys: &Vec<u64>, keep: &Vec<bool>) -> (v: Vec<u64>)
    requires
        ascending(keys@),
        keep@.len() == keys@.len(),
    ensures
        enumerates(v@, kept(keys@, keep@)),
        v@.len() == kept(keys@, keep@).len(),
{
    let mut v: Vec<u64> = Vec::new();
    let mut i: usize = 0;
    while i < keys.len()
        invariant
            i <= keys.len(),
            keep@.len() == keys@.len(),
            ascending(keys@),
            ascending(v@),
            forall|a: int| 0 <= a < v@.len() ==> exists|j: int| 0 <= j < i && keys@[j] == #[trigger] v@[a],
            forall|k: u64|
                v@.contains(k) <==> (exists|j: int| 0 <= j < i && #[trigger] keys@[j] == k && keep@[j]),
        decreases keys.len() - i,
    {
        let id = keys[i];
        if keep[i] {
            let ghost before = v@;
            v.push(id);
            proof {
                assert forall|a: int, b: int| 0 <= a < b < v@.len() implies v@[a] < v@[b] by {
                    if b == v@.len() - 1 {
                        let j = choose|j: int| 0 <= j < i && keys@[j] == before[a];
                        assert(keys@[j] < keys@[i as int]);
                    } else {
                        assert(before[a] < before[b]);
                    }
                }
                assert forall|a: int| 0 <= a < v@.len() implies exists|j: int|
                    0 <= j < i + 1 && keys@[j] == #[trigger] v@[a] by {
                    if a == v@.len() - 1 {
                        assert(keys@[i as int] == v@[a]);
                    } else {
                        let j = choose|j: int| 0 <= j < i && keys@[j] == before[a];
                        assert(keys@[j] == v@[a]);
                    }
                }
                assert forall|k: u64|
                    v@.contains(k) <==> (exists|j: int|
                        0 <= j < i + 1 && #[trigger] keys@[j] == k && keep@[j]) by {
                    if v@.contains(k) {
                        let a = choose|a: int| 0 <= a < v@.len() && v@[a] == k;
                        if a == v@.len() - 1 {
                            assert(keys@[i as int] == k && keep@[i as int]);
                        } else {
                            assert(before.contains(k));
                            let j = choose|j: int| 0 <= j < i && #[trigger] keys@[j] == k && keep@[j];
                            assert(0 <= j < i + 1 && keys@[j] == k && keep@[j]);
                        }
                    }
                    if exists|j: int| 0 <= j < i + 1 && #[trigger] keys@[j] == k && keep@[j] {
                        let j = choose|j: int|
                            0 <= j < i + 1 && #[trigger] keys@[j] == k && keep@[j];
                        if j == i {
                            assert(v@[v@.len() - 1] == k);
                        } else {
                            assert(before.contains(k));
                            let a = choose|a: int| 0 <= a < before.len() && before[a] == k;
                            assert(v@[a] == k);
                        }
                    }
                }
            }
        } else {
            proof {
                assert forall|k: u64|
                    v@.contains(k) <==> (exists|j: int|
                        0 <= j < i + 1 && #[trigger] keys@[j] == k && keep@[j]) by {
                    if v@.contains(k) {
                        let j = choose|j: int| 0 <= j < i && #[trigger] keys@[j] == k && keep@[j];
                        assert(0 <= j < i + 1 && keys@[j] == k && keep@[j]);
                    }
                    if exists|j: int| 0 <= j < i + 1 && #[trigger] keys@[j] == k && keep@[j] {
                        let j = choose|j: int|
                            0 <= j < i + 1 && #[trigger] keys@[j] == k && keep@[j];
                        assert(j != i);
                    }
                }
            }
        }
        i = i + 1;
    }
    proof {
        lemma_enumeration_len(v@, kept(keys@, keep@));
    }
    v
}

/// The largest member of a set that has one.
pub open spec fn max_of(set: Set<u64>) -> u64 {
    choose|x: u64| set.contains(x) && forall|y: u64| set.contains(y) ==> y <= x
}

pub proof fn lemma_max_of(set: Set<u64>, x: u64)
    requires
        set.contains(x),
        forall|y: u64| set.contains(y) ==> y <= x,
    ensures
        max_of(set) == x,
{
    let m = max_of(set);
    assert(set.contains(m) && forall|y: u64| set.contains(y) ==> y <= m);
}

} // verus!
