//! Listing by cursor and limit.

use vstd::prelude::*;

verus! {

/// The first place at or after `from` where `all` holds `cursor`; the
/// length of `all` when there is none.
pub open spec fn position(all: Seq<u128>, cursor: u128, from: nat) -> nat
    decreases all.len() - from,
{
    if from >= all.len() {
        all.len()
    } else if all[from as int] == cursor {
        from
    } else {
        position(all, cursor, from + 1)
    }
}

/// Where a page starts: at the front without a cursor, at the cursor when
/// it occurs, and at the end, so that the page is empty, when it does not.
pub open spec fn page_start(all: Seq<u128>, prev: Option<u128>) -> nat {
    match prev {
        None => 0,
        Some(cursor) => position(all, cursor, 0),
    }
}

/// Where a page of at most `take` ids ends.
pub open spec fn page_end(all: Seq<u128>, prev: Option<u128>, take: nat) -> nat {
    if page_start(all, prev) + take <= all.len() {
        page_start(all, prev) + take
    } else {
        all.len()
    }
}

/// The page of at most `take` ids of `all` that `prev` points to.
pub open spec fn page(all: Seq<u128>, prev: Option<u128>, take: nat) -> Seq<u128> {
    all.subrange(page_start(all, prev) as int, page_end(all, prev, take) as int)
}

pub proof fn lemma_position_bounds(all: Seq<u128>, cursor: u128, from: nat)
    requires
        from <= all.len(),
    ensures
        from <= position(all, cursor, from) <= all.len(),
        position(all, cursor, from) < all.len() ==> all[position(all, cursor, from) as int]
            == cursor,
        forall|i: int| from <= i < position(all, cursor, from) ==> all[i] != cursor,
    decreases all.len() - from,
{
    if from < all.len() && all[from as int] != cursor {
        lemma_position_bounds(all, cursor, from + 1);
    }
}

/// A cursor that does not occur gives the empty page.
pub proof fn lemma_unknown_cursor_gives_empty_page(all: Seq<u128>, cursor: u128, take: nat)
    requires
        !all.contains(cursor),
    ensures
        page(all, Some(cursor), take) == Seq::<u128>::empty(),
{
    lemma_position_bounds(all, cursor, 0);
    if position(all, cursor, 0) < all.len() {
        assert(all.contains(cursor));
    }
    assert(page(all, Some(cursor), take) =~= Seq::<u128>::empty());
}

/// The page of at most `take` ids of `all` that `prev` points to.
pub fn paginate(all: &Vec<u128>, prev: Option<u128>, take: u128) -> (v: Vec<u128>)
    ensures
        v@ == page(all@, prev, take as nat),
{
    let n = all.len();
    let mut start: usize = 0;
    match prev {
        Some(cursor) => {
            while start < n && all[start] != cursor
                invariant
                    start <= n,
                    n == all@.len(),
                    position(all@, cursor, 0) == position(all@, cursor, start as nat),
                decreases n - start,
            {
                start = start + 1;
            }
        },
        None => {},
    }
    let left = n - start;
    let end: usize = if take <= left as u128 {
        start + take as usize
    } else {
        n
    };
    let mut v: Vec<u128> = Vec::new();
    let mut i: usize = start;
    while i < end
        invariant
            start <= i <= end,
            end <= n,
            n == all@.len(),
            v@ == all@.subrange(start as int, i as int),
        decreases end - i,
    {
        v.push(all[i]);
        assert(all@.subrange(start as int, i + 1) =~= all@.subrange(start as int, i as int).push(
            all@[i as int],
        ));
        i = i + 1;
    }
    v
}

} // verus!
