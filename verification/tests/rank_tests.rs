use community_store::rank::{rank_placed, take_leading, RankIndex, ValueEntry};

fn pairs(list: &[ValueEntry<u64, u64>]) -> Vec<(u64, u64)> {
    list.iter().map(|e| (e.0, e.1)).collect()
}

#[test]
fn an_entry_is_its_key_and_value() {
    let e = ValueEntry::new(7u64, 3u64);
    assert_eq!(e.get(), (&7, &3));
}

#[test]
fn a_ranking_goes_by_count_then_by_id() {
    let mut index = RankIndex::new();
    index.refresh(1, 30, 2);
    index.refresh(1, 10, 2);
    index.refresh(1, 20, 5);
    index.refresh(1, 40, 1);
    index.refresh(2, 50, 9);
    assert_eq!(pairs(&index.ranking(1)), vec![(20, 5), (10, 2), (30, 2), (40, 1)]);
    assert_eq!(pairs(&index.top(1, 2)), vec![(20, 5), (10, 2)]);
    assert_eq!(pairs(&index.top(1, 10)), vec![(20, 5), (10, 2), (30, 2), (40, 1)]);
    assert_eq!(pairs(&index.top(1, 0)), Vec::new());
    assert_eq!(pairs(&index.top(2, 10)), vec![(50, 9)]);
    assert_eq!(pairs(&index.top(3, 10)), Vec::new());
}

#[test]
fn a_refresh_replaces_the_stale_entry() {
    let mut index = RankIndex::new();
    index.refresh(1, 10, 3);
    index.refresh(1, 20, 1);
    assert_eq!(pairs(&index.ranking(1)), vec![(10, 3), (20, 1)]);
    index.refresh(1, 10, 1);
    index.refresh(1, 20, 2);
    assert_eq!(pairs(&index.ranking(1)), vec![(20, 2), (10, 1)]);
    assert_eq!(index.count_of(1, 10), Some(1));
    assert_eq!(index.count_of(1, 30), None);
}

#[test]
fn a_count_of_zero_removes_the_entry() {
    let mut index = RankIndex::new();
    index.refresh(1, 10, 3);
    index.refresh(1, 10, 0);
    assert_eq!(pairs(&index.ranking(1)), Vec::new());
    assert_eq!(index.count_of(1, 10), None);
    index.refresh(1, 20, 0);
    assert_eq!(pairs(&index.ranking(1)), Vec::new());
}

#[test]
fn the_index_keeps_more_than_a_query_returns() {
    let mut index = RankIndex::new();
    for item in 1..=12 {
        index.refresh(1, item, 100 - item);
    }
    assert_eq!(index.top(1, 10).len(), 10);
    assert_eq!(index.ranking(1).len(), 12);
    index.refresh(1, 12, 1000);
    assert_eq!(pairs(&index.top(1, 1)), vec![(12, 1000)]);
}

#[test]
fn the_largest_count_ranks_first() {
    let mut index = RankIndex::new();
    index.refresh(1, 10, u64::MAX);
    index.refresh(1, 20, 1);
    assert_eq!(pairs(&index.ranking(1)), vec![(10, u64::MAX), (20, 1)]);
}

#[test]
fn places_are_counts_turned_round() {
    let mut placed = std::collections::BTreeSet::new();
    placed.insert((u64::MAX - 5, 20));
    placed.insert((u64::MAX, 30));
    placed.insert((u64::MAX - 5, 10));
    let ranked = rank_placed(&placed);
    assert_eq!(pairs(&ranked), vec![(10, 5), (20, 5), (30, 0)]);
    assert_eq!(pairs(&take_leading(&ranked, 2)), vec![(10, 5), (20, 5)]);
    assert_eq!(pairs(&take_leading(&ranked, 7)), vec![(10, 5), (20, 5), (30, 0)]);
}
