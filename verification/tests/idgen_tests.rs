use community_store::idgen::{mix_word, IdGenerator};

#[test]
fn two_draws_differ() {
    let mut g = IdGenerator::new();
    let a = g.next_id();
    let b = g.next_id();
    assert_ne!(a, b);
}

#[test]
fn ids_follow_the_counter() {
    let mut g = IdGenerator::new();
    assert_eq!(g.issued_count(), 0);
    assert_eq!(g.next_id(), 18397679291040277274);
    assert_eq!(g.next_id(), 18348614512665970229);
    assert_eq!(g.next_id(), 18299549734290172384);
    assert_eq!(g.issued_count(), 3);
}

#[test]
fn mix_of_known_words() {
    assert_eq!(mix_word(0), 0);
    assert_eq!(mix_word(1), 0xff51afd71204231a);
    assert_eq!(mix_word(4), 0xfd46bf5f48108c6b);
}

#[test]
fn a_thousand_draws_are_distinct() {
    let mut g = IdGenerator::new();
    let mut seen = std::collections::BTreeSet::new();
    for _ in 0..1000 {
        assert!(seen.insert(g.next_id()));
    }
}

#[test]
fn a_resumed_generator_goes_on_where_it_stopped() {
    let mut g = IdGenerator::new();
    g.next_id();
    g.next_id();
    let mut h = IdGenerator::resume(g.issued_count());
    assert_eq!(h.next_id(), g.next_id());
}

#[test]
fn an_exhausted_generator_says_so() {
    let g = IdGenerator::resume(u64::MAX);
    assert!(!g.can_issue());
    let h = IdGenerator::resume(u64::MAX - 1);
    assert!(h.can_issue());
}
