use community_store::relation::Relation;

#[test]
fn insert_is_seen_from_both_sides() {
    let mut r = Relation::new();
    r.insert(1, 10);
    assert!(r.contains(1, 10));
    assert_eq!(r.forward(1), vec![10]);
    assert_eq!(r.backward(10), vec![1]);
    assert_eq!(r.forward_keys(), vec![1]);
    assert_eq!(r.backward_keys(), vec![10]);
}

#[test]
fn insert_twice_is_insert_once() {
    let mut r = Relation::new();
    r.insert(1, 10);
    r.insert(1, 10);
    assert_eq!(r.forward(1), vec![10]);
    assert_eq!(r.forward_len(1), 1);
    assert_eq!(r.backward_len(10), 1);
}

#[test]
fn forward_and_backward_are_ordered() {
    let mut r = Relation::new();
    r.insert(5, 30);
    r.insert(5, 10);
    r.insert(5, 20);
    r.insert(2, 20);
    r.insert(9, 20);
    assert_eq!(r.forward(5), vec![10, 20, 30]);
    assert_eq!(r.backward(20), vec![2, 5, 9]);
    assert_eq!(r.first_backward(20), Some(2));
    assert_eq!(r.last_backward(20), Some(9));
    assert_eq!(r.first_forward(5), Some(10));
    assert_eq!(r.forward_keys(), vec![2, 5, 9]);
    assert_eq!(r.backward_keys(), vec![10, 20, 30]);
}

#[test]
fn absent_ids_give_empty_answers() {
    let r = Relation::new();
    assert_eq!(r.forward(1), Vec::<u64>::new());
    assert_eq!(r.backward(1), Vec::<u64>::new());
    assert_eq!(r.first_backward(1), None);
    assert_eq!(r.last_backward(1), None);
    assert_eq!(r.first_forward(1), None);
    assert!(!r.contains(1, 1));
    assert!(!r.has_forward(1));
    assert!(!r.has_backward(1));
    assert_eq!(r.forward_len(1), 0);
}

#[test]
fn remove_drops_the_edge_and_the_empty_buckets() {
    let mut r = Relation::new();
    r.insert(1, 10);
    r.insert(1, 11);
    r.insert(2, 10);
    r.remove(1, 10);
    assert!(!r.contains(1, 10));
    assert_eq!(r.forward(1), vec![11]);
    assert_eq!(r.backward(10), vec![2]);
    r.remove(1, 11);
    assert_eq!(r.forward(1), Vec::<u64>::new());
    assert!(!r.has_forward(1));
    assert!(!r.has_backward(11));
    assert_eq!(r.forward_keys(), vec![2]);
    assert_eq!(r.backward_keys(), vec![10]);
}

#[test]
fn remove_of_an_absent_edge_changes_nothing() {
    let mut r = Relation::new();
    r.insert(1, 10);
    r.remove(1, 11);
    r.remove(2, 10);
    r.remove(7, 7);
    assert_eq!(r.forward(1), vec![10]);
    assert_eq!(r.backward(10), vec![1]);
    assert_eq!(r.forward_keys(), vec![1]);
    assert_eq!(r.backward_keys(), vec![10]);
}
