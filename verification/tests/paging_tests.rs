use community_store::paging::paginate;

#[test]
fn a_page_without_cursor_starts_at_the_front() {
    let all = vec![1u128, 2, 3, 4, 5];
    assert_eq!(paginate(&all, None, 2), vec![1, 2]);
    assert_eq!(paginate(&all, None, 5), vec![1, 2, 3, 4, 5]);
    assert_eq!(paginate(&all, None, 9), vec![1, 2, 3, 4, 5]);
    assert_eq!(paginate(&all, None, 0), Vec::<u128>::new());
}

#[test]
fn a_page_with_cursor_starts_at_the_cursor() {
    let all = vec![1u128, 2, 3, 4, 5];
    assert_eq!(paginate(&all, Some(3), 2), vec![3, 4]);
    assert_eq!(paginate(&all, Some(5), 2), vec![5]);
    assert_eq!(paginate(&all, Some(1), u128::MAX), vec![1, 2, 3, 4, 5]);
}

#[test]
fn an_unknown_cursor_gives_the_empty_page() {
    let all = vec![1u128, 2, 3];
    assert_eq!(paginate(&all, Some(7), 2), Vec::<u128>::new());
    assert_eq!(paginate(&Vec::new(), Some(7), 2), Vec::<u128>::new());
    assert_eq!(paginate(&Vec::new(), None, 2), Vec::<u128>::new());
}
