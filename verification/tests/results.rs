use srch::results::SearchResults;

fn counts(r: &SearchResults) -> (u64, u64, u64, u64) {
    (r.directories_matched(), r.files_matched(), r.objects_scanned(), r.directories_pushed())
}

#[test]
fn new_counters_are_zero() {
    assert_eq!(counts(&SearchResults::new()), (0, 0, 0, 0));
}

#[test]
fn from_counts_keeps_the_values() {
    let r = SearchResults::from_counts(1, 2, 3, 4).unwrap();
    assert_eq!(counts(&r), (1, 2, 3, 4));
    let r = SearchResults::from_counts(0, 0, 0, 9).unwrap();
    assert_eq!(counts(&r), (0, 0, 0, 9));
}

#[test]
fn from_counts_refuses_more_matches_than_scanned() {
    assert!(SearchResults::from_counts(2, 2, 3, 0).is_none());
    assert!(SearchResults::from_counts(1, 0, 0, 0).is_none());
    assert!(SearchResults::from_counts(u64::MAX, 1, u64::MAX, 0).is_none());
    assert!(SearchResults::from_counts(u64::MAX, 0, u64::MAX, 0).is_some());
}

#[test]
fn merge_adds_counter_by_counter() {
    let a = SearchResults::from_counts(1, 2, 5, 3).unwrap();
    let b = SearchResults::from_counts(10, 20, 40, 30).unwrap();
    assert_eq!(counts(&a.merge(&b)), (11, 22, 45, 33));
}

#[test]
fn merge_is_commutative_and_associative() {
    let a = SearchResults::from_counts(1, 2, 5, 3).unwrap();
    let b = SearchResults::from_counts(0, 7, 9, 1).unwrap();
    let c = SearchResults::from_counts(4, 0, 4, 8).unwrap();
    assert_eq!(counts(&a.merge(&b)), counts(&b.merge(&a)));
    assert_eq!(counts(&a.merge(&b).merge(&c)), counts(&a.merge(&b.merge(&c))));
    assert_eq!(counts(&a.merge(&b).merge(&c)), (5, 9, 18, 12));
}

#[test]
fn merge_with_zero_changes_nothing() {
    let a = SearchResults::from_counts(1, 2, 5, 3).unwrap();
    assert_eq!(counts(&a.merge(&SearchResults::new())), (1, 2, 5, 3));
    assert_eq!(counts(&SearchResults::new().merge(&a)), (1, 2, 5, 3));
}

#[test]
fn can_merge_tells_whether_the_sums_fit() {
    let big = SearchResults::from_counts(0, 0, u64::MAX - 1, 0).unwrap();
    let one = SearchResults::from_counts(0, 0, 1, 0).unwrap();
    let two = SearchResults::from_counts(0, 0, 2, 0).unwrap();
    assert!(big.can_merge(&one));
    assert!(!big.can_merge(&two));
    assert_eq!(big.merge(&one).objects_scanned(), u64::MAX);
    let pushed = SearchResults::from_counts(0, 0, 0, u64::MAX).unwrap();
    assert!(!pushed.can_merge(&SearchResults::from_counts(0, 0, 0, 1).unwrap()));
    assert!(pushed.can_merge(&one));
}
