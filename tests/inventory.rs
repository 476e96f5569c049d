use brew_search::id_set::IdSet;
use brew_search::ingredients::pay;

#[test]
fn pay_applies_the_change_tier_by_tier() {
    assert_eq!(pay(&[-1, 2, 0, 1], &[3, 0, 1, 0]), Some([2, 2, 1, 1]));
}

#[test]
fn pay_rejects_a_negative_tier() {
    assert_eq!(pay(&[0, -1, 0, 0], &[3, 0, 1, 0]), None);
}

#[test]
fn pay_rejects_more_than_capacity() {
    assert_eq!(pay(&[2, 0, 0, 0], &[9, 0, 0, 0]), None);
}

#[test]
fn pay_accepts_exactly_capacity() {
    assert_eq!(pay(&[1, 0, 0, 0], &[9, 0, 0, 0]), Some([10, 0, 0, 0]));
}

#[test]
fn pay_handles_extreme_changes_without_overflow() {
    assert_eq!(pay(&[i32::MAX, 0, 0, 0], &[10, 0, 0, 0]), None);
    assert_eq!(pay(&[i32::MIN, 0, 0, 0], &[10, 0, 0, 0]), None);
}

#[test]
fn id_set_inserts_and_finds() {
    let mut s = IdSet::new();
    assert!(s.is_empty());
    s.insert(4);
    s.insert(7);
    s.insert(4);
    assert!(s.contains(4));
    assert!(s.contains(7));
    assert!(!s.contains(5));
    assert!(!s.is_empty());
    assert_eq!(s.to_vec(), vec![4, 7]);
}

#[test]
fn id_set_duplicate_is_independent() {
    let mut s = IdSet::new();
    s.insert(1);
    let mut d = s.duplicate();
    d.insert(2);
    assert!(d.contains(1));
    assert!(d.contains(2));
    assert!(!s.contains(2));
}
