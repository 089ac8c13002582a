use sysmon::{BoundedHistory, ConfigError};

#[test]
fn zero_capacity_is_refused() {
    let r: Result<BoundedHistory<u64>, ConfigError> = BoundedHistory::new(0);
    assert!(matches!(r, Err(ConfigError::ZeroCapacity)));
}

#[test]
fn history_below_capacity_keeps_everything() {
    let mut h: BoundedHistory<u64> = BoundedHistory::new(4).unwrap();
    assert_eq!(h.entries(), Vec::<u64>::new());
    assert_eq!(h.newest(), None);
    h.append(7);
    h.append(8);
    assert_eq!(h.entries(), vec![7, 8]);
    assert_eq!(h.len(), 2);
    assert_eq!(h.newest(), Some(8));
}

#[test]
fn history_keeps_latest_capacity_items_in_order() {
    let mut h: BoundedHistory<u64> = BoundedHistory::new(3).unwrap();
    for x in 1..=10u64 {
        h.append(x);
        assert!(h.len() <= h.capacity());
    }
    assert_eq!(h.entries(), vec![8, 9, 10]);
    assert_eq!(h.newest(), Some(10));
}

#[test]
fn history_of_one_keeps_only_newest() {
    let mut h: BoundedHistory<u64> = BoundedHistory::new(1).unwrap();
    h.append(1);
    h.append(2);
    assert_eq!(h.entries(), vec![2]);
    assert_eq!(h.len(), 1);
}

#[test]
fn history_wraps_many_times() {
    let mut h: BoundedHistory<u64> = BoundedHistory::new(5).unwrap();
    for x in 0..23u64 {
        h.append(x);
    }
    assert_eq!(h.entries(), vec![18, 19, 20, 21, 22]);
}
