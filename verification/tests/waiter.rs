use state_lock::WaiterTable;

#[test]
fn fifo_within_one_name() {
    let mut t = WaiterTable::new();
    t.enqueue("B", 1);
    t.enqueue("B", 2);
    t.enqueue("B", 3);
    let ids = t.take("B").unwrap();
    assert_eq!(ids, vec![1, 2, 3]);
    assert!(t.is_empty());
}

#[test]
fn first_waiter_fixes_the_key_order() {
    let mut t = WaiterTable::new();
    t.enqueue("Y", 10);
    t.enqueue("Z", 20);
    t.enqueue("Y", 11);
    let (name, ids) = t.take_front().unwrap();
    assert_eq!(name, "Y");
    assert_eq!(ids, vec![10, 11]);
    let (name, ids) = t.take_front().unwrap();
    assert_eq!(name, "Z");
    assert_eq!(ids, vec![20]);
    assert!(t.take_front().is_none());
}

#[test]
fn take_keeps_the_order_of_other_keys() {
    let mut t = WaiterTable::new();
    t.enqueue("A", 1);
    t.enqueue("B", 2);
    t.enqueue("C", 3);
    let ids = t.take("B").unwrap();
    assert_eq!(ids, vec![2]);
    assert!(t.take("B").is_none());
    let (name, _) = t.take_front().unwrap();
    assert_eq!(name, "A");
    let (name, _) = t.take_front().unwrap();
    assert_eq!(name, "C");
}

#[test]
fn contains_tracks_keys_and_ids() {
    let mut t = WaiterTable::new();
    assert!(!t.contains_key("A"));
    assert!(!t.contains_id(5));
    t.enqueue("A", 5);
    assert!(t.contains_key("A"));
    assert!(t.contains_id(5));
    assert!(!t.contains_id(6));
    assert_eq!(t.len(), 1);
    t.take("A").unwrap();
    assert!(!t.contains_key("A"));
    assert!(!t.contains_id(5));
}
