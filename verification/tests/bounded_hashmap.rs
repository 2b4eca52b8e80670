use conmonrs::bounded_hashmap::BoundedHashMap;

#[test]
fn bounded_hashmap_test() {
    // One hour, in milliseconds.
    let mut sut: BoundedHashMap<u32> = BoundedHashMap::with_limits(2, 60 * 60 * 1000);
    let now = 0u64;

    assert_eq!(sut.len(), 0);

    // Insert first item should be fine
    assert!(sut.insert_at(0, 0, now).is_none());
    assert_eq!(sut.len(), 1);

    // Insert second item should be fine, removal should work as well
    assert!(sut.insert_at(1, 0, now).is_none());
    assert_eq!(sut.len(), 2);
    assert!(sut.remove_at(1, now).is_some());
    assert_eq!(sut.len(), 1);
    assert!(sut.insert_at(1, 0, now).is_none());

    // Insert third item should evict LRU (item 0)
    let evicted = sut.insert_at(2, 0, now);
    assert!(evicted.is_some());
    assert_eq!(evicted.unwrap(), 0);
    assert_eq!(sut.len(), 2);
    assert!(sut.remove_at(0, now).is_none());
    assert!(sut.remove_at(1, now).is_some());
    assert!(sut.remove_at(2, now).is_some());

    // Re-insert to test LRU ordering
    assert!(sut.insert_at(1, 0, now).is_none());
    assert!(sut.insert_at(2, 0, now).is_none());
    // Insert 3 should evict 1 (LRU)
    let evicted = sut.insert_at(3, 0, now);
    assert!(evicted.is_some());
    assert_eq!(evicted.unwrap(), 0);
    assert_eq!(sut.len(), 2);
    assert!(sut.remove_at(1, now).is_none());
    assert!(sut.remove_at(2, now).is_some());
    assert!(sut.remove_at(3, now).is_some());

    // With a max age of 100 ms, all elements time out.
    let mut sut: BoundedHashMap<u32> = BoundedHashMap::with_limits(2, 100);
    assert!(sut.insert_at(0, 0, now).is_none());

    // 200 ms later, a new element triggers the cleanup of expired items
    assert!(sut.insert_at(1, 0, now + 200).is_none());
    // Item 0 expired and was removed
    assert!(sut.remove_at(0, now + 200).is_none());

    // The last element times out as well
    assert!(sut.remove_at(1, now + 400).is_none());
}

#[test]
fn bounded_hashmap_insert_then_remove_gives_value_back() {
    let mut sut: BoundedHashMap<&str> = BoundedHashMap::with_limits(3, 1000);
    assert!(sut.insert_at(7, "seven", 50).is_none());
    assert_eq!(sut.remove_at(7, 50), Some("seven"));
    assert!(sut.is_empty());
}

#[test]
fn bounded_hashmap_replacing_hands_back_old_value() {
    let mut sut: BoundedHashMap<u32> = BoundedHashMap::with_limits(2, 1000);
    assert!(sut.insert_at(1, 10, 0).is_none());
    assert_eq!(sut.insert_at(1, 11, 0), Some(10));
    assert_eq!(sut.len(), 1);
    assert_eq!(sut.remove_at(1, 0), Some(11));
}

#[test]
fn bounded_hashmap_expiry_boundary() {
    let mut sut: BoundedHashMap<u32> = BoundedHashMap::with_limits(2, 100);
    assert!(sut.insert_at(1, 1, 0).is_none());
    // Exactly the maximum age has not expired yet.
    assert_eq!(sut.remove_at(1, 100), Some(1));
    assert!(sut.insert_at(2, 2, 0).is_none());
    assert!(sut.remove_at(2, 101).is_none());
}

#[test]
fn bounded_hashmap_default_limits() {
    let mut sut: BoundedHashMap<u32> = BoundedHashMap::new();
    for k in 0..30u128 {
        sut.insert(k, 0);
    }
    assert_eq!(sut.len(), 25);
}
