use rift::store::HashStore;

#[test]
fn test_store_round_trip() {
    let mut store = HashStore::new();
    let key = vec![1u8, 2, 3];
    let payload = vec![9u8, 8];

    assert!(store.get(&key).is_none());
    assert!(store.set(key.clone(), payload.clone(), 60_000_000_000).is_none());
    assert_eq!(store.get(&key), Some(payload.clone()));

    // Overwriting hands back the old payload.
    let old = store.set(key.clone(), vec![7u8], 60_000_000_000);
    assert_eq!(old, Some(payload));
    assert_eq!(store.get(&key), Some(vec![7u8]));

    assert_eq!(store.delete(&key), Some(vec![7u8]));
    assert!(store.get(&key).is_none());
    assert!(store.delete(&key).is_none());
}

#[test]
fn test_store_ttl_eviction() {
    let mut store = HashStore::new();
    let key = vec![5u8];

    // Store at reading 100 with a TTL of 10.
    assert!(store.insert_at(key.clone(), vec![1u8], 10, 100).is_none());

    // Live before the deadline: the payload comes back and stays.
    assert_eq!(store.retrieve_at(&key, 109), Some(vec![1u8]));
    assert_eq!(store.retrieve_at(&key, 109), Some(vec![1u8]));

    // At the deadline the entry is evicted, handing its payload back one
    // last time.
    assert_eq!(store.retrieve_at(&key, 110), Some(vec![1u8]));
    assert!(store.retrieve_at(&key, 110).is_none());
}

#[test]
fn test_store_keys_are_independent() {
    let mut store = HashStore::default();
    store.set(vec![1u8], vec![10u8], 60_000_000_000);
    store.set(vec![2u8], vec![20u8], 60_000_000_000);
    assert_eq!(store.get(&vec![1u8]), Some(vec![10u8]));
    assert_eq!(store.get(&vec![2u8]), Some(vec![20u8]));
    store.delete(&vec![1u8]);
    assert_eq!(store.get(&vec![2u8]), Some(vec![20u8]));
}
