//! Tests for the distributed cache against the in-memory store stand-in.

use pack_cache::kvstore::{FakeStore, ObjectCache, StoreError};
use pack_cache::ContentHash;

fn h(n: u64) -> ContentHash {
    ContentHash::from_words(n, n.wrapping_add(1), n as u32)
}

#[test]
fn distributed_round_trip() {
    let mut cache = ObjectCache::new(FakeStore::new());
    cache.put(10, h(1), 77u64).unwrap();
    assert_eq!(cache.get_hash(10), Some(h(1)));
    assert_eq!(cache.get(10), Ok(Some(77)));
    assert_eq!(cache.get_by_hash(h(1)), Ok(Some(77)));
}

#[test]
fn distributed_miss_is_ok_none() {
    let mut cache = ObjectCache::new(FakeStore::new());
    cache.put(10, h(1), 77u64).unwrap();
    assert_eq!(cache.get(99), Ok(None));
    assert_eq!(cache.get_by_hash(h(5)), Ok(None));
}

#[test]
fn distributed_failure_distinct_from_miss() {
    let mut store = FakeStore::new();
    store.set_fail_reads(true);
    let mut cache = ObjectCache::new(store);
    // Writes still land while only reads fail.
    cache.put(1, h(1), 5u64).unwrap();
    // A transport failure is an error, not a miss ...
    assert_eq!(cache.get_by_hash(h(1)), Err(StoreError::Transport));
    assert_eq!(cache.get(1), Err(StoreError::Transport));
    // ... while an offset that was never written is a local miss that never
    // reaches the failing store.
    assert_eq!(cache.get(99), Ok(None));
}

#[test]
fn distributed_overwrite_last_wins() {
    let mut cache = ObjectCache::new(FakeStore::new());
    cache.put(1, h(1), 10u64).unwrap();
    cache.put(1, h(2), 20u64).unwrap();
    assert_eq!(cache.get_hash(1), Some(h(2)));
    assert_eq!(cache.get(1), Ok(Some(20)));
    // The old hash still resolves in the remote store, which only the store's
    // own policy may evict.
    assert_eq!(cache.get_by_hash(h(1)), Ok(Some(10)));
}
