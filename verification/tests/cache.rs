//! Tests for the bounded in-process cache.

use std::sync::Arc;

use pack_cache::{Cache, ContentHash, ObjectCache};

#[derive(Clone)]
#[allow(dead_code)]
struct Blob {
    id: ContentHash,
    data: Vec<u8>,
}

/// Derives a deterministic content hash from object bytes, standing in for
/// the hashing layer below the cache.
fn hash_of(data: &[u8]) -> ContentHash {
    let mut w0: u64 = 0xcbf29ce484222325;
    for &b in data {
        w0 = w0.wrapping_mul(0x100000001b3) ^ (b as u64);
    }
    let w1 = w0.wrapping_mul(0x9e3779b97f4a7c15);
    ContentHash::from_words(w0, w1, (w0 >> 32) as u32)
}

fn h(n: u64) -> ContentHash {
    ContentHash::from_words(n, n.wrapping_add(1), n as u32)
}

#[test]
fn test_cache() {
    let mut cache = ObjectCache::new(None);

    let data = serde_json::to_vec("sdfsdfsdf").unwrap();
    let h1 = hash_of(&data);
    cache.put(2, h1, Arc::new(Blob { id: h1, data }));

    let data = serde_json::to_vec("a222222222222").unwrap();
    let h1 = hash_of(&data);
    cache.put(3, h1, Arc::new(Blob { id: h1, data }));

    let data = serde_json::to_vec("33333333").unwrap();
    let h1 = hash_of(&data);
    cache.put(4, h1, Arc::new(Blob { id: h1, data }));
}

#[test]
fn round_trip() {
    let mut cache: ObjectCache<u64> = Cache::new(Some(2));
    cache.put(1, h(1), 111);
    assert_eq!(cache.get(1), Some(111));
    assert_eq!(cache.get_by_hash(h(1)), Some(111));
}

#[test]
fn offset_hash_equivalence() {
    let mut cache: ObjectCache<u64> = Cache::new(None);
    cache.put(7, h(9), 5);
    assert_eq!(cache.get_hash(7), Some(h(9)));
}

#[test]
fn eviction_bound() {
    let mut cache: ObjectCache<u64> = Cache::new(Some(3));
    cache.put(1, h(1), 1);
    cache.put(2, h(2), 2);
    cache.put(3, h(3), 3);
    cache.put(4, h(4), 4);
    let mut misses: u32 = 0;
    if cache.get_by_hash(h(1)).is_none() {
        misses += 1;
    }
    if cache.get_by_hash(h(2)).is_none() {
        misses += 1;
    }
    if cache.get_by_hash(h(3)).is_none() {
        misses += 1;
    }
    assert!(misses >= 1);
    assert_eq!(cache.get_by_hash(h(4)), Some(4));
}

#[test]
fn miss_never_panics() {
    let mut cache: ObjectCache<u64> = Cache::new(None);
    assert_eq!(cache.get_hash(42), None);
    assert_eq!(cache.get(42), None);
    assert_eq!(cache.get_by_hash(h(42)), None);
}

#[test]
fn stale_offset_tolerated() {
    let mut cache: ObjectCache<u64> = Cache::new(Some(2));
    cache.put(1, h(1), 1);
    cache.put(2, h(2), 2);
    cache.put(3, h(3), 3);
    // The unbounded offset index may still answer for offset 1 ...
    assert_eq!(cache.get_hash(1), Some(h(1)));
    // ... but resolving the offset is a clean miss, not a stale object.
    assert_eq!(cache.get(1), None);
    assert_eq!(cache.get_by_hash(h(1)), None);
}

#[test]
fn overwrite_last_wins() {
    let mut cache: ObjectCache<u64> = Cache::new(None);
    cache.put(1, h(1), 10);
    cache.put(1, h(2), 20);
    assert_eq!(cache.get_hash(1), Some(h(2)));
    assert_eq!(cache.get(1), Some(20));
}

#[test]
fn end_to_end_capacity_two() {
    let mut cache: ObjectCache<&str> = Cache::new(Some(2));
    cache.put(1, h(1), "A");
    cache.put(2, h(2), "B");
    assert_eq!(cache.get(1), Some("A"));
    cache.put(3, h(3), "C");
    let a_gone = cache.get_by_hash(h(1)).is_none();
    let b_gone = cache.get_by_hash(h(2)).is_none();
    assert!(a_gone != b_gone);
    assert_eq!(cache.get_by_hash(h(3)), Some("C"));
}

#[test]
fn capacity_hint_and_default() {
    let with_hint: ObjectCache<u64> = Cache::new(Some(5));
    assert_eq!(with_hint.capacity(), 5);
    let without_hint: ObjectCache<u64> = Cache::new(None);
    assert_eq!(without_hint.capacity(), pack_cache::DEFAULT_CAPACITY);
    let defaulted: ObjectCache<u64> = ObjectCache::default();
    assert_eq!(defaulted.capacity(), pack_cache::DEFAULT_CAPACITY);
}

#[test]
fn recency_is_refreshed_by_reads() {
    let mut cache: ObjectCache<u64> = Cache::new(Some(2));
    cache.put(1, h(1), 1);
    cache.put(2, h(2), 2);
    // Touch the older entry so the other one is least recently used.
    assert_eq!(cache.get_by_hash(h(1)), Some(1));
    cache.put(3, h(3), 3);
    assert_eq!(cache.get_by_hash(h(1)), Some(1));
    assert_eq!(cache.get_by_hash(h(2)), None);
}
