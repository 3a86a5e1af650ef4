//! Trusted view of the `lru` crate's bounded, recency-evicting cache.
//!
//! The bounded object cache keeps its two evictable indices in
//! `lru::LruCache`. Verus does not read that crate, so this module declares
//! the type, names what each index holds, and gives each call the contract
//! that the crate's documentation states: `put` and `push` insert a pair and
//! evict the least-recently-used entry once the configured capacity is
//! reached, and `get` answers from the current contents while marking the
//! entry most recently used.

use vstd::prelude::*;

use crate::cache::OffsetHashKey;
use crate::hash::ContentHash;

verus! {

/// The bounded hash index: content hash to composite key.
pub type HashIndex = lru::LruCache<ContentHash, OffsetHashKey, std::hash::RandomState>;

/// The bounded recency index over composite keys.
pub type ObjectIndex = lru::LruCache<OffsetHashKey, (), std::hash::RandomState>;

#[verifier::external_type_specification]
#[verifier::external_body]
#[verifier::reject_recursive_types(K)]
#[verifier::reject_recursive_types(V)]
#[verifier::reject_recursive_types(S)]
pub struct ExLruCache<K, V, S>(lru::LruCache<K, V, S>);

/// The entries currently held by the hash index.
pub uninterp spec fn hash_index_entries(c: HashIndex) -> Map<ContentHash, OffsetHashKey>;

/// The empty hash index contents.
pub open spec fn no_entries() -> Map<ContentHash, OffsetHashKey> {
    Map::empty()
}

/// The capacity the hash index was created with.
pub uninterp spec fn hash_index_cap(c: HashIndex) -> nat;

/// The keys currently held by the object recency index.
pub uninterp spec fn object_index_keys(c: ObjectIndex) -> Set<OffsetHashKey>;

/// The capacity the object recency index was created with.
pub uninterp spec fn object_index_cap(c: ObjectIndex) -> nat;

/// Relies on lru::LruCache::with_hasher: an empty cache bounded by the given capacity.
#[verifier::external_body]
pub(crate) fn hash_index_new(cap: usize) -> (r: HashIndex)
    requires
        1 <= cap,
    ensures
        hash_index_entries(r) == no_entries(),
        hash_index_cap(r) == cap,
{
    lru::LruCache::with_hasher(
        std::num::NonZeroUsize::new(cap).unwrap(),
        std::hash::RandomState::new(),
    )
}

/// Relies on lru::LruCache::put: it updates the value of a key already
/// present, and otherwise inserts the pair, first evicting the
/// least-recently-used entry if the cache is at capacity.
#[verifier::external_body]
pub(crate) fn hash_index_put(c: &mut HashIndex, h: ContentHash, k: OffsetHashKey)
    ensures
        hash_index_cap(*final(c)) == hash_index_cap(*old(c)),
        hash_index_entries(*old(c)).dom().contains(h) ==> hash_index_entries(*final(c))
            == hash_index_entries(*old(c)).insert(h, k),
        !hash_index_entries(*old(c)).dom().contains(h) && hash_index_entries(*old(c)).dom().len()
            < hash_index_cap(*old(c)) ==> hash_index_entries(*final(c)) == hash_index_entries(
            *old(c),
        ).insert(h, k),
        !hash_index_entries(*old(c)).dom().contains(h) && hash_index_entries(*old(c)).dom().len()
            >= hash_index_cap(*old(c)) ==> exists|e: ContentHash|
            hash_index_entries(*old(c)).dom().contains(e) && e != h && hash_index_entries(
                *final(c),
            ) == hash_index_entries(*old(c)).remove(e).insert(h, k),
{
    c.put(h, k);
}

/// Relies on lru::LruCache::get: it returns the entry under the key, if any,
/// marking it most recently used; the contents do not change.
#[verifier::external_body]
pub(crate) fn hash_index_get(c: &mut HashIndex, h: &ContentHash) -> (r: Option<OffsetHashKey>)
    ensures
        hash_index_cap(*final(c)) == hash_index_cap(*old(c)),
        hash_index_entries(*final(c)) == hash_index_entries(*old(c)),
        r == (if hash_index_entries(*old(c)).dom().contains(*h) {
            Some(hash_index_entries(*old(c))[*h])
        } else {
            None::<OffsetHashKey>
        }),
{
    c.get(h).copied()
}

/// Relies on lru::LruCache::with_hasher: an empty cache bounded by the given capacity.
#[verifier::external_body]
pub(crate) fn object_index_new(cap: usize) -> (r: ObjectIndex)
    requires
        1 <= cap,
    ensures
        object_index_keys(r) == Set::<OffsetHashKey>::empty(),
        object_index_cap(r) == cap,
{
    lru::LruCache::with_hasher(
        std::num::NonZeroUsize::new(cap).unwrap(),
        std::hash::RandomState::new(),
    )
}

/// Relies on lru::LruCache::push: it keeps a key already present (returning
/// that key), and otherwise inserts it, evicting and returning the
/// least-recently-used key if the cache is at capacity.
#[verifier::external_body]
pub(crate) fn object_index_push(c: &mut ObjectIndex, k: OffsetHashKey) -> (r: Option<OffsetHashKey>)
    ensures
        object_index_cap(*final(c)) == object_index_cap(*old(c)),
        object_index_keys(*old(c)).contains(k) ==> object_index_keys(*final(c))
            == object_index_keys(*old(c)) && r == Some(k),
        !object_index_keys(*old(c)).contains(k) && object_index_keys(*old(c)).len()
            < object_index_cap(*old(c)) ==> object_index_keys(*final(c)) == object_index_keys(
            *old(c),
        ).insert(k) && r is None,
        !object_index_keys(*old(c)).contains(k) && object_index_keys(*old(c)).len()
            >= object_index_cap(*old(c)) ==> (r matches Some(e) && e != k && object_index_keys(
            *old(c),
        ).contains(e) && object_index_keys(*final(c)) == object_index_keys(*old(c)).remove(
            e,
        ).insert(k)),
{
    c.push(k, ()).map(|p| p.0)
}

/// Relies on lru::LruCache::get: it reports whether the key is present,
/// marking it most recently used; the contents do not change.
#[verifier::external_body]
pub(crate) fn object_index_touch(c: &mut ObjectIndex, k: &OffsetHashKey) -> (r: bool)
    ensures
        object_index_cap(*final(c)) == object_index_cap(*old(c)),
        object_index_keys(*final(c)) == object_index_keys(*old(c)),
        r == object_index_keys(*old(c)).contains(*k),
{
    c.get(k).is_some()
}

} // verus!
