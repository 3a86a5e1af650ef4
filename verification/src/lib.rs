//! Dual-indexed object resolution cache for Git pack decoding.
//!
//! While a pack stream is decoded, every decoded object is addressable two
//! ways: by its byte offset inside the stream and by its content hash. This
//! crate offers one capability contract over both addresses and two backends
//! behind it: a bounded in-process cache with recency eviction, and a
//! distributed cache whose object storage lives in a remote key-value store.

mod cache;
mod hash;
pub mod kvstore;
mod lru_index;
mod table;

pub use cache::{Cache, ObjectCache, OffsetHashKey, DEFAULT_CAPACITY};
pub use cache::{
    lemma_eviction_bound, lemma_miss, lemma_offset_hash_equivalence, lemma_overwrite,
    lemma_round_trip, lemma_stale_offset,
};
pub use hash::ContentHash;
