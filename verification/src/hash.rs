//! The content hash identifying a decoded object.

use vstd::prelude::*;

verus! {

/// A fixed-width (160-bit) content hash, held as three machine words.
///
/// The hash of an object is produced by the hashing layer below this crate;
/// here it is only an immutable identifier compared bitwise.
#[derive(Clone, Copy, PartialEq, Eq, Hash, Debug, Structural)]
pub struct ContentHash {
    pub w0: u64,
    pub w1: u64,
    pub w2: u32,
}

impl ContentHash {
    /// Builds a hash from its three words.
    pub fn from_words(w0: u64, w1: u64, w2: u32) -> (r: ContentHash)
        ensures
            r == (ContentHash { w0, w1, w2 }),
    {
        ContentHash { w0, w1, w2 }
    }
}

} // verus!
