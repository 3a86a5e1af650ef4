//! The distributed cache: the same lookup surface as the bounded cache, with
//! object storage delegated to a remote key-value store.
//!
//! The offset index stays local and unbounded, so `get_hash` never touches
//! the network. Everything keyed by content hash lives in the remote store,
//! whose own eviction policy is opaque here: the client's view of it may
//! shrink at any call. A transport failure is surfaced as an error, never
//! folded into a miss.

use std::collections::HashMap;

use vstd::prelude::*;

use crate::hash::ContentHash;
use crate::table::{
    distinct_keys, has_key, lemma_map_of_characterization, lemma_map_of_push,
    lemma_map_of_swap_remove, map_of,
};

verus! {

broadcast use vstd::std_specs::hash::group_hash_axioms;

/// A failure while talking to the remote store. Distinguishable from a miss
/// by construction: misses are `Ok(None)`.
#[derive(Clone, Copy, PartialEq, Eq, Debug, Structural)]
pub enum StoreError {
    /// The transport to the remote store failed.
    Transport,
    /// A payload could not be encoded or decoded for the wire.
    Serialization,
}

/// The remote key-value client the distributed cache delegates to.
///
/// `contents` is what this client currently knows the store to hold. Since
/// the store evicts on its own schedule, any call may reveal that entries
/// are gone, so the view may shrink; a successful write is visible
/// afterwards; a read answers consistently with the view it leaves behind.
/// Nothing is promised after a failed write.
pub trait RemoteStore: Sized {
    type Obj: Clone;

    /// What this client currently knows the remote store to hold. A client
    /// implemented outside the proofs, such as a network-backed one, may
    /// leave the default in place: nothing is ever concluded from it there.
    open spec fn contents(&self) -> Map<ContentHash, Self::Obj> {
        Map::empty()
    }

    /// Client-side well-formedness, kept by every call.
    open spec fn inv(&self) -> bool {
        true
    }

    /// Stores a value under a hash; the last completed write wins.
    fn set(&mut self, key: ContentHash, val: Self::Obj) -> (r: Result<(), StoreError>)
        requires
            old(self).inv(),
        ensures
            final(self).inv(),
            r matches Ok(_) ==> final(self).contents().submap_of(
                old(self).contents().insert(key, val),
            ) && final(self).contents().contains_pair(key, val),
    ;

    /// Fetches the value under a hash, decoding a fresh copy.
    fn get(&mut self, key: ContentHash) -> (r: Result<Option<Self::Obj>, StoreError>)
        requires
            old(self).inv(),
        ensures
            final(self).inv(),
            final(self).contents().submap_of(old(self).contents()),
            r matches Ok(Some(v)) ==> final(self).contents().dom().contains(key)
                && cloned(final(self).contents()[key], v),
            r matches Ok(None) ==> !final(self).contents().dom().contains(key),
    ;
}

/// Finds the position of a hash in the fake store's table.
fn find_hash<T>(v: &Vec<(ContentHash, T)>, k: ContentHash) -> (r: Option<usize>)
    ensures
        match r {
            Some(i) => i < v.len() && v@[i as int].0 == k,
            None => !has_key(v@, k),
        },
{
    let mut i: usize = 0;
    while i < v.len()
        invariant
            i <= v.len(),
            forall|j: int| 0 <= j < i ==> (#[trigger] v@[j]).0 != k,
        decreases v.len() - i,
    {
        if v[i].0 == k {
            return Some(i);
        }
        i = i + 1;
    }
    None
}

/// An in-process stand-in for the remote store: exact map semantics, plus a
/// switch that makes reads fail the way a lost connection would.
pub struct FakeStore<T> {
    entries: Vec<(ContentHash, T)>,
    fail_reads: bool,
}

impl<T> FakeStore<T> {
    /// The stored entries as a map.
    pub closed spec fn entry_map(&self) -> Map<ContentHash, T> {
        map_of(self.entries@)
    }

    /// Whether reads currently fail.
    pub closed spec fn failing(&self) -> bool {
        self.fail_reads
    }

    /// One entry per hash.
    pub closed spec fn wf(&self) -> bool {
        distinct_keys(self.entries@)
    }

    /// An empty store whose reads succeed.
    pub fn new() -> (r: FakeStore<T>)
        ensures
            r.wf(),
            r.entry_map() == Map::<ContentHash, T>::empty(),
            !r.failing(),
    {
        let r = FakeStore { entries: Vec::new(), fail_reads: false };
        proof {
            assert(r.entry_map() =~= Map::<ContentHash, T>::empty());
        }
        r
    }

    /// Switches injected read failures on or off.
    pub fn set_fail_reads(&mut self, fail: bool)
        ensures
            final(self).wf() == old(self).wf(),
            final(self).entry_map() == old(self).entry_map(),
            final(self).failing() == fail,
    {
        self.fail_reads = fail;
    }
}

impl<T: Clone> RemoteStore for FakeStore<T> {
    type Obj = T;

    open spec fn contents(&self) -> Map<ContentHash, T> {
        self.entry_map()
    }

    open spec fn inv(&self) -> bool {
        self.wf()
    }

    fn set(&mut self, key: ContentHash, val: T) -> (r: Result<(), StoreError>)
        ensures
            final(self).contents() == old(self).contents().insert(key, val),
            final(self).failing() == old(self).failing(),
    {
        match find_hash(&self.entries, key) {
            Some(i) => {
                let ghost s_pre = self.entries@;
                proof {
                    lemma_map_of_swap_remove(s_pre, i as int);
                }
                self.entries.swap_remove(i);
                proof {
                    lemma_map_of_push(self.entries@, key, val);
                }
                self.entries.push((key, val));
                proof {
                    assert(self.entry_map() =~= old(self).entry_map().insert(key, val));
                }
            },
            None => {
                proof {
                    lemma_map_of_push(self.entries@, key, val);
                }
                self.entries.push((key, val));
            },
        }
        Ok(())
    }

    fn get(&mut self, key: ContentHash) -> (r: Result<Option<T>, StoreError>)
        ensures
            final(self).contents() == old(self).contents(),
            final(self).failing() == old(self).failing(),
            old(self).failing() ==> r is Err,
            !old(self).failing() ==> match r {
                Ok(Some(v)) => old(self).contents().dom().contains(key) && cloned(
                    old(self).contents()[key],
                    v,
                ),
                Ok(None) => !old(self).contents().dom().contains(key),
                Err(_) => false,
            },
    {
        if self.fail_reads {
            return Err(StoreError::Transport);
        }
        proof {
            lemma_map_of_characterization(self.entries@);
        }
        match find_hash(&self.entries, key) {
            Some(i) => {
                let v = self.entries[i].1.clone();
                proof {
                    assert(self.entry_map()[key] == self.entries@[i as int].1);
                }
                Ok(Some(v))
            },
            None => Ok(None),
        }
    }
}

/// The distributed cache: a local, unbounded offset index in front of a
/// remote hash-to-object store.
pub struct ObjectCache<S: RemoteStore> {
    ioffset: HashMap<usize, ContentHash>,
    store: S,
}

impl<S: RemoteStore> ObjectCache<S> {
    /// The local offset index as a map.
    pub closed spec fn offset_map(&self) -> Map<usize, ContentHash> {
        self.ioffset@
    }

    /// What the client knows the remote store to hold.
    pub closed spec fn store_contents(&self) -> Map<ContentHash, S::Obj> {
        self.store.contents()
    }

    /// Well-formedness, inherited from the store client.
    pub closed spec fn wf(&self) -> bool {
        self.store.inv()
    }

    /// What `get_hash` answers in a given state.
    pub open spec fn hash_of_offset(&self, offset: usize) -> Option<ContentHash> {
        if self.offset_map().dom().contains(offset) {
            Some(self.offset_map()[offset])
        } else {
            None
        }
    }

    /// Wraps a store client; the offset index starts empty.
    pub fn new(store: S) -> (r: ObjectCache<S>)
        requires
            store.inv(),
        ensures
            r.wf(),
            r.offset_map() == Map::<usize, ContentHash>::empty(),
            r.store_contents() == store.contents(),
    {
        ObjectCache { ioffset: HashMap::new(), store }
    }

    /// The hash last associated with this offset; answered locally, the
    /// network is never involved.
    pub fn get_hash(&self, offset: usize) -> (r: Option<ContentHash>)
        ensures
            r == self.hash_of_offset(offset),
    {
        match self.ioffset.get(&offset) {
            None => None,
            Some(h) => Some(*h),
        }
    }

    /// Upsert of a triple: the offset index is updated locally in every
    /// case, and the object is written to the remote store; a write failure
    /// is reported, never hidden.
    pub fn put(&mut self, offset: usize, hash: ContentHash, obj: S::Obj) -> (r: Result<
        (),
        StoreError,
    >)
        requires
            old(self).wf(),
        ensures
            final(self).wf(),
            final(self).offset_map() == old(self).offset_map().insert(offset, hash),
            r matches Ok(_) ==> final(self).store_contents().submap_of(
                old(self).store_contents().insert(hash, obj),
            ) && final(self).store_contents().contains_pair(hash, obj),
    {
        self.ioffset.insert(offset, hash);
        self.store.set(hash, obj)
    }

    /// Resolves an offset: a locally unknown offset is a plain miss answered
    /// without any network traffic; otherwise the remote store decides, and
    /// its failures are surfaced as failures.
    pub fn get(&mut self, offset: usize) -> (r: Result<Option<S::Obj>, StoreError>)
        requires
            old(self).wf(),
        ensures
            final(self).wf(),
            final(self).offset_map() == old(self).offset_map(),
            final(self).store_contents().submap_of(old(self).store_contents()),
            !old(self).offset_map().dom().contains(offset) ==> (r matches Ok(None))
                && final(self).store_contents() == old(self).store_contents(),
            r matches Ok(Some(v)) ==> old(self).offset_map().dom().contains(offset)
                && final(self).store_contents().dom().contains(old(self).offset_map()[offset])
                && cloned(final(self).store_contents()[old(self).offset_map()[offset]], v),
            r matches Err(_) ==> old(self).offset_map().dom().contains(offset),
            old(self).offset_map().dom().contains(offset) && (r matches Ok(None))
                ==> !final(self).store_contents().dom().contains(old(self).offset_map()[offset]),
    {
        let h = match self.ioffset.get(&offset) {
            None => {
                return Ok(None);
            },
            Some(h) => *h,
        };
        self.store.get(h)
    }

    /// Resolves a hash directly against the remote store; same miss and
    /// failure semantics as `get`.
    pub fn get_by_hash(&mut self, h: ContentHash) -> (r: Result<Option<S::Obj>, StoreError>)
        requires
            old(self).wf(),
        ensures
            final(self).wf(),
            final(self).offset_map() == old(self).offset_map(),
            final(self).store_contents().submap_of(old(self).store_contents()),
            r matches Ok(Some(v)) ==> final(self).store_contents().dom().contains(h)
                && cloned(final(self).store_contents()[h], v),
            r matches Ok(None) ==> !final(self).store_contents().dom().contains(h),
    {
        self.store.get(h)
    }
}

/// Offset/hash equivalence law for the distributed cache: right after `put`
/// wrote (offset, hash), `get_hash` reports exactly that hash. The map
/// update is what `put` guarantees for the offset index.
pub proof fn lemma_kvstore_offset_hash<S: RemoteStore>(
    c1: ObjectCache<S>,
    c2: ObjectCache<S>,
    offset: usize,
    hash: ContentHash,
)
    requires
        c2.offset_map() == c1.offset_map().insert(offset, hash),
    ensures
        c2.hash_of_offset(offset) == Some(hash),
{
}

} // verus!
