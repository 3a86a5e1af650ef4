//! The cache capability contract and the bounded in-process backend.

use std::collections::HashMap;

use vstd::prelude::*;

use crate::hash::ContentHash;
use crate::lru_index::{
    hash_index_cap, hash_index_entries, hash_index_get, hash_index_new, hash_index_put,
    object_index_cap, object_index_keys, object_index_new, object_index_push, object_index_touch,
    HashIndex, ObjectIndex,
};
use crate::table::{
    distinct_keys, has_key, lemma_map_of_characterization, lemma_map_of_push,
    lemma_map_of_swap_remove, map_of,
};

verus! {

broadcast use vstd::std_specs::hash::group_hash_axioms;

/// The capacity used when a cache is constructed without a hint. Chosen
/// empirically: the window and depth settings of typical packs would suggest
/// a few dozen entries, but measured decode runs miss with sizes that small.
pub const DEFAULT_CAPACITY: usize = 1000;

/// The composite key: a pack-relative byte offset coupled with the content
/// hash it resolved to. Equality requires both fields to be equal.
#[derive(Clone, Copy, PartialEq, Eq, Hash, Debug, Structural)]
pub struct OffsetHashKey {
    pub offset: usize,
    pub hash: ContentHash,
}

/// The backend-agnostic contract a cache must satisfy: resolve an object by
/// byte offset or by content hash, report the hash last written for an
/// offset, and upsert a whole (offset, hash, object) triple at once. Absence
/// is always an ordinary `None`, never a fault.
pub trait Cache: Sized {
    type Obj: Clone;

    /// The unbounded offset index: the composite key last written per offset.
    spec fn offset_index(&self) -> Map<usize, OffsetHashKey>;

    /// The object this cache currently resolves the offset to, if any.
    spec fn resolve_offset(&self, offset: usize) -> Option<Self::Obj>;

    /// The object this cache currently resolves the hash to, if any.
    spec fn resolve_hash(&self, h: ContentHash) -> Option<Self::Obj>;

    /// Internal well-formedness, established by `new` and kept by every call.
    spec fn inv(&self) -> bool;

    /// Constructs an empty cache; without a hint a documented default
    /// capacity applies. A zero capacity hint is a caller error and is
    /// excluded up front.
    fn new(size: Option<usize>) -> (r: Self)
        requires
            size matches Some(n) ==> 1 <= n,
        ensures
            r.inv(),
            r.offset_index() == Map::<usize, OffsetHashKey>::empty(),
            forall|o: usize| #[trigger] r.resolve_offset(o) is None,
            forall|h: ContentHash| #[trigger] r.resolve_hash(h) is None,
    ;

    /// The hash last associated with this offset, from the offset index
    /// alone; never touches the bounded structures.
    fn get_hash(&self, offset: usize) -> (r: Option<ContentHash>)
        requires
            self.inv(),
        ensures
            r == (if self.offset_index().dom().contains(offset) {
                Some(self.offset_index()[offset].hash)
            } else {
                None::<ContentHash>
            }),
    ;

    /// Unconditional upsert of a triple into every index; the last write wins
    /// on each of them, and right after the call the triple resolves by both
    /// addresses.
    fn put(&mut self, offset: usize, hash: ContentHash, obj: Self::Obj)
        requires
            old(self).inv(),
        ensures
            final(self).inv(),
            final(self).offset_index() == old(self).offset_index().insert(
                offset,
                OffsetHashKey { offset, hash },
            ),
            final(self).resolve_offset(offset) == Some(obj),
            final(self).resolve_hash(hash) == Some(obj),
            forall|h2: ContentHash|
                h2 != hash ==> (#[trigger] final(self).resolve_hash(h2)) == old(self).resolve_hash(
                    h2,
                ) || final(self).resolve_hash(h2) is None,
    ;

    /// Resolves offset to key to object; any intermediate miss is an overall
    /// miss, never a fault. A hit hands out a clone of the cached object.
    fn get(&mut self, offset: usize) -> (r: Option<Self::Obj>)
        requires
            old(self).inv(),
        ensures
            final(self).inv(),
            final(self).offset_index() == old(self).offset_index(),
            forall|o: usize| #[trigger] final(self).resolve_offset(o) == old(self).resolve_offset(
                o,
            ),
            forall|h: ContentHash| #[trigger] final(self).resolve_hash(h) == old(
                self,
            ).resolve_hash(h),
            match r {
                Some(v) => old(self).resolve_offset(offset) matches Some(sv) && cloned(sv, v),
                None => old(self).resolve_offset(offset) is None,
            },
    ;

    /// Resolves hash to key to object directly; same miss semantics as `get`,
    /// without involving the offset index.
    fn get_by_hash(&mut self, h: ContentHash) -> (r: Option<Self::Obj>)
        requires
            old(self).inv(),
        ensures
            final(self).inv(),
            final(self).offset_index() == old(self).offset_index(),
            forall|o: usize| #[trigger] final(self).resolve_offset(o) == old(self).resolve_offset(
                o,
            ),
            forall|h2: ContentHash| #[trigger] final(self).resolve_hash(h2) == old(
                self,
            ).resolve_hash(h2),
            match r {
                Some(v) => old(self).resolve_hash(h) matches Some(sv) && cloned(sv, v),
                None => old(self).resolve_hash(h) is None,
            },
    ;
}

/// The bounded in-process cache: three coupled indices.
///
/// `ioffset` grows without bound and is insertion-only. `ihash` is the
/// bounded, recency-evicted hash index. The bounded object store is split in
/// two fields: `inner` is the recency index that decides which composite keys
/// stay cached, and `objects` owns the payload for exactly those keys (the
/// payload type is opaque to the index).
pub struct ObjectCache<T> {
    ioffset: HashMap<usize, OffsetHashKey>,
    ihash: HashIndex,
    inner: ObjectIndex,
    objects: Vec<(OffsetHashKey, T)>,
    cap: usize,
}

impl<T> ObjectCache<T> {
    /// The offset index as a map.
    pub closed spec fn offset_map(&self) -> Map<usize, OffsetHashKey> {
        self.ioffset@
    }

    /// The bounded hash index as a map.
    pub closed spec fn hash_entries(&self) -> Map<ContentHash, OffsetHashKey> {
        hash_index_entries(self.ihash)
    }

    /// The bounded object store as a map.
    pub closed spec fn object_map(&self) -> Map<OffsetHashKey, T> {
        map_of(self.objects@)
    }

    /// The capacity both bounded indices were configured with.
    pub closed spec fn spec_capacity(&self) -> nat {
        self.cap as nat
    }

    /// Well-formedness: both bounded indices share the configured capacity
    /// and respect it, and the payload table holds exactly the keys the
    /// object recency index tracks.
    pub closed spec fn wf(&self) -> bool {
        &&& 1 <= self.cap
        &&& hash_index_cap(self.ihash) == self.cap
        &&& object_index_cap(self.inner) == self.cap
        &&& self.hash_entries().dom().finite()
        &&& self.hash_entries().dom().len() <= self.cap
        &&& object_index_keys(self.inner).finite()
        &&& object_index_keys(self.inner).len() <= self.cap
        &&& distinct_keys(self.objects@)
        &&& object_index_keys(self.inner) == self.object_map().dom()
        &&& forall|h: ContentHash| #[trigger]
            self.hash_entries().dom().contains(h) ==> self.hash_entries()[h].hash == h
    }

    /// What `get_hash` answers in a given state.
    pub open spec fn hash_of_offset(&self, offset: usize) -> Option<ContentHash> {
        if self.offset_map().dom().contains(offset) {
            Some(self.offset_map()[offset].hash)
        } else {
            None
        }
    }

    /// What `get` answers in a given state: the offset must still be indexed,
    /// its hash must still be in the hash index, and its key must still be in
    /// the object store.
    pub open spec fn lookup_by_offset(&self, offset: usize) -> Option<T> {
        if self.offset_map().dom().contains(offset) {
            let key = self.offset_map()[offset];
            if self.hash_entries().dom().contains(key.hash) && self.object_map().dom().contains(
                key,
            ) {
                Some(self.object_map()[key])
            } else {
                None
            }
        } else {
            None
        }
    }

    /// What `get_by_hash` answers in a given state.
    pub open spec fn lookup_by_hash(&self, h: ContentHash) -> Option<T> {
        if self.hash_entries().dom().contains(h) {
            let key = self.hash_entries()[h];
            if self.object_map().dom().contains(key) {
                Some(self.object_map()[key])
            } else {
                None
            }
        } else {
            None
        }
    }

    /// The capacity this cache was configured with.
    pub fn capacity(&self) -> (r: usize)
        ensures
            r == self.spec_capacity(),
    {
        self.cap
    }
}

/// Finds the position of a key in the payload table.
fn find_key<T>(v: &Vec<(OffsetHashKey, T)>, k: OffsetHashKey) -> (r: Option<usize>)
    ensures
        match r {
            Some(i) => i < v.len() && v@[i as int].0 == k,
            None => !has_key(v@, k),
        },
{
    let mut i: usize = 0;
    while i < v.len()
        invariant
            i <= v.len(),
            forall|j: int| 0 <= j < i ==> (#[trigger] v@[j]).0 != k,
        decreases v.len() - i,
    {
        if v[i].0 == k {
            return Some(i);
        }
        i = i + 1;
    }
    None
}

impl<T: Clone> Cache for ObjectCache<T> {
    type Obj = T;

    open spec fn offset_index(&self) -> Map<usize, OffsetHashKey> {
        self.offset_map()
    }

    open spec fn resolve_offset(&self, offset: usize) -> Option<T> {
        self.lookup_by_offset(offset)
    }

    open spec fn resolve_hash(&self, h: ContentHash) -> Option<T> {
        self.lookup_by_hash(h)
    }

    open spec fn inv(&self) -> bool {
        self.wf()
    }

    fn new(size: Option<usize>) -> (r: Self)
        ensures
            r.spec_capacity() == (match size {
                Some(n) => n as nat,
                None => DEFAULT_CAPACITY as nat,
            }),
            r.hash_entries() == Map::<ContentHash, OffsetHashKey>::empty(),
            r.object_map() == Map::<OffsetHashKey, T>::empty(),
    {
        let cap = match size {
            Some(n) => n,
            None => DEFAULT_CAPACITY,
        };
        let r = ObjectCache {
            ioffset: HashMap::new(),
            ihash: hash_index_new(cap),
            inner: object_index_new(cap),
            objects: Vec::new(),
            cap,
        };
        proof {
            assert(r.object_map() =~= Map::<OffsetHashKey, T>::empty());
            assert(r.hash_entries().dom() =~= Set::<ContentHash>::empty());
            assert(r.object_map().dom() =~= Set::<OffsetHashKey>::empty());
            assert(object_index_keys(r.inner) =~= r.object_map().dom());
        }
        r
    }

    fn get_hash(&self, offset: usize) -> (r: Option<ContentHash>) {
        match self.ioffset.get(&offset) {
            None => None,
            Some(k) => Some(k.hash),
        }
    }

    fn put(&mut self, offset: usize, hash: ContentHash, obj: T)
        ensures
            final(self).spec_capacity() == old(self).spec_capacity(),
            forall|h2: ContentHash| #[trigger]
                final(self).hash_entries().dom().contains(h2) ==> h2 == hash || old(
                    self,
                ).hash_entries().dom().contains(h2),
            forall|k2: OffsetHashKey| #[trigger]
                final(self).object_map().dom().contains(k2) ==> k2 == (OffsetHashKey {
                    offset,
                    hash,
                }) || old(self).object_map().dom().contains(k2),
    {
        let key = OffsetHashKey { offset, hash };
        self.ioffset.insert(offset, key);
        hash_index_put(&mut self.ihash, hash, key);
        proof {
            let pre = hash_index_entries(old(self).ihash);
            let post = self.hash_entries();
            if pre.dom().contains(hash) {
                assert(post.dom() =~= pre.dom());
            } else if pre.dom().len() < self.cap {
            } else {
                let e = choose|e: ContentHash|
                    pre.dom().contains(e) && e != hash && post == pre.remove(e).insert(hash, key);
                assert(post.dom() =~= pre.dom().remove(e).insert(hash));
            }
        }
        let ghost keys_mid = object_index_keys(self.inner);
        let evicted = object_index_push(&mut self.inner, key);
        match evicted {
            None => {
                proof {
                    lemma_map_of_characterization(self.objects@);
                    assert(!has_key(self.objects@, key));
                    lemma_map_of_push(self.objects@, key, obj);
                }
                self.objects.push((key, obj));
                proof {
                    assert(object_index_keys(self.inner) =~= self.object_map().dom());
                }
            },
            Some(e) => {
                proof {
                    lemma_map_of_characterization(self.objects@);
                    assert(keys_mid.contains(e));
                    assert(has_key(self.objects@, e));
                }
                match find_key(&self.objects, e) {
                    Some(i) => {
                        let ghost s_pre = self.objects@;
                        proof {
                            lemma_map_of_swap_remove(s_pre, i as int);
                        }
                        self.objects.swap_remove(i);
                        proof {
                            assert(self.objects@ == s_pre.update(i as int, s_pre.last()).drop_last());
                            assert(!has_key(self.objects@, key)) by {
                                if e != key {
                                    if has_key(self.objects@, key) {
                                        assert(has_key(s_pre, key));
                                    }
                                }
                            }
                            lemma_map_of_push(self.objects@, key, obj);
                        }
                        self.objects.push((key, obj));
                        proof {
                            assert(object_index_keys(self.inner) =~= self.object_map().dom());
                        }
                    },
                    None => {
                        proof {
                            assert(false);
                        }
                    },
                }
            },
        }
    }

    fn get(&mut self, offset: usize) -> (r: Option<T>) {
        let key = match self.ioffset.get(&offset) {
            None => {
                return None;
            },
            Some(k) => *k,
        };
        match hash_index_get(&mut self.ihash, &key.hash) {
            None => {
                return None;
            },
            Some(_) => {},
        }
        if !object_index_touch(&mut self.inner, &key) {
            return None;
        }
        proof {
            lemma_map_of_characterization(self.objects@);
        }
        match find_key(&self.objects, key) {
            Some(i) => {
                let v = self.objects[i].1.clone();
                proof {
                    assert(self.object_map()[key] == self.objects@[i as int].1);
                }
                Some(v)
            },
            None => {
                proof {
                    assert(false);
                }
                None
            },
        }
    }

    fn get_by_hash(&mut self, h: ContentHash) -> (r: Option<T>) {
        let key = match hash_index_get(&mut self.ihash, &h) {
            None => {
                return None;
            },
            Some(k) => k,
        };
        if !object_index_touch(&mut self.inner, &key) {
            return None;
        }
        proof {
            lemma_map_of_characterization(self.objects@);
        }
        match find_key(&self.objects, key) {
            Some(i) => {
                let v = self.objects[i].1.clone();
                proof {
                    assert(self.object_map()[key] == self.objects@[i as int].1);
                }
                Some(v)
            },
            None => {
                proof {
                    assert(false);
                }
                None
            },
        }
    }
}

/// Round-trip law: a triple whose offset, hash and key are all still indexed
/// resolves to the inserted object by both addresses.
pub proof fn lemma_round_trip<T>(c: ObjectCache<T>, offset: usize, hash: ContentHash, obj: T)
    requires
        c.wf(),
        c.offset_map().contains_pair(offset, OffsetHashKey { offset, hash }),
        c.hash_entries().contains_pair(hash, OffsetHashKey { offset, hash }),
        c.object_map().contains_pair(OffsetHashKey { offset, hash }, obj),
    ensures
        c.lookup_by_offset(offset) == Some(obj),
        c.lookup_by_hash(hash) == Some(obj),
{
}

/// Offset/hash equivalence law: right after `put` wrote (offset, hash), the
/// offset reports exactly that hash. The map update is what `put` guarantees
/// for the offset index of the two successive states.
pub proof fn lemma_offset_hash_equivalence<T>(
    c1: ObjectCache<T>,
    c2: ObjectCache<T>,
    offset: usize,
    hash: ContentHash,
)
    requires
        c2.offset_map() == c1.offset_map().insert(offset, OffsetHashKey { offset, hash }),
    ensures
        c2.hash_of_offset(offset) == Some(hash),
{
}

/// Miss law: an offset or hash that was never written resolves to nothing on
/// every lookup path.
pub proof fn lemma_miss<T>(c: ObjectCache<T>, offset: usize, h: ContentHash)
    requires
        c.wf(),
        !c.offset_map().dom().contains(offset),
        !c.hash_entries().dom().contains(h),
    ensures
        c.hash_of_offset(offset) is None,
        c.lookup_by_offset(offset) is None,
        c.lookup_by_hash(h) is None,
{
}

/// Stale-offset tolerance law: once the hash an offset points at has fallen
/// out of the bounded hash index, the offset still answers `get_hash`, yet
/// resolving the offset is a clean miss, never a stale object.
pub proof fn lemma_stale_offset<T>(c: ObjectCache<T>, offset: usize)
    requires
        c.wf(),
        c.offset_map().dom().contains(offset),
        !c.hash_entries().dom().contains(c.offset_map()[offset].hash) || !c.object_map(
        ).dom().contains(c.offset_map()[offset]),
    ensures
        c.hash_of_offset(offset) == Some(c.offset_map()[offset].hash),
        c.lookup_by_offset(offset) is None,
{
}

/// Overwrite law: after a second write to the same offset, only the newest
/// hash is reported for it. The two map updates are exactly what `put`
/// guarantees for the offset index of the two successive states.
pub proof fn lemma_overwrite<T>(
    c1: ObjectCache<T>,
    c2: ObjectCache<T>,
    c3: ObjectCache<T>,
    offset: usize,
    h1: ContentHash,
    h2: ContentHash,
)
    requires
        c2.offset_map() == c1.offset_map().insert(offset, OffsetHashKey { offset, hash: h1 }),
        c3.offset_map() == c2.offset_map().insert(offset, OffsetHashKey { offset, hash: h2 }),
    ensures
        c3.hash_of_offset(offset) == Some(h2),
{
}

/// Eviction bound law: more distinct hashes than the configured capacity can
/// never all be resolvable at once, so after inserting capacity-plus-one
/// distinct keys at least one of them misses by hash.
pub proof fn lemma_eviction_bound<T>(c: ObjectCache<T>, hs: Seq<ContentHash>)
    requires
        c.wf(),
        hs.no_duplicates(),
        hs.len() > c.spec_capacity(),
    ensures
        exists|i: int| 0 <= i < hs.len() && c.lookup_by_hash(#[trigger] hs[i]) is None,
{
    if exists|i: int| 0 <= i < hs.len() && c.lookup_by_hash(#[trigger] hs[i]) is None {
    } else {
        assert forall|i: int| 0 <= i < hs.len() implies c.hash_entries().dom().contains(
            #[trigger] hs[i],
        ) by {
            assert(!(c.lookup_by_hash(hs[i]) is None));
        }
        assert forall|h: ContentHash| hs.to_set().contains(h) implies c.hash_entries(
        ).dom().contains(h) by {
            let i = choose|i: int| 0 <= i < hs.len() && hs[i] == h;
            assert(c.hash_entries().dom().contains(hs[i]));
        }
        hs.unique_seq_to_set();
        vstd::set_lib::lemma_len_subset(hs.to_set(), c.hash_entries().dom());
        assert(false);
    }
}

impl<T> Default for ObjectCache<T> {
    /// An empty cache with the default capacity.
    fn default() -> (r: Self)
        ensures
            r.wf(),
            r.offset_map() == Map::<usize, OffsetHashKey>::empty(),
            r.hash_entries() == Map::<ContentHash, OffsetHashKey>::empty(),
            r.object_map() == Map::<OffsetHashKey, T>::empty(),
            r.spec_capacity() == DEFAULT_CAPACITY as nat,
    {
        let r = ObjectCache {
            ioffset: HashMap::new(),
            ihash: hash_index_new(DEFAULT_CAPACITY),
            inner: object_index_new(DEFAULT_CAPACITY),
            objects: Vec::new(),
            cap: DEFAULT_CAPACITY,
        };
        proof {
            assert(r.object_map() =~= Map::<OffsetHashKey, T>::empty());
            assert(r.hash_entries().dom() =~= Set::<ContentHash>::empty());
            assert(r.object_map().dom() =~= Set::<OffsetHashKey>::empty());
            assert(object_index_keys(r.inner) =~= r.object_map().dom());
        }
        r
    }
}

} // verus!
