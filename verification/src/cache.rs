//! A bounded least-recently-used byte cache, held behind a trusted interface
//! and shared by the signature, authorization and fallback caches.

use vstd::prelude::*;

verus! {

/// A bounded LRU map from byte-string keys to byte-string values, each
/// stamped with the millisecond time at which it was stored.
#[verifier::external_body]
pub struct LruMap {
    inner: lru::LruCache<Vec<u8>, (Vec<u8>, u64)>,
}

/// What the cache holds: every live key, mapped to its stored value and stamp.
pub uninterp spec fn lru_contents(m: &LruMap) -> Map<Seq<u8>, (Seq<u8>, u64)>;

impl LruMap {
    /// Relies on lru::LruCache::new: a fresh cache holds nothing.
    #[verifier::external_body]
    pub fn new(capacity: usize) -> (r: LruMap)
        requires
            1 <= capacity,
        ensures
            lru_contents(&r).dom() == Set::<Seq<u8>>::empty(),
    {
        LruMap { inner: lru::LruCache::new(std::num::NonZeroUsize::new(capacity).unwrap()) }
    }

    /// Relies on lru::LruCache::get: hands back exactly the value the key is
    /// mapped to, or nothing when the key is not held.
    #[verifier::external_body]
    pub fn get(&mut self, key: &Vec<u8>) -> (r: Option<(Vec<u8>, u64)>)
        ensures
            lru_contents(final(self)) == lru_contents(old(self)),
            r matches Some(v) ==> lru_contents(old(self)).dom().contains(key@)
                && lru_contents(old(self))[key@] == (v.0@, v.1),
            r is None ==> !lru_contents(old(self)).dom().contains(key@),
    {
        self.inner.get(key).map(|v| (v.0.clone(), v.1))
    }

    /// Relies on lru::LruCache::put: the key is stored; at capacity, the
    /// least recently used other key may leave, and no key changes its value.
    #[verifier::external_body]
    pub fn put(&mut self, key: Vec<u8>, value: Vec<u8>, stamp: u64)
        ensures
            lru_contents(final(self)).dom().contains(key@),
            lru_contents(final(self))[key@] == (value@, stamp),
            forall|k: Seq<u8>| #[trigger] lru_contents(final(self)).dom().contains(k)
                && k != key@
                ==> lru_contents(old(self)).dom().contains(k)
                    && lru_contents(final(self))[k] == lru_contents(old(self))[k],
    {
        self.inner.put(key, (value, stamp));
    }

    /// Relies on lru::LruCache::clear: empties the cache.
    #[verifier::external_body]
    pub fn clear(&mut self)
        ensures
            lru_contents(final(self)).dom() == Set::<Seq<u8>>::empty(),
    {
        self.inner.clear();
    }
}

} // verus!
