//! The replay detector: a monotonic per-document version floor, per-sender
//! rate limiting, and a sliding window of probabilistic membership filters.

use vstd::prelude::*;
use vstd::utf8::encode_utf8;
use vstd::string::{StringExecFns, StringSliceAdditionalSpecFns};

use crate::errors::FileverseError;
use crate::table::CounterTable;
use crate::wire::{push_raw, push_u64, u64_le};

verus! {

/// Windows older than this many behind the current window are evicted, and
/// versions falling in them are rejected.
pub const WINDOW_RETENTION: u64 = 10;

/// A probabilistic membership filter: false positives possible, false
/// negatives impossible.
#[verifier::external_body]
pub struct BloomFilter {
    filter: bloomfilter::Bloom<Vec<u8>>,
}

/// What the filter has recorded.
pub uninterp spec fn bloom_contents(b: &BloomFilter) -> Set<Seq<u8>>;

/// Relies on bloomfilter::Bloom::new: a fresh filter, seeded from system
/// randomness, holds nothing; creation fails only when no randomness is
/// available.
#[verifier::external_body]
fn new_bloom(bitmap_bytes: usize, items: usize) -> (r: Result<BloomFilter, ()>)
    requires
        1 <= bitmap_bytes <= 0x4000_0000usize,
        1 <= items,
    ensures
        r matches Ok(f) ==> bloom_contents(&f) == Set::<Seq<u8>>::empty(),
{
    match bloomfilter::Bloom::new(bitmap_bytes, items) {
        Ok(filter) => Ok(BloomFilter { filter }),
        Err(_) => Err(()),
    }
}

impl BloomFilter {
    /// A filter sized for roughly the expected number of items, at about a
    /// tenth of a percent of false positives.
    pub fn with_capacity(items: usize) -> (r: Result<BloomFilter, ()>)
        requires
            1 <= items,
        ensures
            r matches Ok(f) ==> bloom_contents(&f) == Set::<Seq<u8>>::empty(),
    {
        let capped = if items > 0x1000_0000usize {
            0x1000_0000usize
        } else {
            items
        };
        new_bloom(capped * 2, items)
    }

    /// Relies on bloomfilter::Bloom::check: no false negatives, so a key the
    /// filter recorded always answers positively.
    #[verifier::external_body]
    pub fn contains(&self, key: &Vec<u8>) -> (r: bool)
        ensures
            bloom_contents(self).contains(key@) ==> r,
    {
        self.filter.check(key)
    }

    /// Relies on bloomfilter::Bloom::set: records the key.
    #[verifier::external_body]
    pub fn insert(&mut self, key: &Vec<u8>)
        ensures
            bloom_contents(final(self)) == bloom_contents(old(self)).insert(key@),
    {
        self.filter.set(key);
    }
}

/// A per-sender token-bucket rate gate.
#[verifier::external_body]
pub struct RateGate {
    quota: governor::Quota,
    limiters: std::collections::HashMap<String, governor::DefaultDirectRateLimiter>,
}

impl RateGate {
    /// Relies on governor::Quota::per_second: a gate allowing each sender a
    /// fixed number of calls per second.
    #[verifier::external_body]
    pub fn new(per_second: u32) -> (r: RateGate)
        requires
            1 <= per_second,
    {
        RateGate {
            quota: governor::Quota::per_second(core::num::NonZeroU32::new(
                per_second).unwrap()),
            limiters: std::collections::HashMap::new(),
        }
    }

    /// Relies on governor::RateLimiter::check: whether this sender may
    /// proceed now.  The outcome depends on the clock, so nothing is
    /// promised of it.
    #[verifier::external_body]
    pub fn check(&mut self, sender: &str) -> (r: bool)
    {
        self.limiters
            .entry(sender.to_string())
            .or_insert_with(|| governor::RateLimiter::direct(self.quota))
            .check()
            .is_ok()
    }
}

/// The membership key of one submission.
pub open spec fn spec_replay_key(doc: Seq<char>, version: u64, sender: Seq<char>)
    -> Seq<u8> {
    encode_utf8(doc) + u64_le(version) + encode_utf8(sender)
}

/// What a window's filter holds: the first filter recorded for the window,
/// or nothing when none is held.
pub open spec fn spec_window_in(filters: Seq<(u64, BloomFilter)>, w: u64) -> Set<Seq<u8>>
    decreases filters.len(),
{
    if filters.len() == 0 {
        Set::<Seq<u8>>::empty()
    } else if filters[0].0 == w {
        bloom_contents(&filters[0].1)
    } else {
        spec_window_in(filters.drop_first(), w)
    }
}

/// The window list with every window before the horizon evicted.
pub open spec fn spec_pruned(filters: Seq<(u64, BloomFilter)>, horizon: u64)
    -> Seq<(u64, BloomFilter)>
    decreases filters.len(),
{
    if filters.len() == 0 {
        Seq::<(u64, BloomFilter)>::empty()
    } else if filters[0].0 >= horizon {
        seq![filters[0]] + spec_pruned(filters.drop_first(), horizon)
    } else {
        spec_pruned(filters.drop_first(), horizon)
    }
}

/// Eviction below the horizon leaves every retained window's contents alone.
proof fn lemma_pruned_lookup(filters: Seq<(u64, BloomFilter)>, horizon: u64, w: u64)
    requires
        w >= horizon,
    ensures
        spec_window_in(spec_pruned(filters, horizon), w) == spec_window_in(filters, w),
    decreases filters.len(),
{
    if filters.len() == 0 {
    } else {
        lemma_pruned_lookup(filters.drop_first(), horizon, w);
        if filters[0].0 >= horizon {
            let kept = seq![filters[0]] + spec_pruned(filters.drop_first(), horizon);
            assert(kept[0] == filters[0]);
            assert(kept.drop_first() =~= spec_pruned(filters.drop_first(), horizon));
        }
    }
}

/// Growing a pruned prefix by one element.
proof fn lemma_pruned_take(filters: Seq<(u64, BloomFilter)>, horizon: u64, i: int)
    requires
        0 <= i < filters.len(),
    ensures
        spec_pruned(filters.take(i + 1), horizon) == if filters[i].0 >= horizon {
            spec_pruned(filters.take(i), horizon).push(filters[i])
        } else {
            spec_pruned(filters.take(i), horizon)
        },
    decreases i,
{
    if i == 0 {
        assert(filters.take(1) =~= seq![filters[0]]);
        assert(filters.take(0) =~= Seq::<(u64, BloomFilter)>::empty());
        assert(filters.take(1).drop_first() =~= Seq::<(u64, BloomFilter)>::empty());
        if filters[0].0 >= horizon {
            assert(spec_pruned(filters.take(1), horizon) =~= spec_pruned(filters.take(0),
                horizon).push(filters[0]));
        }
    } else {
        assert(filters.take(i + 1)[0] == filters[0]);
        assert(filters.take(i)[0] == filters[0]);
        assert(filters.take(i + 1).drop_first() =~= filters.drop_first().take(i));
        assert(filters.take(i).drop_first() =~= filters.drop_first().take(i - 1));
        assert(filters.drop_first()[i - 1] == filters[i]);
        lemma_pruned_take(filters.drop_first(), horizon, i - 1);
        if filters[0].0 >= horizon {
            if filters[i].0 >= horizon {
                assert(spec_pruned(filters.take(i + 1), horizon) =~= spec_pruned(
                    filters.take(i), horizon).push(filters[i]));
            }
        }
    }
}

/// The index of the first filter recorded for a window.
fn find_window_index(filters: &Vec<(u64, BloomFilter)>, w: u64) -> (r: Option<usize>)
    ensures
        r matches Some(i) ==> {
            &&& i < filters@.len()
            &&& filters@[i as int].0 == w
            &&& forall|j: int| 0 <= j < i ==> (#[trigger] filters@[j]).0 != w
        },
        r is None ==> forall|j: int| 0 <= j < filters@.len()
            ==> (#[trigger] filters@[j]).0 != w,
{
    let n = filters.len();
    let mut i: usize = 0;
    while i < n
        invariant
            n == filters@.len(),
            i <= n,
            forall|j: int| 0 <= j < i ==> (#[trigger] filters@[j]).0 != w,
        decreases n - i,
    {
        if filters[i].0 == w {
            return Some(i);
        }
        i = i + 1;
    }
    None
}

/// Looking past non-matching windows.
proof fn lemma_window_skip(filters: Seq<(u64, BloomFilter)>, i: int, w: u64)
    requires
        0 <= i <= filters.len(),
        forall|j: int| 0 <= j < i ==> (#[trigger] filters[j]).0 != w,
    ensures
        spec_window_in(filters, w) == spec_window_in(filters.skip(i), w),
    decreases i,
{
    if i > 0 {
        assert(filters.drop_first().skip(i - 1) =~= filters.skip(i));
        assert forall|j: int| 0 <= j < i - 1 implies (#[trigger]
            filters.drop_first()[j]).0 != w by {
            assert(filters.drop_first()[j] == filters[j + 1]);
        };
        lemma_window_skip(filters.drop_first(), i - 1, w);
    } else {
        assert(filters.skip(0) =~= filters);
    }
}

/// A window no entry is recorded for holds nothing.
proof fn lemma_window_absent(filters: Seq<(u64, BloomFilter)>, w: u64)
    requires
        forall|j: int| 0 <= j < filters.len() ==> (#[trigger] filters[j]).0 != w,
    ensures
        spec_window_in(filters, w) == Set::<Seq<u8>>::empty(),
{
    lemma_window_skip(filters, filters.len() as int, w);
    assert(filters.skip(filters.len() as int) =~= Seq::<(u64, BloomFilter)>::empty());
}

/// Updating the first matching window's filter.
proof fn lemma_window_update(filters: Seq<(u64, BloomFilter)>, i: int,
    p2: (u64, BloomFilter), w2: u64)
    requires
        0 <= i < filters.len(),
        filters[i].0 == p2.0,
        forall|j: int| 0 <= j < i ==> (#[trigger] filters[j]).0 != p2.0,
    ensures
        spec_window_in(filters.update(i, p2), p2.0) == bloom_contents(&p2.1),
        w2 != p2.0 ==> spec_window_in(filters.update(i, p2), w2)
            == spec_window_in(filters, w2),
    decreases i,
{
    if i == 0 {
        assert(filters.update(0, p2)[0] == p2);
        assert(filters.update(0, p2).drop_first() =~= filters.drop_first());
    } else {
        assert(filters.update(i, p2)[0] == filters[0]);
        assert(filters.update(i, p2).drop_first() =~= filters.drop_first().update(i - 1,
            p2));
        assert(filters.drop_first()[i - 1] == filters[i]);
        assert forall|j: int| 0 <= j < i - 1 implies (#[trigger]
            filters.drop_first()[j]).0 != p2.0 by {
            assert(filters.drop_first()[j] == filters[j + 1]);
        };
        lemma_window_update(filters.drop_first(), i - 1, p2, w2);
    }
}

/// Appending a filter for a window the list does not hold.
proof fn lemma_window_push(filters: Seq<(u64, BloomFilter)>, p: (u64, BloomFilter),
    w2: u64)
    requires
        forall|j: int| 0 <= j < filters.len() ==> (#[trigger] filters[j]).0 != p.0,
    ensures
        spec_window_in(filters.push(p), p.0) == bloom_contents(&p.1),
        w2 != p.0 ==> spec_window_in(filters.push(p), w2) == spec_window_in(filters, w2),
    decreases filters.len(),
{
    if filters.len() == 0 {
        assert(filters.push(p)[0] == p);
        assert(filters.push(p).drop_first() =~= Seq::<(u64, BloomFilter)>::empty());
        assert(spec_window_in(Seq::<(u64, BloomFilter)>::empty(), p.0)
            == Set::<Seq<u8>>::empty());
        assert(spec_window_in(Seq::<(u64, BloomFilter)>::empty(), w2)
            == Set::<Seq<u8>>::empty());
        assert(spec_window_in(filters, w2) == Set::<Seq<u8>>::empty());
    } else {
        assert(filters.push(p)[0] == filters[0]);
        assert(filters.push(p).drop_first() =~= filters.drop_first().push(p));
        assert forall|j: int| 0 <= j < filters.drop_first().len() implies (#[trigger]
            filters.drop_first()[j]).0 != p.0 by {
            assert(filters.drop_first()[j] == filters[j + 1]);
        };
        assert(filters[0].0 != p.0);
        lemma_window_push(filters.drop_first(), p, w2);
    }
}

/// Rejects replayed or stale document versions.
pub struct FileverseReplayDetector {
    bloom_filters: Vec<(u64, BloomFilter)>,
    current_window: u64,
    window_size: u64,
    rate_limiters: RateGate,
    document_versions: CounterTable,
}

impl FileverseReplayDetector {
    /// The last accepted version of a document; zero before any was accepted.
    pub closed spec fn spec_floor(&self, doc: Seq<char>) -> u64 {
        self.document_versions.spec_get(doc)
    }

    pub closed spec fn spec_window(&self) -> u64 {
        self.current_window
    }

    pub closed spec fn spec_window_size(&self) -> u64 {
        self.window_size
    }

    /// What the filter of one window holds.
    pub closed spec fn spec_window_contents(&self, w: u64) -> Set<Seq<u8>> {
        spec_window_in(self.bloom_filters@, w)
    }

    /// The window a version falls in.
    pub open spec fn window_of(&self, version: u64) -> u64 {
        (version / self.spec_window_size()) as u64
    }

    /// The window range accepted around the current window.
    pub open spec fn window_in_range(&self, w: u64) -> bool {
        &&& w <= self.spec_window() + 1
        &&& w + WINDOW_RETENTION >= self.spec_window()
    }

    /// A detector with the given expected number of submissions per window.
    pub fn new(window_size: u64) -> (r: Self)
        requires
            1 <= window_size,
        ensures
            r.spec_window() == 0,
            r.spec_window_size() == window_size,
            forall|d: Seq<char>| #[trigger] r.spec_floor(d) == 0,
            forall|w: u64| #[trigger] r.spec_window_contents(w) == Set::<Seq<u8>>::empty(),
    {
        let detector = FileverseReplayDetector {
            bloom_filters: Vec::new(),
            current_window: 0,
            window_size,
            rate_limiters: RateGate::new(100),
            document_versions: CounterTable::new(),
        };
        proof {
            assert forall|w: u64| #[trigger] detector.spec_window_contents(w)
                == Set::<Seq<u8>>::empty() by {
                lemma_window_absent(detector.bloom_filters@, w);
            };
        }
        detector
    }

    /// Applies the per-sender rate limit; the token bucket's clock decides,
    /// so the contract only pins which error a throttled sender receives.
    pub fn enforce_rate_limit(&mut self, sender: &str) -> (r: Result<(), FileverseError>)
        ensures
            r is Ok || (r matches Err(e) && e matches FileverseError::RateLimitExceeded(_)),
            final(self).spec_window() == old(self).spec_window(),
            final(self).spec_window_size() == old(self).spec_window_size(),
            forall|d: Seq<char>| #[trigger] final(self).spec_floor(d)
                == old(self).spec_floor(d),
            forall|w: u64| #[trigger] final(self).spec_window_contents(w)
                == old(self).spec_window_contents(w),
    {
        if self.rate_limiters.check(sender) {
            Ok(())
        } else {
            Err(FileverseError::RateLimitExceeded(String::from_str(sender)))
        }
    }

    /// Evicts every window before the horizon.
    fn prune(&mut self, horizon: u64)
        ensures
            final(self).spec_window() == old(self).spec_window(),
            final(self).spec_window_size() == old(self).spec_window_size(),
            forall|d: Seq<char>| #[trigger] final(self).spec_floor(d)
                == old(self).spec_floor(d),
            forall|w: u64| w >= horizon ==> #[trigger] final(self).spec_window_contents(w)
                == old(self).spec_window_contents(w),
            forall|j: int| 0 <= j < final(self).bloom_filters@.len()
                ==> (#[trigger] final(self).bloom_filters@[j]).0 >= horizon,
    {
        let mut pending: Vec<(u64, BloomFilter)> = Vec::new();
        core::mem::swap(&mut pending, &mut self.bloom_filters);
        let ghost orig = pending@;
        let mut kept: Vec<(u64, BloomFilter)> = Vec::new();
        let n = pending.len();
        let mut i: usize = 0;
        proof {
            assert(spec_pruned(orig.take(0), horizon)
                =~= Seq::<(u64, BloomFilter)>::empty());
        }
        while i < n
            invariant
                n == orig.len(),
                i <= n,
                pending@ == orig.skip(i as int),
                kept@ == spec_pruned(orig.take(i as int), horizon),
                forall|j: int| 0 <= j < kept@.len() ==> (#[trigger] kept@[j]).0 >= horizon,
            decreases n - i,
        {
            let p = pending.remove(0);
            proof {
                assert(orig.skip(i as int)[0] == orig[i as int]);
                assert(orig.skip(i as int).remove(0) =~= orig.skip(i + 1));
                lemma_pruned_take(orig, horizon, i as int);
            }
            if p.0 >= horizon {
                kept.push(p);
            }
            i = i + 1;
        }
        proof {
            assert(orig.take(n as int) =~= orig);
        }
        self.bloom_filters = kept;
        proof {
            assert forall|w: u64| w >= horizon implies #[trigger]
                spec_window_in(self.bloom_filters@, w) == spec_window_in(orig, w) by {
                lemma_pruned_lookup(orig, horizon, w);
            };
        }
    }

    /// The replay decision once the rate limit has been passed.
    ///
    /// Rejects a version at or below the document's floor, a version outside
    /// the accepted window range, and a key the window's filter answers
    /// positively for; otherwise records the key, advances the floor to the
    /// version and the window pointer monotonically, and accepts.  When no
    /// filter can be created for a fresh window, the check fails closed with
    /// the same replay error.
    pub fn check_replay_admitted(&mut self, doc_id: &str, version: u64, sender: &str)
        -> (r: Result<(), FileverseError>)
        requires
            old(self).spec_window_size() >= 1,
        ensures
            final(self).spec_window_size() == old(self).spec_window_size(),
            r is Err ==> r == Err::<(), FileverseError>(FileverseError::DocumentReplay)
                && final(self).spec_window() == old(self).spec_window()
                && (forall|d: Seq<char>| #[trigger] final(self).spec_floor(d)
                    == old(self).spec_floor(d))
                && (forall|w: u64| w + WINDOW_RETENTION >= old(self).spec_window()
                    ==> #[trigger] final(self).spec_window_contents(w)
                        == old(self).spec_window_contents(w)),
            version <= old(self).spec_floor(doc_id@)
                ==> r == Err::<(), FileverseError>(FileverseError::DocumentReplay),
            version > old(self).spec_floor(doc_id@)
                && !old(self).window_in_range(old(self).window_of(version))
                ==> r == Err::<(), FileverseError>(FileverseError::DocumentReplay),
            version > old(self).spec_floor(doc_id@)
                && old(self).window_in_range(old(self).window_of(version))
                && old(self).spec_window_contents(old(self).window_of(version)).contains(
                    spec_replay_key(doc_id@, version, sender@))
                ==> r == Err::<(), FileverseError>(FileverseError::DocumentReplay),
            r is Ok ==> {
                &&& version > old(self).spec_floor(doc_id@)
                &&& old(self).window_in_range(old(self).window_of(version))
                &&& !old(self).spec_window_contents(old(self).window_of(version)).contains(
                    spec_replay_key(doc_id@, version, sender@))
                &&& final(self).spec_floor(doc_id@) == version
                &&& (forall|d: Seq<char>| d != doc_id@ ==> #[trigger]
                    final(self).spec_floor(d) == old(self).spec_floor(d))
                &&& final(self).spec_window() == if old(self).window_of(version)
                    > old(self).spec_window() { old(self).window_of(version) } else {
                    old(self).spec_window() }
                &&& final(self).spec_window_contents(old(self).window_of(version)).contains(
                    spec_replay_key(doc_id@, version, sender@))
                &&& forall|w: u64| w + WINDOW_RETENTION < old(self).spec_window()
                    ==> #[trigger] final(self).spec_window_contents(w)
                        == Set::<Seq<u8>>::empty()
            },
    {
        let latest = self.document_versions.get(doc_id);
        if version <= latest {
            return Err(FileverseError::DocumentReplay);
        }
        let window_id = version / self.window_size;
        let current = self.current_window;
        if window_id > 0 && window_id - 1 > current {
            return Err(FileverseError::DocumentReplay);
        }
        let horizon = if current >= WINDOW_RETENTION {
            current - WINDOW_RETENTION
        } else {
            0
        };
        if window_id < horizon {
            return Err(FileverseError::DocumentReplay);
        }
        self.prune(horizon);
        let ghost after_prune = *self;
        proof {
            assert forall|d: Seq<char>| true implies #[trigger] after_prune.spec_floor(d)
                == old(self).spec_floor(d) by {
                assert(self.spec_floor(d) == old(self).spec_floor(d));
            };
            assert(after_prune.spec_window() == old(self).spec_window());
            assert forall|w: u64| w >= horizon implies #[trigger]
                after_prune.spec_window_contents(w) == old(self).spec_window_contents(w)
                by {
                assert(self.spec_window_contents(w) == old(self).spec_window_contents(w));
            };
            assert forall|j: int| 0 <= j < after_prune.bloom_filters@.len()
                implies (#[trigger] after_prune.bloom_filters@[j]).0 >= horizon by {
                assert(self.bloom_filters@[j].0 >= horizon);
            };
        }
        let mut replay_key: Vec<u8> = Vec::new();
        push_raw(&mut replay_key, doc_id.as_bytes());
        push_u64(&mut replay_key, version);
        push_raw(&mut replay_key, sender.as_bytes());
        proof {
            assert(replay_key@ =~= spec_replay_key(doc_id@, version, sender@));
        }
        let idx = match find_window_index(&self.bloom_filters, window_id) {
            Some(i) => {
                proof {
                    lemma_window_skip(self.bloom_filters@, i as int, window_id);
                    assert(self.bloom_filters@.skip(i as int)[0]
                        == self.bloom_filters@[i as int]);
                    assert(spec_window_in(self.bloom_filters@.skip(i as int), window_id)
                        == bloom_contents(&self.bloom_filters@[i as int].1));
                    assert(after_prune.spec_window_contents(window_id)
                        == bloom_contents(&self.bloom_filters@[i as int].1));
                }
                i
            },
            None => {
                proof {
                    lemma_window_skip(self.bloom_filters@,
                        self.bloom_filters@.len() as int, window_id);
                    assert(self.bloom_filters@.skip(self.bloom_filters@.len() as int)
                        =~= Seq::<(u64, BloomFilter)>::empty());
                    assert(spec_window_in(Seq::<(u64, BloomFilter)>::empty(), window_id)
                        == Set::<Seq<u8>>::empty());
                    assert(after_prune.spec_window_contents(window_id)
                        == Set::<Seq<u8>>::empty());
                }
                let fresh = match BloomFilter::with_capacity(if self.window_size
                    > 0xffff_ffffu64 { 0xffff_ffffu64 as usize } else {
                    self.window_size as usize }) {
                    Ok(f) => f,
                    Err(_) => {
                        proof {
                            assert forall|w: u64| w + WINDOW_RETENTION
                                >= old(self).spec_window() implies #[trigger]
                                self.spec_window_contents(w)
                                == old(self).spec_window_contents(w) by {
                                assert(w >= horizon);
                                assert(after_prune.spec_window_contents(w)
                                    == old(self).spec_window_contents(w));
                            };
                        }
                        return Err(FileverseError::DocumentReplay);
                    },
                };
                proof {
                    assert forall|w2: u64| true implies
                        spec_window_in(self.bloom_filters@.push((window_id, fresh)), w2)
                            == (if w2 == window_id { bloom_contents(&fresh) } else {
                            spec_window_in(self.bloom_filters@, w2) }) by {
                        lemma_window_push(self.bloom_filters@, (window_id, fresh), w2);
                    };
                }
                let at = self.bloom_filters.len();
                self.bloom_filters.push((window_id, fresh));
                proof {
                    assert(after_prune.spec_window_contents(window_id)
                        == bloom_contents(&self.bloom_filters@[at as int].1));
                }
                at
            },
        };
        let ghost filters_before = self.bloom_filters@;
        proof {
            assert(after_prune.spec_window_contents(window_id)
                == bloom_contents(&filters_before[idx as int].1));
            assert(old(self).spec_window_contents(window_id)
                == after_prune.spec_window_contents(window_id));
        }
        let mut pair = self.bloom_filters.remove(idx);
        if pair.1.contains(&replay_key) {
            self.bloom_filters.insert(idx, pair);
            proof {
                assert(self.bloom_filters@ =~= filters_before);
                assert(self.document_versions == after_prune.document_versions);
                assert forall|d: Seq<char>| true implies #[trigger] self.spec_floor(d)
                    == old(self).spec_floor(d) by {
                    assert(after_prune.spec_floor(d) == old(self).spec_floor(d));
                };
                assert forall|w: u64| w + WINDOW_RETENTION >= old(self).spec_window()
                    implies #[trigger] self.spec_window_contents(w)
                        == old(self).spec_window_contents(w) by {
                    assert(w >= horizon);
                    assert(spec_window_in(self.bloom_filters@, w)
                        == spec_window_in(filters_before, w));
                    if w == window_id {
                        assert(spec_window_in(filters_before, window_id)
                            == after_prune.spec_window_contents(window_id));
                    } else {
                        assert(spec_window_in(filters_before, w)
                            == after_prune.spec_window_contents(w));
                    }
                    assert(after_prune.spec_window_contents(w)
                        == old(self).spec_window_contents(w));
                };
            }
            return Err(FileverseError::DocumentReplay);
        }
        pair.1.insert(&replay_key);
        self.bloom_filters.insert(idx, pair);
        proof {
            let updated = self.bloom_filters@[idx as int];
            assert(self.bloom_filters@ =~= filters_before.update(idx as int, updated));
            assert(updated.0 == window_id);
            assert forall|w2: u64| true implies
                spec_window_in(filters_before.update(idx as int, updated), w2)
                    == (if w2 == window_id { bloom_contents(&updated.1) } else {
                    spec_window_in(filters_before, w2) }) by {
                lemma_window_update(filters_before, idx as int, updated, w2);
            };
        }
        proof {
            assert(!bloom_contents(&filters_before[idx as int].1).contains(replay_key@));
            assert(!old(self).spec_window_contents(window_id).contains(replay_key@));
        }
        let ghost before_set = *self;
        proof {
            assert(before_set.spec_window_contents(window_id).contains(replay_key@)) by {
                assert(self.spec_window_contents(window_id).contains(replay_key@));
            };
        }
        self.document_versions.set(doc_id, version);
        if window_id > self.current_window {
            self.current_window = window_id;
        }
        proof {
            assert(self.spec_floor(doc_id@) == version);
            assert forall|d: Seq<char>| d != doc_id@ implies #[trigger] self.spec_floor(d)
                == old(self).spec_floor(d) by {
                assert(before_set.spec_floor(d) == after_prune.spec_floor(d));
                assert(after_prune.spec_floor(d) == old(self).spec_floor(d));
            };
            assert(self.bloom_filters@ == before_set.bloom_filters@);
            assert(self.spec_window_contents(window_id).contains(replay_key@)) by {
                assert(spec_window_in(self.bloom_filters@, window_id)
                    == spec_window_in(before_set.bloom_filters@, window_id));
            };
            assert forall|j: int| 0 <= j < self.bloom_filters@.len()
                implies (#[trigger] self.bloom_filters@[j]).0 >= horizon by {
                assert(before_set.bloom_filters@ =~= filters_before.update(idx as int,
                    before_set.bloom_filters@[idx as int]));
                if j != idx {
                    assert(self.bloom_filters@[j] == filters_before[j]);
                    assert(filters_before[j].0 >= horizon);
                } else {
                    assert(self.bloom_filters@[j].0 == window_id);
                }
            };
            assert forall|w: u64| w + WINDOW_RETENTION < old(self).spec_window()
                implies #[trigger] self.spec_window_contents(w)
                    == Set::<Seq<u8>>::empty() by {
                assert(w < horizon);
                assert forall|j: int| 0 <= j < self.bloom_filters@.len()
                    implies (#[trigger] self.bloom_filters@[j]).0 != w by {
                    assert(self.bloom_filters@[j].0 >= horizon);
                };
                lemma_window_absent(self.bloom_filters@, w);
            };
        }
        Ok(())
    }

    /// Checks one submission for replay: the rate limit first, then the
    /// version floor, the window range and the window's filter.
    pub fn check_document_replay(&mut self, doc_id: &str, version: u64, sender: &str)
        -> (r: Result<(), FileverseError>)
        requires
            old(self).spec_window_size() >= 1,
        ensures
            final(self).spec_window_size() == old(self).spec_window_size(),
            (r matches Err(e) && e matches FileverseError::RateLimitExceeded(_))
                || (version <= old(self).spec_floor(doc_id@)
                    ==> r == Err::<(), FileverseError>(FileverseError::DocumentReplay)),
            r is Ok ==> {
                &&& version > old(self).spec_floor(doc_id@)
                &&& final(self).spec_floor(doc_id@) == version
                &&& final(self).spec_window_contents(old(self).window_of(version)).contains(
                    spec_replay_key(doc_id@, version, sender@))
            },
            r matches Err(e) ==> (e matches FileverseError::RateLimitExceeded(_)
                || e == FileverseError::DocumentReplay),
    {
        match self.enforce_rate_limit(sender) {
            Ok(_) => {},
            Err(e) => {
                return Err(e);
            },
        }
        self.check_replay_admitted(doc_id, version, sender)
    }
}

} // verus!
