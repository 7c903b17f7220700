//! A three-state circuit breaker guarding calls to the primary backend.
//!
//! The breaker opens after a fixed number of consecutive failures, moves to a
//! half-open probe state once the open timeout has elapsed, and closes again
//! after enough consecutive successes.  While it is open, callers are routed
//! to the permanent fallback store instead of the primary backend.

use vstd::prelude::*;
use vstd::string::StringExecFns;

use crate::cache::{lru_contents, LruMap};
use crate::wire::enc_str;

verus! {

/// The gateway of the permanent fallback store.
pub const ARWEAVE_GATEWAY: &'static str = "https://arweave.net";

/// Milliseconds a fallback payload stays fresh in the cache.
pub const FALLBACK_TTL_MS: u64 = 3_600_000;

/// Consecutive failures that trip the breaker from `Closed` to `Open`.
pub const FAILURE_THRESHOLD: u64 = 5;

/// The observable state of the circuit breaker.
///
/// `Open` carries the millisecond timestamp at which the breaker opened.
#[derive(Debug, Clone, Copy, PartialEq, Eq, Structural)]
pub enum BreakerState {
    Closed,
    Open(u64),
    HalfOpen,
}

/// A circuit breaker with lazily checked open-timeout expiry.
///
/// All clock readings are supplied by the caller as milliseconds, so every
/// transition is a pure function of the previous state and the reading.
/// State changes are appended to `events` for subscribers to drain.
pub struct FileverseCircuitBreaker {
    state: BreakerState,
    consecutive_failures: u64,
    consecutive_successes: u64,
    trial_in_flight: bool,
    consecutive_successes_needed: u64,
    open_timeout_ms: u64,
    events: Vec<BreakerState>,
}

impl FileverseCircuitBreaker {
    pub closed spec fn spec_state(&self) -> BreakerState {
        self.state
    }

    pub closed spec fn spec_failures(&self) -> u64 {
        self.consecutive_failures
    }

    pub closed spec fn spec_successes(&self) -> u64 {
        self.consecutive_successes
    }

    pub closed spec fn spec_trial_in_flight(&self) -> bool {
        self.trial_in_flight
    }

    pub closed spec fn spec_successes_needed(&self) -> u64 {
        self.consecutive_successes_needed
    }

    pub closed spec fn spec_open_timeout_ms(&self) -> u64 {
        self.open_timeout_ms
    }

    pub closed spec fn spec_events(&self) -> Seq<BreakerState> {
        self.events@
    }

    /// True when an `Open` breaker's timeout has elapsed at time `now_ms`.
    pub open spec fn open_expired(&self, now_ms: u64) -> bool {
        match self.spec_state() {
            BreakerState::Open(since) => now_ms >= since + self.spec_open_timeout_ms(),
            _ => false,
        }
    }

    /// True when a call at time `now_ms` is routed to the fallback store
    /// without touching the primary backend.
    pub open spec fn routes_to_fallback(&self, now_ms: u64) -> bool {
        match self.spec_state() {
            BreakerState::Closed => false,
            BreakerState::Open(since) => !self.open_expired(now_ms),
            BreakerState::HalfOpen => self.spec_trial_in_flight(),
        }
    }

    /// What recording a success leaves behind: the failure run and the trial
    /// flag clear, and enough consecutive successes close a half-open breaker.
    pub open spec fn success_recorded(pre: Self, post: Self) -> bool {
        &&& post.spec_successes_needed() == pre.spec_successes_needed()
        &&& post.spec_open_timeout_ms() == pre.spec_open_timeout_ms()
        &&& post.spec_failures() == 0
        &&& !post.spec_trial_in_flight()
        &&& (pre.spec_state() == BreakerState::HalfOpen
            && pre.spec_successes() + 1 >= pre.spec_successes_needed() ==> {
                &&& post.spec_state() == BreakerState::Closed
                &&& post.spec_successes() == 0
                &&& post.spec_events() == pre.spec_events().push(BreakerState::Closed)
            })
        &&& (pre.spec_state() == BreakerState::HalfOpen
            && pre.spec_successes() + 1 < pre.spec_successes_needed() ==> {
                &&& post.spec_state() == BreakerState::HalfOpen
                &&& post.spec_successes() == pre.spec_successes() + 1
                &&& post.spec_events() == pre.spec_events()
            })
        &&& (pre.spec_state() != BreakerState::HalfOpen ==> {
            &&& post.spec_state() == pre.spec_state()
            &&& post.spec_successes() == pre.spec_successes()
            &&& post.spec_events() == pre.spec_events()
        })
    }

    /// What recording a failure leaves behind: the success run and the trial
    /// flag clear; a failed half-open trial or the threshold'th consecutive
    /// failure opens the breaker at the given time.
    pub open spec fn failure_recorded(pre: Self, post: Self, now_ms: u64) -> bool {
        &&& post.spec_successes_needed() == pre.spec_successes_needed()
        &&& post.spec_open_timeout_ms() == pre.spec_open_timeout_ms()
        &&& post.spec_successes() == 0
        &&& !post.spec_trial_in_flight()
        &&& (pre.spec_state() == BreakerState::HalfOpen ==> {
            &&& post.spec_state() == BreakerState::Open(now_ms)
            &&& post.spec_failures() == 0
            &&& post.spec_events() == pre.spec_events().push(BreakerState::Open(now_ms))
        })
        &&& (pre.spec_state() == BreakerState::Closed
            && pre.spec_failures() + 1 >= FAILURE_THRESHOLD ==> {
                &&& post.spec_state() == BreakerState::Open(now_ms)
                &&& post.spec_failures() == 0
                &&& post.spec_events() == pre.spec_events().push(BreakerState::Open(now_ms))
            })
        &&& (pre.spec_state() == BreakerState::Closed
            && pre.spec_failures() + 1 < FAILURE_THRESHOLD ==> {
                &&& post.spec_state() == BreakerState::Closed
                &&& post.spec_failures() == pre.spec_failures() + 1
                &&& post.spec_events() == pre.spec_events()
            })
        &&& (pre.spec_state() matches BreakerState::Open(_) ==> {
            &&& post.spec_state() == pre.spec_state()
            &&& post.spec_failures() == pre.spec_failures()
            &&& post.spec_events() == pre.spec_events()
        })
    }

    pub fn new(consecutive_successes_needed: u64, open_timeout_ms: u64) -> (r: Self)
        ensures
            r.spec_state() == BreakerState::Closed,
            r.spec_failures() == 0,
            r.spec_successes() == 0,
            !r.spec_trial_in_flight(),
            r.spec_successes_needed() == consecutive_successes_needed,
            r.spec_open_timeout_ms() == open_timeout_ms,
            r.spec_events() == Seq::<BreakerState>::empty(),
    {
        FileverseCircuitBreaker {
            state: BreakerState::Closed,
            consecutive_failures: 0,
            consecutive_successes: 0,
            trial_in_flight: false,
            consecutive_successes_needed,
            open_timeout_ms,
            events: Vec::new(),
        }
    }

    /// Decides whether a call starting at `now_ms` must skip the primary
    /// backend.  An expired `Open` state lazily becomes `HalfOpen`, and a
    /// `HalfOpen` breaker admits exactly one trial call at a time.
    pub fn is_open(&mut self, now_ms: u64) -> (open: bool)
        ensures
            final(self).spec_successes_needed() == old(self).spec_successes_needed(),
            final(self).spec_open_timeout_ms() == old(self).spec_open_timeout_ms(),
            final(self).spec_failures() == old(self).spec_failures(),
            final(self).spec_successes() == old(self).spec_successes(),
            // An expired open timeout moves the breaker to half-open and is broadcast.
            old(self).open_expired(now_ms) ==> {
                &&& final(self).spec_state() == BreakerState::HalfOpen
                &&& !open
                &&& final(self).spec_trial_in_flight()
                &&& final(self).spec_events() == old(self).spec_events().push(
                    BreakerState::HalfOpen)
            },
            !old(self).open_expired(now_ms) ==> {
                &&& final(self).spec_state() == old(self).spec_state()
                &&& open == old(self).routes_to_fallback(now_ms)
                &&& final(self).spec_events() == old(self).spec_events()
                &&& final(self).spec_trial_in_flight() == (
                    old(self).spec_trial_in_flight()
                    || (old(self).spec_state() == BreakerState::HalfOpen && !open))
            },
            // A call admitted past the breaker marks the half-open trial as taken.
            (final(self).spec_state() == BreakerState::HalfOpen && !open)
                ==> final(self).spec_trial_in_flight(),
    {
        match self.state {
            BreakerState::Closed => false,
            BreakerState::Open(since) => {
                if now_ms >= since && now_ms - since >= self.open_timeout_ms {
                    self.state = BreakerState::HalfOpen;
                    self.trial_in_flight = true;
                    self.events.push(BreakerState::HalfOpen);
                    false
                } else {
                    true
                }
            },
            BreakerState::HalfOpen => {
                if self.trial_in_flight {
                    true
                } else {
                    self.trial_in_flight = true;
                    false
                }
            },
        }
    }

    /// Records a successful call against the primary backend.
    pub fn record_success(&mut self)
        ensures
            final(self).spec_successes_needed() == old(self).spec_successes_needed(),
            final(self).spec_open_timeout_ms() == old(self).spec_open_timeout_ms(),
            final(self).spec_failures() == 0,
            !final(self).spec_trial_in_flight(),
            // Enough consecutive successes close a half-open breaker.
            old(self).spec_state() == BreakerState::HalfOpen
                && old(self).spec_successes() + 1 >= old(self).spec_successes_needed()
                ==> {
                    &&& final(self).spec_state() == BreakerState::Closed
                    &&& final(self).spec_successes() == 0
                    &&& final(self).spec_events() == old(self).spec_events().push(
                        BreakerState::Closed)
                },
            old(self).spec_state() == BreakerState::HalfOpen
                && old(self).spec_successes() + 1 < old(self).spec_successes_needed()
                ==> {
                    &&& final(self).spec_state() == BreakerState::HalfOpen
                    &&& final(self).spec_successes() == old(self).spec_successes() + 1
                    &&& final(self).spec_events() == old(self).spec_events()
                },
            old(self).spec_state() != BreakerState::HalfOpen ==> {
                &&& final(self).spec_state() == old(self).spec_state()
                &&& final(self).spec_successes() == old(self).spec_successes()
                &&& final(self).spec_events() == old(self).spec_events()
            },
            Self::success_recorded(*old(self), *final(self)),
    {
        self.consecutive_failures = 0;
        self.trial_in_flight = false;
        match self.state {
            BreakerState::HalfOpen => {
                let successes = if self.consecutive_successes < u64::MAX {
                    self.consecutive_successes + 1
                } else {
                    self.consecutive_successes
                };
                if successes >= self.consecutive_successes_needed {
                    self.consecutive_successes = 0;
                    self.state = BreakerState::Closed;
                    self.events.push(BreakerState::Closed);
                } else {
                    self.consecutive_successes = successes;
                }
            },
            _ => {},
        }
    }

    /// Records a failed or timed-out call against the primary backend.
    pub fn record_failure(&mut self, now_ms: u64)
        ensures
            final(self).spec_successes_needed() == old(self).spec_successes_needed(),
            final(self).spec_open_timeout_ms() == old(self).spec_open_timeout_ms(),
            final(self).spec_successes() == 0,
            !final(self).spec_trial_in_flight(),
            // A failed half-open trial reopens the breaker at once.
            old(self).spec_state() == BreakerState::HalfOpen ==> {
                &&& final(self).spec_state() == BreakerState::Open(now_ms)
                &&& final(self).spec_failures() == 0
                &&& final(self).spec_events() == old(self).spec_events().push(
                    BreakerState::Open(now_ms))
            },
            // The threshold'th consecutive failure trips a closed breaker.
            old(self).spec_state() == BreakerState::Closed
                && old(self).spec_failures() + 1 >= FAILURE_THRESHOLD
                ==> {
                    &&& final(self).spec_state() == BreakerState::Open(now_ms)
                    &&& final(self).spec_failures() == 0
                    &&& final(self).spec_events() == old(self).spec_events().push(
                        BreakerState::Open(now_ms))
                },
            old(self).spec_state() == BreakerState::Closed
                && old(self).spec_failures() + 1 < FAILURE_THRESHOLD
                ==> {
                    &&& final(self).spec_state() == BreakerState::Closed
                    &&& final(self).spec_failures() == old(self).spec_failures() + 1
                    &&& final(self).spec_events() == old(self).spec_events()
                },
            old(self).spec_state() matches BreakerState::Open(_) ==> {
                &&& final(self).spec_state() == old(self).spec_state()
                &&& final(self).spec_failures() == old(self).spec_failures()
                &&& final(self).spec_events() == old(self).spec_events()
            },
            Self::failure_recorded(*old(self), *final(self), now_ms),
    {
        self.consecutive_successes = 0;
        self.trial_in_flight = false;
        match self.state {
            BreakerState::Closed => {
                let failures = if self.consecutive_failures < u64::MAX {
                    self.consecutive_failures + 1
                } else {
                    self.consecutive_failures
                };
                if failures >= FAILURE_THRESHOLD {
                    self.consecutive_failures = 0;
                    self.state = BreakerState::Open(now_ms);
                    self.events.push(BreakerState::Open(now_ms));
                } else {
                    self.consecutive_failures = failures;
                }
            },
            BreakerState::HalfOpen => {
                self.consecutive_failures = 0;
                self.state = BreakerState::Open(now_ms);
                self.events.push(BreakerState::Open(now_ms));
            },
            BreakerState::Open(_) => {},
        }
    }

    /// The breaker's current state.
    pub fn current_state(&self) -> (r: BreakerState)
        ensures
            r == self.spec_state(),
    {
        self.state
    }

    /// Hands out the state-change events recorded since the last drain, in
    /// the order they occurred, and clears the log.
    pub fn subscribe_state(&mut self) -> (r: Vec<BreakerState>)
        ensures
            r@ == old(self).spec_events(),
            final(self).spec_events() == Seq::<BreakerState>::empty(),
            final(self).spec_state() == old(self).spec_state(),
            final(self).spec_failures() == old(self).spec_failures(),
            final(self).spec_successes() == old(self).spec_successes(),
            final(self).spec_trial_in_flight() == old(self).spec_trial_in_flight(),
            final(self).spec_successes_needed() == old(self).spec_successes_needed(),
            final(self).spec_open_timeout_ms() == old(self).spec_open_timeout_ms(),
    {
        let mut drained: Vec<BreakerState> = Vec::new();
        core::mem::swap(&mut drained, &mut self.events);
        drained
    }
}

/// The cache key of a fallback payload.
pub open spec fn fallback_key(doc_id: Seq<char>) -> Seq<u8> {
    enc_str(doc_id)
}

/// The fresh, decodable fallback payload a cache serves for a key at a given
/// time, when it holds one.
pub open spec fn spec_fallback_payload(cache: Map<Seq<u8>, (Seq<u8>, u64)>, key: Seq<u8>,
    now_ms: u64) -> Option<Seq<char>> {
    if cache.dom().contains(key) && now_ms < cache[key].1 + FALLBACK_TTL_MS
        && vstd::utf8::valid_utf8(cache[key].0) {
        Some(vstd::utf8::decode_utf8(cache[key].0))
    } else {
        Option::<Seq<char>>::None
    }
}

/// Reads and writes of the permanent fallback store, with a cache of
/// recently fetched payloads to spare the store during sustained outages.
/// The store itself is reached over the network by the embedding program;
/// this component owns the cache and the addressing data.
pub struct ArweaveFallback {
    gateway_url: String,
    contract_address: String,
    file_id: u64,
    fallback_cache: LruMap,
}

impl ArweaveFallback {
    pub closed spec fn spec_gateway(&self) -> Seq<char> {
        self.gateway_url@
    }

    pub closed spec fn spec_contract(&self) -> Seq<char> {
        self.contract_address@
    }

    pub closed spec fn spec_file_id(&self) -> u64 {
        self.file_id
    }

    pub closed spec fn spec_cache(&self) -> Map<Seq<u8>, (Seq<u8>, u64)> {
        lru_contents(&self.fallback_cache)
    }

    pub open spec fn same_binding(&self, other: &Self) -> bool {
        &&& self.spec_gateway() == other.spec_gateway()
        &&& self.spec_contract() == other.spec_contract()
        &&& self.spec_file_id() == other.spec_file_id()
    }

    /// A fallback reader for one contract and file, addressed at the
    /// permanent gateway, with an empty cache.
    pub fn new(contract_address: &str, file_id: u64) -> (r: Self)
        ensures
            r.spec_gateway() == ARWEAVE_GATEWAY@,
            r.spec_contract() == contract_address@,
            r.spec_file_id() == file_id,
            r.spec_cache().dom() == Set::<Seq<u8>>::empty(),
    {
        ArweaveFallback {
            gateway_url: String::from_str(ARWEAVE_GATEWAY),
            contract_address: String::from_str(contract_address),
            file_id,
            fallback_cache: LruMap::new(1000),
        }
    }

    /// A document's cached fallback payload, while it is fresh.
    pub fn read_cached(&mut self, doc_id: &str, now_ms: u64) -> (r: Option<Vec<u8>>)
        ensures
            final(self).same_binding(old(self)),
            final(self).spec_cache() == old(self).spec_cache(),
            ({
                let key = fallback_key(doc_id@);
                let cached = old(self).spec_cache();
                if cached.dom().contains(key) && now_ms < cached[key].1 + FALLBACK_TTL_MS {
                    r matches Some(v) && v@ == cached[key].0
                } else {
                    r is None
                }
            }),
    {
        let mut key: Vec<u8> = Vec::new();
        crate::wire::push_len_str(&mut key, doc_id);
        proof {
            assert(key@ =~= fallback_key(doc_id@));
        }
        match self.fallback_cache.get(&key) {
            Some((data, created)) => {
                let fresh = if created <= u64::MAX - FALLBACK_TTL_MS {
                    now_ms < created + FALLBACK_TTL_MS
                } else {
                    true
                };
                if fresh {
                    Some(data)
                } else {
                    None
                }
            },
            None => None,
        }
    }

    /// Stores a payload fetched from the fallback store.
    pub fn store_payload(&mut self, doc_id: &str, data: Vec<u8>, now_ms: u64)
        ensures
            final(self).same_binding(old(self)),
            final(self).spec_cache().dom().contains(fallback_key(doc_id@)),
            final(self).spec_cache()[fallback_key(doc_id@)] == (data@, now_ms),
    {
        let mut key: Vec<u8> = Vec::new();
        crate::wire::push_len_str(&mut key, doc_id);
        proof {
            assert(key@ =~= fallback_key(doc_id@));
        }
        self.fallback_cache.put(key, data, now_ms);
    }
}

} // verus!
