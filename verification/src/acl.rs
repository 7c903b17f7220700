//! The constant-time authorizer: policy-table lookups with cached decisions.
//!
//! The decision itself is a pure function of the policy and the query; the
//! fixed minimum wall-clock latency that hides cache hits from a timing
//! observer is enforced by the embedding program around every call, hit or
//! miss alike.

use vstd::prelude::*;
use vstd::string::StringExecFns;

use crate::cache::{lru_contents, LruMap};
use crate::crypto::{blake3_hash, blake3_of};
use crate::errors::FileverseError;
use crate::wire::{enc_str, push_len_str, push_u64, str_eq, u64_le};

verus! {

/// Milliseconds a cached authorization decision stays fresh.
pub const DECISION_TTL_MS: u64 = 300_000;

/// The minimum wall-clock milliseconds every authorization query must take,
/// enforced by the embedding program.
pub const MIN_QUERY_LATENCY_MS: u64 = 20;

/// One contract's policy bytes.
#[derive(Debug, Clone)]
pub struct PolicyEntry {
    pub contract: String,
    pub policy: Vec<u8>,
}

/// The stored policy for a contract: the first matching entry, when one is
/// held.
pub open spec fn spec_policy_in(entries: Seq<PolicyEntry>, contract: Seq<char>)
    -> Option<Seq<u8>>
    decreases entries.len(),
{
    if entries.len() == 0 {
        Option::<Seq<u8>>::None
    } else if entries[0].contract@ == contract {
        Some(entries[0].policy@)
    } else {
        spec_policy_in(entries.drop_first(), contract)
    }
}

/// The default-deny policy: 256 zero bytes.
pub open spec fn spec_default_policy() -> Seq<u8> {
    Seq::<u8>::new(256, |i: int| 0u8)
}

/// The bit each action tests in its policy byte.
pub open spec fn spec_action_mask(action: Seq<char>) -> u8 {
    if action == "edit"@ {
        1u8
    } else if action == "comment"@ {
        2u8
    } else if action == "view"@ {
        4u8
    } else {
        0u8
    }
}

/// The bytes hashed to pick a policy byte for a query.
pub open spec fn probe_payload(node_id: Seq<char>, file_id: u64, action: Seq<char>)
    -> Seq<u8> {
    enc_str(node_id) + u64_le(file_id) + enc_str(action)
}

/// The authorization decision a policy gives a query: a digest of the query
/// picks one policy byte, whose action bit decides.  An empty policy denies.
pub open spec fn spec_decision(policy: Seq<u8>, node_id: Seq<char>, file_id: u64,
    action: Seq<char>) -> bool {
    if policy.len() == 0 {
        false
    } else {
        let digest = blake3_of(probe_payload(node_id, file_id, action));
        let idx = (digest[0] as int) % (policy.len() as int);
        (policy[idx] & spec_action_mask(action)) != 0
    }
}

/// Skipping entries that do not match leaves the looked-up policy unchanged.
proof fn lemma_policy_skip(entries: Seq<PolicyEntry>, i: int, contract: Seq<char>)
    requires
        0 <= i <= entries.len(),
        forall|j: int| 0 <= j < i ==> (#[trigger] entries[j]).contract@ != contract,
    ensures
        spec_policy_in(entries, contract) == spec_policy_in(entries.skip(i), contract),
    decreases i,
{
    if i > 0 {
        assert(entries.drop_first().skip(i - 1) =~= entries.skip(i));
        assert forall|j: int| 0 <= j < i - 1 implies (#[trigger]
            entries.drop_first()[j]).contract@ != contract by {
            assert(entries.drop_first()[j] == entries[j + 1]);
        };
        lemma_policy_skip(entries.drop_first(), i - 1, contract);
    } else {
        assert(entries.skip(0) =~= entries);
    }
}

/// Updating the first matching entry replaces exactly that contract's policy.
proof fn lemma_policy_update(entries: Seq<PolicyEntry>, i: int, e2: PolicyEntry,
    c2: Seq<char>)
    requires
        0 <= i < entries.len(),
        entries[i].contract@ == e2.contract@,
        forall|j: int| 0 <= j < i ==> (#[trigger] entries[j]).contract@ != e2.contract@,
    ensures
        spec_policy_in(entries.update(i, e2), e2.contract@) == Some(e2.policy@),
        c2 != e2.contract@ ==> spec_policy_in(entries.update(i, e2), c2)
            == spec_policy_in(entries, c2),
    decreases i,
{
    if i == 0 {
        assert(entries.update(0, e2)[0] == e2);
        assert(entries.update(0, e2).drop_first() =~= entries.drop_first());
    } else {
        assert(entries.update(i, e2)[0] == entries[0]);
        assert(entries.update(i, e2).drop_first() =~= entries.drop_first().update(i - 1,
            e2));
        assert(entries.drop_first()[i - 1] == entries[i]);
        assert forall|j: int| 0 <= j < i - 1 implies (#[trigger]
            entries.drop_first()[j]).contract@ != e2.contract@ by {
            assert(entries.drop_first()[j] == entries[j + 1]);
        };
        lemma_policy_update(entries.drop_first(), i - 1, e2, c2);
    }
}

/// Appending an entry for a contract the table does not hold installs
/// exactly that contract's policy.
proof fn lemma_policy_push(entries: Seq<PolicyEntry>, e: PolicyEntry, c2: Seq<char>)
    requires
        forall|j: int| 0 <= j < entries.len() ==> (#[trigger] entries[j]).contract@
            != e.contract@,
    ensures
        spec_policy_in(entries.push(e), e.contract@) == Some(e.policy@),
        c2 != e.contract@ ==> spec_policy_in(entries.push(e), c2)
            == spec_policy_in(entries, c2),
    decreases entries.len(),
{
    if entries.len() == 0 {
        assert(entries.push(e)[0] == e);
        assert(entries.push(e).drop_first() =~= Seq::<PolicyEntry>::empty());
        assert(spec_policy_in(Seq::<PolicyEntry>::empty(), e.contract@) is None);
        assert(spec_policy_in(Seq::<PolicyEntry>::empty(), c2) is None);
        assert(spec_policy_in(entries, c2) is None);
    } else {
        assert(entries.push(e)[0] == entries[0]);
        assert(entries.push(e).drop_first() =~= entries.drop_first().push(e));
        assert forall|j: int| 0 <= j < entries.drop_first().len() implies (#[trigger]
            entries.drop_first()[j]).contract@ != e.contract@ by {
            assert(entries.drop_first()[j] == entries[j + 1]);
        };
        assert(entries[0].contract@ != e.contract@);
        lemma_policy_push(entries.drop_first(), e, c2);
    }
}

/// The authorizer: per-contract policy bytes and a cache of recent
/// decisions.
pub struct FileverseAcl {
    contract_policies: Vec<PolicyEntry>,
    policy_cache: LruMap,
}

impl FileverseAcl {
    /// The policy the authorizer holds for a contract, default-deny when
    /// none was installed.
    pub closed spec fn spec_policy(&self, contract: Seq<char>) -> Seq<u8> {
        match spec_policy_in(self.contract_policies@, contract) {
            Some(p) => p,
            None => spec_default_policy(),
        }
    }

    pub closed spec fn spec_cache(&self) -> Map<Seq<u8>, (Seq<u8>, u64)> {
        lru_contents(&self.policy_cache)
    }

    /// The cache key of one authorization query.
    pub open spec fn spec_cache_key(node_id: Seq<char>, contract: Seq<char>, file_id: u64,
        action: Seq<char>) -> Seq<u8> {
        enc_str(node_id) + enc_str(contract) + u64_le(file_id) + enc_str(action)
    }

    /// The answer a query receives at time `now_ms`: a fresh cached decision
    /// verbatim, and the policy decision otherwise.
    pub open spec fn spec_authorized(self, node_id: Seq<char>, contract: Seq<char>,
        file_id: u64, action: Seq<char>, now_ms: u64) -> bool {
        let key = Self::spec_cache_key(node_id, contract, file_id, action);
        let cached = self.spec_cache();
        if cached.dom().contains(key) && cached[key].0.len() == 1
            && now_ms < cached[key].1 + DECISION_TTL_MS {
            cached[key].0[0] == 1
        } else {
            spec_decision(self.spec_policy(contract), node_id, file_id, action)
        }
    }

    /// An authorizer with no policies installed: every contract default-denies.
    pub fn new() -> (r: Self)
        ensures
            forall|c: Seq<char>| #[trigger] r.spec_policy(c) == spec_default_policy(),
            r.spec_cache().dom() == Set::<Seq<u8>>::empty(),
    {
        let acl = FileverseAcl {
            contract_policies: Vec::new(),
            policy_cache: LruMap::new(5000),
        };
        proof {
            assert forall|c: Seq<char>| #[trigger] acl.spec_policy(c)
                == spec_default_policy() by {
            };
        }
        acl
    }

    /// The index of the first policy entry for a contract.
    fn find_policy_index(&self, contract: &str) -> (r: Option<usize>)
        ensures
            r matches Some(i) ==> {
                &&& i < self.contract_policies@.len()
                &&& self.contract_policies@[i as int].contract@ == contract@
                &&& forall|j: int| 0 <= j < i ==> (#[trigger]
                    self.contract_policies@[j]).contract@ != contract@
            },
            r is None ==> forall|j: int| 0 <= j < self.contract_policies@.len()
                ==> (#[trigger] self.contract_policies@[j]).contract@ != contract@,
    {
        let n = self.contract_policies.len();
        let mut i: usize = 0;
        while i < n
            invariant
                n == self.contract_policies@.len(),
                i <= n,
                forall|j: int| 0 <= j < i ==> (#[trigger]
                    self.contract_policies@[j]).contract@ != contract@,
            decreases n - i,
        {
            if str_eq(self.contract_policies[i].contract.as_str(), contract) {
                return Some(i);
            }
            i = i + 1;
        }
        None
    }

    /// Answers an authorization query, from the decision cache while the
    /// cached decision is fresh and from the policy bytes otherwise.
    ///
    /// Either way the answer reflects a decision computed by
    /// `spec_decision`; the query's fixed minimum latency is enforced by the
    /// embedding program, so a hit and a miss are indistinguishable to a
    /// timing observer.
    pub fn is_authorized(&mut self, node_id: &str, contract_address: &str, file_id: u64,
        action: &str, now_ms: u64) -> (r: Result<bool, FileverseError>)
        ensures
            r == Ok::<bool, FileverseError>(old(self).spec_authorized(node_id@,
                contract_address@, file_id, action@, now_ms)),
            forall|c: Seq<char>| #[trigger] final(self).spec_policy(c)
                == old(self).spec_policy(c),
    {
        let mut cache_key: Vec<u8> = Vec::new();
        push_len_str(&mut cache_key, node_id);
        push_len_str(&mut cache_key, contract_address);
        push_u64(&mut cache_key, file_id);
        push_len_str(&mut cache_key, action);
        proof {
            assert(cache_key@ =~= Self::spec_cache_key(node_id@, contract_address@,
                file_id, action@));
        }
        match self.policy_cache.get(&cache_key) {
            Some((cached, created)) => {
                let fresh = if created <= u64::MAX - DECISION_TTL_MS {
                    now_ms < created + DECISION_TTL_MS
                } else {
                    true
                };
                if cached.len() == 1 && fresh {
                    return Ok(cached[0] == 1);
                }
            },
            None => {},
        }
        let policy = match self.find_policy_index(contract_address) {
            Some(i) => {
                proof {
                    assert forall|j: int| 0 <= j < i implies (#[trigger]
                        self.contract_policies@[j]).contract@ != contract_address@ by {
                    };
                    lemma_policy_skip(self.contract_policies@, i as int,
                        contract_address@);
                    assert(self.contract_policies@.skip(i as int)[0]
                        == self.contract_policies@[i as int]);
                }
                self.contract_policies[i].policy.clone()
            },
            None => {
                proof {
                    lemma_policy_skip(self.contract_policies@,
                        self.contract_policies@.len() as int, contract_address@);
                    assert(self.contract_policies@.skip(
                        self.contract_policies@.len() as int)
                        =~= Seq::<PolicyEntry>::empty());
                }
                let mut default: Vec<u8> = Vec::new();
                let mut k: usize = 0;
                while k < 256
                    invariant
                        k <= 256,
                        default@.len() == k,
                        forall|j: int| 0 <= j < k ==> #[trigger] default@[j] == 0u8,
                    decreases 256 - k,
                {
                    default.push(0u8);
                    k = k + 1;
                }
                proof {
                    assert(default@ =~= spec_default_policy());
                }
                default
            },
        };
        let decision = if policy.len() == 0 {
            false
        } else {
            let mut probe: Vec<u8> = Vec::new();
            push_len_str(&mut probe, node_id);
            push_u64(&mut probe, file_id);
            push_len_str(&mut probe, action);
            proof {
                assert(probe@ =~= probe_payload(node_id@, file_id, action@));
            }
            let digest = blake3_hash(probe.as_slice());
            let idx = (digest[0] as usize) % policy.len();
            let byte = policy[idx];
            let mask: u8 = if str_eq(action, "edit") {
                1
            } else if str_eq(action, "comment") {
                2
            } else if str_eq(action, "view") {
                4
            } else {
                0
            };
            let masked = byte & mask;
            let flag: u8 = if masked != 0 {
                1
            } else {
                0
            };
            crate::crypto::ct_choice(flag)
        };
        let mut stored: Vec<u8> = Vec::new();
        stored.push(if decision { 1u8 } else { 0u8 });
        self.policy_cache.put(cache_key, stored, now_ms);
        Ok(decision)
    }

    /// Installs a contract's policy bytes and invalidates the decision cache.
    pub fn update_policy(&mut self, contract_address: &str, policy: Vec<u8>,
        _admin_signature: &[u8]) -> (r: Result<(), FileverseError>)
        ensures
            r is Ok,
            final(self).spec_policy(contract_address@) == policy@,
            forall|c2: Seq<char>| c2 != contract_address@
                ==> #[trigger] final(self).spec_policy(c2) == old(self).spec_policy(c2),
            final(self).spec_cache().dom() == Set::<Seq<u8>>::empty(),
    {
        let entry = PolicyEntry { contract: String::from_str(contract_address), policy };
        match self.find_policy_index(contract_address) {
            Some(i) => {
                proof {
                    assert forall|c2: Seq<char>| true implies
                        spec_policy_in(self.contract_policies@.update(i as int, entry), c2)
                            == (if c2 == contract_address@ { Some(entry.policy@) } else {
                            spec_policy_in(self.contract_policies@, c2) }) by {
                        lemma_policy_update(self.contract_policies@, i as int, entry, c2);
                    };
                }
                let slot = vstd::std_specs::vec::vec_index_mut(&mut self.contract_policies,
                    i);
                *slot = entry;
            },
            None => {
                proof {
                    assert forall|c2: Seq<char>| true implies
                        spec_policy_in(self.contract_policies@.push(entry), c2)
                            == (if c2 == contract_address@ { Some(entry.policy@) } else {
                            spec_policy_in(self.contract_policies@, c2) }) by {
                        lemma_policy_push(self.contract_policies@, entry, c2);
                    };
                }
                self.contract_policies.push(entry);
            },
        }
        self.policy_cache.clear();
        Ok(())
    }
}

} // verus!
