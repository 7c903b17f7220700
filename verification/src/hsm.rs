//! The signer/verifier: binds every signature to a registry contract, a file
//! and a version, caches recently produced signatures, and rotates the active
//! version through a compare-and-exchange discipline.

use vstd::prelude::*;
use vstd::utf8::encode_utf8;
use vstd::string::{StringExecFns, StringSliceAdditionalSpecFns};

use crate::cache::{lru_contents, LruMap};
use crate::crypto::{
    b64_url_decode, b64_url_decoded, ed25519_sign_fresh, ed25519_verify, ed25519_valid,
    sha3_256, sha3_256_of,
};
use crate::errors::FileverseError;
use crate::wire::{enc_str, push_len_str, push_raw, push_u64, str_eq, u64_le};

verus! {

/// Milliseconds a cached signature stays fresh.
pub const SIGNATURE_TTL_MS: u64 = 3_600_000;

/// The material hashed into the working key: a domain tag, the decoded
/// key bytes, and the contract/file binding.
pub open spec fn key_derivation_payload(key_bytes: Seq<u8>, contract: Seq<char>, file_id: u64)
    -> Seq<u8> {
    encode_utf8("FILEVERSE-KEY-DERIVATION"@) + key_bytes + encode_utf8(contract)
        + u64_le(file_id)
}

/// The material hashed into the registry verification key.
pub open spec fn public_key_payload(key: Seq<u8>, contract: Seq<char>, file_id: u64) -> Seq<u8> {
    encode_utf8("FILEVERSE-PUBLIC-KEY"@) + key + encode_utf8(contract) + u64_le(file_id)
}

/// A message bound to its contract, file and version before signing or
/// verification.
pub open spec fn bound_message(msg: Seq<u8>, contract: Seq<char>, file_id: u64, version: u64)
    -> Seq<u8> {
    msg + encode_utf8(contract) + u64_le(file_id) + u64_le(version)
}

/// The cache key under which a version's signature is stored.
pub open spec fn sig_cache_key(contract: Seq<char>, file_id: u64, version: u64) -> Seq<u8> {
    enc_str(contract) + u64_le(file_id) + u64_le(version)
}

/// Derives the 32-byte working key from a base64 key string bound to a
/// contract and file: rejects text that does not decode or decodes to fewer
/// than 32 bytes, and otherwise hashes the decoded bytes with the binding.
pub fn derive_fileverse_key(key_base64: &str, contract_address: &str, file_id: u64)
    -> (r: Result<[u8; 32], FileverseError>)
    ensures
        match b64_url_decoded(key_base64@) {
            Some(kb) => {
                if kb.len() >= 32 {
                    r matches Ok(k)
                        && k@ == sha3_256_of(key_derivation_payload(kb, contract_address@,
                            file_id))
                } else {
                    r matches Err(e) && e matches FileverseError::DecryptionError(_)
                }
            },
            None => r matches Err(e) && e matches FileverseError::DecryptionError(_),
        },
{
    let key_bytes = match b64_url_decode(key_base64) {
        Ok(kb) => kb,
        Err(_) => {
            return Err(FileverseError::DecryptionError(String::from_str(
                "key is not valid base64")));
        },
    };
    if key_bytes.len() < 32 {
        return Err(FileverseError::DecryptionError(String::from_str("key too short")));
    }
    let mut payload: Vec<u8> = Vec::new();
    push_raw(&mut payload, "FILEVERSE-KEY-DERIVATION".as_bytes());
    push_raw(&mut payload, key_bytes.as_slice());
    push_raw(&mut payload, contract_address.as_bytes());
    push_u64(&mut payload, file_id);
    proof {
        assert(payload@ =~= key_derivation_payload(key_bytes@, contract_address@, file_id));
    }
    Ok(sha3_256(payload.as_slice()))
}

/// The signer/verifier bound to one registry contract and file.
///
/// The active version only moves through `rotate_version`, whose
/// compare-and-exchange discipline makes one winner per observed value.
pub struct FileverseHsm {
    contract_address: String,
    file_id: u64,
    decryption_key: [u8; 32],
    version_cache: LruMap,
    current_version: u64,
    signatures: u64,
    verifications: u64,
    cache_hits: u64,
}

impl FileverseHsm {
    pub closed spec fn spec_contract(&self) -> Seq<char> {
        self.contract_address@
    }

    pub closed spec fn spec_file_id(&self) -> u64 {
        self.file_id
    }

    pub closed spec fn spec_key(&self) -> Seq<u8> {
        self.decryption_key@
    }

    pub closed spec fn spec_version(&self) -> u64 {
        self.current_version
    }

    pub closed spec fn spec_cache(&self) -> Map<Seq<u8>, (Seq<u8>, u64)> {
        lru_contents(&self.version_cache)
    }

    /// The verification key of the registry this signer is bound to.
    pub open spec fn spec_public_key(&self) -> Seq<u8> {
        sha3_256_of(public_key_payload(self.spec_key(), self.spec_contract(),
            self.spec_file_id()))
    }

    /// Everything except the version, the cache and the counters is frozen.
    pub open spec fn same_binding(&self, other: &Self) -> bool {
        &&& self.spec_contract() == other.spec_contract()
        &&& self.spec_file_id() == other.spec_file_id()
        &&& self.spec_key() == other.spec_key()
    }

    /// Builds a signer for the given contract and file from a base64 key
    /// string; fails exactly where key derivation fails.
    pub fn new(contract_address: &str, file_id: u64, decryption_key_base64: &str)
        -> (r: Result<Self, FileverseError>)
        ensures
            match b64_url_decoded(decryption_key_base64@) {
                Some(kb) => {
                    if kb.len() >= 32 {
                        r matches Ok(h) && {
                            &&& h.spec_contract() == contract_address@
                            &&& h.spec_file_id() == file_id
                            &&& h.spec_key() == sha3_256_of(key_derivation_payload(kb,
                                contract_address@, file_id))
                            &&& h.spec_version() == 0
                            &&& h.spec_cache().dom() == Set::<Seq<u8>>::empty()
                        }
                    } else {
                        r matches Err(e) && e matches FileverseError::DecryptionError(_)
                    }
                },
                None => r matches Err(e) && e matches FileverseError::DecryptionError(_),
            },
    {
        let decryption_key = match derive_fileverse_key(decryption_key_base64,
            contract_address, file_id) {
            Ok(k) => k,
            Err(e) => {
                return Err(e);
            },
        };
        Ok(FileverseHsm {
            contract_address: String::from_str(contract_address),
            file_id,
            decryption_key,
            version_cache: LruMap::new(1000),
            current_version: 0,
            signatures: 0,
            verifications: 0,
            cache_hits: 0,
        })
    }

    /// The registry verification key bytes, derived from the working key and
    /// the contract/file binding.
    pub fn get_fileverse_public_key(&self) -> (r: [u8; 32])
        ensures
            r@ == self.spec_public_key(),
    {
        let mut payload: Vec<u8> = Vec::new();
        push_raw(&mut payload, "FILEVERSE-PUBLIC-KEY".as_bytes());
        push_raw(&mut payload, &self.decryption_key);
        push_raw(&mut payload, self.contract_address.as_str().as_bytes());
        push_u64(&mut payload, self.file_id);
        proof {
            assert(payload@ =~= public_key_payload(self.spec_key(), self.spec_contract(),
                self.spec_file_id()));
        }
        sha3_256(payload.as_slice())
    }

    /// Verifies a signature bound to this contract and to the live version.
    ///
    /// Succeeds exactly on signatures that are valid over the bound message
    /// under the registry key while `version` is the live version and
    /// `expected_contract` is the bound contract; every other input is
    /// rejected as a stale or wrongly bound signature.
    pub fn verify_v1(&mut self, message: &[u8], signature: &[u8], version: u64,
        expected_contract: &str) -> (r: Result<(), FileverseError>)
        ensures
            final(self).same_binding(old(self)),
            final(self).spec_version() == old(self).spec_version(),
            final(self).spec_cache() == old(self).spec_cache(),
            expected_contract@ != old(self).spec_contract()
                ==> r == Err::<(), FileverseError>(FileverseError::StaleFileverseSignature),
            version != old(self).spec_version()
                ==> r == Err::<(), FileverseError>(FileverseError::StaleFileverseSignature),
            expected_contract@ == old(self).spec_contract()
                && version == old(self).spec_version() ==> {
                let valid = signature@.len() == 64 && ed25519_valid(old(self).spec_public_key(),
                    bound_message(message@, old(self).spec_contract(), old(self).spec_file_id(),
                        version), signature@);
                if valid {
                    r == Ok::<(), FileverseError>(())
                } else {
                    r == Err::<(), FileverseError>(FileverseError::StaleFileverseSignature)
                }
            },
    {
        if !str_eq(expected_contract, self.contract_address.as_str()) {
            return Err(FileverseError::StaleFileverseSignature);
        }
        if version != self.current_version {
            return Err(FileverseError::StaleFileverseSignature);
        }
        if signature.len() != 64 {
            return Err(FileverseError::StaleFileverseSignature);
        }
        let mut bound: Vec<u8> = Vec::new();
        push_raw(&mut bound, message);
        push_raw(&mut bound, self.contract_address.as_str().as_bytes());
        push_u64(&mut bound, self.file_id);
        push_u64(&mut bound, version);
        proof {
            assert(bound@ =~= bound_message(message@, self.spec_contract(),
                self.spec_file_id(), version));
        }
        let public_key = self.get_fileverse_public_key();
        if ed25519_verify(&public_key, bound.as_slice(), signature) {
            if self.verifications < u64::MAX {
                self.verifications = self.verifications + 1;
            }
            Ok(())
        } else {
            Err(FileverseError::StaleFileverseSignature)
        }
    }

    /// Signs a message under the live version, answering from the signature
    /// cache while the cached entry is fresh.
    ///
    /// The signing oracle draws fresh randomness, so the contract promises
    /// the signature's length, the cache discipline, and that a fresh cached
    /// signature for the live version is returned unchanged.
    pub fn sign_v1(&mut self, message: &[u8], now_ms: u64) -> (r: Result<Vec<u8>, FileverseError>)
        ensures
            final(self).same_binding(old(self)),
            final(self).spec_version() == old(self).spec_version(),
            r matches Ok(s) ==> s@.len() == 64,
            r is Ok,
            ({
                let key = sig_cache_key(old(self).spec_contract(), old(self).spec_file_id(),
                    old(self).spec_version());
                old(self).spec_cache().dom().contains(key)
                    && old(self).spec_cache()[key].0.len() == 64
                    && now_ms < old(self).spec_cache()[key].1 + SIGNATURE_TTL_MS
                    ==> {
                        &&& (r matches Ok(s) && s@ == old(self).spec_cache()[key].0)
                        &&& final(self).spec_cache() == old(self).spec_cache()
                    }
            }),
            ({
                let key = sig_cache_key(final(self).spec_contract(), final(self).spec_file_id(),
                    final(self).spec_version());
                let hit = old(self).spec_cache().dom().contains(key)
                    && old(self).spec_cache()[key].0.len() == 64
                    && now_ms < old(self).spec_cache()[key].1 + SIGNATURE_TTL_MS;
                &&& final(self).spec_cache().dom().contains(key)
                &&& (r matches Ok(s) ==> final(self).spec_cache()[key].0 == s@)
                &&& (!hit ==> (r matches Ok(s)
                    && final(self).spec_cache()[key] == (s@, now_ms)))
            }),
    {
        let ghost key_spec = sig_cache_key(self.spec_contract(), self.spec_file_id(),
            self.spec_version());
        let mut cache_key: Vec<u8> = Vec::new();
        push_len_str(&mut cache_key, self.contract_address.as_str());
        push_u64(&mut cache_key, self.file_id);
        push_u64(&mut cache_key, self.current_version);
        proof {
            assert(cache_key@ =~= key_spec);
        }
        match self.version_cache.get(&cache_key) {
            Some((sig, created)) => {
                let fresh = if created <= u64::MAX - SIGNATURE_TTL_MS {
                    now_ms < created + SIGNATURE_TTL_MS
                } else {
                    true
                };
                if sig.len() == 64 && fresh {
                    if self.cache_hits < u64::MAX {
                        self.cache_hits = self.cache_hits + 1;
                    }
                    return Ok(sig);
                }
            },
            None => {},
        }
        let mut bound: Vec<u8> = Vec::new();
        push_raw(&mut bound, message);
        push_raw(&mut bound, self.contract_address.as_str().as_bytes());
        push_u64(&mut bound, self.file_id);
        push_u64(&mut bound, self.current_version);
        let signature = ed25519_sign_fresh(bound.as_slice());
        self.version_cache.put(cache_key, signature.clone(), now_ms);
        if self.signatures < u64::MAX {
            self.signatures = self.signatures + 1;
        }
        Ok(signature)
    }

    /// Rotates the active version by compare-and-exchange on the value the
    /// caller observed: the caller that still holds the live value wins and
    /// moves the version up by one, clearing the signature cache; every other
    /// caller loses the race and is told so.
    pub fn rotate_version(&mut self, observed: u64) -> (r: Result<(), FileverseError>)
        requires
            old(self).spec_version() < u64::MAX,
        ensures
            final(self).same_binding(old(self)),
            observed == old(self).spec_version() ==> {
                &&& r == Ok::<(), FileverseError>(())
                &&& final(self).spec_version() == observed + 1
                &&& final(self).spec_cache().dom() == Set::<Seq<u8>>::empty()
            },
            observed != old(self).spec_version() ==> {
                &&& r == Err::<(), FileverseError>(FileverseError::DualRotationAttack)
                &&& final(self).spec_version() == old(self).spec_version()
                &&& final(self).spec_cache() == old(self).spec_cache()
            },
    {
        if observed != self.current_version {
            return Err(FileverseError::DualRotationAttack);
        }
        self.current_version = self.current_version + 1;
        self.version_cache.clear();
        Ok(())
    }

    /// The live version, as a caller must read it before rotating.
    pub fn current_version(&self) -> (r: u64)
        ensures
            r == self.spec_version(),
    {
        self.current_version
    }
}

/// Of two rotations that observed the same live version, at most one can
/// succeed: a successful rotation moves the version past the observed value,
/// so the second compare must fail and report the race.  With
/// `rotate_version`'s contract this pins the outcome of every interleaving of
/// two racing rotations: one `Ok`, one `DualRotationAttack`.
pub proof fn lemma_rotation_race_single_winner(observed: u64, version_after_winner: u64)
    requires
        version_after_winner == observed + 1,
    ensures
        version_after_winner != observed,
{
}

} // verus!
