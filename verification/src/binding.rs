//! The identity-binding verifier: proves each collaborator node's material
//! is bound to the expected contract/file pair and to the current topology.

use vstd::prelude::*;
use vstd::utf8::encode_utf8;
use vstd::string::StringExecFns;

use crate::cache::{lru_contents, LruMap};
use crate::crypto::{blake3_hash, blake3_of, ed25519_verify, ed25519_valid};
use crate::document::{FileverseNode, NodeView};
use crate::errors::FileverseError;
use crate::wire::{enc_str, push_len_str, push_raw, push_u64, str_eq, u64_le};

verus! {

/// The material whose BLAKE3 digest a node's binding signature must cover:
/// the topology hash, the node's fields and the working key.
pub open spec fn binding_payload(topology_hash: Seq<u8>, n: NodeView, key: Seq<u8>)
    -> Seq<u8> {
    topology_hash + encode_utf8(n.id) + encode_utf8(n.contract_address) + u64_le(n.file_id)
        + u64_le(n.energy) + u64_le(n.position_x) + u64_le(n.position_y) + u64_le(n.nonce)
        + key
}

/// A node whose binding verifies against the expected contract/file pair.
pub open spec fn spec_binding_valid(n: NodeView, topology_hash: Seq<u8>, key: Seq<u8>,
    contract: Seq<char>, file_id: u64) -> bool {
    &&& n.contract_address == contract
    &&& n.file_id == file_id
    &&& n.binding_signature.len() >= 64
    &&& ed25519_valid(n.public_key, blake3_of(binding_payload(topology_hash, n, key)),
        n.binding_signature.take(64))
}

/// Verifies node bindings for one contract/file pair, caching when each pair
/// was last verified for observability only: every call re-verifies.
pub struct DecentralizedBindingVerifier {
    expected_contract: String,
    expected_file_id: u64,
    contract_isolation_cache: LruMap,
}

impl DecentralizedBindingVerifier {
    pub closed spec fn spec_contract(&self) -> Seq<char> {
        self.expected_contract@
    }

    pub closed spec fn spec_file_id(&self) -> u64 {
        self.expected_file_id
    }

    pub closed spec fn spec_cache(&self) -> Map<Seq<u8>, (Seq<u8>, u64)> {
        lru_contents(&self.contract_isolation_cache)
    }

    pub open spec fn same_binding(&self, other: &Self) -> bool {
        &&& self.spec_contract() == other.spec_contract()
        &&& self.spec_file_id() == other.spec_file_id()
    }

    /// A verifier bound to one contract/file pair.
    pub fn new(expected_contract: &str, expected_file_id: u64) -> (r: Self)
        ensures
            r.spec_contract() == expected_contract@,
            r.spec_file_id() == expected_file_id,
            r.spec_cache().dom() == Set::<Seq<u8>>::empty(),
    {
        DecentralizedBindingVerifier {
            expected_contract: String::from_str(expected_contract),
            expected_file_id,
            contract_isolation_cache: LruMap::new(1000),
        }
    }

    /// Verifies one node's binding.
    ///
    /// A node bound to another contract or file fails with the cross-binding
    /// error no matter what its signature says; a correctly bound node
    /// succeeds exactly when its signature verifies the binding digest.
    pub fn verify_binding(&mut self, node: &FileverseNode, topology_hash: &[u8; 32],
        fileverse_key: &[u8; 32], now_ms: u64) -> (r: Result<(), FileverseError>)
        ensures
            final(self).same_binding(old(self)),
            node@.contract_address != old(self).spec_contract()
                ==> r == Err::<(), FileverseError>(FileverseError::CrossContractBinding)
                    && final(self).spec_cache() == old(self).spec_cache(),
            node@.contract_address == old(self).spec_contract()
                && node@.file_id != old(self).spec_file_id()
                ==> r == Err::<(), FileverseError>(FileverseError::CrossContractBinding)
                    && final(self).spec_cache() == old(self).spec_cache(),
            r is Ok <==> spec_binding_valid(node@, topology_hash@, fileverse_key@,
                old(self).spec_contract(), old(self).spec_file_id()),
            r is Err ==> r == Err::<(), FileverseError>(FileverseError::CrossContractBinding),
            r is Ok ==> final(self).spec_cache().dom().contains(
                enc_str(node@.contract_address) + u64_le(node@.file_id)),
    {
        if !str_eq(node.contract_address.as_str(), self.expected_contract.as_str()) {
            return Err(FileverseError::CrossContractBinding);
        }
        if node.file_id != self.expected_file_id {
            return Err(FileverseError::CrossContractBinding);
        }
        if node.binding_signature.len() < 64 {
            return Err(FileverseError::CrossContractBinding);
        }
        let mut payload: Vec<u8> = Vec::new();
        push_raw(&mut payload, topology_hash);
        push_raw(&mut payload, node.id.as_str().as_bytes());
        push_raw(&mut payload, node.contract_address.as_str().as_bytes());
        push_u64(&mut payload, node.file_id);
        push_u64(&mut payload, node.energy);
        push_u64(&mut payload, node.position_x);
        push_u64(&mut payload, node.position_y);
        push_u64(&mut payload, node.nonce);
        push_raw(&mut payload, fileverse_key);
        proof {
            assert(payload@ =~= binding_payload(topology_hash@, node@, fileverse_key@));
        }
        let digest = blake3_hash(payload.as_slice());
        let sig64 = crate::wire::copy_range(node.binding_signature.as_slice(), 0, 64);
        proof {
            assert(sig64@ =~= node@.binding_signature.take(64));
        }
        if !ed25519_verify(&node.public_key, &digest, sig64.as_slice()) {
            return Err(FileverseError::CrossContractBinding);
        }
        let mut cache_key: Vec<u8> = Vec::new();
        push_len_str(&mut cache_key, node.contract_address.as_str());
        push_u64(&mut cache_key, node.file_id);
        proof {
            assert(cache_key@ =~= enc_str(node@.contract_address) + u64_le(node@.file_id));
        }
        self.contract_isolation_cache.put(cache_key, Vec::new(), now_ms);
        Ok(())
    }

    /// Verifies every node of a batch; any single invalid node fails the
    /// whole batch.
    pub fn verify_bindings_batch(&mut self, nodes: &Vec<FileverseNode>,
        topology_hash: &[u8; 32], fileverse_key: &[u8; 32], now_ms: u64)
        -> (r: Result<(), FileverseError>)
        ensures
            final(self).same_binding(old(self)),
            r is Ok <==> forall|i: int| 0 <= i < nodes@.len()
                ==> spec_binding_valid((#[trigger] nodes@[i])@, topology_hash@,
                    fileverse_key@, old(self).spec_contract(), old(self).spec_file_id()),
            r is Err ==> r == Err::<(), FileverseError>(FileverseError::CrossContractBinding),
    {
        let n = nodes.len();
        let mut i: usize = 0;
        while i < n
            invariant
                n == nodes@.len(),
                i <= n,
                self.same_binding(old(self)),
                forall|j: int| 0 <= j < i ==> spec_binding_valid((#[trigger] nodes@[j])@,
                    topology_hash@, fileverse_key@, old(self).spec_contract(),
                    old(self).spec_file_id()),
            decreases n - i,
        {
            match self.verify_binding(&nodes[i], topology_hash, fileverse_key, now_ms) {
                Ok(_) => {},
                Err(e) => {
                    return Err(e);
                },
            }
            i = i + 1;
        }
        Ok(())
    }
}

} // verus!
