//! The orchestrator: the full submit/fetch pipeline, running every invariant
//! check in order inside the circuit breaker and publishing only when all of
//! them pass.

use vstd::prelude::*;
use vstd::utf8::encode_utf8;
use vstd::string::StringExecFns;

use crate::acl::FileverseAcl;
use crate::binding::{spec_binding_valid, DecentralizedBindingVerifier};
use crate::breaker::{ArweaveFallback, BreakerState, FileverseCircuitBreaker};
use crate::crypto::{blake3_hash, blake3_of, ed25519_valid};
use crate::document::{enc_document, encode_document, nodes_view, CollaborativeDocument,
    FileverseNode, NodeView};
use crate::errors::FileverseError;
use crate::graph::{edges_admissible_from, overlaid_degree, spec_edges_admissible,
    CollaborativeGraph};
use crate::hsm::{bound_message, FileverseHsm};
use crate::replay::FileverseReplayDetector;
use crate::rotator::FileverseAeadRotator;
use crate::table::CounterTable;
use crate::wire::{hex_of, push_raw, push_u64, to_hex, u64_le};

verus! {

/// The digest of a document that its authenticity signature covers: the
/// topology hash, the integrity root, the version and the sequence.
pub open spec fn spec_validation_digest(d: crate::document::DocumentView) -> Seq<u8> {
    blake3_of(d.topology_hash + d.merkle_root + u64_le(d.version) + u64_le(d.sequence))
}

/// Whether a document's signature verifies under the live version of the
/// signer it is submitted to.
pub open spec fn spec_signature_ok(hsm: FileverseHsm, d: crate::document::DocumentView)
    -> bool {
    &&& d.contract_address == hsm.spec_contract()
    &&& d.version == hsm.spec_version()
    &&& d.fileverse_signature.len() == 64
    &&& ed25519_valid(hsm.spec_public_key(), bound_message(spec_validation_digest(d),
        hsm.spec_contract(), hsm.spec_file_id(), d.version), d.fileverse_signature)
}

/// Whether every node of a document carries a valid binding.
pub open spec fn spec_bindings_ok(v: DecentralizedBindingVerifier,
    d: crate::document::DocumentView, key: Seq<u8>) -> bool {
    forall|i: int| 0 <= i < d.nodes.len() ==> spec_binding_valid(#[trigger] d.nodes[i],
        d.topology_hash, key, v.spec_contract(), v.spec_file_id())
}

/// The concatenated leaf digests of a document's collaborator set.
pub open spec fn spec_leaves(nodes: Seq<NodeView>) -> Seq<u8>
    decreases nodes.len(),
{
    if nodes.len() == 0 {
        Seq::<u8>::empty()
    } else {
        blake3_of(encode_utf8(nodes[0].id)) + spec_leaves(nodes.drop_first())
    }
}

/// The integrity root of a collaborator set: the digest of its leaf digests.
pub open spec fn spec_integrity_root(nodes: Seq<NodeView>) -> Seq<u8> {
    blake3_of(spec_leaves(nodes))
}

/// The leaf run of a prefix grows by one node's leaf digest.
proof fn lemma_leaves_take(nodes: Seq<NodeView>, i: int)
    requires
        0 <= i < nodes.len(),
    ensures
        spec_leaves(nodes.take(i + 1)) == spec_leaves(nodes.take(i)) + blake3_of(
            encode_utf8(nodes[i].id)),
    decreases i,
{
    if i == 0 {
        assert(nodes.take(1) =~= seq![nodes[0]]);
        assert(nodes.take(0) =~= Seq::<NodeView>::empty());
        assert(nodes.take(1).drop_first() =~= Seq::<NodeView>::empty());
        assert(spec_leaves(Seq::<NodeView>::empty()) == Seq::<u8>::empty());
        assert(spec_leaves(nodes.take(1)) =~= spec_leaves(nodes.take(0)) + blake3_of(
            encode_utf8(nodes[0].id)));
    } else {
        assert(nodes.take(i + 1)[0] == nodes[0]);
        assert(nodes.take(i)[0] == nodes[0]);
        assert(nodes.take(i + 1).drop_first() =~= nodes.drop_first().take(i));
        assert(nodes.take(i).drop_first() =~= nodes.drop_first().take(i - 1));
        assert(nodes.drop_first()[i - 1] == nodes[i]);
        lemma_leaves_take(nodes.drop_first(), i - 1);
        assert(spec_leaves(nodes.take(i + 1)) =~= spec_leaves(nodes.take(i)) + blake3_of(
            encode_utf8(nodes[i].id)));
    }
}

/// Recomputes the integrity root over a collaborator set.
pub fn compute_integrity_root(nodes: &Vec<FileverseNode>) -> (r: [u8; 32])
    ensures
        r@ == spec_integrity_root(nodes_view(nodes@)),
{
    let mut leaves: Vec<u8> = Vec::new();
    let n = nodes.len();
    let mut i: usize = 0;
    proof {
        assert(nodes_view(nodes@).take(0) =~= Seq::<NodeView>::empty());
        assert(leaves@ =~= spec_leaves(nodes_view(nodes@).take(0)));
    }
    while i < n
        invariant
            n == nodes@.len(),
            i <= n,
            leaves@ == spec_leaves(nodes_view(nodes@).take(i as int)),
        decreases n - i,
    {
        let leaf = blake3_hash(nodes[i].id.as_str().as_bytes());
        push_raw(&mut leaves, &leaf);
        proof {
            lemma_leaves_take(nodes_view(nodes@), i as int);
            assert(nodes_view(nodes@)[i as int] == nodes@[i as int]@);
        }
        i = i + 1;
    }
    proof {
        assert(nodes_view(nodes@).take(n as int) =~= nodes_view(nodes@));
    }
    blake3_hash(leaves.as_slice())
}

/// The edge tuples of a document, as the graph records them.
pub open spec fn spec_doc_edge_tuples(d: crate::document::DocumentView, contract: Seq<char>)
    -> Seq<(Seq<char>, Seq<char>, Seq<char>, Seq<char>)> {
    d.edges.map_values(|e: crate::document::EdgeView| (contract, e.from, e.to,
        e.collaboration_type))
}

/// The collaborative store: every component of the commit path, owned
/// together and driven by plain clock readings.
pub struct FileverseCollaborativeStore {
    pub hsm: FileverseHsm,
    pub binding_verifier: DecentralizedBindingVerifier,
    pub acl: FileverseAcl,
    pub graph: CollaborativeGraph,
    pub rotator: FileverseAeadRotator,
    pub replay: FileverseReplayDetector,
    pub breaker: FileverseCircuitBreaker,
    pub arweave_fallback: ArweaveFallback,
    pub contract_address: String,
    pub file_id: u64,
    pub decryption_key: [u8; 32],
    pub metrics: CounterTable,
}

impl FileverseCollaborativeStore {
    pub closed spec fn spec_contract(&self) -> Seq<char> {
        self.contract_address@
    }

    pub closed spec fn spec_file_id(&self) -> u64 {
        self.file_id
    }

    pub closed spec fn spec_key(&self) -> Seq<u8> {
        self.decryption_key@
    }

    pub closed spec fn spec_metric(&self, name: Seq<char>) -> u64 {
        self.metrics.spec_get(name)
    }

    /// Every metric pair the store holds.
    pub closed spec fn spec_metric_pairs(&self) -> Seq<(Seq<char>, u64)> {
        self.metrics.spec_pairs()
    }

    /// The machine-level bounds the components were constructed under.
    pub open spec fn wf(&self) -> bool {
        &&& self.replay.spec_window_size() >= 1
        &&& self.rotator.spec_counter() < u64::MAX
    }

    /// Builds the store and all its components for one contract and file;
    /// fails exactly where key derivation fails.
    pub fn new(contract_address: &str, file_id: u64, decryption_key_base64: &str)
        -> (r: Result<Self, FileverseError>)
        ensures
            r matches Ok(s) ==> {
                &&& s.wf()
                &&& s.spec_contract() == contract_address@
                &&& s.spec_file_id() == file_id
                &&& s.hsm.spec_contract() == contract_address@
                &&& s.hsm.spec_version() == 0
                &&& s.spec_key() == s.hsm.spec_key()
                &&& s.rotator.spec_root() == s.spec_key()
                &&& s.breaker.spec_state() == BreakerState::Closed
            },
            r matches Err(e) ==> e matches FileverseError::DecryptionError(_),
    {
        let hsm = match FileverseHsm::new(contract_address, file_id,
            decryption_key_base64) {
            Ok(h) => h,
            Err(e) => {
                return Err(e);
            },
        };
        let decryption_key = match crate::hsm::derive_fileverse_key(decryption_key_base64,
            contract_address, file_id) {
            Ok(k) => k,
            Err(e) => {
                return Err(e);
            },
        };
        let rotator = FileverseAeadRotator::new(decryption_key, 3600, contract_address,
            file_id);
        Ok(FileverseCollaborativeStore {
            hsm,
            binding_verifier: DecentralizedBindingVerifier::new(contract_address, file_id),
            acl: FileverseAcl::new(),
            graph: CollaborativeGraph::new(),
            rotator,
            replay: FileverseReplayDetector::new(10000),
            breaker: FileverseCircuitBreaker::new(5, 300_000),
            arweave_fallback: ArweaveFallback::new(contract_address, file_id),
            contract_address: String::from_str(contract_address),
            file_id,
            decryption_key,
            metrics: CounterTable::new(),
        })
    }

    /// Runs the whole validation chain over one submitted edit, in order:
    /// authenticity, identity bindings, authorization, graph bounds with the
    /// eclipse check, the integrity root, and replay.
    ///
    /// Any failure aborts the edit with that stage's error.  Edges committed
    /// to the graph before a later stage fails stay committed: each edge is
    /// one atomic transaction, and partial application across one edit is
    /// accepted and documented behaviour.
    pub fn validate_document(&mut self, document: &CollaborativeDocument, editor_id: &str,
        now_ms: u64) -> (r: Result<(), FileverseError>)
        requires
            old(self).wf(),
        ensures
            final(self).wf(),
            final(self).spec_contract() == old(self).spec_contract(),
            final(self).spec_key() == old(self).spec_key(),
            r == Err::<(), FileverseError>(FileverseError::StaleFileverseSignature)
                <==> !spec_signature_ok(old(self).hsm, document@),
            r == Err::<(), FileverseError>(FileverseError::CrossContractBinding)
                <==> spec_signature_ok(old(self).hsm, document@)
                    && !spec_bindings_ok(old(self).binding_verifier, document@,
                        old(self).spec_key()),
            r == Err::<(), FileverseError>(FileverseError::AclTimingOracle)
                <==> spec_signature_ok(old(self).hsm, document@)
                    && spec_bindings_ok(old(self).binding_verifier, document@,
                        old(self).spec_key())
                    && !old(self).acl.spec_authorized(editor_id@,
                        document@.contract_address, document@.file_id, "edit"@, now_ms),
            (r matches Err(e) && e matches FileverseError::CollaborativeDegreeViolation(_))
                ==> spec_signature_ok(old(self).hsm, document@)
                    && spec_bindings_ok(old(self).binding_verifier, document@,
                        old(self).spec_key())
                    && old(self).acl.spec_authorized(editor_id@,
                        document@.contract_address, document@.file_id, "edit"@, now_ms),
            r == Err::<(), FileverseError>(FileverseError::DocumentForkCollision)
                ==> document@.merkle_root != spec_integrity_root(document@.nodes),
            spec_signature_ok(old(self).hsm, document@)
                && spec_bindings_ok(old(self).binding_verifier, document@,
                    old(self).spec_key())
                && old(self).acl.spec_authorized(editor_id@, document@.contract_address,
                    document@.file_id, "edit"@, now_ms)
                && old(self).graph.bounded()
                && spec_edges_admissible(old(self).graph, document@.contract_address,
                    document@.edges)
                && document@.merkle_root != spec_integrity_root(document@.nodes)
                ==> r == Err::<(), FileverseError>(FileverseError::DocumentForkCollision),
            spec_signature_ok(old(self).hsm, document@)
                && spec_bindings_ok(old(self).binding_verifier, document@,
                    old(self).spec_key())
                && old(self).acl.spec_authorized(editor_id@, document@.contract_address,
                    document@.file_id, "edit"@, now_ms)
                && old(self).graph.bounded()
                && spec_edges_admissible(old(self).graph, document@.contract_address,
                    document@.edges)
                && document@.merkle_root == spec_integrity_root(document@.nodes)
                ==> (r is Ok
                    || r == Err::<(), FileverseError>(FileverseError::DocumentReplay)
                    || (r matches Err(e)
                        && e matches FileverseError::RateLimitExceeded(_))),
            r is Ok ==> {
                &&& spec_signature_ok(old(self).hsm, document@)
                &&& spec_bindings_ok(old(self).binding_verifier, document@,
                    old(self).spec_key())
                &&& document@.merkle_root == spec_integrity_root(document@.nodes)
                &&& final(self).graph.spec_edges() == old(self).graph.spec_edges()
                    + spec_doc_edge_tuples(document@, document@.contract_address)
                &&& final(self).replay.spec_floor(document@.contract_address)
                    == document@.sequence
            },
            old(self).graph.bounded() ==> final(self).graph.bounded(),
            final(self).rotator == old(self).rotator,
            final(self).breaker == old(self).breaker,
            final(self).arweave_fallback == old(self).arweave_fallback,
            final(self).metrics == old(self).metrics,
    {
        let mut digest_input: Vec<u8> = Vec::new();
        push_raw(&mut digest_input, &document.topology_hash);
        push_raw(&mut digest_input, &document.merkle_root);
        push_u64(&mut digest_input, document.version);
        push_u64(&mut digest_input, document.sequence);
        proof {
            assert(digest_input@ =~= document@.topology_hash + document@.merkle_root
                + u64_le(document@.version) + u64_le(document@.sequence));
        }
        let digest = blake3_hash(digest_input.as_slice());
        proof {
            assert(digest@ == spec_validation_digest(document@));
        }
        match self.hsm.verify_v1(&digest, document.fileverse_signature.as_slice(),
            document.version, document.contract_address.as_str()) {
            Ok(_) => {
                proof {
                    assert(spec_signature_ok(old(self).hsm, document@));
                }
            },
            Err(e) => {
                proof {
                    assert(!spec_signature_ok(old(self).hsm, document@));
                }
                return Err(e);
            },
        }
        match self.binding_verifier.verify_bindings_batch(&document.nodes,
            &document.topology_hash, &self.decryption_key, now_ms) {
            Ok(_) => {
                proof {
                    assert(spec_bindings_ok(old(self).binding_verifier, document@,
                        old(self).spec_key())) by {
                        assert forall|i: int| 0 <= i < document@.nodes.len() implies
                            spec_binding_valid(#[trigger] document@.nodes[i],
                                document@.topology_hash, old(self).spec_key(),
                                old(self).binding_verifier.spec_contract(),
                                old(self).binding_verifier.spec_file_id()) by {
                            assert(document@.nodes[i] == document.nodes@[i]@);
                        };
                    };
                }
            },
            Err(e) => {
                proof {
                    if spec_bindings_ok(old(self).binding_verifier, document@,
                        old(self).spec_key()) {
                        assert forall|i: int| 0 <= i < document.nodes@.len() implies
                            spec_binding_valid((#[trigger] document.nodes@[i])@,
                                document@.topology_hash, old(self).spec_key(),
                                old(self).binding_verifier.spec_contract(),
                                old(self).binding_verifier.spec_file_id()) by {
                            assert(document@.nodes[i] == document.nodes@[i]@);
                        };
                        assert(false);
                    }
                }
                return Err(e);
            },
        }
        let authorized = match self.acl.is_authorized(editor_id,
            document.contract_address.as_str(), document.file_id, "edit", now_ms) {
            Ok(b) => b,
            Err(e) => {
                return Err(e);
            },
        };
        proof {
            assert(authorized == old(self).acl.spec_authorized(editor_id@,
                document@.contract_address, document@.file_id, "edit"@, now_ms));
        }
        if !authorized {
            return Err(FileverseError::AclTimingOracle);
        }
        let edge_count = document.edges.len();
        let ghost pre_loop = *self;
        let ghost doc_key = document@.contract_address;
        let ghost mut bumped: Map<Seq<char>, u32> = Map::<Seq<char>, u32>::empty();
        let mut i: usize = 0;
        proof {
            assert(spec_doc_edge_tuples(document@, document@.contract_address).take(0)
                =~= Seq::<(Seq<char>, Seq<char>, Seq<char>, Seq<char>)>::empty());
            assert(self.graph.spec_edges() =~= old(self).graph.spec_edges()
                + spec_doc_edge_tuples(document@, document@.contract_address).take(0));
            assert(document@.edges.skip(0) =~= document@.edges);
        }
        while i < edge_count
            invariant
                edge_count == document@.edges.len(),
                i <= edge_count,
                self.wf(),
                spec_signature_ok(old(self).hsm, document@),
                spec_bindings_ok(old(self).binding_verifier, document@,
                    old(self).spec_key()),
                old(self).acl.spec_authorized(editor_id@, document@.contract_address,
                    document@.file_id, "edit"@, now_ms),
                doc_key == document@.contract_address,
                self.graph.spec_edges() == old(self).graph.spec_edges()
                    + spec_doc_edge_tuples(document@, document@.contract_address).take(
                    i as int),
                old(self).graph.bounded() ==> self.graph.bounded(),
                self.graph.spec_max() == old(self).graph.spec_max(),
                forall|n: Seq<char>| #[trigger] self.graph.spec_degree(doc_key, n)
                    == overlaid_degree(old(self).graph, doc_key, bumped, n),
                spec_edges_admissible(old(self).graph, doc_key, document@.edges)
                    <==> edges_admissible_from(old(self).graph, doc_key, bumped,
                        document@.edges.skip(i as int)),
                self.hsm == pre_loop.hsm,
                self.binding_verifier == pre_loop.binding_verifier,
                self.acl == pre_loop.acl,
                self.rotator == pre_loop.rotator,
                self.replay == pre_loop.replay,
                self.breaker == pre_loop.breaker,
                self.arweave_fallback == pre_loop.arweave_fallback,
                self.contract_address == pre_loop.contract_address,
                self.file_id == pre_loop.file_id,
                self.decryption_key == pre_loop.decryption_key,
                self.metrics == pre_loop.metrics,
                pre_loop.contract_address@ == old(self).spec_contract(),
                pre_loop.decryption_key@ == old(self).spec_key(),
                pre_loop.replay.spec_window_size() >= 1,
                pre_loop.rotator.spec_counter() < u64::MAX,
                pre_loop.rotator == old(self).rotator,
                pre_loop.breaker == old(self).breaker,
                pre_loop.arweave_fallback == old(self).arweave_fallback,
                pre_loop.metrics == old(self).metrics,
            decreases edge_count - i,
        {
            let edge = &document.edges[i];
            let ghost g_pre = self.graph;
            let ghost ev = document@.edges[i as int];
            proof {
                assert(document@.edges.skip(i as int)[0] == ev);
                assert(document@.edges.skip(i as int).drop_first()
                    =~= document@.edges.skip(i + 1));
            }
            match self.graph.add_collaboration(document.contract_address.as_str(),
                edge.from.as_str(), edge.to.as_str(), edge.collaboration_type.as_str()) {
                Ok(_) => {},
                Err(e) => {
                    proof {
                        assert(!(crate::graph::spec_valid_type(ev.collaboration_type)
                            && g_pre.spec_degree(doc_key, ev.from) < g_pre.spec_max()
                            && g_pre.spec_degree(doc_key, ev.to) < g_pre.spec_max()));
                        assert(!edges_admissible_from(old(self).graph, doc_key, bumped,
                            document@.edges.skip(i as int)));
                        assert(!spec_edges_admissible(old(self).graph, doc_key,
                            document@.edges));
                    }
                    return Err(e);
                },
            }
            proof {
                assert(spec_doc_edge_tuples(document@, document@.contract_address).take(
                    i + 1) =~= spec_doc_edge_tuples(document@,
                    document@.contract_address).take(i as int).push((
                    document@.contract_address, document@.edges[i as int].from,
                    document@.edges[i as int].to,
                    document@.edges[i as int].collaboration_type)));
                assert(self.graph.spec_edges() =~= old(self).graph.spec_edges()
                    + spec_doc_edge_tuples(document@, document@.contract_address).take(
                    i + 1));
                let df = g_pre.spec_degree(doc_key, ev.from);
                let dt = g_pre.spec_degree(doc_key, ev.to);
                assert(crate::graph::spec_valid_type(ev.collaboration_type)
                    && df < g_pre.spec_max() && dt < g_pre.spec_max());
                let prior = bumped;
                bumped = bumped.insert(ev.from, (df + 1) as u32).insert(ev.to,
                    (dt + 1) as u32);
                assert forall|n: Seq<char>| #[trigger] self.graph.spec_degree(doc_key, n)
                    == overlaid_degree(old(self).graph, doc_key, bumped, n) by {
                    if n == ev.to {
                        assert(self.graph.spec_degree(doc_key, ev.to) == dt + 1);
                    } else if n == ev.from {
                        assert(self.graph.spec_degree(doc_key, ev.from) == df + 1);
                    } else {
                        assert(self.graph.spec_degree(doc_key, n)
                            == g_pre.spec_degree(doc_key, n));
                        assert(g_pre.spec_degree(doc_key, n)
                            == overlaid_degree(old(self).graph, doc_key, prior, n));
                    }
                };
                assert(df == overlaid_degree(old(self).graph, doc_key, prior, ev.from));
                assert(dt == overlaid_degree(old(self).graph, doc_key, prior, ev.to));
                assert(edges_admissible_from(old(self).graph, doc_key, prior,
                    document@.edges.skip(i as int))
                    <==> edges_admissible_from(old(self).graph, doc_key, bumped,
                        document@.edges.skip(i + 1)));
            }
            i = i + 1;
        }
        proof {
            assert(spec_doc_edge_tuples(document@, document@.contract_address).take(
                edge_count as int) =~= spec_doc_edge_tuples(document@,
                document@.contract_address));
            assert(document@.edges.skip(edge_count as int)
                =~= Seq::<crate::document::EdgeView>::empty());
        }
        if self.graph.check_eclipse_attack(document.contract_address.as_str()) {
            proof {
                assert(!old(self).graph.bounded());
            }
            return Err(FileverseError::CollaborativeDegreeViolation(String::from_str(
                "Eclipse attack detected")));
        }
        let computed_root = compute_integrity_root(&document.nodes);
        if !crate::wire::bytes_eq(&computed_root, &document.merkle_root) {
            return Err(FileverseError::DocumentForkCollision);
        }
        match self.replay.check_document_replay(document.contract_address.as_str(),
            document.sequence, editor_id) {
            Ok(_) => {},
            Err(e) => {
                return Err(e);
            },
        }
        Ok(())
    }

    /// Publishes a validated document: rotates the session key when it is
    /// due, and names the document by the hexadecimal digest of its canonical
    /// encoding, the identifier under which the embedding program stores it.
    pub fn publish_document(&mut self, document: &CollaborativeDocument, now_ms: u64)
        -> (r: Result<String, FileverseError>)
        requires
            old(self).wf(),
        ensures
            final(self).wf(),
            r matches Ok(s) ==> s@ == hex_of(blake3_of(enc_document(document@))),
            r is Ok,
            final(self).rotator.same_binding(&old(self).rotator),
            old(self).rotator.spec_counter() < old(self).rotator.spec_interval()
                ==> final(self).rotator == old(self).rotator,
            old(self).rotator.spec_counter() >= old(self).rotator.spec_interval() ==> {
                &&& final(self).rotator.spec_counter() == 0
                &&& final(self).rotator.spec_key() == crate::rotator::spec_session_key(
                    old(self).rotator.spec_root(),
                    (old(self).rotator.spec_counter() + 1) as u64,
                    old(self).rotator.spec_contract(), old(self).rotator.spec_file_id())
                &&& final(self).rotator.spec_events()
                    == old(self).rotator.spec_events().push(
                    ((old(self).rotator.spec_counter() + 1) as u64, now_ms))
            },
            final(self).hsm == old(self).hsm,
            final(self).binding_verifier == old(self).binding_verifier,
            final(self).acl == old(self).acl,
            final(self).graph == old(self).graph,
            final(self).replay == old(self).replay,
            final(self).breaker == old(self).breaker,
            final(self).arweave_fallback == old(self).arweave_fallback,
            final(self).metrics == old(self).metrics,
    {
        let observed = self.rotator.rotation_counter();
        match self.rotator.rotate(observed, now_ms) {
            Ok(_) => {},
            Err(_) => {},
        }
        let encoded = encode_document(document);
        let content_id = blake3_hash(encoded.as_slice());
        Ok(to_hex(&content_id))
    }

    /// Submits one document edit through the circuit breaker: while the
    /// breaker admits the call, the edit is validated and published, the
    /// outcome is recorded, and any validation failure is surfaced to the
    /// caller verbatim; while the breaker short-circuits the call, the answer
    /// comes from the fallback cache or fails as an outage.
    #[verifier::rlimit(100)]
    #[verifier::spinoff_prover]
    pub fn submit_document_edit(&mut self, document: &CollaborativeDocument,
        editor_id: &str, now_ms: u64) -> (r: Result<String, FileverseError>)
        requires
            old(self).wf(),
        ensures
            final(self).wf(),
            ({
                let fb = crate::breaker::spec_fallback_payload(
                    old(self).arweave_fallback.spec_cache(),
                    crate::breaker::fallback_key(document@.contract_address), now_ms);
                let sig = spec_signature_ok(old(self).hsm, document@);
                let bind = spec_bindings_ok(old(self).binding_verifier, document@,
                    old(self).spec_key());
                let auth = old(self).acl.spec_authorized(editor_id@,
                    document@.contract_address, document@.file_id, "edit"@, now_ms);
                &&& (old(self).breaker.routes_to_fallback(now_ms) ==> {
                    &&& (match fb {
                        Some(p) => r matches Ok(s) && s@ == p,
                        None => r == Err::<String, FileverseError>(
                            FileverseError::GatewayOutage),
                    })
                    &&& final(self).hsm == old(self).hsm
                    &&& final(self).binding_verifier == old(self).binding_verifier
                    &&& final(self).acl == old(self).acl
                    &&& final(self).graph == old(self).graph
                    &&& final(self).rotator == old(self).rotator
                    &&& final(self).replay == old(self).replay
                    &&& final(self).metrics == old(self).metrics
                })
                &&& (!old(self).breaker.routes_to_fallback(now_ms) ==> {
                    &&& !final(self).breaker.spec_trial_in_flight()
                    &&& (r == Err::<String, FileverseError>(
                        FileverseError::StaleFileverseSignature) <==> !sig)
                    &&& (r == Err::<String, FileverseError>(
                        FileverseError::CrossContractBinding) <==> sig && !bind)
                    &&& (r == Err::<String, FileverseError>(
                        FileverseError::AclTimingOracle) <==> sig && bind && !auth)
                    &&& (sig && bind && auth && old(self).graph.bounded()
                        && spec_edges_admissible(old(self).graph,
                            document@.contract_address, document@.edges)
                        && document@.merkle_root == spec_integrity_root(document@.nodes)
                        ==> (r is Ok
                            || r == Err::<String, FileverseError>(
                                FileverseError::DocumentReplay)
                            || (r matches Err(e)
                                && e matches FileverseError::RateLimitExceeded(_))))
                    &&& (r matches Ok(s) ==> {
                        &&& sig
                        &&& bind
                        &&& document@.merkle_root == spec_integrity_root(document@.nodes)
                        &&& final(self).replay.spec_floor(document@.contract_address)
                            == document@.sequence
                        &&& s@ == hex_of(blake3_of(enc_document(document@)))
                        &&& final(self).breaker.spec_failures() == 0
                    })
                    &&& (r is Err ==> final(self).breaker.spec_successes() == 0)
                    &&& (r is Ok ==> final(self).spec_metric("document_edit_success"@)
                        == if old(self).spec_metric("document_edit_success"@) + 1
                            <= u64::MAX { (old(self).spec_metric(
                            "document_edit_success"@) + 1) as u64 } else { u64::MAX })
                    &&& (r is Err ==> final(self).spec_metric("document_edit_failure"@)
                        == if old(self).spec_metric("document_edit_failure"@) + 1
                            <= u64::MAX { (old(self).spec_metric(
                            "document_edit_failure"@) + 1) as u64 } else { u64::MAX })
                })
            }),
    {
        if self.breaker.is_open(now_ms) {
            match self.arweave_fallback.read_cached(document.contract_address.as_str(),
                now_ms) {
                Some(data) => {
                    match crate::wire::utf8_to_string(data) {
                        Ok(s) => {
                            return Ok(s);
                        },
                        Err(_) => {
                            return Err(FileverseError::GatewayOutage);
                        },
                    }
                },
                None => {
                    return Err(FileverseError::GatewayOutage);
                },
            }
        }
        let verdict = self.validate_document(document, editor_id, now_ms);
        let outcome: Result<String, FileverseError> = match verdict {
            Ok(_) => {
                let tx_id = match self.publish_document(document, now_ms) {
                    Ok(s) => s,
                    Err(e) => {
                        return self.record_rejection(e, now_ms);
                    },
                };
                self.breaker.record_success();
                Ok(tx_id)
            },
            Err(e) => {
                return self.record_rejection(e, now_ms);
            },
        };
        self.metrics.bump("document_edit_success", 1);
        outcome
    }

    /// Records a rejected admitted call against the breaker and the failure
    /// metric, and surfaces the stage's error to the caller verbatim.
    fn record_rejection(&mut self, error: FileverseError, now_ms: u64)
        -> (r: Result<String, FileverseError>)
        ensures
            FileverseCircuitBreaker::failure_recorded(old(self).breaker,
                final(self).breaker, now_ms),
            final(self).hsm == old(self).hsm,
            final(self).binding_verifier == old(self).binding_verifier,
            final(self).acl == old(self).acl,
            final(self).graph == old(self).graph,
            final(self).rotator == old(self).rotator,
            final(self).replay == old(self).replay,
            final(self).arweave_fallback == old(self).arweave_fallback,
            final(self).spec_metric("document_edit_failure"@)
                == if old(self).spec_metric("document_edit_failure"@) + 1 <= u64::MAX {
                (old(self).spec_metric("document_edit_failure"@) + 1) as u64 } else {
                u64::MAX },
            forall|k: Seq<char>| k != "document_edit_failure"@
                ==> #[trigger] final(self).spec_metric(k) == old(self).spec_metric(k),
            r == Err::<String, FileverseError>(error),
    {
        self.breaker.record_failure(now_ms);
        self.metrics.bump("document_edit_failure", 1);
        Err(error)
    }

    /// Decides one fetch: while the breaker admits the call, the caller may
    /// fetch from the primary backend and report the outcome; while it does
    /// not, the answer comes from the fallback cache or fails as an outage.
    pub fn fetch_document(&mut self, doc_id: &str, now_ms: u64)
        -> (r: Result<Option<Vec<u8>>, FileverseError>)
        ensures
            old(self).breaker.routes_to_fallback(now_ms) ==> ({
                let key = crate::breaker::fallback_key(doc_id@);
                let cached = old(self).arweave_fallback.spec_cache();
                if cached.dom().contains(key)
                    && now_ms < cached[key].1 + crate::breaker::FALLBACK_TTL_MS {
                    r matches Ok(v) && v matches Some(data) && data@ == cached[key].0
                } else {
                    r == Err::<Option<Vec<u8>>, FileverseError>(
                        FileverseError::GatewayOutage)
                }
            }),
            !old(self).breaker.routes_to_fallback(now_ms)
                ==> r == Ok::<Option<Vec<u8>>, FileverseError>(None),
    {
        if self.breaker.is_open(now_ms) {
            match self.arweave_fallback.read_cached(doc_id, now_ms) {
                Some(data) => Ok(Some(data)),
                None => Err(FileverseError::GatewayOutage),
            }
        } else {
            Ok(None)
        }
    }

    /// Records the outcome of a primary fetch the caller performed after
    /// `fetch_document` admitted it: a fetched payload records a success and
    /// is cached; a failed fetch records a failure and hands back the cached
    /// fallback payload, when a fresh one is held.
    pub fn report_fetch_result(&mut self, doc_id: &str, payload: Option<Vec<u8>>,
        now_ms: u64) -> (served: Option<Vec<u8>>)
        ensures
            payload matches Some(data) ==> {
                &&& FileverseCircuitBreaker::success_recorded(old(self).breaker,
                    final(self).breaker)
                &&& final(self).arweave_fallback.spec_cache().dom().contains(
                    crate::breaker::fallback_key(doc_id@))
                &&& final(self).arweave_fallback.spec_cache()[
                    crate::breaker::fallback_key(doc_id@)] == (data@, now_ms)
                &&& served is None
            },
            payload is None ==> {
                &&& FileverseCircuitBreaker::failure_recorded(old(self).breaker,
                    final(self).breaker, now_ms)
                &&& final(self).arweave_fallback.spec_cache()
                    == old(self).arweave_fallback.spec_cache()
                &&& ({
                    let key = crate::breaker::fallback_key(doc_id@);
                    let cached = old(self).arweave_fallback.spec_cache();
                    if cached.dom().contains(key)
                        && now_ms < cached[key].1 + crate::breaker::FALLBACK_TTL_MS {
                        served matches Some(v) && v@ == cached[key].0
                    } else {
                        served is None
                    }
                })
            },
    {
        match payload {
            Some(data) => {
                self.arweave_fallback.store_payload(doc_id, data, now_ms);
                self.breaker.record_success();
                None
            },
            None => {
                self.breaker.record_failure(now_ms);
                self.arweave_fallback.read_cached(doc_id, now_ms)
            },
        }
    }

    /// Bumps one named metric counter.
    pub fn record_metric(&mut self, name: &str, value: u64)
        ensures
            final(self).spec_metric(name@) == if old(self).spec_metric(name@) + value
                <= u64::MAX { (old(self).spec_metric(name@) + value) as u64 } else {
                u64::MAX },
            forall|k: Seq<char>| k != name@ ==> #[trigger] final(self).spec_metric(k)
                == old(self).spec_metric(k),
    {
        self.metrics.bump(name, value);
    }

    /// A snapshot of every metric counter.
    pub fn collect_metrics(&self) -> (r: Vec<(String, u64)>)
        ensures
            r@.len() == self.spec_metric_pairs().len(),
            forall|i: int| 0 <= i < r@.len() ==> ((#[trigger] r@[i]).0@
                == self.spec_metric_pairs()[i].0 && r@[i].1 == self.spec_metric_pairs()[i].1),
    {
        self.metrics.snapshot()
    }

    /// The component health summary: the signer, the breaker state, and the
    /// two storage backends.
    pub fn health_check(&self) -> (r: Vec<(String, String)>)
        ensures
            r@.len() == 4,
            r@[0].0@ == "hsm"@ && r@[0].1@ == "healthy"@,
            r@[1].0@ == "breaker"@,
            r@[1].1@ == match self.breaker.spec_state() {
                BreakerState::Closed => "closed"@,
                BreakerState::Open(_) => "open"@,
                BreakerState::HalfOpen => "half_open"@,
            },
            r@[2].0@ == "ipfs"@ && r@[2].1@ == "connected"@,
            r@[3].0@ == "arweave"@ && r@[3].1@ == "available"@,
    {
        let mut status: Vec<(String, String)> = Vec::new();
        status.push((String::from_str("hsm"), String::from_str("healthy")));
        let breaker_state = match self.breaker.current_state() {
            BreakerState::Closed => String::from_str("closed"),
            BreakerState::Open(_) => String::from_str("open"),
            BreakerState::HalfOpen => String::from_str("half_open"),
        };
        status.push((String::from_str("breaker"), breaker_state));
        status.push((String::from_str("ipfs"), String::from_str("connected")));
        status.push((String::from_str("arweave"), String::from_str("available")));
        status
    }
}

} // verus!
