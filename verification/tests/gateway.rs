use nocturne::binding::DecentralizedBindingVerifier;
use nocturne::breaker::{ArweaveFallback, BreakerState, FileverseCircuitBreaker};
use nocturne::errors::FileverseError;
use nocturne::graph::CollaborativeGraph;
use nocturne::hsm::FileverseHsm;
use nocturne::replay::FileverseReplayDetector;
use nocturne::rotator::FileverseAeadRotator;
use nocturne::store::FileverseCollaborativeStore;

use ed25519_dalek::Signer;

const CONTRACT: &str = "0x3594CA7D7F2a64FCc4fF825768409Ed78809Bdb5";
const FILE_ID: u64 = 41;
const KEY_B64: &str = "0YkwLqkQFABleChsMj0JCX8NxYHupnMxxXQSwQGXQ2WlMoYMGK9FeFqQ-vkpXRR3";

fn new_hsm() -> FileverseHsm {
    FileverseHsm::new(CONTRACT, FILE_ID, KEY_B64).unwrap()
}

#[test]
fn hsm_rejects_wrong_contract() {
    let mut hsm = new_hsm();
    let r = hsm.verify_v1(b"msg", &[0u8; 64], 0, "0xWrongContract");
    assert_eq!(r, Err(FileverseError::StaleFileverseSignature));
}

#[test]
fn hsm_rejects_stale_version() {
    let mut hsm = new_hsm();
    let observed = hsm.current_version();
    hsm.rotate_version(observed).unwrap();
    let r = hsm.verify_v1(b"msg", &[0u8; 64], observed, CONTRACT);
    assert_eq!(r, Err(FileverseError::StaleFileverseSignature));
}

#[test]
fn hsm_rejects_short_signature() {
    let mut hsm = new_hsm();
    let r = hsm.verify_v1(b"msg", &[0u8; 10], 0, CONTRACT);
    assert_eq!(r, Err(FileverseError::StaleFileverseSignature));
}

#[test]
fn hsm_rejects_bad_key_text() {
    let r = FileverseHsm::new(CONTRACT, FILE_ID, "!!! not base64 !!!");
    assert!(matches!(r, Err(FileverseError::DecryptionError(_))));
    let short = FileverseHsm::new(CONTRACT, FILE_ID, "QUJD");
    assert!(matches!(short, Err(FileverseError::DecryptionError(_))));
}

#[test]
fn hsm_signature_cache_answers_repeat_requests() {
    let mut hsm = new_hsm();
    let first = hsm.sign_v1(b"payload", 1_000).unwrap();
    assert_eq!(first.len(), 64);
    let second = hsm.sign_v1(b"payload", 2_000).unwrap();
    assert_eq!(first, second);
    let expired = hsm.sign_v1(b"payload", 1_000 + 3_600_000).unwrap();
    assert_eq!(expired.len(), 64);
}

#[test]
fn rotation_race_has_one_winner() {
    let mut hsm = new_hsm();
    let observed = hsm.current_version();
    assert_eq!(hsm.rotate_version(observed), Ok(()));
    assert_eq!(hsm.rotate_version(observed),
        Err(FileverseError::DualRotationAttack));
    assert_eq!(hsm.current_version(), observed + 1);
}

#[test]
fn degree_bound_rejects_ninth_edge() {
    let mut graph = CollaborativeGraph::new();
    for i in 0..8u32 {
        let peer = match i {
            0 => "peer-0", 1 => "peer-1", 2 => "peer-2", 3 => "peer-3",
            4 => "peer-4", 5 => "peer-5", 6 => "peer-6", _ => "peer-7",
        };
        assert_eq!(graph.add_collaboration("doc-1", "hub", peer, "edit"), Ok(()));
    }
    assert_eq!(graph.get_collaborator_degree("doc-1", "hub"), 8);
    let ninth = graph.add_collaboration("doc-1", "hub", "peer-8", "edit");
    assert_eq!(ninth, Err(FileverseError::CollaborativeDegreeViolation(
        "Collaborator hub at max degree".to_string())));
    assert_eq!(graph.get_collaborator_degree("doc-1", "hub"), 8);
}

#[test]
fn graph_rejects_unknown_collaboration_type() {
    let mut graph = CollaborativeGraph::new();
    let r = graph.add_collaboration("doc-1", "a", "b", "observe");
    assert_eq!(r, Err(FileverseError::CollaborativeDegreeViolation(
        "Invalid collaboration type".to_string())));
    assert_eq!(graph.get_collaborator_degree("doc-1", "a"), 0);
}

#[test]
fn graph_self_edge_counts_once() {
    let mut graph = CollaborativeGraph::new();
    assert_eq!(graph.add_collaboration("doc-1", "solo", "solo", "review"), Ok(()));
    assert_eq!(graph.get_collaborator_degree("doc-1", "solo"), 1);
}

#[test]
fn eclipse_check_flags_tampered_degree() {
    let mut graph = CollaborativeGraph::new();
    assert!(!graph.check_eclipse_attack("doc-1"));
    graph.sync_degree("doc-1", "mallory", 17);
    assert!(graph.check_eclipse_attack("doc-1"));
    assert!(!graph.check_eclipse_attack("doc-2"));
}

#[test]
fn replay_floor_rejects_resubmission() {
    let mut detector = FileverseReplayDetector::new(10_000);
    assert_eq!(detector.check_document_replay("doc-1", 1, "editor-1"), Ok(()));
    assert_eq!(detector.check_document_replay("doc-1", 1, "editor-1"),
        Err(FileverseError::DocumentReplay));
    assert_eq!(detector.check_document_replay("doc-1", 2, "editor-1"), Ok(()));
    assert_eq!(detector.check_document_replay("doc-2", 1, "editor-1"), Ok(()));
}

#[test]
fn replay_rejects_far_future_window() {
    let mut detector = FileverseReplayDetector::new(10);
    let far = 10 * 5;
    assert_eq!(detector.check_document_replay("doc-1", far, "editor-1"),
        Err(FileverseError::DocumentReplay));
}

#[test]
fn rate_limit_throttles_a_flood() {
    let mut detector = FileverseReplayDetector::new(1_000_000);
    let mut limited = 0u32;
    for v in 1..=250u64 {
        match detector.check_document_replay("doc-1", v, "editor-1") {
            Ok(()) => {},
            Err(FileverseError::RateLimitExceeded(_)) => limited += 1,
            Err(other) => panic!("unexpected error: {:?}", other),
        }
    }
    assert!(limited > 0);
}

#[test]
fn breaker_opens_after_five_failures_and_recovers() {
    let mut breaker = FileverseCircuitBreaker::new(1, 1_000);
    assert_eq!(breaker.current_state(), BreakerState::Closed);
    for _ in 0..5 {
        breaker.record_failure(100);
    }
    assert_eq!(breaker.current_state(), BreakerState::Open(100));
    assert!(breaker.is_open(500));
    assert!(!breaker.is_open(1_200));
    assert_eq!(breaker.current_state(), BreakerState::HalfOpen);
    assert!(breaker.is_open(1_300));
    breaker.record_success();
    assert_eq!(breaker.current_state(), BreakerState::Closed);
    assert!(!breaker.is_open(1_400));
}

#[test]
fn breaker_failed_trial_reopens() {
    let mut breaker = FileverseCircuitBreaker::new(2, 1_000);
    for _ in 0..5 {
        breaker.record_failure(0);
    }
    assert!(!breaker.is_open(2_000));
    breaker.record_failure(2_100);
    assert_eq!(breaker.current_state(), BreakerState::Open(2_100));
    let events = breaker.subscribe_state();
    assert_eq!(events, vec![BreakerState::Open(0), BreakerState::HalfOpen,
        BreakerState::Open(2_100)]);
    assert_eq!(breaker.subscribe_state(), vec![]);
}

#[test]
fn binding_rejects_cross_contract_node() {
    let mut verifier = DecentralizedBindingVerifier::new(CONTRACT, FILE_ID);
    let node = nocturne::document::FileverseNode {
        id: "editor-1".to_string(),
        public_key: [0u8; 32],
        contract_address: "0xOther".to_string(),
        file_id: FILE_ID,
        energy: 1,
        position_x: 0,
        position_y: 0,
        nonce: 1,
        binding_signature: vec![0u8; 64],
    };
    assert_eq!(verifier.verify_binding(&node, &[0u8; 32], &[0u8; 32], 0),
        Err(FileverseError::CrossContractBinding));
    let mut wrong_file = node.clone();
    wrong_file.contract_address = CONTRACT.to_string();
    wrong_file.file_id = FILE_ID + 1;
    assert_eq!(verifier.verify_binding(&wrong_file, &[0u8; 32], &[0u8; 32], 0),
        Err(FileverseError::CrossContractBinding));
}

fn binding_digest(topology: &[u8; 32], node: &nocturne::document::FileverseNode,
    key: &[u8; 32]) -> [u8; 32] {
    let mut payload = Vec::new();
    payload.extend_from_slice(topology);
    payload.extend_from_slice(node.id.as_bytes());
    payload.extend_from_slice(node.contract_address.as_bytes());
    payload.extend_from_slice(&node.file_id.to_le_bytes());
    payload.extend_from_slice(&node.energy.to_le_bytes());
    payload.extend_from_slice(&node.position_x.to_le_bytes());
    payload.extend_from_slice(&node.position_y.to_le_bytes());
    payload.extend_from_slice(&node.nonce.to_le_bytes());
    payload.extend_from_slice(key);
    *blake3::hash(&payload).as_bytes()
}

#[test]
fn binding_accepts_a_correctly_signed_node() {
    let mut verifier = DecentralizedBindingVerifier::new(CONTRACT, FILE_ID);
    let topology = [7u8; 32];
    let session_key = [9u8; 32];
    let signing_key = ed25519_dalek::SigningKey::from_bytes(&[42u8; 32]);
    let mut node = nocturne::document::FileverseNode {
        id: "editor-1".to_string(),
        public_key: signing_key.verifying_key().to_bytes(),
        contract_address: CONTRACT.to_string(),
        file_id: FILE_ID,
        energy: 100,
        position_x: 0,
        position_y: 0,
        nonce: 1,
        binding_signature: Vec::new(),
    };
    let digest = binding_digest(&topology, &node, &session_key);
    node.binding_signature = signing_key.sign(&digest).to_bytes().to_vec();
    assert_eq!(verifier.verify_binding(&node, &topology, &session_key, 0), Ok(()));

    let mut batch = vec![node.clone(), node.clone()];
    assert_eq!(verifier.verify_bindings_batch(&batch, &topology, &session_key, 0),
        Ok(()));

    batch[1].binding_signature[0] ^= 0xff;
    assert_eq!(verifier.verify_bindings_batch(&batch, &topology, &session_key, 0),
        Err(FileverseError::CrossContractBinding));
}

#[test]
fn rotator_rotation_race_has_one_winner() {
    let mut rotator = FileverseAeadRotator::new([1u8; 32], 0, CONTRACT, FILE_ID);
    let observed = rotator.rotation_counter();
    assert_eq!(rotator.rotate(observed, 50), Ok(()));
    let events = rotator.subscribe_rotations();
    assert_eq!(events, vec![(1, 50)]);
}

#[test]
fn rotator_is_a_no_op_below_the_interval() {
    let mut rotator = FileverseAeadRotator::new([1u8; 32], 3_600, CONTRACT, FILE_ID);
    let observed = rotator.rotation_counter();
    assert_eq!(rotator.rotate(observed, 50), Ok(()));
    assert_eq!(rotator.subscribe_rotations(), vec![]);
}

#[test]
fn session_keys_differ_per_counter() {
    let root = [5u8; 32];
    let k0 = nocturne::rotator::derive_session_key(&root, 0, CONTRACT, FILE_ID);
    let k0_again = nocturne::rotator::derive_session_key(&root, 0, CONTRACT, FILE_ID);
    let k1 = nocturne::rotator::derive_session_key(&root, 1, CONTRACT, FILE_ID);
    assert_eq!(k0, k0_again);
    assert_ne!(k0, k1);
}

#[test]
fn store_submission_fails_closed_on_a_forged_signature() {
    let mut store = FileverseCollaborativeStore::new(CONTRACT, FILE_ID, KEY_B64).unwrap();
    let doc = nocturne::document::CollaborativeDocument {
        contract_address: CONTRACT.to_string(),
        file_id: FILE_ID,
        merkle_root: [0u8; 32],
        topology_hash: [0u8; 32],
        nodes: Vec::new(),
        edges: Vec::new(),
        version: 0,
        sequence: 1,
        fileverse_signature: vec![0u8; 64],
    };
    let r = store.submit_document_edit(&doc, "editor-1", 0);
    assert_eq!(r, Err(FileverseError::StaleFileverseSignature));
}

#[test]
fn store_routes_to_fallback_while_open() {
    let mut store = FileverseCollaborativeStore::new(CONTRACT, FILE_ID, KEY_B64).unwrap();
    let doc = nocturne::document::CollaborativeDocument {
        contract_address: "doc-key".to_string(),
        file_id: FILE_ID,
        merkle_root: [0u8; 32],
        topology_hash: [0u8; 32],
        nodes: Vec::new(),
        edges: Vec::new(),
        version: 0,
        sequence: 1,
        fileverse_signature: vec![0u8; 64],
    };
    for _ in 0..5 {
        let _ = store.submit_document_edit(&doc, "editor-1", 0);
    }
    assert_eq!(store.breaker.current_state(), BreakerState::Open(0));
    let outage = store.submit_document_edit(&doc, "editor-1", 10);
    assert_eq!(outage, Err(FileverseError::GatewayOutage));
    store.arweave_fallback.store_payload("doc-key", b"tx-from-ledger".to_vec(), 10);
    let served = store.submit_document_edit(&doc, "editor-1", 20);
    assert_eq!(served, Ok("tx-from-ledger".to_string()));
}

#[test]
fn store_fetch_uses_fallback_cache_while_open() {
    let mut store = FileverseCollaborativeStore::new(CONTRACT, FILE_ID, KEY_B64).unwrap();
    assert_eq!(store.fetch_document("doc-1", 0), Ok(None));
    assert_eq!(store.report_fetch_result("doc-1", Some(b"payload".to_vec()), 0), None);
    for _ in 0..5 {
        let served = store.report_fetch_result("doc-1", None, 0);
        assert_eq!(served, Some(b"payload".to_vec()));
    }
    assert_eq!(store.breaker.current_state(), BreakerState::Open(0));
    assert_eq!(store.fetch_document("doc-1", 5), Ok(Some(b"payload".to_vec())));
    assert_eq!(store.fetch_document("doc-2", 5),
        Err(FileverseError::GatewayOutage));
}

#[test]
fn admitted_failures_surface_verbatim() {
    let mut store = FileverseCollaborativeStore::new(CONTRACT, FILE_ID, KEY_B64).unwrap();
    let doc = nocturne::document::CollaborativeDocument {
        contract_address: CONTRACT.to_string(),
        file_id: FILE_ID,
        merkle_root: [0u8; 32],
        topology_hash: [0u8; 32],
        nodes: Vec::new(),
        edges: Vec::new(),
        version: 0,
        sequence: 1,
        fileverse_signature: vec![0u8; 64],
    };
    store.arweave_fallback.store_payload(CONTRACT, b"ledger copy".to_vec(), 0);
    let rejected = store.submit_document_edit(&doc, "editor-1", 5);
    assert_eq!(rejected, Err(FileverseError::StaleFileverseSignature));
    for _ in 0..4 {
        let _ = store.submit_document_edit(&doc, "editor-1", 5);
    }
    assert_eq!(store.breaker.current_state(), BreakerState::Open(5));
    let served = store.submit_document_edit(&doc, "editor-1", 10);
    assert_eq!(served, Ok("ledger copy".to_string()));
}

#[test]
fn fallback_cache_expires() {
    let mut fallback = ArweaveFallback::new(CONTRACT, FILE_ID);
    assert_eq!(fallback.read_cached("doc-1", 0), None);
    fallback.store_payload("doc-1", b"bytes".to_vec(), 1_000);
    assert_eq!(fallback.read_cached("doc-1", 2_000), Some(b"bytes".to_vec()));
    assert_eq!(fallback.read_cached("doc-1", 1_000 + 3_600_000), None);
}

#[test]
fn store_metrics_accumulate() {
    let mut store = FileverseCollaborativeStore::new(CONTRACT, FILE_ID, KEY_B64).unwrap();
    store.record_metric("document_edit_duration", 12);
    store.record_metric("document_edit_duration", 30);
    let snapshot = store.collect_metrics();
    assert!(snapshot.contains(&("document_edit_duration".to_string(), 42)));
}

#[test]
fn health_check_reports_breaker_state() {
    let mut store = FileverseCollaborativeStore::new(CONTRACT, FILE_ID, KEY_B64).unwrap();
    let status = store.health_check();
    assert_eq!(status.len(), 4);
    assert_eq!(status[0], ("hsm".to_string(), "healthy".to_string()));
    assert_eq!(status[1], ("breaker".to_string(), "closed".to_string()));
    for _ in 0..5 {
        store.breaker.record_failure(0);
    }
    let status = store.health_check();
    assert_eq!(status[1], ("breaker".to_string(), "open".to_string()));
}
