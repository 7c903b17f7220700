use nocturne::document::{decode_document, encode_document, CollaborativeDocument,
    CollaborativeEdge, FileverseNode};
use nocturne::errors::FileverseError;
use nocturne::rotator::FileverseAeadRotator;
use nocturne::store::compute_integrity_root;
use nocturne::wire::to_hex;

const CONTRACT: &str = "0x3594CA7D7F2a64FCc4fF825768409Ed78809Bdb5";
const FILE_ID: u64 = 41;

fn sample_node(id: &str) -> FileverseNode {
    FileverseNode {
        id: id.to_string(),
        public_key: [3u8; 32],
        contract_address: CONTRACT.to_string(),
        file_id: FILE_ID,
        energy: 100,
        position_x: 4_607_182_418_800_017_408,
        position_y: 0,
        nonce: 7,
        binding_signature: vec![1, 2, 3],
    }
}

fn sample_document() -> CollaborativeDocument {
    CollaborativeDocument {
        contract_address: CONTRACT.to_string(),
        file_id: FILE_ID,
        merkle_root: [8u8; 32],
        topology_hash: [9u8; 32],
        nodes: vec![sample_node("editor-1"), sample_node("редактор-2")],
        edges: vec![CollaborativeEdge {
            from: "editor-1".to_string(),
            to: "редактор-2".to_string(),
            collaboration_type: "edit".to_string(),
            weight: 1,
        }],
        version: 3,
        sequence: 11,
        fileverse_signature: vec![5u8; 64],
    }
}

fn assert_same_document(a: &CollaborativeDocument, b: &CollaborativeDocument) {
    assert_eq!(encode_document(a), encode_document(b));
}

#[test]
fn document_codec_round_trips() {
    let doc = sample_document();
    let encoded = encode_document(&doc);
    let decoded = decode_document(&encoded).expect("canonical bytes must decode");
    assert_same_document(&doc, &decoded);
    assert_eq!(decoded.contract_address, doc.contract_address);
    assert_eq!(decoded.nodes.len(), 2);
    assert_eq!(decoded.nodes[1].id, "редактор-2");
    assert_eq!(decoded.edges[0].collaboration_type, "edit");
    assert_eq!(decoded.sequence, 11);
}

#[test]
fn decoder_rejects_mangled_bytes() {
    let doc = sample_document();
    let encoded = encode_document(&doc);
    assert!(decode_document(&encoded[..encoded.len() - 1]).is_none());
    let mut trailing = encoded.clone();
    trailing.push(0);
    assert!(decode_document(&trailing).is_none());
    assert!(decode_document(b"not a document").is_none());
}

#[test]
fn encryption_round_trips_under_the_live_key() {
    let rotator = FileverseAeadRotator::new([1u8; 32], 0, CONTRACT, FILE_ID);
    let doc = sample_document();
    let sealed = rotator.encrypt_document(&doc).unwrap();
    let opened = rotator.decrypt_document(&sealed).unwrap();
    assert_same_document(&doc, &opened);
}

#[test]
fn decryption_fails_with_a_superseded_key() {
    let mut rotator = FileverseAeadRotator::new([1u8; 32], 0, CONTRACT, FILE_ID);
    let doc = sample_document();
    let sealed = rotator.encrypt_document(&doc).unwrap();
    let observed = rotator.rotation_counter();
    rotator.rotate(observed, 0).unwrap();
    let r = rotator.decrypt_document(&sealed);
    assert!(matches!(r, Err(FileverseError::DecryptionError(_))));
}

#[test]
fn decryption_fails_closed_on_damaged_input() {
    let rotator = FileverseAeadRotator::new([1u8; 32], 0, CONTRACT, FILE_ID);
    let doc = sample_document();
    let mut sealed = rotator.encrypt_document(&doc).unwrap();
    let last = sealed.len() - 1;
    sealed[last] ^= 0xff;
    assert!(matches!(rotator.decrypt_document(&sealed),
        Err(FileverseError::DecryptionError(_))));
    assert!(matches!(rotator.decrypt_document(&[1, 2, 3]),
        Err(FileverseError::DecryptionError(_))));
}

#[test]
fn integrity_root_tracks_the_collaborator_set() {
    let nodes_a = vec![sample_node("editor-1")];
    let nodes_b = vec![sample_node("editor-2")];
    let root_a = compute_integrity_root(&nodes_a);
    let root_a_again = compute_integrity_root(&nodes_a);
    let root_b = compute_integrity_root(&nodes_b);
    assert_eq!(root_a, root_a_again);
    assert_ne!(root_a, root_b);
}

#[test]
fn hex_spells_bytes_in_lower_case() {
    assert_eq!(to_hex(&[]), "");
    assert_eq!(to_hex(&[0x00, 0xff, 0x1a]), "00ff1a");
    assert_eq!(to_hex(&[0xde, 0xad, 0xbe, 0xef]), "deadbeef");
}
