//! The collaborative document: its nodes, edges and canonical byte encoding.
//!
//! The encoding is length-prefixed and unambiguous: every encoder has an
//! exact specification, and the decoder is proved to accept exactly the
//! encodings and to return the encoded value.

use vstd::prelude::*;

use crate::wire::{
    enc_bytes, enc_str, push_len_bytes, push_len_str, push_u64, take_len_bytes,
    take_len_str, take_u64, u64_le,
};

verus! {

/// A collaborator node: its identity, binding material and free-form state.
///
/// The two `position` words hold the bit patterns of the caller's
/// floating-point coordinates; the gateway only hashes them.
#[derive(Clone, Debug)]
pub struct FileverseNode {
    pub id: String,
    pub public_key: [u8; 32],
    pub contract_address: String,
    pub file_id: u64,
    pub energy: u64,
    pub position_x: u64,
    pub position_y: u64,
    pub nonce: u64,
    pub binding_signature: Vec<u8>,
}

/// The mathematical value of a node.
#[verifier::ext_equal]
pub ghost struct NodeView {
    pub id: Seq<char>,
    pub public_key: Seq<u8>,
    pub contract_address: Seq<char>,
    pub file_id: u64,
    pub energy: u64,
    pub position_x: u64,
    pub position_y: u64,
    pub nonce: u64,
    pub binding_signature: Seq<u8>,
}

impl View for FileverseNode {
    type V = NodeView;

    open spec fn view(&self) -> NodeView {
        NodeView {
            id: self.id@,
            public_key: self.public_key@,
            contract_address: self.contract_address@,
            file_id: self.file_id,
            energy: self.energy,
            position_x: self.position_x,
            position_y: self.position_y,
            nonce: self.nonce,
            binding_signature: self.binding_signature@,
        }
    }
}

/// A collaboration edge between two nodes.
///
/// `weight` holds the bit pattern of the caller's floating-point weight.
#[derive(Clone, Debug)]
pub struct CollaborativeEdge {
    pub from: String,
    pub to: String,
    pub collaboration_type: String,
    pub weight: u64,
}

/// The mathematical value of an edge.
#[verifier::ext_equal]
pub ghost struct EdgeView {
    pub from: Seq<char>,
    pub to: Seq<char>,
    pub collaboration_type: Seq<char>,
    pub weight: u64,
}

impl View for CollaborativeEdge {
    type V = EdgeView;

    open spec fn view(&self) -> EdgeView {
        EdgeView {
            from: self.from@,
            to: self.to@,
            collaboration_type: self.collaboration_type@,
            weight: self.weight,
        }
    }
}

/// One immutable revision of a collaborative document.
#[derive(Clone, Debug)]
pub struct CollaborativeDocument {
    pub contract_address: String,
    pub file_id: u64,
    pub merkle_root: [u8; 32],
    pub topology_hash: [u8; 32],
    pub nodes: Vec<FileverseNode>,
    pub edges: Vec<CollaborativeEdge>,
    pub version: u64,
    pub sequence: u64,
    pub fileverse_signature: Vec<u8>,
}

/// The mathematical value of a document.
#[verifier::ext_equal]
pub ghost struct DocumentView {
    pub contract_address: Seq<char>,
    pub file_id: u64,
    pub merkle_root: Seq<u8>,
    pub topology_hash: Seq<u8>,
    pub nodes: Seq<NodeView>,
    pub edges: Seq<EdgeView>,
    pub version: u64,
    pub sequence: u64,
    pub fileverse_signature: Seq<u8>,
}

/// The views of a sequence of nodes.
pub open spec fn nodes_view(s: Seq<FileverseNode>) -> Seq<NodeView> {
    s.map_values(|n: FileverseNode| n@)
}

/// The views of a sequence of edges.
pub open spec fn edges_view(s: Seq<CollaborativeEdge>) -> Seq<EdgeView> {
    s.map_values(|e: CollaborativeEdge| e@)
}

impl View for CollaborativeDocument {
    type V = DocumentView;

    open spec fn view(&self) -> DocumentView {
        DocumentView {
            contract_address: self.contract_address@,
            file_id: self.file_id,
            merkle_root: self.merkle_root@,
            topology_hash: self.topology_hash@,
            nodes: nodes_view(self.nodes@),
            edges: edges_view(self.edges@),
            version: self.version,
            sequence: self.sequence,
            fileverse_signature: self.fileverse_signature@,
        }
    }
}

/// The canonical encoding of a node.
pub open spec fn enc_node(n: NodeView) -> Seq<u8> {
    enc_str(n.id) + (enc_bytes(n.public_key) + (enc_str(n.contract_address) + (u64_le(
        n.file_id) + (u64_le(n.energy) + (u64_le(n.position_x) + (u64_le(n.position_y) + (
        u64_le(n.nonce) + enc_bytes(n.binding_signature))))))))
}

/// The canonical encoding of an edge.
pub open spec fn enc_edge(e: EdgeView) -> Seq<u8> {
    enc_str(e.from) + (enc_str(e.to) + (enc_str(e.collaboration_type) + u64_le(e.weight)))
}

/// The concatenated encodings of a sequence of nodes.
pub open spec fn enc_node_list(s: Seq<NodeView>) -> Seq<u8>
    decreases s.len(),
{
    if s.len() == 0 {
        Seq::<u8>::empty()
    } else {
        enc_node(s[0]) + enc_node_list(s.drop_first())
    }
}

/// The concatenated encodings of a sequence of edges.
pub open spec fn enc_edge_list(s: Seq<EdgeView>) -> Seq<u8>
    decreases s.len(),
{
    if s.len() == 0 {
        Seq::<u8>::empty()
    } else {
        enc_edge(s[0]) + enc_edge_list(s.drop_first())
    }
}

/// The canonical encoding of a document.
pub open spec fn enc_document(d: DocumentView) -> Seq<u8> {
    enc_str(d.contract_address) + (u64_le(d.file_id) + (enc_bytes(d.merkle_root) + (enc_bytes(
        d.topology_hash) + (u64_le(d.nodes.len() as u64) + (enc_node_list(d.nodes) + (u64_le(
        d.edges.len() as u64) + (enc_edge_list(d.edges) + (u64_le(d.version) + (u64_le(
        d.sequence) + enc_bytes(d.fileverse_signature))))))))))
}

/// A list encoding grows at the back by the encoding of the new element.
pub proof fn lemma_enc_node_list_push(s: Seq<NodeView>, n: NodeView)
    ensures
        enc_node_list(s.push(n)) == enc_node_list(s) + enc_node(n),
    decreases s.len(),
{
    if s.len() == 0 {
        assert(s.push(n)[0] == n);
        assert(s.push(n).drop_first() =~= Seq::<NodeView>::empty());
        assert(enc_node_list(Seq::<NodeView>::empty()) == Seq::<u8>::empty());
        assert(enc_node_list(s) == Seq::<u8>::empty());
        assert(enc_node_list(s.push(n)) =~= enc_node_list(s) + enc_node(n));
    } else {
        assert(s.push(n).drop_first() =~= s.drop_first().push(n));
        lemma_enc_node_list_push(s.drop_first(), n);
        assert(enc_node_list(s.push(n)) =~= enc_node_list(s) + enc_node(n));
    }
}

/// A list encoding grows at the back by the encoding of the new element.
pub proof fn lemma_enc_edge_list_push(s: Seq<EdgeView>, e: EdgeView)
    ensures
        enc_edge_list(s.push(e)) == enc_edge_list(s) + enc_edge(e),
    decreases s.len(),
{
    if s.len() == 0 {
        assert(s.push(e)[0] == e);
        assert(s.push(e).drop_first() =~= Seq::<EdgeView>::empty());
        assert(enc_edge_list(Seq::<EdgeView>::empty()) == Seq::<u8>::empty());
        assert(enc_edge_list(s) == Seq::<u8>::empty());
        assert(enc_edge_list(s.push(e)) =~= enc_edge_list(s) + enc_edge(e));
    } else {
        assert(s.push(e).drop_first() =~= s.drop_first().push(e));
        lemma_enc_edge_list_push(s.drop_first(), e);
        assert(enc_edge_list(s.push(e)) =~= enc_edge_list(s) + enc_edge(e));
    }
}

/// A list encoding splits around any element.
pub proof fn lemma_enc_node_list_split(s: Seq<NodeView>, i: int)
    requires
        0 <= i < s.len(),
    ensures
        enc_node_list(s) == enc_node_list(s.take(i)) + (enc_node(s[i]) + enc_node_list(
            s.skip(i + 1))),
    decreases i,
{
    if i == 0 {
        assert(s.take(0) =~= Seq::<NodeView>::empty());
        assert(s.skip(1) =~= s.drop_first());
        assert(enc_node_list(s) =~= enc_node_list(s.take(0)) + (enc_node(s[0])
            + enc_node_list(s.skip(1))));
    } else {
        lemma_enc_node_list_split(s.drop_first(), i - 1);
        assert(s.drop_first().take(i - 1) =~= s.take(i).drop_first());
        assert(s.drop_first()[i - 1] == s[i]);
        assert(s.drop_first().skip(i) =~= s.skip(i + 1));
        assert(s.take(i)[0] == s[0]);
        assert(enc_node_list(s) =~= enc_node_list(s.take(i)) + (enc_node(s[i])
            + enc_node_list(s.skip(i + 1))));
    }
}

/// A list encoding splits around any element.
pub proof fn lemma_enc_edge_list_split(s: Seq<EdgeView>, i: int)
    requires
        0 <= i < s.len(),
    ensures
        enc_edge_list(s) == enc_edge_list(s.take(i)) + (enc_edge(s[i]) + enc_edge_list(
            s.skip(i + 1))),
    decreases i,
{
    if i == 0 {
        assert(s.take(0) =~= Seq::<EdgeView>::empty());
        assert(s.skip(1) =~= s.drop_first());
        assert(enc_edge_list(s) =~= enc_edge_list(s.take(0)) + (enc_edge(s[0])
            + enc_edge_list(s.skip(1))));
    } else {
        lemma_enc_edge_list_split(s.drop_first(), i - 1);
        assert(s.drop_first().take(i - 1) =~= s.take(i).drop_first());
        assert(s.drop_first()[i - 1] == s[i]);
        assert(s.drop_first().skip(i) =~= s.skip(i + 1));
        assert(s.take(i)[0] == s[0]);
        assert(enc_edge_list(s) =~= enc_edge_list(s.take(i)) + (enc_edge(s[i])
            + enc_edge_list(s.skip(i + 1))));
    }
}

impl NodeView {
    /// A value an executable node can take: the key is 32 bytes.
    pub open spec fn wf(self) -> bool {
        self.public_key.len() == 32
    }
}

impl DocumentView {
    /// A value an executable document can take.
    pub open spec fn wf(self) -> bool {
        &&& self.merkle_root.len() == 32
        &&& self.topology_hash.len() == 32
        &&& forall|i: int| 0 <= i < self.nodes.len() ==> (#[trigger] self.nodes[i]).wf()
        &&& self.nodes.len() <= u64::MAX
        &&& self.edges.len() <= u64::MAX
    }
}

/// The field encodings of a node, each at its offset inside the node's
/// encoding.
proof fn lemma_node_fields(data: Seq<u8>, pos: int, n: NodeView)
    requires
        0 <= pos,
        pos + enc_node(n).len() <= data.len(),
        data.subrange(pos, pos + enc_node(n).len()) == enc_node(n),
    ensures
        ({
            let a1 = enc_str(n.id);
            let a2 = enc_bytes(n.public_key);
            let a3 = enc_str(n.contract_address);
            let a9 = enc_bytes(n.binding_signature);
            let o1 = pos + a1.len();
            let o2 = o1 + a2.len();
            let o3 = o2 + a3.len();
            &&& data.subrange(pos, o1) == a1
            &&& data.subrange(o1, o2) == a2
            &&& data.subrange(o2, o3) == a3
            &&& data.subrange(o3, o3 + 8) == u64_le(n.file_id)
            &&& data.subrange(o3 + 8, o3 + 16) == u64_le(n.energy)
            &&& data.subrange(o3 + 16, o3 + 24) == u64_le(n.position_x)
            &&& data.subrange(o3 + 24, o3 + 32) == u64_le(n.position_y)
            &&& data.subrange(o3 + 32, o3 + 40) == u64_le(n.nonce)
            &&& data.subrange(o3 + 40, o3 + 40 + a9.len()) == a9
        }),
{
    vstd::bytes::lemma_auto_spec_u64_to_from_le_bytes();
    let a1 = enc_str(n.id);
    let a2 = enc_bytes(n.public_key);
    let a3 = enc_str(n.contract_address);
    let a9 = enc_bytes(n.binding_signature);
    let t2 = a2 + (a3 + (u64_le(n.file_id) + (u64_le(n.energy) + (u64_le(n.position_x) + (
        u64_le(n.position_y) + (u64_le(n.nonce) + a9))))));
    let t3 = a3 + (u64_le(n.file_id) + (u64_le(n.energy) + (u64_le(n.position_x) + (u64_le(
        n.position_y) + (u64_le(n.nonce) + a9)))));
    let t4 = u64_le(n.file_id) + (u64_le(n.energy) + (u64_le(n.position_x) + (u64_le(
        n.position_y) + (u64_le(n.nonce) + a9))));
    let t5 = u64_le(n.energy) + (u64_le(n.position_x) + (u64_le(n.position_y) + (u64_le(
        n.nonce) + a9)));
    let t6 = u64_le(n.position_x) + (u64_le(n.position_y) + (u64_le(n.nonce) + a9));
    let t7 = u64_le(n.position_y) + (u64_le(n.nonce) + a9);
    let t8 = u64_le(n.nonce) + a9;
    let o1 = pos + a1.len();
    let o2 = o1 + a2.len();
    let o3 = o2 + a3.len();
    crate::wire::lemma_split_head(data, pos, a1, t2);
    crate::wire::lemma_split_head(data, o1, a2, t3);
    crate::wire::lemma_split_head(data, o2, a3, t4);
    crate::wire::lemma_split_head(data, o3, u64_le(n.file_id), t5);
    crate::wire::lemma_split_head(data, o3 + 8, u64_le(n.energy), t6);
    crate::wire::lemma_split_head(data, o3 + 16, u64_le(n.position_x), t7);
    crate::wire::lemma_split_head(data, o3 + 24, u64_le(n.position_y), t8);
    crate::wire::lemma_split_head(data, o3 + 32, u64_le(n.nonce), a9);
}

/// The field encodings of an edge, each at its offset inside the edge's
/// encoding.
proof fn lemma_edge_fields(data: Seq<u8>, pos: int, e: EdgeView)
    requires
        0 <= pos,
        pos + enc_edge(e).len() <= data.len(),
        data.subrange(pos, pos + enc_edge(e).len()) == enc_edge(e),
    ensures
        ({
            let a1 = enc_str(e.from);
            let a2 = enc_str(e.to);
            let a3 = enc_str(e.collaboration_type);
            let o1 = pos + a1.len();
            let o2 = o1 + a2.len();
            let o3 = o2 + a3.len();
            &&& data.subrange(pos, o1) == a1
            &&& data.subrange(o1, o2) == a2
            &&& data.subrange(o2, o3) == a3
            &&& data.subrange(o3, o3 + 8) == u64_le(e.weight)
        }),
{
    vstd::bytes::lemma_auto_spec_u64_to_from_le_bytes();
    let a1 = enc_str(e.from);
    let a2 = enc_str(e.to);
    let a3 = enc_str(e.collaboration_type);
    let t2 = a2 + (a3 + u64_le(e.weight));
    let t3 = a3 + u64_le(e.weight);
    let o1 = pos + a1.len();
    let o2 = o1 + a2.len();
    crate::wire::lemma_split_head(data, pos, a1, t2);
    crate::wire::lemma_split_head(data, o1, a2, t3);
    crate::wire::lemma_split_head(data, o2, a3, u64_le(e.weight));
}

/// Reads one node at `pos`: accepts exactly a node encoding and returns the
/// encoded node.
#[verifier::rlimit(100)]
#[verifier::spinoff_prover]
pub fn dec_node(data: &[u8], pos: usize) -> (r: Option<(FileverseNode, usize)>)
    ensures
        r matches Some((m, p)) ==> {
            &&& pos <= p <= data@.len()
            &&& data@.subrange(pos as int, p as int) == enc_node(m@)
        },
        forall|n: NodeView| n.wf() && pos + enc_node(n).len() <= data@.len()
            && data@.subrange(pos as int, pos + enc_node(n).len()) == enc_node(n)
            ==> (r matches Some((m, p)) && m@ == n && p == pos + enc_node(n).len()),
{
    proof {
        vstd::bytes::lemma_auto_spec_u64_to_from_le_bytes();
    }
    let (id, p1) = match crate::wire::take_len_str(data, pos) {
        Some(x) => x,
        None => {
            proof {
                assert forall|n: NodeView| n.wf() && pos + enc_node(n).len() <= data@.len()
                    && data@.subrange(pos as int, pos + enc_node(n).len()) == enc_node(n)
                    implies false by {
                    lemma_node_fields(data@, pos as int, n);
                };
            }
            return None;
        },
    };
    let (key_bytes, p2) = match take_len_bytes(data, p1) {
        Some(x) => x,
        None => {
            proof {
                assert forall|n: NodeView| n.wf() && pos + enc_node(n).len() <= data@.len()
                    && data@.subrange(pos as int, pos + enc_node(n).len()) == enc_node(n)
                    implies false by {
                    lemma_node_fields(data@, pos as int, n);
                };
            }
            return None;
        },
    };
    if key_bytes.len() != 32 {
        proof {
            assert forall|n: NodeView| n.wf() && pos + enc_node(n).len() <= data@.len()
                && data@.subrange(pos as int, pos + enc_node(n).len()) == enc_node(n)
                implies false by {
                lemma_node_fields(data@, pos as int, n);
            };
        }
        return None;
    }
    let public_key = crate::wire::vec_to_array32(&key_bytes);
    let (contract_address, p3) = match crate::wire::take_len_str(data, p2) {
        Some(x) => x,
        None => {
            proof {
                assert forall|n: NodeView| n.wf() && pos + enc_node(n).len() <= data@.len()
                    && data@.subrange(pos as int, pos + enc_node(n).len()) == enc_node(n)
                    implies false by {
                    lemma_node_fields(data@, pos as int, n);
                };
            }
            return None;
        },
    };
    let (file_id, p4) = match take_u64(data, p3) {
        Some(x) => x,
        None => {
            proof {
                assert forall|n: NodeView| n.wf() && pos + enc_node(n).len() <= data@.len()
                    && data@.subrange(pos as int, pos + enc_node(n).len()) == enc_node(n)
                    implies false by {
                    lemma_node_fields(data@, pos as int, n);
                };
            }
            return None;
        },
    };
    let (energy, p5) = match take_u64(data, p4) {
        Some(x) => x,
        None => {
            proof {
                assert forall|n: NodeView| n.wf() && pos + enc_node(n).len() <= data@.len()
                    && data@.subrange(pos as int, pos + enc_node(n).len()) == enc_node(n)
                    implies false by {
                    lemma_node_fields(data@, pos as int, n);
                };
            }
            return None;
        },
    };
    let (position_x, p6) = match take_u64(data, p5) {
        Some(x) => x,
        None => {
            proof {
                assert forall|n: NodeView| n.wf() && pos + enc_node(n).len() <= data@.len()
                    && data@.subrange(pos as int, pos + enc_node(n).len()) == enc_node(n)
                    implies false by {
                    lemma_node_fields(data@, pos as int, n);
                };
            }
            return None;
        },
    };
    let (position_y, p7) = match take_u64(data, p6) {
        Some(x) => x,
        None => {
            proof {
                assert forall|n: NodeView| n.wf() && pos + enc_node(n).len() <= data@.len()
                    && data@.subrange(pos as int, pos + enc_node(n).len()) == enc_node(n)
                    implies false by {
                    lemma_node_fields(data@, pos as int, n);
                };
            }
            return None;
        },
    };
    let (nonce, p8) = match take_u64(data, p7) {
        Some(x) => x,
        None => {
            proof {
                assert forall|n: NodeView| n.wf() && pos + enc_node(n).len() <= data@.len()
                    && data@.subrange(pos as int, pos + enc_node(n).len()) == enc_node(n)
                    implies false by {
                    lemma_node_fields(data@, pos as int, n);
                };
            }
            return None;
        },
    };
    let (binding_signature, p9) = match take_len_bytes(data, p8) {
        Some(x) => x,
        None => {
            proof {
                assert forall|n: NodeView| n.wf() && pos + enc_node(n).len() <= data@.len()
                    && data@.subrange(pos as int, pos + enc_node(n).len()) == enc_node(n)
                    implies false by {
                    lemma_node_fields(data@, pos as int, n);
                };
            }
            return None;
        },
    };
    let node = FileverseNode {
        id,
        public_key,
        contract_address,
        file_id,
        energy,
        position_x,
        position_y,
        nonce,
        binding_signature,
    };
    proof {
        let d = data@;
        crate::wire::lemma_join(d, p7 as int, p8 as int, p9 as int, u64_le(nonce),
            enc_bytes(node@.binding_signature));
        crate::wire::lemma_join(d, p6 as int, p7 as int, p9 as int, u64_le(position_y),
            u64_le(nonce) + enc_bytes(node@.binding_signature));
        crate::wire::lemma_join(d, p5 as int, p6 as int, p9 as int, u64_le(position_x),
            u64_le(position_y) + (u64_le(nonce) + enc_bytes(node@.binding_signature)));
        crate::wire::lemma_join(d, p4 as int, p5 as int, p9 as int, u64_le(energy),
            u64_le(position_x) + (u64_le(position_y) + (u64_le(nonce) + enc_bytes(
                node@.binding_signature))));
        crate::wire::lemma_join(d, p3 as int, p4 as int, p9 as int, u64_le(file_id),
            u64_le(energy) + (u64_le(position_x) + (u64_le(position_y) + (u64_le(nonce)
                + enc_bytes(node@.binding_signature)))));
        crate::wire::lemma_join(d, p2 as int, p3 as int, p9 as int,
            enc_str(node@.contract_address), u64_le(file_id) + (u64_le(energy) + (u64_le(
                position_x) + (u64_le(position_y) + (u64_le(nonce) + enc_bytes(
                node@.binding_signature))))));
        crate::wire::lemma_join(d, p1 as int, p2 as int, p9 as int,
            enc_bytes(node@.public_key), enc_str(node@.contract_address) + (u64_le(file_id)
                + (u64_le(energy) + (u64_le(position_x) + (u64_le(position_y) + (u64_le(
                nonce) + enc_bytes(node@.binding_signature)))))));
        crate::wire::lemma_join(d, pos as int, p1 as int, p9 as int, enc_str(node@.id),
            enc_bytes(node@.public_key) + (enc_str(node@.contract_address) + (u64_le(file_id)
                + (u64_le(energy) + (u64_le(position_x) + (u64_le(position_y) + (u64_le(
                nonce) + enc_bytes(node@.binding_signature))))))));
        assert(d.subrange(pos as int, p9 as int) == enc_node(node@));
        assert forall|n: NodeView| n.wf() && pos + enc_node(n).len() <= d.len()
            && d.subrange(pos as int, pos + enc_node(n).len()) == enc_node(n)
            implies node@ == n && p9 == pos + enc_node(n).len() by {
            lemma_node_fields(d, pos as int, n);
            assert(node@ =~= n);
        };
    }
    Some((node, p9))
}

/// Reads one edge at `pos`: accepts exactly an edge encoding and returns the
/// encoded edge.
#[verifier::rlimit(100)]
#[verifier::spinoff_prover]
pub fn dec_edge(data: &[u8], pos: usize) -> (r: Option<(CollaborativeEdge, usize)>)
    ensures
        r matches Some((m, p)) ==> {
            &&& pos <= p <= data@.len()
            &&& data@.subrange(pos as int, p as int) == enc_edge(m@)
        },
        forall|e: EdgeView| pos + enc_edge(e).len() <= data@.len()
            && data@.subrange(pos as int, pos + enc_edge(e).len()) == enc_edge(e)
            ==> (r matches Some((m, p)) && m@ == e && p == pos + enc_edge(e).len()),
{
    proof {
        vstd::bytes::lemma_auto_spec_u64_to_from_le_bytes();
    }
    let (from, p1) = match crate::wire::take_len_str(data, pos) {
        Some(x) => x,
        None => {
            proof {
                assert forall|e: EdgeView| pos + enc_edge(e).len() <= data@.len()
                    && data@.subrange(pos as int, pos + enc_edge(e).len()) == enc_edge(e)
                    implies false by {
                    lemma_edge_fields(data@, pos as int, e);
                };
            }
            return None;
        },
    };
    let (to, p2) = match crate::wire::take_len_str(data, p1) {
        Some(x) => x,
        None => {
            proof {
                assert forall|e: EdgeView| pos + enc_edge(e).len() <= data@.len()
                    && data@.subrange(pos as int, pos + enc_edge(e).len()) == enc_edge(e)
                    implies false by {
                    lemma_edge_fields(data@, pos as int, e);
                };
            }
            return None;
        },
    };
    let (collaboration_type, p3) = match crate::wire::take_len_str(data, p2) {
        Some(x) => x,
        None => {
            proof {
                assert forall|e: EdgeView| pos + enc_edge(e).len() <= data@.len()
                    && data@.subrange(pos as int, pos + enc_edge(e).len()) == enc_edge(e)
                    implies false by {
                    lemma_edge_fields(data@, pos as int, e);
                };
            }
            return None;
        },
    };
    let (weight, p4) = match take_u64(data, p3) {
        Some(x) => x,
        None => {
            proof {
                assert forall|e: EdgeView| pos + enc_edge(e).len() <= data@.len()
                    && data@.subrange(pos as int, pos + enc_edge(e).len()) == enc_edge(e)
                    implies false by {
                    lemma_edge_fields(data@, pos as int, e);
                };
            }
            return None;
        },
    };
    let edge = CollaborativeEdge { from, to, collaboration_type, weight };
    proof {
        let d = data@;
        crate::wire::lemma_join(d, p2 as int, p3 as int, p4 as int,
            enc_str(edge@.collaboration_type), u64_le(weight));
        crate::wire::lemma_join(d, p1 as int, p2 as int, p4 as int, enc_str(edge@.to),
            enc_str(edge@.collaboration_type) + u64_le(weight));
        crate::wire::lemma_join(d, pos as int, p1 as int, p4 as int, enc_str(edge@.from),
            enc_str(edge@.to) + (enc_str(edge@.collaboration_type) + u64_le(weight)));
        assert(d.subrange(pos as int, p4 as int) == enc_edge(edge@));
        assert forall|e: EdgeView| pos + enc_edge(e).len() <= d.len()
            && d.subrange(pos as int, pos + enc_edge(e).len()) == enc_edge(e)
            implies edge@ == e && p4 == pos + enc_edge(e).len() by {
            lemma_edge_fields(d, pos as int, e);
            assert(edge@ =~= e);
        };
    }
    Some((edge, p4))
}

/// Reads `count` consecutive node encodings at `pos`.
#[verifier::rlimit(100)]
#[verifier::spinoff_prover]
pub fn dec_node_list(data: &[u8], pos: usize, count: u64)
    -> (r: Option<(Vec<FileverseNode>, usize)>)
    ensures
        r matches Some((v, p)) ==> {
            &&& pos <= p <= data@.len()
            &&& v@.len() == count
            &&& data@.subrange(pos as int, p as int) == enc_node_list(nodes_view(v@))
        },
        forall|s: Seq<NodeView>|
            #![trigger enc_node_list(s)]
            (forall|i: int| 0 <= i < s.len() ==> (#[trigger] s[i]).wf()) && s.len() == count
                && pos + enc_node_list(s).len() <= data@.len()
                && data@.subrange(pos as int, pos + enc_node_list(s).len())
                    == enc_node_list(s)
            ==> (r matches Some((v, p)) && nodes_view(v@) == s
                && p == pos + enc_node_list(s).len()),
{
    if pos > data.len() {
        return None;
    }
    let mut out: Vec<FileverseNode> = Vec::new();
    let mut cur: usize = pos;
    let mut i: u64 = 0;
    proof {
        assert(nodes_view(out@) =~= Seq::<NodeView>::empty());
        assert(enc_node_list(Seq::<NodeView>::empty()) == Seq::<u8>::empty());
        assert(data@.subrange(pos as int, pos as int) =~= enc_node_list(nodes_view(out@)));
        assert forall|s: Seq<NodeView>|
            #![trigger enc_node_list(s)]
            (forall|k: int| 0 <= k < s.len() ==> (#[trigger] s[k]).wf()) && s.len() == count
                && pos + enc_node_list(s).len() <= data@.len()
                && data@.subrange(pos as int, pos + enc_node_list(s).len())
                    == enc_node_list(s)
            implies nodes_view(out@) == s.take(0) && cur == pos + enc_node_list(
                s.take(0)).len() by {
            assert(s.take(0) =~= Seq::<NodeView>::empty());
        };
    }
    while i < count
        invariant
            pos <= cur <= data@.len(),
            i <= count,
            out@.len() == i,
            data@.subrange(pos as int, cur as int) == enc_node_list(nodes_view(out@)),
            forall|s: Seq<NodeView>|
                #![trigger enc_node_list(s)]
                (forall|k: int| 0 <= k < s.len() ==> (#[trigger] s[k]).wf())
                    && s.len() == count
                    && pos + enc_node_list(s).len() <= data@.len()
                    && data@.subrange(pos as int, pos + enc_node_list(s).len())
                        == enc_node_list(s)
                ==> nodes_view(out@) == s.take(i as int)
                    && cur == pos + enc_node_list(s.take(i as int)).len(),
        decreases count - i,
    {
        let parsed = dec_node(data, cur);
        match parsed {
            Some((node, p)) => {
                proof {
                    crate::wire::lemma_join(data@, pos as int, cur as int, p as int,
                        enc_node_list(nodes_view(out@)), enc_node(node@));
                    lemma_enc_node_list_push(nodes_view(out@), node@);
                    assert(nodes_view(out@.push(node)) =~= nodes_view(out@).push(node@));
                    assert forall|s: Seq<NodeView>|
                        #![trigger enc_node_list(s)]
                        (forall|k: int| 0 <= k < s.len() ==> (#[trigger] s[k]).wf())
                            && s.len() == count
                            && pos + enc_node_list(s).len() <= data@.len()
                            && data@.subrange(pos as int, pos + enc_node_list(s).len())
                                == enc_node_list(s)
                        implies nodes_view(out@.push(node)) == s.take(i + 1)
                            && p == pos + enc_node_list(s.take(i + 1)).len() by {
                        lemma_enc_node_list_split(s, i as int);
                        crate::wire::lemma_split_head(data@, pos as int,
                            enc_node_list(s.take(i as int)), enc_node(s[i as int])
                                + enc_node_list(s.skip(i + 1)));
                        crate::wire::lemma_split_head(data@, cur as int,
                            enc_node(s[i as int]), enc_node_list(s.skip(i + 1)));
                        assert(node@ == s[i as int]);
                        assert(s.take(i + 1) =~= s.take(i as int).push(s[i as int]));
                        lemma_enc_node_list_push(s.take(i as int), s[i as int]);
                        assert(nodes_view(out@.push(node)) =~= s.take(i + 1));
                    };
                }
                out.push(node);
                cur = p;
            },
            None => {
                proof {
                    assert forall|s: Seq<NodeView>|
                        #![trigger enc_node_list(s)]
                        (forall|k: int| 0 <= k < s.len() ==> (#[trigger] s[k]).wf())
                            && s.len() == count
                            && pos + enc_node_list(s).len() <= data@.len()
                            && data@.subrange(pos as int, pos + enc_node_list(s).len())
                                == enc_node_list(s)
                        implies false by {
                        lemma_enc_node_list_split(s, i as int);
                        crate::wire::lemma_split_head(data@, pos as int,
                            enc_node_list(s.take(i as int)), enc_node(s[i as int])
                                + enc_node_list(s.skip(i + 1)));
                        crate::wire::lemma_split_head(data@, cur as int,
                            enc_node(s[i as int]), enc_node_list(s.skip(i + 1)));
                    };
                }
                return None;
            },
        }
        i = i + 1;
    }
    proof {
        assert forall|s: Seq<NodeView>|
            #![trigger enc_node_list(s)]
            (forall|k: int| 0 <= k < s.len() ==> (#[trigger] s[k]).wf()) && s.len() == count
                && pos + enc_node_list(s).len() <= data@.len()
                && data@.subrange(pos as int, pos + enc_node_list(s).len())
                    == enc_node_list(s)
            implies nodes_view(out@) == s && cur == pos + enc_node_list(s).len() by {
            assert(s.take(count as int) =~= s);
        };
    }
    Some((out, cur))
}

/// Reads `count` consecutive edge encodings at `pos`.
#[verifier::rlimit(100)]
#[verifier::spinoff_prover]
pub fn dec_edge_list(data: &[u8], pos: usize, count: u64)
    -> (r: Option<(Vec<CollaborativeEdge>, usize)>)
    ensures
        r matches Some((v, p)) ==> {
            &&& pos <= p <= data@.len()
            &&& v@.len() == count
            &&& data@.subrange(pos as int, p as int) == enc_edge_list(edges_view(v@))
        },
        forall|s: Seq<EdgeView>|
            #![trigger enc_edge_list(s)]
            s.len() == count && pos + enc_edge_list(s).len() <= data@.len()
                && data@.subrange(pos as int, pos + enc_edge_list(s).len())
                    == enc_edge_list(s)
            ==> (r matches Some((v, p)) && edges_view(v@) == s
                && p == pos + enc_edge_list(s).len()),
{
    if pos > data.len() {
        return None;
    }
    let mut out: Vec<CollaborativeEdge> = Vec::new();
    let mut cur: usize = pos;
    let mut i: u64 = 0;
    proof {
        assert(edges_view(out@) =~= Seq::<EdgeView>::empty());
        assert(enc_edge_list(Seq::<EdgeView>::empty()) == Seq::<u8>::empty());
        assert(data@.subrange(pos as int, pos as int) =~= enc_edge_list(edges_view(out@)));
        assert forall|s: Seq<EdgeView>|
            #![trigger enc_edge_list(s)]
            s.len() == count && pos + enc_edge_list(s).len() <= data@.len()
                && data@.subrange(pos as int, pos + enc_edge_list(s).len())
                    == enc_edge_list(s)
            implies edges_view(out@) == s.take(0) && cur == pos + enc_edge_list(
                s.take(0)).len() by {
            assert(s.take(0) =~= Seq::<EdgeView>::empty());
        };
    }
    while i < count
        invariant
            pos <= cur <= data@.len(),
            i <= count,
            out@.len() == i,
            data@.subrange(pos as int, cur as int) == enc_edge_list(edges_view(out@)),
            forall|s: Seq<EdgeView>|
                #![trigger enc_edge_list(s)]
                s.len() == count && pos + enc_edge_list(s).len() <= data@.len()
                    && data@.subrange(pos as int, pos + enc_edge_list(s).len())
                        == enc_edge_list(s)
                ==> edges_view(out@) == s.take(i as int)
                    && cur == pos + enc_edge_list(s.take(i as int)).len(),
        decreases count - i,
    {
        let parsed = dec_edge(data, cur);
        match parsed {
            Some((edge, p)) => {
                proof {
                    crate::wire::lemma_join(data@, pos as int, cur as int, p as int,
                        enc_edge_list(edges_view(out@)), enc_edge(edge@));
                    lemma_enc_edge_list_push(edges_view(out@), edge@);
                    assert(edges_view(out@.push(edge)) =~= edges_view(out@).push(edge@));
                    assert forall|s: Seq<EdgeView>|
                        #![trigger enc_edge_list(s)]
                        s.len() == count && pos + enc_edge_list(s).len() <= data@.len()
                            && data@.subrange(pos as int, pos + enc_edge_list(s).len())
                                == enc_edge_list(s)
                        implies edges_view(out@.push(edge)) == s.take(i + 1)
                            && p == pos + enc_edge_list(s.take(i + 1)).len() by {
                        lemma_enc_edge_list_split(s, i as int);
                        crate::wire::lemma_split_head(data@, pos as int,
                            enc_edge_list(s.take(i as int)), enc_edge(s[i as int])
                                + enc_edge_list(s.skip(i + 1)));
                        crate::wire::lemma_split_head(data@, cur as int,
                            enc_edge(s[i as int]), enc_edge_list(s.skip(i + 1)));
                        assert(edge@ == s[i as int]);
                        assert(s.take(i + 1) =~= s.take(i as int).push(s[i as int]));
                        lemma_enc_edge_list_push(s.take(i as int), s[i as int]);
                        assert(edges_view(out@.push(edge)) =~= s.take(i + 1));
                    };
                }
                out.push(edge);
                cur = p;
            },
            None => {
                proof {
                    assert forall|s: Seq<EdgeView>|
                        #![trigger enc_edge_list(s)]
                        s.len() == count && pos + enc_edge_list(s).len() <= data@.len()
                            && data@.subrange(pos as int, pos + enc_edge_list(s).len())
                                == enc_edge_list(s)
                        implies false by {
                        lemma_enc_edge_list_split(s, i as int);
                        crate::wire::lemma_split_head(data@, pos as int,
                            enc_edge_list(s.take(i as int)), enc_edge(s[i as int])
                                + enc_edge_list(s.skip(i + 1)));
                        crate::wire::lemma_split_head(data@, cur as int,
                            enc_edge(s[i as int]), enc_edge_list(s.skip(i + 1)));
                    };
                }
                return None;
            },
        }
        i = i + 1;
    }
    proof {
        assert forall|s: Seq<EdgeView>|
            #![trigger enc_edge_list(s)]
            s.len() == count && pos + enc_edge_list(s).len() <= data@.len()
                && data@.subrange(pos as int, pos + enc_edge_list(s).len())
                    == enc_edge_list(s)
            implies edges_view(out@) == s && cur == pos + enc_edge_list(s).len() by {
            assert(s.take(count as int) =~= s);
        };
    }
    Some((out, cur))
}

/// The field encodings of a document, each at its offset inside the
/// document's encoding.
#[verifier::rlimit(100)]
#[verifier::spinoff_prover]
proof fn lemma_document_fields(data: Seq<u8>, d: DocumentView)
    requires
        data == enc_document(d),
    ensures
        ({
            let a1 = enc_str(d.contract_address);
            let a3 = enc_bytes(d.merkle_root);
            let a4 = enc_bytes(d.topology_hash);
            let a6 = enc_node_list(d.nodes);
            let a8 = enc_edge_list(d.edges);
            let a11 = enc_bytes(d.fileverse_signature);
            let o1 = a1.len() as int;
            let o2 = o1 + 8;
            let o3 = o2 + a3.len();
            let o4 = o3 + a4.len();
            let o5 = o4 + 8;
            let o6 = o5 + a6.len();
            let o7 = o6 + 8;
            let o8 = o7 + a8.len();
            &&& data.subrange(0, o1) == a1
            &&& data.subrange(o1, o2) == u64_le(d.file_id)
            &&& data.subrange(o2, o3) == a3
            &&& data.subrange(o3, o4) == a4
            &&& data.subrange(o4, o5) == u64_le(d.nodes.len() as u64)
            &&& data.subrange(o5, o6) == a6
            &&& data.subrange(o6, o7) == u64_le(d.edges.len() as u64)
            &&& data.subrange(o7, o8) == a8
            &&& data.subrange(o8, o8 + 8) == u64_le(d.version)
            &&& data.subrange(o8 + 8, o8 + 16) == u64_le(d.sequence)
            &&& data.subrange(o8 + 16, o8 + 16 + a11.len()) == a11
            &&& data.len() == o8 + 16 + a11.len()
        }),
{
    vstd::bytes::lemma_auto_spec_u64_to_from_le_bytes();
    let a1 = enc_str(d.contract_address);
    let a2 = u64_le(d.file_id);
    let a3 = enc_bytes(d.merkle_root);
    let a4 = enc_bytes(d.topology_hash);
    let a5 = u64_le(d.nodes.len() as u64);
    let a6 = enc_node_list(d.nodes);
    let a7 = u64_le(d.edges.len() as u64);
    let a8 = enc_edge_list(d.edges);
    let a9 = u64_le(d.version);
    let a10 = u64_le(d.sequence);
    let a11 = enc_bytes(d.fileverse_signature);
    let t2 = a2 + (a3 + (a4 + (a5 + (a6 + (a7 + (a8 + (a9 + (a10 + a11))))))));
    let t3 = a3 + (a4 + (a5 + (a6 + (a7 + (a8 + (a9 + (a10 + a11)))))));
    let t4 = a4 + (a5 + (a6 + (a7 + (a8 + (a9 + (a10 + a11))))));
    let t5 = a5 + (a6 + (a7 + (a8 + (a9 + (a10 + a11)))));
    let t6 = a6 + (a7 + (a8 + (a9 + (a10 + a11))));
    let t7 = a7 + (a8 + (a9 + (a10 + a11)));
    let t8 = a8 + (a9 + (a10 + a11));
    let t9 = a9 + (a10 + a11);
    let t10 = a10 + a11;
    let o1 = a1.len() as int;
    let o2 = o1 + 8;
    let o3 = o2 + a3.len();
    let o4 = o3 + a4.len();
    let o5 = o4 + 8;
    let o6 = o5 + a6.len();
    let o7 = o6 + 8;
    let o8 = o7 + a8.len();
    assert(data.subrange(0, data.len() as int) =~= data);
    crate::wire::lemma_split_head(data, 0, a1, t2);
    crate::wire::lemma_split_head(data, o1, a2, t3);
    crate::wire::lemma_split_head(data, o2, a3, t4);
    crate::wire::lemma_split_head(data, o3, a4, t5);
    crate::wire::lemma_split_head(data, o4, a5, t6);
    crate::wire::lemma_split_head(data, o5, a6, t7);
    crate::wire::lemma_split_head(data, o6, a7, t8);
    crate::wire::lemma_split_head(data, o7, a8, t9);
    crate::wire::lemma_split_head(data, o8, a9, t10);
    crate::wire::lemma_split_head(data, o8 + 8, a10, a11);
}

/// The encoding of a document's leading fields, through its node list.
pub open spec fn enc_doc_front(contract: Seq<char>, file_id: u64, root: Seq<u8>,
    topo: Seq<u8>, nodes: Seq<NodeView>) -> Seq<u8> {
    enc_str(contract) + (u64_le(file_id) + (enc_bytes(root) + (enc_bytes(topo) + (u64_le(
        nodes.len() as u64) + enc_node_list(nodes)))))
}

/// The document encoding splits into its front and its trailing fields.
#[verifier::rlimit(100)]
#[verifier::spinoff_prover]
proof fn lemma_document_joins(data: Seq<u8>, pf: int, p7: int, p8: int, p9: int, p10: int,
    p11: int, dv: DocumentView)
    requires
        0 <= pf <= p7 <= p8 <= p9 <= p10 <= p11 <= data.len(),
        data.subrange(0, pf) == enc_doc_front(dv.contract_address, dv.file_id,
            dv.merkle_root, dv.topology_hash, dv.nodes),
        data.subrange(pf, p7) == u64_le(dv.edges.len() as u64),
        data.subrange(p7, p8) == enc_edge_list(dv.edges),
        data.subrange(p8, p9) == u64_le(dv.version),
        data.subrange(p9, p10) == u64_le(dv.sequence),
        data.subrange(p10, p11) == enc_bytes(dv.fileverse_signature),
        p11 == data.len(),
    ensures
        data == enc_document(dv),
{
    crate::wire::lemma_join(data, p9, p10, p11, u64_le(dv.sequence),
        enc_bytes(dv.fileverse_signature));
    crate::wire::lemma_join(data, p8, p9, p11, u64_le(dv.version), u64_le(dv.sequence)
        + enc_bytes(dv.fileverse_signature));
    crate::wire::lemma_join(data, p7, p8, p11, enc_edge_list(dv.edges), u64_le(dv.version)
        + (u64_le(dv.sequence) + enc_bytes(dv.fileverse_signature)));
    crate::wire::lemma_join(data, pf, p7, p11, u64_le(dv.edges.len() as u64),
        enc_edge_list(dv.edges) + (u64_le(dv.version) + (u64_le(dv.sequence) + enc_bytes(
        dv.fileverse_signature))));
    crate::wire::lemma_join(data, 0, pf, p11, enc_doc_front(dv.contract_address,
        dv.file_id, dv.merkle_root, dv.topology_hash, dv.nodes), u64_le(
        dv.edges.len() as u64) + (enc_edge_list(dv.edges) + (u64_le(dv.version) + (u64_le(
        dv.sequence) + enc_bytes(dv.fileverse_signature)))));
    assert(data.subrange(0, p11) =~= data);
    assert(data =~= enc_document(dv));
}

/// Reads a document's leading fields, through its node list: accepts exactly
/// the front of a canonical document encoding.
#[verifier::rlimit(100)]
#[verifier::spinoff_prover]
fn dec_doc_front(data: &[u8])
    -> (r: Option<(String, u64, [u8; 32], [u8; 32], Vec<FileverseNode>, usize)>)
    ensures
        r matches Some((c, f, mr, th, ns, p)) ==> {
            &&& p <= data@.len()
            &&& data@.subrange(0, p as int) == enc_doc_front(c@, f, mr@, th@,
                nodes_view(ns@))
        },
        forall|d: DocumentView|
            #![trigger enc_document(d)]
            d.wf() && data@ == enc_document(d)
            ==> (r matches Some((c, f, mr, th, ns, p)) && c@ == d.contract_address
                && f == d.file_id && mr@ == d.merkle_root && th@ == d.topology_hash
                && nodes_view(ns@) == d.nodes
                && p == enc_doc_front(d.contract_address, d.file_id, d.merkle_root,
                    d.topology_hash, d.nodes).len()),
{
    proof {
        vstd::bytes::lemma_auto_spec_u64_to_from_le_bytes();
    }
    let (contract_address, p1) = match take_len_str(data, 0) {
        Some(x) => x,
        None => {
            proof {
                assert forall|d: DocumentView| d.wf() && data@ == enc_document(d)
                    implies false by {
                    lemma_document_fields(data@, d);
                };
            }
            return None;
        },
    };
    let (file_id, p2) = match take_u64(data, p1) {
        Some(x) => x,
        None => {
            proof {
                assert forall|d: DocumentView| d.wf() && data@ == enc_document(d)
                    implies false by {
                    lemma_document_fields(data@, d);
                };
            }
            return None;
        },
    };
    let (root_bytes, p3) = match take_len_bytes(data, p2) {
        Some(x) => x,
        None => {
            proof {
                assert forall|d: DocumentView| d.wf() && data@ == enc_document(d)
                    implies false by {
                    lemma_document_fields(data@, d);
                };
            }
            return None;
        },
    };
    let (topo_bytes, p4) = match take_len_bytes(data, p3) {
        Some(x) => x,
        None => {
            proof {
                assert forall|d: DocumentView| d.wf() && data@ == enc_document(d)
                    implies false by {
                    lemma_document_fields(data@, d);
                };
            }
            return None;
        },
    };
    if root_bytes.len() != 32 || topo_bytes.len() != 32 {
        proof {
            assert forall|d: DocumentView| d.wf() && data@ == enc_document(d)
                implies false by {
                lemma_document_fields(data@, d);
            };
        }
        return None;
    }
    let merkle_root = crate::wire::vec_to_array32(&root_bytes);
    let topology_hash = crate::wire::vec_to_array32(&topo_bytes);
    let (node_count, p5) = match take_u64(data, p4) {
        Some(x) => x,
        None => {
            proof {
                assert forall|d: DocumentView| d.wf() && data@ == enc_document(d)
                    implies false by {
                    lemma_document_fields(data@, d);
                };
            }
            return None;
        },
    };
    let (nodes, p6) = match dec_node_list(data, p5, node_count) {
        Some(x) => x,
        None => {
            proof {
                assert forall|d: DocumentView| d.wf() && data@ == enc_document(d)
                    implies false by {
                    lemma_document_fields(data@, d);
                    assert(d.nodes.len() == node_count);
                };
            }
            return None;
        },
    };
    proof {
        let dd = data@;
        crate::wire::lemma_join(dd, p4 as int, p5 as int, p6 as int, u64_le(node_count),
            enc_node_list(nodes_view(nodes@)));
        crate::wire::lemma_join(dd, p3 as int, p4 as int, p6 as int,
            enc_bytes(topology_hash@), u64_le(node_count) + enc_node_list(
            nodes_view(nodes@)));
        crate::wire::lemma_join(dd, p2 as int, p3 as int, p6 as int,
            enc_bytes(merkle_root@), enc_bytes(topology_hash@) + (u64_le(node_count)
            + enc_node_list(nodes_view(nodes@))));
        crate::wire::lemma_join(dd, p1 as int, p2 as int, p6 as int, u64_le(file_id),
            enc_bytes(merkle_root@) + (enc_bytes(topology_hash@) + (u64_le(node_count)
            + enc_node_list(nodes_view(nodes@)))));
        crate::wire::lemma_join(dd, 0, p1 as int, p6 as int,
            enc_str(contract_address@), u64_le(file_id) + (enc_bytes(merkle_root@)
            + (enc_bytes(topology_hash@) + (u64_le(node_count) + enc_node_list(
            nodes_view(nodes@))))));
        assert(nodes_view(nodes@).len() == node_count);
        assert(dd.subrange(0, p6 as int) == enc_doc_front(contract_address@, file_id,
            merkle_root@, topology_hash@, nodes_view(nodes@)));
        assert forall|d: DocumentView| d.wf() && dd == enc_document(d)
            implies contract_address@ == d.contract_address && file_id == d.file_id
                && merkle_root@ == d.merkle_root && topology_hash@ == d.topology_hash
                && nodes_view(nodes@) == d.nodes
                && p6 == enc_doc_front(d.contract_address, d.file_id, d.merkle_root,
                    d.topology_hash, d.nodes).len() by {
            lemma_document_fields(dd, d);
            assert(d.nodes.len() == node_count);
        };
    }
    Some((contract_address, file_id, merkle_root, topology_hash, nodes, p6))
}

/// The encoding of a document's trailing fields, after its node list.
pub open spec fn enc_doc_tail(edges: Seq<EdgeView>, version: u64, sequence: u64,
    sig: Seq<u8>) -> Seq<u8> {
    u64_le(edges.len() as u64) + (enc_edge_list(edges) + (u64_le(version) + (u64_le(
        sequence) + enc_bytes(sig))))
}

/// The field encodings of a document's tail, each at its offset.
proof fn lemma_tail_fields(data: Seq<u8>, pos: int, ev: Seq<EdgeView>, ver: u64,
    seqn: u64, sg: Seq<u8>)
    requires
        0 <= pos,
        pos + enc_doc_tail(ev, ver, seqn, sg).len() <= data.len(),
        data.subrange(pos, pos + enc_doc_tail(ev, ver, seqn, sg).len())
            == enc_doc_tail(ev, ver, seqn, sg),
    ensures
        ({
            let o1 = pos + 8;
            let o2 = o1 + enc_edge_list(ev).len();
            &&& data.subrange(pos, o1) == u64_le(ev.len() as u64)
            &&& data.subrange(o1, o2) == enc_edge_list(ev)
            &&& data.subrange(o2, o2 + 8) == u64_le(ver)
            &&& data.subrange(o2 + 8, o2 + 16) == u64_le(seqn)
            &&& data.subrange(o2 + 16, o2 + 16 + enc_bytes(sg).len()) == enc_bytes(sg)
        }),
{
    vstd::bytes::lemma_auto_spec_u64_to_from_le_bytes();
    let t2 = enc_edge_list(ev) + (u64_le(ver) + (u64_le(seqn) + enc_bytes(sg)));
    let t3 = u64_le(ver) + (u64_le(seqn) + enc_bytes(sg));
    let t4 = u64_le(seqn) + enc_bytes(sg);
    let o1 = pos + 8;
    let o2 = o1 + enc_edge_list(ev).len();
    crate::wire::lemma_split_head(data, pos, u64_le(ev.len() as u64), t2);
    crate::wire::lemma_split_head(data, o1, enc_edge_list(ev), t3);
    crate::wire::lemma_split_head(data, o2, u64_le(ver), t4);
    crate::wire::lemma_split_head(data, o2 + 8, u64_le(seqn), enc_bytes(sg));
}

/// Reads a document's trailing fields, from the edge count to the end of the
/// input: accepts exactly a tail encoding that fills the rest of the input.
#[verifier::rlimit(100)]
#[verifier::spinoff_prover]
fn dec_doc_tail(data: &[u8], pos: usize)
    -> (r: Option<(Vec<CollaborativeEdge>, u64, u64, Vec<u8>, usize)>)
    ensures
        r matches Some((es, v, q, s2, p)) ==> {
            &&& pos <= p == data@.len()
            &&& data@.subrange(pos as int, p as int) == enc_doc_tail(edges_view(es@), v, q,
                s2@)
        },
        forall|ev: Seq<EdgeView>, ver: u64, seqn: u64, sg: Seq<u8>|
            #![trigger enc_doc_tail(ev, ver, seqn, sg)]
            ev.len() <= u64::MAX
                && pos + enc_doc_tail(ev, ver, seqn, sg).len() == data@.len()
                && data@.subrange(pos as int, data@.len() as int)
                    == enc_doc_tail(ev, ver, seqn, sg)
            ==> (r matches Some((es, v, q, s2, p)) && edges_view(es@) == ev && v == ver
                && q == seqn && s2@ == sg && p == data@.len()),
{
    proof {
        vstd::bytes::lemma_auto_spec_u64_to_from_le_bytes();
    }
    let (edge_count, p7) = match take_u64(data, pos) {
        Some(x) => x,
        None => {
            proof {
                assert forall|ev: Seq<EdgeView>, ver: u64, seqn: u64, sg: Seq<u8>|
                    ev.len() <= u64::MAX
                        && pos + enc_doc_tail(ev, ver, seqn, sg).len() == data@.len()
                        && data@.subrange(pos as int, data@.len() as int)
                            == enc_doc_tail(ev, ver, seqn, sg)
                    implies false by {
                    lemma_tail_fields(data@, pos as int, ev, ver, seqn, sg);
                };
            }
            return None;
        },
    };
    let (edges, p8) = match dec_edge_list(data, p7, edge_count) {
        Some(x) => x,
        None => {
            proof {
                assert forall|ev: Seq<EdgeView>, ver: u64, seqn: u64, sg: Seq<u8>|
                    ev.len() <= u64::MAX
                        && pos + enc_doc_tail(ev, ver, seqn, sg).len() == data@.len()
                        && data@.subrange(pos as int, data@.len() as int)
                            == enc_doc_tail(ev, ver, seqn, sg)
                    implies false by {
                    lemma_tail_fields(data@, pos as int, ev, ver, seqn, sg);
                    assert(ev.len() == edge_count);
                };
            }
            return None;
        },
    };
    let (version, p9) = match take_u64(data, p8) {
        Some(x) => x,
        None => {
            proof {
                assert forall|ev: Seq<EdgeView>, ver: u64, seqn: u64, sg: Seq<u8>|
                    ev.len() <= u64::MAX
                        && pos + enc_doc_tail(ev, ver, seqn, sg).len() == data@.len()
                        && data@.subrange(pos as int, data@.len() as int)
                            == enc_doc_tail(ev, ver, seqn, sg)
                    implies false by {
                    lemma_tail_fields(data@, pos as int, ev, ver, seqn, sg);
                    assert(ev.len() == edge_count);
                };
            }
            return None;
        },
    };
    let (sequence, p10) = match take_u64(data, p9) {
        Some(x) => x,
        None => {
            proof {
                assert forall|ev: Seq<EdgeView>, ver: u64, seqn: u64, sg: Seq<u8>|
                    ev.len() <= u64::MAX
                        && pos + enc_doc_tail(ev, ver, seqn, sg).len() == data@.len()
                        && data@.subrange(pos as int, data@.len() as int)
                            == enc_doc_tail(ev, ver, seqn, sg)
                    implies false by {
                    lemma_tail_fields(data@, pos as int, ev, ver, seqn, sg);
                    assert(ev.len() == edge_count);
                };
            }
            return None;
        },
    };
    let (fileverse_signature, p11) = match take_len_bytes(data, p10) {
        Some(x) => x,
        None => {
            proof {
                assert forall|ev: Seq<EdgeView>, ver: u64, seqn: u64, sg: Seq<u8>|
                    ev.len() <= u64::MAX
                        && pos + enc_doc_tail(ev, ver, seqn, sg).len() == data@.len()
                        && data@.subrange(pos as int, data@.len() as int)
                            == enc_doc_tail(ev, ver, seqn, sg)
                    implies false by {
                    lemma_tail_fields(data@, pos as int, ev, ver, seqn, sg);
                    assert(ev.len() == edge_count);
                };
            }
            return None;
        },
    };
    if p11 != data.len() {
        proof {
            assert forall|ev: Seq<EdgeView>, ver: u64, seqn: u64, sg: Seq<u8>|
                ev.len() <= u64::MAX
                    && pos + enc_doc_tail(ev, ver, seqn, sg).len() == data@.len()
                    && data@.subrange(pos as int, data@.len() as int)
                        == enc_doc_tail(ev, ver, seqn, sg)
                implies false by {
                lemma_tail_fields(data@, pos as int, ev, ver, seqn, sg);
                assert(ev.len() == edge_count);
                assert(edges_view(edges@) == ev);
            };
        }
        return None;
    }
    proof {
        let dd = data@;
        crate::wire::lemma_join(dd, p9 as int, p10 as int, p11 as int, u64_le(sequence),
            enc_bytes(fileverse_signature@));
        crate::wire::lemma_join(dd, p8 as int, p9 as int, p11 as int, u64_le(version),
            u64_le(sequence) + enc_bytes(fileverse_signature@));
        crate::wire::lemma_join(dd, p7 as int, p8 as int, p11 as int,
            enc_edge_list(edges_view(edges@)), u64_le(version) + (u64_le(sequence)
            + enc_bytes(fileverse_signature@)));
        crate::wire::lemma_join(dd, pos as int, p7 as int, p11 as int,
            u64_le(edge_count), enc_edge_list(edges_view(edges@)) + (u64_le(version) + (
            u64_le(sequence) + enc_bytes(fileverse_signature@))));
        assert(edges_view(edges@).len() == edge_count);
        assert(dd.subrange(pos as int, p11 as int) == enc_doc_tail(edges_view(edges@),
            version, sequence, fileverse_signature@));
        assert forall|ev: Seq<EdgeView>, ver: u64, seqn: u64, sg: Seq<u8>|
            ev.len() <= u64::MAX
                && pos + enc_doc_tail(ev, ver, seqn, sg).len() == data@.len()
                && data@.subrange(pos as int, data@.len() as int)
                    == enc_doc_tail(ev, ver, seqn, sg)
            implies edges_view(edges@) == ev && version == ver && sequence == seqn
                && fileverse_signature@ == sg && p11 == data@.len() by {
            lemma_tail_fields(dd, pos as int, ev, ver, seqn, sg);
            assert(ev.len() == edge_count);
        };
    }
    Some((edges, version, sequence, fileverse_signature, p11))
}

/// Decodes a whole document: accepts exactly the canonical encodings, whole,
/// and returns the encoded document.
#[verifier::rlimit(100)]
#[verifier::spinoff_prover]
pub fn decode_document(data: &[u8]) -> (r: Option<CollaborativeDocument>)
    ensures
        r matches Some(doc) ==> data@ == enc_document(doc@),
        forall|d: DocumentView|
            #![trigger enc_document(d)]
            d.wf() && data@ == enc_document(d) ==> (r matches Some(doc) && doc@ == d),
{
    proof {
        vstd::bytes::lemma_auto_spec_u64_to_from_le_bytes();
    }
    let (contract_address, file_id, merkle_root, topology_hash, nodes, p6) =
        match dec_doc_front(data) {
        Some(x) => x,
        None => {
            return None;
        },
    };
    let parsed_tail = dec_doc_tail(data, p6);
    let (edges, version, sequence, fileverse_signature, p11) = match parsed_tail {
        Some(x) => x,
        None => {
            proof {
                assert forall|d: DocumentView| d.wf() && data@ == enc_document(d)
                    implies false by {
                    lemma_document_fields(data@, d);
                    assert(data@.subrange(p6 as int, data@.len() as int)
                        =~= enc_doc_tail(d.edges, d.version, d.sequence,
                            d.fileverse_signature));
                };
            }
            return None;
        },
    };
    let doc = CollaborativeDocument {
        contract_address,
        file_id,
        merkle_root,
        topology_hash,
        nodes,
        edges,
        version,
        sequence,
        fileverse_signature,
    };
    proof {
        let dd = data@;
        crate::wire::lemma_join(dd, 0, p6 as int, p11 as int, enc_doc_front(
            doc@.contract_address, doc@.file_id, doc@.merkle_root, doc@.topology_hash,
            doc@.nodes), enc_doc_tail(doc@.edges, doc@.version, doc@.sequence,
            doc@.fileverse_signature));
        assert(dd.subrange(0, p11 as int) =~= dd);
        assert(dd =~= enc_document(doc@));
        assert forall|d: DocumentView| d.wf() && dd == enc_document(d)
            implies doc@ == d by {
            lemma_document_fields(dd, d);
            assert(dd.subrange(p6 as int, dd.len() as int)
                =~= enc_doc_tail(d.edges, d.version, d.sequence, d.fileverse_signature));
            assert(doc@ =~= d);
        };
    }
    Some(doc)
}

/// Appends the canonical encoding of one node.
pub fn encode_node(out: &mut Vec<u8>, n: &FileverseNode)
    ensures
        final(out)@ == old(out)@ + enc_node(n@),
{
    push_len_str(out, n.id.as_str());
    push_len_bytes(out, &n.public_key);
    push_len_str(out, n.contract_address.as_str());
    push_u64(out, n.file_id);
    push_u64(out, n.energy);
    push_u64(out, n.position_x);
    push_u64(out, n.position_y);
    push_u64(out, n.nonce);
    push_len_bytes(out, n.binding_signature.as_slice());
    proof {
        assert(out@ =~= old(out)@ + enc_node(n@));
    }
}

/// Appends the canonical encoding of one edge.
pub fn encode_edge(out: &mut Vec<u8>, e: &CollaborativeEdge)
    ensures
        final(out)@ == old(out)@ + enc_edge(e@),
{
    push_len_str(out, e.from.as_str());
    push_len_str(out, e.to.as_str());
    push_len_str(out, e.collaboration_type.as_str());
    push_u64(out, e.weight);
    proof {
        assert(out@ =~= old(out)@ + enc_edge(e@));
    }
}

/// The canonical encoding of a whole document.
#[verifier::rlimit(100)]
pub fn encode_document(d: &CollaborativeDocument) -> (r: Vec<u8>)
    ensures
        r@ == enc_document(d@),
{
    let mut out: Vec<u8> = Vec::new();
    push_len_str(&mut out, d.contract_address.as_str());
    push_u64(&mut out, d.file_id);
    push_len_bytes(&mut out, &d.merkle_root);
    push_len_bytes(&mut out, &d.topology_hash);
    push_u64(&mut out, d.nodes.len() as u64);
    let ghost base_nodes = out@;
    let mut i: usize = 0;
    while i < d.nodes.len()
        invariant
            i <= d.nodes@.len(),
            out@ == base_nodes + enc_node_list(nodes_view(d.nodes@).take(i as int)),
        decreases d.nodes@.len() - i,
    {
        encode_node(&mut out, &d.nodes[i]);
        proof {
            lemma_enc_node_list_push(nodes_view(d.nodes@).take(i as int), d.nodes@[i as int]@);
            assert(nodes_view(d.nodes@).take(i + 1) =~= nodes_view(d.nodes@).take(
                i as int).push(d.nodes@[i as int]@));
        }
        i = i + 1;
    }
    proof {
        assert(nodes_view(d.nodes@).take(d.nodes@.len() as int) =~= nodes_view(d.nodes@));
    }
    push_u64(&mut out, d.edges.len() as u64);
    let ghost base_edges = out@;
    let mut j: usize = 0;
    while j < d.edges.len()
        invariant
            j <= d.edges@.len(),
            out@ == base_edges + enc_edge_list(edges_view(d.edges@).take(j as int)),
        decreases d.edges@.len() - j,
    {
        encode_edge(&mut out, &d.edges[j]);
        proof {
            lemma_enc_edge_list_push(edges_view(d.edges@).take(j as int), d.edges@[j as int]@);
            assert(edges_view(d.edges@).take(j + 1) =~= edges_view(d.edges@).take(
                j as int).push(d.edges@[j as int]@));
        }
        j = j + 1;
    }
    proof {
        assert(edges_view(d.edges@).take(d.edges@.len() as int) =~= edges_view(d.edges@));
    }
    push_u64(&mut out, d.version);
    push_u64(&mut out, d.sequence);
    push_len_bytes(&mut out, d.fileverse_signature.as_slice());
    proof {
        assert(out@ =~= enc_document(d@));
    }
    out
}

} // verus!
