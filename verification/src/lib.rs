//! A resilient security gateway for a collaborative document-editing pipeline.
//!
//! Every edit to a shared document must pass a chain of independent checks —
//! authenticity, identity binding, authorization, collaboration-graph bounds,
//! replay protection — before it is forwarded to distributed storage, and the
//! forwarding step tolerates backend outages through a circuit breaker with a
//! permanent fallback store.

pub mod acl;
pub mod binding;
pub mod breaker;
pub mod cache;
pub mod crypto;
pub mod document;
pub mod errors;
pub mod gates;
pub mod governance;
pub mod graph;
pub mod handshake;
pub mod hsm;
pub mod replay;
pub mod rotator;
pub mod space_proof_constitution;
pub mod ssh_oauth_port_forward;
pub mod store;
pub mod table;
pub mod wire;
