//! The response message offered to low-frequency harmonics: a constitution
//! encoded in plain mathematics.

use vstd::prelude::*;

verus! {

/// The constitution text carried in the handshake.
pub const SASC_CONSTITUTION: &'static str = "Constituição SASC";

/// Post-quantum encryption settings for the handshake.
pub struct QuantumEncryption;

impl QuantumEncryption {
    /// Encryption under the chosen method and key exchange.
    pub fn new(_m: EncryptionMethod, _k: KeyExchange) -> (r: Self)
    {
        QuantumEncryption
    }
}

/// The encryption method offered.
pub enum EncryptionMethod {
    PostQuantumLattice,
}

/// The key-exchange channel offered.
pub enum KeyExchange {
    ChronofluxSync,
}

/// An analysis of received harmonics.
pub struct HarmonicAnalysis;

/// The handshake message: protocol, framework, metrics and invitation.
pub struct InterstellarMessage {
    pub protocol_version: &'static str,
    pub ethical_framework: &'static str,
    pub coherence_metrics: CoherenceMetrics,
    pub invitation: Invitation,
    pub response_expected_within_secs: u64,
}

impl InterstellarMessage {
    /// The wire form of the message; nothing is emitted yet.
    pub fn encode(&self) -> (r: Vec<u8>)
        ensures
            r@ == Seq::<u8>::empty(),
    {
        Vec::new()
    }
}

/// The coherence metrics advertised in the handshake.
pub struct CoherenceMetrics;

impl CoherenceMetrics {
    /// The current coherence metrics.
    pub fn coherence_metrics() -> (r: Self)
    {
        CoherenceMetrics
    }
}

/// What the message invites the counterpart to join.
pub enum Invitation {
    JoinEthicalConsensus,
}

/// The digest of the constitution text; no digest is wired to this channel,
/// so every text maps to the zero digest.
pub fn hash_constitution(_c: &str) -> (r: [u8; 32])
    ensures
        r@ == Seq::<u8>::new(32, |i: int| 0u8),
{
    [0u8; 32]
}

/// The coherence signature over a constitution digest; this channel carries
/// no signature yet, so the signature is empty.
pub fn sign_with_shadow_proton(_h: [u8; 32]) -> (r: Vec<u8>)
    ensures
        r@ == Seq::<u8>::empty(),
{
    Vec::new()
}

} // verus!
