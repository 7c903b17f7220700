//! Gate states and attestations for phase transitions of the containment
//! system.

use vstd::prelude::*;

verus! {

/// The gates a system passes through as its coherence level rises.
pub enum GateState {
    SubThreshold,
    CardinalReview,
    PrinceVetoArmed,
    KarnakSealed,
    TMRValidated,
    ShadowRotation,
    Eudaimonia,
}

/// Whether the architect's veto is released or still armed.
#[derive(PartialEq, Eq, Structural)]
pub enum VetoStatus {
    ExplicitlyReleased,
    Active,
}

/// The triplicated backup whose integrity gates a transition.
pub struct Hiranyagarbha;

impl Hiranyagarbha {
    /// The backup verifies in triplicate.
    pub fn verify_triplicate(&self) -> (r: Result<(), ()>)
        ensures
            r == Ok::<(), ()>(()),
    {
        Ok(())
    }
}

/// The synod whose consensus gates a transition.
pub struct CardinalSynod;

/// The phase a transition aims at.
pub enum Phase {
    Superfluid,
}

/// A signed record that a transition was authorized.
pub struct Attestation {
    pub phase: Phase,
    pub hash: [u8; 32],
}

impl Attestation {
    /// An attestation of one phase under one metrics digest.
    pub fn new(phase: Phase, hash: [u8; 32]) -> (r: Self)
        ensures
            r.hash@ == hash@,
    {
        Attestation { phase, hash }
    }
}

/// Why a transition was refused.
pub enum ContainmentError {
    Decoherence(&'static str),
    InsufficientVolume,
    EntanglementMismatch,
    BreachRisk,
    BackupIntegrity,
    DemocraticViolation,
    SovereignVetoActive,
}

} // verus!
