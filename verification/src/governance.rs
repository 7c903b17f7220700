//! Governance primitives: veto, synod vote, coherence measurement, and the
//! guarded access they gate together.

use vstd::prelude::*;

verus! {

/// A harm event reported by the harm-principle check.
pub struct HarmEvent;

/// The two governance organs that must both approve an access.
pub struct SASCGovernance {
    pub prince_veto: VetoControl,
    pub cardinal_synod: Synod,
}

/// The prince's veto over a requested purpose.
pub struct VetoControl;

impl VetoControl {
    /// Whether the veto allows the purpose.
    pub fn check(&self, _purpose: ()) -> (r: bool)
        ensures
            r == true,
    {
        true
    }
}

/// The synod that votes on a request.
pub struct Synod;

impl Synod {
    /// The synod's vote on a request.
    pub fn vote(&self, _request: ()) -> (r: VoteResult)
    {
        VoteResult
    }
}

/// The result of a synod vote.
pub struct VoteResult;

impl VoteResult {
    /// Whether the vote was unanimous.
    pub fn unanimous(&self) -> (r: bool)
        ensures
            r == true,
    {
        true
    }
}

/// The shadow proton whose coherence is measured before access.
pub struct ProtonShadow;

impl ProtonShadow {
    /// The current coherence metrics of the shadow proton.
    pub fn measure_coherence(&self) -> (r: CoherenceMetrics)
    {
        CoherenceMetrics
    }
}

/// Coherence metrics of the shadow proton.
pub struct CoherenceMetrics;

impl CoherenceMetrics {
    /// Whether coherence is stable enough for access.
    pub fn stable(&self) -> (r: bool)
        ensures
            r == true,
    {
        true
    }
}

/// A minimal lock for environments without an operating system; a real
/// deployment substitutes a safety-certified lock.
pub struct Mutex<T> {
    data: T,
}

impl<T> Mutex<T> {
    /// The guarded value.
    pub closed spec fn spec_data(&self) -> T {
        self.data
    }

    /// Wraps a value in the lock.
    pub fn new(data: T) -> (r: Self)
        ensures
            r.spec_data() == data,
    {
        Mutex { data }
    }

    /// Grants read access to the guarded value.
    pub fn lock(&self) -> (r: Result<&T, ()>)
        ensures
            r matches Ok(d) && *d == self.spec_data(),
    {
        Ok(&self.data)
    }
}

/// A request to access a guarded value.
pub struct AccessRequest;

/// Access granted after the triple governance check.
pub struct EthicalAccess<T> {
    data: std::sync::Arc<Mutex<T>>,
}

impl<T> EthicalAccess<T> {
    /// Wraps the guarded data once access was approved.
    pub fn new(data: std::sync::Arc<Mutex<T>>) -> (r: Self)
    {
        EthicalAccess { data }
    }
}

/// The containment a denied access falls into.
pub enum Containment {
    HardFreeze,
}

} // verus!
