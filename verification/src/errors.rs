//! The error taxonomy shared by every stage of the gateway pipeline.

use vstd::prelude::*;

verus! {

/// Errors surfaced by the gateway's validation and publication pipeline.
///
/// Validation-stage errors are terminal for the edit attempt that raised them
/// and are reported to the caller verbatim; outage errors are recovered
/// locally by the circuit breaker where fallback data is available.
#[derive(Debug, Clone, PartialEq, Eq)]
pub enum FileverseError {
    /// A signature bound to a registry or to a version other than the live one.
    StaleFileverseSignature,
    /// A node whose registry/document binding does not match the target document.
    CrossContractBinding,
    /// An authorization failure for the requesting editor.
    AclTimingOracle,
    /// An edge insertion that would break the collaboration-degree bound,
    /// or an unknown collaboration type.
    CollaborativeDegreeViolation(String),
    /// A recomputed integrity root that differs from the declared one.
    DocumentForkCollision,
    /// A version or key rotation race lost to a concurrent rotation.
    DualRotationAttack,
    /// A replayed or stale document version.
    DocumentReplay,
    /// A primary-backend outage with no usable fallback data.
    GatewayOutage,
    /// A partially committed publication.
    GhostSession,
    /// A failure reported by the document registry.
    ContractError(String),
    /// A failure reported by the content-addressed store.
    IpfsError(String),
    /// A failure reported by the permanent fallback store.
    ArweaveError(String),
    /// An authenticated-decryption or key-preparation failure.
    DecryptionError(String),
    /// A sender that exceeded its submission rate.
    RateLimitExceeded(String),
}

} // verus!
