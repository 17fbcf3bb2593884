use vstd::prelude::*;

verus! {

/// Every failure the library reports, tagged so that callers can tell a
/// user mistake from a denial, a retryable fault or a lost race.
#[derive(Debug, Clone, Copy, PartialEq, Eq, Structural)]
pub enum KvError {
    /// Neither `avatar` nor `persona` was supplied.
    MissingParameter,
    /// The public key is not valid hex, or not a point on the curve.
    InvalidKey,
    /// The authorization service denied the mutation.
    NotAuthorized,
    /// The authorization service could not be reached or did not answer.
    UpstreamUnavailable,
    /// The persona's chain head moved; the proposal must be made again.
    Conflict,
    /// The signature does not verify against the canonical payload.
    SignatureInvalid,
    /// No pending proposal carries the given external id.
    NotFound,
    /// The chain store cannot take another record.
    StorageError,
    /// The requested configuration source is not available.
    ConfigUnavailable,
}

} // verus!
