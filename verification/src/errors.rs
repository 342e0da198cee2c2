//! Typed failures: decoding problems and rejected inputs are told apart
//! from a plain cryptographic rejection, which is a boolean `false`.

use vstd::prelude::*;

verus! {

/// Why a verifier call could not even be run to a verdict.
#[derive(Clone, Copy, PartialEq, Eq, Structural, Debug)]
pub enum ApkError {
    /// The requested domain size is not supported.
    UnsupportedDomainSize,
    /// The domain parameters failed their re-checks; not reachable while
    /// the domain source keeps its promises.
    MalformedDomain,
    /// A commitment or opening-proof encoding is not a valid curve point.
    BadPointEncoding,
    /// A counting public input claimed zero participants.
    ZeroParticipants,
    /// The aggregate key collides with the seed point, so the boundary
    /// condition is undefined.
    BadPublicKey,
    /// The evaluation point fell into the domain, so a barycentric weight
    /// had no inverse.
    DegenerateChallenge,
}

} // verus!
