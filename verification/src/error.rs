//! What can go wrong.
use vstd::prelude::*;

verus! {

/// Why there is no time stamp, or none to be trusted.
#[derive(Clone, Debug, PartialEq, Eq)]
pub enum Error {
    /// A time stamp could not be made, or its contents could not be read.
    CoseTimeStampGeneration,
    /// There is no time stamp.
    NotFound,
    /// The time stamp lies outside the validity of its certificate, or lacks what was signed.
    CoseTimeStampValidity,
    /// The time stamp is not well-formed, or nobody present signed it.
    CoseInvalidTimeStamp,
    /// The signature of the authority does not hold.
    CoseTimeStampAuthority,
    /// The time stamp is one over other data.
    CoseTimeStampMismatch,
    /// The digest algorithm is not known.
    UnsupportedType,
    /// What a signer or a validator reports of its own.
    OtherError(String),
}

} // verus!
