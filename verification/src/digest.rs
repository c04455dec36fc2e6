//! Message digests.
use crate::oids;
use vstd::prelude::*;

verus! {

/// A digest algorithm.
#[derive(Clone, Copy, Debug, PartialEq, Eq, Structural)]
pub enum DigestAlgorithm {
    Sha1,
    Sha256,
    Sha384,
    Sha512,
}

/// The object identifier of a digest algorithm.
pub open spec fn digest_oid(algorithm: DigestAlgorithm) -> Seq<u8> {
    match algorithm {
        DigestAlgorithm::Sha1 => oids::SHA1_OID@,
        DigestAlgorithm::Sha256 => oids::SHA256_OID@,
        DigestAlgorithm::Sha384 => oids::SHA384_OID@,
        DigestAlgorithm::Sha512 => oids::SHA512_OID@,
    }
}

/// The number of octets of a digest.
pub open spec fn digest_len(algorithm: DigestAlgorithm) -> nat {
    match algorithm {
        DigestAlgorithm::Sha1 => 20,
        DigestAlgorithm::Sha256 => 32,
        DigestAlgorithm::Sha384 => 48,
        DigestAlgorithm::Sha512 => 64,
    }
}

} // verus!
