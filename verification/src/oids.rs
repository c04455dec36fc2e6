//! The object identifiers that the library knows, as the contents of their encodings.
use vstd::prelude::*;

verus! {

/// `id-signedData`: 1.2.840.113549.1.7.2.
pub const OID_ID_SIGNED_DATA: [u8; 9] = [42, 134, 72, 134, 247, 13, 1, 7, 2];

/// `id-ct-TSTInfo`: 1.2.840.113549.1.9.16.1.4.
pub const OID_CONTENT_TYPE_TST_INFO: [u8; 11] = [42, 134, 72, 134, 247, 13, 1, 9, 16, 1, 4];

/// The octets that mark a subject key identifier among the extensions of a certificate.
pub const SKI_OID: [u8; 4] = [2, 5, 29, 14];

/// SHA-1: 1.3.14.3.2.26.
pub const SHA1_OID: [u8; 5] = [43, 14, 3, 2, 26];

/// SHA-256: 2.16.840.1.101.3.4.2.1.
pub const SHA256_OID: [u8; 9] = [96, 134, 72, 1, 101, 3, 4, 2, 1];

/// SHA-384: 2.16.840.1.101.3.4.2.2.
pub const SHA384_OID: [u8; 9] = [96, 134, 72, 1, 101, 3, 4, 2, 2];

/// SHA-512: 2.16.840.1.101.3.4.2.3.
pub const SHA512_OID: [u8; 9] = [96, 134, 72, 1, 101, 3, 4, 2, 3];

/// RSA: 1.2.840.113549.1.1.1.
pub const RSA_OID: [u8; 9] = [42, 134, 72, 134, 247, 13, 1, 1, 1];

/// RSA with SHA-256: 1.2.840.113549.1.1.11.
pub const SHA256_WITH_RSAENCRYPTION_OID: [u8; 9] = [42, 134, 72, 134, 247, 13, 1, 1, 11];

/// RSA with SHA-384: 1.2.840.113549.1.1.12.
pub const SHA384_WITH_RSAENCRYPTION_OID: [u8; 9] = [42, 134, 72, 134, 247, 13, 1, 1, 12];

/// RSA with SHA-512: 1.2.840.113549.1.1.13.
pub const SHA512_WITH_RSAENCRYPTION_OID: [u8; 9] = [42, 134, 72, 134, 247, 13, 1, 1, 13];

/// Elliptic curve public keys: 1.2.840.10045.2.1.
pub const EC_PUBLICKEY_OID: [u8; 7] = [42, 134, 72, 206, 61, 2, 1];

/// ECDSA with SHA-256: 1.2.840.10045.4.3.2.
pub const ECDSA_WITH_SHA256_OID: [u8; 8] = [42, 134, 72, 206, 61, 4, 3, 2];

/// ECDSA with SHA-384: 1.2.840.10045.4.3.3.
pub const ECDSA_WITH_SHA384_OID: [u8; 8] = [42, 134, 72, 206, 61, 4, 3, 3];

/// ECDSA with SHA-512: 1.2.840.10045.4.3.4.
pub const ECDSA_WITH_SHA512_OID: [u8; 8] = [42, 134, 72, 206, 61, 4, 3, 4];

/// Ed25519: 1.3.101.112.
pub const ED25519_OID: [u8; 3] = [43, 101, 112];

/// Whether two runs of octets are the same.
pub fn vec_compare(va: &[u8], vb: &[u8]) -> (res: bool)
    ensures
        res == (va@ == vb@),
{
    if va.len() != vb.len() {
        return false;
    }
    let mut i: usize = 0;
    while i < va.len()
        invariant
            i <= va@.len() == vb@.len(),
            forall|j: int| 0 <= j < i ==> va@[j] == vb@[j],
        decreases va@.len() - i,
    {
        if va[i] != vb[i] {
            return false;
        }
        i = i + 1;
    }
    assert(va@ =~= vb@);
    true
}

} // verus!
