//! Which validator checks the signature of a time stamp.
use crate::error::Error;
use crate::oids;
use vstd::prelude::*;

verus! {

/// How a signature is checked.
#[derive(Clone, Copy, Debug, PartialEq, Eq, Structural)]
pub enum LocalValidator {
    /// RSA with PKCS #1 padding over SHA-1.
    RsaSha1,
    /// RSA with PKCS #1 padding over SHA-256.
    Rs256,
    /// RSA with PKCS #1 padding over SHA-384.
    Rs384,
    /// RSA with PKCS #1 padding over SHA-512.
    Rs512,
    /// ECDSA over SHA-256.
    Es256,
    /// ECDSA over SHA-384.
    Es384,
    /// ECDSA over SHA-512.
    Es512,
    /// Edwards-curve signatures.
    Ed25519,
}

/// Whether RSA is meant: the signature is by an RSA key, or the certificate is signed by one.
pub open spec fn is_rsa(sig_alg: Seq<u8>, pk_alg: Seq<u8>) -> bool {
    ||| sig_alg == oids::RSA_OID@
    ||| pk_alg == oids::SHA256_WITH_RSAENCRYPTION_OID@
    ||| pk_alg == oids::SHA384_WITH_RSAENCRYPTION_OID@
    ||| pk_alg == oids::SHA512_WITH_RSAENCRYPTION_OID@
}

/// Whether ECDSA is meant: the signature is by an EC key, or the certificate is signed by one.
pub open spec fn is_ecdsa(sig_alg: Seq<u8>, pk_alg: Seq<u8>) -> bool {
    ||| sig_alg == oids::EC_PUBLICKEY_OID@
    ||| pk_alg == oids::ECDSA_WITH_SHA256_OID@
    ||| pk_alg == oids::ECDSA_WITH_SHA384_OID@
    ||| pk_alg == oids::ECDSA_WITH_SHA512_OID@
}

/// The validator for an algorithm of a signature, of its digest and of the certificate. RSA comes
/// before ECDSA, and ECDSA before Ed25519.
pub open spec fn local_validator(sig_alg: Seq<u8>, hash_alg: Seq<u8>, pk_alg: Seq<u8>) -> Option<
    LocalValidator,
> {
    if is_rsa(sig_alg, pk_alg) {
        if hash_alg == oids::SHA1_OID@ {
            Some(LocalValidator::RsaSha1)
        } else if hash_alg == oids::SHA256_OID@ {
            Some(LocalValidator::Rs256)
        } else if hash_alg == oids::SHA384_OID@ {
            Some(LocalValidator::Rs384)
        } else if hash_alg == oids::SHA512_OID@ {
            Some(LocalValidator::Rs512)
        } else {
            None
        }
    } else if is_ecdsa(sig_alg, pk_alg) {
        if hash_alg == oids::SHA256_OID@ {
            Some(LocalValidator::Es256)
        } else if hash_alg == oids::SHA384_OID@ {
            Some(LocalValidator::Es384)
        } else if hash_alg == oids::SHA512_OID@ {
            Some(LocalValidator::Es512)
        } else {
            None
        }
    } else if sig_alg == oids::ED25519_OID@ {
        Some(LocalValidator::Ed25519)
    } else {
        None
    }
}

/// The name of a validator.
pub open spec fn validator_name(validator: LocalValidator) -> Seq<char> {
    match validator {
        LocalValidator::RsaSha1 => "sha1"@,
        LocalValidator::Rs256 => "rs256"@,
        LocalValidator::Rs384 => "rs384"@,
        LocalValidator::Rs512 => "rs512"@,
        LocalValidator::Es256 => "es256"@,
        LocalValidator::Es384 => "es384"@,
        LocalValidator::Es512 => "es512"@,
        LocalValidator::Ed25519 => "ed25519"@,
    }
}

impl LocalValidator {
    /// The name of the validator.
    pub fn name(self) -> (res: String)
        ensures
            res@ == validator_name(self),
    {
        match self {
            LocalValidator::RsaSha1 => "sha1".to_owned(),
            LocalValidator::Rs256 => "rs256".to_owned(),
            LocalValidator::Rs384 => "rs384".to_owned(),
            LocalValidator::Rs512 => "rs512".to_owned(),
            LocalValidator::Es256 => "es256".to_owned(),
            LocalValidator::Es384 => "es384".to_owned(),
            LocalValidator::Es512 => "es512".to_owned(),
            LocalValidator::Ed25519 => "ed25519".to_owned(),
        }
    }
}

/// Finds the validator for the algorithms of a signature, given by their object identifiers.
pub fn get_local_validator(sig_alg: &[u8], hash_alg: &[u8], pk_alg: &[u8]) -> (res: Result<
    LocalValidator,
    Error,
>)
    ensures
        res == match local_validator(sig_alg@, hash_alg@, pk_alg@) {
            Some(v) => Ok::<LocalValidator, Error>(v),
            None => Err(Error::CoseTimeStampAuthority),
        },
{
    if oids::vec_compare(sig_alg, &oids::RSA_OID) || oids::vec_compare(
        pk_alg,
        &oids::SHA256_WITH_RSAENCRYPTION_OID,
    ) || oids::vec_compare(pk_alg, &oids::SHA384_WITH_RSAENCRYPTION_OID) || oids::vec_compare(
        pk_alg,
        &oids::SHA512_WITH_RSAENCRYPTION_OID,
    ) {
        if oids::vec_compare(hash_alg, &oids::SHA1_OID) {
            Ok(LocalValidator::RsaSha1)
        } else if oids::vec_compare(hash_alg, &oids::SHA256_OID) {
            Ok(LocalValidator::Rs256)
        } else if oids::vec_compare(hash_alg, &oids::SHA384_OID) {
            Ok(LocalValidator::Rs384)
        } else if oids::vec_compare(hash_alg, &oids::SHA512_OID) {
            Ok(LocalValidator::Rs512)
        } else {
            Err(Error::CoseTimeStampAuthority)
        }
    } else if oids::vec_compare(sig_alg, &oids::EC_PUBLICKEY_OID) || oids::vec_compare(
        pk_alg,
        &oids::ECDSA_WITH_SHA256_OID,
    ) || oids::vec_compare(pk_alg, &oids::ECDSA_WITH_SHA384_OID) || oids::vec_compare(
        pk_alg,
        &oids::ECDSA_WITH_SHA512_OID,
    ) {
        if oids::vec_compare(hash_alg, &oids::SHA256_OID) {
            Ok(LocalValidator::Es256)
        } else if oids::vec_compare(hash_alg, &oids::SHA384_OID) {
            Ok(LocalValidator::Es384)
        } else if oids::vec_compare(hash_alg, &oids::SHA512_OID) {
            Ok(LocalValidator::Es512)
        } else {
            Err(Error::CoseTimeStampAuthority)
        }
    } else if oids::vec_compare(sig_alg, &oids::ED25519_OID) {
        Ok(LocalValidator::Ed25519)
    } else {
        Err(Error::CoseTimeStampAuthority)
    }
}

/// The name of the validator for the algorithms of a signature, if there is one.
pub fn get_validator_type(sig_alg: &[u8], hash_alg: &[u8], pk_alg: &[u8]) -> (res: Option<String>)
    ensures
        match local_validator(sig_alg@, hash_alg@, pk_alg@) {
            Some(v) => res matches Some(name) && name@ == validator_name(v),
            None => res is None,
        },
{
    match get_local_validator(sig_alg, hash_alg, pk_alg) {
        Ok(validator) => Some(validator.name()),
        Err(_) => None,
    }
}

} // verus!
