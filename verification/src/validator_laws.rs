//! What holds of the choice of a validator.
use crate::digest;
use crate::digest::DigestAlgorithm;
use crate::oids;
use crate::validator;
use crate::validator::LocalValidator;
use vstd::prelude::*;

verus! {

/// The identifiers of the digest algorithms differ from one another.
pub proof fn law_digest_oids_differ(a: DigestAlgorithm, b: DigestAlgorithm)
    requires
        digest::digest_oid(a) == digest::digest_oid(b),
    ensures
        a == b,
{
    assert(oids::SHA1_OID@.len() == 5);
    assert(oids::SHA256_OID@.len() == 9 && oids::SHA256_OID@[8] == 1);
    assert(oids::SHA384_OID@.len() == 9 && oids::SHA384_OID@[8] == 2);
    assert(oids::SHA512_OID@.len() == 9 && oids::SHA512_OID@[8] == 3);
}

/// The validator found checks signatures over the digest that the digest algorithm of the signature
/// names.
pub proof fn law_validator_digest(sig_alg: Seq<u8>, hash_alg: Seq<u8>, pk_alg: Seq<u8>)
    ensures
        match validator::local_validator(sig_alg, hash_alg, pk_alg) {
            Some(LocalValidator::RsaSha1) => hash_alg == digest::digest_oid(DigestAlgorithm::Sha1),
            Some(LocalValidator::Rs256) => hash_alg == digest::digest_oid(DigestAlgorithm::Sha256),
            Some(LocalValidator::Rs384) => hash_alg == digest::digest_oid(DigestAlgorithm::Sha384),
            Some(LocalValidator::Rs512) => hash_alg == digest::digest_oid(DigestAlgorithm::Sha512),
            Some(LocalValidator::Es256) => hash_alg == digest::digest_oid(DigestAlgorithm::Sha256),
            Some(LocalValidator::Es384) => hash_alg == digest::digest_oid(DigestAlgorithm::Sha384),
            Some(LocalValidator::Es512) => hash_alg == digest::digest_oid(DigestAlgorithm::Sha512),
            Some(LocalValidator::Ed25519) => sig_alg == oids::ED25519_OID@,
            None => true,
        },
{
}

/// Whether a certificate with the signature algorithm `pk_alg` was signed with an RSA key.
pub open spec fn is_rsa_signed(pk_alg: Seq<u8>) -> bool {
    exists|k: int| 11 <= k <= 13 && pk_alg == #[trigger] rsa_signature_oid(k)
}

/// The object identifier of the RSA signature algorithm with the last number `k`:
/// 1.2.840.113549.1.1.k.
pub open spec fn rsa_signature_oid(k: int) -> Seq<u8> {
    seq![42u8, 134, 72, 134, 247, 13, 1, 1, k as u8]
}

/// Whether a certificate with the signature algorithm `pk_alg` was signed with an EC key.
pub open spec fn is_ec_signed(pk_alg: Seq<u8>) -> bool {
    exists|k: int| 2 <= k <= 4 && pk_alg == #[trigger] ecdsa_signature_oid(k)
}

/// The object identifier of the ECDSA signature algorithm with the last number `k`:
/// 1.2.840.10045.4.3.k.
pub open spec fn ecdsa_signature_oid(k: int) -> Seq<u8> {
    seq![42u8, 134, 72, 206, 61, 4, 3, k as u8]
}

proof fn lemma_rsa_signed(pk_alg: Seq<u8>)
    ensures
        is_rsa_signed(pk_alg) == (pk_alg == oids::SHA256_WITH_RSAENCRYPTION_OID@ || pk_alg
            == oids::SHA384_WITH_RSAENCRYPTION_OID@ || pk_alg
            == oids::SHA512_WITH_RSAENCRYPTION_OID@),
{
    assert(rsa_signature_oid(11) =~= oids::SHA256_WITH_RSAENCRYPTION_OID@);
    assert(rsa_signature_oid(12) =~= oids::SHA384_WITH_RSAENCRYPTION_OID@);
    assert(rsa_signature_oid(13) =~= oids::SHA512_WITH_RSAENCRYPTION_OID@);
}

proof fn lemma_ec_signed(pk_alg: Seq<u8>)
    ensures
        is_ec_signed(pk_alg) == (pk_alg == oids::ECDSA_WITH_SHA256_OID@ || pk_alg
            == oids::ECDSA_WITH_SHA384_OID@ || pk_alg == oids::ECDSA_WITH_SHA512_OID@),
{
    assert(ecdsa_signature_oid(2) =~= oids::ECDSA_WITH_SHA256_OID@);
    assert(ecdsa_signature_oid(3) =~= oids::ECDSA_WITH_SHA384_OID@);
    assert(ecdsa_signature_oid(4) =~= oids::ECDSA_WITH_SHA512_OID@);
}

/// A signature by an RSA key, or under a certificate signed with one, is checked as RSA over the
/// digest of the signature, and only over one of the four digests. Nothing else matters.
pub proof fn law_rsa_validator(sig_alg: Seq<u8>, hash_alg: Seq<u8>, pk_alg: Seq<u8>)
    requires
        sig_alg == oids::RSA_OID@ || is_rsa_signed(pk_alg),
    ensures
        ({
            let v = validator::local_validator(sig_alg, hash_alg, pk_alg);
            &&& v == Some(LocalValidator::RsaSha1) <==> hash_alg == digest::digest_oid(
                DigestAlgorithm::Sha1,
            )
            &&& v == Some(LocalValidator::Rs256) <==> hash_alg == digest::digest_oid(
                DigestAlgorithm::Sha256,
            )
            &&& v == Some(LocalValidator::Rs384) <==> hash_alg == digest::digest_oid(
                DigestAlgorithm::Sha384,
            )
            &&& v == Some(LocalValidator::Rs512) <==> hash_alg == digest::digest_oid(
                DigestAlgorithm::Sha512,
            )
            &&& v is None <==> forall|a: DigestAlgorithm|
                hash_alg != #[trigger] digest::digest_oid(a)
            &&& v == validator::local_validator(oids::RSA_OID@, hash_alg, Seq::empty())
        }),
{
    lemma_rsa_signed(pk_alg);
    lemma_oids_differ();
}

/// A signature by an EC key, or under a certificate signed with one, is checked as ECDSA over the
/// digest of the signature, and only over one of the three longer digests, where RSA is not meant.
pub proof fn law_ecdsa_validator(sig_alg: Seq<u8>, hash_alg: Seq<u8>, pk_alg: Seq<u8>)
    requires
        sig_alg != oids::RSA_OID@,
        !is_rsa_signed(pk_alg),
        sig_alg == oids::EC_PUBLICKEY_OID@ || is_ec_signed(pk_alg),
    ensures
        ({
            let v = validator::local_validator(sig_alg, hash_alg, pk_alg);
            &&& v == Some(LocalValidator::Es256) <==> hash_alg == digest::digest_oid(
                DigestAlgorithm::Sha256,
            )
            &&& v == Some(LocalValidator::Es384) <==> hash_alg == digest::digest_oid(
                DigestAlgorithm::Sha384,
            )
            &&& v == Some(LocalValidator::Es512) <==> hash_alg == digest::digest_oid(
                DigestAlgorithm::Sha512,
            )
            &&& v is None <==> forall|a: DigestAlgorithm|
                a != DigestAlgorithm::Sha1 ==> hash_alg != #[trigger] digest::digest_oid(a)
        }),
{
    lemma_rsa_signed(pk_alg);
    lemma_ec_signed(pk_alg);
    lemma_oids_differ();
}

/// An Ed25519 signature is checked as such, whatever its digest, where neither RSA nor ECDSA is
/// meant. Without any of these there is no validator.
pub proof fn law_other_validator(sig_alg: Seq<u8>, hash_alg: Seq<u8>, pk_alg: Seq<u8>)
    requires
        sig_alg != oids::RSA_OID@,
        sig_alg != oids::EC_PUBLICKEY_OID@,
        !is_rsa_signed(pk_alg),
        !is_ec_signed(pk_alg),
    ensures
        validator::local_validator(sig_alg, hash_alg, pk_alg) == if sig_alg == seq![43u8, 101, 112] {
            Some(LocalValidator::Ed25519)
        } else {
            None
        },
{
    lemma_rsa_signed(pk_alg);
    lemma_ec_signed(pk_alg);
    assert(oids::ED25519_OID@ =~= seq![43u8, 101, 112]);
}

proof fn lemma_oids_differ()
    ensures
        forall|a: DigestAlgorithm, b: DigestAlgorithm| #[trigger]
            digest::digest_oid(a) == #[trigger] digest::digest_oid(b) ==> a == b,
        digest::digest_oid(DigestAlgorithm::Sha1) == oids::SHA1_OID@,
        digest::digest_oid(DigestAlgorithm::Sha256) == oids::SHA256_OID@,
        digest::digest_oid(DigestAlgorithm::Sha384) == oids::SHA384_OID@,
        digest::digest_oid(DigestAlgorithm::Sha512) == oids::SHA512_OID@,
{
    assert forall|a: DigestAlgorithm, b: DigestAlgorithm| #[trigger]
        digest::digest_oid(a) == #[trigger] digest::digest_oid(b) implies a == b by {
        law_digest_oids_differ(a, b);
    }
}

/// The name of a validator over one of the longer digests is `rs` or `es`, then how many bits the
/// digest has.
pub proof fn law_validator_names()
    ensures
        validator::validator_name(LocalValidator::Rs256) == seq!['r', 's', '2', '5', '6'],
        validator::validator_name(LocalValidator::Rs384) == seq!['r', 's', '3', '8', '4'],
        validator::validator_name(LocalValidator::Rs512) == seq!['r', 's', '5', '1', '2'],
        validator::validator_name(LocalValidator::Es256) == seq!['e', 's', '2', '5', '6'],
        validator::validator_name(LocalValidator::Es384) == seq!['e', 's', '3', '8', '4'],
        validator::validator_name(LocalValidator::Es512) == seq!['e', 's', '5', '1', '2'],
        validator::validator_name(LocalValidator::RsaSha1) == seq!['s', 'h', 'a', '1'],
        validator::validator_name(LocalValidator::Ed25519) == seq![
            'e',
            'd',
            '2',
            '5',
            '5',
            '1',
            '9',
        ],
{
    reveal_strlit("sha1");
    reveal_strlit("rs256");
    reveal_strlit("rs384");
    reveal_strlit("rs512");
    reveal_strlit("es256");
    reveal_strlit("es384");
    reveal_strlit("es512");
    reveal_strlit("ed25519");
    assert("rs256"@ =~= seq!['r', 's', '2', '5', '6']);
    assert("rs384"@ =~= seq!['r', 's', '3', '8', '4']);
    assert("rs512"@ =~= seq!['r', 's', '5', '1', '2']);
    assert("es256"@ =~= seq!['e', 's', '2', '5', '6']);
    assert("es384"@ =~= seq!['e', 's', '3', '8', '4']);
    assert("es512"@ =~= seq!['e', 's', '5', '1', '2']);
    assert("sha1"@ =~= seq!['s', 'h', 'a', '1']);
    assert("ed25519"@ =~= seq!['e', 'd', '2', '5', '5', '1', '9']);
}

} // verus!
