//! The calls into other crates.
//!
//! Each function here makes one call and changes the types of its arguments and of its result.
//! What its contract says of the result is trusted.
use crate::cbor;
use crate::der;
use crate::digest;
use crate::digest::DigestAlgorithm;
use crate::time::{DateTime, GeneralizedTime, Time};
use crate::x509::{CertificateParts, CertificatePartsView};
use bcder::decode::SliceSource;
use bcder::{Mode, OctetString, Oid, Tag};
use rand::Rng;
use vstd::prelude::*;
use x509_certificate::rfc5280::Certificate;
use x509_certificate::{asn1time, rfc3280};

verus! {

/// What `x509_certificate::rfc5280::Certificate::from_sequence` reads in the constructed value
/// `value`, with the start and the end of the validity, or `None` where it fails.
pub uninterp spec fn certificate_at(value: Seq<u8>) -> Option<(CertificatePartsView, Time, Time)>;

/// Whether `x509_certificate::rfc3280::Name::take_from` accepts what `value` starts with.
pub uninterp spec fn name_accepted(value: Seq<u8>) -> bool;

/// Whether `x509_certificate::rfc3280::GeneralName::take_from` accepts the contents of the `[0]`
/// value `value`.
pub uninterp spec fn general_name_accepted(value: Seq<u8>) -> bool;

/// The time that `x509_certificate::asn1time::GeneralizedTime::parse` reads in `content`, with a
/// fraction of a second and the zone `Z`, or `None` where it fails.
pub uninterp spec fn generalized_time_at(content: Seq<u8>) -> Option<GeneralizedTime>;

/// Whether `bcder::Utf8String::new` accepts `content`.
pub uninterp spec fn utf8_accepted(content: Seq<u8>) -> bool;

/// The digest of `data` under `algorithm`.
pub uninterp spec fn digest_of(algorithm: DigestAlgorithm, data: Seq<u8>) -> Seq<u8>;

/// Whether `content` has ten or more digits in the fraction of its second.
pub open spec fn long_fraction(content: Seq<u8>) -> bool {
    &&& content.len() >= 25
    &&& content[14] == 0x2e
    &&& forall|i: int| 15 <= i < 25 ==> 0x30 <= #[trigger] content[i] <= 0x39
}

/// Calls `x509_certificate::rfc5280::Certificate::from_sequence` on the contents of the
/// constructed value `value`. The claim is that what comes back depends on `value` alone: the
/// serial number, the identifier of the signature algorithm, the algorithm and the bits of the
/// key, and the identifiers and values of the extensions, as they stand and in order.
#[verifier::external_body]
pub(crate) fn decode_certificate(value: &[u8]) -> (res: Option<CertificateParts>)
    ensures
        match res {
            Some(parts) => certificate_at(value@) matches Some((p, _, _)) && p == parts@,
            None => certificate_at(value@) is None,
        },
{
    let cert = Mode::Der.decode(value, |cons|
        cons.take_constructed(|_, cons| Certificate::from_sequence(cons))
    ).ok()?.tbs_certificate;
    let key = cert.subject_public_key_info;
    Some(CertificateParts {
        serial_number: cert.serial_number.as_slice().to_vec(),
        signature_algorithm: cert.signature.algorithm.as_ref().to_vec(),
        key_algorithm: key.algorithm.algorithm.as_ref().to_vec(),
        key_parameters: key.algorithm.parameters.map(|p| p.to_vec()),
        key_unused_bits: key.subject_public_key.unused(),
        key_bits: key.subject_public_key.octet_bytes().to_vec(),
        extensions: cert.extensions.map(|list| list.iter().map(|e|
            (e.id.as_ref().to_vec(), e.value.to_bytes().to_vec())).collect())
    })
}

/// Calls `x509_certificate::rfc5280::Certificate::from_sequence` as `decode_certificate` does, and
/// takes the start and the end of the validity, with `chrono::DateTime::timestamp` for the seconds
/// and `chrono::DateTime::timestamp_subsec_nanos` for the nanoseconds. The claim is that both
/// depend on `value` alone, and come of the same values as the rest.
#[verifier::external_body]
pub(crate) fn decode_validity(value: &[u8]) -> (res: Option<(Time, Time)>)
    ensures
        match res {
            Some((not_before, not_after)) => certificate_at(value@) matches Some((_, from, to))
                && from == not_before && to == not_after,
            None => certificate_at(value@) is None,
        },
{
    let at = |t: chrono::DateTime<chrono::Utc>| {
        DateTime { timestamp: t.timestamp(), nanos: t.timestamp_subsec_nanos() }
    };
    let time = |t: asn1time::Time| match t {
        asn1time::Time::UtcTime(u) => Time::UtcTime(at(*u)),
        asn1time::Time::GeneralTime(g) => Time::GeneralTime(GeneralizedTime { instant: at(g.into()) }),
    };
    let cert = Mode::Der.decode(value, |cons| {
        cons.take_constructed(|_, cons| Certificate::from_sequence(cons))
    }).ok()?;
    let validity = cert.tbs_certificate.validity;
    Some((time(validity.not_before), time(validity.not_after)))
}

/// Calls `x509_certificate::rfc3280::Name::take_from`. The claim is that whether it accepts
/// `value` depends on `value` alone.
#[verifier::external_body]
pub(crate) fn accept_name(value: &[u8]) -> (res: bool)
    ensures
        res == name_accepted(value@),
{
    Mode::Der.decode(value, |cons| rfc3280::Name::take_from(cons)).is_ok()
}

/// Calls `x509_certificate::rfc3280::GeneralName::take_from` on the contents of the `[0]` value
/// `value`. The claim is that whether it accepts them depends on `value` alone.
#[verifier::external_body]
pub(crate) fn accept_general_name(value: &[u8]) -> (res: bool)
    ensures
        res == general_name_accepted(value@),
{
    Mode::Der.decode(value, |cons| {
        cons.take_constructed_if(Tag::CTX_0, |cons| rfc3280::GeneralName::take_from(cons))
    }).is_ok()
}

/// Calls `x509_certificate::asn1time::GeneralizedTime::parse`, with a fraction of a second and
/// the zone `Z`. The claim is that the time depends on `content` alone. The call needs a fraction
/// of nine digits at most.
#[verifier::external_body]
pub(crate) fn parse_generalized_time(content: &[u8]) -> (res: Option<GeneralizedTime>)
    requires
        !long_fraction(content@),
    ensures
        res == generalized_time_at(content@),
{
    let source = SliceSource::new(content);
    let zone = asn1time::GeneralizedTimeAllowedTimezone::Z;
    let gt = asn1time::GeneralizedTime::parse(source, true, zone).ok()?;
    let t: chrono::DateTime<chrono::Utc> = gt.into();
    let instant = DateTime { timestamp: t.timestamp(), nanos: t.timestamp_subsec_nanos() };
    Some(GeneralizedTime { instant })
}

/// Calls `bcder::Utf8String::new`. The claim is that whether it accepts `content` depends on
/// `content` alone.
#[verifier::external_body]
pub(crate) fn accept_utf8(content: &[u8]) -> (res: bool)
    ensures
        res == utf8_accepted(content@),
{
    bcder::Utf8String::new(OctetString::new(bytes::Bytes::copy_from_slice(content))).is_ok()
}

/// Calls `x509_certificate::DigestAlgorithm::digest_data`. The claim is that the digest depends
/// on the algorithm and the data alone, and how long it is.
#[verifier::external_body]
pub(crate) fn digest_data(algorithm: DigestAlgorithm, data: &[u8]) -> (res: Vec<u8>)
    ensures
        res@ == digest_of(algorithm, data@),
        res@.len() == digest::digest_len(algorithm),
{
    match algorithm {
        DigestAlgorithm::Sha1 => x509_certificate::DigestAlgorithm::Sha1,
        DigestAlgorithm::Sha256 => x509_certificate::DigestAlgorithm::Sha256,
        DigestAlgorithm::Sha384 => x509_certificate::DigestAlgorithm::Sha384,
        DigestAlgorithm::Sha512 => x509_certificate::DigestAlgorithm::Sha512,
    }.digest_data(data)
}

/// Calls `x509_certificate::DigestAlgorithm::try_from` on an object identifier. The claim is that
/// it knows the four digest algorithms, each by its own identifier, and nothing else.
#[verifier::external_body]
pub(crate) fn digest_algorithm_from_oid(algorithm: &[u8]) -> (res: Option<DigestAlgorithm>)
    requires
        der::is_oid(algorithm@),
    ensures
        match res {
            Some(d) => algorithm@ == digest::digest_oid(d),
            None => forall|d: DigestAlgorithm| algorithm@ != #[trigger] digest::digest_oid(d),
        },
{
    let oid = Oid(bytes::Bytes::copy_from_slice(algorithm));
    Some(match x509_certificate::DigestAlgorithm::try_from(&oid).ok()? {
        x509_certificate::DigestAlgorithm::Sha1 => DigestAlgorithm::Sha1,
        x509_certificate::DigestAlgorithm::Sha256 => DigestAlgorithm::Sha256,
        x509_certificate::DigestAlgorithm::Sha384 => DigestAlgorithm::Sha384,
        x509_certificate::DigestAlgorithm::Sha512 => DigestAlgorithm::Sha512,
    })
}

/// Calls `bcder::Integer::from` on a number and takes the content of the INTEGER. The claim is
/// that this is the number in base 256, most significant octet first, with as few octets as leave
/// the sign clear.
#[verifier::external_body]
pub(crate) fn integer_from_u64(value: u64) -> (res: Vec<u8>)
    ensures
        res@ == der::unsigned_integer(value as nat),
{
    bcder::Integer::from(value).as_slice().to_vec()
}

/// Calls `coset::sig_structure_data` with the context `CounterSignature`, a header whose serialized
/// form is `protected`, no second header and no additional data. The claim is that the array is
/// written out with each length in its shortest form.
#[verifier::external_body]
pub(crate) fn sig_structure_data(protected: &[u8], payload: &[u8]) -> (res: Vec<u8>)
    ensures
        res@ == cbor::counter_signature_structure(protected@, payload@),
{
    let body = coset::ProtectedHeader {
        original_data: Some(protected.to_vec()),
        header: coset::Header::default(),
    };
    let context = coset::SignatureContext::CounterSignature;
    coset::sig_structure_data(context, body, None, &[], payload)
}

/// Calls `rand::Rng::try_fill` on eight octets with the generator of the thread, and takes them
/// for a number, least significant octet first. The number is not foreseen, so nothing is claimed
/// of it, nor of when the call fails.
#[verifier::external_body]
pub(crate) fn random_u64() -> (res: Option<u64>) {
    let mut random = [0u8; 8];
    rand::thread_rng().try_fill(&mut random).ok()?;
    Some(u64::from_le_bytes(random))
}

} // verus!
