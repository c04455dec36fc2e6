//! Signed data, as RFC 5652 defines it.
use crate::der;
use crate::encode;
use crate::outside;
use crate::x509;
use crate::x509::{
    AlgorithmIdentifier, AlgorithmIdentifierView, Attribute, AttributeView, Certificate,
    CertificateView,
};
use vstd::prelude::*;
use vstd::slice::{slice_subrange, slice_to_vec};

verus! {

/// A value and what kind of value it is.
///
/// ```ASN.1
/// ContentInfo ::= SEQUENCE {
///   contentType ContentType,
///   content [0] EXPLICIT ANY DEFINED BY contentType }
/// ```
#[derive(Clone, Debug, PartialEq, Eq)]
pub struct ContentInfo {
    pub content_type: Vec<u8>,
    /// The encoded values inside the `[0]`.
    pub content: Vec<u8>,
}

/// What was signed.
///
/// ```ASN.1
/// EncapsulatedContentInfo ::= SEQUENCE {
///   eContentType ContentType,
///   eContent [0] EXPLICIT OCTET STRING OPTIONAL }
/// ```
#[derive(Clone, Debug, PartialEq, Eq)]
pub struct EncapsulatedContentInfo {
    pub content_type: Vec<u8>,
    pub content: Option<Vec<u8>>,
}

/// Whose signature it is.
///
/// ```ASN.1
/// SignerIdentifier ::= CHOICE {
///   issuerAndSerialNumber IssuerAndSerialNumber,
///   subjectKeyIdentifier [0] SubjectKeyIdentifier }
/// ```
#[derive(Clone, Debug, PartialEq, Eq)]
pub enum SignerIdentifier {
    /// The encoded name of the issuer, and the content of the serial number.
    IssuerAndSerialNumber(Vec<u8>, Vec<u8>),
    SubjectKeyIdentifier(Vec<u8>),
}

/// One signature.
///
/// ```ASN.1
/// SignerInfo ::= SEQUENCE {
///   version CMSVersion,
///   sid SignerIdentifier,
///   digestAlgorithm DigestAlgorithmIdentifier,
///   signedAttrs [0] IMPLICIT SignedAttributes OPTIONAL,
///   signatureAlgorithm SignatureAlgorithmIdentifier,
///   signature SignatureValue,
///   unsignedAttrs [1] IMPLICIT UnsignedAttributes OPTIONAL }
/// ```
#[derive(Clone, Debug, PartialEq, Eq)]
pub struct SignerInfo {
    pub version: u8,
    pub sid: SignerIdentifier,
    pub digest_algorithm: AlgorithmIdentifier,
    pub signed_attributes: Option<Vec<Attribute>>,
    pub signature_algorithm: AlgorithmIdentifier,
    pub signature: Vec<u8>,
    pub unsigned_attributes: Option<Vec<Attribute>>,
}

/// Signed data.
///
/// ```ASN.1
/// SignedData ::= SEQUENCE {
///   version CMSVersion,
///   digestAlgorithms DigestAlgorithmIdentifiers,
///   encapContentInfo EncapsulatedContentInfo,
///   certificates [0] IMPLICIT CertificateSet OPTIONAL,
///   crls [1] IMPLICIT RevocationInfoChoices OPTIONAL,
///   signerInfos SignerInfos }
/// ```
#[derive(Clone, Debug, PartialEq, Eq)]
pub struct SignedData {
    pub version: u8,
    pub digest_algorithms: Vec<AlgorithmIdentifier>,
    pub content_info: EncapsulatedContentInfo,
    pub certificates: Option<Vec<Certificate>>,
    pub signer_infos: Vec<SignerInfo>,
}

pub struct ContentInfoView {
    pub content_type: Seq<u8>,
    pub content: Seq<u8>,
}

impl View for ContentInfo {
    type V = ContentInfoView;

    open spec fn view(&self) -> ContentInfoView {
        ContentInfoView { content_type: self.content_type@, content: self.content@ }
    }
}

pub struct EncapsulatedContentInfoView {
    pub content_type: Seq<u8>,
    pub content: Option<Seq<u8>>,
}

impl View for EncapsulatedContentInfo {
    type V = EncapsulatedContentInfoView;

    open spec fn view(&self) -> EncapsulatedContentInfoView {
        EncapsulatedContentInfoView {
            content_type: self.content_type@,
            content: der::opt_view(self.content),
        }
    }
}

pub enum SignerIdentifierView {
    IssuerAndSerialNumber(Seq<u8>, Seq<u8>),
    SubjectKeyIdentifier(Seq<u8>),
}

impl View for SignerIdentifier {
    type V = SignerIdentifierView;

    open spec fn view(&self) -> SignerIdentifierView {
        match self {
            SignerIdentifier::IssuerAndSerialNumber(issuer, serial_number) => {
                SignerIdentifierView::IssuerAndSerialNumber(issuer@, serial_number@)
            },
            SignerIdentifier::SubjectKeyIdentifier(id) => {
                SignerIdentifierView::SubjectKeyIdentifier(id@)
            },
        }
    }
}

pub struct SignerInfoView {
    pub version: u8,
    pub sid: SignerIdentifierView,
    pub digest_algorithm: AlgorithmIdentifierView,
    pub signed_attributes: Option<Seq<AttributeView>>,
    pub signature_algorithm: AlgorithmIdentifierView,
    pub signature: Seq<u8>,
    pub unsigned_attributes: Option<Seq<AttributeView>>,
}

impl View for SignerInfo {
    type V = SignerInfoView;

    open spec fn view(&self) -> SignerInfoView {
        SignerInfoView {
            version: self.version,
            sid: self.sid@,
            digest_algorithm: self.digest_algorithm@,
            signed_attributes: x509::opt_attributes_view(self.signed_attributes),
            signature_algorithm: self.signature_algorithm@,
            signature: self.signature@,
            unsigned_attributes: x509::opt_attributes_view(self.unsigned_attributes),
        }
    }
}

pub struct SignedDataView {
    pub version: u8,
    pub digest_algorithms: Seq<AlgorithmIdentifierView>,
    pub content_info: EncapsulatedContentInfoView,
    pub certificates: Option<Seq<CertificateView>>,
    pub signer_infos: Seq<SignerInfoView>,
}

impl View for SignedData {
    type V = SignedDataView;

    open spec fn view(&self) -> SignedDataView {
        SignedDataView {
            version: self.version,
            digest_algorithms: x509::algorithms_view(self.digest_algorithms@),
            content_info: self.content_info@,
            certificates: opt_certificates_view(self.certificates),
            signer_infos: signer_infos_view(self.signer_infos@),
        }
    }
}

pub open spec fn certificates_view(v: Seq<Certificate>) -> Seq<CertificateView> {
    v.map_values(|c: Certificate| c@)
}

pub open spec fn opt_certificates_view(v: Option<Vec<Certificate>>) -> Option<
    Seq<CertificateView>,
> {
    match v {
        Some(v) => Some(certificates_view(v@)),
        None => None,
    }
}

pub open spec fn signer_infos_view(v: Seq<SignerInfo>) -> Seq<SignerInfoView> {
    v.map_values(|i: SignerInfo| i@)
}

/// The content info with the contents `c`.
pub open spec fn content_info_content(c: Seq<u8>) -> Option<ContentInfoView> {
    match der::oid(c) {
        Some((content_type, c1)) => match der::constructed(c1, der::CTX_0) {
            Some((content, c2)) => if c2.len() == 0 && der::all_values(content) {
                Some(ContentInfoView { content_type, content })
            } else {
                None
            },
            None => None,
        },
        None => None,
    }
}

/// An optional content info at the front of `s`.
pub open spec fn opt_content_info(s: Seq<u8>) -> Option<(Option<ContentInfoView>, Seq<u8>)> {
    match der::opt_constructed(s, der::SEQUENCE) {
        Some((Some(c), rest)) => match content_info_content(c) {
            Some(i) => Some((Some(i), rest)),
            None => None,
        },
        Some((None, rest)) => Some((None, rest)),
        None => None,
    }
}

/// A version number at the front of `s`.
pub open spec fn cms_version(s: Seq<u8>) -> Option<(u8, Seq<u8>)> {
    match der::small_integer(s) {
        Some((v, rest)) => if v <= 5 {
            Some((v, rest))
        } else {
            None
        },
        None => None,
    }
}

/// An OCTET STRING wrapped in an optional `[0]` at the front of `s`.
pub open spec fn opt_tagged_octets(s: Seq<u8>) -> Option<(Option<Seq<u8>>, Seq<u8>)> {
    match der::opt_constructed(s, der::CTX_0) {
        Some((Some(c), rest)) => match der::octets(c) {
            Some((v, after)) => if after.len() == 0 {
                Some((Some(v), rest))
            } else {
                None
            },
            None => None,
        },
        Some((None, rest)) => Some((None, rest)),
        None => None,
    }
}

/// What was signed, at the front of `s`.
pub open spec fn encapsulated_content(s: Seq<u8>) -> Option<
    (EncapsulatedContentInfoView, Seq<u8>),
> {
    match der::constructed(s, der::SEQUENCE) {
        Some((c, rest)) => match der::oid(c) {
            Some((content_type, c1)) => match opt_tagged_octets(c1) {
                Some((content, c2)) => if c2.len() == 0 {
                    Some((EncapsulatedContentInfoView { content_type, content }, rest))
                } else {
                    None
                },
                None => None,
            },
            None => None,
        },
        None => None,
    }
}

/// The number of octets of the certificate at the front of `s`. It is a constructed value of
/// definite length with any tag but those of the other kinds of certificates.
pub open spec fn certificate_len(s: Seq<u8>) -> Option<nat> {
    match der::header(s) {
        Some(h) => match h.length {
            Some(n) => if h.size + n <= s.len() && der::is_constructed(h.id) && h.id != 0x20
                && !(0xa0 <= h.id <= 0xa3) {
                Some(h.size + n)
            } else {
                None
            },
            None => None,
        },
        None => None,
    }
}

/// The certificate `value`. One whose key could not be written again is not accepted.
pub open spec fn certificate(value: Seq<u8>) -> Option<CertificateView> {
    match (outside::certificate_at(value), x509::issuer_at(value)) {
        (Some((parts, not_before, not_after)), Some(issuer)) => if x509::key_fits(parts) {
            Some(CertificateView { issuer, parts, not_before, not_after })
        } else {
            None
        },
        _ => None,
    }
}

/// The certificates that make up `s`.
pub open spec fn certificates(s: Seq<u8>) -> Option<Seq<CertificateView>>
    decreases s.len(),
{
    if s.len() == 0 {
        Some(Seq::empty())
    } else {
        match certificate_len(s) {
            Some(n) => if 0 < n <= s.len() {
                match (
                    certificate(s.take(n as int)),
                    certificates(s.skip(n as int)),
                ) {
                    (Some(c), Some(tail)) => Some(seq![c] + tail),
                    _ => None,
                }
            } else {
                None
            },
            None => None,
        }
    }
}

/// Optional certificates in a `[0]` at the front of `s`.
pub open spec fn opt_certificates(s: Seq<u8>) -> Option<(Option<Seq<CertificateView>>, Seq<u8>)> {
    match der::opt_constructed(s, der::CTX_0) {
        Some((Some(c), rest)) => match certificates(c) {
            Some(v) => Some((Some(v), rest)),
            None => None,
        },
        Some((None, rest)) => Some((None, rest)),
        None => None,
    }
}

/// An issuer and a serial number with the contents `c`.
pub open spec fn issuer_and_serial_number(c: Seq<u8>) -> Option<(Seq<u8>, Seq<u8>)> {
    match der::constructed(c, der::SEQUENCE) {
        Some((_, c1)) => {
            let issuer = c.take(c.len() - c1.len());
            match der::integer(c1) {
                Some((serial_number, c2)) => if outside::name_accepted(issuer) && c2.len() == 0 {
                    Some((issuer, serial_number))
                } else {
                    None
                },
                None => None,
            }
        },
        None => None,
    }
}

/// Whose signature it is, at the front of `s`.
pub open spec fn signer_identifier(s: Seq<u8>) -> Option<(SignerIdentifierView, Seq<u8>)> {
    match opt_tagged_octets(s) {
        Some((Some(id), rest)) => Some((SignerIdentifierView::SubjectKeyIdentifier(id), rest)),
        Some((None, _)) => match der::constructed(s, der::SEQUENCE) {
            Some((c, rest)) => match issuer_and_serial_number(c) {
                Some((issuer, serial_number)) => Some(
                    (SignerIdentifierView::IssuerAndSerialNumber(issuer, serial_number), rest),
                ),
                None => None,
            },
            None => None,
        },
        None => None,
    }
}

/// Optional signed attributes at the front of `s`. A value that is no SEQUENCE ends them, and so
/// is not looked at, nor what follows it.
pub open spec fn opt_signed_attributes(s: Seq<u8>) -> Option<
    (Option<Seq<AttributeView>>, Seq<u8>),
> {
    match der::opt_constructed(s, der::CTX_0) {
        Some((Some(c), rest)) => if der::all_values(c) {
            match x509::attributes(c) {
                Some((v, _)) => Some((Some(v), rest)),
                None => None,
            }
        } else {
            None
        },
        Some((None, rest)) => Some((None, rest)),
        None => None,
    }
}

/// Optional unsigned attributes at the front of `s`.
pub open spec fn opt_unsigned_attributes(s: Seq<u8>) -> Option<
    (Option<Seq<AttributeView>>, Seq<u8>),
> {
    match der::opt_constructed(s, der::CTX_1) {
        Some((Some(c), rest)) => match x509::attributes(c) {
            Some((v, after)) => if after.len() == 0 {
                Some((Some(v), rest))
            } else {
                None
            },
            None => None,
        },
        Some((None, rest)) => Some((None, rest)),
        None => None,
    }
}

/// The signature with the contents `c`.
pub open spec fn signer_info_content(c: Seq<u8>) -> Option<SignerInfoView> {
    match cms_version(c) {
        Some((version, c1)) => match signer_identifier(c1) {
            Some((sid, c2)) => match x509::algorithm(c2) {
                Some((digest_algorithm, c3)) => match opt_signed_attributes(c3) {
                    Some((signed_attributes, c4)) => match x509::algorithm(c4) {
                        Some((signature_algorithm, c5)) => match der::octets(c5) {
                            Some((signature, c6)) => match opt_unsigned_attributes(c6) {
                                Some((unsigned_attributes, c7)) => if c7.len() == 0 {
                                    Some(
                                        SignerInfoView {
                                            version,
                                            sid,
                                            digest_algorithm,
                                            signed_attributes,
                                            signature_algorithm,
                                            signature,
                                            unsigned_attributes,
                                        },
                                    )
                                } else {
                                    None
                                },
                                None => None,
                            },
                            None => None,
                        },
                        None => None,
                    },
                    None => None,
                },
                None => None,
            },
            None => None,
        },
        None => None,
    }
}

/// The signatures that make up `s`.
pub open spec fn signer_infos(s: Seq<u8>) -> Option<Seq<SignerInfoView>>
    decreases s.len(),
{
    match der::opt_constructed(s, der::SEQUENCE) {
        None => None,
        Some((None, rest)) => if rest.len() == 0 {
            Some(Seq::empty())
        } else {
            None
        },
        Some((Some(c), rest)) => if rest.len() < s.len() {
            match (signer_info_content(c), signer_infos(rest)) {
                (Some(i), Some(tail)) => Some(seq![i] + tail),
                _ => None,
            }
        } else {
            None
        },
    }
}

/// The digest algorithms in a SET at the front of `s`.
pub open spec fn digest_algorithms(s: Seq<u8>) -> Option<
    (Seq<AlgorithmIdentifierView>, Seq<u8>),
> {
    match der::constructed(s, der::SET) {
        Some((c, rest)) => match x509::algorithms(c) {
            Some(v) => Some((v, rest)),
            None => None,
        },
        None => None,
    }
}

/// The signed data with the contents `c`. Revocation information is not accepted.
pub open spec fn signed_data_content(c: Seq<u8>) -> Option<SignedDataView> {
    match cms_version(c) {
        Some((version, c1)) => match digest_algorithms(c1) {
            Some((digest_algorithms, c2)) => match encapsulated_content(c2) {
                Some((content_info, c3)) => match opt_certificates(c3) {
                    Some((certificates, c4)) => match der::opt_constructed(c4, der::CTX_1) {
                        Some((None, c5)) => match der::constructed(c5, der::SET) {
                            Some((v, c6)) => match signer_infos(v) {
                                Some(signer_infos) => if c6.len() == 0 {
                                    Some(
                                        SignedDataView {
                                            version,
                                            digest_algorithms,
                                            content_info,
                                            certificates,
                                            signer_infos,
                                        },
                                    )
                                } else {
                                    None
                                },
                                None => None,
                            },
                            None => None,
                        },
                        _ => None,
                    },
                    None => None,
                },
                None => None,
            },
            None => None,
        },
        None => None,
    }
}

/// The signed data that `s` starts with. What follows it does not matter.
#[verifier::opaque]
pub open spec fn signed_data(s: Seq<u8>) -> Option<SignedDataView> {
    match der::constructed(s, der::SEQUENCE) {
        Some((c, _)) => signed_data_content(c),
        None => None,
    }
}

/// Reads an optional content info.
pub fn read_opt_content_info<'a>(s: &'a [u8]) -> (res: Option<(Option<ContentInfo>, &'a [u8])>)
    ensures
        match res {
            Some((Some(i), rest)) => opt_content_info(s@) == Some((Some(i@), rest@)),
            Some((None, rest)) => opt_content_info(s@) == Some((None::<ContentInfoView>, rest@)),
            None => opt_content_info(s@) is None,
        },
{
    match der::read_opt_constructed(s, der::SEQUENCE) {
        Some((Some(c), rest)) => match der::read_oid(c) {
            Some((content_type, c1)) => match der::read_constructed(c1, der::CTX_0) {
                Some((content, c2)) => if c2.len() == 0 && der::check_all_values(content) {
                    let info = ContentInfo {
                        content_type: slice_to_vec(content_type),
                        content: slice_to_vec(content),
                    };
                    Some((Some(info), rest))
                } else {
                    None
                },
                None => None,
            },
            None => None,
        },
        Some((None, rest)) => Some((None, rest)),
        None => None,
    }
}

/// Reads a version number.
fn read_cms_version<'a>(s: &'a [u8]) -> (res: Option<(u8, &'a [u8])>)
    ensures
        match res {
            Some((v, rest)) => cms_version(s@) == Some((v, rest@)),
            None => cms_version(s@) is None,
        },
{
    match der::read_small_integer(s) {
        Some((v, rest)) => if v <= 5 {
            Some((v, rest))
        } else {
            None
        },
        None => None,
    }
}

/// Reads an OCTET STRING in an optional `[0]`.
fn read_opt_tagged_octets<'a>(s: &'a [u8]) -> (res: Option<(Option<&'a [u8]>, &'a [u8])>)
    ensures
        der::opt_read_view(res) == opt_tagged_octets(s@),
{
    match der::read_opt_constructed(s, der::CTX_0) {
        Some((Some(c), rest)) => match der::read_octets(c) {
            Some((v, after)) => if after.len() == 0 {
                Some((Some(v), rest))
            } else {
                None
            },
            None => None,
        },
        r => r,
    }
}

/// Reads what was signed.
fn read_encapsulated_content<'a>(s: &'a [u8]) -> (res: Option<
    (EncapsulatedContentInfo, &'a [u8]),
>)
    ensures
        match res {
            Some((i, rest)) => encapsulated_content(s@) == Some((i@, rest@)),
            None => encapsulated_content(s@) is None,
        },
{
    match der::read_constructed(s, der::SEQUENCE) {
        Some((c, rest)) => match der::read_oid(c) {
            Some((content_type, c1)) => match read_opt_tagged_octets(c1) {
                Some((content, c2)) => if c2.len() == 0 {
                    let info = EncapsulatedContentInfo {
                        content_type: slice_to_vec(content_type),
                        content: der::opt_to_vec(content),
                    };
                    Some((info, rest))
                } else {
                    None
                },
                None => None,
            },
            None => None,
        },
        None => None,
    }
}

/// Reads one certificate.
fn read_certificate(value: &[u8]) -> (res: Option<Certificate>)
    ensures
        match res {
            Some(c) => certificate(value@) == Some(c@),
            None => certificate(value@) is None,
        },
{
    let parts = match outside::decode_certificate(value) {
        Some(parts) => parts,
        None => {
            return None;
        },
    };
    let (not_before, not_after) = match outside::decode_validity(value) {
        Some(validity) => validity,
        None => {
            return None;
        },
    };
    match x509::read_issuer(value) {
        Some(issuer) => if x509::check_key_fits(&parts) {
            Some(Certificate { issuer, parts, not_before, not_after })
        } else {
            None
        },
        None => None,
    }
}

/// Reads the certificates that make up `s`.
fn read_certificates(s: &[u8]) -> (res: Option<Vec<Certificate>>)
    ensures
        match res {
            Some(v) => certificates(s@) == Some(certificates_view(v@)),
            None => certificates(s@) is None,
        },
{
    let mut out: Vec<Certificate> = Vec::new();
    let mut rest = s;
    assert(certificates_view(out@) =~= Seq::<CertificateView>::empty());
    while rest.len() > 0
        invariant
            certificates(s@) == match certificates(rest@) {
                Some(tail) => Some(certificates_view(out@) + tail),
                None => None,
            },
        decreases rest@.len(),
    {
        let h = match der::read_header(rest) {
            Some(h) => h,
            None => {
                return None;
            },
        };
        let n = match h.length {
            Some(n) => n,
            None => {
                return None;
            },
        };
        let plain: bool = (h.id / 32) % 2 == 1 && h.id != 0x20 && !(0xa0 <= h.id && h.id <= 0xa3);
        if n > rest.len() - h.size || !plain {
            return None;
        }
        let value = slice_subrange(rest, 0, h.size + n);
        let after = slice_subrange(rest, h.size + n, rest.len());
        assert(value@ =~= rest@.take(h.size + n as int));
        assert(after@ =~= rest@.skip(h.size + n as int));
        match read_certificate(value) {
            Some(item) => {
                let ghost before = out@;
                out.push(item);
                rest = after;
                proof {
                    assert(certificates_view(out@) =~= certificates_view(before).push(item@));
                    if let Some(tail) = certificates(after@) {
                        assert(certificates_view(before) + (seq![item@] + tail)
                            =~= certificates_view(out@) + tail);
                    }
                }
            },
            None => {
                return None;
            },
        }
    }
    assert(certificates_view(out@) + Seq::<CertificateView>::empty() =~= certificates_view(out@));
    Some(out)
}

/// Reads optional certificates.
fn read_opt_certificates<'a>(s: &'a [u8]) -> (res: Option<(Option<Vec<Certificate>>, &'a [u8])>)
    ensures
        match res {
            Some((v, rest)) => opt_certificates(s@) == Some((opt_certificates_view(v), rest@)),
            None => opt_certificates(s@) is None,
        },
{
    match der::read_opt_constructed(s, der::CTX_0) {
        Some((Some(c), rest)) => match read_certificates(c) {
            Some(v) => Some((Some(v), rest)),
            None => None,
        },
        Some((None, rest)) => Some((None, rest)),
        None => None,
    }
}

/// Reads an issuer and a serial number.
fn read_issuer_and_serial_number<'a>(c: &'a [u8]) -> (res: Option<(&'a [u8], &'a [u8])>)
    ensures
        der::read_view(res) == issuer_and_serial_number(c@),
{
    match der::read_constructed(c, der::SEQUENCE) {
        Some((_, c1)) => {
            proof {
                encode::lemma_tlv_canonical(c@, der::SEQUENCE);
            }
            let issuer = slice_subrange(c, 0, c.len() - c1.len());
            assert(issuer@ =~= c@.take(c@.len() - c1@.len()));
            if !outside::accept_name(issuer) {
                return None;
            }
            match der::read_integer(c1) {
                Some((serial_number, c2)) => if c2.len() == 0 {
                    Some((issuer, serial_number))
                } else {
                    None
                },
                None => None,
            }
        },
        None => None,
    }
}

/// Reads whose signature it is.
fn read_signer_identifier<'a>(s: &'a [u8]) -> (res: Option<(SignerIdentifier, &'a [u8])>)
    ensures
        match res {
            Some((i, rest)) => signer_identifier(s@) == Some((i@, rest@)),
            None => signer_identifier(s@) is None,
        },
{
    match read_opt_tagged_octets(s) {
        Some((Some(id), rest)) => Some(
            (SignerIdentifier::SubjectKeyIdentifier(slice_to_vec(id)), rest),
        ),
        Some((None, _)) => match der::read_constructed(s, der::SEQUENCE) {
            Some((c, rest)) => match read_issuer_and_serial_number(c) {
                Some((issuer, serial_number)) => {
                    let sid = SignerIdentifier::IssuerAndSerialNumber(
                        slice_to_vec(issuer),
                        slice_to_vec(serial_number),
                    );
                    Some((sid, rest))
                },
                None => None,
            },
            None => None,
        },
        None => None,
    }
}

/// Reads optional signed attributes.
fn read_opt_signed_attributes<'a>(s: &'a [u8]) -> (res: Option<
    (Option<Vec<Attribute>>, &'a [u8]),
>)
    ensures
        match res {
            Some((v, rest)) => opt_signed_attributes(s@) == Some(
                (x509::opt_attributes_view(v), rest@),
            ),
            None => opt_signed_attributes(s@) is None,
        },
{
    match der::read_opt_constructed(s, der::CTX_0) {
        Some((Some(c), rest)) => if der::check_all_values(c) {
            match x509::read_attributes(c) {
                Some((v, _)) => Some((Some(v), rest)),
                None => None,
            }
        } else {
            None
        },
        Some((None, rest)) => Some((None, rest)),
        None => None,
    }
}

/// Reads optional unsigned attributes.
fn read_opt_unsigned_attributes<'a>(s: &'a [u8]) -> (res: Option<
    (Option<Vec<Attribute>>, &'a [u8]),
>)
    ensures
        match res {
            Some((v, rest)) => opt_unsigned_attributes(s@) == Some(
                (x509::opt_attributes_view(v), rest@),
            ),
            None => opt_unsigned_attributes(s@) is None,
        },
{
    match der::read_opt_constructed(s, der::CTX_1) {
        Some((Some(c), rest)) => match x509::read_attributes(c) {
            Some((v, after)) => if after.len() == 0 {
                Some((Some(v), rest))
            } else {
                None
            },
            None => None,
        },
        Some((None, rest)) => Some((None, rest)),
        None => None,
    }
}

/// Reads the contents of a signature.
fn read_signer_info_content(c: &[u8]) -> (res: Option<SignerInfo>)
    ensures
        match res {
            Some(i) => signer_info_content(c@) == Some(i@),
            None => signer_info_content(c@) is None,
        },
{
    let (version, c1) = match read_cms_version(c) {
        Some(r) => r,
        None => {
            return None;
        },
    };
    let (sid, c2) = match read_signer_identifier(c1) {
        Some(r) => r,
        None => {
            return None;
        },
    };
    let (digest_algorithm, c3) = match x509::read_algorithm(c2) {
        Some(r) => r,
        None => {
            return None;
        },
    };
    let (signed_attributes, c4) = match read_opt_signed_attributes(c3) {
        Some(r) => r,
        None => {
            return None;
        },
    };
    let (signature_algorithm, c5) = match x509::read_algorithm(c4) {
        Some(r) => r,
        None => {
            return None;
        },
    };
    let (signature, c6) = match der::read_octets(c5) {
        Some(r) => r,
        None => {
            return None;
        },
    };
    let (unsigned_attributes, c7) = match read_opt_unsigned_attributes(c6) {
        Some(r) => r,
        None => {
            return None;
        },
    };
    if c7.len() == 0 {
        Some(
            SignerInfo {
                version,
                sid,
                digest_algorithm,
                signed_attributes,
                signature_algorithm,
                signature: slice_to_vec(signature),
                unsigned_attributes,
            },
        )
    } else {
        None
    }
}

/// Reads the signatures that make up `s`.
fn read_signer_infos(s: &[u8]) -> (res: Option<Vec<SignerInfo>>)
    ensures
        match res {
            Some(v) => signer_infos(s@) == Some(signer_infos_view(v@)),
            None => signer_infos(s@) is None,
        },
{
    let mut out: Vec<SignerInfo> = Vec::new();
    let mut rest = s;
    assert(signer_infos_view(out@) =~= Seq::<SignerInfoView>::empty());
    loop
        invariant
            signer_infos(s@) == match signer_infos(rest@) {
                Some(tail) => Some(signer_infos_view(out@) + tail),
                None => None,
            },
        decreases rest@.len(),
    {
        match der::read_opt_constructed(rest, der::SEQUENCE) {
            None => {
                return None;
            },
            Some((None, after)) => {
                if after.len() == 0 {
                    assert(signer_infos_view(out@) + Seq::<SignerInfoView>::empty()
                        =~= signer_infos_view(out@));
                    return Some(out);
                }
                return None;
            },
            Some((Some(c), after)) => {
                proof {
                    encode::lemma_tlv_canonical(rest@, der::SEQUENCE);
                }
                match read_signer_info_content(c) {
                    Some(item) => {
                        let ghost before = out@;
                        out.push(item);
                        rest = after;
                        proof {
                            assert(signer_infos_view(out@) =~= signer_infos_view(before).push(
                                item@,
                            ));
                            if let Some(tail) = signer_infos(after@) {
                                assert(signer_infos_view(before) + (seq![item@] + tail)
                                    =~= signer_infos_view(out@) + tail);
                            }
                        }
                    },
                    None => {
                        return None;
                    },
                }
            },
        }
    }
}

/// Reads the contents of signed data.
fn read_signed_data_content(c: &[u8]) -> (res: Option<SignedData>)
    ensures
        match res {
            Some(d) => signed_data_content(c@) == Some(d@),
            None => signed_data_content(c@) is None,
        },
{
    let (version, c1) = match read_cms_version(c) {
        Some(r) => r,
        None => {
            return None;
        },
    };
    let (algorithms, c2) = match der::read_constructed(c1, der::SET) {
        Some(r) => r,
        None => {
            return None;
        },
    };
    let digest_algorithms = match x509::read_algorithms(algorithms) {
        Some(v) => v,
        None => {
            return None;
        },
    };
    let (content_info, c3) = match read_encapsulated_content(c2) {
        Some(r) => r,
        None => {
            return None;
        },
    };
    let (certificates, c4) = match read_opt_certificates(c3) {
        Some(r) => r,
        None => {
            return None;
        },
    };
    let c5 = match der::read_opt_constructed(c4, der::CTX_1) {
        Some((None, rest)) => rest,
        _ => {
            return None;
        },
    };
    let (infos, c6) = match der::read_constructed(c5, der::SET) {
        Some(r) => r,
        None => {
            return None;
        },
    };
    let signer_infos = match read_signer_infos(infos) {
        Some(v) => v,
        None => {
            return None;
        },
    };
    if c6.len() == 0 {
        Some(
            SignedData { version, digest_algorithms, content_info, certificates, signer_infos },
        )
    } else {
        None
    }
}

/// Reads signed data. What follows it is left alone.
pub fn read_signed_data(s: &[u8]) -> (res: Option<SignedData>)
    ensures
        match res {
            Some(d) => signed_data(s@) == Some(d@),
            None => signed_data(s@) is None,
        },
{
    reveal(signed_data);
    match der::read_constructed(s, der::SEQUENCE) {
        Some((c, _)) => read_signed_data_content(c),
        None => None,
    }
}

/// Whether the key of each of the certificates `certs` can be written.
pub open spec fn keys_fit(certs: Seq<CertificateView>) -> bool {
    forall|k: int| 0 <= k < certs.len() ==> x509::key_fits((#[trigger] certs[k]).parts)
}

/// The key of each certificate that was read can be written.
proof fn lemma_certificates_fit(s: Seq<u8>)
    ensures
        certificates(s) matches Some(certs) ==> keys_fit(certs),
    decreases s.len(),
{
    if let Some(certs) = certificates(s) {
        if s.len() > 0 {
            let after = s.skip(certificate_len(s)->0 as int);
            lemma_certificates_fit(after);
            let tail = certificates(after)->0;
            assert forall|k: int| 0 <= k < certs.len() implies x509::key_fits(
                (#[trigger] certs[k]).parts,
            ) by {
                if k > 0 {
                    assert(certs[k] == tail[k - 1]);
                }
            }
        }
    }
}

/// The key of each certificate in signed data that was read can be written.
pub proof fn lemma_signed_data_keys_fit(s: Seq<u8>)
    ensures
        signed_data(s) matches Some(d) ==> (d.certificates matches Some(certs) ==> keys_fit(certs)),
{
    reveal(signed_data);
    if let Some(d) = signed_data(s) {
        if d.certificates is Some {
            let c = (der::constructed(s, der::SEQUENCE)->0).0;
            let c1 = (cms_version(c)->0).1;
            let c2 = (digest_algorithms(c1)->0).1;
            let c3 = (encapsulated_content(c2)->0).1;
            lemma_certificates_fit((der::opt_constructed(c3, der::CTX_0)->0).0->0);
        }
    }
}

} // verus!
