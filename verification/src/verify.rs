//! Checking a time stamp.
use crate::der;
use crate::digest;
use crate::digest::DigestAlgorithm;
use crate::error::Error;
use crate::laws;
use crate::oids;
use crate::outside;
use crate::response;
use crate::response::{get_timestamp_response, TimeStampResponse};
use crate::rfc3161;
use crate::rfc3161::{TimeStampRespView, TstInfo, TstInfoView};
use crate::rfc5652;
use crate::rfc5652::{
    SignedData, SignedDataView, SignerIdentifier, SignerIdentifierView, SignerInfo, SignerInfoView,
};
use crate::signed_attributes;
use crate::time;
use crate::time::{gt_to_datetime, time_to_datetime};
use crate::validator;
use crate::validator::{get_local_validator, LocalValidator};
use crate::x509;
use crate::x509::{Certificate, CertificateView};
use vstd::prelude::*;

verus! {

/// What is checked of the signature of a time stamp.
#[derive(Clone, Debug, PartialEq, Eq)]
pub struct SignatureInput {
    pub validator: LocalValidator,
    pub signature: Vec<u8>,
    /// What was signed.
    pub data: Vec<u8>,
    /// The encoded SubjectPublicKeyInfo of the signer.
    pub public_key: Vec<u8>,
}

/// A time stamp that holds but for its signature, and what it is over.
#[derive(Clone, Debug, PartialEq, Eq)]
pub struct PendingTimeStamp {
    pub input: SignatureInput,
    pub tst: TstInfo,
}

pub struct SignatureInputView {
    pub validator: LocalValidator,
    pub signature: Seq<u8>,
    pub data: Seq<u8>,
    pub public_key: Seq<u8>,
}

impl View for SignatureInput {
    type V = SignatureInputView;

    open spec fn view(&self) -> SignatureInputView {
        SignatureInputView {
            validator: self.validator,
            signature: self.signature@,
            data: self.data@,
            public_key: self.public_key@,
        }
    }
}

pub struct PendingTimeStampView {
    pub input: SignatureInputView,
    pub tst: TstInfoView,
}

impl View for PendingTimeStamp {
    type V = PendingTimeStampView;

    open spec fn view(&self) -> PendingTimeStampView {
        PendingTimeStampView { input: self.input@, tst: self.tst@ }
    }
}

/// Checks signatures.
pub trait CoseValidator {
    /// Whether the signature holds.
    fn validate(&self, input: &SignatureInput) -> Result<bool, Error>;
}

/// Whether one of the extensions `v` is the subject key identifier `id`.
pub open spec fn has_key_identifier(v: Seq<(Seq<u8>, Seq<u8>)>, id: Seq<u8>) -> bool {
    exists|k: int| 0 <= k < v.len() && #[trigger] v[k] == (oids::SKI_OID@, id)
}

/// Whether the certificate `c` is the one that `sid` names.
pub open spec fn is_named_by(c: CertificateView, sid: SignerIdentifierView) -> bool {
    match sid {
        SignerIdentifierView::IssuerAndSerialNumber(issuer, serial_number) => c.issuer == issuer
            && c.parts.serial_number == serial_number,
        SignerIdentifierView::SubjectKeyIdentifier(id) => match c.parts.extensions {
            Some(v) => has_key_identifier(v, id),
            None => false,
        },
    }
}

/// The first of the certificates `certs` that `sid` names.
pub open spec fn certificate_of(certs: Seq<CertificateView>, sid: SignerIdentifierView) -> Option<
    CertificateView,
>
    decreases certs.len(),
{
    if certs.len() == 0 {
        None
    } else if is_named_by(certs[0], sid) {
        Some(certs[0])
    } else {
        certificate_of(certs.skip(1), sid)
    }
}

/// The first of the signatures `infos` with a certificate among `certs`, and that certificate.
pub open spec fn signer_of(infos: Seq<SignerInfoView>, certs: Seq<CertificateView>) -> Option<
    (SignerInfoView, CertificateView),
>
    decreases infos.len(),
{
    if infos.len() == 0 {
        None
    } else {
        match certificate_of(certs, infos[0].sid) {
            Some(c) => Some((infos[0], c)),
            None => signer_of(infos.skip(1), certs),
        }
    }
}

/// Whether the certificate `c` was valid at the time that `tst` states, to the second.
pub open spec fn is_valid_at(c: CertificateView, tst: TstInfoView) -> bool {
    time::instant_of(c.not_before).timestamp <= tst.gen_time.instant.timestamp
        <= time::instant_of(c.not_after).timestamp
}

/// What the signature `info` in the signed data `d` signs: its signed attributes where it has any,
/// otherwise the content.
pub open spec fn signed_octets(d: SignedDataView, info: SignerInfoView) -> Option<Seq<u8>> {
    match info.signed_attributes {
        Some(v) => Some(signed_attributes::signed_attributes_der(v)),
        None => d.content_info.content,
    }
}

/// The time stamp in the response `r`, with the signed data `d`, under the signature `info` and the
/// certificate `c`, before its signature is checked.
pub open spec fn pending_under(
    r: TimeStampRespView,
    d: SignedDataView,
    info: SignerInfoView,
    c: CertificateView,
) -> Result<PendingTimeStampView, Error> {
    match response::tst_info_of(r) {
        Err(e) => Err(e),
        Ok(None) => Err(Error::CoseInvalidTimeStamp),
        Ok(Some(tst)) => if !is_valid_at(c, tst) {
            Err(Error::CoseTimeStampValidity)
        } else {
            match signed_octets(d, info) {
                None => Err(Error::CoseTimeStampValidity),
                Some(data) => match validator::local_validator(
                    info.signature_algorithm.algorithm,
                    info.digest_algorithm.algorithm,
                    c.parts.signature_algorithm,
                ) {
                    None => Err(Error::CoseTimeStampAuthority),
                    Some(v) => Ok(
                        PendingTimeStampView {
                            input: SignatureInputView {
                                validator: v,
                                signature: info.signature,
                                data,
                                public_key: x509::key_encoding(c.parts),
                            },
                            tst,
                        },
                    ),
                },
            }
        },
    }
}

/// The time stamp in the response `r`, with the signed data `d`, before its signature is checked.
pub open spec fn pending_in(r: TimeStampRespView, d: SignedDataView) -> Result<
    PendingTimeStampView,
    Error,
> {
    match d.certificates {
        None => Err(Error::CoseTimeStampValidity),
        Some(certs) => match signer_of(d.signer_infos, certs) {
            None => Err(Error::CoseInvalidTimeStamp),
            Some((info, c)) => pending_under(r, d, info, c),
        },
    }
}

/// The time stamp `ts` before its signature is checked.
pub open spec fn pending(ts: Seq<u8>) -> Result<PendingTimeStampView, Error> {
    match rfc3161::response(ts) {
        None => Err(Error::CoseInvalidTimeStamp),
        Some(r) => match response::signed_data_of(r) {
            Ok(Some(d)) => pending_in(r, d),
            _ => Err(Error::CoseInvalidTimeStamp),
        },
    }
}

/// The digest algorithm with the object identifier `id`.
pub open spec fn digest_algorithm_of(id: Seq<u8>) -> Option<DigestAlgorithm> {
    if id == oids::SHA1_OID@ {
        Some(DigestAlgorithm::Sha1)
    } else if id == oids::SHA256_OID@ {
        Some(DigestAlgorithm::Sha256)
    } else if id == oids::SHA384_OID@ {
        Some(DigestAlgorithm::Sha384)
    } else if id == oids::SHA512_OID@ {
        Some(DigestAlgorithm::Sha512)
    } else {
        None
    }
}

/// What becomes of the statement `tst` over data with the digest `digest`.
pub open spec fn imprint_matched(tst: TstInfoView, digest: Seq<u8>) -> Result<TstInfoView, Error> {
    if digest == tst.message_imprint.hashed_message {
        Ok(tst)
    } else {
        Err(Error::CoseTimeStampMismatch)
    }
}

/// What becomes of the statement `tst` over `data` once its signature was checked with the outcome
/// `validated`.
pub open spec fn concluded(
    tst: TstInfoView,
    validated: Result<bool, Error>,
    data: Seq<u8>,
) -> Result<TstInfoView, Error> {
    match validated {
        Err(e) => Err(e),
        Ok(false) => Err(Error::CoseTimeStampAuthority),
        Ok(true) => match digest_algorithm_of(tst.message_imprint.hash_algorithm.algorithm) {
            None => Err(Error::UnsupportedType),
            Some(a) => imprint_matched(tst, outside::digest_of(a, data)),
        },
    }
}

/// The view of a result with a statement.
pub open spec fn result_view(res: Result<TstInfo, Error>) -> Result<TstInfoView, Error> {
    match res {
        Ok(t) => Ok(t@),
        Err(e) => Err(e),
    }
}

/// Whether `validator` may answer `validated` when asked about `input`.
pub open spec fn may_answer<V: CoseValidator>(
    validator: V,
    input: SignatureInputView,
    validated: Result<bool, Error>,
) -> bool {
    exists|i: SignatureInput|
        i@ == input && #[trigger] call_ensures(V::validate, (&validator, &i), validated)
}

/// Whether `res` may come of the time stamp `ts` over `data` when `validator` checks its signature.
/// Where there is no signature to check, only one result may.
pub open spec fn may_verify<V: CoseValidator>(
    ts: Seq<u8>,
    data: Seq<u8>,
    validator: V,
    res: Result<TstInfoView, Error>,
) -> bool {
    match pending(ts) {
        Err(e) => res == Err::<TstInfoView, Error>(e),
        Ok(p) => exists|validated: Result<bool, Error>| #[trigger]
            may_answer(validator, p.input, validated) && res == concluded(p.tst, validated, data),
    }
}

/// Whether one of the extensions is the subject key identifier `id`.
fn check_key_identifier(v: &Vec<(Vec<u8>, Vec<u8>)>, id: &[u8]) -> (res: bool)
    ensures
        res == has_key_identifier(x509::pairs_view(v@), id@),
{
    let ghost all = x509::pairs_view(v@);
    let mut i: usize = 0;
    while i < v.len()
        invariant
            i <= v.len(),
            all == x509::pairs_view(v@),
            forall|k: int| 0 <= k < i ==> #[trigger] all[k] != (oids::SKI_OID@, id@),
        decreases v.len() - i,
    {
        assert(all[i as int] == (v@[i as int].0@, v@[i as int].1@));
        if oids::vec_compare(&v[i].0, &oids::SKI_OID) && oids::vec_compare(id, &v[i].1) {
            return true;
        }
        i = i + 1;
    }
    false
}

/// Whether `sid` names the certificate `c`.
fn check_named_by(c: &Certificate, sid: &SignerIdentifier) -> (res: bool)
    ensures
        res == is_named_by(c@, sid@),
{
    match sid {
        SignerIdentifier::IssuerAndSerialNumber(issuer, serial_number) => {
            oids::vec_compare(issuer, &c.issuer) && oids::vec_compare(
                serial_number,
                &c.parts.serial_number,
            )
        },
        SignerIdentifier::SubjectKeyIdentifier(id) => match &c.parts.extensions {
            Some(v) => check_key_identifier(v, id),
            None => false,
        },
    }
}

/// Finds the first certificate that `sid` names.
fn find_certificate<'a>(certs: &'a Vec<Certificate>, sid: &SignerIdentifier) -> (res: Option<
    &'a Certificate,
>)
    ensures
        match res {
            Some(c) => certificate_of(rfc5652::certificates_view(certs@), sid@) == Some(c@),
            None => certificate_of(rfc5652::certificates_view(certs@), sid@) is None,
        },
{
    let ghost all = rfc5652::certificates_view(certs@);
    let mut i: usize = 0;
    assert(all.skip(0) =~= all);
    while i < certs.len()
        invariant
            i <= certs.len(),
            all == rfc5652::certificates_view(certs@),
            certificate_of(all, sid@) == certificate_of(all.skip(i as int), sid@),
        decreases certs.len() - i,
    {
        assert(all.skip(i as int)[0] == certs@[i as int]@);
        assert(all.skip(i as int).skip(1) =~= all.skip(i + 1));
        if check_named_by(&certs[i], sid) {
            return Some(&certs[i]);
        }
        i = i + 1;
    }
    None
}

/// Finds the first signature with a certificate, and that certificate.
fn find_signer<'a>(infos: &'a Vec<SignerInfo>, certs: &'a Vec<Certificate>) -> (res: Option<
    (&'a SignerInfo, &'a Certificate),
>)
    ensures
        match res {
            Some((info, c)) => signer_of(
                rfc5652::signer_infos_view(infos@),
                rfc5652::certificates_view(certs@),
            ) == Some((info@, c@)),
            None => signer_of(
                rfc5652::signer_infos_view(infos@),
                rfc5652::certificates_view(certs@),
            ) is None,
        },
{
    let ghost all = rfc5652::signer_infos_view(infos@);
    let ghost certs_view = rfc5652::certificates_view(certs@);
    let mut i: usize = 0;
    assert(all.skip(0) =~= all);
    while i < infos.len()
        invariant
            i <= infos.len(),
            all == rfc5652::signer_infos_view(infos@),
            certs_view == rfc5652::certificates_view(certs@),
            signer_of(all, certs_view) == signer_of(all.skip(i as int), certs_view),
        decreases infos.len() - i,
    {
        assert(all[i as int] == infos@[i as int]@);
        assert(all.skip(i as int)[0] == infos@[i as int]@);
        assert(all.skip(i as int).skip(1) =~= all.skip(i + 1));
        if let Some(c) = find_certificate(certs, &infos[i].sid) {
            return Some((&infos[i], c));
        }
        i = i + 1;
    }
    None
}

/// Gathers what the signature `info` signs.
fn to_be_signed(d: &SignedData, info: &SignerInfo) -> (res: Option<Vec<u8>>)
    requires
        info@.signed_attributes matches Some(v) ==> signed_attributes::fits(v),
    ensures
        der::opt_view(res) == signed_octets(d@, info@),
{
    match &info.signed_attributes {
        Some(v) => Some(signed_attributes::encode_signed_attributes(v)),
        None => match &d.content_info.content {
            Some(content) => Some(vstd::slice::slice_to_vec(content)),
            None => None,
        },
    }
}

/// Checks all of a time stamp but its signature and what it is over, under the signature `info` and
/// the certificate `c`.
fn check_under(
    r: &TimeStampResponse,
    d: &SignedData,
    info: &SignerInfo,
    c: &Certificate,
) -> (res: Result<PendingTimeStamp, Error>)
    requires
        info@.signed_attributes matches Some(v) ==> signed_attributes::fits(v),
        x509::key_fits(c@.parts),
    ensures
        match res {
            Ok(p) => pending_under(r@, d@, info@, c@) == Ok::<_, Error>(p@),
            Err(e) => pending_under(r@, d@, info@, c@) == Err::<PendingTimeStampView, _>(e),
        },
{
    let tst = match r.tst_info() {
        Ok(Some(tst)) => tst,
        Ok(None) => {
            return Err(Error::CoseInvalidTimeStamp);
        },
        Err(e) => {
            return Err(e);
        },
    };
    let signing_time = gt_to_datetime(tst.gen_time).timestamp;
    let not_before = time_to_datetime(c.not_before).timestamp;
    let not_after = time_to_datetime(c.not_after).timestamp;
    if !(signing_time >= not_before && signing_time <= not_after) {
        return Err(Error::CoseTimeStampValidity);
    }
    let data = match to_be_signed(d, info) {
        Some(data) => data,
        None => {
            return Err(Error::CoseTimeStampValidity);
        },
    };
    let validator = get_local_validator(
        &info.signature_algorithm.algorithm,
        &info.digest_algorithm.algorithm,
        &c.parts.signature_algorithm,
    );
    match validator {
        Ok(validator) => {
            let input = SignatureInput {
                validator,
                signature: vstd::slice::slice_to_vec(&info.signature),
                data,
                public_key: x509::encode_key(&c.parts),
            };
            Ok(PendingTimeStamp { input, tst })
        },
        Err(e) => Err(e),
    }
}

/// Checks all of the time stamp in a response, with the signed data `d`, but its signature and what
/// it is over.
pub fn check_signed_data(r: &TimeStampResponse, d: &SignedData) -> (res: Result<
    PendingTimeStamp,
    Error,
>)
    requires
        response::is_writable(d@),
    ensures
        match res {
            Ok(p) => pending_in(r@, d@) == Ok::<_, Error>(p@),
            Err(e) => pending_in(r@, d@) == Err::<PendingTimeStampView, _>(e),
        },
{
    match &d.certificates {
        None => Err(Error::CoseTimeStampValidity),
        Some(certs) => match find_signer(&d.signer_infos, certs) {
            None => Err(Error::CoseInvalidTimeStamp),
            Some((info, c)) => {
                proof {
                    laws::law_first_signer(d@.signer_infos, d@.certificates->0);
                    laws::law_first_certificate(d@.certificates->0, info@.sid);
                }
                check_under(r, d, info, c)
            },
        },
    }
}

/// Checks all of a time stamp but its signature and what it is over.
pub fn check_timestamp(ts: &[u8]) -> (res: Result<PendingTimeStamp, Error>)
    ensures
        match res {
            Ok(p) => pending(ts@) == Ok::<_, Error>(p@),
            Err(e) => pending(ts@) == Err::<PendingTimeStampView, _>(e),
        },
{
    let r = match get_timestamp_response(ts) {
        Ok(r) => r,
        Err(e) => {
            return Err(e);
        },
    };
    match r.signed_data() {
        Ok(Some(d)) => check_signed_data(&r, &d),
        _ => Err(Error::CoseInvalidTimeStamp),
    }
}

/// Holds the statement of a time stamp against the digest of the data that it should be over.
pub fn match_imprint(tst: TstInfo, digest: &[u8]) -> (res: Result<TstInfo, Error>)
    ensures
        result_view(res) == imprint_matched(tst@, digest@),
{
    if oids::vec_compare(digest, &tst.message_imprint.hashed_message) {
        Ok(tst)
    } else {
        Err(Error::CoseTimeStampMismatch)
    }
}

/// Checks what a time stamp is over, once its signature was checked with the outcome `validated`.
pub fn conclude(tst: TstInfo, validated: Result<bool, Error>, data: &[u8]) -> (res: Result<
    TstInfo,
    Error,
>)
    ensures
        result_view(res) == concluded(tst@, validated, data@),
{
    match validated {
        Err(e) => Err(e),
        Ok(false) => Err(Error::CoseTimeStampAuthority),
        Ok(true) => {
            let algorithm = &tst.message_imprint.hash_algorithm.algorithm;
            let known = if der::check_oid(algorithm) {
                outside::digest_algorithm_from_oid(algorithm)
            } else {
                None
            };
            proof {
                assert(digest::digest_oid(DigestAlgorithm::Sha1) == oids::SHA1_OID@);
                assert(digest::digest_oid(DigestAlgorithm::Sha256) == oids::SHA256_OID@);
                assert(digest::digest_oid(DigestAlgorithm::Sha384) == oids::SHA384_OID@);
                assert(digest::digest_oid(DigestAlgorithm::Sha512) == oids::SHA512_OID@);
                assert(oids::SHA1_OID@.len() == 5);
                assert(oids::SHA256_OID@.len() == 9 && oids::SHA256_OID@[8] == 1);
                assert(oids::SHA384_OID@.len() == 9 && oids::SHA384_OID@[8] == 2);
                assert(oids::SHA512_OID@.len() == 9 && oids::SHA512_OID@[8] == 3);
                assert(oids::SHA1_OID@[4] == 26);
                assert(known == digest_algorithm_of(algorithm@));
            }
            match known {
                None => Err(Error::UnsupportedType),
                Some(known) => {
                    let digest = outside::digest_data(known, data);
                    match_imprint(tst, &digest)
                },
            }
        },
    }
}

/// Returns what the time stamp `ts` states if it verifies against the supplied data.
pub fn verify_timestamp<V: CoseValidator>(ts: &[u8], data: &[u8], validator: &V) -> (res: Result<
    TstInfo,
    Error,
>)
    ensures
        may_verify(ts@, data@, *validator, result_view(res)),
{
    match check_timestamp(ts) {
        Err(e) => Err(e),
        Ok(p) => {
            let validated = validator.validate(&p.input);
            assert(may_answer(*validator, p@.input, validated));
            conclude(p.tst, validated, data)
        },
    }
}

} // verus!
