//! What holds of verifying time stamps.
use crate::der_laws;
use crate::digest;
use crate::digest::DigestAlgorithm;
use crate::encode;
use crate::error::Error;
use crate::item_laws;
use crate::laws;
use crate::oids;
use crate::outside;
use crate::response;
use crate::rfc3161;
use crate::rfc3161::{TimeStampRespView, TstInfoView};
use crate::rfc5652;
use crate::rfc5652::{SignedDataView, SignerIdentifierView, SignerInfoView};
use crate::signed_attributes;
use crate::time::Time;
use crate::validator;
use crate::validator_laws;
use crate::verify;
use crate::verify::{CoseValidator, PendingTimeStampView, SignatureInput, SignatureInputView};
use crate::x509;
use crate::x509::{AttributeView, CertificateView};
use vstd::prelude::*;

verus! {

/// Whether the signer identifier `sid` names the certificate `c`: by the octets of its issuer and of
/// its serial number, or by the value of an extension 2.5.29.14.
pub open spec fn names(sid: SignerIdentifierView, c: CertificateView) -> bool {
    match sid {
        SignerIdentifierView::IssuerAndSerialNumber(issuer, serial_number) => issuer == c.issuer
            && serial_number == c.parts.serial_number,
        SignerIdentifierView::SubjectKeyIdentifier(id) => c.parts.extensions matches Some(v)
            && v.contains((seq![2u8, 5, 29, 14], id)),
    }
}

/// Whether the signature `i` under the certificate `k` decides on the signed data `d`: it is the
/// first signature with a certificate among `certs`, and that is the first one that it names.
pub open spec fn decides(d: SignedDataView, certs: Seq<CertificateView>, i: int, k: int) -> bool {
    &&& 0 <= i < d.signer_infos.len()
    &&& 0 <= k < certs.len()
    &&& names(d.signer_infos[i].sid, certs[k])
    &&& forall|j: int| 0 <= j < k ==> !names(d.signer_infos[i].sid, #[trigger] certs[j])
    &&& forall|h: int, j: int|
        0 <= h < i && 0 <= j < certs.len() ==> !names(
            (#[trigger] d.signer_infos[h]).sid,
            #[trigger] certs[j],
        )
}

/// Whether the response `r` holds a token with the signed data `d`.
pub open spec fn holds(r: TimeStampRespView, d: SignedDataView) -> bool {
    r.time_stamp_token matches Some(token) && token.content_type == oids::OID_ID_SIGNED_DATA@
        && rfc5652::signed_data(token.content) == Some(d)
}

/// Whether the signed data `d` states `t`.
pub open spec fn states(d: SignedDataView, t: TstInfoView) -> bool {
    &&& d.content_info.content_type == oids::OID_CONTENT_TYPE_TST_INFO@
    &&& d.content_info.content matches Some(c) && rfc3161::tst_info(c) == Some(t)
}

/// The whole seconds of a time of a certificate.
pub open spec fn seconds(t: Time) -> int {
    match t {
        Time::UtcTime(u) => u.timestamp as int,
        Time::GeneralTime(g) => g.instant.timestamp as int,
    }
}

/// Whether the time that `t` states lies in the validity of the certificate `c`, both ends included.
pub open spec fn is_in_time(t: TstInfoView, c: CertificateView) -> bool {
    seconds(c.not_before) <= t.gen_time.instant.timestamp <= seconds(c.not_after)
}

/// What the signature `info` in the signed data `d` signs: the SET of its signed attributes, one
/// behind the other, where it has signed attributes; the content of `d` where it has none.
pub open spec fn what_is_signed(d: SignedDataView, info: SignerInfoView) -> Option<Seq<u8>> {
    match info.signed_attributes {
        Some(v) => Some(
            encode::tlv(
                0x31,
                der_laws::tlvs(0x30, v.map_values(|a: AttributeView| item_laws::attribute_octets(a))),
            ),
        ),
        None => d.content_info.content,
    }
}

/// The SubjectPublicKeyInfo of the certificate `c`.
pub open spec fn key_of(c: CertificateView) -> Seq<u8> {
    encode::tlv(
        0x30,
        encode::tlv(
            0x30,
            encode::tlv(0x06, c.parts.key_algorithm) + match c.parts.key_parameters {
                Some(p) => p,
                None => seq![0x05u8, 0x00],
            },
        ) + encode::tlv(0x03, seq![c.parts.key_unused_bits] + c.parts.key_bits),
    )
}

/// Attributes are written one behind the other.
proof fn lemma_attributes_written(v: Seq<AttributeView>)
    ensures
        signed_attributes::attributes_encoding(v) == der_laws::tlvs(
            0x30,
            v.map_values(|a: AttributeView| item_laws::attribute_octets(a)),
        ),
    decreases v.len(),
{
    let f = |a: AttributeView| item_laws::attribute_octets(a);
    if v.len() > 0 {
        lemma_attributes_written(v.drop_last());
        der_laws::lemma_tlvs_last(0x30, v.drop_last().map_values(f), item_laws::attribute_octets(v.last()));
        assert(v.map_values(f) =~= v.drop_last().map_values(f).push(
            item_laws::attribute_octets(v.last()),
        ));
    } else {
        assert(signed_attributes::attributes_encoding(v) =~= der_laws::tlvs(0x30, v.map_values(f)));
    }
}

/// What is signed is written out as it should be.
pub proof fn law_signed_octets(d: SignedDataView, info: SignerInfoView)
    ensures
        info.signed_attributes is None ==> verify::signed_octets(d, info) == d.content_info.content,
        info.signed_attributes is Some ==> verify::signed_octets(d, info) is Some,
        verify::signed_octets(d, info) == what_is_signed(d, info),
{
    if let Some(v) = info.signed_attributes {
        lemma_attributes_written(v);
        assert(verify::signed_octets(d, info) == Some(
            signed_attributes::signed_attributes_der(v),
        ));
    }
}

/// Where the signed attributes were read from contents `c` to their end, however many they are, what
/// is signed are these very contents in a SET, and not the content of the signed data.
pub proof fn law_signed_contents(d: SignedDataView, info: SignerInfoView, c: Seq<u8>)
    requires
        info.signed_attributes matches Some(v) && x509::attributes(c) == Some(
            (v, Seq::<u8>::empty()),
        ),
    ensures
        verify::signed_octets(d, info) == Some(encode::tlv(0x31, c)),
        what_is_signed(d, info) == Some(encode::tlv(0x31, c)),
{
    laws::law_signed_attributes(c);
    law_signed_octets(d, info);
}

/// What a validator is handed of a time stamp whose signature has signed attributes, read from
/// contents `c` to their end, are these contents in a SET.
pub proof fn law_pending_attributes(
    r: TimeStampRespView,
    d: SignedDataView,
    certs: Seq<CertificateView>,
    i: int,
    k: int,
    c: Seq<u8>,
    p: PendingTimeStampView,
)
    requires
        d.certificates == Some(certs),
        decides(d, certs, i, k),
        verify::pending_in(r, d) == Ok::<_, Error>(p),
    ensures
        d.signer_infos[i].signed_attributes matches Some(v) && x509::attributes(c) == Some(
            (v, Seq::<u8>::empty()),
        ) ==> p.input.data == encode::tlv(0x31, c),
        d.signer_infos[i].signed_attributes is None ==> d.content_info.content == Some(
            p.input.data,
        ),
{
    law_signer_found(d, certs, i, k);
    if let Some(v) = d.signer_infos[i].signed_attributes {
        if x509::attributes(c) == Some((v, Seq::<u8>::empty())) {
            law_signed_contents(d, d.signer_infos[i], c);
        }
    }
}

/// A signer identifier names what it should.
proof fn lemma_names(c: CertificateView, sid: SignerIdentifierView)
    ensures
        verify::is_named_by(c, sid) == names(sid, c),
{
    if let SignerIdentifierView::SubjectKeyIdentifier(id) = sid {
        assert(oids::SKI_OID@ =~= seq![2u8, 5, 29, 14]);
        if let Some(v) = c.parts.extensions {
            let e = (seq![2u8, 5, 29, 14], id);
            if v.contains(e) {
                let k = choose|k: int| 0 <= k < v.len() && v[k] == e;
                assert(v[k] == (oids::SKI_OID@, id));
            }
            if verify::has_key_identifier(v, id) {
                let k = choose|k: int| 0 <= k < v.len() && #[trigger] v[k] == (oids::SKI_OID@, id);
                assert(v[k] == e);
            }
        }
    }
}

/// The signature and the certificate that decide are found, and only those.
pub proof fn law_signer_found(d: SignedDataView, certs: Seq<CertificateView>, i: int, k: int)
    ensures
        decides(d, certs, i, k) ==> verify::signer_of(d.signer_infos, certs) == Some(
            (d.signer_infos[i], certs[k]),
        ),
        verify::signer_of(d.signer_infos, certs) is Some ==> exists|h: int, j: int|
            decides(d, certs, h, j) && verify::signer_of(d.signer_infos, certs) == Some(
                (#[trigger] d.signer_infos[h], #[trigger] certs[j]),
            ),
        verify::signer_of(d.signer_infos, certs) is None <==> forall|h: int, j: int|
            0 <= h < d.signer_infos.len() && 0 <= j < certs.len() ==> !names(
                (#[trigger] d.signer_infos[h]).sid,
                #[trigger] certs[j],
            ),
{
    let infos = d.signer_infos;
    laws::law_first_signer(infos, certs);
    assert forall|j: int, sid: SignerIdentifierView| 0 <= j < certs.len() implies
        verify::is_named_by(#[trigger] certs[j], sid) == #[trigger] names(sid, certs[j]) by {
        lemma_names(certs[j], sid);
    }
    assert forall|h: int| 0 <= h < infos.len() implies match verify::certificate_of(
        certs,
        (#[trigger] infos[h]).sid,
    ) {
        Some(c) => exists|j: int|
            0 <= j < certs.len() && c == #[trigger] certs[j] && names(infos[h].sid, c) && (forall|
                m: int,
            |
                0 <= m < j ==> !names(infos[h].sid, #[trigger] certs[m])),
        None => forall|j: int| 0 <= j < certs.len() ==> !names(infos[h].sid, #[trigger] certs[j]),
    } by {
        laws::law_first_certificate(certs, infos[h].sid);
    }
    if let Some((info, c)) = verify::signer_of(infos, certs) {
        let h = choose|h: int|
            0 <= h < infos.len() && info == #[trigger] infos[h] && verify::certificate_of(
                certs,
                info.sid,
            ) == Some(c) && (forall|m: int|
                0 <= m < h ==> verify::certificate_of(certs, (#[trigger] infos[m]).sid) is None);
        let j = choose|j: int|
            0 <= j < certs.len() && c == #[trigger] certs[j] && names(infos[h].sid, c) && (forall|
                m: int,
            |
                0 <= m < j ==> !names(infos[h].sid, #[trigger] certs[m]));
        assert(decides(d, certs, h, j));
        if decides(d, certs, i, k) {
            if i < h {
                assert(verify::certificate_of(certs, infos[i].sid) is None);
                assert(!names(infos[i].sid, certs[k]));
            }
            if h < i {
                assert(!names(infos[h].sid, certs[j]));
            }
            assert(i == h);
            if k < j {
                assert(!names(infos[i].sid, certs[k]));
            }
            if j < k {
                assert(!names(infos[i].sid, certs[j]));
            }
            assert(j == k);
        }
    } else {
        if decides(d, certs, i, k) {
            assert(verify::certificate_of(certs, infos[i].sid) is None);
            assert(!names(infos[i].sid, certs[k]));
        }
    }
}

/// Whether the signature `i` under the certificate `k` of `certs` decides on the time stamp `ts`, a
/// response `r` with the signed data `d`.
pub open spec fn is_decided(
    ts: Seq<u8>,
    r: TimeStampRespView,
    d: SignedDataView,
    certs: Seq<CertificateView>,
    i: int,
    k: int,
) -> bool {
    &&& rfc3161::response(ts) == Some(r)
    &&& holds(r, d)
    &&& d.certificates == Some(certs)
    &&& decides(d, certs, i, k)
}

/// The validator for the signature `info` under the certificate `c`.
pub open spec fn validator_for(info: SignerInfoView, c: CertificateView) -> Option<
    validator::LocalValidator,
> {
    validator::local_validator(
        info.signature_algorithm.algorithm,
        info.digest_algorithm.algorithm,
        c.parts.signature_algorithm,
    )
}

/// What becomes of a time stamp once a signature and a certificate decide. It is ready for its
/// validator where it states something, at a time at which the certificate was valid, and there is
/// a validator; the validator is handed the signature, what it signs and the key of the
/// certificate. Otherwise it is refused, each time with its own error.
pub proof fn law_decided(
    ts: Seq<u8>,
    r: TimeStampRespView,
    d: SignedDataView,
    certs: Seq<CertificateView>,
    i: int,
    k: int,
    t: TstInfoView,
)
    requires
        is_decided(ts, r, d, certs, i, k),
    ensures
        states(d, t) && is_in_time(t, certs[k]) ==> match validator_for(
            d.signer_infos[i],
            certs[k],
        ) {
            Some(v) => verify::pending(ts) == Ok::<_, Error>(
                PendingTimeStampView {
                    input: SignatureInputView {
                        validator: v,
                        signature: d.signer_infos[i].signature,
                        data: what_is_signed(d, d.signer_infos[i])->0,
                        public_key: key_of(certs[k]),
                    },
                    tst: t,
                },
            ) && what_is_signed(d, d.signer_infos[i]) is Some,
            None => verify::pending(ts) == Err::<PendingTimeStampView, _>(
                Error::CoseTimeStampAuthority,
            ),
        },
        states(d, t) && !is_in_time(t, certs[k]) ==> verify::pending(ts) == Err::<
            PendingTimeStampView,
            _,
        >(Error::CoseTimeStampValidity),
        d.content_info.content_type != oids::OID_CONTENT_TYPE_TST_INFO@
            || d.content_info.content is None ==> verify::pending(ts) == Err::<
            PendingTimeStampView,
            _,
        >(Error::CoseInvalidTimeStamp),
        d.content_info.content_type == oids::OID_CONTENT_TYPE_TST_INFO@ && (
        d.content_info.content matches Some(c) && rfc3161::tst_info(c) is None)
            ==> verify::pending(ts) == Err::<PendingTimeStampView, _>(
            Error::CoseTimeStampGeneration,
        ),
{
    law_signer_found(d, certs, i, k);
    law_signed_octets(d, d.signer_infos[i]);
}

/// What becomes of the time stamp in a response `r` with given signed data `d`.
pub proof fn law_signed_data_checked(
    r: TimeStampRespView,
    d: SignedDataView,
    certs: Seq<CertificateView>,
    i: int,
    k: int,
    t: TstInfoView,
    e: Error,
)
    ensures
        d.certificates is None ==> verify::pending_in(r, d) == Err::<PendingTimeStampView, _>(
            Error::CoseTimeStampValidity,
        ),
        d.certificates == Some(certs) && (forall|h: int, j: int|
            0 <= h < d.signer_infos.len() && 0 <= j < certs.len() ==> !names(
                (#[trigger] d.signer_infos[h]).sid,
                #[trigger] certs[j],
            )) ==> verify::pending_in(r, d) == Err::<PendingTimeStampView, _>(
            Error::CoseInvalidTimeStamp,
        ),
        d.certificates == Some(certs) && decides(d, certs, i, k) && response::tst_info_of(r)
            == Err::<Option<TstInfoView>, _>(e) ==> verify::pending_in(r, d) == Err::<
            PendingTimeStampView,
            _,
        >(e),
        d.certificates == Some(certs) && decides(d, certs, i, k) && response::tst_info_of(r) == Ok::<
            _,
            Error,
        >(None::<TstInfoView>) ==> verify::pending_in(r, d) == Err::<PendingTimeStampView, _>(
            Error::CoseInvalidTimeStamp,
        ),
        d.certificates == Some(certs) && decides(d, certs, i, k) && response::tst_info_of(r) == Ok::<
            _,
            Error,
        >(Some(t)) ==> verify::pending_in(r, d) == if !is_in_time(t, certs[k]) || what_is_signed(
            d,
            d.signer_infos[i],
        ) is None {
            Err::<PendingTimeStampView, _>(Error::CoseTimeStampValidity)
        } else if validator_for(d.signer_infos[i], certs[k]) is None {
            Err(Error::CoseTimeStampAuthority)
        } else {
            Ok(
                PendingTimeStampView {
                    input: SignatureInputView {
                        validator: validator_for(d.signer_infos[i], certs[k])->0,
                        signature: d.signer_infos[i].signature,
                        data: what_is_signed(d, d.signer_infos[i])->0,
                        public_key: key_of(certs[k]),
                    },
                    tst: t,
                },
            )
        },
{
    law_signer_found(d, certs, i, k);
    law_signed_octets(d, d.signer_infos[i]);
}

/// A statement comes back where its digest is the one given, and nowhere else.
pub proof fn law_imprint_matched(tst: TstInfoView, digest: Seq<u8>)
    ensures
        verify::imprint_matched(tst, digest) == Ok::<_, Error>(tst) <==> digest
            == tst.message_imprint.hashed_message,
        verify::imprint_matched(tst, digest) is Err ==> verify::imprint_matched(tst, digest)
            == Err::<TstInfoView, _>(Error::CoseTimeStampMismatch),
{
}

/// What becomes of a time stamp without a signature and a certificate that decide.
pub proof fn law_undecided(
    ts: Seq<u8>,
    r: TimeStampRespView,
    d: SignedDataView,
    certs: Seq<CertificateView>,
)
    ensures
        rfc3161::response(ts) is None ==> verify::pending(ts) == Err::<PendingTimeStampView, _>(
            Error::CoseInvalidTimeStamp,
        ),
        rfc3161::response(ts) == Some(r) && (forall|e: SignedDataView| !#[trigger] holds(r, e))
            ==> verify::pending(ts) == Err::<PendingTimeStampView, _>(Error::CoseInvalidTimeStamp),
        rfc3161::response(ts) == Some(r) && holds(r, d) && d.certificates is None
            ==> verify::pending(ts) == Err::<PendingTimeStampView, _>(Error::CoseTimeStampValidity),
        rfc3161::response(ts) == Some(r) && holds(r, d) && d.certificates == Some(certs) && (forall|
            h: int,
            j: int,
        |
            0 <= h < d.signer_infos.len() && 0 <= j < certs.len() ==> !names(
                (#[trigger] d.signer_infos[h]).sid,
                #[trigger] certs[j],
            )) ==> verify::pending(ts) == Err::<PendingTimeStampView, _>(
            Error::CoseInvalidTimeStamp,
        ),
{
    law_signer_found(d, certs, 0, 0);
    if rfc3161::response(ts) == Some(r) && (forall|e: SignedDataView| !#[trigger] holds(r, e)) {
        if let Ok(Some(e)) = response::signed_data_of(r) {
            assert(holds(r, e));
        }
    }
}

/// Whether the response `ts` holds the statement `t`, under a signature and a certificate of its own
/// that decide, and `input` is what there is to check of that signature: with the validator for its
/// algorithms, over all that it signs, under the key of the certificate, which was valid at the time
/// stated.
pub open spec fn is_ready(ts: Seq<u8>, t: TstInfoView, input: SignatureInputView) -> bool {
    exists|
        r: TimeStampRespView,
        d: SignedDataView,
        certs: Seq<CertificateView>,
        i: int,
        k: int,
    |
        {
            &&& #[trigger] is_decided(ts, r, d, certs, i, k)
            &&& states(d, t)
            &&& is_in_time(t, certs[k])
            &&& validator_for(d.signer_infos[i], certs[k]) == Some(input.validator)
            &&& input.signature == d.signer_infos[i].signature
            &&& what_is_signed(d, d.signer_infos[i]) == Some(input.data)
            &&& input.public_key == key_of(certs[k])
        }
}

/// A time stamp that is ready for its validator states what comes with it.
pub proof fn law_pending(ts: Seq<u8>)
    ensures
        verify::pending(ts) matches Ok(p) ==> is_ready(ts, p.tst, p.input),
{
    if let Ok(p) = verify::pending(ts) {
        let r = rfc3161::response(ts)->0;
        let d = (response::signed_data_of(r)->Ok_0)->0;
        let certs = d.certificates->0;
        law_signer_found(d, certs, 0, 0);
        let (i, k) = choose|h: int, j: int|
            decides(d, certs, h, j) && verify::signer_of(d.signer_infos, certs) == Some(
                (#[trigger] d.signer_infos[h], #[trigger] certs[j]),
            );
        law_signed_octets(d, d.signer_infos[i]);
        assert(is_decided(ts, r, d, certs, i, k));
    }
}

/// What becomes of a statement whose signature was checked: it comes back unchanged where the
/// signature holds and its digest, under one of the four algorithms, is that of all the data.
/// Otherwise it is refused, each time with its own error.
pub proof fn law_concluded(
    tst: TstInfoView,
    validated: Result<bool, Error>,
    data: Seq<u8>,
    a: DigestAlgorithm,
)
    ensures
        validated matches Err(e) ==> verify::concluded(tst, validated, data) == Err::<
            TstInfoView,
            _,
        >(e),
        validated == Ok::<bool, Error>(false) ==> verify::concluded(tst, validated, data) == Err::<
            TstInfoView,
            _,
        >(Error::CoseTimeStampAuthority),
        validated == Ok::<bool, Error>(true) && (forall|b: DigestAlgorithm|
            tst.message_imprint.hash_algorithm.algorithm != #[trigger] digest::digest_oid(b))
            ==> verify::concluded(tst, validated, data) == Err::<TstInfoView, _>(
            Error::UnsupportedType,
        ),
        validated == Ok::<bool, Error>(true) && tst.message_imprint.hash_algorithm.algorithm
            == digest::digest_oid(a) ==> verify::concluded(tst, validated, data) == if tst
            .message_imprint.hashed_message == outside::digest_of(a, data) {
            Ok::<TstInfoView, Error>(tst)
        } else {
            Err(Error::CoseTimeStampMismatch)
        },
{
    let id = tst.message_imprint.hash_algorithm.algorithm;
    assert(digest::digest_oid(DigestAlgorithm::Sha1) == oids::SHA1_OID@);
    assert(digest::digest_oid(DigestAlgorithm::Sha256) == oids::SHA256_OID@);
    assert(digest::digest_oid(DigestAlgorithm::Sha384) == oids::SHA384_OID@);
    assert(digest::digest_oid(DigestAlgorithm::Sha512) == oids::SHA512_OID@);
    if id == digest::digest_oid(a) {
        if let Some(b) = verify::digest_algorithm_of(id) {
            validator_laws::law_digest_oids_differ(a, b);
        }
    }
}

/// A time stamp that verifies states what comes back, under a signature and a certificate that
/// decide; the validator accepted the signature over what it signs; and the digest in the statement
/// is that of all the data.
pub proof fn law_verified_statement<V: CoseValidator>(
    ts: Seq<u8>,
    data: Seq<u8>,
    validator: V,
    t: TstInfoView,
)
    requires
        verify::may_verify(ts, data, validator, Ok::<_, Error>(t)),
    ensures
        exists|input: SignatureInputView| #[trigger]
            is_ready(ts, t, input) && verify::may_answer(
                validator,
                input,
                Ok::<bool, Error>(true),
            ),
        exists|a: DigestAlgorithm|
            t.message_imprint.hash_algorithm.algorithm == #[trigger] digest::digest_oid(a)
                && t.message_imprint.hashed_message == outside::digest_of(a, data),
{
    let p = verify::pending(ts)->Ok_0;
    let validated = choose|validated: Result<bool, Error>| #[trigger]
        verify::may_answer(validator, p.input, validated) && Ok::<_, Error>(t) == verify::concluded(
            p.tst,
            validated,
            data,
        );
    let id = p.tst.message_imprint.hash_algorithm.algorithm;
    if exists|b: DigestAlgorithm| id == #[trigger] digest::digest_oid(b) {
        let b = choose|b: DigestAlgorithm| id == #[trigger] digest::digest_oid(b);
        law_concluded(p.tst, validated, data, b);
    } else {
        law_concluded(p.tst, validated, data, DigestAlgorithm::Sha1);
    }
    assert(validated == Ok::<bool, Error>(true));
    law_pending(ts);
    assert(is_ready(ts, p.tst, p.input));
}

/// A time stamp that is refused is refused before its signature is checked, or because of what the
/// validator answers, or because its digest is not known or not that of the data.
pub proof fn law_refused<V: CoseValidator>(ts: Seq<u8>, data: Seq<u8>, validator: V, e: Error)
    requires
        verify::may_verify(ts, data, validator, Err::<TstInfoView, _>(e)),
    ensures
        match verify::pending(ts) {
            Err(f) => e == f,
            Ok(p) => {
                ||| verify::may_answer(validator, p.input, Err::<bool, Error>(e))
                ||| verify::may_answer(validator, p.input, Ok::<bool, Error>(false)) && e
                    == Error::CoseTimeStampAuthority
                ||| verify::may_answer(validator, p.input, Ok::<bool, Error>(true)) && e
                    == Error::UnsupportedType && (forall|b: DigestAlgorithm|
                    p.tst.message_imprint.hash_algorithm.algorithm != #[trigger] digest::digest_oid(
                        b,
                    ))
                ||| verify::may_answer(validator, p.input, Ok::<bool, Error>(true)) && e
                    == Error::CoseTimeStampMismatch && (exists|b: DigestAlgorithm|
                    p.tst.message_imprint.hash_algorithm.algorithm == #[trigger] digest::digest_oid(
                        b,
                    ) && p.tst.message_imprint.hashed_message != outside::digest_of(b, data))
            },
        },
{
    if let Ok(p) = verify::pending(ts) {
        let validated = choose|validated: Result<bool, Error>| #[trigger]
            verify::may_answer(validator, p.input, validated) && Err::<TstInfoView, _>(e)
                == verify::concluded(p.tst, validated, data);
        let id = p.tst.message_imprint.hash_algorithm.algorithm;
        if exists|b: DigestAlgorithm| id == #[trigger] digest::digest_oid(b) {
            let b = choose|b: DigestAlgorithm| id == #[trigger] digest::digest_oid(b);
            law_concluded(p.tst, validated, data, b);
        } else {
            law_concluded(p.tst, validated, data, DigestAlgorithm::Sha1);
        }
    }
}

/// A validator answers about what it is asked.
pub proof fn law_answer<V: CoseValidator>(
    validator: V,
    input: SignatureInput,
    validated: Result<bool, Error>,
)
    ensures
        call_ensures(V::validate, (&validator, &input), validated) ==> verify::may_answer(
            validator,
            input@,
            validated,
        ),
        verify::may_answer(validator, input@, validated) ==> exists|i: SignatureInput|
            #[trigger] call_ensures(V::validate, (&validator, &i), validated) && i.validator
                == input.validator && i.signature@ == input.signature@ && i.data@ == input.data@
                && i.public_key@ == input.public_key@,
{
    if verify::may_answer(validator, input@, validated) {
        let i = choose|i: SignatureInput|
            i@ == input@ && #[trigger] call_ensures(V::validate, (&validator, &i), validated);
        assert(i@.signature == input@.signature);
        assert(i@.data == input@.data);
        assert(i@.public_key == input@.public_key);
    }
}

} // verus!
