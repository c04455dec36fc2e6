//! What holds of time stamps as a whole.
use crate::cbor;
use crate::countersign;
use crate::der;
use crate::encode;
use crate::error::Error;
use crate::http;
use crate::outside;
use crate::response;
use crate::rfc3161;
use crate::rfc3161::TstInfoView;
use crate::rfc5652;
use crate::rfc5652::{SignerIdentifierView, SignerInfoView};
use crate::signed_attributes;
use crate::validator;
use crate::validator::LocalValidator;
use crate::verify;
use crate::verify::CoseValidator;
use crate::x509;
use crate::x509::CertificateView;
use vstd::prelude::*;

verus! {

/// What was signed tells the protected header and the signature that it is over: two different
/// countersignatures never sign the same octets.
pub proof fn law_countersign_data_injective(
    header1: Seq<u8>,
    data1: Seq<u8>,
    header2: Seq<u8>,
    data2: Seq<u8>,
)
    requires
        header1.len() <= u64::MAX,
        data1.len() <= u64::MAX,
        header2.len() <= u64::MAX,
        data2.len() <= u64::MAX,
        cbor::counter_signature_structure(header1, data1) == cbor::counter_signature_structure(
            header2,
            data2,
        ),
    ensures
        header1 == header2,
        data1 == data2,
{
    let start = cbor::head(4, 4) + (cbor::head(3, 16) + cbor::counter_signature_text());
    let n = start.len() as int;
    let tail1 = cbor::byte_string(Seq::empty()) + cbor::byte_string(data1);
    let tail2 = cbor::byte_string(Seq::empty()) + cbor::byte_string(data2);
    let s = cbor::counter_signature_structure(header1, data1);
    let t = cbor::counter_signature_structure(header2, data2);
    assert(s.skip(n) =~= cbor::byte_string(header1) + tail1);
    assert(t.skip(n) =~= cbor::byte_string(header2) + tail2);
    cbor::lemma_byte_string_injective(header1, tail1, header2, tail2);
    cbor::lemma_byte_string_injective(
        Seq::empty(),
        cbor::byte_string(data1),
        Seq::empty(),
        cbor::byte_string(data2),
    );
    let none = Seq::<u8>::empty();
    assert(cbor::byte_string(data1) + none =~= cbor::byte_string(data1));
    assert(cbor::byte_string(data2) + none =~= cbor::byte_string(data2));
    cbor::lemma_byte_string_injective(data1, none, data2, none);
}

/// The names of validators tell them apart.
pub proof fn law_validator_names_differ(a: LocalValidator, b: LocalValidator)
    requires
        validator::validator_name(a) == validator::validator_name(b),
    ensures
        a == b,
{
    reveal_strlit("sha1");
    reveal_strlit("rs256");
    reveal_strlit("rs384");
    reveal_strlit("rs512");
    reveal_strlit("es256");
    reveal_strlit("es384");
    reveal_strlit("es512");
    reveal_strlit("ed25519");
    let s = validator::validator_name(a);
    let t = validator::validator_name(b);
    assert(s.len() == t.len());
    assert(s[0] == t[0] && s[2] == t[2]);
}

/// The certificate of a signature is the first one that its identifier names, and there is none
/// only where none is named.
pub proof fn law_first_certificate(certs: Seq<CertificateView>, sid: SignerIdentifierView)
    ensures
        match verify::certificate_of(certs, sid) {
            Some(c) => exists|k: int|
                0 <= k < certs.len() && c == #[trigger] certs[k] && verify::is_named_by(c, sid) && (
                forall|j: int| 0 <= j < k ==> !verify::is_named_by(#[trigger] certs[j], sid)),
            None => forall|j: int|
                0 <= j < certs.len() ==> !verify::is_named_by(#[trigger] certs[j], sid),
        },
    decreases certs.len(),
{
    if certs.len() > 0 {
        if verify::is_named_by(certs[0], sid) {
            assert(certs[0] == certs[0]);
        } else {
            let tail = certs.skip(1);
            law_first_certificate(tail, sid);
            assert forall|j: int| 0 < j < certs.len() implies tail[j - 1] == #[trigger] certs[j] by {
            }
            if let Some(c) = verify::certificate_of(tail, sid) {
                let k = choose|k: int|
                    0 <= k < tail.len() && c == #[trigger] tail[k] && verify::is_named_by(c, sid)
                        && (forall|j: int|
                        0 <= j < k ==> !verify::is_named_by(#[trigger] tail[j], sid));
                assert(certs[k + 1] == c);
            }
        }
    }
}

/// The signature that decides is the first one with a certificate, and there is none only where no
/// signature has one.
pub proof fn law_first_signer(infos: Seq<SignerInfoView>, certs: Seq<CertificateView>)
    ensures
        match verify::signer_of(infos, certs) {
            Some((info, c)) => exists|k: int|
                0 <= k < infos.len() && info == #[trigger] infos[k] && verify::certificate_of(
                    certs,
                    info.sid,
                ) == Some(c) && (forall|j: int|
                    0 <= j < k ==> verify::certificate_of(
                        certs,
                        (#[trigger] infos[j]).sid,
                    ) is None),
            None => forall|j: int|
                0 <= j < infos.len() ==> verify::certificate_of(
                    certs,
                    (#[trigger] infos[j]).sid,
                ) is None,
        },
    decreases infos.len(),
{
    if infos.len() > 0 {
        if verify::certificate_of(certs, infos[0].sid) is Some {
            assert(infos[0] == infos[0]);
        } else {
            let tail = infos.skip(1);
            law_first_signer(tail, certs);
            assert forall|j: int| 0 < j < infos.len() implies tail[j - 1] == #[trigger] infos[j] by {
            }
            if let Some((info, c)) = verify::signer_of(tail, certs) {
                let k = choose|k: int|
                    0 <= k < tail.len() && info == #[trigger] tail[k] && verify::certificate_of(
                        certs,
                        info.sid,
                    ) == Some(c) && (forall|j: int|
                        0 <= j < k ==> verify::certificate_of(
                            certs,
                            (#[trigger] tail[j]).sid,
                        ) is None);
                assert(infos[k + 1] == info);
            }
        }
    }
}

/// Whether the response `ts` holds the statement `t`, under a signature of its own, by a
/// certificate of its own that the signature names and that was valid at the time stated, and
/// `input` is what there is to check of that signature.
pub open spec fn is_stated(ts: Seq<u8>, t: TstInfoView, input: verify::SignatureInputView) -> bool {
    exists|
        r: rfc3161::TimeStampRespView,
        d: rfc5652::SignedDataView,
        certs: Seq<CertificateView>,
        i: int,
        k: int,
    |
        {
            &&& rfc3161::response(ts) == Some(r)
            &&& response::tst_info_of(r) == Ok::<_, Error>(Some(t))
            &&& #[trigger] response::signed_data_of(r) == Ok::<_, Error>(Some(d))
            &&& d.certificates == Some(certs)
            &&& 0 <= i < d.signer_infos.len()
            &&& 0 <= k < certs.len()
            &&& verify::is_named_by(#[trigger] certs[k], (#[trigger] d.signer_infos[i]).sid)
            &&& verify::is_valid_at(certs[k], t)
            &&& validator::local_validator(
                d.signer_infos[i].signature_algorithm.algorithm,
                d.signer_infos[i].digest_algorithm.algorithm,
                certs[k].parts.signature_algorithm,
            ) == Some(input.validator)
            &&& input.signature == d.signer_infos[i].signature
            &&& input.public_key == x509::key_encoding(certs[k].parts)
            &&& verify::signed_octets(d, d.signer_infos[i]) == Some(input.data)
        }
}

/// A time stamp that verifies states what comes back, by a signer whose certificate was valid at
/// that time; the validator accepted the signature; and the digest in the statement is that of the
/// data.
pub proof fn law_verified<V: CoseValidator>(
    ts: Seq<u8>,
    data: Seq<u8>,
    validator: V,
    t: TstInfoView,
)
    requires
        verify::may_verify(ts, data, validator, Ok::<_, Error>(t)),
    ensures
        exists|input: verify::SignatureInputView| #[trigger]
            is_stated(ts, t, input) && verify::may_answer(
                validator,
                input,
                Ok::<bool, Error>(true),
            ),
        verify::digest_algorithm_of(t.message_imprint.hash_algorithm.algorithm) matches Some(a)
            && outside::digest_of(a, data) == t.message_imprint.hashed_message,
{
    let p = verify::pending(ts)->Ok_0;
    let validated = choose|validated: Result<bool, Error>| #[trigger]
        verify::may_answer(validator, p.input, validated) && Ok::<_, Error>(t) == verify::concluded(
            p.tst,
            validated,
            data,
        );
    assert(validated == Ok::<bool, Error>(true));
    let r = rfc3161::response(ts)->0;
    let d = (response::signed_data_of(r)->Ok_0)->0;
    let certs = d.certificates->0;
    law_first_signer(d.signer_infos, certs);
    let (info, c) = verify::signer_of(d.signer_infos, certs)->0;
    law_first_certificate(certs, info.sid);
    let i = choose|i: int| 0 <= i < d.signer_infos.len() && info == #[trigger] d.signer_infos[i];
    let k = choose|k: int|
        0 <= k < certs.len() && c == #[trigger] certs[k] && verify::is_named_by(c, info.sid);
    assert(verify::is_named_by(certs[k], d.signer_infos[i].sid));
    assert(is_stated(ts, t, p.input));
}

/// A time stamp that holds but for its signature verifies against data with the digest that it
/// states, where the validator accepts the signature.
pub proof fn law_accepting_validator<V: CoseValidator>(
    ts: Seq<u8>,
    data: Seq<u8>,
    validator: V,
    p: verify::PendingTimeStampView,
    res: Result<TstInfoView, Error>,
)
    requires
        verify::may_verify(ts, data, validator, res),
        verify::pending(ts) == Ok::<_, Error>(p),
        forall|validated: Result<bool, Error>| #[trigger]
            verify::may_answer(validator, p.input, validated) ==> validated == Ok::<bool, Error>(
                true,
            ),
        verify::digest_algorithm_of(p.tst.message_imprint.hash_algorithm.algorithm) matches Some(a)
            && outside::digest_of(a, data) == p.tst.message_imprint.hashed_message,
    ensures
        res == Ok::<_, Error>(p.tst),
{
}

/// Where the validator accepts no signature, no time stamp verifies.
pub proof fn law_rejecting_validator<V: CoseValidator>(
    ts: Seq<u8>,
    data: Seq<u8>,
    validator: V,
    res: Result<TstInfoView, Error>,
)
    requires
        verify::may_verify(ts, data, validator, res),
        forall|input: verify::SignatureInputView|
            !#[trigger] verify::may_answer(validator, input, Ok::<bool, Error>(true)),
    ensures
        res is Err,
{
}

/// A time stamp states the same whatever data it is verified against, and verifies only against
/// data with the same digest.
pub proof fn law_one_statement<V: CoseValidator, W: CoseValidator>(
    ts: Seq<u8>,
    data1: Seq<u8>,
    validator1: V,
    t1: TstInfoView,
    data2: Seq<u8>,
    validator2: W,
    t2: TstInfoView,
)
    requires
        verify::may_verify(ts, data1, validator1, Ok::<_, Error>(t1)),
        verify::may_verify(ts, data2, validator2, Ok::<_, Error>(t2)),
    ensures
        t1 == t2,
        verify::digest_algorithm_of(t1.message_imprint.hash_algorithm.algorithm) matches Some(a)
            && outside::digest_of(a, data1) == outside::digest_of(a, data2),
{
}

/// Whether a time stamp verifies does not depend on what follows it.
pub proof fn law_trailing_octets<V: CoseValidator>(
    ts: Seq<u8>,
    extra: Seq<u8>,
    data: Seq<u8>,
    validator: V,
    res: Result<TstInfoView, Error>,
)
    requires
        rfc3161::response(ts) is Some,
    ensures
        rfc3161::response(ts + extra) == rfc3161::response(ts),
        verify::may_verify(ts + extra, data, validator, res) == verify::may_verify(
            ts,
            data,
            validator,
            res,
        ),
{
    assert(rfc3161::response(ts + extra) == rfc3161::response(ts)) by {
        reveal(rfc3161::response);
        lemma_sequence_trailing(ts, extra);
    }
}

/// A SEQUENCE is read without what follows it.
proof fn lemma_sequence_trailing(s: Seq<u8>, extra: Seq<u8>)
    ensures
        der::constructed(s, der::SEQUENCE) matches Some((c, rest)) ==> der::constructed(
            s + extra,
            der::SEQUENCE,
        ) == Some((c, rest + extra)),
{
    if let Some((c, rest)) = der::constructed(s, der::SEQUENCE) {
        encode::lemma_tlv_canonical(s, der::SEQUENCE);
        assert(s + extra =~= encode::tlv(s[0], c) + (rest + extra));
        encode::lemma_tlv_next(s[0], c, rest + extra);
    }
}

/// The statement in a granted answer to a request repeats the nonce of the request.
pub proof fn law_nonce_reflected(
    nonce: Option<Seq<u8>>,
    body: Seq<u8>,
    r: rfc3161::TimeStampRespView,
    t: TstInfoView,
)
    requires
        http::is_answer(nonce, body),
        rfc3161::response(body) == Some(r),
        response::is_granted(r.status.status),
        response::tst_info_of(r) == Ok::<_, Error>(Some(t)),
    ensures
        t.nonce == nonce,
{
}

/// Where the contents of the signed attributes are attributes to their end, what is signed are
/// these very contents in a SET.
pub proof fn law_signed_attributes(c: Seq<u8>)
    ensures
        x509::attributes(c) matches Some((v, rest)) ==> (rest.len() == 0
            ==> signed_attributes::signed_attributes_der(v) == encode::tlv(
            encode::constructed_id(der::SET),
            c,
        )),
{
    signed_attributes::lemma_attributes_canonical(c);
    if let Some((v, rest)) = x509::attributes(c) {
        if rest.len() == 0 {
            assert(c =~= signed_attributes::attributes_encoding(v));
        }
    }
}

/// A signature with the one time stamp `ts` verifies as `ts` does.
pub proof fn law_single_token<V: CoseValidator>(
    ts: Seq<u8>,
    data: Seq<u8>,
    validator: V,
    t: TstInfoView,
    e: Error,
)
    ensures
        countersign::may_verify_all(seq![ts], data, validator, Ok::<_, Error>(seq![t]))
            == verify::may_verify(ts, data, validator, Ok::<_, Error>(t)),
        countersign::may_verify_all(
            seq![ts],
            data,
            validator,
            Err::<Seq<TstInfoView>, _>(e),
        ) == verify::may_verify(ts, data, validator, Err::<TstInfoView, _>(e)),
{
    let tokens = seq![ts];
    assert(tokens[0] == ts);
    let none = Seq::<TstInfoView>::empty();
    if verify::may_verify(ts, data, validator, Ok::<_, Error>(t)) {
        assert(countersign::all_verified(tokens, data, validator, seq![t]));
    }
    if countersign::all_verified(tokens, data, validator, seq![t]) {
        assert(seq![t][0] == t);
        assert(verify::may_verify(tokens[0], data, validator, Ok::<_, Error>(seq![t][0])));
    }
    assert(countersign::all_verified(tokens.take(none.len() as int), data, validator, none));
}

/// Where there are no time stamps, nothing but that is reported.
pub proof fn law_no_tokens<V: CoseValidator>(
    data: Seq<u8>,
    validator: V,
    res: Result<Seq<TstInfoView>, Error>,
)
    ensures
        countersign::may_verify_all(Seq::empty(), data, validator, res) == (res == Err::<
            Seq<TstInfoView>,
            _,
        >(Error::NotFound)),
{
}

} // verus!
