//! What the views of values hold: every field, with all its octets.
use crate::countersign;
use crate::der;
use crate::error::Error;
use crate::http;
use crate::rfc3161::{MessageImprint, TimeStampReq, TimeStampResp, TstInfo, TstInfoView};
use crate::rfc5652::{SignedData, SignerIdentifier, SignerIdentifierView, SignerInfo};
use crate::verify;
use crate::verify::PendingTimeStamp;
use crate::x509::{Attribute, AttributeView, Certificate, Extension, ExtensionView};
use vstd::prelude::*;

verus! {

/// Whether `o` holds the octets `v`, or nothing where there are none.
pub open spec fn is_opt(o: Option<Seq<u8>>, v: Option<Vec<u8>>) -> bool {
    match (o, v) {
        (Some(o), Some(v)) => o == v@,
        (None, None) => true,
        _ => false,
    }
}

/// Whether `o` holds the extensions `v`, each in its place.
pub open spec fn are_opt_extensions(
    o: Option<Seq<ExtensionView>>,
    v: Option<Vec<Extension>>,
) -> bool {
    match (o, v) {
        (Some(o), Some(v)) => o.len() == v@.len() && forall|k: int|
            0 <= k < o.len() ==> (#[trigger] o[k]).id == v@[k].id@ && o[k].critical
                == v@[k].critical && o[k].value == v@[k].value@,
        (None, None) => true,
        _ => false,
    }
}

/// Whether `o` holds the attributes `v`, each in its place.
pub open spec fn are_opt_attributes(
    o: Option<Seq<AttributeView>>,
    v: Option<Vec<Attribute>>,
) -> bool {
    match (o, v) {
        (Some(o), Some(v)) => o.len() == v@.len() && forall|k: int|
            0 <= k < o.len() ==> (#[trigger] o[k]).typ == v@[k].typ@ && o[k].values
                == v@[k].values@,
        (None, None) => true,
        _ => false,
    }
}

/// The view of a message imprint holds all of it.
pub proof fn law_imprint_view(m: MessageImprint)
    ensures
        m@.hash_algorithm.algorithm == m.hash_algorithm.algorithm@,
        is_opt(m@.hash_algorithm.parameters, m.hash_algorithm.parameters),
        m@.hashed_message == m.hashed_message@,
{
}

/// The view of a statement holds all of it.
pub proof fn law_statement_view(t: TstInfo)
    ensures
        t@.version == t.version@,
        t@.policy == t.policy@,
        t@.message_imprint == t.message_imprint@,
        t@.serial_number == t.serial_number@,
        t@.gen_time == t.gen_time,
        t@.accuracy is Some <==> t.accuracy is Some,
        t.accuracy matches Some(a) ==> is_opt((t@.accuracy->0).seconds, a.seconds) && is_opt(
            (t@.accuracy->0).millis,
            a.millis,
        ) && is_opt((t@.accuracy->0).micros, a.micros),
        t@.ordering == t.ordering,
        is_opt(t@.nonce, t.nonce),
        is_opt(t@.tsa, t.tsa),
        are_opt_extensions(t@.extensions, t.extensions),
{
}

/// The view of a request holds all of it.
pub proof fn law_request_view(r: TimeStampReq)
    ensures
        r@.version == r.version@,
        r@.message_imprint == r.message_imprint@,
        is_opt(r@.req_policy, r.req_policy),
        is_opt(r@.nonce, r.nonce),
        r@.cert_req == r.cert_req,
        are_opt_extensions(r@.extensions, r.extensions),
{
}

/// The view of a response holds all of it.
pub proof fn law_response_view(r: TimeStampResp)
    ensures
        r@.status.status == r.status.status,
        r@.status.fail_info == r.status.fail_info,
        r@.status.status_string is Some <==> r.status.status_string is Some,
        r.status.status_string matches Some(v) ==> (r@.status.status_string->0).len() == v@.len()
            && forall|k: int|
            0 <= k < v@.len() ==> #[trigger] (r@.status.status_string->0)[k] == v@[k]@,
        r@.time_stamp_token is Some <==> r.time_stamp_token is Some,
        r.time_stamp_token matches Some(i) ==> (r@.time_stamp_token->0).content_type
            == i.content_type@ && (r@.time_stamp_token->0).content == i.content@,
{
}

/// The view of a signature holds all of it.
pub proof fn law_signer_view(i: SignerInfo)
    ensures
        i@.version == i.version,
        match (i.sid, i@.sid) {
            (
                SignerIdentifier::IssuerAndSerialNumber(a, b),
                SignerIdentifierView::IssuerAndSerialNumber(c, d),
            ) => c == a@ && d == b@,
            (
                SignerIdentifier::SubjectKeyIdentifier(a),
                SignerIdentifierView::SubjectKeyIdentifier(b),
            ) => b == a@,
            _ => false,
        },
        i@.digest_algorithm.algorithm == i.digest_algorithm.algorithm@,
        is_opt(i@.digest_algorithm.parameters, i.digest_algorithm.parameters),
        are_opt_attributes(i@.signed_attributes, i.signed_attributes),
        i@.signature_algorithm.algorithm == i.signature_algorithm.algorithm@,
        is_opt(i@.signature_algorithm.parameters, i.signature_algorithm.parameters),
        i@.signature == i.signature@,
        are_opt_attributes(i@.unsigned_attributes, i.unsigned_attributes),
{
}

/// The view of a certificate holds all of it.
pub proof fn law_certificate_view(c: Certificate)
    ensures
        c@.issuer == c.issuer@,
        c@.parts.serial_number == c.parts.serial_number@,
        c@.parts.signature_algorithm == c.parts.signature_algorithm@,
        c@.parts.key_algorithm == c.parts.key_algorithm@,
        is_opt(c@.parts.key_parameters, c.parts.key_parameters),
        c@.parts.key_unused_bits == c.parts.key_unused_bits,
        c@.parts.key_bits == c.parts.key_bits@,
        c@.parts.extensions is Some <==> c.parts.extensions is Some,
        c.parts.extensions matches Some(v) ==> (c@.parts.extensions->0).len() == v@.len()
            && forall|k: int|
            0 <= k < v@.len() ==> #[trigger] (c@.parts.extensions->0)[k] == (v@[k].0@, v@[k].1@),
        c@.not_before == c.not_before,
        c@.not_after == c.not_after,
{
}

/// The view of signed data holds all of it.
pub proof fn law_signed_data_view(d: SignedData)
    ensures
        d@.version == d.version,
        d@.digest_algorithms.len() == d.digest_algorithms@.len(),
        forall|k: int|
            0 <= k < d.digest_algorithms@.len() ==> #[trigger] d@.digest_algorithms[k]
                == d.digest_algorithms@[k]@,
        d@.content_info.content_type == d.content_info.content_type@,
        is_opt(d@.content_info.content, d.content_info.content),
        d@.certificates is Some <==> d.certificates is Some,
        d.certificates matches Some(v) ==> (d@.certificates->0).len() == v@.len() && forall|k: int|
            0 <= k < v@.len() ==> #[trigger] (d@.certificates->0)[k] == v@[k]@,
        d@.signer_infos.len() == d.signer_infos@.len(),
        forall|k: int|
            0 <= k < d.signer_infos@.len() ==> #[trigger] d@.signer_infos[k] == d.signer_infos@[k]@,
{
}

/// The view of what a validator is asked holds all of it.
pub proof fn law_input_view(p: PendingTimeStamp)
    ensures
        p@.input.validator == p.input.validator,
        p@.input.signature == p.input.signature@,
        p@.input.data == p.input.data@,
        p@.input.public_key == p.input.public_key@,
        p@.tst == p.tst@,
{
}

/// The view of a result holds the statement, or the error.
pub proof fn law_result_view(res: Result<TstInfo, Error>)
    ensures
        res matches Ok(t) ==> verify::result_view(res) == Ok::<_, Error>(t@),
        res matches Err(e) ==> verify::result_view(res) == Err::<TstInfoView, _>(e),
{
}

/// The view of a result holds all statements in order, or the error.
pub proof fn law_results_view(res: Result<Vec<TstInfo>, Error>)
    ensures
        res matches Ok(v) ==> (countersign::results_view(res) matches Ok(w) && w.len() == v@.len()
            && forall|k: int| 0 <= k < v@.len() ==> #[trigger] w[k] == v@[k]@),
        res matches Err(e) ==> countersign::results_view(res) == Err::<Seq<TstInfoView>, _>(e),
{
}

/// The view of what is read holds the contents and what follows them, with all their octets.
pub proof fn law_read_view(c: &[u8], rest: &[u8])
    ensures
        der::read_view(Some((c, rest))) == Some((c@, rest@)),
        der::read_view(None) is None,
        der::opt_read_view(Some((Some(c), rest))) == Some((Some(c@), rest@)),
        der::opt_read_view(Some((None, rest))) == Some((None::<Seq<u8>>, rest@)),
        der::opt_read_view(None) is None,
{
}

/// The view of octets that may be missing holds all of them.
pub proof fn law_opt_view(o: Option<Vec<u8>>)
    ensures
        is_opt(der::opt_view(o), o),
{
}

/// The view of headers holds all of them in order.
pub proof fn law_headers_view(v: Seq<(String, String)>, k: int)
    ensures
        http::headers_view(v).len() == v.len(),
        0 <= k < v.len() ==> http::headers_view(v)[k] == (v[k].0@, v[k].1@),
{
}

} // verus!
