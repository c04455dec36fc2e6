//! What holds of making requests and judging answers.
use crate::der;
use crate::der_laws;
use crate::digest;
use crate::digest::DigestAlgorithm;
use crate::encode;
use crate::error::Error;
use crate::http;
use crate::item_laws;
use crate::oids;
use crate::outside;
use crate::request;
use crate::request_laws;
use crate::response;
use crate::rfc3161;
use crate::rfc3161::{PkiStatus, TimeStampReqView, TimeStampRespView, TstInfoView};
use crate::rfc5652::SignedDataView;
use crate::statement_laws;
use crate::verify_laws;
use crate::x509;
use crate::x509::ExtensionView;
use vstd::prelude::*;

verus! {

/// The octets of an extension's contents as they are written: that it is critical stands there only
/// where it is so.
pub open spec fn written_extension(e: ExtensionView) -> Seq<u8> {
    encode::tlv(0x06, e.id) + (if e.critical == Some(true) {
        encode::tlv(0x01, seq![0xffu8])
    } else {
        Seq::empty()
    }) + encode::tlv(0x04, e.value)
}

/// The octets of a request's contents as they are written: all its fields in order, NULL for missing
/// parameters of its digest algorithm, and its extensions one behind the other in the `[0]`.
pub open spec fn written_request(r: TimeStampReqView) -> Seq<u8> {
    encode::tlv(0x02, r.version) + (encode::tlv(
        0x30,
        encode::tlv(
            0x30,
            encode::tlv(0x06, r.message_imprint.hash_algorithm.algorithm) + match r.message_imprint
                .hash_algorithm.parameters {
                Some(p) => p,
                None => seq![0x05u8, 0x00],
            },
        ) + encode::tlv(0x04, r.message_imprint.hashed_message),
    ) + (der_laws::opt_tlv(0x06, r.req_policy) + (der_laws::opt_tlv(0x02, r.nonce) + (
    der_laws::opt_tlv(0x01, item_laws::boolean_octets(r.cert_req)) + der_laws::opt_tlv(
        0xa0,
        match r.extensions {
            Some(v) => Some(
                der_laws::tlvs(0x30, v.map_values(|e: ExtensionView| written_extension(e))),
            ),
            None => None,
        },
    )))))
}

/// Extensions are written one behind the other.
proof fn lemma_extensions_written(v: Seq<ExtensionView>)
    ensures
        request::extensions_encoding(v) == der_laws::tlvs(
            0x30,
            v.map_values(|e: ExtensionView| written_extension(e)),
        ),
    decreases v.len(),
{
    let f = |e: ExtensionView| written_extension(e);
    if v.len() > 0 {
        lemma_extensions_written(v.drop_last());
        der_laws::lemma_tlvs_last(
            0x30,
            v.drop_last().map_values(f),
            written_extension(v.last()),
        );
        assert(v.map_values(f) =~= v.drop_last().map_values(f).push(written_extension(v.last())));
        assert(request::extension_content_encoding(v.last()) == written_extension(v.last()));
    } else {
        assert(request::extensions_encoding(v) =~= der_laws::tlvs(0x30, v.map_values(f)));
    }
}

/// A request is written with all its fields.
pub proof fn law_request_written(r: TimeStampReqView)
    ensures
        request::request_encoding(r) == encode::tlv(0x30, written_request(r)),
        request::request_fits(r) == der_laws::is_short(written_request(r)),
{
    if let Some(v) = r.extensions {
        lemma_extensions_written(v);
    }
    assert(request::boolean_content(r.cert_req) == item_laws::boolean_octets(r.cert_req));
}

/// The request for a time stamp over `message` asks for one over its digest, and that of all of it,
/// with the nonce that was given and with the certificate of the authority.
pub proof fn law_message_request(message: Seq<u8>, algorithm: DigestAlgorithm, nonce: u64)
    ensures
        ({
            let r = request::message_request(message, algorithm, nonce);
            &&& r.version == seq![1u8]
            &&& r.message_imprint.hash_algorithm.algorithm == digest::digest_oid(algorithm)
            &&& r.message_imprint.hash_algorithm.parameters is None
            &&& r.message_imprint.hashed_message == outside::digest_of(algorithm, message)
            &&& r.nonce matches Some(n) && der::is_integer(n) && n[0] < 0x80 && der::be_value(n)
                == nonce
            &&& r.cert_req == Some(true)
            &&& r.req_policy is None
            &&& r.extensions is None
        }),
{
    der::lemma_unsigned_integer(nonce as nat);
}

/// Whoever reads the written request for a time stamp over `message` finds the digest of all of it.
pub proof fn law_message_read_back(
    message: Seq<u8>,
    algorithm: DigestAlgorithm,
    nonce: u64,
    rest: Seq<u8>,
)
    requires
        request::request_fits(request::message_request(message, algorithm, nonce)),
    ensures
        rfc3161::request(
            request::request_encoding(request::message_request(message, algorithm, nonce)) + rest,
        ) matches Some(q) && is_request_for(q, message, algorithm, nonce),
{
    let r = request::message_request(message, algorithm, nonce);
    law_message_request(message, algorithm, nonce);
    lemma_digest_oid(algorithm);
    request_laws::law_request_read_back(r, rest);
    let q = request_laws::with_parameters(r);
    assert(is_request_for(q, message, algorithm, nonce));
}

/// Whether the request `q` is one for a time stamp over `message`: over the digest of all of it under
/// `algorithm`, without parameters but NULL, with the number `nonce`, and with the certificate of
/// the authority.
pub open spec fn is_request_for(
    q: TimeStampReqView,
    message: Seq<u8>,
    algorithm: DigestAlgorithm,
    nonce: u64,
) -> bool {
    &&& q.version == seq![1u8]
    &&& q.message_imprint.hash_algorithm.algorithm == digest::digest_oid(algorithm)
    &&& q.message_imprint.hash_algorithm.parameters == Some(seq![0x05u8, 0x00])
    &&& q.message_imprint.hashed_message == outside::digest_of(algorithm, message)
    &&& q.nonce matches Some(n) && der::is_integer(n) && n[0] < 0x80 && der::be_value(n) == nonce
    &&& q.cert_req == Some(true)
    &&& q.req_policy is None
    &&& q.extensions is None
}

proof fn lemma_digest_oid(algorithm: DigestAlgorithm)
    ensures
        der::is_oid(digest::digest_oid(algorithm)),
{
}

/// Requests for time stamps over two messages ask for the same only where the messages have the same
/// digest, and with the same nonce.
pub proof fn law_messages_differ(
    message1: Seq<u8>,
    message2: Seq<u8>,
    algorithm: DigestAlgorithm,
    nonce1: u64,
    nonce2: u64,
)
    requires
        request::message_request(message1, algorithm, nonce1) == request::message_request(
            message2,
            algorithm,
            nonce2,
        ),
    ensures
        outside::digest_of(algorithm, message1) == outside::digest_of(algorithm, message2),
        nonce1 == nonce2,
{
    law_message_request(message1, algorithm, nonce1);
    law_message_request(message2, algorithm, nonce2);
}

/// A status is a success where its code is 0 or 1.
pub proof fn law_granted(status: PkiStatus)
    ensures
        response::is_granted(status) <==> statement_laws::status_code(status) <= 1,
{
}

/// The signed data of a response is that of its token. A token of another kind, or one that cannot be
/// read, is an error.
pub proof fn law_signed_data_of(r: TimeStampRespView, d: SignedDataView)
    ensures
        r.time_stamp_token is None ==> response::signed_data_of(r) == Ok::<_, Error>(
            None::<SignedDataView>,
        ),
        verify_laws::holds(r, d) ==> response::signed_data_of(r) == Ok::<_, Error>(Some(d)),
        r.time_stamp_token is Some && (forall|e: SignedDataView| !#[trigger]
            verify_laws::holds(r, e)) ==> response::signed_data_of(r) == Err::<
            Option<SignedDataView>,
            _,
        >(Error::CoseTimeStampGeneration),
{
    if let Ok(Some(e)) = response::signed_data_of(r) {
        assert(verify_laws::holds(r, e));
    }
}

/// What a response states is what the content of its signed data states, where that is of the right
/// kind. A statement that cannot be read is an error.
pub proof fn law_tst_info_of(r: TimeStampRespView, d: SignedDataView, t: TstInfoView)
    ensures
        r.time_stamp_token is None ==> response::tst_info_of(r) == Ok::<_, Error>(
            None::<TstInfoView>,
        ),
        r.time_stamp_token is Some && (forall|e: SignedDataView| !#[trigger]
            verify_laws::holds(r, e)) ==> response::tst_info_of(r) == Err::<Option<TstInfoView>, _>(
            Error::CoseTimeStampGeneration,
        ),
        verify_laws::holds(r, d) && verify_laws::states(d, t) ==> response::tst_info_of(r) == Ok::<
            _,
            Error,
        >(Some(t)),
        verify_laws::holds(r, d) && has_no_statement(d) ==> response::tst_info_of(r) == Ok::<
            _,
            Error,
        >(None::<TstInfoView>),
        verify_laws::holds(r, d) && !has_no_statement(d) && rfc3161::tst_info(
            d.content_info.content->0,
        ) is None ==> response::tst_info_of(r) == Err::<Option<TstInfoView>, _>(
            Error::CoseTimeStampGeneration,
        ),
{
    law_signed_data_of(r, d);
}

/// Whether the signed data `d` is not one over a statement at all.
pub open spec fn has_no_statement(d: SignedDataView) -> bool {
    d.content_info.content_type != oids::OID_CONTENT_TYPE_TST_INFO@ || d.content_info.content is None
}

/// An answer to a request is accepted where it is a response that refuses, one without a token, one
/// whose token states nothing, or one whose statement repeats the nonce of the request, however
/// long that is.
pub proof fn law_answer_accepted(
    nonce: Option<Seq<u8>>,
    body: Seq<u8>,
    r: TimeStampRespView,
    d: SignedDataView,
    t: TstInfoView,
)
    requires
        rfc3161::response(body) == Some(r),
        ({
            ||| statement_laws::status_code(r.status.status) > 1
            ||| r.time_stamp_token is None
            ||| verify_laws::holds(r, d) && has_no_statement(d)
            ||| verify_laws::holds(r, d) && verify_laws::states(d, t) && t.nonce == nonce
        }),
    ensures
        http::is_answer(nonce, body),
{
    law_granted(r.status.status);
    law_tst_info_of(r, d, t);
}

/// An answer that is accepted is a response, and one that grants a token refuses to be read
/// otherwise: its token states nothing, or repeats the nonce of the request.
pub proof fn law_answer_read(nonce: Option<Seq<u8>>, body: Seq<u8>)
    requires
        http::is_answer(nonce, body),
    ensures
        rfc3161::response(body) matches Some(r) && {
            ||| statement_laws::status_code(r.status.status) > 1
            ||| r.time_stamp_token is None
            ||| exists|d: SignedDataView| #[trigger]
                verify_laws::holds(r, d) && (has_no_statement(d) || exists|t: TstInfoView|
                    #[trigger] verify_laws::states(d, t) && t.nonce == nonce)
        },
{
    let r = rfc3161::response(body)->0;
    law_granted(r.status.status);
    if response::is_granted(r.status.status) && r.time_stamp_token is Some {
        let d = (response::signed_data_of(r)->Ok_0)->0;
        assert(verify_laws::holds(r, d));
        if !has_no_statement(d) {
            let t = (response::tst_info_of(r)->Ok_0)->0;
            assert(verify_laws::states(d, t));
        }
    }
}

/// The head of an answer is right where its status is 200 and its type is that of a response, and
/// nowhere else.
pub proof fn law_reply_head(status: u16, content_type: Seq<char>)
    ensures
        http::is_reply(status, content_type) <==> status == 200 && content_type
            == "application/timestamp-reply"@,
{
}

/// All headers that are given are set as they are, in order, and the type of a request behind them.
pub proof fn law_request_headers(headers: Vec<(String, String)>, k: int)
    ensures
        http::request_headers(Some(headers)).len() == headers@.len() + 1,
        0 <= k < headers@.len() ==> http::request_headers(Some(headers))[k] == (
            headers@[k].0@,
            headers@[k].1@,
        ),
        http::request_headers(Some(headers)).last() == (
            "Content-Type"@,
            "application/timestamp-query"@,
        ),
        http::request_headers(None) == seq![("Content-Type"@, "application/timestamp-query"@)],
{
    assert(http::request_headers(None) =~= seq![
        ("Content-Type"@, "application/timestamp-query"@),
    ]);
}

} // verus!
