//! What holds of requests as they are written and read.
use crate::der;
use crate::encode;
use crate::request;
use crate::rfc3161;
use crate::rfc3161::{MessageImprintView, TimeStampReqView};
use crate::x509;
use crate::x509::{AlgorithmIdentifierView, ExtensionView};
use vstd::prelude::*;

verus! {

/// Whether `a` holds an object identifier and parameters.
pub open spec fn is_algorithm(a: AlgorithmIdentifierView) -> bool {
    &&& der::is_oid(a.algorithm)
    &&& a.parameters matches Some(p) ==> p.len() > 0 && der::all_values(p)
}

/// Whether the numbers and object identifiers of the request `r` are such.
pub open spec fn is_request(r: TimeStampReqView) -> bool {
    &&& der::is_integer(r.version)
    &&& is_algorithm(r.message_imprint.hash_algorithm)
    &&& r.req_policy matches Some(p) ==> der::is_oid(p)
    &&& r.nonce matches Some(n) ==> der::is_integer(n)
}

/// The algorithm `a` with the parameters that are written for it.
pub open spec fn algorithm_with_parameters(a: AlgorithmIdentifierView) -> AlgorithmIdentifierView {
    AlgorithmIdentifierView {
        algorithm: a.algorithm,
        parameters: Some(x509::parameters_encoding(a.parameters)),
    }
}

/// The request `r` with the parameters that are written for its digest algorithm.
pub open spec fn with_parameters(r: TimeStampReqView) -> TimeStampReqView {
    TimeStampReqView {
        message_imprint: MessageImprintView {
            hash_algorithm: algorithm_with_parameters(r.message_imprint.hash_algorithm),
            hashed_message: r.message_imprint.hashed_message,
        },
        ..r
    }
}

/// NULL is a value.
proof fn lemma_null_is_value()
    ensures
        der::all_values(seq![0x05u8, 0x00]),
{
    let s = seq![0x05u8, 0x00];
    reveal_with_fuel(der::all_values, 2);
    assert(s.skip(1)[0] == 0);
    assert(der::length_field(s.skip(1)) == Some((Some(0nat), 1nat)));
    assert(der::header(s) == Some((der::HeaderView { id: 5, length: Some(0nat), size: 2 })));
    assert(der::value_len(s) == Some(2nat));
    assert(s.skip(2).len() == 0);
}

/// A primitive value is read back.
proof fn lemma_primitive_read_back(tag: u8, content: Seq<u8>, rest: Seq<u8>)
    requires
        content.len() <= 0xffff_ffff,
        tag < 0x1f,
    ensures
        der::primitive(encode::tlv(tag, content) + rest, tag) == Some((content, rest)),
        der::opt_primitive(encode::tlv(tag, content) + rest, tag) == Some((Some(content), rest)),
{
    encode::lemma_tlv_next(tag, content, rest);
}

/// A SEQUENCE is read back.
proof fn lemma_sequence_read_back(content: Seq<u8>, rest: Seq<u8>)
    requires
        content.len() <= 0xffff_ffff,
    ensures
        der::constructed(
            encode::tlv(encode::constructed_id(der::SEQUENCE), content) + rest,
            der::SEQUENCE,
        ) == Some((content, rest)),
{
    encode::lemma_tlv_next(encode::constructed_id(der::SEQUENCE), content, rest);
}

/// An algorithm identifier is read back with the parameters that were written.
proof fn lemma_algorithm_read_back(a: AlgorithmIdentifierView, rest: Seq<u8>)
    requires
        is_algorithm(a),
        x509::algorithm_content_encoding(a).len() <= 0xffff_ffff,
    ensures
        x509::algorithm(
            encode::tlv(
                encode::constructed_id(der::SEQUENCE),
                x509::algorithm_content_encoding(a),
            ) + rest,
        ) == Some((algorithm_with_parameters(a), rest)),
{
    let parameters = x509::parameters_encoding(a.parameters);
    lemma_sequence_read_back(x509::algorithm_content_encoding(a), rest);
    lemma_primitive_read_back(der::OBJECT_IDENTIFIER, a.algorithm, parameters);
    lemma_null_is_value();
}

/// A message imprint is read back with the parameters that were written.
proof fn lemma_imprint_read_back(m: MessageImprintView, rest: Seq<u8>)
    requires
        is_algorithm(m.hash_algorithm),
        request::imprint_content_encoding(m).len() <= 0xffff_ffff,
    ensures
        rfc3161::message_imprint(request::imprint_encoding(m) + rest) == Some(
            (
                MessageImprintView {
                    hash_algorithm: algorithm_with_parameters(m.hash_algorithm),
                    hashed_message: m.hashed_message,
                },
                rest,
            ),
        ),
{
    let hashed = encode::tlv(der::OCTET_STRING, m.hashed_message);
    lemma_sequence_read_back(request::imprint_content_encoding(m), rest);
    lemma_algorithm_read_back(m.hash_algorithm, hashed);
    lemma_primitive_read_back(der::OCTET_STRING, m.hashed_message, Seq::empty());
    assert(hashed + Seq::<u8>::empty() =~= hashed);
}

/// An optional primitive value is read back, where another one or nothing follows it.
proof fn lemma_opt_read_back(tag: u8, content: Option<Seq<u8>>, rest: Seq<u8>)
    requires
        content matches Some(c) ==> c.len() <= 0xffff_ffff,
        tag < 0x1f,
        rest.len() == 0 || (rest[0] < 0x1f && rest[0] != tag),
    ensures
        der::opt_primitive(request::opt_tlv(tag, content) + rest, tag) == Some((content, rest)),
{
    match content {
        Some(c) => {
            lemma_primitive_read_back(tag, c, rest);
        },
        None => {
            assert(Seq::<u8>::empty() + rest =~= rest);
        },
    }
}

/// The optional parts of a request are read back.
proof fn lemma_options_read_back(
    policy: Option<Seq<u8>>,
    nonce: Option<Seq<u8>>,
    cert_req: Option<bool>,
)
    requires
        policy matches Some(p) ==> der::is_oid(p) && p.len() <= 0xffff_ffff,
        nonce matches Some(n) ==> der::is_integer(n) && n.len() <= 0xffff_ffff,
    ensures
        ({
            let none = request::opt_tlv(encode::constructed_id(der::CTX_0), None);
            let c4 = request::opt_tlv(der::BOOLEAN, request::boolean_content(cert_req)) + none;
            let c3 = request::opt_tlv(der::INTEGER, nonce) + c4;
            let c2 = request::opt_tlv(der::OBJECT_IDENTIFIER, policy) + c3;
            &&& der::opt_oid(c2) == Some((policy, c3))
            &&& der::opt_integer(c3) == Some((nonce, c4))
            &&& der::opt_boolean(c4) == Some((cert_req, none))
            &&& none.len() == 0
        }),
{
    let none = request::opt_tlv(encode::constructed_id(der::CTX_0), None);
    let b = request::boolean_content(cert_req);
    let c4 = request::opt_tlv(der::BOOLEAN, b) + none;
    let c3 = request::opt_tlv(der::INTEGER, nonce) + c4;
    assert(c4.len() == 0 || c4[0] == der::BOOLEAN);
    assert(c3.len() == 0 || c3[0] == der::BOOLEAN || c3[0] == der::INTEGER) by {
        if nonce is None {
            assert(c3 =~= c4);
        }
    }
    lemma_opt_read_back(der::OBJECT_IDENTIFIER, policy, c3);
    lemma_opt_read_back(der::INTEGER, nonce, c4);
    lemma_opt_read_back(der::BOOLEAN, b, none);
}

/// A request without extensions is read back as it was written, whatever follows it. Where its
/// digest algorithm has no parameters, NULL is read.
pub proof fn law_request_read_back(r: TimeStampReqView, rest: Seq<u8>)
    requires
        is_request(r),
        r.extensions is None,
        request::request_fits(r),
    ensures
        rfc3161::request(request::request_encoding(r) + rest) == Some(with_parameters(r)),
{
    reveal(rfc3161::request);
    let content = request::request_content_encoding(r);
    let none = request::opt_tlv(encode::constructed_id(der::CTX_0), None);
    let c4 = request::opt_tlv(der::BOOLEAN, request::boolean_content(r.cert_req)) + none;
    let c3 = request::opt_tlv(der::INTEGER, r.nonce) + c4;
    let c2 = request::opt_tlv(der::OBJECT_IDENTIFIER, r.req_policy) + c3;
    let c1 = request::imprint_encoding(r.message_imprint) + c2;
    assert(content == encode::tlv(der::INTEGER, r.version) + c1);
    lemma_sequence_read_back(content, rest);
    lemma_primitive_read_back(der::INTEGER, r.version, c1);
    lemma_imprint_read_back(r.message_imprint, c2);
    lemma_options_read_back(r.req_policy, r.nonce, r.cert_req);
}

/// A request is written in the same way with and without the parameters that are written for it.
pub proof fn law_parameters_written(r: TimeStampReqView)
    ensures
        request::request_encoding(with_parameters(r)) == request::request_encoding(r),
{
}

/// A request that is written and read is written again with the same octets: what is posted is what
/// was made.
pub proof fn law_request_posted(r: TimeStampReqView)
    requires
        is_request(r),
        r.extensions is None,
        request::request_fits(r),
    ensures
        rfc3161::request(request::request_encoding(r)) matches Some(q) && request::request_fits(q)
            && request::request_encoding(q) == request::request_encoding(r),
{
    let s = request::request_encoding(r);
    law_request_read_back(r, Seq::empty());
    assert(s + Seq::<u8>::empty() =~= s);
    law_parameters_written(r);
}

/// An algorithm identifier with parameters is written with the octets that it was read from.
proof fn lemma_algorithm_rewritten(s: Seq<u8>)
    ensures
        x509::algorithm(s) matches Some((a, rest)) ==> (a.parameters is Some ==> s == encode::tlv(
            encode::constructed_id(der::SEQUENCE),
            x509::algorithm_content_encoding(a),
        ) + rest),
{
    if let Some((a, rest)) = x509::algorithm(s) {
        if a.parameters is Some {
            encode::lemma_tlv_canonical(s, der::SEQUENCE);
            encode::lemma_constructed_id(s[0]);
            let c = (der::constructed(s, der::SEQUENCE)->0).0;
            encode::lemma_tlv_canonical(c, der::OBJECT_IDENTIFIER);
        }
    }
}

/// A message imprint with parameters is written with the octets that it was read from.
proof fn lemma_imprint_rewritten(s: Seq<u8>)
    ensures
        rfc3161::message_imprint(s) matches Some((m, rest)) ==> (
        m.hash_algorithm.parameters is Some ==> s == request::imprint_encoding(m) + rest),
{
    if let Some((m, rest)) = rfc3161::message_imprint(s) {
        if m.hash_algorithm.parameters is Some {
            encode::lemma_tlv_canonical(s, der::SEQUENCE);
            encode::lemma_constructed_id(s[0]);
            let c = (der::constructed(s, der::SEQUENCE)->0).0;
            lemma_algorithm_rewritten(c);
            let c1 = (x509::algorithm(c)->0).1;
            encode::lemma_tlv_canonical(c1, der::OCTET_STRING);
            assert(c1 =~= encode::tlv(der::OCTET_STRING, m.hashed_message));
        }
    }
}

/// An optional primitive value is written with the octets that it was read from.
proof fn lemma_opt_rewritten(s: Seq<u8>, tag: u8)
    ensures
        der::opt_primitive(s, tag) matches Some((c, rest)) ==> s == request::opt_tlv(tag, c) + rest,
{
    if let Some((c, rest)) = der::opt_primitive(s, tag) {
        encode::lemma_tlv_canonical(s, tag);
        if c is None {
            assert(Seq::<u8>::empty() + s =~= s);
        }
    }
}

/// A request that was read is written with the octets that it was read from, where it has
/// parameters for its digest algorithm and no extensions.
pub proof fn law_request_rewritten(s: Seq<u8>)
    ensures
        rfc3161::request(s) matches Some(r) ==> (
        r.message_imprint.hash_algorithm.parameters is Some && r.extensions is None
            ==> request::request_fits(r) && request::request_encoding(r).is_prefix_of(s)),
{
    reveal(rfc3161::request);
    if let Some(r) = rfc3161::request(s) {
        if r.message_imprint.hash_algorithm.parameters is Some && r.extensions is None {
            encode::lemma_tlv_canonical(s, der::SEQUENCE);
            encode::lemma_constructed_id(s[0]);
            let (c, after) = der::constructed(s, der::SEQUENCE)->0;
            let c1 = (der::integer(c)->0).1;
            let c2 = (rfc3161::message_imprint(c1)->0).1;
            let c3 = (der::opt_oid(c2)->0).1;
            let c4 = (der::opt_integer(c3)->0).1;
            let c5 = (der::opt_boolean(c4)->0).1;
            lemma_opt_rewritten(c, der::INTEGER);
            lemma_imprint_rewritten(c1);
            lemma_opt_rewritten(c2, der::OBJECT_IDENTIFIER);
            lemma_opt_rewritten(c3, der::INTEGER);
            lemma_opt_rewritten(c4, der::BOOLEAN);
            lemma_boolean_rewritten(c4);
            let none = request::opt_tlv(encode::constructed_id(der::CTX_0), None);
            assert(c5 =~= none);
            assert(c == request::request_content_encoding(r));
        }
    }
}

/// A BOOLEAN has one content for each value.
proof fn lemma_boolean_rewritten(s: Seq<u8>)
    ensures
        der::opt_boolean(s) matches Some((b, rest)) ==> der::opt_primitive(s, der::BOOLEAN) == Some(
            (request::boolean_content(b), rest),
        ),
{
    if let Some((b, rest)) = der::opt_boolean(s) {
        if let Some((Some(c), _)) = der::opt_primitive(s, der::BOOLEAN) {
            assert(c =~= request::boolean_content(b)->0);
        }
    }
}

/// More contents make no shorter value, and a header takes two to six octets.
proof fn lemma_tlv_len(id1: u8, c1: Seq<u8>, id2: u8, c2: Seq<u8>)
    requires
        c1.len() <= c2.len(),
    ensures
        encode::tlv(id1, c1).len() <= encode::tlv(id2, c2).len(),
        c1.len() + 2 <= encode::tlv(id1, c1).len() <= c1.len() + 6,
        c2.len() + 2 <= encode::tlv(id2, c2).len() <= c2.len() + 6,
{
}

/// An extension that was read is not written longer.
proof fn lemma_extension_len(c: Seq<u8>)
    ensures
        x509::extension_content(c) matches Some(e) ==> request::extension_content_encoding(e).len()
            <= c.len(),
{
    if let Some(e) = x509::extension_content(c) {
        let c1 = (der::oid(c)->0).1;
        let c2 = (der::opt_boolean(c1)->0).1;
        lemma_opt_rewritten(c, der::OBJECT_IDENTIFIER);
        lemma_opt_rewritten(c1, der::BOOLEAN);
        lemma_boolean_rewritten(c1);
        lemma_opt_rewritten(c2, der::OCTET_STRING);
    }
}

/// The first extension adds its own length.
proof fn lemma_extensions_first(e: ExtensionView, tail: Seq<ExtensionView>)
    ensures
        request::extensions_encoding(seq![e] + tail).len() == encode::tlv(
            encode::constructed_id(der::SEQUENCE),
            request::extension_content_encoding(e),
        ).len() + request::extensions_encoding(tail).len(),
    decreases tail.len(),
{
    let v = seq![e] + tail;
    if tail.len() == 0 {
        assert(v.drop_last() =~= Seq::<ExtensionView>::empty());
        assert(request::extensions_encoding(v.drop_last()).len() == 0);
    } else {
        lemma_extensions_first(e, tail.drop_last());
        assert(v.drop_last() =~= seq![e] + tail.drop_last());
        assert(v.last() == tail.last());
    }
}

/// Extensions that were read are not written longer.
proof fn lemma_extensions_len(s: Seq<u8>)
    ensures
        x509::extensions(s) matches Some(v) ==> request::extensions_encoding(v).len() <= s.len(),
    decreases s.len(),
{
    if let Some((Some(c), after)) = der::opt_constructed(s, der::SEQUENCE) {
        encode::lemma_tlv_canonical(s, der::SEQUENCE);
        if let (Some(e), Some(tail)) = (x509::extension_content(c), x509::extensions(after)) {
            lemma_extensions_len(after);
            lemma_extension_len(c);
            lemma_extensions_first(e, tail);
            lemma_tlv_len(
                encode::constructed_id(der::SEQUENCE),
                request::extension_content_encoding(e),
                s[0],
                c,
            );
        }
    }
}

/// The `[0]` of a request that was read is not written longer.
proof fn lemma_opt_extensions_len(s: Seq<u8>)
    ensures
        rfc3161::opt_tagged_extensions(s, der::CTX_0) matches Some((extensions, rest))
            ==> request::opt_tlv(
            encode::constructed_id(der::CTX_0),
            request::opt_extensions_content(extensions),
        ).len() + rest.len() <= s.len(),
{
    if let Some((Some(c), rest)) = der::opt_constructed(s, der::CTX_0) {
        encode::lemma_tlv_canonical(s, der::CTX_0);
        if let Some(v) = x509::extension_sequence(c) {
            encode::lemma_tlv_canonical(c, der::SEQUENCE);
            let list = (der::constructed(c, der::SEQUENCE)->0).0;
            lemma_extensions_len(list);
            lemma_tlv_len(
                encode::constructed_id(der::CTX_0),
                request::extensions_encoding(v),
                s[0],
                c,
            );
        }
    }
}

/// An algorithm identifier that was read is written longer by a NULL and by a longer header at most.
proof fn lemma_algorithm_len(s: Seq<u8>)
    ensures
        x509::algorithm(s) matches Some((a, rest)) ==> encode::tlv(
            encode::constructed_id(der::SEQUENCE),
            x509::algorithm_content_encoding(a),
        ).len() + rest.len() <= s.len() + 6,
{
    if let Some((a, rest)) = x509::algorithm(s) {
        let c = (der::constructed(s, der::SEQUENCE)->0).0;
        let id = encode::constructed_id(der::SEQUENCE);
        let written = x509::algorithm_content_encoding(a);
        encode::lemma_tlv_canonical(s, der::SEQUENCE);
        lemma_opt_rewritten(c, der::OBJECT_IDENTIFIER);
        assert(written.len() <= c.len() + 2);
        lemma_tlv_len(id, written, id, written);
        lemma_tlv_len(s[0], c, s[0], c);
    }
}

/// A message imprint that was read is written longer by a NULL and by longer headers at most.
proof fn lemma_imprint_len(s: Seq<u8>)
    ensures
        rfc3161::message_imprint(s) matches Some((m, rest)) ==> request::imprint_encoding(m).len()
            + rest.len() <= s.len() + 10,
{
    if let Some((m, rest)) = rfc3161::message_imprint(s) {
        let c = (der::constructed(s, der::SEQUENCE)->0).0;
        let c1 = (x509::algorithm(c)->0).1;
        let id = encode::constructed_id(der::SEQUENCE);
        let written = request::imprint_content_encoding(m);
        encode::lemma_tlv_canonical(s, der::SEQUENCE);
        lemma_algorithm_len(c);
        lemma_opt_rewritten(c1, der::OCTET_STRING);
        assert(written.len() <= c.len() + 6);
        lemma_tlv_len(id, written, id, written);
        lemma_tlv_len(s[0], c, s[0], c);
    }
}

/// A request that was read can be written, but where it comes near the longest value there is.
pub proof fn law_request_fits(s: Seq<u8>)
    requires
        s.len() <= 0xffff_ff00,
    ensures
        rfc3161::request(s) matches Some(r) ==> request::request_fits(r),
{
    reveal(rfc3161::request);
    if let Some(r) = rfc3161::request(s) {
        encode::lemma_tlv_canonical(s, der::SEQUENCE);
        let c = (der::constructed(s, der::SEQUENCE)->0).0;
        let c1 = (der::integer(c)->0).1;
        let c2 = (rfc3161::message_imprint(c1)->0).1;
        let c3 = (der::opt_oid(c2)->0).1;
        let c4 = (der::opt_integer(c3)->0).1;
        let c5 = (der::opt_boolean(c4)->0).1;
        lemma_opt_rewritten(c, der::INTEGER);
        lemma_imprint_len(c1);
        lemma_opt_rewritten(c2, der::OBJECT_IDENTIFIER);
        lemma_opt_rewritten(c3, der::INTEGER);
        lemma_opt_rewritten(c4, der::BOOLEAN);
        lemma_boolean_rewritten(c4);
        lemma_opt_extensions_len(c5);
        assert(c.len() <= s.len());
    }
}

} // verus!
