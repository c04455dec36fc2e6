//! What holds of statements, requests and responses as they are written and read.
use crate::der;
use crate::der_laws;
use crate::encode;
use crate::item_laws;
use crate::outside;
use crate::rfc3161;
use crate::rfc3161::{
    AccuracyView, MessageImprintView, PkiFailureInfo, PkiStatus, PkiStatusInfoView,
    TimeStampReqView, TimeStampRespView, TstInfoTail, TstInfoView,
};
use crate::rfc5652;
use crate::rfc5652::ContentInfoView;
use crate::x509;
use crate::x509::ExtensionView;
use vstd::prelude::*;

verus! {

/// The octets of a message imprint's contents.
pub open spec fn imprint_octets(m: MessageImprintView) -> Seq<u8> {
    encode::tlv(0x30, item_laws::algorithm_octets(m.hash_algorithm)) + encode::tlv(
        0x04,
        m.hashed_message,
    )
}

/// Whether `m` is a digest under an algorithm.
pub open spec fn is_imprint(m: MessageImprintView) -> bool {
    &&& item_laws::is_algorithm(m.hash_algorithm)
    &&& der_laws::is_short(imprint_octets(m))
}

/// An INTEGER as the contents of another value.
pub open spec fn wrapped_integer(o: Option<Seq<u8>>) -> Option<Seq<u8>> {
    match o {
        Some(v) => Some(encode::tlv(0x02, v)),
        None => None,
    }
}

/// Whether `o` is an INTEGER, if there is any.
pub open spec fn is_opt_integer(o: Option<Seq<u8>>) -> bool {
    o matches Some(v) ==> der::is_integer(v) && der_laws::is_short(encode::tlv(0x02, v))
}

/// The octets of an accuracy's contents.
pub open spec fn accuracy_octets(a: AccuracyView) -> Seq<u8> {
    der_laws::opt_tlv(0x02, a.seconds) + (der_laws::opt_tlv(0xa0, wrapped_integer(a.millis))
        + der_laws::opt_tlv(0xa1, wrapped_integer(a.micros)))
}

/// The SEQUENCE of the extensions `list`, if there is any, as the contents of another value.
pub open spec fn wrapped_list(list: Option<Seq<u8>>) -> Option<Seq<u8>> {
    match list {
        Some(l) => Some(encode::tlv(0x30, l)),
        None => None,
    }
}

/// Whether `list` are the octets of the extensions `v`, one behind the other.
pub open spec fn is_list(list: Option<Seq<u8>>, v: Option<Seq<ExtensionView>>) -> bool {
    match (list, v) {
        (Some(l), Some(v)) => x509::extensions(l) == Some(v) && der_laws::is_short(
            encode::tlv(0x30, l),
        ),
        (None, None) => true,
        _ => false,
    }
}

/// A message imprint is read with all its octets.
pub proof fn law_imprint_read(s: Seq<u8>)
    ensures
        rfc3161::message_imprint(s) matches Some((m, rest)) ==> s == encode::tlv(
            0x30,
            imprint_octets(m),
        ) + rest && is_imprint(m),
{
    if let Some((m, rest)) = rfc3161::message_imprint(s) {
        let c = (der::constructed(s, der::SEQUENCE)->0).0;
        let c1 = (x509::algorithm(c)->0).1;
        item_laws::law_sequence_read(s);
        item_laws::law_algorithm_read(c);
        item_laws::law_octets_read(c1);
        assert(c1 =~= encode::tlv(0x04, m.hashed_message));
    }
}

/// A written message imprint is read back.
pub proof fn law_imprint_read_back(m: MessageImprintView, rest: Seq<u8>)
    requires
        is_imprint(m),
    ensures
        rfc3161::message_imprint(encode::tlv(0x30, imprint_octets(m)) + rest) == Some((m, rest)),
{
    let hashed = encode::tlv(0x04, m.hashed_message);
    item_laws::law_sequence_read_back(Some(imprint_octets(m)), rest);
    item_laws::law_algorithm_read_back(m.hash_algorithm, hashed);
    item_laws::law_octets_read_back(m.hashed_message, Seq::empty());
    assert(hashed + Seq::<u8>::empty() =~= hashed);
}

/// A wrapped INTEGER is read with all its octets.
proof fn lemma_wrapped_read(s: Seq<u8>, tag: u8)
    requires
        der_laws::is_plain(tag),
    ensures
        rfc3161::opt_tagged_integer(s, tag) matches Some((o, rest)) ==> s == der_laws::opt_tlv(
            (tag + 32) as u8,
            wrapped_integer(o),
        ) + rest && is_opt_integer(o),
{
    if let Some((o, rest)) = rfc3161::opt_tagged_integer(s, tag) {
        der_laws::law_constructed_read(s, tag);
        if let Some((Some(c), _)) = der::opt_constructed(s, tag) {
            item_laws::law_integer_read(c);
            let v = (der::integer(c)->0).0;
            assert(c =~= encode::tlv(0x02, v));
        }
    }
}

/// A written wrapped INTEGER is read back.
proof fn lemma_wrapped_read_back(tag: u8, o: Option<Seq<u8>>, rest: Seq<u8>)
    requires
        der_laws::is_plain(tag),
        is_opt_integer(o),
        o is None ==> der_laws::starts_without(rest, tag),
    ensures
        rfc3161::opt_tagged_integer(
            der_laws::opt_tlv((tag + 32) as u8, wrapped_integer(o)) + rest,
            tag,
        ) == Some((o, rest)),
{
    der_laws::law_constructed_read_back(tag, wrapped_integer(o), rest);
    if let Some(v) = o {
        item_laws::law_integer_read_back(Some(v), Seq::empty());
        assert(encode::tlv(0x02, v) + Seq::<u8>::empty() =~= encode::tlv(0x02, v));
    }
}

/// An accuracy is read with all its octets.
pub proof fn law_accuracy_read(c: Seq<u8>)
    ensures
        rfc3161::accuracy_content(c) matches Some(a) ==> c == accuracy_octets(a) && is_accuracy(a),
{
    if let Some(a) = rfc3161::accuracy_content(c) {
        let c1 = (der::opt_integer(c)->0).1;
        let (millis, c2) = rfc3161::opt_tagged_integer(c1, der::CTX_0)->0;
        let (micros, c3) = rfc3161::opt_tagged_integer(c2, der::CTX_1)->0;
        item_laws::law_integer_read(c);
        lemma_wrapped_read(c1, der::CTX_0);
        lemma_wrapped_read(c2, der::CTX_1);
        assert(c2 =~= der_laws::opt_tlv(0xa1, wrapped_integer(micros)));
    }
}

/// Whether the numbers of the accuracy `a` are such.
pub open spec fn is_accuracy(a: AccuracyView) -> bool {
    &&& a.seconds matches Some(v) ==> der::is_integer(v) && der_laws::is_short(v)
    &&& is_opt_integer(a.millis)
    &&& is_opt_integer(a.micros)
}

/// A written accuracy is read back.
pub proof fn law_accuracy_read_back(a: AccuracyView)
    requires
        is_accuracy(a),
    ensures
        rfc3161::accuracy_content(accuracy_octets(a)) == Some(a),
{
    let none = Seq::<u8>::empty();
    let c2 = der_laws::opt_tlv(0xa1, wrapped_integer(a.micros));
    let c1 = der_laws::opt_tlv(0xa0, wrapped_integer(a.millis)) + c2;
    assert(c2 + none =~= c2);
    der_laws::lemma_starts(0xa1, wrapped_integer(a.micros), none);
    der_laws::lemma_starts(0xa0, wrapped_integer(a.millis), c2);
    lemma_wrapped_read_back(der::CTX_1, a.micros, none);
    lemma_wrapped_read_back(der::CTX_0, a.millis, c2);
    item_laws::law_integer_read_back(a.seconds, c1);
}

/// Tagged extensions are read with all their octets.
proof fn lemma_tagged_extensions_read(s: Seq<u8>, tag: u8)
    requires
        der_laws::is_plain(tag),
    ensures
        rfc3161::opt_tagged_extensions(s, tag) matches Some((v, rest)) ==> exists|
            list: Option<Seq<u8>>,
        | #[trigger]
            is_list(list, v) && s == der_laws::opt_tlv((tag + 32) as u8, wrapped_list(list)) + rest,
{
    if let Some((v, rest)) = rfc3161::opt_tagged_extensions(s, tag) {
        der_laws::law_constructed_read(s, tag);
        if let Some((Some(c), _)) = der::opt_constructed(s, tag) {
            item_laws::law_sequence_read(c);
            let l = (der::constructed(c, der::SEQUENCE)->0).0;
            assert(c =~= encode::tlv(0x30, l));
            assert(is_list(Some(l), v));
        } else {
            assert(is_list(None, v));
        }
    }
}

/// Written tagged extensions are read back.
proof fn lemma_tagged_extensions_read_back(
    tag: u8,
    list: Option<Seq<u8>>,
    v: Option<Seq<ExtensionView>>,
    rest: Seq<u8>,
)
    requires
        der_laws::is_plain(tag),
        is_list(list, v),
        v is None ==> der_laws::starts_without(rest, tag),
    ensures
        rfc3161::opt_tagged_extensions(
            der_laws::opt_tlv((tag + 32) as u8, wrapped_list(list)) + rest,
            tag,
        ) == Some((v, rest)),
{
    der_laws::law_constructed_read_back(tag, wrapped_list(list), rest);
    if let Some(l) = list {
        item_laws::law_sequence_read_back(Some(l), Seq::empty());
        assert(encode::tlv(0x30, l) + Seq::<u8>::empty() =~= encode::tlv(0x30, l));
    }
}

/// The octets of the optional parts of a statement.
pub open spec fn tail_octets(t: TstInfoTail, list: Option<Seq<u8>>) -> Seq<u8> {
    der_laws::opt_tlv(
        0x30,
        match t.accuracy {
            Some(a) => Some(accuracy_octets(a)),
            None => None,
        },
    ) + (der_laws::opt_tlv(0x01, item_laws::boolean_octets(t.ordering)) + (der_laws::opt_tlv(
        0x02,
        t.nonce,
    ) + (der_laws::opt_tlv(0xa0, t.tsa) + der_laws::opt_tlv(0xa1, wrapped_list(list)))))
}

/// Whether the optional parts of a statement are what they should be.
pub open spec fn is_tail(t: TstInfoTail, list: Option<Seq<u8>>) -> bool {
    &&& t.accuracy matches Some(a) ==> is_accuracy(a) && der_laws::is_short(accuracy_octets(a))
    &&& t.nonce matches Some(v) ==> der::is_integer(v) && der_laws::is_short(v)
    &&& t.tsa matches Some(c) ==> der_laws::is_short(c) && outside::general_name_accepted(
        encode::tlv(0xa0, c),
    )
    &&& is_list(list, t.extensions)
}

/// The name of an authority is read with all its octets.
proof fn lemma_tsa_read(s: Seq<u8>)
    ensures
        rfc3161::opt_tsa(s) matches Some((o, rest)) ==> s == der_laws::opt_tlv(0xa0, o) + rest && (
        o matches Some(c) ==> der_laws::is_short(c) && outside::general_name_accepted(
            encode::tlv(0xa0, c),
        )),
{
    if let Some((o, rest)) = rfc3161::opt_tsa(s) {
        der_laws::law_constructed_read(s, der::CTX_0);
        if let Some(c) = o {
            assert(s.take(s.len() - rest.len()) =~= encode::tlv(0xa0, c));
        }
    }
}

/// The written name of an authority is read back.
proof fn lemma_tsa_read_back(o: Option<Seq<u8>>, rest: Seq<u8>)
    requires
        o matches Some(c) ==> der_laws::is_short(c) && outside::general_name_accepted(
            encode::tlv(0xa0, c),
        ),
        o is None ==> der_laws::starts_without(rest, 0x80),
    ensures
        rfc3161::opt_tsa(der_laws::opt_tlv(0xa0, o) + rest) == Some((o, rest)),
{
    der_laws::law_constructed_read_back(der::CTX_0, o, rest);
    let s = der_laws::opt_tlv(0xa0, o) + rest;
    if let Some(c) = o {
        assert(s.take(s.len() - rest.len()) =~= encode::tlv(0xa0, c));
    }
}

/// The optional parts of a statement are read with all their octets.
pub proof fn law_tail_read(c: Seq<u8>)
    ensures
        rfc3161::tst_info_tail(c) matches Some(t) ==> exists|list: Option<Seq<u8>>| #[trigger]
            is_tail(t, list) && c == tail_octets(t, list),
{
    if let Some(t) = rfc3161::tst_info_tail(c) {
        let c1 = (rfc3161::opt_accuracy(c)->0).1;
        let c2 = (der::opt_boolean(c1)->0).1;
        let c3 = (der::opt_integer(c2)->0).1;
        let c4 = (rfc3161::opt_tsa(c3)->0).1;
        let c5 = (rfc3161::opt_tagged_extensions(c4, der::CTX_1)->0).1;
        lemma_opt_accuracy_read(c);
        item_laws::law_boolean_read(c1);
        item_laws::law_integer_read(c2);
        lemma_tsa_read(c3);
        lemma_tagged_extensions_read(c4, der::CTX_1);
        let list = choose|list: Option<Seq<u8>>| #[trigger]
            is_list(list, t.extensions) && c4 == der_laws::opt_tlv(0xa1, wrapped_list(list)) + c5;
        assert(c4 =~= der_laws::opt_tlv(0xa1, wrapped_list(list)));
        assert(is_tail(t, list));
    }
}

/// An optional accuracy is read with all its octets.
proof fn lemma_opt_accuracy_read(s: Seq<u8>)
    ensures
        rfc3161::opt_accuracy(s) matches Some((o, rest)) ==> s == der_laws::opt_tlv(
            0x30,
            match o {
                Some(a) => Some(accuracy_octets(a)),
                None => None,
            },
        ) + rest && (o matches Some(a) ==> is_accuracy(a) && der_laws::is_short(
            accuracy_octets(a),
        )),
{
    item_laws::law_sequence_read(s);
    if let Some((Some(c), rest)) = der::opt_constructed(s, der::SEQUENCE) {
        law_accuracy_read(c);
    }
}

/// A written optional accuracy is read back.
proof fn lemma_opt_accuracy_read_back(o: Option<AccuracyView>, rest: Seq<u8>)
    requires
        o matches Some(a) ==> is_accuracy(a) && der_laws::is_short(accuracy_octets(a)),
        o is None ==> der_laws::starts_without(rest, 0x10),
    ensures
        rfc3161::opt_accuracy(
            der_laws::opt_tlv(
                0x30,
                match o {
                    Some(a) => Some(accuracy_octets(a)),
                    None => None,
                },
            ) + rest,
        ) == Some((o, rest)),
{
    let c = match o {
        Some(a) => Some(accuracy_octets(a)),
        None => None,
    };
    item_laws::law_sequence_read_back(c, rest);
    if let Some(a) = o {
        law_accuracy_read_back(a);
    }
}

/// The written optional parts of a statement are read back.
pub proof fn law_tail_read_back(t: TstInfoTail, list: Option<Seq<u8>>)
    requires
        is_tail(t, list),
    ensures
        rfc3161::tst_info_tail(tail_octets(t, list)) == Some(t),
{
    let none = Seq::<u8>::empty();
    let b = item_laws::boolean_octets(t.ordering);
    let c4 = der_laws::opt_tlv(0xa1, wrapped_list(list));
    let c3 = der_laws::opt_tlv(0xa0, t.tsa) + c4;
    let c2 = der_laws::opt_tlv(0x02, t.nonce) + c3;
    let c1 = der_laws::opt_tlv(0x01, b) + c2;
    assert(c4 + none =~= c4);
    der_laws::lemma_starts(0xa1, wrapped_list(list), none);
    der_laws::lemma_starts(0xa0, t.tsa, c4);
    der_laws::lemma_starts(0x02, t.nonce, c3);
    der_laws::lemma_starts(0x01, b, c2);
    lemma_tagged_extensions_read_back(der::CTX_1, list, t.extensions, none);
    lemma_tsa_read_back(t.tsa, c4);
    item_laws::law_integer_read_back(t.nonce, c3);
    item_laws::law_boolean_read_back(t.ordering, c2);
    lemma_opt_accuracy_read_back(t.accuracy, c1);
}

/// The optional parts of the statement `t`.
pub open spec fn tail_of(t: TstInfoView) -> TstInfoTail {
    TstInfoTail {
        accuracy: t.accuracy,
        ordering: t.ordering,
        nonce: t.nonce,
        tsa: t.tsa,
        extensions: t.extensions,
    }
}

/// A time with up to nine digits in the fraction of its second is not left out, nor one without a
/// fraction.
pub proof fn law_fraction(seconds: Seq<u8>, digits: Seq<u8>, zone: Seq<u8>)
    requires
        seconds.len() == 14,
        digits.len() <= 9,
        zone.len() > 0,
        !(0x30 <= zone[0] <= 0x39),
    ensures
        !outside::long_fraction(seconds + seq![0x2eu8] + digits + zone),
        zone[0] != 0x2e ==> !outside::long_fraction(seconds + zone),
{
    let s = seconds + seq![0x2eu8] + digits + zone;
    let k = 15 + digits.len() as int;
    assert(s[k] == zone[0]);
    assert((seconds + zone)[14] == zone[0]);
}

/// The octets of the contents of the statement `t`, with the octets `time` for its time and `list`
/// for its extensions.
pub open spec fn statement_octets(t: TstInfoView, time: Seq<u8>, list: Option<Seq<u8>>) -> Seq<u8> {
    encode::tlv(0x02, t.version) + (encode::tlv(0x06, t.policy) + (encode::tlv(
        0x30,
        imprint_octets(t.message_imprint),
    ) + (encode::tlv(0x02, t.serial_number) + (encode::tlv(0x18, time) + tail_octets(
        tail_of(t),
        list,
    )))))
}

/// Whether the parts of the statement `t` are what they should be.
pub open spec fn is_statement(t: TstInfoView, time: Seq<u8>, list: Option<Seq<u8>>) -> bool {
    &&& der::is_integer(t.version)
    &&& der::is_oid(t.policy)
    &&& is_imprint(t.message_imprint)
    &&& der::is_integer(t.serial_number)
    &&& !outside::long_fraction(time)
    &&& outside::generalized_time_at(time) == Some(t.gen_time)
    &&& is_tail(tail_of(t), list)
    &&& der_laws::is_short(statement_octets(t, time, list))
}

/// Reading a statement loses nothing: it stands at the front of what was read, each of its fields
/// with all its octets.
pub proof fn law_statement_read(s: Seq<u8>)
    ensures
        rfc3161::tst_info(s) matches Some(t) ==> exists|
            time: Seq<u8>,
            list: Option<Seq<u8>>,
            rest: Seq<u8>,
        |
            is_statement(t, time, list) && s == #[trigger] (encode::tlv(
                0x30,
                statement_octets(t, time, list),
            ) + rest),
{
    reveal(rfc3161::tst_info);
    if let Some(t) = rfc3161::tst_info(s) {
        let (c, rest) = der::constructed(s, der::SEQUENCE)->0;
        item_laws::law_sequence_read(s);
        let (time, list) = lemma_statement_content(c);
        assert(is_statement(t, time, list));
        assert(s == encode::tlv(0x30, statement_octets(t, time, list)) + rest);
    }
}

proof fn lemma_statement_content(c: Seq<u8>) -> (res: (Seq<u8>, Option<Seq<u8>>))
    requires
        rfc3161::tst_info_content(c) is Some,
        der_laws::is_short(c),
    ensures
        is_statement(rfc3161::tst_info_content(c)->0, res.0, res.1),
        c == statement_octets(rfc3161::tst_info_content(c)->0, res.0, res.1),
{
    let t = rfc3161::tst_info_content(c)->0;
    let c1 = (der::integer(c)->0).1;
    let c2 = (der::oid(c1)->0).1;
    let c3 = (rfc3161::message_imprint(c2)->0).1;
    let c4 = (der::integer(c3)->0).1;
    let c5 = (rfc3161::generalized_time(c4)->0).1;
    let time = (der::primitive(c4, der::GENERALIZED_TIME)->0).0;
    assert(t.version == (der::integer(c)->0).0);
    assert(t.policy == (der::oid(c1)->0).0);
    assert(t.message_imprint == (rfc3161::message_imprint(c2)->0).0);
    assert(t.serial_number == (der::integer(c3)->0).0);
    item_laws::law_integer_read(c);
    item_laws::law_oid_read(c1);
    law_imprint_read(c2);
    item_laws::law_integer_read(c3);
    der_laws::law_primitive_read(c4, der::GENERALIZED_TIME);
    law_tail_read(c5);
    let list = choose|list: Option<Seq<u8>>| #[trigger]
        is_tail(tail_of(t), list) && c5 == tail_octets(tail_of(t), list);
    (time, list)
}

/// A written statement is read back with every field, whatever follows it.
pub proof fn law_statement_read_back(
    t: TstInfoView,
    time: Seq<u8>,
    list: Option<Seq<u8>>,
    rest: Seq<u8>,
)
    requires
        is_statement(t, time, list),
    ensures
        rfc3161::tst_info(encode::tlv(0x30, statement_octets(t, time, list)) + rest) == Some(t),
{
    reveal(rfc3161::tst_info);
    let c5 = tail_octets(tail_of(t), list);
    let c4 = encode::tlv(0x18, time) + c5;
    let c3 = encode::tlv(0x02, t.serial_number) + c4;
    let c2 = encode::tlv(0x30, imprint_octets(t.message_imprint)) + c3;
    let c1 = encode::tlv(0x06, t.policy) + c2;
    item_laws::law_sequence_read_back(Some(statement_octets(t, time, list)), rest);
    item_laws::law_integer_read_back(Some(t.version), c1);
    item_laws::law_oid_read_back(Some(t.policy), c2);
    law_imprint_read_back(t.message_imprint, c3);
    item_laws::law_integer_read_back(Some(t.serial_number), c4);
    der_laws::law_primitive_read_back(der::GENERALIZED_TIME, Some(time), c5);
    law_tail_read_back(tail_of(t), list);
    lemma_statement_parts(statement_octets(t, time, list), c1, c2, c3, c4, c5, t);
}

/// A statement is read part by part.
proof fn lemma_statement_parts(
    c: Seq<u8>,
    c1: Seq<u8>,
    c2: Seq<u8>,
    c3: Seq<u8>,
    c4: Seq<u8>,
    c5: Seq<u8>,
    t: TstInfoView,
)
    requires
        der::integer(c) == Some((t.version, c1)),
        der::oid(c1) == Some((t.policy, c2)),
        rfc3161::message_imprint(c2) == Some((t.message_imprint, c3)),
        der::integer(c3) == Some((t.serial_number, c4)),
        rfc3161::generalized_time(c4) == Some((t.gen_time, c5)),
        rfc3161::tst_info_tail(c5) == Some(tail_of(t)),
    ensures
        rfc3161::tst_info_content(c) == Some(t),
{
}

/// The octets of the contents of the request `r`, with the octets `list` for its extensions.
pub open spec fn request_octets(r: TimeStampReqView, list: Option<Seq<u8>>) -> Seq<u8> {
    encode::tlv(0x02, r.version) + (encode::tlv(0x30, imprint_octets(r.message_imprint)) + (
    der_laws::opt_tlv(0x06, r.req_policy) + (der_laws::opt_tlv(0x02, r.nonce) + (der_laws::opt_tlv(
        0x01,
        item_laws::boolean_octets(r.cert_req),
    ) + der_laws::opt_tlv(0xa0, wrapped_list(list))))))
}

/// Whether the parts of the request `r` are what they should be.
pub open spec fn is_request(r: TimeStampReqView, list: Option<Seq<u8>>) -> bool {
    &&& der::is_integer(r.version)
    &&& is_imprint(r.message_imprint)
    &&& r.req_policy matches Some(p) ==> der::is_oid(p)
    &&& r.nonce matches Some(n) ==> der::is_integer(n)
    &&& is_list(list, r.extensions)
    &&& der_laws::is_short(request_octets(r, list))
}

/// Reading a request loses nothing: it stands at the front of what was read, each of its fields with
/// all its octets.
pub proof fn law_request_read(s: Seq<u8>)
    ensures
        rfc3161::request(s) matches Some(r) ==> exists|list: Option<Seq<u8>>, rest: Seq<u8>|
            is_request(r, list) && s == #[trigger] (encode::tlv(0x30, request_octets(r, list))
                + rest),
{
    reveal(rfc3161::request);
    if let Some(r) = rfc3161::request(s) {
        let (c, rest) = der::constructed(s, der::SEQUENCE)->0;
        let c1 = (der::integer(c)->0).1;
        let c2 = (rfc3161::message_imprint(c1)->0).1;
        let c3 = (der::opt_oid(c2)->0).1;
        let c4 = (der::opt_integer(c3)->0).1;
        let c5 = (der::opt_boolean(c4)->0).1;
        let c6 = (rfc3161::opt_tagged_extensions(c5, der::CTX_0)->0).1;
        item_laws::law_sequence_read(s);
        item_laws::law_integer_read(c);
        law_imprint_read(c1);
        item_laws::law_oid_read(c2);
        item_laws::law_integer_read(c3);
        item_laws::law_boolean_read(c4);
        lemma_tagged_extensions_read(c5, der::CTX_0);
        let list = choose|list: Option<Seq<u8>>| #[trigger]
            is_list(list, r.extensions) && c5 == der_laws::opt_tlv(0xa0, wrapped_list(list)) + c6;
        assert(c5 =~= der_laws::opt_tlv(0xa0, wrapped_list(list)));
        assert(c == request_octets(r, list));
        assert(is_request(r, list));
        assert(s == encode::tlv(0x30, request_octets(r, list)) + rest);
    }
}

/// A request with all its fields is read with every one of them, whatever follows it.
pub proof fn law_request_fields(r: TimeStampReqView, list: Option<Seq<u8>>, rest: Seq<u8>)
    requires
        is_request(r, list),
    ensures
        rfc3161::request(encode::tlv(0x30, request_octets(r, list)) + rest) == Some(r),
{
    reveal(rfc3161::request);
    let none = Seq::<u8>::empty();
    let b = item_laws::boolean_octets(r.cert_req);
    let c5 = der_laws::opt_tlv(0xa0, wrapped_list(list));
    let c4 = der_laws::opt_tlv(0x01, b) + c5;
    let c3 = der_laws::opt_tlv(0x02, r.nonce) + c4;
    let c2 = der_laws::opt_tlv(0x06, r.req_policy) + c3;
    let c1 = encode::tlv(0x30, imprint_octets(r.message_imprint)) + c2;
    assert(c5 + none =~= c5);
    der_laws::lemma_starts(0xa0, wrapped_list(list), none);
    der_laws::lemma_starts(0x01, b, c5);
    der_laws::lemma_starts(0x02, r.nonce, c4);
    lemma_tagged_extensions_read_back(der::CTX_0, list, r.extensions, none);
    item_laws::law_boolean_read_back(r.cert_req, c5);
    item_laws::law_integer_read_back(r.nonce, c4);
    item_laws::law_oid_read_back(r.req_policy, c3);
    law_imprint_read_back(r.message_imprint, c2);
    item_laws::law_integer_read_back(Some(r.version), c1);
    item_laws::law_sequence_read_back(Some(request_octets(r, list)), rest);
}

/// The code of a status.
pub open spec fn status_code(status: PkiStatus) -> u8 {
    match status {
        PkiStatus::Granted => 0,
        PkiStatus::GrantedWithMods => 1,
        PkiStatus::Rejection => 2,
        PkiStatus::Waiting => 3,
        PkiStatus::RevocationWarning => 4,
        PkiStatus::RevocationNotification => 5,
    }
}

/// The code of a reason for a failure.
pub open spec fn failure_code(failure: PkiFailureInfo) -> u8 {
    match failure {
        PkiFailureInfo::BadAlg => 0,
        PkiFailureInfo::BadRequest => 1,
        PkiFailureInfo::BadDataFormat => 5,
        PkiFailureInfo::TimeNotAvailable => 14,
        PkiFailureInfo::UnacceptedPolicy => 15,
        PkiFailureInfo::UnacceptedExtension => 16,
        PkiFailureInfo::AddInfoNotAvailable => 17,
        PkiFailureInfo::SystemFailure => 25,
    }
}

/// The octets of the contents of the status `i`.
pub open spec fn status_octets(i: PkiStatusInfoView) -> Seq<u8> {
    encode::tlv(0x02, seq![status_code(i.status)]) + (der_laws::opt_tlv(
        0x30,
        match i.status_string {
            Some(v) => Some(der_laws::tlvs(0x0c, v)),
            None => None,
        },
    ) + der_laws::opt_tlv(
        0x02,
        match i.fail_info {
            Some(f) => Some(seq![failure_code(f)]),
            None => None,
        },
    ))
}

/// Whether the strings of the status `i` are such.
pub open spec fn is_status(i: PkiStatusInfoView) -> bool {
    &&& i.status_string matches Some(v) ==> item_laws::are_strings(v) && der_laws::is_short(
        der_laws::tlvs(0x0c, v),
    )
    &&& der_laws::is_short(status_octets(i))
}

/// Optional free text is read with all its octets.
proof fn lemma_opt_free_text_read(s: Seq<u8>)
    ensures
        rfc3161::opt_free_text(s) matches Some((o, rest)) ==> s == der_laws::opt_tlv(
            0x30,
            match o {
                Some(v) => Some(der_laws::tlvs(0x0c, v)),
                None => None,
            },
        ) + rest && (o matches Some(v) ==> item_laws::are_strings(v) && der_laws::is_short(
            der_laws::tlvs(0x0c, v),
        )),
{
    item_laws::law_sequence_read(s);
    if let Some((Some(c), rest)) = der::opt_constructed(s, der::SEQUENCE) {
        item_laws::law_free_text_read(c);
    }
}

/// An optional reason for a failure is read by its code.
proof fn lemma_opt_failure_read(s: Seq<u8>)
    ensures
        rfc3161::opt_failure(s) matches Some((o, rest)) ==> s == der_laws::opt_tlv(
            0x02,
            match o {
                Some(f) => Some(seq![failure_code(f)]),
                None => None,
            },
        ) + rest,
{
    der_laws::law_primitive_read(s, der::INTEGER);
    if let Some((Some(f), rest)) = rfc3161::opt_failure(s) {
        let c = (der::opt_primitive(s, der::INTEGER)->0).0->0;
        assert(c =~= seq![failure_code(f)]);
    }
}

/// Reading a status loses nothing.
pub proof fn law_status_read(c: Seq<u8>)
    requires
        der_laws::is_short(c),
    ensures
        rfc3161::status_info_content(c) matches Some(i) ==> c == status_octets(i) && is_status(i),
{
    if let Some(i) = rfc3161::status_info_content(c) {
        let c1 = (der::small_integer(c)->0).1;
        let c2 = (rfc3161::opt_free_text(c1)->0).1;
        let (f, c3) = rfc3161::opt_failure(c2)->0;
        let code = (der::primitive(c, der::INTEGER)->0).0;
        der_laws::law_primitive_read(c, der::INTEGER);
        assert(code =~= seq![status_code(i.status)]);
        lemma_opt_free_text_read(c1);
        lemma_opt_failure_read(c2);
        let last = der_laws::opt_tlv(
            0x02,
            match i.fail_info {
                Some(f) => Some(seq![failure_code(f)]),
                None => None,
            },
        );
        assert(c2 =~= last);
        assert(c == status_octets(i));
    }
}

/// A written reason for a failure is read back.
proof fn lemma_opt_failure_read_back(f: Option<PkiFailureInfo>)
    ensures
        ({
            let c = der_laws::opt_tlv(
                0x02,
                match f {
                    Some(f) => Some(seq![failure_code(f)]),
                    None => None,
                },
            );
            &&& rfc3161::opt_failure(c) == Some((f, Seq::<u8>::empty()))
            &&& der_laws::starts_without(c, 0x10)
        }),
{
    let none = Seq::<u8>::empty();
    let failure = match f {
        Some(f) => Some(seq![failure_code(f)]),
        None => None,
    };
    let c = der_laws::opt_tlv(0x02, failure);
    assert(c + none =~= c);
    der_laws::lemma_starts(0x02, failure, none);
    der_laws::law_primitive_read_back(der::INTEGER, failure, none);
}

/// Written free text is read back.
proof fn lemma_opt_free_text_read_back(text: Option<Seq<Seq<u8>>>, rest: Seq<u8>)
    requires
        text matches Some(v) ==> item_laws::are_strings(v) && der_laws::is_short(
            der_laws::tlvs(0x0c, v),
        ),
        text is None ==> der_laws::starts_without(rest, 0x10),
    ensures
        rfc3161::opt_free_text(
            der_laws::opt_tlv(
                0x30,
                match text {
                    Some(v) => Some(der_laws::tlvs(0x0c, v)),
                    None => None,
                },
            ) + rest,
        ) == Some((text, rest)),
{
    let octets = match text {
        Some(v) => Some(der_laws::tlvs(0x0c, v)),
        None => None,
    };
    item_laws::law_sequence_read_back(octets, rest);
    if let Some(v) = text {
        item_laws::law_free_text_read_back(v);
    }
}

/// A written code is read back.
proof fn lemma_code_read_back(status: PkiStatus, rest: Seq<u8>)
    ensures
        der::small_integer(encode::tlv(0x02, seq![status_code(status)]) + rest) == Some(
            (status_code(status), rest),
        ),
        rfc3161::status_from(status_code(status)) == Some(status),
{
    der_laws::law_primitive_read_back(der::INTEGER, Some(seq![status_code(status)]), rest);
}

/// A status is read part by part.
proof fn lemma_status_parts(c: Seq<u8>, c1: Seq<u8>, c2: Seq<u8>, code: u8, i: PkiStatusInfoView)
    requires
        der::small_integer(c) == Some((code, c1)),
        rfc3161::status_from(code) == Some(i.status),
        rfc3161::opt_free_text(c1) == Some((i.status_string, c2)),
        rfc3161::opt_failure(c2) == Some((i.fail_info, Seq::<u8>::empty())),
    ensures
        rfc3161::status_info_content(c) == Some(i),
{
}

/// A written status is read back.
pub proof fn law_status_read_back(i: PkiStatusInfoView)
    requires
        is_status(i),
    ensures
        rfc3161::status_info_content(status_octets(i)) == Some(i),
{
    let c2 = der_laws::opt_tlv(
        0x02,
        match i.fail_info {
            Some(f) => Some(seq![failure_code(f)]),
            None => None,
        },
    );
    let c1 = der_laws::opt_tlv(
        0x30,
        match i.status_string {
            Some(v) => Some(der_laws::tlvs(0x0c, v)),
            None => None,
        },
    ) + c2;
    lemma_opt_failure_read_back(i.fail_info);
    lemma_opt_free_text_read_back(i.status_string, c2);
    lemma_code_read_back(i.status, c1);
    lemma_status_parts(status_octets(i), c1, c2, status_code(i.status), i);
}

/// The octets of the contents of a content info.
pub open spec fn content_info_octets(i: ContentInfoView) -> Seq<u8> {
    encode::tlv(0x06, i.content_type) + encode::tlv(0xa0, i.content)
}

/// Whether the content info `i` is an object identifier with values.
pub open spec fn is_content_info(i: ContentInfoView) -> bool {
    &&& der::is_oid(i.content_type)
    &&& der::all_values(i.content)
    &&& der_laws::is_short(content_info_octets(i))
}

/// Reading a content info loses nothing.
pub proof fn law_content_info_read(c: Seq<u8>)
    requires
        der_laws::is_short(c),
    ensures
        rfc5652::content_info_content(c) matches Some(i) ==> c == content_info_octets(i)
            && is_content_info(i),
{
    if let Some(i) = rfc5652::content_info_content(c) {
        let c1 = (der::oid(c)->0).1;
        item_laws::law_oid_read(c);
        der_laws::law_constructed_read(c1, der::CTX_0);
        assert(c1 =~= encode::tlv(0xa0, i.content));
    }
}

/// A written content info is read back.
pub proof fn law_content_info_read_back(i: ContentInfoView)
    requires
        is_content_info(i),
    ensures
        rfc5652::content_info_content(content_info_octets(i)) == Some(i),
{
    let content = encode::tlv(0xa0, i.content);
    item_laws::law_oid_read_back(Some(i.content_type), content);
    der_laws::law_constructed_read_back(der::CTX_0, Some(i.content), Seq::empty());
    assert(content + Seq::<u8>::empty() =~= content);
}

/// The octets of the contents of the response `r`.
pub open spec fn response_octets(r: TimeStampRespView) -> Seq<u8> {
    encode::tlv(0x30, status_octets(r.status)) + der_laws::opt_tlv(
        0x30,
        match r.time_stamp_token {
            Some(i) => Some(content_info_octets(i)),
            None => None,
        },
    )
}

/// Whether the parts of the response `r` are what they should be.
pub open spec fn is_response(r: TimeStampRespView) -> bool {
    &&& is_status(r.status)
    &&& r.time_stamp_token matches Some(i) ==> is_content_info(i)
    &&& der_laws::is_short(response_octets(r))
}

/// Reading a response loses nothing: it stands at the front of what was read, its status and its
/// token with all their octets.
pub proof fn law_response_read(s: Seq<u8>)
    ensures
        rfc3161::response(s) matches Some(r) ==> exists|rest: Seq<u8>|
            is_response(r) && s == #[trigger] (encode::tlv(0x30, response_octets(r)) + rest),
{
    reveal(rfc3161::response);
    if let Some(r) = rfc3161::response(s) {
        let (c, rest) = der::constructed(s, der::SEQUENCE)->0;
        let (i, c1) = der::constructed(c, der::SEQUENCE)->0;
        let (token, c2) = rfc5652::opt_content_info(c1)->0;
        item_laws::law_sequence_read(s);
        item_laws::law_sequence_read(c);
        law_status_read(i);
        item_laws::law_sequence_read(c1);
        if let Some((Some(t), _)) = der::opt_constructed(c1, der::SEQUENCE) {
            law_content_info_read(t);
        }
        let last = der_laws::opt_tlv(
            0x30,
            match r.time_stamp_token {
                Some(i) => Some(content_info_octets(i)),
                None => None,
            },
        );
        assert(c1 =~= last);
        assert(c == response_octets(r));
        assert(s == encode::tlv(0x30, response_octets(r)) + rest);
    }
}

/// A written response is read back with its status and its token, whatever follows it.
pub proof fn law_response_read_back(r: TimeStampRespView, rest: Seq<u8>)
    requires
        is_response(r),
    ensures
        rfc3161::response(encode::tlv(0x30, response_octets(r)) + rest) == Some(r),
{
    reveal(rfc3161::response);
    let none = Seq::<u8>::empty();
    let token = match r.time_stamp_token {
        Some(i) => Some(content_info_octets(i)),
        None => None,
    };
    let c1 = der_laws::opt_tlv(0x30, token);
    assert(c1 + none =~= c1);
    item_laws::law_sequence_read_back(Some(response_octets(r)), rest);
    item_laws::law_sequence_read_back(Some(status_octets(r.status)), c1);
    law_status_read_back(r.status);
    item_laws::law_sequence_read_back(token, none);
    if let Some(i) = r.time_stamp_token {
        law_content_info_read_back(i);
    }
    assert(rfc5652::opt_content_info(c1) == Some((r.time_stamp_token, none)));
    assert(rfc3161::status_info(response_octets(r)) == Some((r.status, c1)));
}

} // verus!
