//! What holds of algorithms, extensions, attributes and lists of them as they are written and read.
use crate::der;
use crate::der_laws;
use crate::encode;
use crate::rfc3161;
use crate::outside;
use crate::x509;
use crate::x509::{AlgorithmIdentifierView, AttributeView, ExtensionView};
use vstd::prelude::*;

verus! {

/// The contents of a BOOLEAN, if there is one.
pub open spec fn boolean_octets(b: Option<bool>) -> Option<Seq<u8>> {
    match b {
        Some(true) => Some(seq![0xffu8]),
        Some(false) => Some(seq![0x00u8]),
        None => None,
    }
}

/// The octets of an algorithm identifier's contents: its object identifier and its parameters.
pub open spec fn algorithm_octets(a: AlgorithmIdentifierView) -> Seq<u8> {
    encode::tlv(0x06, a.algorithm) + match a.parameters {
        Some(p) => p,
        None => Seq::empty(),
    }
}

/// Whether `a` is an object identifier with parameters that are values.
pub open spec fn is_algorithm(a: AlgorithmIdentifierView) -> bool {
    &&& der::is_oid(a.algorithm)
    &&& der_laws::is_short(a.algorithm)
    &&& a.parameters matches Some(p) ==> p.len() > 0 && der::all_values(p)
}

/// The octets of an extension's contents: its object identifier, whether it is critical, its value.
pub open spec fn extension_octets(e: ExtensionView) -> Seq<u8> {
    encode::tlv(0x06, e.id) + (der_laws::opt_tlv(0x01, boolean_octets(e.critical)) + encode::tlv(
        0x04,
        e.value,
    ))
}

/// The octets of an attribute's contents: its object identifier and the SET of its values.
pub open spec fn attribute_octets(a: AttributeView) -> Seq<u8> {
    encode::tlv(0x06, a.typ) + encode::tlv(0x31, a.values)
}

/// An INTEGER, if it is there, is read with all its octets.
pub proof fn law_integer_read(s: Seq<u8>)
    ensures
        der::integer(s) matches Some((v, rest)) ==> s == encode::tlv(0x02, v) + rest
            && der::is_integer(v) && der_laws::is_short(v),
        der::opt_integer(s) matches Some((o, rest)) ==> s == der_laws::opt_tlv(0x02, o) + rest && (
        o matches Some(v) ==> der::is_integer(v) && der_laws::is_short(v)),
{
    der_laws::law_primitive_read(s, der::INTEGER);
}

/// A written INTEGER is read back.
pub proof fn law_integer_read_back(o: Option<Seq<u8>>, rest: Seq<u8>)
    requires
        o matches Some(v) ==> der::is_integer(v) && der_laws::is_short(v),
        o is None ==> der_laws::starts_without(rest, 0x02),
    ensures
        der::opt_integer(der_laws::opt_tlv(0x02, o) + rest) == Some((o, rest)),
        o matches Some(v) ==> der::integer(encode::tlv(0x02, v) + rest) == Some((v, rest)),
{
    der_laws::law_primitive_read_back(der::INTEGER, o, rest);
}

/// An OBJECT IDENTIFIER, if it is there, is read with all its octets.
pub proof fn law_oid_read(s: Seq<u8>)
    ensures
        der::oid(s) matches Some((v, rest)) ==> s == encode::tlv(0x06, v) + rest && der::is_oid(v)
            && der_laws::is_short(v),
        der::opt_oid(s) matches Some((o, rest)) ==> s == der_laws::opt_tlv(0x06, o) + rest && (
        o matches Some(v) ==> der::is_oid(v) && der_laws::is_short(v)),
{
    der_laws::law_primitive_read(s, der::OBJECT_IDENTIFIER);
}

/// A written OBJECT IDENTIFIER is read back.
pub proof fn law_oid_read_back(o: Option<Seq<u8>>, rest: Seq<u8>)
    requires
        o matches Some(v) ==> der::is_oid(v) && der_laws::is_short(v),
        o is None ==> der_laws::starts_without(rest, 0x06),
    ensures
        der::opt_oid(der_laws::opt_tlv(0x06, o) + rest) == Some((o, rest)),
        o matches Some(v) ==> der::oid(encode::tlv(0x06, v) + rest) == Some((v, rest)),
{
    der_laws::law_primitive_read_back(der::OBJECT_IDENTIFIER, o, rest);
}

/// An OCTET STRING is read with all its octets.
pub proof fn law_octets_read(s: Seq<u8>)
    ensures
        der::octets(s) matches Some((v, rest)) ==> s == encode::tlv(0x04, v) + rest
            && der_laws::is_short(v),
{
    der_laws::law_primitive_read(s, der::OCTET_STRING);
}

/// A written OCTET STRING is read back.
pub proof fn law_octets_read_back(v: Seq<u8>, rest: Seq<u8>)
    requires
        der_laws::is_short(v),
    ensures
        der::octets(encode::tlv(0x04, v) + rest) == Some((v, rest)),
{
    der_laws::law_primitive_read_back(der::OCTET_STRING, Some(v), rest);
}

/// A BOOLEAN, if it is there, has one octet, all ones for true and all zeros for false.
pub proof fn law_boolean_read(s: Seq<u8>)
    ensures
        der::opt_boolean(s) matches Some((b, rest)) ==> s == der_laws::opt_tlv(
            0x01,
            boolean_octets(b),
        ) + rest,
{
    der_laws::law_primitive_read(s, der::BOOLEAN);
    if let Some((b, rest)) = der::opt_boolean(s) {
        if let Some((Some(c), _)) = der::opt_primitive(s, der::BOOLEAN) {
            assert(c =~= boolean_octets(b)->0);
        }
    }
}

/// A written BOOLEAN is read back.
pub proof fn law_boolean_read_back(b: Option<bool>, rest: Seq<u8>)
    requires
        b is None ==> der_laws::starts_without(rest, 0x01),
    ensures
        der::opt_boolean(der_laws::opt_tlv(0x01, boolean_octets(b)) + rest) == Some((b, rest)),
{
    der_laws::law_primitive_read_back(der::BOOLEAN, boolean_octets(b), rest);
}

/// A SEQUENCE is read with all its contents.
pub proof fn law_sequence_read(s: Seq<u8>)
    ensures
        der::constructed(s, der::SEQUENCE) matches Some((c, rest)) ==> s == encode::tlv(0x30, c)
            + rest && der_laws::is_short(c),
        der::opt_constructed(s, der::SEQUENCE) matches Some((o, rest)) ==> s == der_laws::opt_tlv(
            0x30,
            o,
        ) + rest && der_laws::is_opt_short(o),
{
    der_laws::law_constructed_read(s, der::SEQUENCE);
}

/// A written SEQUENCE is read back.
pub proof fn law_sequence_read_back(o: Option<Seq<u8>>, rest: Seq<u8>)
    requires
        der_laws::is_opt_short(o),
        o is None ==> der_laws::starts_without(rest, 0x10),
    ensures
        der::opt_constructed(der_laws::opt_tlv(0x30, o) + rest, der::SEQUENCE) == Some((o, rest)),
        o matches Some(c) ==> der::constructed(encode::tlv(0x30, c) + rest, der::SEQUENCE) == Some(
            (c, rest),
        ),
{
    der_laws::law_constructed_read_back(der::SEQUENCE, o, rest);
}

/// An algorithm identifier is read with all its octets.
pub proof fn law_algorithm_read(s: Seq<u8>)
    ensures
        x509::algorithm_content(s) matches Some(a) ==> s == algorithm_octets(a) && is_algorithm(a),
        x509::algorithm(s) matches Some((a, rest)) ==> s == encode::tlv(0x30, algorithm_octets(a))
            + rest && is_algorithm(a) && der_laws::is_short(algorithm_octets(a)),
{
    law_algorithm_content_read(s);
    law_sequence_read(s);
    if let Some((c, rest)) = der::constructed(s, der::SEQUENCE) {
        law_algorithm_content_read(c);
    }
}

proof fn law_algorithm_content_read(c: Seq<u8>)
    ensures
        x509::algorithm_content(c) matches Some(a) ==> c == algorithm_octets(a) && is_algorithm(a),
{
    law_oid_read(c);
    if let Some(a) = x509::algorithm_content(c) {
        assert(c =~= algorithm_octets(a));
    }
}

/// A written algorithm identifier is read back.
pub proof fn law_algorithm_read_back(a: AlgorithmIdentifierView, rest: Seq<u8>)
    requires
        is_algorithm(a),
        der_laws::is_short(algorithm_octets(a)),
    ensures
        x509::algorithm_content(algorithm_octets(a)) == Some(a),
        x509::algorithm(encode::tlv(0x30, algorithm_octets(a)) + rest) == Some((a, rest)),
{
    let parameters = match a.parameters {
        Some(p) => p,
        None => Seq::empty(),
    };
    law_oid_read_back(Some(a.algorithm), parameters);
    law_sequence_read_back(Some(algorithm_octets(a)), rest);
}

/// An extension is read with all its octets.
pub proof fn law_extension_read(c: Seq<u8>)
    ensures
        x509::extension_content(c) matches Some(e) ==> c == extension_octets(e) && der::is_oid(
            e.id,
        ) && der_laws::is_short(e.id) && der_laws::is_short(e.value),
{
    if let Some(e) = x509::extension_content(c) {
        let c1 = (der::oid(c)->0).1;
        let (b, c2) = der::opt_boolean(c1)->0;
        let (v, c3) = der::octets(c2)->0;
        law_oid_read(c);
        law_boolean_read(c1);
        law_octets_read(c2);
        assert(c2 =~= encode::tlv(0x04, e.value));
    }
}

/// A written extension is read back.
pub proof fn law_extension_read_back(e: ExtensionView)
    requires
        der::is_oid(e.id),
        der_laws::is_short(e.id),
        der_laws::is_short(e.value),
    ensures
        x509::extension_content(extension_octets(e)) == Some(e),
{
    let value = encode::tlv(0x04, e.value);
    law_oid_read_back(Some(e.id), der_laws::opt_tlv(0x01, boolean_octets(e.critical)) + value);
    assert(value[0] == 0x04);
    law_boolean_read_back(e.critical, value);
    law_octets_read_back(e.value, Seq::empty());
    assert(value + Seq::<u8>::empty() =~= value);
}

/// An attribute is read with all its octets.
pub proof fn law_attribute_read(c: Seq<u8>)
    ensures
        x509::attribute_content(c) matches Some(a) ==> c == attribute_octets(a) && der::is_oid(
            a.typ,
        ) && der_laws::is_short(a.typ) && der_laws::is_short(a.values) && der::all_values(a.values),
{
    if let Some(a) = x509::attribute_content(c) {
        let c1 = (der::oid(c)->0).1;
        law_oid_read(c);
        der_laws::law_constructed_read(c1, der::SET);
        assert(c1 =~= encode::tlv(0x31, a.values));
    }
}

/// A written attribute is read back.
pub proof fn law_attribute_read_back(a: AttributeView)
    requires
        der::is_oid(a.typ),
        der_laws::is_short(a.typ),
        der_laws::is_short(a.values),
        der::all_values(a.values),
    ensures
        x509::attribute_content(attribute_octets(a)) == Some(a),
{
    let values = encode::tlv(0x31, a.values);
    law_oid_read_back(Some(a.typ), values);
    der_laws::law_constructed_read_back(der::SET, Some(a.values), Seq::empty());
    assert(values + Seq::<u8>::empty() =~= values);
}

/// Whether `c` are the contents of an algorithm identifier `item`, and short enough for a length field.
#[verifier::opaque]
pub open spec fn is_algorithm_content(c: Seq<u8>, item: AlgorithmIdentifierView) -> bool {
    der_laws::is_short(c) && x509::algorithm_content(c) == Some(item)
}

/// Whether `contents` are those of the items `v`, in order.
pub open spec fn are_algorithms(contents: Seq<Seq<u8>>, v: Seq<AlgorithmIdentifierView>) -> bool {
    &&& contents.len() == v.len()
    &&& forall|k: int| 0 <= k < v.len() ==> #[trigger] is_algorithm_content(contents[k], v[k])
}

/// Whether `c` are the contents of an extension `item`, and short enough for a length field.
#[verifier::opaque]
pub open spec fn is_extension_content(c: Seq<u8>, item: ExtensionView) -> bool {
    der_laws::is_short(c) && x509::extension_content(c) == Some(item)
}

/// Whether `contents` are those of the items `v`, in order.
pub open spec fn are_extensions(contents: Seq<Seq<u8>>, v: Seq<ExtensionView>) -> bool {
    &&& contents.len() == v.len()
    &&& forall|k: int| 0 <= k < v.len() ==> #[trigger] is_extension_content(contents[k], v[k])
}

/// Whether `c` are the contents of an attribute `item`, and short enough for a length field.
#[verifier::opaque]
pub open spec fn is_attribute_content(c: Seq<u8>, item: AttributeView) -> bool {
    der_laws::is_short(c) && x509::attribute_content(c) == Some(item)
}

/// Whether `contents` are those of the items `v`, in order.
pub open spec fn are_attributes(contents: Seq<Seq<u8>>, v: Seq<AttributeView>) -> bool {
    &&& contents.len() == v.len()
    &&& forall|k: int| 0 <= k < v.len() ==> #[trigger] is_attribute_content(contents[k], v[k])
}

/// Whether `v` are strings that are accepted.
pub open spec fn are_strings(v: Seq<Seq<u8>>) -> bool {
    forall|k: int|
        0 <= k < v.len() ==> der_laws::is_short(#[trigger] v[k]) && outside::utf8_accepted(v[k])
}

/// The first item of a list is read first.
proof fn lemma_algorithms_step(c: Seq<u8>, item: AlgorithmIdentifierView, after: Seq<u8>)
    requires
        is_algorithm_content(c, item),
    ensures
        x509::algorithms(encode::tlv(0x30, c) + after) == match x509::algorithms(after) {
            Some(tail) => Some(seq![item] + tail),
            None => None,
        },
{
    reveal(is_algorithm_content);
    law_sequence_read_back(Some(c), after);
}

/// A list that is not empty starts with an item.
proof fn lemma_algorithms_split(s: Seq<u8>) -> (res: (Seq<u8>, Seq<u8>))
    requires
        x509::algorithms(s) is Some,
        s.len() > 0,
    ensures
        s == encode::tlv(0x30, res.0) + res.1,
        res.1.len() < s.len(),
        x509::algorithms(s)->0.len() > 0,
        is_algorithm_content(res.0, (x509::algorithms(s)->0)[0]),
        x509::algorithms(res.1) == Some((x509::algorithms(s)->0).skip(1)),
{
    reveal(is_algorithm_content);
    law_sequence_read(s);
    let (o, after) = der::opt_constructed(s, der::SEQUENCE)->0;
    let c = o->0;
    let v = x509::algorithms(s)->0;
    let tail = x509::algorithms(after)->0;
    assert(v.skip(1) =~= tail);
    (c, after)
}

/// A list of algorithm identifiers is read to its end, each of them in its place.
pub proof fn law_algorithms_read(s: Seq<u8>)
    ensures
        x509::algorithms(s) matches Some(v) ==> exists|contents: Seq<Seq<u8>>| #[trigger]
            are_algorithms(contents, v) && s == der_laws::tlvs(0x30, contents),
    decreases s.len(),
{
    if let Some(v) = x509::algorithms(s) {
        if s.len() > 0 {
            let (c, after) = lemma_algorithms_split(s);
            law_algorithms_read(after);
            let rest = choose|rest: Seq<Seq<u8>>| #[trigger]
                are_algorithms(rest, v.skip(1)) && after == der_laws::tlvs(0x30, rest);
            der_laws::lemma_tlvs_first(0x30, c, rest);
            let all = seq![c] + rest;
            assert forall|k: int| 0 <= k < v.len() implies #[trigger] is_algorithm_content(
                all[k],
                v[k],
            ) by {
                if k > 0 {
                    assert(is_algorithm_content(rest[k - 1], v.skip(1)[k - 1]));
                }
            }
            assert(are_algorithms(all, v));
        } else {
            let none = Seq::<Seq<u8>>::empty();
            assert(s =~= der_laws::tlvs(0x30, none));
            assert(are_algorithms(none, v));
        }
    }
}

/// A written list of algorithm identifiers is read back.
pub proof fn law_algorithms_read_back(contents: Seq<Seq<u8>>, v: Seq<AlgorithmIdentifierView>)
    requires
        are_algorithms(contents, v),
    ensures
        x509::algorithms(der_laws::tlvs(0x30, contents)) == Some(v),
    decreases v.len(),
{
    if v.len() == 0 {
        assert(v =~= Seq::empty());
    } else {
        let rest = contents.skip(1);
        assert(is_algorithm_content(contents[0], v[0]));
        lemma_algorithms_step(contents[0], v[0], der_laws::tlvs(0x30, rest));
        assert forall|k: int| 0 <= k < v.len() - 1 implies #[trigger] is_algorithm_content(
            rest[k],
            v.skip(1)[k],
        ) by {
            assert(is_algorithm_content(contents[k + 1], v[k + 1]));
        }
        law_algorithms_read_back(rest, v.skip(1));
        assert(seq![v[0]] + v.skip(1) =~= v);
    }
}

/// The first item of a list is read first.
proof fn lemma_extensions_step(c: Seq<u8>, item: ExtensionView, after: Seq<u8>)
    requires
        is_extension_content(c, item),
    ensures
        x509::extensions(encode::tlv(0x30, c) + after) == match x509::extensions(after) {
            Some(tail) => Some(seq![item] + tail),
            None => None,
        },
{
    reveal(is_extension_content);
    law_sequence_read_back(Some(c), after);
}

/// A list that is not empty starts with an item.
proof fn lemma_extensions_split(s: Seq<u8>) -> (res: (Seq<u8>, Seq<u8>))
    requires
        x509::extensions(s) is Some,
        s.len() > 0,
    ensures
        s == encode::tlv(0x30, res.0) + res.1,
        res.1.len() < s.len(),
        x509::extensions(s)->0.len() > 0,
        is_extension_content(res.0, (x509::extensions(s)->0)[0]),
        x509::extensions(res.1) == Some((x509::extensions(s)->0).skip(1)),
{
    reveal(is_extension_content);
    law_sequence_read(s);
    let (o, after) = der::opt_constructed(s, der::SEQUENCE)->0;
    let c = o->0;
    let v = x509::extensions(s)->0;
    let tail = x509::extensions(after)->0;
    assert(v.skip(1) =~= tail);
    (c, after)
}

/// A list of extensions is read to its end, each of them in its place.
pub proof fn law_extensions_read(s: Seq<u8>)
    ensures
        x509::extensions(s) matches Some(v) ==> exists|contents: Seq<Seq<u8>>| #[trigger]
            are_extensions(contents, v) && s == der_laws::tlvs(0x30, contents),
    decreases s.len(),
{
    if let Some(v) = x509::extensions(s) {
        if s.len() > 0 {
            let (c, after) = lemma_extensions_split(s);
            law_extensions_read(after);
            let rest = choose|rest: Seq<Seq<u8>>| #[trigger]
                are_extensions(rest, v.skip(1)) && after == der_laws::tlvs(0x30, rest);
            der_laws::lemma_tlvs_first(0x30, c, rest);
            let all = seq![c] + rest;
            assert forall|k: int| 0 <= k < v.len() implies #[trigger] is_extension_content(
                all[k],
                v[k],
            ) by {
                if k > 0 {
                    assert(is_extension_content(rest[k - 1], v.skip(1)[k - 1]));
                }
            }
            assert(are_extensions(all, v));
        } else {
            let none = Seq::<Seq<u8>>::empty();
            assert(s =~= der_laws::tlvs(0x30, none));
            assert(are_extensions(none, v));
        }
    }
}

/// A written list of extensions is read back.
pub proof fn law_extensions_read_back(contents: Seq<Seq<u8>>, v: Seq<ExtensionView>)
    requires
        are_extensions(contents, v),
    ensures
        x509::extensions(der_laws::tlvs(0x30, contents)) == Some(v),
    decreases v.len(),
{
    if v.len() == 0 {
        assert(v =~= Seq::empty());
    } else {
        let rest = contents.skip(1);
        assert(is_extension_content(contents[0], v[0]));
        lemma_extensions_step(contents[0], v[0], der_laws::tlvs(0x30, rest));
        assert forall|k: int| 0 <= k < v.len() - 1 implies #[trigger] is_extension_content(
            rest[k],
            v.skip(1)[k],
        ) by {
            assert(is_extension_content(contents[k + 1], v[k + 1]));
        }
        law_extensions_read_back(rest, v.skip(1));
        assert(seq![v[0]] + v.skip(1) =~= v);
    }
}

/// The first of some attributes is read first.
proof fn lemma_attributes_step(c: Seq<u8>, item: AttributeView, after: Seq<u8>)
    requires
        is_attribute_content(c, item),
    ensures
        x509::attributes(encode::tlv(0x30, c) + after) == match x509::attributes(after) {
            Some((tail, end)) => Some((seq![item] + tail, end)),
            None => None,
        },
{
    reveal(is_attribute_content);
    law_sequence_read_back(Some(c), after);
}

/// Attributes, where there are any, start with one.
proof fn lemma_attributes_split(s: Seq<u8>) -> (res: (Seq<u8>, Seq<u8>))
    requires
        x509::attributes(s) is Some,
        (x509::attributes(s)->0).0.len() > 0,
    ensures
        s == encode::tlv(0x30, res.0) + res.1,
        res.1.len() < s.len(),
        is_attribute_content(res.0, (x509::attributes(s)->0).0[0]),
        x509::attributes(res.1) == Some(
            ((x509::attributes(s)->0).0.skip(1), (x509::attributes(s)->0).1),
        ),
{
    reveal(is_attribute_content);
    law_sequence_read(s);
    let (o, after) = der::opt_constructed(s, der::SEQUENCE)->0;
    let c = o->0;
    let v = (x509::attributes(s)->0).0;
    let tail = (x509::attributes(after)->0).0;
    assert(v.skip(1) =~= tail);
    (c, after)
}

proof fn lemma_append(a: Seq<u8>, b: Seq<u8>, c: Seq<u8>)
    ensures
        (a + b) + c == a + (b + c),
{
    assert((a + b) + c =~= a + (b + c));
}

/// A value of another kind ends attributes.
proof fn lemma_attributes_end(rest: Seq<u8>)
    requires
        der_laws::starts_without(rest, 0x10),
    ensures
        x509::attributes(rest) == Some((Seq::<AttributeView>::empty(), rest)),
{
}

/// Where there are no attributes, nothing was read.
proof fn lemma_attributes_none(s: Seq<u8>)
    requires
        x509::attributes(s) matches Some((v, _)) && v.len() == 0,
    ensures
        x509::attributes(s)->0 == (Seq::<AttributeView>::empty(), s),
{
}

/// Attributes are read up to a value of another kind, each of them in its place.
pub proof fn law_attributes_read(s: Seq<u8>)
    ensures
        x509::attributes(s) matches Some((v, rest)) ==> exists|contents: Seq<Seq<u8>>| #[trigger]
            are_attributes(contents, v) && s == der_laws::tlvs(0x30, contents) + rest,
    decreases s.len(),
{
    if x509::attributes(s) is Some {
        let v = (x509::attributes(s)->0).0;
        let end = (x509::attributes(s)->0).1;
        if v.len() > 0 {
            let (c, after) = lemma_attributes_split(s);
            law_attributes_read(after);
            let rest = choose|rest: Seq<Seq<u8>>| #[trigger]
                are_attributes(rest, v.skip(1)) && after == der_laws::tlvs(0x30, rest) + end;
            der_laws::lemma_tlvs_first(0x30, c, rest);
            let all = seq![c] + rest;
            assert forall|k: int| 0 <= k < v.len() implies #[trigger] is_attribute_content(
                all[k],
                v[k],
            ) by {
                if k > 0 {
                    assert(is_attribute_content(rest[k - 1], v.skip(1)[k - 1]));
                }
            }
            assert(are_attributes(all, v));
            lemma_append(encode::tlv(0x30, c), der_laws::tlvs(0x30, rest), end);
        } else {
            let none = Seq::<Seq<u8>>::empty();
            lemma_attributes_none(s);
            assert(s =~= der_laws::tlvs(0x30, none) + end);
            assert(are_attributes(none, v));
        }
    }
}

/// Written attributes are read back, up to a value of another kind.
pub proof fn law_attributes_read_back(
    contents: Seq<Seq<u8>>,
    v: Seq<AttributeView>,
    rest: Seq<u8>,
)
    requires
        are_attributes(contents, v),
        der_laws::starts_without(rest, 0x10),
    ensures
        x509::attributes(der_laws::tlvs(0x30, contents) + rest) == Some((v, rest)),
    decreases v.len(),
{
    if v.len() == 0 {
        assert(v =~= Seq::empty());
        assert(der_laws::tlvs(0x30, contents) + rest =~= rest);
        lemma_attributes_end(rest);
    } else {
        let others = contents.skip(1);
        let after = der_laws::tlvs(0x30, others) + rest;
        lemma_append(encode::tlv(0x30, contents[0]), der_laws::tlvs(0x30, others), rest);
        assert(is_attribute_content(contents[0], v[0]));
        lemma_attributes_step(contents[0], v[0], after);
        assert forall|k: int| 0 <= k < v.len() - 1 implies #[trigger] is_attribute_content(
            others[k],
            v.skip(1)[k],
        ) by {
            assert(is_attribute_content(contents[k + 1], v[k + 1]));
        }
        law_attributes_read_back(others, v.skip(1), rest);
        assert(seq![v[0]] + v.skip(1) =~= v);
    }
}

/// Free text, where there is any, starts with a string.
proof fn lemma_free_text_split(s: Seq<u8>) -> (after: Seq<u8>)
    requires
        rfc3161::free_text(s) is Some,
        s.len() > 0,
    ensures
        rfc3161::free_text(s)->0.len() > 0,
        s == encode::tlv(0x0c, (rfc3161::free_text(s)->0)[0]) + after,
        after.len() < s.len(),
        der_laws::is_short((rfc3161::free_text(s)->0)[0]),
        outside::utf8_accepted((rfc3161::free_text(s)->0)[0]),
        rfc3161::free_text(after) == Some((rfc3161::free_text(s)->0).skip(1)),
{
    der_laws::law_primitive_read(s, der::UTF8_STRING);
    let (o, after) = der::opt_primitive(s, der::UTF8_STRING)->0;
    let v = rfc3161::free_text(s)->0;
    let tail = rfc3161::free_text(after)->0;
    assert(v.skip(1) =~= tail);
    after
}

/// Free text is read to its end, each string in its place.
pub proof fn law_free_text_read(s: Seq<u8>)
    ensures
        rfc3161::free_text(s) matches Some(v) ==> are_strings(v) && s == der_laws::tlvs(0x0c, v),
    decreases s.len(),
{
    if let Some(v) = rfc3161::free_text(s) {
        if s.len() > 0 {
            let after = lemma_free_text_split(s);
            law_free_text_read(after);
            assert forall|k: int| 0 <= k < v.len() implies der_laws::is_short(#[trigger] v[k])
                && outside::utf8_accepted(v[k]) by {
                if k > 0 {
                    assert(v.skip(1)[k - 1] == v[k]);
                }
            }
        } else {
            assert(s =~= der_laws::tlvs(0x0c, v));
        }
    }
}

/// Written free text is read back.
pub proof fn law_free_text_read_back(v: Seq<Seq<u8>>)
    requires
        are_strings(v),
    ensures
        rfc3161::free_text(der_laws::tlvs(0x0c, v)) == Some(v),
    decreases v.len(),
{
    if v.len() == 0 {
        assert(v =~= Seq::empty());
    } else {
        let after = der_laws::tlvs(0x0c, v.skip(1));
        der_laws::law_primitive_read_back(der::UTF8_STRING, Some(v[0]), after);
        assert forall|k: int| 0 <= k < v.len() - 1 implies der_laws::is_short(
            #[trigger] v.skip(1)[k],
        ) && outside::utf8_accepted(v.skip(1)[k]) by {
            assert(v.skip(1)[k] == v[k + 1]);
        }
        law_free_text_read_back(v.skip(1));
        assert(seq![v[0]] + v.skip(1) =~= v);
    }
}

} // verus!
