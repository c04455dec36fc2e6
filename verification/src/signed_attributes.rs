//! Signed attributes as they are signed.
use crate::der;
use crate::encode;
use crate::rfc5652;
use crate::rfc5652::SignerInfoView;
use crate::x509;
use crate::x509::{Attribute, AttributeView};
use vstd::prelude::*;

verus! {

/// The contents of the encoded attribute `a`.
pub open spec fn attribute_content_encoding(a: AttributeView) -> Seq<u8> {
    encode::tlv(der::OBJECT_IDENTIFIER, a.typ) + encode::tlv(
        encode::constructed_id(der::SET),
        a.values,
    )
}

/// The encoded attribute `a`.
pub open spec fn attribute_encoding(a: AttributeView) -> Seq<u8> {
    encode::tlv(encode::constructed_id(der::SEQUENCE), attribute_content_encoding(a))
}

/// The encoded attributes `v`, one behind the other.
pub open spec fn attributes_encoding(v: Seq<AttributeView>) -> Seq<u8>
    decreases v.len(),
{
    if v.len() == 0 {
        Seq::empty()
    } else {
        attributes_encoding(v.drop_last()) + attribute_encoding(v.last())
    }
}

/// What is signed of the attributes `v`: a SET with the attributes in the order in which they
/// stand.
pub open spec fn signed_attributes_der(v: Seq<AttributeView>) -> Seq<u8> {
    encode::tlv(encode::constructed_id(der::SET), attributes_encoding(v))
}

/// Whether the SET of the attributes `v` can be written at all.
pub open spec fn fits(v: Seq<AttributeView>) -> bool {
    attributes_encoding(v).len() <= 0xffff_ffff
}

/// The encoding of the first attributes is a part of the whole.
proof fn lemma_prefix_len(v: Seq<AttributeView>, n: int)
    requires
        0 <= n <= v.len(),
    ensures
        attributes_encoding(v.take(n)).len() <= attributes_encoding(v).len(),
    decreases v.len(),
{
    if n == v.len() {
        assert(v.take(n) =~= v);
    } else {
        lemma_prefix_len(v.drop_last(), n);
        assert(v.drop_last().take(n) =~= v.take(n));
    }
}

/// The first attribute is written first.
proof fn lemma_encoding_first(a: AttributeView, tail: Seq<AttributeView>)
    ensures
        attributes_encoding(seq![a] + tail) == attribute_encoding(a) + attributes_encoding(tail),
    decreases tail.len(),
{
    let v = seq![a] + tail;
    if tail.len() == 0 {
        assert(v.drop_last() =~= Seq::<AttributeView>::empty());
        assert(v.last() == a);
        assert(attributes_encoding(v.drop_last()) =~= Seq::<u8>::empty());
        assert(attributes_encoding(v) =~= attribute_encoding(a) + attributes_encoding(tail));
    } else {
        lemma_encoding_first(a, tail.drop_last());
        assert(v.drop_last() =~= seq![a] + tail.drop_last());
        assert(v.last() == tail.last());
        assert(attributes_encoding(v) =~= attribute_encoding(a) + attributes_encoding(tail));
    }
}

/// An attribute that was read is written with the octets that it was read from.
proof fn lemma_attribute_canonical(c: Seq<u8>)
    ensures
        x509::attribute_content(c) matches Some(a) ==> attribute_content_encoding(a) == c,
{
    if let Some(a) = x509::attribute_content(c) {
        encode::lemma_tlv_canonical(c, der::OBJECT_IDENTIFIER);
        let (typ, c1) = der::oid(c)->0;
        encode::lemma_tlv_canonical(c1, der::SET);
        assert(c1 =~= encode::tlv(encode::constructed_id(der::SET), a.values));
        assert(c =~= attribute_content_encoding(a));
    }
}

/// The attribute at the front of `s` is written with the octets that it was read from.
proof fn lemma_first_canonical(s: Seq<u8>)
    ensures
        der::opt_constructed(s, der::SEQUENCE) matches Some((Some(c), after)) ==> after.len()
            < s.len() && (x509::attribute_content(c) matches Some(a) ==> s == attribute_encoding(a)
            + after),
{
    if let Some((Some(c), after)) = der::opt_constructed(s, der::SEQUENCE) {
        encode::lemma_tlv_canonical(s, der::SEQUENCE);
        encode::lemma_constructed_id(s[0]);
        lemma_attribute_canonical(c);
    }
}

/// Attributes that were read are written with the octets that they were read from.
#[verifier::spinoff_prover]
pub proof fn lemma_attributes_canonical(s: Seq<u8>)
    ensures
        x509::attributes(s) matches Some((v, rest)) ==> s == attributes_encoding(v) + rest,
    decreases s.len(),
{
    lemma_first_canonical(s);
    match der::opt_constructed(s, der::SEQUENCE) {
        Some((Some(c), after)) => {
            if let (Some(a), Some((tail, end))) = (
                x509::attribute_content(c),
                x509::attributes(after),
            ) {
                lemma_attributes_canonical(after);
                lemma_encoding_first(a, tail);
                assert(attribute_encoding(a) + (attributes_encoding(tail) + end) =~= (
                attribute_encoding(a) + attributes_encoding(tail)) + end);
            }
        },
        _ => {
            assert(Seq::<u8>::empty() + s =~= s);
        },
    }
}

/// The signed attributes of a signature that was read can be written.
proof fn lemma_signer_info_fits(c: Seq<u8>)
    ensures
        rfc5652::signer_info_content(c) matches Some(i) ==> (i.signed_attributes matches Some(v)
            ==> fits(v)),
{
    if let Some(i) = rfc5652::signer_info_content(c) {
        if let Some(v) = i.signed_attributes {
            let c1 = (rfc5652::cms_version(c)->0).1;
            let c2 = (rfc5652::signer_identifier(c1)->0).1;
            let c3 = (x509::algorithm(c2)->0).1;
            let inner = (der::opt_constructed(c3, der::CTX_0)->0).0->0;
            encode::lemma_tlv_canonical(c3, der::CTX_0);
            lemma_attributes_canonical(inner);
        }
    }
}

proof fn lemma_signer_infos_fit(s: Seq<u8>)
    ensures
        rfc5652::signer_infos(s) matches Some(infos) ==> all_fit(infos),
    decreases s.len(),
{
    if let Some(infos) = rfc5652::signer_infos(s) {
        if let Some((Some(c), after)) = der::opt_constructed(s, der::SEQUENCE) {
            lemma_signer_infos_fit(after);
            lemma_signer_info_fits(c);
            let tail = rfc5652::signer_infos(after)->0;
            assert forall|k: int| 0 <= k < infos.len() implies ((
            #[trigger] infos[k]).signed_attributes matches Some(v) ==> fits(v)) by {
                if k > 0 {
                    assert(infos[k] == tail[k - 1]);
                }
            }
        }
    }
}

/// Whether the signed attributes of each of the signatures `infos` can be written.
pub open spec fn all_fit(infos: Seq<SignerInfoView>) -> bool {
    forall|k: int|
        0 <= k < infos.len() ==> ((#[trigger] infos[k]).signed_attributes matches Some(v)
            ==> fits(v))
}

/// The signed attributes of each signature in signed data that was read can be written.
pub proof fn lemma_signed_data_fits(s: Seq<u8>)
    ensures
        rfc5652::signed_data(s) matches Some(d) ==> all_fit(d.signer_infos),
{
    reveal(rfc5652::signed_data);
    if let Some(d) = rfc5652::signed_data(s) {
        let c = (der::constructed(s, der::SEQUENCE)->0).0;
        let c1 = (rfc5652::cms_version(c)->0).1;
        let c2 = (rfc5652::digest_algorithms(c1)->0).1;
        let c3 = (rfc5652::encapsulated_content(c2)->0).1;
        let c4 = (rfc5652::opt_certificates(c3)->0).1;
        let c5 = (der::opt_constructed(c4, der::CTX_1)->0).1;
        let v = (der::constructed(c5, der::SET)->0).0;
        lemma_signer_infos_fit(v);
    }
}

/// Writes the signed attributes as they are signed.
pub fn encode_signed_attributes(v: &Vec<Attribute>) -> (res: Vec<u8>)
    requires
        fits(x509::attributes_view(v@)),
    ensures
        res@ == signed_attributes_der(x509::attributes_view(v@)),
{
    let ghost all = x509::attributes_view(v@);
    let mut out: Vec<u8> = Vec::new();
    let mut i: usize = 0;
    assert(out@ =~= attributes_encoding(all.take(0)));
    while i < v.len()
        invariant
            i <= v.len(),
            all == x509::attributes_view(v@),
            fits(all),
            out@ == attributes_encoding(all.take(i as int)),
        decreases v.len() - i,
    {
        proof {
            lemma_prefix_len(all, i + 1);
            assert(all.take(i + 1).drop_last() =~= all.take(i as int));
            assert(all.take(i + 1).last() == v@[i as int]@);
        }
        let mut content = encode::write_tlv(der::OBJECT_IDENTIFIER, &v[i].typ);
        let values = encode::write_tlv(der::SET + 32, &v[i].values);
        content.extend_from_slice(&values);
        let attribute = encode::write_tlv(der::SEQUENCE + 32, &content);
        out.extend_from_slice(&attribute);
        i = i + 1;
    }
    assert(all.take(i as int) =~= all);
    encode::write_tlv(der::SET + 32, &out)
}

} // verus!
