//! What holds of signed data as it is written and read.
use crate::der;
use crate::der_laws;
use crate::encode;
use crate::item_laws;
use crate::outside;
use crate::rfc5652;
use crate::rfc5652::{
    EncapsulatedContentInfoView, SignedDataView, SignerIdentifierView, SignerInfoView,
};
use crate::x509;
use crate::x509::{AttributeView, CertificateView};
use vstd::prelude::*;

verus! {

/// An OCTET STRING as the contents of another value.
pub open spec fn wrapped_octets(o: Option<Seq<u8>>) -> Option<Seq<u8>> {
    match o {
        Some(v) => Some(encode::tlv(0x04, v)),
        None => None,
    }
}

/// The octets of what was signed.
pub open spec fn content_octets(i: EncapsulatedContentInfoView) -> Seq<u8> {
    encode::tlv(0x06, i.content_type) + der_laws::opt_tlv(0xa0, wrapped_octets(i.content))
}

/// Whether what was signed has an object identifier.
pub open spec fn is_content(i: EncapsulatedContentInfoView) -> bool {
    &&& der::is_oid(i.content_type)
    &&& der_laws::is_short(content_octets(i))
}

/// The octets that say whose signature it is: the name of the issuer as it stands and the serial
/// number, or the key identifier in a `[0]`.
pub open spec fn sid_octets(sid: SignerIdentifierView) -> Seq<u8> {
    match sid {
        SignerIdentifierView::IssuerAndSerialNumber(issuer, serial_number) => encode::tlv(
            0x30,
            issuer + encode::tlv(0x02, serial_number),
        ),
        SignerIdentifierView::SubjectKeyIdentifier(id) => encode::tlv(0xa0, encode::tlv(0x04, id)),
    }
}

/// Whether `sid` is a name with a serial number, or a key identifier.
pub open spec fn is_sid(sid: SignerIdentifierView) -> bool {
    match sid {
        SignerIdentifierView::IssuerAndSerialNumber(issuer, serial_number) => {
            &&& exists|c: Seq<u8>| issuer == #[trigger] encode::tlv(0x30, c)
            &&& outside::name_accepted(issuer)
            &&& der::is_integer(serial_number)
            &&& der_laws::is_short(issuer + encode::tlv(0x02, serial_number))
        },
        SignerIdentifierView::SubjectKeyIdentifier(id) => der_laws::is_short(encode::tlv(0x04, id)),
    }
}

/// Whether `octets` are those of the signed attributes `v`: attributes, and from a value of another
/// kind on anything well-formed.
pub open spec fn is_signed(octets: Option<Seq<u8>>, v: Option<Seq<AttributeView>>) -> bool {
    match (octets, v) {
        (Some(c), Some(v)) => der_laws::is_short(c) && der::all_values(c) && (x509::attributes(
            c,
        ) matches Some((w, _)) && w == v),
        (None, None) => true,
        _ => false,
    }
}

/// Whether `octets` are those of the unsigned attributes `v`.
pub open spec fn is_unsigned(octets: Option<Seq<u8>>, v: Option<Seq<AttributeView>>) -> bool {
    match (octets, v) {
        (Some(c), Some(v)) => der_laws::is_short(c) && (x509::attributes(c) matches Some((w, rest))
            && w == v && rest.len() == 0),
        (None, None) => true,
        _ => false,
    }
}

/// The octets of the contents of the signature `i`, with the octets of its attributes.
pub open spec fn signer_octets(
    i: SignerInfoView,
    signed: Option<Seq<u8>>,
    unsigned: Option<Seq<u8>>,
) -> Seq<u8> {
    encode::tlv(0x02, seq![i.version]) + (sid_octets(i.sid) + (encode::tlv(
        0x30,
        item_laws::algorithm_octets(i.digest_algorithm),
    ) + (der_laws::opt_tlv(0xa0, signed) + (encode::tlv(
        0x30,
        item_laws::algorithm_octets(i.signature_algorithm),
    ) + (encode::tlv(0x04, i.signature) + der_laws::opt_tlv(0xa1, unsigned))))))
}

/// Whether the parts of the signature `i` are what they should be.
pub open spec fn is_signer(
    i: SignerInfoView,
    signed: Option<Seq<u8>>,
    unsigned: Option<Seq<u8>>,
) -> bool {
    &&& i.version <= 5
    &&& is_sid(i.sid)
    &&& item_laws::is_algorithm(i.digest_algorithm)
    &&& der_laws::is_short(item_laws::algorithm_octets(i.digest_algorithm))
    &&& is_signed(signed, i.signed_attributes)
    &&& item_laws::is_algorithm(i.signature_algorithm)
    &&& der_laws::is_short(item_laws::algorithm_octets(i.signature_algorithm))
    &&& der_laws::is_short(i.signature)
    &&& is_unsigned(unsigned, i.unsigned_attributes)
}

/// A version is read with its octet.
proof fn lemma_version_read(s: Seq<u8>)
    ensures
        rfc5652::cms_version(s) matches Some((v, rest)) ==> s == encode::tlv(0x02, seq![v]) + rest
            && v <= 5,
{
    der_laws::law_primitive_read(s, der::INTEGER);
    if let Some((v, rest)) = rfc5652::cms_version(s) {
        let c = (der::primitive(s, der::INTEGER)->0).0;
        assert(c =~= seq![v]);
    }
}

/// A written version is read back.
proof fn lemma_version_read_back(v: u8, rest: Seq<u8>)
    requires
        v <= 5,
    ensures
        rfc5652::cms_version(encode::tlv(0x02, seq![v]) + rest) == Some((v, rest)),
{
    der_laws::law_primitive_read_back(der::INTEGER, Some(seq![v]), rest);
}

/// A wrapped OCTET STRING is read with all its octets.
proof fn lemma_wrapped_octets_read(s: Seq<u8>)
    ensures
        rfc5652::opt_tagged_octets(s) matches Some((o, rest)) ==> s == der_laws::opt_tlv(
            0xa0,
            wrapped_octets(o),
        ) + rest && der_laws::is_opt_short(wrapped_octets(o)),
{
    der_laws::law_constructed_read(s, der::CTX_0);
    if let Some((Some(v), rest)) = rfc5652::opt_tagged_octets(s) {
        let c = (der::opt_constructed(s, der::CTX_0)->0).0->0;
        item_laws::law_octets_read(c);
        assert(c =~= encode::tlv(0x04, v));
    }
}

/// A written wrapped OCTET STRING is read back.
proof fn lemma_wrapped_octets_read_back(o: Option<Seq<u8>>, rest: Seq<u8>)
    requires
        der_laws::is_opt_short(wrapped_octets(o)),
        o is None ==> der_laws::starts_without(rest, 0x80),
    ensures
        rfc5652::opt_tagged_octets(der_laws::opt_tlv(0xa0, wrapped_octets(o)) + rest) == Some(
            (o, rest),
        ),
{
    der_laws::law_constructed_read_back(der::CTX_0, wrapped_octets(o), rest);
    if let Some(v) = o {
        item_laws::law_octets_read_back(v, Seq::empty());
        assert(encode::tlv(0x04, v) + Seq::<u8>::empty() =~= encode::tlv(0x04, v));
    }
}

/// What was signed is read with all its octets.
pub proof fn law_content_read(s: Seq<u8>)
    ensures
        rfc5652::encapsulated_content(s) matches Some((i, rest)) ==> s == encode::tlv(
            0x30,
            content_octets(i),
        ) + rest && is_content(i),
{
    if let Some((i, rest)) = rfc5652::encapsulated_content(s) {
        let c = (der::constructed(s, der::SEQUENCE)->0).0;
        let c1 = (der::oid(c)->0).1;
        item_laws::law_sequence_read(s);
        item_laws::law_oid_read(c);
        lemma_wrapped_octets_read(c1);
        assert(c1 =~= der_laws::opt_tlv(0xa0, wrapped_octets(i.content)));
    }
}

/// What was signed is read back as it is written.
pub proof fn law_content_read_back(i: EncapsulatedContentInfoView, rest: Seq<u8>)
    requires
        is_content(i),
    ensures
        rfc5652::encapsulated_content(encode::tlv(0x30, content_octets(i)) + rest) == Some(
            (i, rest),
        ),
{
    let none = Seq::<u8>::empty();
    let c1 = der_laws::opt_tlv(0xa0, wrapped_octets(i.content));
    assert(c1 + none =~= c1);
    item_laws::law_sequence_read_back(Some(content_octets(i)), rest);
    item_laws::law_oid_read_back(Some(i.content_type), c1);
    lemma_wrapped_octets_read_back(i.content, none);
}

/// Whose signature it is is read with all its octets.
pub proof fn law_sid_read(s: Seq<u8>)
    ensures
        rfc5652::signer_identifier(s) matches Some((sid, rest)) ==> s == sid_octets(sid) + rest
            && is_sid(sid),
{
    if let Some((sid, rest)) = rfc5652::signer_identifier(s) {
        lemma_wrapped_octets_read(s);
        if let Some((None, _)) = rfc5652::opt_tagged_octets(s) {
            let c = (der::constructed(s, der::SEQUENCE)->0).0;
            let (n, c1) = der::constructed(c, der::SEQUENCE)->0;
            item_laws::law_sequence_read(s);
            item_laws::law_sequence_read(c);
            item_laws::law_integer_read(c1);
            let serial_number = (der::integer(c1)->0).0;
            let issuer = c.take(c.len() - c1.len());
            assert(issuer =~= encode::tlv(0x30, n));
            assert(c1 =~= encode::tlv(0x02, serial_number));
        }
    }
}

/// Whose signature it is is read back as it is written.
pub proof fn law_sid_read_back(sid: SignerIdentifierView, rest: Seq<u8>)
    requires
        is_sid(sid),
    ensures
        rfc5652::signer_identifier(sid_octets(sid) + rest) == Some((sid, rest)),
{
    let none = Seq::<u8>::empty();
    match sid {
        SignerIdentifierView::IssuerAndSerialNumber(issuer, serial_number) => {
            let n = choose|n: Seq<u8>| issuer == #[trigger] encode::tlv(0x30, n);
            let number = encode::tlv(0x02, serial_number);
            let c = issuer + number;
            let s = encode::tlv(0x30, c) + rest;
            assert(number + none =~= number);
            assert(s[0] == 0x30);
            lemma_wrapped_octets_read_back(None, s);
            assert(der_laws::opt_tlv(0xa0, wrapped_octets(None)) + s =~= s);
            item_laws::law_sequence_read_back(Some(c), rest);
            item_laws::law_sequence_read_back(Some(n), number);
            item_laws::law_integer_read_back(Some(serial_number), none);
            assert(c.take(c.len() - number.len()) =~= issuer);
        },
        SignerIdentifierView::SubjectKeyIdentifier(id) => {
            lemma_wrapped_octets_read_back(Some(id), rest);
        },
    }
}

/// Signed attributes are read from all their octets.
proof fn lemma_signed_read(s: Seq<u8>)
    ensures
        rfc5652::opt_signed_attributes(s) matches Some((v, rest)) ==> exists|o: Option<Seq<u8>>|
            #[trigger] is_signed(o, v) && s == der_laws::opt_tlv(0xa0, o) + rest,
{
    if let Some((v, rest)) = rfc5652::opt_signed_attributes(s) {
        der_laws::law_constructed_read(s, der::CTX_0);
        let o = (der::opt_constructed(s, der::CTX_0)->0).0;
        assert(is_signed(o, v));
    }
}

/// Unsigned attributes are read from all their octets.
proof fn lemma_unsigned_read(s: Seq<u8>)
    ensures
        rfc5652::opt_unsigned_attributes(s) matches Some((v, rest)) ==> exists|o: Option<Seq<u8>>|
            #[trigger] is_unsigned(o, v) && s == der_laws::opt_tlv(0xa1, o) + rest,
{
    if let Some((v, rest)) = rfc5652::opt_unsigned_attributes(s) {
        der_laws::law_constructed_read(s, der::CTX_1);
        let o = (der::opt_constructed(s, der::CTX_1)->0).0;
        assert(is_unsigned(o, v));
    }
}

/// Reading a signature loses nothing: each of its fields stands there with all its octets.
pub proof fn law_signer_read(c: Seq<u8>)
    ensures
        rfc5652::signer_info_content(c) matches Some(i) ==> exists|
            signed: Option<Seq<u8>>,
            unsigned: Option<Seq<u8>>,
        | #[trigger]
            is_signer(i, signed, unsigned) && c == signer_octets(i, signed, unsigned),
{
    if let Some(i) = rfc5652::signer_info_content(c) {
        let c1 = (rfc5652::cms_version(c)->0).1;
        let c2 = (rfc5652::signer_identifier(c1)->0).1;
        let c3 = (x509::algorithm(c2)->0).1;
        let c4 = (rfc5652::opt_signed_attributes(c3)->0).1;
        let c5 = (x509::algorithm(c4)->0).1;
        let c6 = (der::octets(c5)->0).1;
        let c7 = (rfc5652::opt_unsigned_attributes(c6)->0).1;
        lemma_version_read(c);
        law_sid_read(c1);
        item_laws::law_algorithm_read(c2);
        lemma_signed_read(c3);
        item_laws::law_algorithm_read(c4);
        item_laws::law_octets_read(c5);
        lemma_unsigned_read(c6);
        let signed = choose|o: Option<Seq<u8>>| #[trigger]
            is_signed(o, i.signed_attributes) && c3 == der_laws::opt_tlv(0xa0, o) + c4;
        let unsigned = choose|o: Option<Seq<u8>>| #[trigger]
            is_unsigned(o, i.unsigned_attributes) && c6 == der_laws::opt_tlv(0xa1, o) + c7;
        assert(c6 =~= der_laws::opt_tlv(0xa1, unsigned));
        assert(is_signer(i, signed, unsigned));
    }
}

/// A written signature is read back with every field.
pub proof fn law_signer_read_back(
    i: SignerInfoView,
    signed: Option<Seq<u8>>,
    unsigned: Option<Seq<u8>>,
)
    requires
        is_signer(i, signed, unsigned),
    ensures
        rfc5652::signer_info_content(signer_octets(i, signed, unsigned)) == Some(i),
{
    let none = Seq::<u8>::empty();
    let c6 = der_laws::opt_tlv(0xa1, unsigned);
    let c5 = encode::tlv(0x04, i.signature) + c6;
    let c4 = encode::tlv(0x30, item_laws::algorithm_octets(i.signature_algorithm)) + c5;
    let c3 = der_laws::opt_tlv(0xa0, signed) + c4;
    let c2 = encode::tlv(0x30, item_laws::algorithm_octets(i.digest_algorithm)) + c3;
    let c1 = sid_octets(i.sid) + c2;
    assert(c6 + none =~= c6);
    assert(c4[0] == 0x30);
    lemma_version_read_back(i.version, c1);
    law_sid_read_back(i.sid, c2);
    item_laws::law_algorithm_read_back(i.digest_algorithm, c3);
    der_laws::law_constructed_read_back(der::CTX_0, signed, c4);
    assert(rfc5652::opt_signed_attributes(c3) == Some((i.signed_attributes, c4)));
    item_laws::law_algorithm_read_back(i.signature_algorithm, c5);
    item_laws::law_octets_read_back(i.signature, c6);
    der_laws::law_constructed_read_back(der::CTX_1, unsigned, none);
    assert(rfc5652::opt_unsigned_attributes(c6) == Some((i.unsigned_attributes, none)));
}

/// Whether `c` are the contents of the signature `i`, and short enough for a length field.
#[verifier::opaque]
pub open spec fn is_signer_content(c: Seq<u8>, i: SignerInfoView) -> bool {
    der_laws::is_short(c) && rfc5652::signer_info_content(c) == Some(i)
}

/// Whether `contents` are those of the signatures `v`, in order.
pub open spec fn are_signers(contents: Seq<Seq<u8>>, v: Seq<SignerInfoView>) -> bool {
    &&& contents.len() == v.len()
    &&& forall|k: int| 0 <= k < v.len() ==> #[trigger] is_signer_content(contents[k], v[k])
}

/// The first of some signatures is read first.
proof fn lemma_signers_step(c: Seq<u8>, item: SignerInfoView, after: Seq<u8>)
    requires
        is_signer_content(c, item),
    ensures
        rfc5652::signer_infos(encode::tlv(0x30, c) + after) == match rfc5652::signer_infos(after) {
            Some(tail) => Some(seq![item] + tail),
            None => None,
        },
{
    reveal(is_signer_content);
    item_laws::law_sequence_read_back(Some(c), after);
}

/// Signatures, where there are any, start with one.
proof fn lemma_signers_split(s: Seq<u8>) -> (res: (Seq<u8>, Seq<u8>))
    requires
        rfc5652::signer_infos(s) is Some,
        s.len() > 0,
    ensures
        s == encode::tlv(0x30, res.0) + res.1,
        res.1.len() < s.len(),
        rfc5652::signer_infos(s)->0.len() > 0,
        is_signer_content(res.0, (rfc5652::signer_infos(s)->0)[0]),
        rfc5652::signer_infos(res.1) == Some((rfc5652::signer_infos(s)->0).skip(1)),
{
    reveal(is_signer_content);
    item_laws::law_sequence_read(s);
    let (o, after) = der::opt_constructed(s, der::SEQUENCE)->0;
    let c = o->0;
    let v = rfc5652::signer_infos(s)->0;
    let tail = rfc5652::signer_infos(after)->0;
    assert(v.skip(1) =~= tail);
    (c, after)
}

/// The signatures are read to their end, each of them in its place.
pub proof fn law_signers_read(s: Seq<u8>)
    ensures
        rfc5652::signer_infos(s) matches Some(v) ==> exists|contents: Seq<Seq<u8>>| #[trigger]
            are_signers(contents, v) && s == der_laws::tlvs(0x30, contents),
    decreases s.len(),
{
    if let Some(v) = rfc5652::signer_infos(s) {
        if s.len() > 0 {
            let (c, after) = lemma_signers_split(s);
            law_signers_read(after);
            let rest = choose|rest: Seq<Seq<u8>>| #[trigger]
                are_signers(rest, v.skip(1)) && after == der_laws::tlvs(0x30, rest);
            der_laws::lemma_tlvs_first(0x30, c, rest);
            let all = seq![c] + rest;
            assert forall|k: int| 0 <= k < v.len() implies #[trigger] is_signer_content(
                all[k],
                v[k],
            ) by {
                if k > 0 {
                    assert(is_signer_content(rest[k - 1], v.skip(1)[k - 1]));
                }
            }
            assert(are_signers(all, v));
        } else {
            let none = Seq::<Seq<u8>>::empty();
            assert(s =~= der_laws::tlvs(0x30, none));
            assert(are_signers(none, v));
        }
    }
}

/// Written signatures are read back.
pub proof fn law_signers_read_back(contents: Seq<Seq<u8>>, v: Seq<SignerInfoView>)
    requires
        are_signers(contents, v),
    ensures
        rfc5652::signer_infos(der_laws::tlvs(0x30, contents)) == Some(v),
    decreases v.len(),
{
    if v.len() == 0 {
        assert(v =~= Seq::empty());
    } else {
        let rest = contents.skip(1);
        assert(is_signer_content(contents[0], v[0]));
        lemma_signers_step(contents[0], v[0], der_laws::tlvs(0x30, rest));
        assert forall|k: int| 0 <= k < v.len() - 1 implies #[trigger] is_signer_content(
            rest[k],
            v.skip(1)[k],
        ) by {
            assert(is_signer_content(contents[k + 1], v[k + 1]));
        }
        law_signers_read_back(rest, v.skip(1));
        assert(seq![v[0]] + v.skip(1) =~= v);
    }
}

/// Whether `content` are the contents of the certificate `c` with the identifier octet `id`: what
/// is read of it is what the certificate parser reads, its issuer stands in it, and its key can be
/// written.
#[verifier::opaque]
pub open spec fn is_certificate(id: u8, content: Seq<u8>, c: CertificateView) -> bool {
    let value = encode::tlv(id, content);
    &&& der::is_low_tag(id)
    &&& der::is_constructed(id)
    &&& id != 0x20
    &&& !(0xa0 <= id <= 0xa3)
    &&& der_laws::is_short(content)
    &&& outside::certificate_at(value) == Some((c.parts, c.not_before, c.not_after))
    &&& x509::issuer_at(value) == Some(c.issuer)
    &&& x509::key_fits(c.parts)
}

/// A certificate in front of others is read first.
pub proof fn law_certificates_step(id: u8, content: Seq<u8>, c: CertificateView, after: Seq<u8>)
    requires
        is_certificate(id, content, c),
    ensures
        rfc5652::certificates(encode::tlv(id, content) + after) == match rfc5652::certificates(
            after,
        ) {
            Some(tail) => Some(seq![c] + tail),
            None => None,
        },
{
    reveal(is_certificate);
    let value = encode::tlv(id, content);
    let s = value + after;
    encode::lemma_tlv_header(id, content, after);
    assert(rfc5652::certificate_len(s) == Some(value.len()));
    assert(s.take(value.len() as int) =~= value);
    assert(s.skip(value.len() as int) =~= after);
}

/// Certificates are read one by one: the first of them, where its tag is written in one octet,
/// stands in front with all its octets.
pub proof fn law_certificates_read(s: Seq<u8>)
    requires
        s.len() > 0,
        der::is_low_tag(s[0]),
    ensures
        rfc5652::certificates(s) matches Some(certs) ==> certs.len() > 0 && exists|
            content: Seq<u8>,
            after: Seq<u8>,
        |
            s == #[trigger] (encode::tlv(s[0], content) + after) && is_certificate(
                s[0],
                content,
                certs[0],
            ) && rfc5652::certificates(after) == Some(certs.skip(1)),
{
    reveal(is_certificate);
    if let Some(certs) = rfc5652::certificates(s) {
        let h = der::header(s)->0;
        let n = h.length->0;
        let tag = der::tag_of(s[0]);
        let content = s.subrange(h.size as int, h.size + n as int);
        let after = s.skip(h.size + n as int);
        assert(der::next_if(s, tag) == (der::NextView::Present {
            constructed: true,
            content,
            rest: after,
        }));
        encode::lemma_tlv_canonical(s, tag);
        assert(s.take(h.size + n as int) =~= encode::tlv(s[0], content));
        assert(s == encode::tlv(s[0], content) + after);
        let tail = rfc5652::certificates(after)->0;
        assert(certs.skip(1) =~= tail);
        assert(is_certificate(s[0], content, certs[0]));
    }
}

/// The issuer of a certificate is the whole name behind the version, the serial number and the
/// algorithm, whatever follows it.
pub proof fn law_issuer_read_back(
    id: u8,
    version: Option<Seq<u8>>,
    serial_number: Seq<u8>,
    algorithm: x509::AlgorithmIdentifierView,
    name: Seq<u8>,
    more: Seq<u8>,
    after: Seq<u8>,
)
    requires
        ({
            let tbs = der_laws::opt_tlv(0xa0, version) + (encode::tlv(0x02, serial_number) + (
            encode::tlv(0x30, item_laws::algorithm_octets(algorithm)) + (encode::tlv(0x30, name)
                + more)));
            &&& der::is_low_tag(id)
            &&& der_laws::is_short(encode::tlv(0x30, tbs) + after)
            &&& der::is_integer(serial_number)
            &&& item_laws::is_algorithm(algorithm)
        }),
    ensures
        ({
            let tbs = der_laws::opt_tlv(0xa0, version) + (encode::tlv(0x02, serial_number) + (
            encode::tlv(0x30, item_laws::algorithm_octets(algorithm)) + (encode::tlv(0x30, name)
                + more)));
            x509::issuer_at(encode::tlv(id, encode::tlv(0x30, tbs) + after)) == Some(
                encode::tlv(0x30, name),
            )
        }),
{
    let c3 = encode::tlv(0x30, name) + more;
    let c2 = encode::tlv(0x30, item_laws::algorithm_octets(algorithm)) + c3;
    let c1 = encode::tlv(0x02, serial_number) + c2;
    let tbs = der_laws::opt_tlv(0xa0, version) + c1;
    let content = encode::tlv(0x30, tbs) + after;
    let value = encode::tlv(id, content);
    encode::lemma_tlv_header(id, content, Seq::empty());
    assert(value + Seq::<u8>::empty() =~= value);
    let h = der::header(value)->0;
    assert(value.skip(h.size as int) =~= content);
    item_laws::law_sequence_read_back(Some(tbs), after);
    assert(c1[0] == 0x02);
    der_laws::law_constructed_read_back(der::CTX_0, version, c1);
    item_laws::law_integer_read_back(Some(serial_number), c2);
    item_laws::law_algorithm_read_back(algorithm, c3);
    item_laws::law_sequence_read_back(Some(name), more);
    assert(c3.take(c3.len() - more.len()) =~= encode::tlv(0x30, name));
}

/// The SubjectPublicKeyInfo of a certificate is its algorithm, with NULL for missing parameters, and
/// all the bits of its key.
pub proof fn law_key_written(c: x509::CertificatePartsView)
    ensures
        x509::key_encoding(c) == encode::tlv(
            0x30,
            encode::tlv(
                0x30,
                encode::tlv(0x06, c.key_algorithm) + match c.key_parameters {
                    Some(p) => p,
                    None => seq![0x05u8, 0x00],
                },
            ) + encode::tlv(0x03, seq![c.key_unused_bits] + c.key_bits),
        ),
        x509::key_fits(c) == (encode::tlv(
            0x30,
            encode::tlv(0x06, c.key_algorithm) + match c.key_parameters {
                Some(p) => p,
                None => seq![0x05u8, 0x00],
            },
        ).len() + encode::tlv(0x03, seq![c.key_unused_bits] + c.key_bits).len() <= 0xffff_ffff),
{
}

/// Whether `octets` are those of the certificates `v`.
pub open spec fn is_certificate_list(octets: Option<Seq<u8>>, v: Option<Seq<CertificateView>>) -> bool {
    match (octets, v) {
        (Some(c), Some(v)) => der_laws::is_short(c) && rfc5652::certificates(c) == Some(v),
        (None, None) => true,
        _ => false,
    }
}

/// The octets of the contents of the signed data `d`, with the octets of its lists.
pub open spec fn signed_data_octets(
    d: SignedDataView,
    algorithms: Seq<u8>,
    certificates: Option<Seq<u8>>,
    signers: Seq<u8>,
) -> Seq<u8> {
    encode::tlv(0x02, seq![d.version]) + (encode::tlv(0x31, algorithms) + (encode::tlv(
        0x30,
        content_octets(d.content_info),
    ) + (der_laws::opt_tlv(0xa0, certificates) + encode::tlv(0x31, signers))))
}

/// Whether the parts of the signed data `d` are what they should be.
pub open spec fn is_signed_data(
    d: SignedDataView,
    algorithms: Seq<u8>,
    certificates: Option<Seq<u8>>,
    signers: Seq<u8>,
) -> bool {
    &&& d.version <= 5
    &&& x509::algorithms(algorithms) == Some(d.digest_algorithms)
    &&& is_content(d.content_info)
    &&& is_certificate_list(certificates, d.certificates)
    &&& rfc5652::signer_infos(signers) == Some(d.signer_infos)
    &&& der_laws::is_short(signed_data_octets(d, algorithms, certificates, signers))
}

/// Reading signed data loses nothing: it stands at the front of what was read, each of its parts with
/// all its octets.
pub proof fn law_signed_data_read(s: Seq<u8>)
    ensures
        rfc5652::signed_data(s) matches Some(d) ==> exists|
            algorithms: Seq<u8>,
            certificates: Option<Seq<u8>>,
            signers: Seq<u8>,
            rest: Seq<u8>,
        |
            is_signed_data(d, algorithms, certificates, signers) && s == #[trigger] (encode::tlv(
                0x30,
                signed_data_octets(d, algorithms, certificates, signers),
            ) + rest),
{
    reveal(rfc5652::signed_data);
    if let Some(d) = rfc5652::signed_data(s) {
        let (c, rest) = der::constructed(s, der::SEQUENCE)->0;
        let c1 = (rfc5652::cms_version(c)->0).1;
        let c2 = (rfc5652::digest_algorithms(c1)->0).1;
        let c3 = (rfc5652::encapsulated_content(c2)->0).1;
        let c4 = (rfc5652::opt_certificates(c3)->0).1;
        let (signers, c6) = der::constructed(c4, der::SET)->0;
        let algorithms = (der::constructed(c1, der::SET)->0).0;
        let certificates = (der::opt_constructed(c3, der::CTX_0)->0).0;
        item_laws::law_sequence_read(s);
        lemma_version_read(c);
        der_laws::law_constructed_read(c1, der::SET);
        law_content_read(c2);
        der_laws::law_constructed_read(c3, der::CTX_0);
        der_laws::law_constructed_read(c4, der::SET);
        assert(c4 =~= encode::tlv(0x31, signers));
        assert(c == signed_data_octets(d, algorithms, certificates, signers));
        assert(is_certificate_list(certificates, d.certificates));
        assert(is_signed_data(d, algorithms, certificates, signers));
        assert(s == encode::tlv(0x30, signed_data_octets(d, algorithms, certificates, signers))
            + rest);
    }
}

/// Written signed data is read back with every part, whatever follows it.
pub proof fn law_signed_data_read_back(
    d: SignedDataView,
    algorithms: Seq<u8>,
    certificates: Option<Seq<u8>>,
    signers: Seq<u8>,
    rest: Seq<u8>,
)
    requires
        is_signed_data(d, algorithms, certificates, signers),
    ensures
        rfc5652::signed_data(
            encode::tlv(0x30, signed_data_octets(d, algorithms, certificates, signers)) + rest,
        ) == Some(d),
{
    let c4 = encode::tlv(0x31, signers);
    let c3 = der_laws::opt_tlv(0xa0, certificates) + c4;
    let c2 = encode::tlv(0x30, content_octets(d.content_info)) + c3;
    let c1 = encode::tlv(0x31, algorithms) + c2;
    let content = signed_data_octets(d, algorithms, certificates, signers);
    lemma_parts_short(algorithms, certificates, signers, d);
    lemma_version_read_back(d.version, c1);
    lemma_digest_algorithms_read_back(algorithms, d.digest_algorithms, c2);
    law_content_read_back(d.content_info, c3);
    lemma_opt_certificates_read_back(certificates, d.certificates, c4);
    lemma_last_set(signers);
    lemma_signed_data_parts(content, c1, c2, c3, c4, signers, d);
    assert(rfc5652::signed_data(encode::tlv(0x30, content) + rest) == Some(d)) by {
        reveal(rfc5652::signed_data);
        item_laws::law_sequence_read_back(Some(content), rest);
    }
}

/// Each list in signed data that is short enough is short enough.
proof fn lemma_parts_short(
    algorithms: Seq<u8>,
    certificates: Option<Seq<u8>>,
    signers: Seq<u8>,
    d: SignedDataView,
)
    requires
        der_laws::is_short(signed_data_octets(d, algorithms, certificates, signers)),
    ensures
        der_laws::is_short(algorithms),
        der_laws::is_opt_short(certificates),
        der_laws::is_short(signers),
{
}

/// Written digest algorithms are read back.
proof fn lemma_digest_algorithms_read_back(
    octets: Seq<u8>,
    v: Seq<x509::AlgorithmIdentifierView>,
    rest: Seq<u8>,
)
    requires
        der_laws::is_short(octets),
        x509::algorithms(octets) == Some(v),
    ensures
        rfc5652::digest_algorithms(encode::tlv(0x31, octets) + rest) == Some((v, rest)),
{
    der_laws::law_constructed_read_back(der::SET, Some(octets), rest);
}

/// Written certificates are read back.
proof fn lemma_opt_certificates_read_back(
    octets: Option<Seq<u8>>,
    v: Option<Seq<CertificateView>>,
    rest: Seq<u8>,
)
    requires
        is_certificate_list(octets, v),
        octets is None ==> der_laws::starts_without(rest, 0x80),
    ensures
        rfc5652::opt_certificates(der_laws::opt_tlv(0xa0, octets) + rest) == Some((v, rest)),
{
    der_laws::law_constructed_read_back(der::CTX_0, octets, rest);
}

/// The SET at the end of signed data is read back.
proof fn lemma_last_set(c: Seq<u8>)
    requires
        der_laws::is_short(c),
    ensures
        der_laws::starts_without(encode::tlv(0x31, c), 0x80),
        der::opt_constructed(encode::tlv(0x31, c), der::CTX_1) == Some(
            (None::<Seq<u8>>, encode::tlv(0x31, c)),
        ),
        der::constructed(encode::tlv(0x31, c), der::SET) == Some((c, Seq::<u8>::empty())),
{
    let s = encode::tlv(0x31, c);
    assert(s[0] == 0x31);
    assert(s + Seq::<u8>::empty() =~= s);
    der_laws::law_constructed_read_back(der::SET, Some(c), Seq::empty());
}

/// Signed data is read part by part.
proof fn lemma_signed_data_parts(
    c: Seq<u8>,
    c1: Seq<u8>,
    c2: Seq<u8>,
    c3: Seq<u8>,
    c4: Seq<u8>,
    signers: Seq<u8>,
    d: SignedDataView,
)
    requires
        rfc5652::cms_version(c) == Some((d.version, c1)),
        rfc5652::digest_algorithms(c1) == Some((d.digest_algorithms, c2)),
        rfc5652::encapsulated_content(c2) == Some((d.content_info, c3)),
        rfc5652::opt_certificates(c3) == Some((d.certificates, c4)),
        der::opt_constructed(c4, der::CTX_1) == Some((None::<Seq<u8>>, c4)),
        der::constructed(c4, der::SET) == Some((signers, Seq::<u8>::empty())),
        rfc5652::signer_infos(signers) == Some(d.signer_infos),
    ensures
        rfc5652::signed_data_content(c) == Some(d),
{
}

} // verus!
