//! The parts of certificates and of their algorithm identifiers, extensions and attributes that
//! time stamps are made of.
use crate::der;
use crate::encode;
use crate::time::Time;
use vstd::prelude::*;
use vstd::slice::{slice_subrange, slice_to_vec};

verus! {

/// An algorithm and its parameters.
///
/// ```ASN.1
/// AlgorithmIdentifier  ::=  SEQUENCE  {
///   algorithm               OBJECT IDENTIFIER,
///   parameters              ANY DEFINED BY algorithm OPTIONAL  }
/// ```
#[derive(Clone, Debug, PartialEq, Eq)]
pub struct AlgorithmIdentifier {
    pub algorithm: Vec<u8>,
    pub parameters: Option<Vec<u8>>,
}

/// An extension of a certificate, a request or a token.
///
/// ```ASN.1
/// Extension  ::=  SEQUENCE  {
///      extnID      OBJECT IDENTIFIER,
///      critical    BOOLEAN DEFAULT FALSE,
///      extnValue   OCTET STRING }
/// ```
#[derive(Clone, Debug, PartialEq, Eq)]
pub struct Extension {
    pub id: Vec<u8>,
    pub critical: Option<bool>,
    pub value: Vec<u8>,
}

/// An attribute. The values of the set are kept together as they are encoded.
///
/// ```ASN.1
/// Attribute ::= SEQUENCE {
///   attrType OBJECT IDENTIFIER,
///   attrValues SET OF AttributeValue }
/// ```
#[derive(Clone, Debug, PartialEq, Eq)]
pub struct Attribute {
    pub typ: Vec<u8>,
    pub values: Vec<u8>,
}

/// A certificate.
#[derive(Clone, Debug, PartialEq, Eq)]
pub struct Certificate {
    /// The encoded name of the issuer.
    pub issuer: Vec<u8>,
    pub parts: CertificateParts,
    pub not_before: Time,
    pub not_after: Time,
}

/// What is read of a certificate besides its issuer and its validity.
#[derive(Clone, Debug, PartialEq, Eq)]
pub struct CertificateParts {
    /// The content of the serial number.
    pub serial_number: Vec<u8>,
    /// The object identifier of the algorithm that the certificate is signed with.
    pub signature_algorithm: Vec<u8>,
    /// The object identifier of the algorithm of the key.
    pub key_algorithm: Vec<u8>,
    /// The encoded parameters of the algorithm of the key.
    pub key_parameters: Option<Vec<u8>>,
    /// How many bits of the last octet of the key are not used.
    pub key_unused_bits: u8,
    pub key_bits: Vec<u8>,
    /// The object identifiers of the extensions, and their values.
    pub extensions: Option<Vec<(Vec<u8>, Vec<u8>)>>,
}

pub struct AlgorithmIdentifierView {
    pub algorithm: Seq<u8>,
    pub parameters: Option<Seq<u8>>,
}

impl View for AlgorithmIdentifier {
    type V = AlgorithmIdentifierView;

    open spec fn view(&self) -> AlgorithmIdentifierView {
        AlgorithmIdentifierView {
            algorithm: self.algorithm@,
            parameters: der::opt_view(self.parameters),
        }
    }
}

pub struct ExtensionView {
    pub id: Seq<u8>,
    pub critical: Option<bool>,
    pub value: Seq<u8>,
}

impl View for Extension {
    type V = ExtensionView;

    open spec fn view(&self) -> ExtensionView {
        ExtensionView { id: self.id@, critical: self.critical, value: self.value@ }
    }
}

pub struct AttributeView {
    pub typ: Seq<u8>,
    pub values: Seq<u8>,
}

impl View for Attribute {
    type V = AttributeView;

    open spec fn view(&self) -> AttributeView {
        AttributeView { typ: self.typ@, values: self.values@ }
    }
}

pub struct CertificatePartsView {
    pub serial_number: Seq<u8>,
    pub signature_algorithm: Seq<u8>,
    pub key_algorithm: Seq<u8>,
    pub key_parameters: Option<Seq<u8>>,
    pub key_unused_bits: u8,
    pub key_bits: Seq<u8>,
    pub extensions: Option<Seq<(Seq<u8>, Seq<u8>)>>,
}

impl View for CertificateParts {
    type V = CertificatePartsView;

    open spec fn view(&self) -> CertificatePartsView {
        CertificatePartsView {
            serial_number: self.serial_number@,
            signature_algorithm: self.signature_algorithm@,
            key_algorithm: self.key_algorithm@,
            key_parameters: der::opt_view(self.key_parameters),
            key_unused_bits: self.key_unused_bits,
            key_bits: self.key_bits@,
            extensions: match self.extensions {
                Some(v) => Some(pairs_view(v@)),
                None => None,
            },
        }
    }
}

pub struct CertificateView {
    pub issuer: Seq<u8>,
    pub parts: CertificatePartsView,
    pub not_before: Time,
    pub not_after: Time,
}

impl View for Certificate {
    type V = CertificateView;

    open spec fn view(&self) -> CertificateView {
        CertificateView {
            issuer: self.issuer@,
            parts: self.parts@,
            not_before: self.not_before,
            not_after: self.not_after,
        }
    }
}

pub open spec fn pairs_view(v: Seq<(Vec<u8>, Vec<u8>)>) -> Seq<(Seq<u8>, Seq<u8>)> {
    v.map_values(|e: (Vec<u8>, Vec<u8>)| (e.0@, e.1@))
}

pub open spec fn algorithms_view(v: Seq<AlgorithmIdentifier>) -> Seq<AlgorithmIdentifierView> {
    v.map_values(|a: AlgorithmIdentifier| a@)
}

pub open spec fn extensions_view(v: Seq<Extension>) -> Seq<ExtensionView> {
    v.map_values(|e: Extension| e@)
}

pub open spec fn opt_extensions_view(v: Option<Vec<Extension>>) -> Option<Seq<ExtensionView>> {
    match v {
        Some(v) => Some(extensions_view(v@)),
        None => None,
    }
}

pub open spec fn attributes_view(v: Seq<Attribute>) -> Seq<AttributeView> {
    v.map_values(|a: Attribute| a@)
}

pub open spec fn opt_attributes_view(v: Option<Vec<Attribute>>) -> Option<Seq<AttributeView>> {
    match v {
        Some(v) => Some(attributes_view(v@)),
        None => None,
    }
}

/// The algorithm identifier with the contents `c`. Whatever follows the object identifier is its
/// parameters.
pub open spec fn algorithm_content(c: Seq<u8>) -> Option<AlgorithmIdentifierView> {
    match der::oid(c) {
        Some((algorithm, rest)) => if der::all_values(rest) {
            Some(
                AlgorithmIdentifierView {
                    algorithm,
                    parameters: if rest.len() == 0 {
                        None
                    } else {
                        Some(rest)
                    },
                },
            )
        } else {
            None
        },
        None => None,
    }
}

/// An algorithm identifier at the front of `s`.
pub open spec fn algorithm(s: Seq<u8>) -> Option<(AlgorithmIdentifierView, Seq<u8>)> {
    match der::constructed(s, der::SEQUENCE) {
        Some((c, rest)) => match algorithm_content(c) {
            Some(a) => Some((a, rest)),
            None => None,
        },
        None => None,
    }
}

/// The algorithm identifiers that make up `s`.
pub open spec fn algorithms(s: Seq<u8>) -> Option<Seq<AlgorithmIdentifierView>>
    decreases s.len(),
{
    match der::opt_constructed(s, der::SEQUENCE) {
        None => None,
        Some((None, rest)) => if rest.len() == 0 {
            Some(Seq::empty())
        } else {
            None
        },
        Some((Some(c), rest)) => if rest.len() < s.len() {
            match (algorithm_content(c), algorithms(rest)) {
                (Some(a), Some(tail)) => Some(seq![a] + tail),
                _ => None,
            }
        } else {
            None
        },
    }
}

/// The extension with the contents `c`.
pub open spec fn extension_content(c: Seq<u8>) -> Option<ExtensionView> {
    match der::oid(c) {
        Some((id, c1)) => match der::opt_boolean(c1) {
            Some((critical, c2)) => match der::octets(c2) {
                Some((value, c3)) => if c3.len() == 0 {
                    Some(ExtensionView { id, critical, value })
                } else {
                    None
                },
                None => None,
            },
            None => None,
        },
        None => None,
    }
}

/// The extensions that make up `s`.
pub open spec fn extensions(s: Seq<u8>) -> Option<Seq<ExtensionView>>
    decreases s.len(),
{
    match der::opt_constructed(s, der::SEQUENCE) {
        None => None,
        Some((None, rest)) => if rest.len() == 0 {
            Some(Seq::empty())
        } else {
            None
        },
        Some((Some(c), rest)) => if rest.len() < s.len() {
            match (extension_content(c), extensions(rest)) {
                (Some(e), Some(tail)) => Some(seq![e] + tail),
                _ => None,
            }
        } else {
            None
        },
    }
}

/// The extensions in the one SEQUENCE that makes up `s`.
pub open spec fn extension_sequence(s: Seq<u8>) -> Option<Seq<ExtensionView>> {
    match der::constructed(s, der::SEQUENCE) {
        Some((c, rest)) => if rest.len() == 0 {
            extensions(c)
        } else {
            None
        },
        None => None,
    }
}

/// The attribute with the contents `c`.
pub open spec fn attribute_content(c: Seq<u8>) -> Option<AttributeView> {
    match der::oid(c) {
        Some((typ, c1)) => match der::constructed(c1, der::SET) {
            Some((values, c2)) => if c2.len() == 0 && der::all_values(values) {
                Some(AttributeView { typ, values })
            } else {
                None
            },
            None => None,
        },
        None => None,
    }
}

/// The attributes at the front of `s`, and what follows them: nothing, or a value with another
/// tag.
pub open spec fn attributes(s: Seq<u8>) -> Option<(Seq<AttributeView>, Seq<u8>)>
    decreases s.len(),
{
    match der::opt_constructed(s, der::SEQUENCE) {
        None => None,
        Some((None, rest)) => Some((Seq::empty(), rest)),
        Some((Some(c), rest)) => if rest.len() < s.len() {
            match (attribute_content(c), attributes(rest)) {
                (Some(a), Some((tail, after))) => Some((seq![a] + tail, after)),
                _ => None,
            }
        } else {
            None
        },
    }
}

/// Reads the contents of an algorithm identifier.
pub fn read_algorithm_content(c: &[u8]) -> (res: Option<AlgorithmIdentifier>)
    ensures
        match res {
            Some(a) => algorithm_content(c@) == Some(a@),
            None => algorithm_content(c@) is None,
        },
{
    let (algorithm, rest) = match der::read_oid(c) {
        Some(r) => r,
        None => {
            return None;
        },
    };
    if !der::check_all_values(rest) {
        return None;
    }
    let parameters = if rest.len() == 0 {
        None
    } else {
        Some(slice_to_vec(rest))
    };
    Some(AlgorithmIdentifier { algorithm: slice_to_vec(algorithm), parameters })
}

/// Reads an algorithm identifier.
pub fn read_algorithm<'a>(s: &'a [u8]) -> (res: Option<(AlgorithmIdentifier, &'a [u8])>)
    ensures
        match res {
            Some((a, rest)) => algorithm(s@) == Some((a@, rest@)),
            None => algorithm(s@) is None,
        },
{
    match der::read_constructed(s, der::SEQUENCE) {
        Some((c, rest)) => match read_algorithm_content(c) {
            Some(a) => Some((a, rest)),
            None => None,
        },
        None => None,
    }
}

/// Reads the algorithm identifiers that make up `s`.
pub fn read_algorithms(s: &[u8]) -> (res: Option<Vec<AlgorithmIdentifier>>)
    ensures
        match res {
            Some(v) => algorithms(s@) == Some(algorithms_view(v@)),
            None => algorithms(s@) is None,
        },
{
    let mut out: Vec<AlgorithmIdentifier> = Vec::new();
    let mut rest = s;
    assert(algorithms_view(out@) =~= Seq::<AlgorithmIdentifierView>::empty());
    loop
        invariant
            algorithms(s@) == match algorithms(rest@) {
                Some(tail) => Some(algorithms_view(out@) + tail),
                None => None,
            },
        decreases rest@.len(),
    {
        match der::read_opt_constructed(rest, der::SEQUENCE) {
            None => {
                return None;
            },
            Some((None, after)) => {
                if after.len() == 0 {
                    assert(algorithms_view(out@) + Seq::<AlgorithmIdentifierView>::empty() =~= algorithms_view(
                        out@,
                    ));
                    return Some(out);
                }
                return None;
            },
            Some((Some(c), after)) => {
                proof {
                    encode::lemma_tlv_canonical(rest@, der::SEQUENCE);
                }
                match read_algorithm_content(c) {
                    Some(item) => {
                        let ghost before = out@;
                        out.push(item);
                        rest = after;
                        proof {
                            assert(algorithms_view(out@) =~= algorithms_view(before).push(item@));
                            if let Some(tail) = algorithms(after@) {
                                assert(algorithms_view(before) + (seq![item@] + tail) =~= algorithms_view(
                                    out@,
                                ) + tail);
                            }
                        }
                    },
                    None => {
                        return None;
                    },
                }
            },
        }
    }
}

/// Reads the contents of an extension.
pub fn read_extension_content(c: &[u8]) -> (res: Option<Extension>)
    ensures
        match res {
            Some(e) => extension_content(c@) == Some(e@),
            None => extension_content(c@) is None,
        },
{
    match der::read_oid(c) {
        Some((id, c1)) => match der::read_opt_boolean(c1) {
            Some((critical, c2)) => match der::read_octets(c2) {
                Some((value, c3)) => if c3.len() == 0 {
                    Some(Extension { id: slice_to_vec(id), critical, value: slice_to_vec(value) })
                } else {
                    None
                },
                None => None,
            },
            None => None,
        },
        None => None,
    }
}

/// Reads the extensions that make up `s`.
pub fn read_extensions(s: &[u8]) -> (res: Option<Vec<Extension>>)
    ensures
        match res {
            Some(v) => extensions(s@) == Some(extensions_view(v@)),
            None => extensions(s@) is None,
        },
{
    let mut out: Vec<Extension> = Vec::new();
    let mut rest = s;
    assert(extensions_view(out@) =~= Seq::<ExtensionView>::empty());
    loop
        invariant
            extensions(s@) == match extensions(rest@) {
                Some(tail) => Some(extensions_view(out@) + tail),
                None => None,
            },
        decreases rest@.len(),
    {
        match der::read_opt_constructed(rest, der::SEQUENCE) {
            None => {
                return None;
            },
            Some((None, after)) => {
                if after.len() == 0 {
                    assert(extensions_view(out@) + Seq::<ExtensionView>::empty() =~= extensions_view(
                        out@,
                    ));
                    return Some(out);
                }
                return None;
            },
            Some((Some(c), after)) => {
                proof {
                    encode::lemma_tlv_canonical(rest@, der::SEQUENCE);
                }
                match read_extension_content(c) {
                    Some(item) => {
                        let ghost before = out@;
                        out.push(item);
                        rest = after;
                        proof {
                            assert(extensions_view(out@) =~= extensions_view(before).push(item@));
                            if let Some(tail) = extensions(after@) {
                                assert(extensions_view(before) + (seq![item@] + tail) =~= extensions_view(
                                    out@,
                                ) + tail);
                            }
                        }
                    },
                    None => {
                        return None;
                    },
                }
            },
        }
    }
}

/// Reads the extensions in the one SEQUENCE that makes up `s`.
pub fn read_extension_sequence(s: &[u8]) -> (res: Option<Vec<Extension>>)
    ensures
        match res {
            Some(v) => extension_sequence(s@) == Some(extensions_view(v@)),
            None => extension_sequence(s@) is None,
        },
{
    match der::read_constructed(s, der::SEQUENCE) {
        Some((c, rest)) => if rest.len() == 0 {
            read_extensions(c)
        } else {
            None
        },
        None => None,
    }
}

/// Reads the contents of an attribute.
pub fn read_attribute_content(c: &[u8]) -> (res: Option<Attribute>)
    ensures
        match res {
            Some(a) => attribute_content(c@) == Some(a@),
            None => attribute_content(c@) is None,
        },
{
    match der::read_oid(c) {
        Some((typ, c1)) => match der::read_constructed(c1, der::SET) {
            Some((values, c2)) => if c2.len() == 0 && der::check_all_values(values) {
                Some(Attribute { typ: slice_to_vec(typ), values: slice_to_vec(values) })
            } else {
                None
            },
            None => None,
        },
        None => None,
    }
}

/// Reads the attributes at the front of `s`.
pub fn read_attributes<'a>(s: &'a [u8]) -> (res: Option<(Vec<Attribute>, &'a [u8])>)
    ensures
        match res {
            Some((v, rest)) => attributes(s@) == Some((attributes_view(v@), rest@)),
            None => attributes(s@) is None,
        },
{
    let mut out: Vec<Attribute> = Vec::new();
    let mut rest = s;
    assert(attributes_view(out@) =~= Seq::<AttributeView>::empty());
    loop
        invariant
            attributes(s@) == match attributes(rest@) {
                Some((tail, after)) => Some((attributes_view(out@) + tail, after)),
                None => None,
            },
        decreases rest@.len(),
    {
        match der::read_opt_constructed(rest, der::SEQUENCE) {
            None => {
                return None;
            },
            Some((None, after)) => {
                assert(attributes_view(out@) + Seq::<AttributeView>::empty() =~= attributes_view(
                    out@,
                ));
                return Some((out, after));
            },
            Some((Some(c), after)) => {
                proof {
                    encode::lemma_tlv_canonical(rest@, der::SEQUENCE);
                }
                match read_attribute_content(c) {
                    Some(item) => {
                        let ghost before = out@;
                        out.push(item);
                        rest = after;
                        proof {
                            assert(attributes_view(out@) =~= attributes_view(before).push(item@));
                            if let Some((tail, end)) = attributes(after@) {
                                assert(attributes_view(before) + (seq![item@] + tail)
                                    =~= attributes_view(out@) + tail);
                            }
                        }
                    },
                    None => {
                        return None;
                    },
                }
            },
        }
    }
}

/// The encoded parameters of an algorithm: NULL stands for none.
pub open spec fn parameters_encoding(parameters: Option<Seq<u8>>) -> Seq<u8> {
    match parameters {
        Some(p) => p,
        None => seq![0x05u8, 0x00],
    }
}

/// The contents of the encoded algorithm identifier `a`.
pub open spec fn algorithm_content_encoding(a: AlgorithmIdentifierView) -> Seq<u8> {
    encode::tlv(der::OBJECT_IDENTIFIER, a.algorithm) + parameters_encoding(a.parameters)
}

/// Writes an algorithm identifier.
pub fn encode_algorithm(a: &AlgorithmIdentifier) -> (res: Vec<u8>)
    requires
        algorithm_content_encoding(a@).len() <= 0xffff_ffff,
    ensures
        res@ == encode::tlv(encode::constructed_id(der::SEQUENCE), algorithm_content_encoding(a@)),
{
    let mut content = encode::write_tlv(der::OBJECT_IDENTIFIER, &a.algorithm);
    match &a.parameters {
        Some(p) => {
            content.extend_from_slice(p);
        },
        None => {
            content.push(0x05);
            content.push(0x00);
        },
    }
    assert(content@ =~= algorithm_content_encoding(a@));
    encode::write_tlv(der::SEQUENCE + 32, &content)
}

/// The algorithm of the key of the certificate `c`.
pub open spec fn key_algorithm(c: CertificatePartsView) -> AlgorithmIdentifierView {
    AlgorithmIdentifierView { algorithm: c.key_algorithm, parameters: c.key_parameters }
}

/// The contents of the encoded SubjectPublicKeyInfo of the certificate `c`.
///
/// ```ASN.1
/// SubjectPublicKeyInfo  ::=  SEQUENCE  {
///      algorithm            AlgorithmIdentifier,
///      subjectPublicKey     BIT STRING  }
/// ```
pub open spec fn key_content_encoding(c: CertificatePartsView) -> Seq<u8> {
    encode::tlv(
        encode::constructed_id(der::SEQUENCE),
        algorithm_content_encoding(key_algorithm(c)),
    ) + encode::tlv(der::BIT_STRING, seq![c.key_unused_bits] + c.key_bits)
}

/// The encoded SubjectPublicKeyInfo of the certificate `c`.
pub open spec fn key_encoding(c: CertificatePartsView) -> Seq<u8> {
    encode::tlv(encode::constructed_id(der::SEQUENCE), key_content_encoding(c))
}

/// Whether the SubjectPublicKeyInfo of the certificate `c` can be written at all.
pub open spec fn key_fits(c: CertificatePartsView) -> bool {
    key_content_encoding(c).len() <= 0xffff_ffff
}

/// Whether the SubjectPublicKeyInfo of a certificate can be written at all.
pub fn check_key_fits(c: &CertificateParts) -> (res: bool)
    ensures
        res == key_fits(c@),
{
    let parameters = match &c.key_parameters {
        Some(p) => encode::to_len(p.len()),
        None => encode::to_len(2),
    };
    let id = encode::add_header_len(encode::to_len(c.key_algorithm.len()));
    let algorithm = encode::add_len(id, parameters);
    assert(encode::is_len(algorithm, algorithm_content_encoding(key_algorithm(c@)).len()));
    let octets = encode::add_len(encode::to_len(1), encode::to_len(c.key_bits.len()));
    assert(encode::is_len(octets, (seq![c.key_unused_bits] + c.key_bits@).len()));
    let content = encode::add_len(
        encode::add_header_len(algorithm),
        encode::add_header_len(octets),
    );
    assert(encode::is_len(content, key_content_encoding(c@).len()));
    content.is_some()
}

/// Writes the SubjectPublicKeyInfo of a certificate.
pub fn encode_key(c: &CertificateParts) -> (res: Vec<u8>)
    requires
        key_fits(c@),
    ensures
        res@ == key_encoding(c@),
{
    let algorithm = AlgorithmIdentifier {
        algorithm: slice_to_vec(&c.key_algorithm),
        parameters: match &c.key_parameters {
            Some(p) => Some(slice_to_vec(p)),
            None => None,
        },
    };
    assert(algorithm@ == key_algorithm(c@));
    let mut content = encode_algorithm(&algorithm);
    let mut octets: Vec<u8> = Vec::new();
    octets.push(c.key_unused_bits);
    octets.extend_from_slice(&c.key_bits);
    assert(octets@ =~= seq![c.key_unused_bits] + c.key_bits@);
    let bits = encode::write_tlv(der::BIT_STRING, &octets);
    content.extend_from_slice(&bits);
    encode::write_tlv(der::SEQUENCE + 32, &content)
}

/// The encoded name of the issuer in the certificate `value`.
///
/// ```ASN.1
/// TBSCertificate  ::=  SEQUENCE  {
///      version         [0]  Version DEFAULT v1,
///      serialNumber         CertificateSerialNumber,
///      signature            AlgorithmIdentifier,
///      issuer               Name,
///      ... }
/// ```
pub open spec fn issuer_at(value: Seq<u8>) -> Option<Seq<u8>> {
    match der::header(value) {
        Some(h) => match der::constructed(value.skip(h.size as int), der::SEQUENCE) {
            Some((tbs, _)) => match der::opt_constructed(tbs, der::CTX_0) {
                Some((_, c1)) => match der::integer(c1) {
                    Some((_, c2)) => match algorithm(c2) {
                        Some((_, c3)) => match der::constructed(c3, der::SEQUENCE) {
                            Some((_, c4)) => Some(c3.take(c3.len() - c4.len())),
                            None => None,
                        },
                        None => None,
                    },
                    None => None,
                },
                None => None,
            },
            None => None,
        },
        None => None,
    }
}

/// Reads the encoded name of the issuer in the certificate `value`.
pub fn read_issuer(value: &[u8]) -> (res: Option<Vec<u8>>)
    ensures
        der::opt_view(res) == issuer_at(value@),
{
    let h = match der::read_header(value) {
        Some(h) => h,
        None => {
            return None;
        },
    };
    let content = slice_subrange(value, h.size, value.len());
    assert(content@ =~= value@.skip(h.size as int));
    let tbs = match der::read_constructed(content, der::SEQUENCE) {
        Some((tbs, _)) => tbs,
        None => {
            return None;
        },
    };
    let c1 = match der::read_opt_constructed(tbs, der::CTX_0) {
        Some((_, rest)) => rest,
        None => {
            return None;
        },
    };
    let c2 = match der::read_integer(c1) {
        Some((_, rest)) => rest,
        None => {
            return None;
        },
    };
    let c3 = match read_algorithm(c2) {
        Some((_, rest)) => rest,
        None => {
            return None;
        },
    };
    match der::read_constructed(c3, der::SEQUENCE) {
        Some((_, c4)) => {
            proof {
                encode::lemma_tlv_canonical(c3@, der::SEQUENCE);
            }
            let issuer = slice_subrange(c3, 0, c3.len() - c4.len());
            assert(issuer@ =~= c3@.take(c3@.len() - c4@.len()));
            Some(slice_to_vec(issuer))
        },
        None => None,
    }
}

} // verus!
