//! Time-stamp requests.
use crate::der;
use crate::digest;
use crate::digest::DigestAlgorithm;
use crate::encode;
use crate::error::Error;
use crate::exchange_laws;
use crate::oids;
use crate::outside;
use crate::request_laws;
use crate::rfc3161;
use crate::rfc3161::{MessageImprint, MessageImprintView, TimeStampReq, TimeStampReqView};
use crate::x509;
use crate::x509::{AlgorithmIdentifier, AlgorithmIdentifierView, Extension, ExtensionView};
use vstd::prelude::*;
use vstd::slice::slice_to_vec;

verus! {

/// The contents of the encoded message imprint `m`.
pub open spec fn imprint_content_encoding(m: MessageImprintView) -> Seq<u8> {
    encode::tlv(
        encode::constructed_id(der::SEQUENCE),
        x509::algorithm_content_encoding(m.hash_algorithm),
    ) + encode::tlv(der::OCTET_STRING, m.hashed_message)
}

/// The encoded message imprint `m`.
pub open spec fn imprint_encoding(m: MessageImprintView) -> Seq<u8> {
    encode::tlv(encode::constructed_id(der::SEQUENCE), imprint_content_encoding(m))
}

/// The value `id` with the contents `content`, or nothing.
pub open spec fn opt_tlv(id: u8, content: Option<Seq<u8>>) -> Seq<u8> {
    match content {
        Some(c) => encode::tlv(id, c),
        None => Seq::empty(),
    }
}

/// The contents of a BOOLEAN.
pub open spec fn boolean_content(b: Option<bool>) -> Option<Seq<u8>> {
    match b {
        Some(true) => Some(seq![0xffu8]),
        Some(false) => Some(seq![0x00u8]),
        None => None,
    }
}

/// The contents of the encoded extension `e`. That an extension is critical is written only where
/// it is so.
pub open spec fn extension_content_encoding(e: ExtensionView) -> Seq<u8> {
    encode::tlv(der::OBJECT_IDENTIFIER, e.id) + opt_tlv(
        der::BOOLEAN,
        boolean_content(
            if e.critical == Some(true) {
                Some(true)
            } else {
                None
            },
        ),
    ) + encode::tlv(der::OCTET_STRING, e.value)
}

/// The encoded extensions `v`, one behind the other.
pub open spec fn extensions_encoding(v: Seq<ExtensionView>) -> Seq<u8>
    decreases v.len(),
{
    if v.len() == 0 {
        Seq::empty()
    } else {
        extensions_encoding(v.drop_last()) + encode::tlv(
            encode::constructed_id(der::SEQUENCE),
            extension_content_encoding(v.last()),
        )
    }
}

/// The contents of the `[0]` of a request.
pub open spec fn opt_extensions_content(extensions: Option<Seq<ExtensionView>>) -> Option<Seq<u8>> {
    match extensions {
        Some(v) => Some(extensions_encoding(v)),
        None => None,
    }
}

/// The contents of the encoded request `r`.
pub open spec fn request_content_encoding(r: TimeStampReqView) -> Seq<u8> {
    encode::tlv(der::INTEGER, r.version) + (imprint_encoding(r.message_imprint) + (opt_tlv(
        der::OBJECT_IDENTIFIER,
        r.req_policy,
    ) + (opt_tlv(der::INTEGER, r.nonce) + (opt_tlv(der::BOOLEAN, boolean_content(r.cert_req))
        + opt_tlv(
        encode::constructed_id(der::CTX_0),
        opt_extensions_content(r.extensions),
    )))))
}

/// The encoded request `r`.
pub open spec fn request_encoding(r: TimeStampReqView) -> Seq<u8> {
    encode::tlv(encode::constructed_id(der::SEQUENCE), request_content_encoding(r))
}

/// Whether the request `r` can be written at all.
pub open spec fn request_fits(r: TimeStampReqView) -> bool {
    request_content_encoding(r).len() <= 0xffff_ffff
}

/// The encoding of the first extensions is a part of the whole.
proof fn lemma_prefix_len(v: Seq<ExtensionView>, n: int)
    requires
        0 <= n <= v.len(),
    ensures
        extensions_encoding(v.take(n)).len() <= extensions_encoding(v).len(),
    decreases v.len(),
{
    if n == v.len() {
        assert(v.take(n) =~= v);
    } else {
        lemma_prefix_len(v.drop_last(), n);
        assert(v.drop_last().take(n) =~= v.take(n));
    }
}

/// Writes extensions one behind the other.
fn encode_extensions(v: &Vec<Extension>) -> (res: Vec<u8>)
    requires
        extensions_encoding(x509::extensions_view(v@)).len() <= 0xffff_ffff,
    ensures
        res@ == extensions_encoding(x509::extensions_view(v@)),
{
    let ghost all = x509::extensions_view(v@);
    let mut out: Vec<u8> = Vec::new();
    let mut i: usize = 0;
    assert(out@ =~= extensions_encoding(all.take(0)));
    while i < v.len()
        invariant
            i <= v.len(),
            all == x509::extensions_view(v@),
            extensions_encoding(all).len() <= 0xffff_ffff,
            out@ == extensions_encoding(all.take(i as int)),
        decreases v.len() - i,
    {
        proof {
            lemma_prefix_len(all, i + 1);
            assert(all.take(i + 1).drop_last() =~= all.take(i as int));
            assert(all.take(i + 1).last() == v@[i as int]@);
        }
        let mut content = encode::write_tlv(der::OBJECT_IDENTIFIER, &v[i].id);
        match v[i].critical {
            Some(true) => {
                let critical = write_boolean(true);
                content.extend_from_slice(&critical);
            },
            _ => {
                assert(content@ =~= content@ + Seq::<u8>::empty());
            },
        }
        let value = encode::write_tlv(der::OCTET_STRING, &v[i].value);
        content.extend_from_slice(&value);
        assert(content@ =~= extension_content_encoding(v@[i as int]@));
        let extension = encode::write_tlv(der::SEQUENCE + 32, &content);
        out.extend_from_slice(&extension);
        i = i + 1;
    }
    assert(all.take(i as int) =~= all);
    out
}

/// Writes a BOOLEAN.
fn write_boolean(b: bool) -> (res: Vec<u8>)
    ensures
        res@ == opt_tlv(der::BOOLEAN, boolean_content(Some(b))),
{
    let content: [u8; 1] = if b {
        [0xff]
    } else {
        [0x00]
    };
    assert(Some(content@) == boolean_content(Some(b))) by {
        assert(content@ =~= boolean_content(Some(b))->0);
    }
    encode::write_tlv(der::BOOLEAN, &content)
}

/// Writes a message imprint.
fn encode_imprint(m: &MessageImprint) -> (res: Vec<u8>)
    requires
        imprint_content_encoding(m@).len() <= 0xffff_ffff,
    ensures
        res@ == imprint_encoding(m@),
{
    let mut content = x509::encode_algorithm(&m.hash_algorithm);
    let hashed = encode::write_tlv(der::OCTET_STRING, &m.hashed_message);
    content.extend_from_slice(&hashed);
    assert(content@ =~= imprint_content_encoding(m@));
    encode::write_tlv(der::SEQUENCE + 32, &content)
}

/// Writes a value, or nothing.
fn write_opt_tlv(id: u8, content: &Option<Vec<u8>>) -> (res: Vec<u8>)
    requires
        opt_tlv(id, der::opt_view(*content)).len() <= 0xffff_ffff,
    ensures
        res@ == opt_tlv(id, der::opt_view(*content)),
{
    match content {
        Some(c) => encode::write_tlv(id, c),
        None => Vec::new(),
    }
}

/// The length of the encoded extensions.
fn extensions_len(v: &Vec<Extension>) -> (res: Option<u64>)
    ensures
        encode::is_len(res, extensions_encoding(x509::extensions_view(v@)).len()),
{
    let ghost all = x509::extensions_view(v@);
    let mut total = encode::to_len(0);
    let mut i: usize = 0;
    assert(extensions_encoding(all.take(0)).len() == 0);
    while i < v.len()
        invariant
            i <= v.len(),
            all == x509::extensions_view(v@),
            encode::is_len(total, extensions_encoding(all.take(i as int)).len()),
        decreases v.len() - i,
    {
        assert(all.take(i + 1).drop_last() =~= all.take(i as int));
        assert(all.take(i + 1).last() == v@[i as int]@);
        let critical = match v[i].critical {
            Some(true) => encode::to_len(3),
            _ => encode::to_len(0),
        };
        let id = encode::add_header_len(encode::to_len(v[i].id.len()));
        let value = encode::add_header_len(encode::to_len(v[i].value.len()));
        let content = encode::add_len(encode::add_len(id, critical), value);
        assert(encode::is_len(content, extension_content_encoding(v@[i as int]@).len()));
        total = encode::add_len(total, encode::add_header_len(content));
        i = i + 1;
    }
    assert(all.take(i as int) =~= all);
    total
}

/// The length of an optional value.
fn opt_tlv_len(content: &Option<Vec<u8>>) -> (res: Option<u64>)
    ensures
        forall|id: u8| encode::is_len(res, #[trigger] opt_tlv(id, der::opt_view(*content)).len()),
{
    match content {
        Some(c) => encode::add_header_len(encode::to_len(c.len())),
        None => encode::to_len(0),
    }
}

/// The length of an encoded message imprint.
fn imprint_len(m: &MessageImprint) -> (res: Option<u64>)
    ensures
        encode::is_len(res, imprint_encoding(m@).len()),
{
    let parameters = match &m.hash_algorithm.parameters {
        Some(p) => encode::to_len(p.len()),
        None => encode::to_len(2),
    };
    let id = encode::add_header_len(encode::to_len(m.hash_algorithm.algorithm.len()));
    let algorithm = encode::add_len(id, parameters);
    assert(encode::is_len(algorithm, x509::algorithm_content_encoding(m.hash_algorithm@).len()));
    let hashed = encode::add_header_len(encode::to_len(m.hashed_message.len()));
    let content = encode::add_len(encode::add_header_len(algorithm), hashed);
    assert(encode::is_len(content, imprint_content_encoding(m@).len()));
    encode::add_header_len(content)
}

/// Whether the request can be written at all.
pub fn check_request_fits(r: &TimeStampReq) -> (res: bool)
    ensures
        res == request_fits(r@),
{
    let version = encode::add_header_len(encode::to_len(r.version.len()));
    let imprint = imprint_len(&r.message_imprint);
    let policy = opt_tlv_len(&r.req_policy);
    let nonce = opt_tlv_len(&r.nonce);
    let cert_req = match r.cert_req {
        Some(_) => encode::to_len(3),
        None => encode::to_len(0),
    };
    let extensions = match &r.extensions {
        Some(v) => encode::add_header_len(extensions_len(v)),
        None => encode::to_len(0),
    };
    let ghost version_part = encode::tlv(der::INTEGER, r@.version);
    let ghost policy_part = opt_tlv(der::OBJECT_IDENTIFIER, r@.req_policy);
    let ghost nonce_part = opt_tlv(der::INTEGER, r@.nonce);
    let ghost cert_part = opt_tlv(der::BOOLEAN, boolean_content(r@.cert_req));
    let ghost extensions_part = opt_tlv(
        encode::constructed_id(der::CTX_0),
        opt_extensions_content(r@.extensions),
    );
    assert(encode::is_len(version, version_part.len()));
    assert(encode::is_len(policy, policy_part.len()));
    assert(encode::is_len(nonce, nonce_part.len()));
    assert(encode::is_len(cert_req, cert_part.len()));
    assert(encode::is_len(extensions, extensions_part.len()));
    let tail = encode::add_len(policy, encode::add_len(nonce, encode::add_len(cert_req, extensions)));
    let total = encode::add_len(version, encode::add_len(imprint, tail));
    assert(encode::is_len(total, request_content_encoding(r@).len()));
    total.is_some()
}

/// Each part of a request that can be written can be written.
proof fn lemma_parts_fit(r: TimeStampReqView)
    requires
        request_fits(r),
    ensures
        r.version.len() <= 0xffff_ffff,
        imprint_content_encoding(r.message_imprint).len() <= 0xffff_ffff,
        opt_tlv(der::OBJECT_IDENTIFIER, r.req_policy).len() <= 0xffff_ffff,
        opt_tlv(der::INTEGER, r.nonce).len() <= 0xffff_ffff,
        r.extensions matches Some(v) ==> extensions_encoding(v).len() <= 0xffff_ffff,
{
}

proof fn lemma_append(a: Seq<u8>, b: Seq<u8>, c: Seq<u8>, d: Seq<u8>, e: Seq<u8>, f: Seq<u8>)
    ensures
        a + b + c + d + e + f == a + (b + (c + (d + (e + f)))),
{
    assert(a + b + c + d + e + f =~= a + (b + (c + (d + (e + f)))));
}

/// Writes the `[0]` of a request.
fn encode_opt_extensions(extensions: &Option<Vec<Extension>>) -> (res: Vec<u8>)
    requires
        x509::opt_extensions_view(*extensions) matches Some(v) ==> extensions_encoding(v).len()
            <= 0xffff_ffff,
    ensures
        res@ == opt_tlv(
            encode::constructed_id(der::CTX_0),
            opt_extensions_content(x509::opt_extensions_view(*extensions)),
        ),
{
    match extensions {
        Some(v) => {
            let list = encode_extensions(v);
            encode::write_tlv(der::CTX_0 + 32, &list)
        },
        None => Vec::new(),
    }
}

/// Writes a request.
pub fn encode_request(r: &TimeStampReq) -> (res: Vec<u8>)
    requires
        request_fits(r@),
    ensures
        res@ == request_encoding(r@),
{
    proof {
        lemma_parts_fit(r@);
    }
    let mut content = encode::write_tlv(der::INTEGER, &r.version);
    let imprint = encode_imprint(&r.message_imprint);
    let policy = write_opt_tlv(der::OBJECT_IDENTIFIER, &r.req_policy);
    let nonce = write_opt_tlv(der::INTEGER, &r.nonce);
    let cert_req = match r.cert_req {
        Some(b) => write_boolean(b),
        None => Vec::new(),
    };
    let extensions = encode_opt_extensions(&r.extensions);
    proof {
        lemma_append(content@, imprint@, policy@, nonce@, cert_req@, extensions@);
    }
    content.extend_from_slice(&imprint);
    content.extend_from_slice(&policy);
    content.extend_from_slice(&nonce);
    content.extend_from_slice(&cert_req);
    content.extend_from_slice(&extensions);
    assert(content@ == request_content_encoding(r@));
    encode::write_tlv(der::SEQUENCE + 32, &content)
}

/// The request for a time stamp over `message`, with `nonce` to tell the answer by. The digest of
/// the message goes into the request, and the certificate of the authority is asked for.
pub open spec fn message_request(
    message: Seq<u8>,
    algorithm: DigestAlgorithm,
    nonce: u64,
) -> TimeStampReqView {
    TimeStampReqView {
        version: seq![1u8],
        message_imprint: MessageImprintView {
            hash_algorithm: AlgorithmIdentifierView {
                algorithm: digest::digest_oid(algorithm),
                parameters: None,
            },
            hashed_message: outside::digest_of(algorithm, message),
        },
        req_policy: None,
        nonce: Some(der::unsigned_integer(nonce as nat)),
        cert_req: Some(true),
        extensions: None,
    }
}

/// A request for a time stamp has room to spare.
proof fn lemma_message_request_fits(message: Seq<u8>, algorithm: DigestAlgorithm, nonce: u64)
    requires
        outside::digest_of(algorithm, message).len() == digest::digest_len(algorithm),
    ensures
        request_fits(message_request(message, algorithm, nonce)),
{
    der::lemma_unsigned_integer(nonce as nat);
    der::lemma_unsigned_integer_len(nonce);
}

/// Makes the request for a time stamp over `message` with the given nonce.
pub fn time_stamp_message(message: &[u8], digest_algorithm: DigestAlgorithm, nonce: u64) -> (res:
    TimeStampReq)
    ensures
        res@ == message_request(message@, digest_algorithm, nonce),
        res.message_imprint.hashed_message@ == outside::digest_of(digest_algorithm, message@),
        res.message_imprint.hash_algorithm.algorithm@ == digest::digest_oid(digest_algorithm),
        request_fits(res@),
{
    let hashed_message = outside::digest_data(digest_algorithm, message);
    let algorithm = match digest_algorithm {
        DigestAlgorithm::Sha1 => slice_to_vec(&oids::SHA1_OID),
        DigestAlgorithm::Sha256 => slice_to_vec(&oids::SHA256_OID),
        DigestAlgorithm::Sha384 => slice_to_vec(&oids::SHA384_OID),
        DigestAlgorithm::Sha512 => slice_to_vec(&oids::SHA512_OID),
    };
    let request = TimeStampReq {
        version: vec![1],
        message_imprint: MessageImprint {
            hash_algorithm: AlgorithmIdentifier { algorithm, parameters: None },
            hashed_message,
        },
        req_policy: None,
        nonce: Some(outside::integer_from_u64(nonce)),
        cert_req: Some(true),
        extensions: None,
    };
    proof {
        assert(request@.version =~= seq![1u8]);
        lemma_message_request_fits(message@, digest_algorithm, nonce);
    }
    request
}

/// Whether `nonce` may come of a draw. `None` stands for a draw that fails.
pub closed spec fn may_draw(nonce: Option<u64>) -> bool {
    call_ensures(outside::random_u64, (), nonce)
}

/// Makes the request for a time stamp over `message` with a random nonce.
pub fn time_stamp_message_http(message: &[u8], digest_algorithm: DigestAlgorithm) -> (res: Result<
    TimeStampReq,
    Error,
>)
    ensures
        match res {
            Ok(r) => exists|nonce: u64|
                may_draw(Some(nonce)) && r@ == #[trigger] message_request(
                    message@,
                    digest_algorithm,
                    nonce,
                ) && request_fits(r@),
            Err(e) => may_draw(None) && e == Error::CoseTimeStampGeneration,
        },
{
    match outside::random_u64() {
        Some(nonce) => Ok(time_stamp_message(message, digest_algorithm, nonce)),
        None => Err(Error::CoseTimeStampGeneration),
    }
}

/// The encoded request for a time stamp over `data`, by its SHA-256 digest and with a random nonce.
pub fn default_rfc3161_message(data: &[u8]) -> (res: Result<Vec<u8>, Error>)
    ensures
        match res {
            Ok(body) => exists|nonce: u64|
                may_draw(Some(nonce)) && body@ == request_encoding(
                    #[trigger] message_request(data@, DigestAlgorithm::Sha256, nonce),
                ) && rfc3161::request(body@) == Some(
                    request_laws::with_parameters(
                        message_request(data@, DigestAlgorithm::Sha256, nonce),
                    ),
                ) && exchange_laws::is_request_for(
                    rfc3161::request(body@)->0,
                    data@,
                    DigestAlgorithm::Sha256,
                    nonce,
                ),
            Err(e) => may_draw(None) && e == Error::CoseTimeStampGeneration,
        },
{
    match time_stamp_message_http(data, DigestAlgorithm::Sha256) {
        Ok(request) => {
            let body = encode_request(&request);
            proof {
                let nonce = choose|nonce: u64|
                    may_draw(Some(nonce)) && request@ == #[trigger] message_request(data@, DigestAlgorithm::Sha256, nonce);
                der::lemma_unsigned_integer(nonce as nat);
                request_laws::law_request_read_back(request@, Seq::empty());
                exchange_laws::law_message_read_back(
                    data@,
                    DigestAlgorithm::Sha256,
                    nonce,
                    Seq::empty(),
                );
                assert(body@ + Seq::<u8>::empty() =~= body@);
            }
            Ok(body)
        },
        Err(e) => Err(e),
    }
}

} // verus!
