//! Whole time stamps: reading and verifying them.
use bcder::decode::Constructed;
use bcder::encode::Values;
use bcder::Mode;
use cryptographic_message_syntax::asn1::{rfc3161 as cms3161, rfc5652 as cms5652};
use std::cell::RefCell;
use time_stamp::container::{make_cose_timestamp, TstContainer, TstToken};
use time_stamp::countersign::{cose_countersign_data, cose_sigtst_to_tstinfos, ProtectedHeader};
use time_stamp::digest::DigestAlgorithm;
use time_stamp::error::Error;
use time_stamp::http::{
    check_reply_body, check_reply_head, default_rfc3161_request, time_stamp_request_message,
};
use time_stamp::request::{
    check_request_fits, default_rfc3161_message, encode_request, time_stamp_message,
    time_stamp_message_http,
};
use time_stamp::response::get_timestamp_response;
use time_stamp::rfc3161::{
    read_request, read_response, read_tst_info, PkiFailureInfo, PkiStatus, TimeStampReq,
};
use time_stamp::rfc5652::{read_signed_data, SignerIdentifier};
use time_stamp::time::Time;
use time_stamp::validator::LocalValidator;
use time_stamp::verify::{
    check_signed_data, check_timestamp, conclude, match_imprint, verify_timestamp, CoseValidator,
    SignatureInput,
};
use time_stamp::x509::{check_key_fits, encode_key, read_issuer, Extension};
use x509_certificate::DigestAlgorithm as Outside;
use x509_certificate::{KeyAlgorithm, Signer, X509CertificateBuilder};

const OID_SIGNED_DATA: [u8; 9] = [42, 134, 72, 134, 247, 13, 1, 7, 2];
const OID_TST_INFO: [u8; 11] = [42, 134, 72, 134, 247, 13, 1, 9, 16, 1, 4];
const OID_SHA1: [u8; 5] = [43, 14, 3, 2, 26];
const OID_SHA256: [u8; 9] = [96, 134, 72, 1, 101, 3, 4, 2, 1];
const OID_SHA384: [u8; 9] = [96, 134, 72, 1, 101, 3, 4, 2, 2];
const OID_SHA512: [u8; 9] = [96, 134, 72, 1, 101, 3, 4, 2, 3];
const OID_RSA: [u8; 9] = [42, 134, 72, 134, 247, 13, 1, 1, 1];
const OID_SHA256_RSA: [u8; 9] = [42, 134, 72, 134, 247, 13, 1, 1, 11];
const OID_ED25519: [u8; 3] = [43, 101, 112];
const POLICY: [u8; 3] = [42, 3, 4];
const SERIAL: [u8; 2] = [0x12, 0x34];
const MESSAGE: &[u8] = b"what is time-stamped";

fn tlv(id: u8, parts: &[Vec<u8>]) -> Vec<u8> {
    let content = parts.concat();
    let mut out = vec![id];
    let n = content.len();
    if n < 0x80 {
        out.push(n as u8);
    } else if n < 0x100 {
        out.extend_from_slice(&[0x81, n as u8]);
    } else {
        assert!(n < 0x100_0000);
        if n >= 0x1_0000 {
            out.extend_from_slice(&[0x83, (n >> 16) as u8]);
        } else {
            out.push(0x82);
        }
        out.extend_from_slice(&[(n >> 8) as u8, n as u8]);
    }
    out.extend_from_slice(&content);
    out
}

fn oid(content: &[u8]) -> Vec<u8> {
    tlv(0x06, &[content.to_vec()])
}

fn integer(content: &[u8]) -> Vec<u8> {
    tlv(0x02, &[content.to_vec()])
}

fn octets(content: &[u8]) -> Vec<u8> {
    tlv(0x04, &[content.to_vec()])
}

fn algorithm(id: &[u8]) -> Vec<u8> {
    tlv(0x30, &[oid(id), vec![0x05, 0x00]])
}

fn name(common_name: &str) -> Vec<u8> {
    let value = tlv(0x0c, &[common_name.as_bytes().to_vec()]);
    tlv(0x30, &[tlv(0x31, &[tlv(0x30, &[oid(&[0x55, 4, 3]), value])])])
}

fn extension(id: &[u8], critical: bool, value: &[u8]) -> Vec<u8> {
    let mut parts = vec![oid(id)];
    if critical {
        parts.push(vec![0x01, 0x01, 0xff]);
    }
    parts.push(octets(value));
    tlv(0x30, &parts)
}

fn public_key() -> Vec<u8> {
    tlv(0x30, &[algorithm(&OID_RSA), tlv(0x03, &[vec![0, 1, 2, 3, 4]])])
}

struct Certificate {
    issuer: &'static str,
    serial: Vec<u8>,
    signature_algorithm: Vec<u8>,
    not_before: Vec<u8>,
    not_after: Vec<u8>,
    key_identifier: Vec<u8>,
}

impl Certificate {
    fn new() -> Self {
        Certificate {
            issuer: "Authority",
            serial: SERIAL.to_vec(),
            signature_algorithm: OID_SHA256_RSA.to_vec(),
            not_before: tlv(0x17, &[b"200101000000Z".to_vec()]),
            not_after: tlv(0x18, &[b"20301231235959Z".to_vec()]),
            key_identifier: vec![9, 8, 7],
        }
    }

    fn encode(&self) -> Vec<u8> {
        let extensions = tlv(
            0x30,
            &[
                extension(&[0x55, 29, 15], true, &[3, 2, 1, 6]),
                extension(&[2, 5, 29, 14], false, &self.key_identifier),
            ],
        );
        let tbs = tlv(
            0x30,
            &[
                tlv(0xa0, &[integer(&[2])]),
                integer(&self.serial),
                algorithm(&self.signature_algorithm),
                name(self.issuer),
                tlv(0x30, &[self.not_before.clone(), self.not_after.clone()]),
                name("Stamper"),
                public_key(),
                tlv(0xa3, &[extensions]),
            ],
        );
        tlv(0x30, &[tbs, algorithm(&OID_SHA256_RSA), tlv(0x03, &[vec![0, 5, 6]])])
    }
}

struct Token {
    imprint_algorithm: Vec<u8>,
    imprint: Vec<u8>,
    gen_time: Vec<u8>,
    options: Vec<u8>,
}

impl Token {
    fn new() -> Self {
        Token {
            imprint_algorithm: OID_SHA256.to_vec(),
            imprint: Outside::Sha256.digest_data(MESSAGE),
            gen_time: b"20240229120000Z".to_vec(),
            options: integer(&[0x11, 0x22]),
        }
    }

    fn encode(&self) -> Vec<u8> {
        tlv(
            0x30,
            &[
                integer(&[1]),
                oid(&POLICY),
                tlv(0x30, &[algorithm(&self.imprint_algorithm), octets(&self.imprint)]),
                integer(&[0x00, 0x99]),
                tlv(0x18, &[self.gen_time.clone()]),
                self.options.clone(),
            ],
        )
    }
}

struct Stamp {
    status: Vec<u8>,
    token_type: Vec<u8>,
    content_type: Vec<u8>,
    content: Option<Vec<u8>>,
    certificates: Option<Vec<Vec<u8>>>,
    sid: Vec<u8>,
    digest_algorithm: Vec<u8>,
    signed_attributes: Option<Vec<u8>>,
    signature_algorithm: Vec<u8>,
    other_signers: Vec<u8>,
}

impl Stamp {
    fn new() -> Self {
        Stamp {
            status: tlv(0x30, &[integer(&[0])]),
            token_type: OID_SIGNED_DATA.to_vec(),
            content_type: OID_TST_INFO.to_vec(),
            content: Some(Token::new().encode()),
            certificates: Some(vec![Certificate::new().encode()]),
            sid: tlv(0x30, &[name("Authority"), integer(&SERIAL)]),
            digest_algorithm: OID_SHA256.to_vec(),
            signed_attributes: Some(Self::attributes()),
            signature_algorithm: OID_RSA.to_vec(),
            other_signers: Vec::new(),
        }
    }

    fn attributes() -> Vec<u8> {
        [
            tlv(0x30, &[oid(&[42, 3, 9]), tlv(0x31, &[oid(&OID_TST_INFO)])]),
            tlv(0x30, &[oid(&[42, 3, 2]), tlv(0x31, &[octets(&[7; 32]), octets(&[8; 3])])]),
        ]
        .concat()
    }

    fn signer_info(&self) -> Vec<u8> {
        let attributes = match &self.signed_attributes {
            Some(a) => tlv(0xa0, &[a.clone()]),
            None => Vec::new(),
        };
        tlv(
            0x30,
            &[
                integer(&[1]),
                self.sid.clone(),
                algorithm(&self.digest_algorithm),
                attributes,
                algorithm(&self.signature_algorithm),
                octets(b"signature"),
            ],
        )
    }

    fn signed_data(&self) -> Vec<u8> {
        let content = match &self.content {
            Some(c) => tlv(0xa0, &[octets(c)]),
            None => Vec::new(),
        };
        let certificates = match &self.certificates {
            Some(c) => tlv(0xa0, c),
            None => Vec::new(),
        };
        tlv(
            0x30,
            &[
                integer(&[3]),
                tlv(0x31, &[algorithm(&self.digest_algorithm)]),
                tlv(0x30, &[oid(&self.content_type), content]),
                certificates,
                tlv(0x31, &[self.other_signers.clone(), self.signer_info()]),
            ],
        )
    }

    fn encode(&self) -> Vec<u8> {
        let token = tlv(0x30, &[oid(&self.token_type), tlv(0xa0, &[self.signed_data()])]);
        tlv(0x30, &[self.status.clone(), token])
    }
}

struct Answers(Result<bool, Error>, RefCell<Vec<SignatureInput>>);

impl Answers {
    fn new(answer: Result<bool, Error>) -> Self {
        Answers(answer, RefCell::new(Vec::new()))
    }
}

impl CoseValidator for Answers {
    fn validate(&self, input: &SignatureInput) -> Result<bool, Error> {
        self.1.borrow_mut().push(input.clone());
        self.0.clone()
    }
}

fn verify(stamp: &Stamp) -> Result<Vec<u8>, Error> {
    verify_timestamp(&stamp.encode(), MESSAGE, &Answers::new(Ok(true))).map(|t| t.serial_number)
}

#[test]
fn a_time_stamp_verifies() {
    let ts = Stamp::new().encode();
    let validator = Answers::new(Ok(true));
    let tst = verify_timestamp(&ts, MESSAGE, &validator).unwrap();
    assert_eq!(tst.version, vec![1]);
    assert_eq!(tst.policy, POLICY.to_vec());
    assert_eq!(tst.serial_number, vec![0x00, 0x99]);
    assert_eq!(tst.nonce, Some(vec![0x11, 0x22]));
    assert_eq!(tst.gen_time.instant.timestamp, 1709208000);
    assert_eq!(tst.gen_time.instant.nanos, 0);
    assert_eq!(tst.message_imprint.hashed_message.len(), 32);
    let inputs = validator.1.into_inner();
    assert_eq!(inputs.len(), 1);
    assert_eq!(inputs[0].validator, LocalValidator::Rs256);
    assert_eq!(inputs[0].signature, b"signature".to_vec());
    assert_eq!(inputs[0].data, tlv(0x31, &[Stamp::attributes()]));
    assert_eq!(inputs[0].public_key, public_key());
}

#[test]
fn what_follows_a_time_stamp_does_not_matter() {
    let mut ts = Stamp::new().encode();
    ts.extend_from_slice(&[0xff, 0x00, 0x30]);
    assert!(verify_timestamp(&ts, MESSAGE, &Answers::new(Ok(true))).is_ok());
    ts.truncate(ts.len() - 4);
    assert_eq!(
        verify_timestamp(&ts, MESSAGE, &Answers::new(Ok(true))),
        Err(Error::CoseInvalidTimeStamp)
    );
}

#[test]
fn without_signed_attributes_the_content_is_signed() {
    let stamp = Stamp { signed_attributes: None, ..Stamp::new() };
    let pending = check_timestamp(&stamp.encode()).unwrap();
    assert_eq!(pending.input.data, Token::new().encode());
}

#[test]
fn signed_attributes_end_at_another_value() {
    let mut attributes = Stamp::attributes();
    attributes.extend_from_slice(&integer(&[5]));
    let stamp = Stamp { signed_attributes: Some(attributes), ..Stamp::new() };
    let pending = check_timestamp(&stamp.encode()).unwrap();
    assert_eq!(pending.input.data, tlv(0x31, &[Stamp::attributes()]));
    let broken = [Stamp::attributes(), vec![0x02, 0x09]].concat();
    let stamp = Stamp { signed_attributes: Some(broken), ..Stamp::new() };
    assert_eq!(check_timestamp(&stamp.encode()), Err(Error::CoseInvalidTimeStamp));
}

#[test]
fn the_signature_must_hold() {
    let ts = Stamp::new().encode();
    let refused = verify_timestamp(&ts, MESSAGE, &Answers::new(Ok(false)));
    assert_eq!(refused, Err(Error::CoseTimeStampAuthority));
    let failure = Error::OtherError("no key".to_string());
    let failed = verify_timestamp(&ts, MESSAGE, &Answers::new(Err(failure.clone())));
    assert_eq!(failed, Err(failure));
}

#[test]
fn the_data_must_match() {
    let ts = Stamp::new().encode();
    let other = verify_timestamp(&ts, b"other", &Answers::new(Ok(true)));
    assert_eq!(other, Err(Error::CoseTimeStampMismatch));
    let refused = verify_timestamp(&ts, b"other", &Answers::new(Ok(false)));
    assert_eq!(refused, Err(Error::CoseTimeStampAuthority));
}

#[test]
fn every_digest_algorithm_is_known() {
    for (id, digest) in [
        (OID_SHA1.to_vec(), Outside::Sha1.digest_data(MESSAGE)),
        (OID_SHA256.to_vec(), Outside::Sha256.digest_data(MESSAGE)),
        (OID_SHA384.to_vec(), Outside::Sha384.digest_data(MESSAGE)),
        (OID_SHA512.to_vec(), Outside::Sha512.digest_data(MESSAGE)),
    ] {
        let token = Token { imprint_algorithm: id.clone(), imprint: digest, ..Token::new() };
        let stamp = Stamp { content: Some(token.encode()), ..Stamp::new() };
        assert_eq!(verify(&stamp), Ok(vec![0x00, 0x99]), "{:?}", id);
    }
    let token = Token { imprint_algorithm: OID_RSA.to_vec(), ..Token::new() };
    let stamp = Stamp { content: Some(token.encode()), ..Stamp::new() };
    assert_eq!(verify(&stamp), Err(Error::UnsupportedType));
}

#[test]
fn an_algorithm_that_is_no_identifier_is_not_known() {
    let mut tst = read_tst_info(&Token::new().encode()).unwrap();
    tst.message_imprint.hash_algorithm.algorithm = vec![0x81];
    assert_eq!(conclude(tst.clone(), Ok(true), MESSAGE), Err(Error::UnsupportedType));
    tst.message_imprint.hash_algorithm.algorithm = Vec::new();
    assert_eq!(conclude(tst.clone(), Ok(true), MESSAGE), Err(Error::UnsupportedType));
    assert_eq!(conclude(tst, Ok(false), MESSAGE), Err(Error::CoseTimeStampAuthority));
}

#[test]
fn the_certificate_must_be_valid_at_that_time() {
    for (time, valid) in [
        ("20191231235959Z", false),
        ("20191231235959.9Z", false),
        ("20200101000000Z", true),
        ("20301231235959Z", true),
        ("20301231235959.999999999Z", true),
        ("20310101000000Z", false),
    ] {
        let token = Token { gen_time: time.as_bytes().to_vec(), ..Token::new() };
        let stamp = Stamp { content: Some(token.encode()), ..Stamp::new() };
        let expected =
            if valid { Ok(vec![0x00, 0x99]) } else { Err(Error::CoseTimeStampValidity) };
        assert_eq!(verify(&stamp), expected, "{}", time);
    }
}

#[test]
fn times_are_read_with_their_fractions() {
    let token = Token { gen_time: b"20240229120000.5Z".to_vec(), ..Token::new() };
    let tst = read_tst_info(&token.encode()).unwrap();
    assert_eq!(tst.gen_time.instant.timestamp, 1709208000);
    assert_eq!(tst.gen_time.instant.nanos, 500000000);
    for time in [
        "20240229120000.123456789Z",
        "20240229120000Z",
    ] {
        let token = Token { gen_time: time.as_bytes().to_vec(), ..Token::new() };
        assert!(read_tst_info(&token.encode()).is_some(), "{}", time);
    }
    for time in [
        "20240229120000.1234567890Z",
        "20240229120000.12345678901234Z",
        "20240229120000.1234567890",
        "20240229120000",
        "20240230120000Z",
        "20240229120000+0100",
        "2024022912Z",
    ] {
        let token = Token { gen_time: time.as_bytes().to_vec(), ..Token::new() };
        assert!(read_tst_info(&token.encode()).is_none(), "{}", time);
    }
}

#[test]
fn certificates_are_needed() {
    let stamp = Stamp { certificates: None, ..Stamp::new() };
    assert_eq!(verify(&stamp), Err(Error::CoseTimeStampValidity));
    let stamp = Stamp { certificates: Some(Vec::new()), ..Stamp::new() };
    assert_eq!(verify(&stamp), Err(Error::CoseInvalidTimeStamp));
}

#[test]
fn the_certificate_is_found_by_issuer_and_serial_number() {
    let other = Certificate { serial: vec![5], ..Certificate::new() };
    let another = Certificate { issuer: "Nobody", ..Certificate::new() };
    let stamp = Stamp {
        certificates: Some(vec![other.encode(), another.encode(), Certificate::new().encode()]),
        ..Stamp::new()
    };
    assert!(verify(&stamp).is_ok());
    let stamp =
        Stamp { certificates: Some(vec![other.encode(), another.encode()]), ..Stamp::new() };
    assert_eq!(verify(&stamp), Err(Error::CoseInvalidTimeStamp));
}

#[test]
fn the_certificate_is_found_by_key_identifier() {
    let sid = tlv(0xa0, &[octets(&[9, 8, 7])]);
    let other = Certificate { key_identifier: vec![1], ..Certificate::new() };
    let stamp = Stamp {
        sid: sid.clone(),
        certificates: Some(vec![other.encode(), Certificate::new().encode()]),
        ..Stamp::new()
    };
    assert!(verify(&stamp).is_ok());
    let stamp = Stamp { sid, certificates: Some(vec![other.encode()]), ..Stamp::new() };
    assert_eq!(verify(&stamp), Err(Error::CoseInvalidTimeStamp));
}

#[test]
fn the_signer_is_chosen_among_given_certificates() {
    let response = get_timestamp_response(&Stamp::new().encode()).unwrap();
    let mut data = response.signed_data().unwrap().unwrap();
    let pending = check_signed_data(&response, &data).unwrap();
    assert_eq!(pending.input.public_key, public_key());
    let mut other = data.certificates.as_ref().unwrap()[0].clone();
    other.parts.serial_number = vec![5];
    other.parts.key_bits = vec![9];
    data.certificates.as_mut().unwrap().insert(0, other.clone());
    let pending = check_signed_data(&response, &data).unwrap();
    assert_eq!(pending.input.public_key, public_key());
    data.signer_infos[0].sid =
        SignerIdentifier::IssuerAndSerialNumber(name("Authority"), vec![5]);
    let pending = check_signed_data(&response, &data).unwrap();
    assert_eq!(pending.input.public_key, encode_key(&other.parts));
    data.signer_infos[0].sid = SignerIdentifier::SubjectKeyIdentifier(vec![1]);
    let none = check_signed_data(&response, &data);
    assert_eq!(none, Err(Error::CoseInvalidTimeStamp));
    data.certificates = None;
    let none = check_signed_data(&response, &data);
    assert_eq!(none, Err(Error::CoseTimeStampValidity));
}

#[test]
fn a_statement_is_held_against_a_digest() {
    let tst = read_tst_info(&Token::new().encode()).unwrap();
    let digest = Outside::Sha256.digest_data(MESSAGE);
    assert_eq!(match_imprint(tst.clone(), &digest), Ok(tst.clone()));
    assert_eq!(match_imprint(tst, &[]), Err(Error::CoseTimeStampMismatch));
}

#[test]
fn a_key_is_written_with_parameters() {
    let data = read_signed_data(&Stamp::new().signed_data()).unwrap();
    let mut parts = data.certificates.unwrap()[0].parts.clone();
    assert_eq!(encode_key(&parts), public_key());
    parts.key_parameters = None;
    assert_eq!(encode_key(&parts), public_key());
    parts.key_parameters = Some(oid(&[42, 3]));
    parts.key_unused_bits = 3;
    let expected = tlv(
        0x30,
        &[tlv(0x30, &[oid(&OID_RSA), oid(&[42, 3])]), tlv(0x03, &[vec![3, 1, 2, 3, 4]])],
    );
    assert_eq!(encode_key(&parts), expected);
}

#[test]
fn the_issuer_is_read_from_the_certificate() {
    let certificate = Certificate::new().encode();
    assert_eq!(read_issuer(&certificate), Some(name("Authority")));
    let tbs = tlv(0x30, &[integer(&SERIAL), algorithm(&OID_RSA), name("Older")]);
    assert_eq!(read_issuer(&tlv(0x30, &[tbs])), Some(name("Older")));
    let tbs = tlv(0x30, &[integer(&SERIAL), algorithm(&OID_RSA)]);
    assert_eq!(read_issuer(&tlv(0x30, &[tbs])), None);
    assert_eq!(read_issuer(&[]), None);
}

#[test]
fn a_long_issuer_is_read() {
    let long: &'static str = Box::leak("n".repeat(0x8000).into_boxed_str());
    let certificate = Certificate { issuer: long, ..Certificate::new() };
    let stamp = Stamp {
        certificates: Some(vec![certificate.encode()]),
        sid: tlv(0x30, &[name(long), integer(&SERIAL)]),
        content: None,
        ..Stamp::new()
    };
    let data = read_signed_data(&stamp.signed_data()).unwrap();
    assert_eq!(data.certificates.unwrap()[0].issuer, name(long));
}

#[test]
fn an_issuer_must_be_a_name() {
    let no_name = tlv(0x30, &[integer(&[1])]);
    let stamp = Stamp { sid: tlv(0x30, &[no_name, integer(&SERIAL)]), ..Stamp::new() };
    assert!(read_signed_data(&stamp.signed_data()).is_none());
    let empty = Stamp { sid: tlv(0x30, &[tlv(0x30, &[]), integer(&SERIAL)]), ..Stamp::new() };
    assert!(read_signed_data(&empty.signed_data()).is_some());
}

#[test]
fn a_time_stamp_states_the_same_to_everyone() {
    let ts = Stamp::new().encode();
    let accepts = Answers::new(Ok(true));
    let first = verify_timestamp(&ts, MESSAGE, &accepts).unwrap();
    let second = verify_timestamp(&ts, MESSAGE, &Answers::new(Ok(true))).unwrap();
    assert_eq!(first, second);
    assert_eq!(first, check_timestamp(&ts).unwrap().tst);
}

#[test]
fn the_first_signature_with_a_certificate_decides() {
    let unknown = Stamp {
        sid: tlv(0x30, &[name("Unknown"), integer(&SERIAL)]),
        ..Stamp::new()
    };
    let stamp = Stamp { other_signers: unknown.signer_info(), ..Stamp::new() };
    assert!(verify(&stamp).is_ok());
    let unsupported = Stamp { digest_algorithm: OID_RSA.to_vec(), ..Stamp::new() };
    let stamp = Stamp { other_signers: unsupported.signer_info(), ..Stamp::new() };
    assert_eq!(verify(&stamp), Err(Error::CoseTimeStampAuthority));
}

#[test]
fn the_first_certificate_that_is_named_decides() {
    let expired = Certificate {
        not_after: tlv(0x17, &[b"200102000000Z".to_vec()]),
        ..Certificate::new()
    };
    let stamp = Stamp {
        certificates: Some(vec![expired.encode(), Certificate::new().encode()]),
        ..Stamp::new()
    };
    assert_eq!(verify(&stamp), Err(Error::CoseTimeStampValidity));
    let stamp = Stamp {
        certificates: Some(vec![Certificate::new().encode(), expired.encode()]),
        ..Stamp::new()
    };
    assert!(verify(&stamp).is_ok());
}

#[test]
fn the_validator_follows_the_algorithms() {
    let certificate =
        Certificate { signature_algorithm: vec![42, 3], ..Certificate::new() }.encode();
    let stamp = Stamp {
        certificates: Some(vec![certificate.clone()]),
        signature_algorithm: OID_ED25519.to_vec(),
        ..Stamp::new()
    };
    let pending = check_timestamp(&stamp.encode()).unwrap();
    assert_eq!(pending.input.validator, LocalValidator::Ed25519);
    let stamp = Stamp {
        certificates: Some(vec![certificate]),
        signature_algorithm: vec![42, 4],
        ..Stamp::new()
    };
    assert_eq!(verify(&stamp), Err(Error::CoseTimeStampAuthority));
}

#[test]
fn a_token_of_another_kind_is_not_valid() {
    let stamp = Stamp { token_type: OID_TST_INFO.to_vec(), ..Stamp::new() };
    assert_eq!(verify(&stamp), Err(Error::CoseInvalidTimeStamp));
    let response = get_timestamp_response(&stamp.encode()).unwrap();
    assert_eq!(response.signed_data(), Err(Error::CoseTimeStampGeneration));
    assert_eq!(response.tst_info(), Err(Error::CoseTimeStampGeneration));
}

#[test]
fn a_response_may_hold_no_token() {
    let ts = tlv(0x30, &[tlv(0x30, &[integer(&[2])])]);
    let response = get_timestamp_response(&ts).unwrap();
    assert!(!response.is_success());
    assert_eq!(response.status.status, PkiStatus::Rejection);
    assert_eq!(response.signed_data(), Ok(None));
    assert_eq!(response.tst_info(), Ok(None));
    let verified = verify_timestamp(&ts, MESSAGE, &Answers::new(Ok(true)));
    assert_eq!(verified, Err(Error::CoseInvalidTimeStamp));
}

#[test]
fn the_content_must_be_a_statement() {
    let stamp = Stamp { content_type: OID_SIGNED_DATA.to_vec(), ..Stamp::new() };
    assert_eq!(verify(&stamp), Err(Error::CoseInvalidTimeStamp));
    let response = get_timestamp_response(&stamp.encode()).unwrap();
    assert_eq!(response.tst_info(), Ok(None));
    let stamp = Stamp { content: None, ..Stamp::new() };
    assert_eq!(verify(&stamp), Err(Error::CoseInvalidTimeStamp));
    let stamp = Stamp { content: Some(vec![0x30, 0x00]), ..Stamp::new() };
    assert_eq!(verify(&stamp), Err(Error::CoseTimeStampGeneration));
    let response = get_timestamp_response(&stamp.encode()).unwrap();
    assert_eq!(response.tst_info(), Err(Error::CoseTimeStampGeneration));
}

#[test]
fn success_is_granted_with_or_without_modifications() {
    for code in 0u8..7 {
        let ts = tlv(0x30, &[tlv(0x30, &[integer(&[code])])]);
        match get_timestamp_response(&ts) {
            Ok(response) => assert_eq!(response.is_success(), code < 2),
            Err(e) => {
                assert_eq!(code, 6);
                assert_eq!(e, Error::CoseInvalidTimeStamp);
            }
        }
    }
}

#[test]
fn the_status_is_read_with_its_reasons() {
    let text = tlv(0x30, &[tlv(0x0c, &[b"no".to_vec()]), tlv(0x0c, &[b"way".to_vec()])]);
    let status = tlv(0x30, &[integer(&[2]), text.clone(), integer(&[14])]);
    let response = read_response(&tlv(0x30, &[status])).unwrap();
    assert_eq!(response.status.status_string, Some(vec![b"no".to_vec(), b"way".to_vec()]));
    assert_eq!(response.status.fail_info, Some(PkiFailureInfo::TimeNotAvailable));
    assert!(response.time_stamp_token.is_none());
    let broken = tlv(0x30, &[tlv(0x0c, &[vec![0xff]])]);
    let status = tlv(0x30, &[integer(&[2]), broken]);
    assert!(read_response(&tlv(0x30, &[status])).is_none());
    let status = tlv(0x30, &[integer(&[2]), text, integer(&[3])]);
    assert!(read_response(&tlv(0x30, &[status])).is_none());
}

#[test]
fn signed_data_is_read_in_full() {
    let data = read_signed_data(&Stamp::new().signed_data()).unwrap();
    assert_eq!(data.version, 3);
    assert_eq!(data.digest_algorithms.len(), 1);
    assert_eq!(data.digest_algorithms[0].algorithm, OID_SHA256.to_vec());
    assert_eq!(data.digest_algorithms[0].parameters, Some(vec![5, 0]));
    let certificate = &data.certificates.as_ref().unwrap()[0];
    assert_eq!(certificate.issuer, name("Authority"));
    assert_eq!(certificate.parts.serial_number, SERIAL.to_vec());
    assert_eq!(certificate.parts.signature_algorithm, OID_SHA256_RSA.to_vec());
    assert_eq!(certificate.parts.key_algorithm, OID_RSA.to_vec());
    assert_eq!(certificate.parts.key_parameters, Some(vec![5, 0]));
    assert_eq!(certificate.parts.key_unused_bits, 0);
    assert_eq!(certificate.parts.key_bits, vec![1, 2, 3, 4]);
    let extensions = certificate.parts.extensions.as_ref().unwrap();
    assert_eq!(extensions.len(), 2);
    assert_eq!(extensions[0], (vec![0x55, 29, 15], vec![3, 2, 1, 6]));
    assert_eq!(extensions[1], (vec![2, 5, 29, 14], vec![9, 8, 7]));
    match (certificate.not_before, certificate.not_after) {
        (Time::UtcTime(from), Time::GeneralTime(to)) => {
            assert_eq!(from.timestamp, 1577836800);
            assert_eq!(to.instant.timestamp, 1924991999);
        }
        _ => panic!("unexpected kinds of times"),
    }
    let info = &data.signer_infos[0];
    assert_eq!(
        info.sid,
        SignerIdentifier::IssuerAndSerialNumber(name("Authority"), SERIAL.to_vec())
    );
    let attributes = info.signed_attributes.as_ref().unwrap();
    assert_eq!(attributes.len(), 2);
    assert_eq!(attributes[1].typ, vec![42, 3, 2]);
    assert_eq!(attributes[1].values, [octets(&[7; 32]), octets(&[8; 3])].concat());
}

#[test]
fn revocation_information_is_not_accepted() {
    let stamp = Stamp::new();
    let content = tlv(0x30, &[oid(&OID_TST_INFO), tlv(0xa0, &[octets(&[1])])]);
    let parts = [
        integer(&[3]),
        tlv(0x31, &[algorithm(&OID_SHA256)]),
        content,
        tlv(0xa1, &[Vec::new()]),
        tlv(0x31, &[stamp.signer_info()]),
    ];
    assert!(read_signed_data(&tlv(0x30, &parts)).is_none());
}

#[test]
fn other_kinds_of_certificates_are_not_accepted() {
    for id in [0xa0u8, 0xa1, 0xa2, 0xa3, 0x20, 0x00, 0x02, 0x80] {
        let other = tlv(id, &[vec![0x05, 0x00]]);
        let stamp = Stamp { certificates: Some(vec![other]), ..Stamp::new() };
        assert!(read_signed_data(&stamp.signed_data()).is_none(), "{:x}", id);
    }
    let mut certificate = Certificate::new().encode();
    certificate[0] = 0x31;
    let stamp = Stamp { certificates: Some(vec![certificate]), ..Stamp::new() };
    assert!(read_signed_data(&stamp.signed_data()).is_some());
}

#[test]
fn the_statement_is_read_in_full() {
    let accuracy = tlv(
        0x30,
        &[integer(&[1]), tlv(0xa0, &[integer(&[2])]), tlv(0xa1, &[integer(&[3])])],
    );
    let tsa = tlv(0xa4, &[name("Stamper")]);
    let extensions = tlv(0xa1, &[tlv(0x30, &[extension(&[42, 5], true, &[1])])]);
    let options = [
        accuracy,
        vec![0x01, 0x01, 0xff],
        integer(&[0x77]),
        tlv(0xa0, &[tsa.clone()]),
        extensions,
    ]
    .concat();
    let token = Token { options, ..Token::new() };
    let tst = read_tst_info(&token.encode()).unwrap();
    let accuracy = tst.accuracy.unwrap();
    assert_eq!(accuracy.seconds, Some(vec![1]));
    assert_eq!(accuracy.millis, Some(vec![2]));
    assert_eq!(accuracy.micros, Some(vec![3]));
    assert_eq!(tst.ordering, Some(true));
    assert_eq!(tst.nonce, Some(vec![0x77]));
    assert_eq!(tst.tsa, Some(tsa));
    assert_eq!(
        tst.extensions,
        Some(vec![Extension { id: vec![42, 5], critical: Some(true), value: vec![1] }])
    );
    let token = Token { options: tlv(0xa0, &[integer(&[1])]), ..Token::new() };
    assert!(read_tst_info(&token.encode()).is_none());
}

fn cms_accepts_response(ts: &[u8]) -> Option<cms3161::TimeStampResp> {
    Constructed::decode(ts, Mode::Der, |cons| cms3161::TimeStampResp::take_from(cons)).ok()
}

/// Holds the readers against those of the crate `cryptographic-message-syntax`.
fn compare_response(ts: &[u8]) {
    let ours = get_timestamp_response(ts).ok();
    let theirs = cms_accepts_response(ts);
    assert_eq!(ours.is_some(), theirs.is_some(), "{:x?}", ts);
    let (ours, theirs) = match (ours, theirs) {
        (Some(ours), Some(theirs)) => (ours, theirs),
        _ => return,
    };
    assert_eq!(ours.status.status as u8, theirs.status.status as u8);
    assert_eq!(ours.status.fail_info.is_some(), theirs.status.fail_info.is_some());
    let token = match &theirs.time_stamp_token {
        Some(token) => token,
        None => {
            assert!(ours.time_stamp_token.is_none());
            return;
        }
    };
    let our_token = ours.time_stamp_token.as_ref().unwrap();
    assert_eq!(our_token.content_type, token.content_type.as_ref().to_vec());
    assert_eq!(our_token.content, token.content.as_slice().to_vec());
    if token.content_type.as_ref() != OID_SIGNED_DATA {
        return;
    }
    let theirs = token.content.clone().decode(cms5652::SignedData::take_from).ok();
    let ours = ours.signed_data().ok().flatten();
    assert_eq!(ours.is_some(), theirs.is_some(), "{:x?}", ts);
    let (ours, theirs) = match (ours, theirs) {
        (Some(ours), Some(theirs)) => (ours, theirs),
        _ => return,
    };
    assert_eq!(ours.version, u8::from(theirs.version));
    assert_eq!(ours.digest_algorithms.len(), theirs.digest_algorithms.len());
    compare_certificates(&ours, &theirs);
    compare_signers(&ours, &theirs);
    assert_eq!(ours.content_info.content_type, theirs.content_info.content_type.as_ref().to_vec());
    let content = theirs.content_info.content.as_ref().map(|c| c.to_bytes().to_vec());
    assert_eq!(ours.content_info.content, content);
    if let Some(content) = content {
        compare_statement(&content);
    }
}

fn compare_certificates(
    ours: &time_stamp::rfc5652::SignedData,
    theirs: &cms5652::SignedData,
) {
    assert_eq!(ours.certificates.is_some(), theirs.certificates.is_some());
    let (ours, theirs) = match (&ours.certificates, &theirs.certificates) {
        (Some(ours), Some(theirs)) => (ours, theirs),
        _ => return,
    };
    assert_eq!(ours.len(), theirs.len());
    for (a, b) in ours.iter().zip(theirs.iter()) {
        if let cms5652::CertificateChoices::Certificate(b) = b {
            let b = &b.tbs_certificate;
            let issuer = b.issuer.encode_ref().to_captured(Mode::Der).to_vec();
            assert_eq!(a.issuer, issuer);
            let key = b.subject_public_key_info.encode_ref().to_captured(Mode::Der).to_vec();
            assert!(check_key_fits(&a.parts));
            assert_eq!(encode_key(&a.parts), key);
            assert_eq!(a.parts.serial_number, b.serial_number.as_slice().to_vec());
        }
    }
}

fn compare_signers(
    ours: &time_stamp::rfc5652::SignedData,
    theirs: &cms5652::SignedData,
) {
    assert_eq!(ours.signer_infos.len(), theirs.signer_infos.len());
    for (a, b) in ours.signer_infos.iter().zip(theirs.signer_infos.iter()) {
        match (&a.sid, &b.sid) {
            (
                SignerIdentifier::IssuerAndSerialNumber(issuer, serial),
                cms5652::SignerIdentifier::IssuerAndSerialNumber(b),
            ) => {
                let captured = b.issuer.encode_ref().to_captured(Mode::Der).to_vec();
                assert_eq!(issuer, &captured);
                assert_eq!(serial, &b.serial_number.as_slice().to_vec());
            }
            (
                SignerIdentifier::SubjectKeyIdentifier(id),
                cms5652::SignerIdentifier::SubjectKeyIdentifier(b),
            ) => assert_eq!(id, &b.to_bytes().to_vec()),
            _ => panic!("another kind of identifier"),
        }
        assert_eq!(a.signature, b.signature.to_bytes().to_vec());
        assert_eq!(a.digest_algorithm.algorithm, b.digest_algorithm.algorithm.as_ref().to_vec());
        match (&a.signed_attributes, &b.signed_attributes) {
            (Some(a), Some(b)) => {
                let mut der = Vec::new();
                cms5652::SignedAttributesDer::new(b.clone(), None)
                    .write_encoded(Mode::Der, &mut der)
                    .unwrap();
                assert_eq!(time_stamp::signed_attributes::encode_signed_attributes(a), der);
            }
            (None, None) => {}
            _ => panic!("only one has signed attributes"),
        }
        assert_eq!(a.unsigned_attributes.is_some(), b.unsigned_attributes.is_some());
    }
}

fn compare_statement(content: &[u8]) {
    let ours = read_tst_info(content);
    let theirs =
        Constructed::decode(content, Mode::Der, |cons| cms3161::TstInfo::take_from(cons)).ok();
    assert_eq!(ours.is_some(), theirs.is_some(), "{:x?}", content);
    if let (Some(a), Some(b)) = (ours, theirs) {
        assert_eq!(a.version, b.version.as_slice().to_vec());
        assert_eq!(a.policy, b.policy.as_ref().to_vec());
        assert_eq!(a.serial_number, b.serial_number.as_slice().to_vec());
        assert_eq!(a.nonce, b.nonce.map(|n| n.as_slice().to_vec()));
        assert_eq!(a.ordering, b.ordering);
        assert_eq!(a.accuracy.is_some(), b.accuracy.is_some());
        assert_eq!(a.tsa.is_some(), b.tsa.is_some());
        assert_eq!(a.extensions.is_some(), b.extensions.is_some());
        let time: chrono::DateTime<chrono::Utc> = b.gen_time.into();
        assert_eq!(a.gen_time.instant.timestamp, time.timestamp());
        assert_eq!(a.gen_time.instant.nanos, time.timestamp_subsec_nanos());
        let hashed = b.message_imprint.hashed_message.to_bytes().to_vec();
        assert_eq!(a.message_imprint.hashed_message, hashed);
    }
}

/// Each octet of `message` in turn changed in some ways, left out, or cut off with all that
/// follows it.
fn variations(message: &[u8]) -> Vec<Vec<u8>> {
    let mut all = Vec::new();
    for i in 0..message.len() {
        for change in [0x00u8, 0x01, 0x02, 0x05, 0x30, 0x80, 0x81, 0x83, 0xa0, 0xff] {
            let mut changed = message.to_vec();
            changed[i] = change;
            all.push(changed);
        }
        for change in [0x01u8, 0x20, 0x80] {
            let mut changed = message.to_vec();
            changed[i] ^= change;
            all.push(changed);
        }
        let mut changed = message.to_vec();
        changed[i] = changed[i].wrapping_add(1);
        all.push(changed);
        let mut shorter = message.to_vec();
        shorter.remove(i);
        all.push(shorter);
        all.push(message[..i].to_vec());
    }
    all
}

#[test]
fn responses_are_read_as_by_other_crates() {
    let unsigned = [Stamp::new().signer_info(), tlv(0x30, &[integer(&[1])])].concat();
    let key = tlv(0xa0, &[octets(&[9, 8, 7])]);
    for stamp in [
        Stamp::new(),
        Stamp { sid: key, certificates: None, signed_attributes: None, ..Stamp::new() },
        Stamp { other_signers: unsigned, ..Stamp::new() },
    ] {
        let ts = stamp.encode();
        compare_response(&ts);
        for changed in variations(&ts) {
            compare_response(&changed);
        }
    }
}

#[test]
fn statements_are_read_as_by_other_crates() {
    let options = [
        tlv(0x30, &[integer(&[1]), tlv(0xa1, &[integer(&[3])])]),
        vec![0x01, 0x01, 0xff],
        integer(&[0x77]),
        tlv(0xa0, &[tlv(0xa4, &[name("Stamper")])]),
        tlv(0xa1, &[tlv(0x30, &[extension(&[42, 5], true, &[1])])]),
    ]
    .concat();
    let token = Token { options, ..Token::new() }.encode();
    compare_statement(&token);
    for changed in variations(&token) {
        compare_statement(&changed);
    }
}

fn statuses() -> Vec<u8> {
    let text = tlv(0x30, &[tlv(0x0c, &[b"no".to_vec()]), tlv(0x0c, &[b"way".to_vec()])]);
    tlv(0x30, &[tlv(0x30, &[integer(&[2]), text, integer(&[25])])])
}

#[test]
fn statuses_are_read_as_by_other_crates() {
    compare_response(&statuses());
    for changed in variations(&statuses()) {
        compare_response(&changed);
    }
}

fn to_cms(r: &[u8]) -> Option<cms3161::TimeStampReq> {
    Constructed::decode(r, Mode::Der, |cons| cms3161::TimeStampReq::take_from(cons)).ok()
}

/// Holds the reader and the writer of requests against those of the same crate.
fn compare_request(data: &[u8]) {
    let ours = read_request(data);
    let theirs = to_cms(data);
    assert_eq!(ours.is_some(), theirs.is_some(), "{:x?}", data);
    if let (Some(ours), Some(theirs)) = (ours, theirs) {
        let mut body = Vec::new();
        theirs.encode_ref().write_encoded(Mode::Der, &mut body).unwrap();
        assert_eq!(encode_request(&ours), body);
    }
}

fn full_request(extensions: bool, parameters: bool) -> Vec<u8> {
    let hash = if parameters { algorithm(&OID_SHA256) } else { tlv(0x30, &[oid(&OID_SHA256)]) };
    let mut parts = vec![
        integer(&[1]),
        tlv(0x30, &[hash, octets(&[3; 32])]),
        oid(&POLICY),
        integer(&[0x00, 0xff]),
        vec![0x01, 0x01, 0x00],
    ];
    if extensions {
        let list = [extension(&[42, 5], true, &[1]), extension(&[42, 6], false, &[2, 3])].concat();
        parts.push(tlv(0xa0, &[tlv(0x30, &[list])]));
    }
    tlv(0x30, &parts)
}

#[test]
fn requests_are_read_and_written_as_by_other_crates() {
    for (extensions, parameters) in [(true, true), (false, true), (true, false), (false, false)] {
        let data = full_request(extensions, parameters);
        compare_request(&data);
        for changed in variations(&data) {
            compare_request(&changed);
        }
    }
}

#[test]
fn parameters_are_read_as_by_other_crates() {
    let parameters: Vec<Vec<u8>> = vec![
        vec![],
        vec![0x05, 0x00, 0x05, 0x00],
        vec![0x00, 0x00],
        vec![0x00, 0x01, 0x00],
        vec![0x20, 0x00],
        vec![0x20, 0x80, 0x00, 0x00],
        vec![0x30, 0x80, 0x00, 0x00],
        vec![0x30, 0x80, 0x05, 0x00, 0x00, 0x00],
        vec![0x30, 0x80, 0x05, 0x00, 0x00, 0x01, 0x00],
        vec![0x30, 0x80, 0x05, 0x00],
        vec![0x30, 0x80, 0x30, 0x80, 0x00, 0x00, 0x00, 0x00],
        vec![0x30, 0x80, 0x30, 0x80, 0x00, 0x00],
        vec![0x30, 0x04, 0x30, 0x80, 0x00, 0x00],
        vec![0x30, 0x02, 0x30, 0x80, 0x00, 0x00],
        vec![0x30, 0x02, 0x00, 0x00],
        vec![0x24, 0x80, 0x04, 0x01, 0x07, 0x00, 0x00],
        vec![0x04, 0x80, 0x00, 0x00],
        vec![0x1f, 0x01, 0x00],
        vec![0x1f, 0x81, 0x01, 0x00],
        vec![0x1f, 0x81, 0x81, 0x01, 0x00],
        vec![0x1f, 0x81, 0x81, 0x81, 0x01, 0x00],
        vec![0x3f, 0x22, 0x02, 0x05, 0x00],
        vec![0x3f, 0x22, 0x80, 0x05, 0x00, 0x00, 0x00],
        vec![0x04, 0x81, 0x01, 0x00],
        vec![0x04, 0x82, 0x00, 0x01, 0x00],
        vec![0x30, 0x03, 0x04, 0x81, 0x00],
    ];
    for p in parameters {
        let hash = tlv(0x30, &[oid(&OID_SHA256), p]);
        let imprint = tlv(0x30, &[hash, octets(&[3; 32])]);
        compare_request(&tlv(0x30, &[integer(&[1]), imprint]));
    }
}

#[test]
fn what_follows_is_read_as_by_other_crates() {
    let extra = integer(&[5]);
    let stamp = Stamp::new();
    let content = [stamp.signed_data(), extra.clone()].concat();
    let token = tlv(0x30, &[oid(&OID_SIGNED_DATA), tlv(0xa0, &[content])]);
    let ts = tlv(0x30, &[stamp.status.clone(), token]);
    compare_response(&ts);
    assert!(verify_timestamp(&ts, MESSAGE, &Answers::new(Ok(true))).is_ok());
    let statement = [Token::new().encode(), extra.clone()].concat();
    let stamp = Stamp { content: Some(statement), ..Stamp::new() };
    compare_response(&stamp.encode());
    assert!(verify(&stamp).is_ok());
    let attributes = [Stamp::attributes(), extra].concat();
    compare_response(&Stamp { signed_attributes: Some(attributes), ..Stamp::new() }.encode());
    let empty = Stamp { signed_attributes: Some(Vec::new()), ..Stamp::new() };
    compare_response(&empty.encode());
    let pending = check_timestamp(&empty.encode()).unwrap();
    assert_eq!(pending.input.data, vec![0x31, 0x00]);
}

#[test]
fn a_request_is_written_as_it_was_read() {
    let data = full_request(false, true);
    let request = read_request(&data).unwrap();
    assert_eq!(encode_request(&request), data);
    let with_null = read_request(&full_request(false, false)).unwrap();
    assert_eq!(with_null.message_imprint.hash_algorithm.parameters, None);
    assert_eq!(encode_request(&with_null), data);
    let trailing = [data.clone(), vec![1, 2, 3]].concat();
    assert_eq!(read_request(&trailing), Some(request));
}

#[test]
fn ordinary_requests_can_be_written() {
    for (extensions, parameters) in [(true, true), (false, true), (true, false), (false, false)] {
        let request = read_request(&full_request(extensions, parameters)).unwrap();
        assert!(check_request_fits(&request));
    }
    let long = TimeStampReq { version: vec![1; 0x20_0000], ..request_with_nonce(None) };
    assert!(check_request_fits(&long));
}

#[test]
fn a_request_with_extensions_is_not_read_back() {
    let request = read_request(&full_request(true, true)).unwrap();
    assert_eq!(request.extensions.as_ref().unwrap().len(), 2);
    assert_eq!(read_request(&encode_request(&request)), None);
}

#[test]
fn a_request_is_made_for_a_message() {
    let request = time_stamp_message(MESSAGE, DigestAlgorithm::Sha256, 0x8000_0000_0000_0001);
    let digest = Outside::Sha256.digest_data(MESSAGE);
    assert_eq!(request.version, vec![1]);
    assert_eq!(request.message_imprint.hash_algorithm.algorithm, OID_SHA256.to_vec());
    assert_eq!(request.message_imprint.hashed_message, digest);
    assert_eq!(request.req_policy, None);
    assert_eq!(request.nonce, Some(vec![0, 0x80, 0, 0, 0, 0, 0, 0, 1]));
    assert_eq!(request.cert_req, Some(true));
    assert_eq!(request.extensions, None);
    let body = encode_request(&request);
    let expected = tlv(
        0x30,
        &[
            integer(&[1]),
            tlv(0x30, &[algorithm(&OID_SHA256), octets(&digest)]),
            integer(&[0, 0x80, 0, 0, 0, 0, 0, 0, 1]),
            vec![0x01, 0x01, 0xff],
        ],
    );
    assert_eq!(body, expected);
}

#[test]
fn nonces_take_as_few_octets_as_they_need() {
    for (nonce, content) in [
        (0u64, vec![0u8]),
        (0x7f, vec![0x7f]),
        (0x80, vec![0x00, 0x80]),
        (0x7fff, vec![0x7f, 0xff]),
        (0x8000, vec![0x00, 0x80, 0x00]),
        (0x0100_0000, vec![0x01, 0x00, 0x00, 0x00]),
        (u64::MAX, vec![0, 255, 255, 255, 255, 255, 255, 255, 255]),
    ] {
        let request = time_stamp_message(MESSAGE, DigestAlgorithm::Sha1, nonce);
        assert_eq!(request.nonce, Some(content));
        assert_eq!(request.message_imprint.hashed_message.len(), 20);
    }
}

#[test]
fn every_digest_algorithm_can_be_asked_for() {
    for (algorithm, id, len) in [
        (DigestAlgorithm::Sha1, OID_SHA1.to_vec(), 20),
        (DigestAlgorithm::Sha256, OID_SHA256.to_vec(), 32),
        (DigestAlgorithm::Sha384, OID_SHA384.to_vec(), 48),
        (DigestAlgorithm::Sha512, OID_SHA512.to_vec(), 64),
    ] {
        let request = time_stamp_message(MESSAGE, algorithm, 1);
        assert_eq!(request.message_imprint.hash_algorithm.algorithm, id);
        assert_eq!(request.message_imprint.hashed_message.len(), len);
    }
}

#[test]
fn default_messages_are_read_back_and_differ() {
    let first = default_rfc3161_message(MESSAGE).unwrap();
    let second = default_rfc3161_message(MESSAGE).unwrap();
    assert_ne!(first, second);
    let request = read_request(&first).unwrap();
    assert_eq!(request.cert_req, Some(true));
    assert!(request.nonce.is_some());
    assert_eq!(encode_request(&request), first);
    let other = time_stamp_message_http(MESSAGE, DigestAlgorithm::Sha512).unwrap();
    assert_eq!(other.message_imprint.hash_algorithm.algorithm, OID_SHA512.to_vec());
}

fn request_with_nonce(nonce: Option<Vec<u8>>) -> TimeStampReq {
    TimeStampReq { nonce, ..time_stamp_message(MESSAGE, DigestAlgorithm::Sha256, 1) }
}

#[test]
fn what_is_posted_is_the_request() {
    let message = default_rfc3161_message(MESSAGE).unwrap();
    let headers = vec![("Authorization".to_string(), "Basic xyz".to_string())];
    let exchange = default_rfc3161_request(Some(headers), &message).unwrap();
    assert_eq!(exchange.message.body, message);
    assert_eq!(
        exchange.message.headers,
        vec![
            ("Authorization".to_string(), "Basic xyz".to_string()),
            ("Content-Type".to_string(), "application/timestamp-query".to_string()),
        ]
    );
    let plain = time_stamp_request_message(None, &exchange.request);
    assert_eq!(plain.headers.len(), 1);
    assert_eq!(plain.body, message);
    let broken = default_rfc3161_request(None, &message[1..]);
    assert_eq!(broken, Err(Error::CoseTimeStampGeneration));
}

#[test]
fn the_head_of_an_answer_must_be_right() {
    let reply = "application/timestamp-reply".to_string();
    let other = "application/timestamp-query".to_string();
    assert_eq!(check_reply_head(200, &reply), Ok(()));
    assert_eq!(check_reply_head(201, &reply), Err(Error::CoseTimeStampGeneration));
    assert_eq!(check_reply_head(200, &other), Err(Error::CoseTimeStampGeneration));
}

#[test]
fn the_nonce_must_be_reflected() {
    let ts = Stamp::new().encode();
    let right = request_with_nonce(Some(vec![0x11, 0x22]));
    let wrong = request_with_nonce(Some(vec![0x11, 0x23]));
    let none = request_with_nonce(None);
    assert_eq!(check_reply_body(&right, ts.clone()), Ok(ts.clone()));
    assert_eq!(check_reply_body(&wrong, ts.clone()), Err(Error::CoseTimeStampGeneration));
    assert_eq!(check_reply_body(&none, ts), Err(Error::CoseTimeStampGeneration));
    let token = Token { options: Vec::new(), ..Token::new() };
    let ts = Stamp { content: Some(token.encode()), ..Stamp::new() }.encode();
    assert_eq!(check_reply_body(&right, ts.clone()), Err(Error::CoseTimeStampGeneration));
    assert_eq!(check_reply_body(&none, ts.clone()), Ok(ts));
}

#[test]
fn a_refusal_needs_no_nonce() {
    let refused = Stamp { status: tlv(0x30, &[integer(&[2])]), ..Stamp::new() }.encode();
    let wrong = request_with_nonce(Some(vec![1]));
    assert_eq!(check_reply_body(&wrong, refused.clone()), Ok(refused));
    let no_token = tlv(0x30, &[tlv(0x30, &[integer(&[0])])]);
    assert_eq!(check_reply_body(&wrong, no_token.clone()), Ok(no_token));
    let broken = Stamp { token_type: OID_RSA.to_vec(), ..Stamp::new() }.encode();
    assert_eq!(check_reply_body(&wrong, broken), Err(Error::CoseTimeStampGeneration));
    assert_eq!(check_reply_body(&wrong, vec![0x30]), Err(Error::CoseTimeStampGeneration));
}

#[test]
fn an_exchange_ends_with_a_verified_time_stamp() {
    let request = encode_request(&request_with_nonce(Some(vec![0x11, 0x22])));
    let exchange = default_rfc3161_request(None, &request).unwrap();
    let ts = Stamp::new().encode();
    let accepts = Answers::new(Ok(true));
    assert_eq!(exchange.finish(ts.clone(), MESSAGE, &accepts), Ok(ts.clone()));
    let other = exchange.finish(ts.clone(), b"other", &accepts);
    assert_eq!(other, Err(Error::CoseTimeStampMismatch));
    let refused = exchange.finish(ts, MESSAGE, &Answers::new(Ok(false)));
    assert_eq!(refused, Err(Error::CoseTimeStampAuthority));
    let broken = exchange.finish(vec![], MESSAGE, &accepts);
    assert_eq!(broken, Err(Error::CoseTimeStampGeneration));
}

fn stamp_over(message: &[u8]) -> Vec<u8> {
    let imprint = Outside::Sha256.digest_data(message);
    let token = Token { imprint, ..Token::new() };
    Stamp { content: Some(token.encode()), ..Stamp::new() }.encode()
}

#[test]
fn the_time_stamps_of_a_signature_are_verified_in_turn() {
    let header = ProtectedHeader { serialized: vec![0xa1, 0x01, 0x26] };
    let tbs = cose_countersign_data(b"signature bytes", &header);
    let accepts = Answers::new(Ok(true));
    let mut container = make_cose_timestamp(&stamp_over(&tbs));
    let infos =
        cose_sigtst_to_tstinfos(&Some(container.clone()), b"signature bytes", &header, &accepts);
    assert_eq!(infos.unwrap().len(), 1);
    container.add_token(TstToken { val: stamp_over(&tbs) });
    let infos =
        cose_sigtst_to_tstinfos(&Some(container.clone()), b"signature bytes", &header, &accepts);
    assert_eq!(infos.unwrap().len(), 2);
    container.add_token(TstToken { val: stamp_over(b"other") });
    container.add_token(TstToken { val: vec![] });
    let infos =
        cose_sigtst_to_tstinfos(&Some(container), b"signature bytes", &header, &accepts);
    assert_eq!(infos, Err(Error::CoseTimeStampMismatch));
}

#[test]
fn a_signature_without_time_stamps_has_none() {
    let header = ProtectedHeader { serialized: Vec::new() };
    let accepts = Answers::new(Ok(true));
    let none = cose_sigtst_to_tstinfos(&Some(TstContainer::new()), b"s", &header, &accepts);
    assert_eq!(none, Err(Error::NotFound));
    let unread = cose_sigtst_to_tstinfos(&None, b"s", &header, &accepts);
    assert_eq!(unread, Err(Error::CoseTimeStampGeneration));
}

/// Checks signatures with the key of a certificate.
struct ByCertificate(x509_certificate::CapturedX509Certificate);

impl CoseValidator for ByCertificate {
    fn validate(&self, input: &SignatureInput) -> Result<bool, Error> {
        assert_eq!(input.validator, LocalValidator::Ed25519);
        Ok(self.0.verify_signed_data(&input.data, &input.signature).is_ok())
    }
}

#[test]
fn a_real_signature_is_checked() {
    let mut builder = X509CertificateBuilder::new(KeyAlgorithm::Ed25519);
    builder.subject().append_common_name_utf8_string("Stamper").unwrap();
    let (certificate, key, _) = builder.create_with_random_keypair().unwrap();
    let parsed: &x509_certificate::rfc5280::Certificate = certificate.as_ref();
    let tbs = &parsed.tbs_certificate;
    let not_before = match &tbs.validity.not_before {
        x509_certificate::asn1time::Time::UtcTime(time) => time.to_string(),
        _ => panic!("unexpected kind of time"),
    };
    let token = Token { gen_time: format!("20{}", not_before).into_bytes(), ..Token::new() };
    let issuer = tbs.issuer.encode_ref().to_captured(Mode::Der).to_vec();
    let stamp = Stamp {
        content: Some(token.encode()),
        certificates: Some(vec![certificate.constructed_data().to_vec()]),
        sid: tlv(0x30, &[issuer, integer(tbs.serial_number.as_slice())]),
        signature_algorithm: OID_ED25519.to_vec(),
        ..Stamp::new()
    };
    let signature = key.try_sign(&tlv(0x31, &[Stamp::attributes()])).unwrap();
    let unsigned = stamp.signed_data();
    let mark = octets(b"signature");
    let at = unsigned.len() - mark.len();
    assert_eq!(unsigned[at..], mark[..]);
    let info = stamp.signer_info();
    let rest = info.len() - mark.len();
    let header = if info.len() < 0x82 { 2 } else { 3 };
    let signed_info =
        tlv(0x30, &[info[header..rest].to_vec(), octets(signature.as_ref())]);
    let signed = tlv(
        0x30,
        &[
            integer(&[3]),
            tlv(0x31, &[algorithm(&OID_SHA256)]),
            tlv(0x30, &[oid(&OID_TST_INFO), tlv(0xa0, &[octets(&token.encode())])]),
            tlv(0xa0, stamp.certificates.as_ref().unwrap()),
            tlv(0x31, &[signed_info]),
        ],
    );
    let token = tlv(0x30, &[oid(&OID_SIGNED_DATA), tlv(0xa0, &[signed])]);
    let ts = tlv(0x30, &[stamp.status.clone(), token]);
    let verified = verify_timestamp(&ts, MESSAGE, &ByCertificate(certificate.clone()));
    assert_eq!(verified.unwrap().serial_number, vec![0x00, 0x99]);
    let broken = verify_timestamp(&stamp.encode(), MESSAGE, &ByCertificate(certificate));
    assert_eq!(broken, Err(Error::CoseTimeStampAuthority));
}
