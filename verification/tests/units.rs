//! The parts that time stamps are made of.
use time_stamp::container::{make_cose_timestamp, TstContainer, TstToken};
use time_stamp::countersign::{
    cose_countersign_data, cose_timestamp_countersign, timestamp_data, ProtectedHeader, Signer,
};
use time_stamp::der;
use time_stamp::encode::write_tlv;
use time_stamp::error::Error;
use time_stamp::oids;
use time_stamp::time::{gt_to_datetime, time_to_datetime, DateTime, GeneralizedTime, Time};
use time_stamp::validator::{get_local_validator, get_validator_type, LocalValidator};
use time_stamp::x509::{read_algorithm, read_attributes, read_extensions};

#[test]
fn tokens_are_kept_in_order() {
    let mut container = TstContainer::new();
    assert!(container.tst_tokens.is_empty());
    assert_eq!(container, TstContainer::default());
    container.add_token(TstToken { val: vec![1] });
    container.add_token(TstToken { val: vec![2, 3] });
    assert_eq!(container.tst_tokens, vec![TstToken { val: vec![1] }, TstToken { val: vec![2, 3] }]);
}

#[test]
fn one_time_stamp_is_wrapped() {
    let container = make_cose_timestamp(&[7, 8, 9]);
    assert_eq!(container.tst_tokens, vec![TstToken { val: vec![7, 8, 9] }]);
}

#[test]
fn what_a_countersignature_signs() {
    let header = ProtectedHeader { serialized: vec![0xa1, 0x01, 0x26] };
    let expected = [
        &[0x84, 0x70][..],
        b"CounterSignature",
        &[0x43, 0xa1, 0x01, 0x26, 0x40, 0x42, 0x05, 0x06],
    ]
    .concat();
    assert_eq!(cose_countersign_data(&[5, 6], &header), expected);
}

#[test]
fn long_data_is_signed_with_longer_heads() {
    let header = ProtectedHeader { serialized: Vec::new() };
    for (len, head) in [
        (23usize, vec![0x57u8]),
        (24, vec![0x58, 24]),
        (255, vec![0x58, 255]),
        (256, vec![0x59, 1, 0]),
        (65535, vec![0x59, 255, 255]),
        (65536, vec![0x5a, 0, 1, 0, 0]),
    ] {
        let data = vec![1u8; len];
        let signed = cose_countersign_data(&data, &header);
        assert_eq!(signed[18..20], [0x40, 0x40]);
        assert_eq!(signed[20..20 + head.len()], head[..]);
        assert_eq!(signed[20 + head.len()..], data[..]);
    }
}

#[test]
fn different_countersignatures_sign_different_octets() {
    let empty = ProtectedHeader { serialized: Vec::new() };
    let one = ProtectedHeader { serialized: vec![0x40] };
    assert_ne!(cose_countersign_data(&[0x40], &empty), cose_countersign_data(&[], &one));
}

#[test]
fn the_signed_structure_is_that_of_the_header() {
    let header = coset::HeaderBuilder::new().algorithm(coset::iana::Algorithm::ES256).build();
    let protected = coset::ProtectedHeader { original_data: None, header };
    let expected = coset::sig_structure_data(
        coset::SignatureContext::CounterSignature,
        protected.clone(),
        None,
        &[],
        b"data",
    );
    let serialized = protected.cbor_bstr().unwrap().into_bytes().unwrap();
    assert_eq!(cose_countersign_data(b"data", &ProtectedHeader { serialized }), expected);
}

struct Echo;

impl Signer for Echo {
    fn send_timestamp_request(&self, message: &[u8]) -> Option<Result<Vec<u8>, Error>> {
        if message.is_empty() {
            None
        } else {
            Some(Ok(message.to_vec()))
        }
    }
}

#[test]
fn the_signer_is_asked_for_the_data() {
    assert_eq!(timestamp_data(&Echo, &[1, 2]), Some(Ok(vec![1, 2])));
    assert_eq!(timestamp_data(&Echo, &[]), None);
}

#[test]
fn the_signer_is_asked_for_the_countersignature() {
    let header = ProtectedHeader { serialized: vec![0xa0] };
    let expected = cose_countersign_data(&[4], &header);
    assert_eq!(cose_timestamp_countersign(&Echo, &[4], &header), Some(Ok(expected)));
}

#[test]
fn times_name_points_in_time() {
    let instant = DateTime { timestamp: 1709208000, nanos: 5 };
    let gt = GeneralizedTime { instant };
    assert_eq!(gt_to_datetime(gt), instant);
    assert_eq!(time_to_datetime(Time::GeneralTime(gt)), instant);
    assert_eq!(time_to_datetime(Time::UtcTime(instant)), instant);
}

#[test]
fn octets_are_compared() {
    assert!(oids::vec_compare(&[], &[]));
    assert!(oids::vec_compare(&[1, 2], &[1, 2]));
    assert!(!oids::vec_compare(&[1, 2], &[1, 3]));
    assert!(!oids::vec_compare(&[1, 2], &[1]));
}

#[test]
fn validators_follow_from_algorithms() {
    let other: [u8; 2] = [42, 3];
    let cases: Vec<(&[u8], &[u8], &[u8], Option<LocalValidator>)> = vec![
        (&oids::RSA_OID, &oids::SHA1_OID, &other, Some(LocalValidator::RsaSha1)),
        (&oids::RSA_OID, &oids::SHA256_OID, &other, Some(LocalValidator::Rs256)),
        (
            &other,
            &oids::SHA384_OID,
            &oids::SHA256_WITH_RSAENCRYPTION_OID,
            Some(LocalValidator::Rs384),
        ),
        (
            &other,
            &oids::SHA512_OID,
            &oids::SHA384_WITH_RSAENCRYPTION_OID,
            Some(LocalValidator::Rs512),
        ),
        (
            &oids::EC_PUBLICKEY_OID,
            &oids::SHA256_OID,
            &oids::SHA512_WITH_RSAENCRYPTION_OID,
            Some(LocalValidator::Rs256),
        ),
        (&oids::RSA_OID, &other, &other, None),
        (&oids::EC_PUBLICKEY_OID, &oids::SHA256_OID, &other, Some(LocalValidator::Es256)),
        (&other, &oids::SHA384_OID, &oids::ECDSA_WITH_SHA256_OID, Some(LocalValidator::Es384)),
        (&other, &oids::SHA512_OID, &oids::ECDSA_WITH_SHA384_OID, Some(LocalValidator::Es512)),
        (&other, &oids::SHA256_OID, &oids::ECDSA_WITH_SHA512_OID, Some(LocalValidator::Es256)),
        (&oids::EC_PUBLICKEY_OID, &oids::SHA1_OID, &other, None),
        (&oids::ED25519_OID, &other, &other, Some(LocalValidator::Ed25519)),
        (
            &oids::ED25519_OID,
            &oids::SHA256_OID,
            &oids::ECDSA_WITH_SHA256_OID,
            Some(LocalValidator::Es256),
        ),
        (&other, &oids::SHA256_OID, &other, None),
    ];
    for (sig_alg, hash_alg, pk_alg, expected) in cases {
        let local = get_local_validator(sig_alg, hash_alg, pk_alg);
        assert_eq!(local, expected.ok_or(Error::CoseTimeStampAuthority));
        let name = get_validator_type(sig_alg, hash_alg, pk_alg);
        assert_eq!(name, expected.map(|v| v.name()));
    }
}

#[test]
fn validators_have_names() {
    for (validator, name) in [
        (LocalValidator::RsaSha1, "sha1"),
        (LocalValidator::Rs256, "rs256"),
        (LocalValidator::Rs384, "rs384"),
        (LocalValidator::Rs512, "rs512"),
        (LocalValidator::Es256, "es256"),
        (LocalValidator::Es384, "es384"),
        (LocalValidator::Es512, "es512"),
        (LocalValidator::Ed25519, "ed25519"),
    ] {
        assert_eq!(validator.name(), name);
    }
}

#[test]
fn values_are_written_with_the_shortest_length() {
    assert_eq!(write_tlv(4, &[]), vec![4, 0]);
    assert_eq!(write_tlv(4, &[9]), vec![4, 1, 9]);
    for (len, head) in [
        (0x7fusize, vec![4u8, 0x7f]),
        (0x80, vec![4, 0x81, 0x80]),
        (0x100, vec![4, 0x82, 1, 0]),
        (0x10000, vec![4, 0x83, 1, 0, 0]),
        (0x1000000, vec![4, 0x84, 1, 0, 0, 0]),
    ] {
        let content = vec![5u8; len];
        let written = write_tlv(4, &content);
        assert_eq!(written[..head.len()], head[..]);
        assert_eq!(written.len(), head.len() + len);
        let (read, rest) = der::read_octets(&written).unwrap();
        assert_eq!(read, &content[..]);
        assert!(rest.is_empty());
    }
}

#[test]
fn only_the_shortest_length_is_read() {
    assert!(der::read_octets(&[4, 0x81, 0x01, 9]).is_none());
    assert!(der::read_octets(&[4, 0x82, 0x00, 0x01, 9]).is_none());
    assert!(der::read_octets(&[4, 0x80, 0, 0]).is_none());
    assert!(der::read_octets(&[4, 0x85, 0, 0, 0, 0, 1, 9]).is_none());
    assert!(der::read_octets(&[4, 2, 9]).is_none());
    assert!(der::read_octets(&[4]).is_none());
    assert!(der::read_octets(&[]).is_none());
    assert!(der::read_octets(&[0x24, 0]).is_none());
}

#[test]
fn numbers_are_read_in_the_shortest_form() {
    assert_eq!(der::read_integer(&[2, 1, 0x80, 7]), Some((&[0x80u8][..], &[7u8][..])));
    assert_eq!(der::read_integer(&[2, 2, 0x00, 0x80]), Some((&[0x00u8, 0x80][..], &[][..])));
    assert_eq!(der::read_integer(&[2, 2, 0x00, 0x7f]), None);
    assert_eq!(der::read_integer(&[2, 2, 0xff, 0x80]), None);
    assert_eq!(der::read_integer(&[2, 0]), None);
    assert_eq!(der::read_opt_integer(&[1, 1, 0]), Some((None, &[1u8, 1, 0][..])));
    assert_eq!(der::read_small_integer(&[2, 1, 5]), Some((5, &[][..])));
    assert_eq!(der::read_small_integer(&[2, 2, 1, 5]), None);
    assert_eq!(der::read_opt_small_integer(&[]), Some((None, &[][..])));
}

#[test]
fn truth_values_are_read_in_one_form() {
    assert_eq!(der::read_opt_boolean(&[1, 1, 0xff]), Some((Some(true), &[][..])));
    assert_eq!(der::read_opt_boolean(&[1, 1, 0x00]), Some((Some(false), &[][..])));
    assert_eq!(der::read_opt_boolean(&[1, 1, 0x01]), None);
    assert_eq!(der::read_opt_boolean(&[1, 2, 0xff, 0xff]), None);
    assert_eq!(der::read_opt_boolean(&[5, 0]), Some((None, &[5u8, 0][..])));
}

#[test]
fn identifiers_must_be_complete() {
    assert_eq!(der::read_oid(&[6, 2, 42, 3]), Some((&[42u8, 3][..], &[][..])));
    assert_eq!(der::read_oid(&[6, 2, 42, 0x83]), None);
    assert_eq!(der::read_oid(&[6, 0]), None);
    assert_eq!(der::read_opt_oid(&[2, 1, 0]), Some((None, &[2u8, 1, 0][..])));
}

#[test]
fn runs_of_values_are_checked_to_any_depth() {
    assert!(der::check_all_values(&[]));
    assert!(der::check_all_values(&[5, 0, 0x30, 2, 5, 0]));
    assert!(!der::check_all_values(&[5, 0, 0x30, 2, 5]));
    assert!(!der::check_all_values(&[0x30, 2, 5, 1]));
    assert!(!der::check_all_values(&[0, 0]));
    assert!(der::check_all_values(&[0x30, 0x80, 5, 0, 0, 0]));
    assert!(!der::check_all_values(&[0x30, 0x80, 5, 0]));
    assert!(!der::check_all_values(&[0x1f, 0x80]));
    assert!(der::check_all_values(&[0x1f, 0x81, 0x02, 0x00]));
    let mut deep: Vec<u8> = Vec::new();
    for _ in 0..1000 {
        deep = write_tlv(0x30, &deep);
    }
    assert!(der::check_all_values(&deep));
}

#[test]
fn algorithms_keep_their_parameters() {
    let (a, rest) = read_algorithm(&[0x30, 5, 6, 1, 42, 5, 0, 7]).unwrap();
    assert_eq!(a.algorithm, vec![42]);
    assert_eq!(a.parameters, Some(vec![5, 0]));
    assert_eq!(rest, &[7]);
    let (a, _) = read_algorithm(&[0x30, 3, 6, 1, 42]).unwrap();
    assert_eq!(a.parameters, None);
    assert!(read_algorithm(&[0x30, 4, 6, 1, 42, 5]).is_none());
}

#[test]
fn extensions_and_attributes_are_read_in_order() {
    let list = [0x30, 6, 6, 1, 42, 4, 1, 1, 0x30, 9, 6, 1, 43, 1, 1, 0, 4, 1, 2];
    let extensions = read_extensions(&list).unwrap();
    assert_eq!(extensions.len(), 2);
    assert_eq!(extensions[0].critical, None);
    assert_eq!(extensions[1].critical, Some(false));
    assert_eq!(extensions[1].id, vec![43]);
    assert!(read_extensions(&list[..18]).is_none());
    let set = [0x30, 7, 6, 1, 42, 0x31, 2, 5, 0, 2, 1, 1];
    let (attributes, rest) = read_attributes(&set).unwrap();
    assert_eq!(attributes.len(), 1);
    assert_eq!(attributes[0].values, vec![5, 0]);
    assert_eq!(rest, &[2, 1, 1]);
}
