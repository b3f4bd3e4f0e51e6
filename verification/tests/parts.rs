//! The parts of a verification, each on its own.

use rasn::types::Oid as Registered;
use time_stamp::chain::{
    join_common_names, order_certificates_leaf_to_root, order_positions, CertificateNames,
};
use time_stamp::cms::{
    assemble_certificates, assemble_signers, assemble_tst_info, token_content, Accuracy, Attribute,
    CertificateIdentity, CertificateKey, Extension, MessageImprint, SignedAttributes, Signer,
    SignerIdentifier, Token, TstHead, TstInfo, TstTail,
};
use time_stamp::digest::{DigestAlgorithm, SHA1_OID, SHA256_OID, SHA384_OID, SHA512_OID};
use time_stamp::examine::{
    build_signature_request, compute_digest, find_attribute, find_signed_value, find_single_value,
    judge_imprint, judge_message_digest, signed_attributes_digested_content, use_signed_time,
    Candidate, EncodeError, SignatureRequest,
};
use time_stamp::oid::{
    same_arcs, same_octets, Oid, ID_CT_TST_INFO, ID_MESSAGE_DIGEST, ID_SIGNED_DATA,
    ID_SIGNING_TIME, ID_SUBJECT_KEY_IDENTIFIER,
};
use time_stamp::signer::{find_signer, names_certificate, names_match};
use time_stamp::status::{TIMESTAMP_MALFORMED, TIMESTAMP_MISMATCH, TIMESTAMP_VALIDATED};
use time_stamp::text::{arcs_fit, decimal, dotted};
use time_stamp::time::{
    generalized_time_to_datetime, time_to_datetime, timestamp_to_generalized_time, DateTime,
    GeneralizedTime, Time,
};
use time_stamp::verify::{choose_validator, validate_timestamp_sig, ValidatorChoice};
use time_stamp::{LogItem, LogKind, SignatureOutcome, StatusTracker, TimeStampError};

fn from_hex(text: &str) -> Vec<u8> {
    (0..text.len() / 2)
        .map(|i| u8::from_str_radix(&text[2 * i..2 * i + 2], 16).unwrap())
        .collect()
}

fn decode_error(message: &str) -> TimeStampError {
    TimeStampError::DecodeError(message.to_string())
}

fn utc(seconds: i64) -> Time {
    Time::Utc(DateTime { seconds, nanos: 0 })
}

fn general(seconds: i64) -> Time {
    Time::General(GeneralizedTime { seconds, nanos: 0 })
}

// Text.

#[test]
fn numbers_are_written_in_decimal() {
    assert_eq!(decimal(0), "0");
    assert_eq!(decimal(9), "9");
    assert_eq!(decimal(10), "10");
    assert_eq!(decimal(1234567890), "1234567890");
    assert_eq!(decimal(u64::MAX), "18446744073709551615");
}

#[test]
fn arcs_are_written_with_dots() {
    assert_eq!(dotted(&[]), "");
    assert_eq!(dotted(&[7]), "7");
    assert_eq!(dotted(&[2, 16, 840, 1, 101, 3, 4, 2, 1]), "2.16.840.1.101.3.4.2.1");
}

#[test]
fn arcs_fit_32_bits_or_not() {
    assert!(arcs_fit(""));
    assert!(arcs_fit("1.2.4294967295"));
    assert!(!arcs_fit("1.2.4294967296"));
    assert!(!arcs_fit("99999999999999999999999999.1"));
    assert!(arcs_fit("1.2.(very large component)"));
}

// Object identifiers.

#[test]
fn an_identifier_has_octets_and_a_dotted_form() {
    let oid = Oid::from_arcs(&[2, 16, 840, 1, 101, 3, 4, 2, 1]).unwrap();
    assert_eq!(oid.octets, from_hex("608648016503040201"));
    assert_eq!(oid.dotted, "2.16.840.1.101.3.4.2.1");
}

#[test]
fn arcs_that_are_no_identifier_are_refused() {
    assert_eq!(Oid::from_arcs(&[]), None);
    assert_eq!(Oid::from_arcs(&[1]), None);
    assert_eq!(Oid::from_arcs(&[3, 1]), None);
    assert_eq!(Oid::from_arcs(&[1, 40]), None);
    assert_eq!(Oid::from_arcs(&[2, u32::MAX]), None);
    assert_eq!(Oid::from_arcs(&[2, u32::MAX - 79]), None);
}

#[test]
fn the_known_identifiers_are_the_registered_ones() {
    let known: [(&[u32], &Registered); 5] = [
        (&ID_SIGNED_DATA, Registered::ISO_MEMBER_BODY_US_RSADSI_PKCS7_SIGNED_DATA),
        (&ID_CT_TST_INFO, rasn_cms::tsp::TST_INFO),
        (&ID_MESSAGE_DIGEST, Registered::ISO_MEMBER_BODY_US_RSADSI_PKCS9_MESSAGE_DIGEST),
        (&ID_SIGNING_TIME, Registered::ISO_MEMBER_BODY_US_RSADSI_PKCS9_SIGNING_TIME),
        (
            &ID_SUBJECT_KEY_IDENTIFIER,
            Registered::JOINT_ISO_ITU_T_DS_CERTIFICATE_EXTENSION_SUBJECT_KEY_IDENTIFIER,
        ),
    ];
    for (arcs, registered) in known {
        assert_eq!(arcs, &registered[..]);
    }
}

#[test]
fn lists_are_the_same_or_not() {
    assert!(same_arcs(&[1, 2], &[1, 2]));
    assert!(!same_arcs(&[1, 2], &[1, 3]));
    assert!(!same_arcs(&[1, 2], &[1, 2, 3]));
    assert!(same_octets(&[], &[]));
    assert!(!same_octets(&[1], &[2]));
    assert!(!same_octets(&[1, 2], &[1]));
}

// Digests.

fn digest(algorithm: DigestAlgorithm, parts: &[&[u8]]) -> Vec<u8> {
    let mut hasher = algorithm.digester();
    for part in parts {
        hasher.update(part);
    }
    hasher.finish().as_ref().to_vec()
}

#[test]
fn digests_are_the_published_ones() {
    assert_eq!(
        digest(DigestAlgorithm::Sha1, &[b"abc"]),
        from_hex("a9993e364706816aba3e25717850c26c9cd0d89d")
    );
    assert_eq!(
        digest(DigestAlgorithm::Sha256, &[b"abc"]),
        from_hex("ba7816bf8f01cfea414140de5dae2223b00361a396177a9cb410ff61f20015ad")
    );
    assert_eq!(
        digest(DigestAlgorithm::Sha384, &[b"abc"]),
        from_hex(
            "cb00753f45a35e8bb5a03d699ac65007272c32ab0eded1631a8b605a43ff5bed\
             8086072ba1e7cc2358baeca134c825a7"
        )
    );
    assert_eq!(
        digest(DigestAlgorithm::Sha512, &[b"abc"]),
        from_hex(
            "ddaf35a193617abacc417349ae20413112e6fa4e89a97ea20a9eeee64b55d39a\
             2192992a274fc1a836ba3c23a3feebbd454d4423643ce80e2a9ac94fa54ca49f"
        )
    );
}

#[test]
fn a_message_in_parts_has_the_digest_of_the_whole() {
    for algorithm in [
        DigestAlgorithm::Sha1,
        DigestAlgorithm::Sha256,
        DigestAlgorithm::Sha384,
        DigestAlgorithm::Sha512,
    ] {
        assert_eq!(digest(algorithm, &[b"a", b"", b"bc"]), digest(algorithm, &[b"abc"]));
        assert_ne!(digest(algorithm, &[b"ab"]), digest(algorithm, &[b"abc"]));
    }
}

#[test]
fn nothing_has_a_digest() {
    assert_eq!(
        digest(DigestAlgorithm::Sha256, &[]),
        from_hex("e3b0c44298fc1c149afbf4c8996fb92427ae41e4649b934ca495991b7852b855")
    );
}

#[test]
fn algorithms_are_found_by_their_identifiers() {
    let known: [(&[u32], &[u8], DigestAlgorithm); 4] = [
        (&[1, 3, 14, 3, 2, 26], &SHA1_OID, DigestAlgorithm::Sha1),
        (&[2, 16, 840, 1, 101, 3, 4, 2, 1], &SHA256_OID, DigestAlgorithm::Sha256),
        (&[2, 16, 840, 1, 101, 3, 4, 2, 2], &SHA384_OID, DigestAlgorithm::Sha384),
        (&[2, 16, 840, 1, 101, 3, 4, 2, 3], &SHA512_OID, DigestAlgorithm::Sha512),
    ];
    for (arcs, octets, algorithm) in known {
        let oid = Oid::from_arcs(arcs).unwrap();
        assert_eq!(oid.octets, octets);
        assert_eq!(DigestAlgorithm::from_octets(octets), Ok(algorithm));
        assert_eq!(DigestAlgorithm::try_from(&oid), Ok(algorithm));
    }
}

#[test]
fn other_identifiers_are_no_digest_algorithm() {
    for arcs in [&[1, 2, 840, 113549, 2, 5][..], &[2, 16, 840, 1, 101, 3, 4, 2, 4]] {
        let oid = Oid::from_arcs(arcs).unwrap();
        assert_eq!(DigestAlgorithm::try_from(&oid), Err(()));
    }
    assert_eq!(DigestAlgorithm::from_octets(&[]), Err(()));
}

#[test]
fn an_identifier_that_cannot_be_read_again_is_no_digest_algorithm() {
    let long = "1.".repeat(600) + "1";
    for dotted in ["", "1.2.4294967296", "1.2.x", "1.2.(very large component)", &long] {
        let oid = Oid { octets: SHA1_OID.to_vec(), dotted: dotted.to_string() };
        assert_eq!(DigestAlgorithm::try_from(&oid), Err(()));
    }
}

#[test]
fn a_digest_is_computed_under_an_identifier() {
    assert_eq!(
        compute_digest(&[1, 3, 14, 3, 2, 26], b"abc"),
        Some(from_hex("a9993e364706816aba3e25717850c26c9cd0d89d"))
    );
    assert_eq!(compute_digest(&[1, 2, 840, 113549, 2, 5], b"abc"), None);
    assert_eq!(compute_digest(&[9], b"abc"), None);
}

// Times.

#[test]
fn seconds_become_a_generalized_time_from_1970_to_9999() {
    let at = |seconds| Some(GeneralizedTime { seconds, nanos: 0 });
    assert_eq!(timestamp_to_generalized_time(0), at(0));
    assert_eq!(timestamp_to_generalized_time(1_794_839_532), at(1_794_839_532));
    assert_eq!(timestamp_to_generalized_time(253_402_300_799), at(253_402_300_799));
    assert_eq!(timestamp_to_generalized_time(253_402_300_800), None);
    assert_eq!(timestamp_to_generalized_time(-1), None);
    assert_eq!(timestamp_to_generalized_time(i64::MAX), None);
    assert_eq!(timestamp_to_generalized_time(i64::MIN), None);
}

#[test]
fn a_generalized_time_keeps_the_second() {
    for seconds in [0, 1, 86_399, 951_782_400, 253_402_300_799] {
        let time = timestamp_to_generalized_time(seconds).unwrap();
        assert_eq!(generalized_time_to_datetime(time), DateTime { seconds, nanos: 0 });
        assert_eq!(generalized_time_to_datetime(time).timestamp(), seconds);
    }
}

#[test]
fn a_time_keeps_its_fraction_in_either_encoding() {
    let datetime = DateTime { seconds: -9, nanos: 250_000_000 };
    let time = GeneralizedTime { seconds: -9, nanos: 250_000_000 };
    assert_eq!(time_to_datetime(Time::Utc(datetime)), datetime);
    assert_eq!(time_to_datetime(Time::General(time)), datetime);
    assert_eq!(generalized_time_to_datetime(time), datetime);
    assert_eq!(datetime.timestamp(), -9);
}

// Chains.

fn names(issuer: u8, subject: u8) -> CertificateNames {
    CertificateNames { issuer: vec![issuer], subject: vec![subject], common_names: vec![] }
}

#[test]
fn certificates_are_ordered_from_the_leaf_to_the_root() {
    // root, leaf, intermediate
    let list = [names(3, 3), names(2, 1), names(3, 2)];
    assert_eq!(order_positions(&list, 1), vec![1, 2, 0]);
    assert_eq!(order_positions(&list, 2), vec![2, 0]);
    assert_eq!(order_positions(&list, 0), vec![0]);
}

#[test]
fn a_chain_ends_where_the_issuer_is_missing() {
    let list = [names(2, 1), names(9, 2), names(7, 7)];
    assert_eq!(order_positions(&list, 0), vec![0, 1]);
}

#[test]
fn the_first_of_several_issuers_comes_next() {
    let list = [names(2, 1), names(5, 2), names(6, 2)];
    assert_eq!(order_positions(&list, 0), vec![0, 1]);
}

#[test]
fn no_certificate_comes_twice() {
    // two that name each other
    let list = [names(2, 1), names(1, 2)];
    assert_eq!(order_positions(&list, 0), vec![0, 1]);
    assert_eq!(order_positions(&list, 1), vec![1, 0]);
    // copies of one that names itself
    let list = [names(1, 1), names(1, 1), names(1, 1)];
    assert_eq!(order_positions(&list, 1), vec![1, 0, 2]);
}

#[test]
fn ordering_an_ordered_list_changes_nothing() {
    let list = [names(2, 1), names(3, 2), names(3, 3)];
    assert_eq!(order_positions(&list, 0), vec![0, 1, 2]);
}

#[test]
fn the_arrangement_of_different_subjects_does_not_matter() {
    let arrangements = [[0, 1, 2], [0, 2, 1], [1, 0, 2], [1, 2, 0], [2, 0, 1], [2, 1, 0]];
    for arrangement in arrangements {
        let all = [(2, 1), (3, 2), (3, 3)];
        let list: Vec<CertificateNames> =
            arrangement.iter().map(|i: &usize| names(all[*i].0, all[*i].1)).collect();
        let leaf = arrangement.iter().position(|i| *i == 0).unwrap();
        let ordered: Vec<usize> =
            order_positions(&list, leaf).into_iter().map(|i| arrangement[i]).collect();
        assert_eq!(ordered, vec![0, 1, 2]);
    }
}

#[test]
fn an_unrelated_certificate_is_left_out() {
    assert_eq!(order_positions(&[names(9, 8), names(2, 1), names(2, 2)], 1), vec![1, 2]);
    assert_eq!(order_positions(&[names(2, 1), names(9, 8), names(2, 2)], 0), vec![0, 2]);
    assert_eq!(order_positions(&[names(2, 1), names(2, 2), names(9, 8)], 0), vec![0, 1]);
}

#[test]
fn the_leaf_has_to_be_in_the_list() {
    assert_eq!(
        order_certificates_leaf_to_root(&[], 0),
        Err(decode_error("invalid leaf certificate position"))
    );
    assert_eq!(
        order_certificates_leaf_to_root(&[vec![]], 1),
        Err(decode_error("invalid leaf certificate position"))
    );
}

#[test]
fn what_is_not_a_certificate_cannot_be_ordered() {
    assert_eq!(
        order_certificates_leaf_to_root(&[vec![1, 2, 3]], 0),
        Err(decode_error("failed to parse certificates"))
    );
}

#[test]
fn common_names_are_joined() {
    let text = |name: &str| Some(name.to_string());
    let common_names = vec![text("Example "), None, text("Clock")];
    let names = CertificateNames { issuer: vec![], subject: vec![], common_names };
    assert_eq!(join_common_names(&names), "Example Clock");
}

// Signers.

fn name(rdns: &[&[&[u8]]]) -> Vec<Vec<Vec<u8>>> {
    rdns.iter().map(|rdn| rdn.iter().map(|attribute| attribute.to_vec()).collect()).collect()
}

#[test]
fn names_match_as_lists_of_sets() {
    let a = name(&[&[b"x"], &[b"y", b"z"]]);
    assert!(names_match(&a, &a));
    assert!(names_match(&a, &name(&[&[b"x"], &[b"z", b"y"]])));
    assert!(!names_match(&a, &name(&[&[b"y", b"z"], &[b"x"]])));
    assert!(!names_match(&a, &name(&[&[b"x"]])));
    assert!(!names_match(&a, &name(&[&[b"x"], &[b"y"]])));
    assert!(!names_match(&a, &name(&[&[b"x"], &[b"y", b"y"]])));
    assert!(names_match(
        &name(&[&[b"y", b"y", b"z"]]),
        &name(&[&[b"y", b"z", b"z"]])
    ));
}

fn identity(serial_number: &str, extensions: Option<Vec<Extension>>) -> CertificateIdentity {
    CertificateIdentity {
        issuer: Some(name(&[&[b"x"]])),
        serial_number: serial_number.to_string(),
        extensions,
    }
}

#[test]
fn a_certificate_is_named_by_issuer_and_serial_number() {
    let sid = |issuer, serial_number: &str| SignerIdentifier::IssuerAndSerialNumber {
        issuer,
        serial_number: serial_number.to_string(),
    };
    let certificate = identity("12", None);
    assert!(names_certificate(&sid(Some(name(&[&[b"x"]])), "12"), &certificate));
    assert!(!names_certificate(&sid(Some(name(&[&[b"x"]])), "13"), &certificate));
    assert!(!names_certificate(&sid(Some(name(&[&[b"y"]])), "12"), &certificate));
    assert!(!names_certificate(&sid(None, "12"), &certificate));
    let unreadable = CertificateIdentity { issuer: None, ..identity("12", None) };
    assert!(!names_certificate(&sid(None, "12"), &unreadable));
}

#[test]
fn a_certificate_is_named_by_its_key_identifier() {
    let extension = |extn_id: &[u32], value: &[u8]| Extension {
        extn_id: extn_id.to_vec(),
        extn_value: value.to_vec(),
    };
    let sid = |id: &[u8]| SignerIdentifier::SubjectKeyIdentifier(id.to_vec());
    let certificate = identity(
        "12",
        Some(vec![extension(&[2, 5, 29, 15], b"usage"), extension(&[2, 5, 29, 14], b"key")]),
    );
    assert!(names_certificate(&sid(b"key"), &certificate));
    assert!(!names_certificate(&sid(b"usage"), &certificate));
    assert!(!names_certificate(&sid(b"key"), &identity("12", None)));
}

#[test]
fn the_first_named_certificate_is_found() {
    let certs = assemble_certificates(
        vec![None, None, None, None],
        Some(vec![
            None,
            Some(identity("1", None)),
            Some(identity("2", None)),
            Some(identity("2", None)),
        ]),
        None,
    );
    let sid = |serial_number: &str| SignerIdentifier::IssuerAndSerialNumber {
        issuer: Some(name(&[&[b"x"]])),
        serial_number: serial_number.to_string(),
    };
    assert_eq!(find_signer(&certs, &sid("1")), Some(1));
    assert_eq!(find_signer(&certs, &sid("2")), Some(2));
    assert_eq!(find_signer(&certs, &sid("3")), None);
}

// Tokens.

#[test]
fn members_of_the_certificate_set_are_put_together() {
    let key = CertificateKey {
        encoded: Some(vec![9]),
        algorithm: vec![1, 2],
        not_before: utc(1),
        not_after: utc(2),
    };
    let members = assemble_certificates(
        vec![Some(vec![1]), None],
        Some(vec![Some(identity("1", None)), None]),
        Some(vec![None, Some(key)]),
    );
    assert_eq!(members.len(), 2);
    assert_eq!(members[0].encoded, Some(vec![1]));
    assert!(members[0].identity.is_some() && members[0].key.is_none());
    assert_eq!(members[1].encoded, None);
    assert!(members[1].identity.is_none() && members[1].key.is_some());
}

fn signer() -> Signer {
    Signer {
        sid: SignerIdentifier::SubjectKeyIdentifier(vec![1]),
        digest_algorithm: vec![1, 3, 14, 3, 2, 26],
        signature: vec![2],
    }
}

fn signed(encoded: Result<Vec<u8>, String>) -> SignedAttributes {
    SignedAttributes { attributes: vec![attribute(&[1, 2], &[b"b"])], encoded }
}

fn attribute(attribute_type: &[u32], values: &[&[u8]]) -> Attribute {
    Attribute {
        attribute_type: Some(attribute_type.to_vec()),
        values: values.iter().map(|value| value.to_vec()).collect(),
    }
}

#[test]
fn signers_are_put_together_with_their_attributes() {
    let signers = assemble_signers(
        vec![signer(), signer(), signer()],
        Some(vec![Some(signed(Ok(vec![7]))), None]),
    );
    assert_eq!(signers.len(), 3);
    let first = signers[0].signed_attrs.as_ref().unwrap();
    assert_eq!(first.encoded, Ok(vec![7]));
    assert_eq!(first.attributes[0].values, vec![b"b".to_vec()]);
    assert!(signers[1].signed_attrs.is_none());
    assert!(signers[2].signed_attrs.is_none());
    assert_eq!(signers[2].signature, vec![2]);
}

#[test]
fn the_content_of_a_token_is_taken_out() {
    let token = |content_type: &[u32]| Token {
        content_type: content_type.to_vec(),
        content: vec![5, 0],
    };
    assert_eq!(token_content(Some(Some(token(&ID_SIGNED_DATA)))), Ok(Some(vec![5, 0])));
    assert_eq!(
        token_content(Some(Some(token(&ID_CT_TST_INFO)))),
        Err(decode_error("invalid OID for signed data"))
    );
    assert_eq!(token_content(Some(None)), Ok(None));
    assert_eq!(
        token_content(None),
        Err(decode_error("unable to decode time stamp response"))
    );
}

fn tst_info() -> TstInfo {
    let head = TstHead {
        version: "1".to_string(),
        policy: vec![1, 2],
        message_imprint: MessageImprint {
            hash_algorithm: vec![1, 3],
            hash_parameters: Some(vec![5, 0]),
            hashed_message: vec![4],
        },
        serial_number: "9".to_string(),
        gen_time: GeneralizedTime { seconds: 100, nanos: 5 },
        ordering: true,
        nonce: None,
    };
    let accuracy = Accuracy { seconds: Some("1".to_string()), millis: None, micros: None };
    let tail = TstTail { accuracy: Some(accuracy), tsa: Some(Some(vec![8])), extensions: None };
    assemble_tst_info(head, tail)
}

#[test]
fn the_time_stamp_information_is_put_together() {
    let info = tst_info();
    assert_eq!(info.serial_number, "9");
    assert_eq!(info.message_imprint.hashed_message, vec![4]);
    assert_eq!(info.message_imprint.hash_parameters, Some(vec![5, 0]));
    assert_eq!(info.accuracy.unwrap().seconds.as_deref(), Some("1"));
    assert_eq!(info.tsa, Some(Some(vec![8])));
    assert!(info.ordering);
}

#[test]
fn a_signed_time_replaces_the_time_of_the_time_stamp() {
    let time = |signed| use_signed_time(tst_info(), signed).gen_time;
    assert_eq!(time(None), GeneralizedTime { seconds: 100, nanos: 5 });
    assert_eq!(time(Some(utc(7))), GeneralizedTime { seconds: 7, nanos: 0 });
    assert_eq!(time(Some(general(-7))), GeneralizedTime { seconds: 100, nanos: 5 });
    let updated = use_signed_time(tst_info(), Some(utc(7)));
    assert_eq!(TstInfo { gen_time: tst_info().gen_time, ..updated }, tst_info());
}

// Attributes.

#[test]
fn the_first_attribute_of_a_type_is_found() {
    let list = vec![
        attribute(&[1, 1], &[b"a"]),
        attribute(&[1, 2], &[b"b"]),
        attribute(&[1, 2], &[b"c", b"d"]),
    ];
    assert_eq!(find_attribute(&list, &[1, 2]).unwrap().values, vec![b"b".to_vec()]);
    assert!(find_attribute(&list, &[1, 3]).is_none());
    assert_eq!(find_single_value(&list, &[1, 2]), Some(&b"b".to_vec()));
    assert_eq!(find_single_value(&list[2..].iter().map(copy).collect(), &[1, 2]), None);
}

fn copy(from: &Attribute) -> Attribute {
    Attribute { attribute_type: from.attribute_type.clone(), values: from.values.clone() }
}

#[test]
fn what_is_digested_is_the_encoding_of_the_attributes() {
    let list = vec![signer(), signer(), signer()];
    let failed = Err("too long".to_string());
    let attributes = vec![None, Some(signed(failed)), Some(signed(Ok(vec![7])))];
    let signers = assemble_signers(list, Some(attributes));
    assert_eq!(signed_attributes_digested_content(&signers[0]), Ok(None));
    assert_eq!(
        signed_attributes_digested_content(&signers[1]),
        Err(EncodeError { message: "too long".to_string() })
    );
    assert_eq!(signed_attributes_digested_content(&signers[2]), Ok(Some(vec![7])));
    assert_eq!(find_signed_value(&signers[0], &[1, 2]), None);
    assert_eq!(find_signed_value(&signers[2], &[1, 2]), Some(&b"b".to_vec()));
}

#[test]
fn a_message_digest_is_judged() {
    let one = attribute(&ID_MESSAGE_DIGEST, &[b"v"]);
    let three = attribute(&ID_MESSAGE_DIGEST, &[b"v", b"w", b"x"]);
    let judge = |attribute: Option<&Attribute>, signed: Option<&[u8]>, computed: Option<&[u8]>| {
        judge_message_digest(attribute, &signed.map(Vec::from), &computed.map(Vec::from))
            .map_err(|rejection| (rejection.error, rejection.item.validation_status.unwrap()))
    };
    let malformed =
        |message: &str| Err((decode_error(message), TIMESTAMP_MALFORMED.to_string()));
    assert_eq!(judge(Some(&one), Some(b"d"), Some(b"d")), Ok(()));
    assert_eq!(
        judge(Some(&one), Some(b"d"), Some(b"e")),
        Err((TimeStampError::InvalidData, TIMESTAMP_MISMATCH.to_string()))
    );
    assert_eq!(judge(None, Some(b"d"), Some(b"d")), malformed("no message imprint"));
    assert_eq!(
        judge(Some(&three), Some(b"d"), Some(b"d")),
        malformed("message digest attribute has 3 values, should have one")
    );
    assert_eq!(
        judge(Some(&one), None, None),
        malformed("unable to decode signed message data")
    );
    assert_eq!(
        judge(Some(&one), Some(b"d"), None),
        malformed("unsupported digest algorithm")
    );
}

fn oid(dotted: &str) -> Oid {
    Oid { octets: vec![], dotted: dotted.to_string() }
}

fn candidate() -> Candidate {
    Candidate {
        request: SignatureRequest {
            sig_alg: oid("1.2"),
            hash_alg: oid("1.3"),
            sig_val: vec![],
            tbs: vec![],
            signing_key_der: vec![],
        },
        tst: tst_info(),
        cert_pos: 0,
        common_name: "Clock".to_string(),
        not_before: 100,
        not_after: 100,
    }
}

#[test]
fn a_message_imprint_is_judged() {
    let item = judge_imprint(&candidate(), &Some(vec![4])).unwrap();
    assert_eq!(item.kind, LogKind::Success);
    assert_eq!(item.description, "timestamp message digest matched: Clock");
    assert_eq!(item.validation_status.as_deref(), Some(TIMESTAMP_VALIDATED));
    let rejection = judge_imprint(&candidate(), &Some(vec![5])).unwrap_err();
    assert_eq!(rejection.error, TimeStampError::InvalidData);
    assert_eq!(rejection.item.description, "timestamp message digest did not match: Clock");
    let rejection = judge_imprint(&candidate(), &None).unwrap_err();
    assert_eq!(rejection.error, TimeStampError::UnsupportedAlgorithm);
    let late = Candidate { not_after: 99, not_before: 0, ..candidate() };
    let rejection = judge_imprint(&late, &Some(vec![4])).unwrap_err();
    assert_eq!(rejection.error, TimeStampError::ExpiredCertificate);
}

#[test]
fn missing_content_cannot_be_signed() {
    let signers = assemble_signers(vec![signer()], None);
    let content = time_stamp::cms::SignedContent { content_type: vec![], content: None };
    let key = CertificateKey {
        encoded: Some(vec![9]),
        algorithm: vec![1, 2],
        not_before: utc(1),
        not_after: utc(2),
    };
    let request = build_signature_request(
        &content,
        &signers[0],
        &key,
        Some(oid("1.3")),
        Some(oid("1.2")),
    );
    let rejection = request.unwrap_err();
    assert_eq!(rejection.error, decode_error("time stamp does not contain digested content"));
    assert_eq!(rejection.item.description, "timestamp no message digest");
}

// Answers.

#[test]
fn a_report_on_a_signature_is_a_result() {
    assert_eq!(validate_timestamp_sig(SignatureOutcome::Valid), Ok(()));
    assert_eq!(
        validate_timestamp_sig(SignatureOutcome::Invalid),
        Err(TimeStampError::InvalidData)
    );
    assert_eq!(
        validate_timestamp_sig(SignatureOutcome::Unsupported),
        Err(TimeStampError::UnsupportedAlgorithm)
    );
}

#[test]
fn the_asynchronous_validator_comes_first() {
    assert_eq!(choose_validator(true, true), ValidatorChoice::Asynchronous);
    assert_eq!(choose_validator(true, false), ValidatorChoice::Asynchronous);
    assert_eq!(choose_validator(false, true), ValidatorChoice::Synchronous);
    assert_eq!(choose_validator(false, false), ValidatorChoice::Unsupported);
}

// The log.

#[test]
fn a_log_knows_the_codes_in_it() {
    let mut log = StatusTracker::default();
    assert!(!log.has_status("a.code"));
    log.add_item(LogItem::informational("first", "a.code"));
    log.append(vec![LogItem::success("second", "b.code")]);
    assert!(log.has_status("a.code"));
    assert!(log.has_status("b.code"));
    assert!(!log.has_status("c.code"));
    assert_eq!(log.logged_items.len(), 2);
    assert_eq!(log.logged_items[1].kind, LogKind::Success);
    assert_eq!(log.logged_items[1].function, "verify_time_stamp");
}
