//! The verification of a time stamp as a whole.

use asn1_rs::FromDer;
use p256::ecdsa::signature::Verifier;
use p256::ecdsa::{Signature, VerifyingKey};
use p256::pkcs8::DecodePublicKey;
use time_stamp::cms::{
    signed_data_from_time_stamp_response, Attribute, CertificateChoice, SignedData,
    SignerIdentifier,
};
use time_stamp::examine::SignatureRequest;
use time_stamp::status::{
    TIMESTAMP_MALFORMED, TIMESTAMP_MISMATCH, TIMESTAMP_OUTSIDE_VALIDITY, TIMESTAMP_TRUSTED,
    TIMESTAMP_UNTRUSTED, TIMESTAMP_VALIDATED,
};
use time_stamp::time::{DateTime, GeneralizedTime, Time};
use time_stamp::verify::{Outcome, Phase, TrustRequest, Verification};
use time_stamp::{
    tsa_cert_chain_der_from_token, tsa_signer_cert_der_from_token, verify_time_stamp, Checks,
    LogItem, LogKind, ProfileOutcome, SignatureOutcome, StatusTracker, TimeStampError, TstInfo,
};

/// A response of an authority whose certificate was issued by an intermediate one.
const RESPONSE: &str = "\
    3082082330030201003082081a06092a864886f70d010702a082080b30820807020103310f300d06096086480165\
    0304020105003081c9060b2a864886f70d0109100104a081b90481b63081b302010106042a0304013031300d0609\
    6086480165030402010500042030609de06f5fb850ef8a13fcd546ad14e5e5903c24ee77a9a57a716e0fc0d46a02\
    0142180f32303236313131363134333231325a300a020101800201f48101640101ff02084fe5e99dfb5710f6a048\
    a4463044310b3009060355040613025a5a31163014060355040a0c0d4578616d706c6520436c6f636b311d301b06\
    035504030c144578616d706c6520436c6f636b205369676e6572a08205bb308201f83082019ea003020102020210\
    00300a06082a8648ce3d040302304a310b3009060355040613025a5a31163014060355040a0c0d4578616d706c65\
    20436c6f636b3123302106035504030c1a4578616d706c6520436c6f636b20496e7465726d656469617465302017\
    0d3236313131363134333231325a180f32313236313032333134333231325a3044310b3009060355040613025a5a\
    31163014060355040a0c0d4578616d706c6520436c6f636b311d301b06035504030c144578616d706c6520436c6f\
    636b205369676e65723059301306072a8648ce3d020106082a8648ce3d03010703420004e0036b79ed288a78f410\
    36a17744860dc7a01c216f040494a1fe9c40488ecd96580667e8525a23165e623b81b7fb04cd8a969b15800dd78e\
    8d8dad066712cb87a3783076300c0603551d130101ff04023000300e0603551d0f0101ff04040302078030160603\
    551d250101ff040c300a06082b06010505070308301d0603551d0e04160414895a3037334e6441753aa12ecc5089\
    9803b8e8db301f0603551d23041830168014645161ab140c82e19934569a0f16d2776d56841f300a06082a8648ce\
    3d040302034800304502204cd3718b5be6f1ba3f026e78d0b1cbe60a9185581d3f7e26e6891c9a7a8840c7022100\
    dee6d1a2c41dc2fc79d77fd9802b121c0bfb9bfebf7ef551feac4d47915cfe61308201df30820186a00302010202\
    0102300a06082a8648ce3d0403023042310b3009060355040613025a5a31163014060355040a0c0d4578616d706c\
    6520436c6f636b311b301906035504030c124578616d706c6520436c6f636b20526f6f743020170d323631313136\
    3134333231325a180f32313236313032333134333231325a304a310b3009060355040613025a5a31163014060355\
    040a0c0d4578616d706c6520436c6f636b3123302106035504030c1a4578616d706c6520436c6f636b20496e7465\
    726d6564696174653059301306072a8648ce3d020106082a8648ce3d03010703420004963579bb1d78482813a14e\
    82bd050f3697a09e700cd66df59384d170db75959e5768d20098e6385a7065930b500f36219f9bd8f9987153c1a0\
    e3fcf18f5a652aa3633061300f0603551d130101ff040530030101ff300e0603551d0f0101ff040403020204301d\
    0603551d0e04160414645161ab140c82e19934569a0f16d2776d56841f301f0603551d23041830168014f5320b71\
    13a9bd06c2f4972b157951a16cf7f4ec300a06082a8648ce3d040302034700304402201870f216d7a651b0cfaf16\
    71b5ed178f5709618414ebf67fcad3cd2bcbdb62c5022046769ffb62779534ef7cf145647f551baca5f253bbffd8\
    f06a98c27bb09d5887308201d83082017ea003020102020101300a06082a8648ce3d0403023042310b3009060355\
    040613025a5a31163014060355040a0c0d4578616d706c6520436c6f636b311b301906035504030c124578616d70\
    6c6520436c6f636b20526f6f743020170d3236313131363134333231325a180f3231323631303233313433323132\
    5a3042310b3009060355040613025a5a31163014060355040a0c0d4578616d706c6520436c6f636b311b30190603\
    5504030c124578616d706c6520436c6f636b20526f6f743059301306072a8648ce3d020106082a8648ce3d030107\
    034200044aa0b88833e8a4d82faeb34356c075f969a54f00c5d1d1d55fabff56f3e1627269231bb65361aed494f9\
    0f9095e462ff98a312c670b08917b771b5d7564cf9b7a3633061301d0603551d0e04160414f5320b7113a9bd06c2\
    f4972b157951a16cf7f4ec301f0603551d23041830168014f5320b7113a9bd06c2f4972b157951a16cf7f4ec300f\
    0603551d130101ff040530030101ff300e0603551d0f0101ff040403020204300a06082a8648ce3d040302034800\
    3045022026dc9f7a9c24539a891ce9e99a490e9dff42e88b6de6065f0a0735d1e9e616a0022100dac7c296ede9b7\
    90a906795755b91834dc9157dab00a8cbdfc850c164952c13831820164308201600201013050304a310b30090603\
    55040613025a5a31163014060355040a0c0d4578616d706c6520436c6f636b3123302106035504030c1a4578616d\
    706c6520436c6f636b20496e7465726d65646961746502021000300d06096086480165030402010500a081a4301a\
    06092a864886f70d010903310d060b2a864886f70d0109100104301c06092a864886f70d010905310f170d323631\
    3131363134333231325a302f06092a864886f70d010904312204201580a0b06780b2b109a17b015a5402085d3483\
    b1089eb4c1c6bbad846d053e8a3037060b2a864886f70d010910022f31283026302430220420315e375add2b17c1\
    1ef3e0f77bdebc185c12f95686dff0e0d8ebd0bff2832fd2300a06082a8648ce3d04030204473045022100b41056\
    8f41a4e34917f405d24b4e3663e79914809d5ca0f089b60a0d6a5908cb022004a7bf23a69907c075fbfa7d576c07\
    413c1e2ac1029d311bfab41b977099f595";

/// The certificate of the authority.
const SIGNER: &str = "\
    308201f83082019ea00302010202021000300a06082a8648ce3d040302304a310b3009060355040613025a5a3116\
    3014060355040a0c0d4578616d706c6520436c6f636b3123302106035504030c1a4578616d706c6520436c6f636b\
    20496e7465726d6564696174653020170d3236313131363134333231325a180f3231323631303233313433323132\
    5a3044310b3009060355040613025a5a31163014060355040a0c0d4578616d706c6520436c6f636b311d301b0603\
    5504030c144578616d706c6520436c6f636b205369676e65723059301306072a8648ce3d020106082a8648ce3d03\
    010703420004e0036b79ed288a78f41036a17744860dc7a01c216f040494a1fe9c40488ecd96580667e8525a2316\
    5e623b81b7fb04cd8a969b15800dd78e8d8dad066712cb87a3783076300c0603551d130101ff04023000300e0603\
    551d0f0101ff04040302078030160603551d250101ff040c300a06082b06010505070308301d0603551d0e041604\
    14895a3037334e6441753aa12ecc50899803b8e8db301f0603551d23041830168014645161ab140c82e19934569a\
    0f16d2776d56841f300a06082a8648ce3d040302034800304502204cd3718b5be6f1ba3f026e78d0b1cbe60a9185\
    581d3f7e26e6891c9a7a8840c7022100dee6d1a2c41dc2fc79d77fd9802b121c0bfb9bfebf7ef551feac4d47915c\
    fe61";

/// The certificate that issued that of the authority.
const INTERMEDIATE: &str = "\
    308201df30820186a003020102020102300a06082a8648ce3d0403023042310b3009060355040613025a5a311630\
    14060355040a0c0d4578616d706c6520436c6f636b311b301906035504030c124578616d706c6520436c6f636b20\
    526f6f743020170d3236313131363134333231325a180f32313236313032333134333231325a304a310b30090603\
    55040613025a5a31163014060355040a0c0d4578616d706c6520436c6f636b3123302106035504030c1a4578616d\
    706c6520436c6f636b20496e7465726d6564696174653059301306072a8648ce3d020106082a8648ce3d03010703\
    420004963579bb1d78482813a14e82bd050f3697a09e700cd66df59384d170db75959e5768d20098e6385a706593\
    0b500f36219f9bd8f9987153c1a0e3fcf18f5a652aa3633061300f0603551d130101ff040530030101ff300e0603\
    551d0f0101ff040403020204301d0603551d0e04160414645161ab140c82e19934569a0f16d2776d56841f301f06\
    03551d23041830168014f5320b7113a9bd06c2f4972b157951a16cf7f4ec300a06082a8648ce3d04030203470030\
    4402201870f216d7a651b0cfaf1671b5ed178f5709618414ebf67fcad3cd2bcbdb62c5022046769ffb62779534ef\
    7cf145647f551baca5f253bbffd8f06a98c27bb09d5887";

/// The certificate at the root.
const ROOT: &str = "\
    308201d83082017ea003020102020101300a06082a8648ce3d0403023042310b3009060355040613025a5a311630\
    14060355040a0c0d4578616d706c6520436c6f636b311b301906035504030c124578616d706c6520436c6f636b20\
    526f6f743020170d3236313131363134333231325a180f32313236313032333134333231325a3042310b30090603\
    55040613025a5a31163014060355040a0c0d4578616d706c6520436c6f636b311b301906035504030c124578616d\
    706c6520436c6f636b20526f6f743059301306072a8648ce3d020106082a8648ce3d030107034200044aa0b88833\
    e8a4d82faeb34356c075f969a54f00c5d1d1d55fabff56f3e1627269231bb65361aed494f90f9095e462ff98a312\
    c670b08917b771b5d7564cf9b7a3633061301d0603551d0e04160414f5320b7113a9bd06c2f4972b157951a16cf7\
    f4ec301f0603551d23041830168014f5320b7113a9bd06c2f4972b157951a16cf7f4ec300f0603551d130101ff04\
    0530030101ff300e0603551d0f0101ff040403020204300a06082a8648ce3d0403020348003045022026dc9f7a9c\
    24539a891ce9e99a490e9dff42e88b6de6065f0a0735d1e9e616a0022100dac7c296ede9b790a906795755b91834\
    dc9157dab00a8cbdfc850c164952c138";

/// What the response was made for.
const DATA: &[u8] = b"the data that was time-stamped";

/// The time in the response, 2026-11-16T14:32:12Z.
const GEN_TIME: i64 = 1_794_839_532;

const MESSAGE_DIGEST: [u32; 7] = [1, 2, 840, 113549, 1, 9, 4];
const SIGNING_TIME: [u32; 7] = [1, 2, 840, 113549, 1, 9, 5];

fn from_hex(text: &str) -> Vec<u8> {
    (0..text.len() / 2)
        .map(|i| u8::from_str_radix(&text[2 * i..2 * i + 2], 16).unwrap())
        .collect()
}

fn response() -> Vec<u8> {
    from_hex(RESPONSE)
}

fn signed_data() -> SignedData {
    signed_data_from_time_stamp_response(&response()).unwrap().unwrap()
}

/// Checks signatures over P-256 and SHA-256.
fn check_signature(request: &SignatureRequest) -> SignatureOutcome {
    if request.sig_alg.dotted != "1.2.840.10045.2.1"
        || request.hash_alg.dotted != "2.16.840.1.101.3.4.2.1"
    {
        return SignatureOutcome::Unsupported;
    }
    let key = VerifyingKey::from_public_key_der(&request.signing_key_der).unwrap();
    match Signature::from_der(&request.sig_val) {
        Ok(signature) if key.verify(&request.tbs, &signature).is_ok() => SignatureOutcome::Valid,
        _ => SignatureOutcome::Invalid,
    }
}

fn accept_signature(_: &SignatureRequest) -> SignatureOutcome {
    SignatureOutcome::Valid
}

fn accept_profile(_: &TrustRequest) -> ProfileOutcome {
    ProfileOutcome { passed: true, log: vec![] }
}

fn trust(_: &TrustRequest) -> bool {
    true
}

fn distrust(_: &TrustRequest) -> bool {
    false
}

/// Verifies the response with real checks of signatures.
fn verify(
    ts: &[u8],
    data: &[u8],
    trusted: fn(&TrustRequest) -> bool,
    log: &mut StatusTracker,
    verify_trust: bool,
) -> Result<TstInfo, TimeStampError> {
    let checks = Checks { signature: check_signature, profile: accept_profile, trust: trusted };
    verify_time_stamp(ts, data, &checks, log, verify_trust)
}

/// Runs a verification to its end.
fn drive(
    verification: Verification,
    signature: impl Fn(&SignatureRequest) -> SignatureOutcome,
    profile: impl Fn(&TrustRequest) -> ProfileOutcome,
    trusted: impl Fn(&TrustRequest) -> bool,
) -> Outcome {
    let mut verification = verification;
    loop {
        verification = match verification {
            Verification::Finished(outcome) => return outcome,
            Verification::Pending(pending) => match &pending.phase {
                Phase::Signature(candidate) => {
                    let outcome = signature(&candidate.request);
                    Verification::Pending(pending).on_signature(outcome)
                }
                Phase::Profile(trial) => {
                    let outcome = profile(&trial.request);
                    Verification::Pending(pending).on_profile(outcome)
                }
                Phase::Trust(trial) => {
                    let outcome = trusted(&trial.request);
                    Verification::Pending(pending).on_trust(outcome)
                }
            },
        };
    }
}

/// Runs a verification of signed data without trust, in which all signatures are valid.
fn outcome(signed: SignedData) -> Outcome {
    drive(
        Verification::begin_with(Some(signed), DATA, false),
        accept_signature,
        accept_profile,
        trust,
    )
}

fn finding(description: &str, status: &str) -> LogItem {
    LogItem {
        kind: LogKind::Informational,
        label: String::new(),
        description: description.to_string(),
        function: "verify_time_stamp".to_string(),
        validation_status: Some(status.to_string()),
    }
}

fn achievement(description: &str, status: &str) -> LogItem {
    LogItem { kind: LogKind::Success, ..finding(description, status) }
}

fn decode_error(message: &str) -> TimeStampError {
    TimeStampError::DecodeError(message.to_string())
}

fn attributes(signed: &mut SignedData) -> &mut Vec<Attribute> {
    &mut signed.signer_infos[0].signed_attrs.as_mut().unwrap().attributes
}

fn attribute<'a>(signed: &'a mut SignedData, attribute_type: &[u32]) -> &'a mut Attribute {
    attributes(signed).iter_mut().find(|a| a.attribute_type.as_deref() == Some(attribute_type)).unwrap()
}

/// The signer certificate of a token.
fn tsa_signer_cert(token: &[u8]) -> Vec<u8> {
    tsa_signer_cert_der_from_token(token).unwrap().expect("token names a signer certificate")
}

// The chain that is handed out, and the codes in the log.

#[test]
fn the_exposed_tsa_chain_is_leaf_first_and_starts_at_the_signer() {
    let token = response();

    let chain = tsa_cert_chain_der_from_token(&token).unwrap();
    assert!(!chain.is_empty(), "the token carries certificates");
    assert_eq!(
        chain[0],
        tsa_signer_cert(&token),
        "element 0 must be the signer's own certificate, not an issuer"
    );

    // Leaf first means each element is issued by the next one.
    for pair in chain.windows(2) {
        let (_, child) = x509_parser::certificate::X509Certificate::from_der(&pair[0]).unwrap();
        let (_, parent) = x509_parser::certificate::X509Certificate::from_der(&pair[1]).unwrap();
        assert_eq!(child.issuer(), parent.subject(), "chain is not ordered leaf to root");
    }
}

#[test]
fn a_token_that_is_not_a_token_yields_an_empty_chain() {
    assert!(tsa_cert_chain_der_from_token(b"not a timestamp token")
        .unwrap_or_default()
        .is_empty());
}

#[test]
fn no_trusted_code_when_trust_checking_is_off() {
    let mut log = StatusTracker::default();

    verify(&response(), DATA, distrust, &mut log, false)
        .expect("the fixture's timestamp token verifies");

    assert!(
        log.has_status(TIMESTAMP_VALIDATED),
        "the token's signature and message imprint were checked, so this must be logged"
    );
    assert!(
        !log.has_status(TIMESTAMP_TRUSTED),
        "no trust check ran, so nothing may claim the TSA is trusted"
    );
}

#[test]
fn trusted_code_when_trust_checking_is_on_and_the_anchor_matches() {
    let leaf = tsa_signer_cert(&response());
    let checks = Checks {
        signature: check_signature,
        profile: accept_profile,
        trust: |request: &TrustRequest| request.chain[0] == leaf,
    };

    let mut log = StatusTracker::default();
    verify_time_stamp(&response(), DATA, &checks, &mut log, true)
        .expect("the fixture's timestamp token verifies");

    assert!(log.has_status(TIMESTAMP_VALIDATED));
    assert!(
        log.has_status(TIMESTAMP_TRUSTED),
        "the trust check succeeded, so the code must still be emitted"
    );
}

#[test]
fn untrusted_code_when_trust_checking_is_on_and_nothing_matches() {
    let mut log = StatusTracker::default();

    let _ = verify(&response(), DATA, distrust, &mut log, true);

    assert!(!log.has_status(TIMESTAMP_TRUSTED));
    assert!(log.has_status(TIMESTAMP_UNTRUSTED));
}

#[test]
fn the_chain_goes_from_the_signer_over_the_intermediate_to_the_root() {
    assert_eq!(
        tsa_cert_chain_der_from_token(&response()),
        Ok(vec![from_hex(SIGNER), from_hex(INTERMEDIATE), from_hex(ROOT)])
    );
    assert_eq!(tsa_signer_cert_der_from_token(&response()), Ok(Some(from_hex(SIGNER))));
}

#[test]
fn the_checked_chain_is_the_exposed_one() {
    let exposed = tsa_cert_chain_der_from_token(&response()).unwrap();
    let checks = Checks {
        signature: check_signature,
        profile: |request: &TrustRequest| ProfileOutcome {
            passed: request.chain == exposed
                && request.valid_eku == "1.3.6.1.5.5.7.3.8"
                && request.log.len() == 1
                && request.log[0].validation_status.as_deref() == Some(TIMESTAMP_VALIDATED),
            log: vec![],
        },
        trust: |request: &TrustRequest| {
            request.chain == exposed
                && request.signing_time == GEN_TIME
                && request.tst.serial_number == "66"
        },
    };
    let mut log = StatusTracker::default();
    assert!(verify_time_stamp(&response(), DATA, &checks, &mut log, true).is_ok());
}

#[test]
fn what_is_not_a_response_is_an_error() {
    let error = decode_error("unable to decode time stamp response");
    assert_eq!(tsa_signer_cert_der_from_token(b"not a timestamp token"), Err(error));
    let error = decode_error("unable to decode time stamp response");
    assert_eq!(tsa_cert_chain_der_from_token(b"not a timestamp token"), Err(error));
}

#[test]
fn a_response_without_a_token_has_no_chain() {
    let rejection = from_hex("30053003020102");
    assert_eq!(tsa_signer_cert_der_from_token(&rejection), Ok(None));
    assert_eq!(tsa_cert_chain_der_from_token(&rejection), Ok(vec![]));
}

#[test]
fn a_token_that_does_not_hold_signed_data_is_an_error() {
    // id-data in the place of id-signedData
    let mut other = response();
    assert_eq!(other[23], 2);
    other[23] = 1;
    let error = decode_error("invalid OID for signed data");
    assert_eq!(tsa_cert_chain_der_from_token(&other), Err(error));
}

#[test]
fn signed_data_that_cannot_be_decoded_is_an_error() {
    // the sequence of the signed data becomes a set
    let mut broken = response();
    assert_eq!(broken[28], 0x30);
    broken[28] = 0x31;
    let error = decode_error("unable to decode signed data");
    assert_eq!(tsa_cert_chain_der_from_token(&broken), Err(error));
}

// What a verification returns and logs.

#[test]
fn the_information_in_the_time_stamp_is_returned() {
    let mut log = StatusTracker::default();
    let tst = verify(&response(), DATA, trust, &mut log, false).unwrap();
    assert_eq!(tst.version, "1");
    assert_eq!(tst.policy, vec![1, 2, 3, 4, 1]);
    assert_eq!(tst.message_imprint.hash_algorithm, vec![2, 16, 840, 1, 101, 3, 4, 2, 1]);
    assert_eq!(tst.message_imprint.hash_parameters, Some(vec![5, 0]));
    assert_eq!(
        tst.message_imprint.hashed_message,
        from_hex("30609de06f5fb850ef8a13fcd546ad14e5e5903c24ee77a9a57a716e0fc0d46a")
    );
    assert_eq!(tst.serial_number, "66");
    assert_eq!(tst.gen_time, GeneralizedTime { seconds: GEN_TIME, nanos: 0 });
    let accuracy = tst.accuracy.unwrap();
    assert_eq!(accuracy.seconds.as_deref(), Some("1"));
    assert_eq!(accuracy.millis.as_deref(), Some("500"));
    assert_eq!(accuracy.micros.as_deref(), Some("100"));
    assert!(tst.ordering);
    assert_eq!(tst.nonce.as_deref(), Some("5757264563398971638"));
    assert!(tst.tsa.unwrap().unwrap().windows(6).any(|w| w == b"Signer"));
    assert_eq!(tst.extensions, None);
}

#[test]
fn an_accepted_time_stamp_without_trust_is_logged() {
    let mut log = StatusTracker::default();
    assert!(verify(&response(), DATA, trust, &mut log, false).is_ok());
    assert_eq!(
        log.logged_items,
        vec![achievement(
            "timestamp message digest matched: Example Clock Signer",
            TIMESTAMP_VALIDATED
        )]
    );
}

#[test]
fn an_accepted_time_stamp_with_trust_is_logged() {
    let mut log = StatusTracker::default();
    assert!(verify(&response(), DATA, trust, &mut log, true).is_ok());
    assert_eq!(
        log.logged_items,
        vec![
            achievement(
                "timestamp message digest matched: Example Clock Signer",
                TIMESTAMP_VALIDATED
            ),
            achievement("timestamp cert trusted: Example Clock Signer", TIMESTAMP_TRUSTED),
        ]
    );
}

#[test]
fn an_untrusted_certificate_is_an_error() {
    let mut log = StatusTracker::default();
    assert_eq!(
        verify(&response(), DATA, distrust, &mut log, true),
        Err(TimeStampError::Untrusted)
    );
    assert_eq!(
        log.logged_items,
        vec![
            achievement(
                "timestamp message digest matched: Example Clock Signer",
                TIMESTAMP_VALIDATED
            ),
            finding("timestamp cert untrusted: Example Clock Signer", TIMESTAMP_UNTRUSTED),
        ]
    );
}

#[test]
fn a_certificate_that_does_not_fit_the_profile_is_an_error() {
    let checks = Checks {
        signature: check_signature,
        profile: |_: &TrustRequest| ProfileOutcome {
            passed: false,
            log: vec![finding("the key usage is wrong", "signingCredential.invalid")],
        },
        trust,
    };
    let mut log = StatusTracker::default();
    assert_eq!(
        verify_time_stamp(&response(), DATA, &checks, &mut log, true),
        Err(TimeStampError::Untrusted)
    );
    assert_eq!(
        log.logged_items,
        vec![
            achievement(
                "timestamp message digest matched: Example Clock Signer",
                TIMESTAMP_VALIDATED
            ),
            finding("the key usage is wrong", "signingCredential.invalid"),
            finding("timestamp cert untrusted: Example Clock Signer", TIMESTAMP_UNTRUSTED),
        ]
    );
}

#[test]
fn the_log_is_only_appended_to() {
    let mut log = StatusTracker::default();
    log.add_item(finding("from before", "other.code"));
    assert!(verify(&response(), DATA, trust, &mut log, false).is_ok());
    assert!(verify(b"garbage", DATA, trust, &mut log, false).is_err());
    assert_eq!(
        log.logged_items,
        vec![
            finding("from before", "other.code"),
            achievement(
                "timestamp message digest matched: Example Clock Signer",
                TIMESTAMP_VALIDATED
            ),
            finding("could not parse timestamp data", TIMESTAMP_MALFORMED),
        ]
    );
}

#[test]
fn what_is_accepted_with_trust_is_accepted_without() {
    for trusted in [trust as fn(&TrustRequest) -> bool, distrust] {
        let with = verify(&response(), DATA, trusted, &mut StatusTracker::default(), true);
        let without = verify(&response(), DATA, trusted, &mut StatusTracker::default(), false);
        assert!(with.is_err() || without.is_ok());
    }
}

#[test]
fn garbage_is_refused() {
    let mut log = StatusTracker::default();
    assert_eq!(
        verify(b"garbage", DATA, trust, &mut log, true),
        Err(decode_error("unable to find signed data"))
    );
    assert_eq!(
        log.logged_items,
        vec![finding("could not parse timestamp data", TIMESTAMP_MALFORMED)]
    );
}

#[test]
fn a_response_without_a_token_is_refused() {
    let mut log = StatusTracker::default();
    assert_eq!(
        verify(&from_hex("30053003020102"), DATA, trust, &mut log, true),
        Err(decode_error("unable to find signed data"))
    );
    assert!(log.has_status(TIMESTAMP_MALFORMED));
}

#[test]
fn a_forged_signature_is_untrusted() {
    let mut forged = response();
    *forged.last_mut().unwrap() ^= 1;
    let mut log = StatusTracker::default();
    assert_eq!(
        verify(&forged, DATA, trust, &mut log, false),
        Err(TimeStampError::Untrusted)
    );
    assert_eq!(
        log.logged_items,
        vec![finding("timestamp signed data did not match signature", TIMESTAMP_UNTRUSTED)]
    );
}

#[test]
fn a_signature_without_a_validator_is_untrusted() {
    let checks = Checks {
        signature: |_: &SignatureRequest| SignatureOutcome::Unsupported,
        profile: accept_profile,
        trust,
    };
    let mut log = StatusTracker::default();
    assert_eq!(
        verify_time_stamp(&response(), DATA, &checks, &mut log, false),
        Err(TimeStampError::Untrusted)
    );
    assert!(log.has_status(TIMESTAMP_UNTRUSTED));
}

#[test]
fn other_data_is_a_mismatch() {
    let mut log = StatusTracker::default();
    assert_eq!(
        verify(&response(), b"other data", trust, &mut log, true),
        Err(TimeStampError::InvalidData)
    );
    assert_eq!(
        log.logged_items,
        vec![finding(
            "timestamp message digest did not match: Example Clock Signer",
            TIMESTAMP_MISMATCH
        )]
    );
}

#[test]
fn the_signature_covers_the_signed_attributes() {
    let outcome = drive(
        Verification::begin(&response(), DATA, false),
        |request| {
            // a set of attributes
            assert_eq!(request.tbs[0], 0x31);
            check_signature(request)
        },
        accept_profile,
        trust,
    );
    assert!(outcome.result.is_ok());
}

#[test]
fn the_signature_covers_the_content_without_signed_attributes() {
    let mut signed = signed_data();
    let content = signed.encap_content_info.content.clone().unwrap();
    signed.signer_infos[0].signed_attrs = None;
    let outcome = drive(
        Verification::begin_with(Some(signed), DATA, false),
        |request| {
            assert_eq!(request.tbs, content);
            SignatureOutcome::Valid
        },
        accept_profile,
        trust,
    );
    assert!(outcome.result.is_ok());
}

// Tokens that lack something.

#[test]
fn a_token_without_certificates_is_refused() {
    let mut signed = signed_data();
    signed.certificates = None;
    let outcome = outcome(signed);
    assert_eq!(outcome.result, Err(decode_error("time stamp contains no certificates")));
    assert_eq!(
        outcome.log,
        vec![finding("could not parse timestamp data", TIMESTAMP_UNTRUSTED)]
    );
}

#[test]
fn a_token_with_something_else_than_a_certificate_is_refused() {
    let mut signed = signed_data();
    let other = CertificateChoice { encoded: None, identity: None, key: None };
    signed.certificates.as_mut().unwrap().push(other);
    let error = "time stamp certificate could not be processed";
    assert!(matches!(
        time_stamp::signer::signer_certs_from_signed_data(&signed),
        Err(TimeStampError::DecodeError(message)) if message == error
    ));
    let outcome = outcome(signed);
    assert_eq!(outcome.result, Err(decode_error(error)));
    assert_eq!(
        outcome.log,
        vec![finding("could not parse timestamp data", TIMESTAMP_UNTRUSTED)]
    );
}

#[test]
fn a_member_that_is_not_a_certificate_is_found_in_the_encoding() {
    // an attribute certificate of version 1 takes the place of the root
    let mut response: rasn_cms::tsp::TimeStampResp = rasn::der::decode(&response()).unwrap();
    let token = response.time_stamp_token.as_mut().unwrap();
    let mut data: rasn_cms::SignedData = rasn::der::decode(token.content.as_bytes()).unwrap();
    data.certificates.as_mut().unwrap().insert(rasn_cms::CertificateChoices::Other(
        rasn_cms::OtherCertificateFormat {
            other_cert_format: rasn::types::ObjectIdentifier::new_unchecked(
                vec![1, 2, 3, 4].into(),
            ),
            other_cert: rasn::types::Any::new(vec![5, 0]),
        },
    ));
    token.content = rasn::types::Any::new(rasn::der::encode(&data).unwrap());
    let response = rasn::der::encode(&response).unwrap();
    assert_eq!(
        tsa_cert_chain_der_from_token(&response),
        Err(decode_error("time stamp certificate could not be processed"))
    );
    assert_eq!(
        verify(&response, DATA, trust, &mut StatusTracker::default(), false),
        Err(decode_error("time stamp certificate could not be processed"))
    );
}

#[test]
fn a_token_without_signers_is_invalid() {
    let mut signed = signed_data();
    signed.signer_infos.clear();
    assert!(matches!(
        time_stamp::signer::signer_certs_from_signed_data(&signed),
        Ok(None)
    ));
    let outcome = outcome(signed);
    assert_eq!(outcome.result, Err(TimeStampError::InvalidData));
    assert_eq!(outcome.log, vec![]);
}

#[test]
fn a_signer_without_a_certificate_is_skipped() {
    let mut signed = signed_data();
    signed.certificates.as_mut().unwrap().remove(0);
    assert!(matches!(
        time_stamp::signer::signer_certs_from_signed_data(&signed),
        Ok(None)
    ));
    let outcome = outcome(signed);
    assert_eq!(outcome.result, Err(TimeStampError::InvalidData));
    assert_eq!(outcome.log, vec![]);
}

#[test]
fn content_of_another_type_has_no_information() {
    let mut signed = signed_data();
    signed.encap_content_info.content_type = vec![1, 2, 840, 113549, 1, 7, 1];
    let outcome = outcome(signed);
    assert_eq!(outcome.result, Err(TimeStampError::InvalidData));
    assert_eq!(
        outcome.log,
        vec![finding("timestamp response had no TstInfo", TIMESTAMP_MALFORMED)]
    );
}

#[test]
fn missing_content_has_no_information() {
    let mut signed = signed_data();
    signed.encap_content_info.content = None;
    assert_eq!(outcome(signed).result, Err(TimeStampError::InvalidData));
}

#[test]
fn content_that_cannot_be_decoded_has_no_information() {
    let mut signed = signed_data();
    signed.encap_content_info.content = Some(vec![1, 2, 3]);
    let outcome = outcome(signed);
    assert_eq!(outcome.result, Err(TimeStampError::InvalidData));
    assert_eq!(
        outcome.log,
        vec![finding("timestamp response had no TstInfo", TIMESTAMP_MALFORMED)]
    );
}

// The signed attributes.

#[test]
fn a_missing_message_digest_is_malformed() {
    let mut signed = signed_data();
    attributes(&mut signed).retain(|a| a.attribute_type.as_deref() != Some(&MESSAGE_DIGEST));
    let outcome = outcome(signed);
    assert_eq!(outcome.result, Err(decode_error("no message imprint")));
    assert_eq!(
        outcome.log,
        vec![finding("timestamp no message digest", TIMESTAMP_MALFORMED)]
    );
}

#[test]
fn two_message_digests_are_malformed() {
    let mut signed = signed_data();
    let digest = attribute(&mut signed, &MESSAGE_DIGEST);
    let value = digest.values[0].clone();
    digest.values.push(value);
    let outcome = outcome(signed);
    assert_eq!(
        outcome.result,
        Err(decode_error("message digest attribute has 2 values, should have one"))
    );
    assert_eq!(
        outcome.log,
        vec![finding(
            "timestamp response contained multiple message digests",
            TIMESTAMP_MALFORMED
        )]
    );
}

#[test]
fn a_message_digest_without_a_value_is_malformed() {
    let mut signed = signed_data();
    attribute(&mut signed, &MESSAGE_DIGEST).values.clear();
    assert_eq!(
        outcome(signed).result,
        Err(decode_error("message digest attribute has 0 values, should have one"))
    );
}

#[test]
fn a_message_digest_that_is_no_octet_string_is_malformed() {
    let mut signed = signed_data();
    attribute(&mut signed, &MESSAGE_DIGEST).values[0] = vec![5, 0];
    let outcome = outcome(signed);
    assert_eq!(outcome.result, Err(decode_error("unable to decode signed message data")));
    assert_eq!(
        outcome.log,
        vec![finding("timestamp could not decode signed message data", TIMESTAMP_MALFORMED)]
    );
}

#[test]
fn an_unknown_digest_algorithm_is_malformed() {
    let mut signed = signed_data();
    signed.signer_infos[0].digest_algorithm = vec![1, 2, 840, 113549, 2, 5];
    let outcome = outcome(signed);
    assert_eq!(outcome.result, Err(decode_error("unsupported digest algorithm")));
    assert_eq!(
        outcome.log,
        vec![finding("timestamp bad message digest algorithm", TIMESTAMP_MALFORMED)]
    );
}

#[test]
fn another_message_digest_is_a_mismatch() {
    let mut signed = signed_data();
    *attribute(&mut signed, &MESSAGE_DIGEST).values[0].last_mut().unwrap() ^= 1;
    let outcome = outcome(signed);
    assert_eq!(outcome.result, Err(TimeStampError::InvalidData));
    assert_eq!(
        outcome.log,
        vec![finding("timestamp bad message digest", TIMESTAMP_MISMATCH)]
    );
}

#[test]
fn the_first_message_digest_counts() {
    let mut signed = signed_data();
    let attribute_type = Some(MESSAGE_DIGEST.to_vec());
    attributes(&mut signed).push(Attribute { attribute_type, values: vec![] });
    assert!(outcome(signed).result.is_ok());
    let mut signed = signed_data();
    let attribute_type = Some(MESSAGE_DIGEST.to_vec());
    attributes(&mut signed).insert(0, Attribute { attribute_type, values: vec![] });
    assert!(outcome(signed).result.is_err());
}

#[test]
fn the_signed_time_is_used() {
    // 2030-01-02T03:04:05Z
    let mut signed = signed_data();
    attribute(&mut signed, &SIGNING_TIME).values[0] = b"\x17\x0d300102030405Z".to_vec();
    let time = GeneralizedTime { seconds: 1_893_553_445, nanos: 0 };
    assert_eq!(outcome(signed).result.unwrap().gen_time, time);
    let mut signed = signed_data();
    attribute(&mut signed, &SIGNING_TIME).values[0] = b"\x18\x0f20300102030405Z".to_vec();
    let time = GeneralizedTime { seconds: 1_893_553_445, nanos: 0 };
    assert_eq!(outcome(signed).result.unwrap().gen_time, time);
}

#[test]
fn a_signed_time_outside_of_the_validity_is_an_error() {
    let mut signed = signed_data();
    attribute(&mut signed, &SIGNING_TIME).values[0] = b"\x17\x0d200102030405Z".to_vec();
    let outcome = outcome(signed);
    assert_eq!(outcome.result, Err(TimeStampError::ExpiredCertificate));
    assert_eq!(
        outcome.log,
        vec![finding(
            "timestamp signer outside of certificate validity",
            TIMESTAMP_OUTSIDE_VALIDITY
        )]
    );
}

#[test]
fn a_signed_time_before_the_epoch_is_not_used() {
    let mut signed = signed_data();
    attribute(&mut signed, &SIGNING_TIME).values[0] = b"\x18\x0f19600102030405Z".to_vec();
    assert_eq!(outcome(signed).result.unwrap().gen_time.seconds, GEN_TIME);
}

#[test]
fn two_signed_times_are_not_used() {
    let mut signed = signed_data();
    let value = b"\x17\x0d300102030405Z".to_vec();
    attribute(&mut signed, &SIGNING_TIME).values.push(value);
    assert_eq!(outcome(signed).result.unwrap().gen_time.seconds, GEN_TIME);
}

#[test]
fn a_signed_time_that_cannot_be_decoded_is_not_used() {
    let mut signed = signed_data();
    attribute(&mut signed, &SIGNING_TIME).values[0] = vec![5, 0];
    assert_eq!(outcome(signed).result.unwrap().gen_time.seconds, GEN_TIME);
}

#[test]
fn attributes_that_cannot_be_encoded_are_malformed() {
    let mut signed = signed_data();
    signed.signer_infos[0].signed_attrs.as_mut().unwrap().encoded = Err(String::new());
    let outcome = outcome(signed);
    assert_eq!(outcome.result, Err(decode_error("timestamp signer info malformed")));
    assert_eq!(
        outcome.log,
        vec![finding("timestamp signer attributes malformed", TIMESTAMP_MALFORMED)]
    );
}

// The certificate and its key.

#[test]
fn a_digest_algorithm_that_is_no_identifier_is_malformed() {
    let mut signed = signed_data();
    signed.signer_infos[0].signed_attrs = None;
    signed.signer_infos[0].digest_algorithm = vec![3];
    let outcome = outcome(signed);
    assert_eq!(outcome.result, Err(decode_error("timestamp bad tbs certificate")));
    assert_eq!(outcome.log, vec![finding("timestamp bad hash alg", TIMESTAMP_MALFORMED)]);
}

#[test]
fn a_key_that_cannot_be_encoded_is_malformed() {
    let mut signed = signed_data();
    signed.certificates.as_mut().unwrap()[0].key.as_mut().unwrap().encoded = None;
    let outcome = outcome(signed);
    assert_eq!(outcome.result, Err(decode_error("timestamp bad tbs certificate")));
    assert_eq!(outcome.log, vec![finding("timestamp bad signing key", TIMESTAMP_MALFORMED)]);
}

#[test]
fn a_key_algorithm_that_is_no_identifier_is_malformed() {
    let mut signed = signed_data();
    signed.certificates.as_mut().unwrap()[0].key.as_mut().unwrap().algorithm = vec![];
    let outcome = outcome(signed);
    assert_eq!(outcome.result, Err(decode_error("timestamp bad tbs certificate")));
    assert_eq!(
        outcome.log,
        vec![finding("timestamp bad tbs certificate alg", TIMESTAMP_MALFORMED)]
    );
}

#[test]
fn the_ends_of_the_validity_period_belong_to_it() {
    for (not_before, not_after, valid) in [
        (GEN_TIME, GEN_TIME, true),
        (GEN_TIME + 1, GEN_TIME + 2, false),
        (GEN_TIME - 2, GEN_TIME - 1, false),
    ] {
        let mut signed = signed_data();
        let key = signed.certificates.as_mut().unwrap()[0].key.as_mut().unwrap();
        // fractions of a second do not count
        key.not_before = Time::Utc(DateTime { seconds: not_before, nanos: 1 });
        key.not_after = Time::General(GeneralizedTime { seconds: not_after, nanos: 0 });
        let result = outcome(signed).result;
        if valid {
            assert!(result.is_ok());
        } else {
            assert_eq!(result, Err(TimeStampError::ExpiredCertificate));
        }
    }
}

#[test]
fn the_validity_period_comes_from_the_certificate() {
    let signed = signed_data();
    let key = signed.certificates.as_ref().unwrap()[0].key.as_ref().unwrap();
    let not_before = DateTime { seconds: 1_794_839_532, nanos: 0 };
    let not_after = GeneralizedTime { seconds: 4_948_439_532, nanos: 0 };
    assert_eq!(key.not_before, Time::Utc(not_before));
    assert_eq!(key.not_after, Time::General(not_after));
    assert_eq!(key.algorithm, vec![1, 2, 840, 10045, 2, 1]);
}

#[test]
fn an_unknown_imprint_algorithm_is_unsupported() {
    // the last arc of the algorithm in the message imprint
    let mut signed = signed_data();
    signed.signer_infos[0].signed_attrs = None;
    let content = signed.encap_content_info.content.as_mut().unwrap();
    let sha256 = from_hex("0609608648016503040201");
    let at = content.windows(sha256.len()).position(|w| w == sha256).unwrap();
    content[at + 10] = 9;
    let outcome = outcome(signed);
    assert_eq!(outcome.result, Err(TimeStampError::UnsupportedAlgorithm));
    assert_eq!(
        outcome.log,
        vec![finding("timestamp unknown message digest algorithm", TIMESTAMP_UNTRUSTED)]
    );
}

#[test]
fn a_signer_can_be_named_by_its_key() {
    // the extension holds the identifier inside an octet string
    let mut signed = signed_data();
    let id = from_hex("0414895a3037334e6441753aa12ecc50899803b8e8db");
    signed.signer_infos[0].sid = SignerIdentifier::SubjectKeyIdentifier(id.clone());
    assert!(outcome(signed).result.is_ok());
    let mut signed = signed_data();
    signed.signer_infos[0].sid = SignerIdentifier::SubjectKeyIdentifier(id[2..].to_vec());
    assert_eq!(outcome(signed).result, Err(TimeStampError::InvalidData));
    let mut signed = signed_data();
    signed.signer_infos[0].sid = SignerIdentifier::SubjectKeyIdentifier(id);
    let certs = signed.certificates.as_mut().unwrap();
    certs[0].identity.as_mut().unwrap().extensions = None;
    assert_eq!(outcome(signed).result, Err(TimeStampError::InvalidData));
}

#[test]
fn a_signer_named_by_its_key_is_found_in_the_encoding() {
    let id = from_hex("0414895a3037334e6441753aa12ecc50899803b8e8db");
    let mut response: rasn_cms::tsp::TimeStampResp = rasn::der::decode(&response()).unwrap();
    let token = response.time_stamp_token.as_mut().unwrap();
    let mut data: rasn_cms::SignedData = rasn::der::decode(token.content.as_bytes()).unwrap();
    let mut signers = std::mem::take(&mut data.signer_infos).into_vec();
    signers[0].sid = rasn_cms::SignerIdentifier::SubjectKeyIdentifier(id.into());
    data.signer_infos = rasn::types::SetOf::from_vec(signers);
    token.content = rasn::types::Any::new(rasn::der::encode(&data).unwrap());
    let response = rasn::der::encode(&response).unwrap();
    assert_eq!(tsa_signer_cert_der_from_token(&response), Ok(Some(from_hex(SIGNER))));
    assert!(verify(&response, DATA, trust, &mut StatusTracker::default(), true).is_ok());
}

#[test]
fn the_serial_number_has_to_match() {
    let mut signed = signed_data();
    if let SignerIdentifier::IssuerAndSerialNumber { serial_number, .. } =
        &mut signed.signer_infos[0].sid
    {
        assert_eq!(serial_number, "4096");
        *serial_number = "4097".to_string();
    }
    assert_eq!(outcome(signed).result, Err(TimeStampError::InvalidData));
}

#[test]
fn certificates_that_cannot_be_ordered_end_the_verification_without_a_log() {
    let mut signed = signed_data();
    signed.certificates.as_mut().unwrap()[2].encoded = Some(vec![1, 2, 3]);
    let outcome = drive(
        Verification::begin_with(Some(signed), DATA, true),
        check_signature,
        accept_profile,
        trust,
    );
    assert_eq!(outcome.result, Err(decode_error("failed to parse certificates")));
    assert_eq!(outcome.log, vec![]);
}

#[test]
fn the_common_name_is_empty_where_the_certificate_cannot_be_read() {
    let mut signed = signed_data();
    signed.certificates.as_mut().unwrap()[0].encoded = Some(vec![1, 2, 3]);
    assert_eq!(
        outcome(signed).log,
        vec![achievement("timestamp message digest matched: ", TIMESTAMP_VALIDATED)]
    );
}

// More than one signer.

/// Signed data with a second signer that is like the first.
fn two_signers() -> SignedData {
    let mut signed = signed_data();
    signed.signer_infos.append(&mut signed_data().signer_infos);
    signed
}

#[test]
fn the_second_signer_can_decide() {
    let mut signed = two_signers();
    signed.signer_infos[0].digest_algorithm = vec![1, 2, 3];
    let outcome = outcome(signed);
    assert!(outcome.result.is_ok());
    assert_eq!(
        outcome.log,
        vec![achievement(
            "timestamp message digest matched: Example Clock Signer",
            TIMESTAMP_VALIDATED
        )]
    );
}

#[test]
fn the_first_accepted_signer_decides() {
    let mut signed = two_signers();
    attribute(&mut signed, &SIGNING_TIME).values[0] = b"\x17\x0d300102030405Z".to_vec();
    assert_eq!(outcome(signed).result.unwrap().gen_time.seconds, 1_893_553_445);
}

#[test]
fn the_last_rejection_decides() {
    let mut signed = two_signers();
    signed.signer_infos[0].digest_algorithm = vec![1, 2, 3];
    signed.signer_infos[1].signed_attrs.as_mut().unwrap().encoded = Err(String::new());
    let outcome = outcome(signed);
    assert_eq!(outcome.result, Err(decode_error("timestamp signer info malformed")));
    assert_eq!(
        outcome.log,
        vec![finding("timestamp signer attributes malformed", TIMESTAMP_MALFORMED)]
    );
}

#[test]
fn a_skipped_signer_leaves_the_error_and_clears_the_log() {
    let mut signed = two_signers();
    signed.signer_infos[0].signed_attrs.as_mut().unwrap().encoded = Err(String::new());
    signed.signer_infos[1].sid = SignerIdentifier::SubjectKeyIdentifier(vec![]);
    let outcome = outcome(signed);
    assert_eq!(outcome.result, Err(decode_error("timestamp signer info malformed")));
    assert_eq!(outcome.log, vec![]);
}

#[test]
fn the_second_signer_is_tried_after_an_untrusted_one() {
    let calls = std::cell::Cell::new(0);
    let outcome = drive(
        Verification::begin_with(Some(two_signers()), DATA, true),
        check_signature,
        accept_profile,
        |_| {
            calls.set(calls.get() + 1);
            calls.get() == 2
        },
    );
    assert!(outcome.result.is_ok());
    assert_eq!(calls.get(), 2);
    assert_eq!(outcome.log.len(), 2);
}

#[test]
fn both_signers_are_tried_where_neither_is_trusted() {
    let calls = std::cell::Cell::new(0);
    let outcome = drive(
        Verification::begin_with(Some(two_signers()), DATA, true),
        check_signature,
        accept_profile,
        |_| {
            calls.set(calls.get() + 1);
            false
        },
    );
    assert_eq!(outcome.result, Err(TimeStampError::Untrusted));
    assert_eq!(calls.get(), 2);
}

// The verification as a sequence of answers.

#[test]
fn a_verification_waits_for_one_answer_after_the_other() {
    let data = response();
    let started = Verification::begin(&data, DATA, true);
    assert!(matches!(
        &started,
        Verification::Pending(p) if p.position == 0 && matches!(p.phase, Phase::Signature(_))
    ));
    let signed = started.on_signature(SignatureOutcome::Valid);
    assert!(matches!(
        &signed,
        Verification::Pending(p) if matches!(p.phase, Phase::Profile(_)) && p.log.len() == 1
    ));
    let note = finding("a note", "a.code");
    let fitting = signed.on_profile(ProfileOutcome { passed: true, log: vec![note] });
    assert!(matches!(
        &fitting,
        Verification::Pending(p) if matches!(p.phase, Phase::Trust(_)) && p.log.len() == 2
    ));
    match fitting.on_trust(true) {
        Verification::Finished(outcome) => {
            assert!(outcome.result.is_ok());
            assert_eq!(outcome.log[1], finding("a note", "a.code"));
            assert_eq!(outcome.log[2].validation_status.as_deref(), Some(TIMESTAMP_TRUSTED));
        }
        Verification::Pending(_) => panic!("nothing is left to wait for"),
    }
}

#[test]
fn answers_that_a_verification_does_not_wait_for_change_nothing() {
    let data = response();
    let started = Verification::begin(&data, DATA, true);
    let started = started.on_trust(true);
    let started = started.on_profile(ProfileOutcome { passed: false, log: vec![] });
    assert!(matches!(
        &started,
        Verification::Pending(p) if matches!(p.phase, Phase::Signature(_)) && p.log.is_empty()
    ));
    let finished = Verification::begin(b"garbage", DATA, true);
    let finished = finished.on_signature(SignatureOutcome::Valid).on_trust(true);
    assert!(matches!(finished, Verification::Finished(outcome) if outcome.result.is_err()));
}

#[test]
fn a_profile_log_that_claims_trust_is_kept() {
    let outcome = drive(
        Verification::begin_with(Some(signed_data()), DATA, true),
        check_signature,
        |_| ProfileOutcome { passed: true, log: vec![finding("claim", TIMESTAMP_TRUSTED)] },
        distrust,
    );
    assert_eq!(outcome.result, Err(TimeStampError::Untrusted));
    assert_eq!(outcome.log[1], finding("claim", TIMESTAMP_TRUSTED));
}

/// How many entries carry a status code.
fn count(log: &[LogItem], code: &str) -> usize {
    log.iter().filter(|item| item.validation_status.as_deref() == Some(code)).count()
}

#[test]
fn an_accepted_log_reports_one_success_and_no_failure() {
    for verify_trust in [false, true] {
        // the first signer fails in each way that leaves an entry behind
        let mut unsigned = two_signers();
        unsigned.signer_infos[0].signature = vec![];
        let mut malformed = two_signers();
        malformed.signer_infos[0].digest_algorithm = vec![1, 2, 3];
        let mut mismatched = two_signers();
        *attribute(&mut mismatched, &MESSAGE_DIGEST).values[0].last_mut().unwrap() ^= 1;
        let mut expired = two_signers();
        attribute(&mut expired, &SIGNING_TIME).values[0] = b"\x17\x0d200102030405Z".to_vec();
        for signed in [unsigned, malformed, mismatched, expired] {
            let outcome = drive(
                Verification::begin_with(Some(signed), DATA, verify_trust),
                check_signature,
                accept_profile,
                trust,
            );
            assert!(outcome.result.is_ok());
            assert_eq!(outcome.log[0].kind, LogKind::Success);
            assert_eq!(count(&outcome.log, TIMESTAMP_VALIDATED), 1);
            assert_eq!(count(&outcome.log, TIMESTAMP_TRUSTED), usize::from(verify_trust));
            for code in [
                TIMESTAMP_MALFORMED,
                TIMESTAMP_MISMATCH,
                TIMESTAMP_OUTSIDE_VALIDITY,
                TIMESTAMP_UNTRUSTED,
            ] {
                assert_eq!(count(&outcome.log, code), 0);
            }
        }
    }
}

#[test]
fn without_trust_the_checks_of_certificates_have_no_influence() {
    for data in [DATA, b"other data"] {
        let run = |passed: bool, trusted: bool| {
            drive(
                Verification::begin_with(Some(two_signers()), data, false),
                check_signature,
                |_| ProfileOutcome { passed, log: vec![finding("a note", "a.code")] },
                |_| trusted,
            )
        };
        let expected = run(true, true);
        assert_eq!(run(true, false), expected);
        assert_eq!(run(false, true), expected);
        assert_eq!(run(false, false), expected);
    }
}

#[test]
fn only_the_use_for_time_stamps_counts() {
    // two policies that differ in the other uses that they allow
    let run = |uses: &[&str]| {
        let allows = |eku: &str| eku == "1.3.6.1.5.5.7.3.8" || uses.contains(&eku);
        drive(
            Verification::begin_with(Some(two_signers()), DATA, true),
            check_signature,
            |request| ProfileOutcome { passed: allows(&request.valid_eku), log: vec![] },
            |request| allows(&request.valid_eku),
        )
    };
    let expected = run(&[]);
    assert!(expected.result.is_ok());
    assert_eq!(run(&["1.3.6.1.5.5.7.3.4", "1.3.6.1.5.5.7.3.36"]), expected);
}

#[test]
fn a_trusted_code_comes_with_an_accepted_time_stamp_and_trust_only() {
    for verify_trust in [false, true] {
        for (data, trusted) in
            [(DATA, true), (DATA, false), (&b"other data"[..], true), (&b"other data"[..], false)]
        {
            let mut log = StatusTracker::default();
            let trusted: fn(&TrustRequest) -> bool = if trusted { trust } else { distrust };
            let result = verify(&response(), data, trusted, &mut log, verify_trust);
            assert_eq!(log.has_status(TIMESTAMP_TRUSTED), verify_trust && result.is_ok());
        }
    }
}

#[test]
fn apart_from_the_profile_check_a_refused_log_claims_no_trust() {
    let claims = || vec![finding("claim", TIMESTAMP_TRUSTED), finding("claim", TIMESTAMP_VALIDATED)];
    for trusted in [false, true] {
        let outcome = drive(
            Verification::begin_with(Some(signed_data()), DATA, true),
            check_signature,
            |_| ProfileOutcome { passed: true, log: claims() },
            |_| trusted,
        );
        assert_eq!(outcome.log[1..3], claims()[..]);
        let own = [outcome.log[0].copy(), outcome.log[3].copy()];
        assert_eq!(outcome.log.len(), 4);
        assert_eq!(count(&own, TIMESTAMP_TRUSTED), usize::from(outcome.result.is_ok()));
        assert_eq!(count(&own, TIMESTAMP_VALIDATED), 1);
        assert_eq!(count(&own, TIMESTAMP_UNTRUSTED), usize::from(outcome.result.is_err()));
    }
}

#[test]
fn a_copied_entry_is_the_same() {
    let item = achievement("a description", "a.code");
    assert_eq!(item.copy(), item);
    let item = LogItem { validation_status: None, ..item };
    assert_eq!(item.copy(), item);
}
