//! What an accepted time stamp is, and which time stamps are accepted.

use vstd::prelude::*;

use crate::chain;
use crate::cms;
use crate::digest;
use crate::error;
use crate::examine::{self, SignatureRequest};
use crate::laws::{self, Judgement};
use crate::meaning;
use crate::oid;
use crate::signer;
use crate::status;
use crate::time::Time;
use crate::verify::{
    self, Checks, ContextView, OutcomeView, PendingView, PhaseView, ProfileOutcome, Replies,
    SignatureOutcome, TrialView, TrustRequest, TrustRequestView, VerificationView,
};

verus! {

/// What is asked about the certificate of a signer.
spec fn asked_about(cx: ContextView, candidate: examine::CandidateView) -> TrustRequestView {
    TrustRequestView {
        chain: chain::leaf_to_root(cx.cert_ders, candidate.cert_pos)->Ok_0,
        valid_eku: "1.3.6.1.5.5.7.3.8"@,
        signing_time: candidate.tst.gen_time.seconds,
        tst: candidate.tst,
        log: seq![
            status::achievement(
                "timestamp message digest matched: "@ + candidate.common_name,
                "timeStamp.validated"@,
            ),
        ],
    }
}

/// The answers on an accepted signer were given by the checks.
proof fn lemma_answers_were_given<
    S: Fn(&SignatureRequest) -> SignatureOutcome,
    P: Fn(&TrustRequest) -> ProfileOutcome,
    T: Fn(&TrustRequest) -> bool,
>(
    checks: Checks<S, P, T>,
    cx: ContextView,
    i: int,
    error: error::TimeStampErrorView,
    log: Seq<status::LogItemView>,
    replies: spec_fn(int) -> Replies,
    k: int,
)
    requires
        0 <= i <= k < cx.signer_infos.len(),
        checks.can_give(verify::next_signer(cx, i, error, log), replies),
        laws::judgement(cx, cx.signer_infos[k], replies(k)) is Accepted,
        forall|j: int|
            i <= j < k ==> {
                let earlier: Judgement = laws::judgement(
                    cx,
                    #[trigger] cx.signer_infos[j],
                    replies(j),
                );
                earlier is Skipped || earlier is Rejected
            },
    ensures
        ({
            let candidate: examine::CandidateView = verify::examined(
                cx,
                cx.signer_infos[k],
            )->Candidate_0;
            &&& checks.signature_reports(candidate.request, replies(k).signature)
            &&& cx.verify_trust ==> {
                &&& checks.profile_reports(asked_about(cx, candidate), replies(k).profile)
                &&& checks.trust_reports(asked_about(cx, candidate), replies(k).trust)
            }
        }),
    decreases k - i,
{
    let first: VerificationView = verify::next_signer(cx, i, error, log);
    assert(cx.signer_infos[i] == cx.signer_infos[i]);
    match verify::examined(cx, cx.signer_infos[i]) {
        verify::ExaminedView::Skipped => {
            lemma_answers_were_given(checks, cx, i + 1, error, Seq::empty(), replies, k);
        },
        verify::ExaminedView::Rejected(rejection) => {
            lemma_answers_were_given(
                checks,
                cx,
                i + 1,
                rejection.error,
                seq![rejection.item],
                replies,
                k,
            );
        },
        verify::ExaminedView::Candidate(candidate) => {
            let pending: PendingView = first->Pending_0;
            let second: VerificationView = verify::answered(pending, replies(i));
            assert(checks.can_answer(pending, replies(i)));
            assert(checks.can_give(second, replies));
            match laws::candidate_judgement(cx, candidate, replies(i)) {
                Judgement::Rejected(last_error, last_log) => {
                    let computed: Option<Seq<u8>> = examine::digest_under(
                        candidate.tst.message_imprint.hash_algorithm,
                        cx.data,
                    );
                    if replies(i).signature == SignatureOutcome::Valid && examine::imprint_verdict(
                        candidate,
                        computed,
                    ) is Ok {
                        let asked: PendingView = second->Pending_0;
                        assert(asked.position == i);
                        let third: VerificationView = verify::answered(asked, replies(i));
                        assert(checks.can_give(third, replies));
                        if replies(i).profile.passed {
                            let trusted: PendingView = third->Pending_0;
                            assert(checks.can_give(
                                verify::answered(trusted, replies(i)),
                                replies,
                            ));
                        }
                    }
                    lemma_answers_were_given(checks, cx, i + 1, last_error, last_log, replies, k);
                },
                _ => {
                    if cx.verify_trust {
                        let asked: PendingView = second->Pending_0;
                        let third: VerificationView = verify::answered(asked, replies(i));
                        assert(checks.can_answer(asked, replies(i)));
                        assert(checks.can_give(third, replies));
                        let trusted: PendingView = third->Pending_0;
                        assert(checks.can_answer(trusted, replies(i)));
                    }
                },
            }
        },
    }
}

/// An accepted time stamp has a signer whose certificate is in the token, and that certificate was
/// valid at the time of the time stamp. The time stamp information is the one in the signed
/// content, field by field, but for a signed time; the signed attributes, if there are any, hold
/// the digest of the content. The signature was checked, with the key in the certificate, and
/// found to be valid. Where trust is verified, the certificate was found to fit the profile and to
/// be trusted, for the use that is registered for time stamps and at the time of the time stamp.
pub proof fn what_an_accepted_time_stamp_is<
    S: Fn(&SignatureRequest) -> SignatureOutcome,
    P: Fn(&TrustRequest) -> ProfileOutcome,
    T: Fn(&TrustRequest) -> bool,
>(
    checks: Checks<S, P, T>,
    ts: Seq<u8>,
    data: Seq<u8>,
    verify_trust: bool,
    outcome: OutcomeView,
    tst: cms::TstInfoView,
) -> (found: (cms::SignedDataView, int, int))
    requires
        checks.can_end_with(verify::begun(ts, data, verify_trust), outcome),
        outcome.result == Ok::<cms::TstInfoView, error::TimeStampErrorView>(tst),
    ensures
        ({
            let signed: cms::SignedDataView = found.0;
            let signer_info: cms::SignerInfoView = signed.signer_infos[found.1];
            let certs: Seq<cms::CertificateChoiceView> = signed.certificates.unwrap();
            let cert_pos: int = found.2;
            let key: cms::CertificateKeyView = certs[cert_pos].key.unwrap();
            let cert_ders: Seq<Seq<u8>> = Seq::new(
                certs.len(),
                |k: int| certs[k].encoded.unwrap(),
            );
            let octets: Seq<u8> = signed.encap_content_info.content.unwrap();
            let head: cms::TstHeadView = cms::decoded_tst_head(octets).unwrap();
            let tail: cms::TstTailView = cms::decoded_tst_tail(octets).unwrap();
            let signed_time: Option<Time> = match examine::signed_value_of(
                signer_info,
                seq![1u32, 2, 840, 113549, 1, 9, 5],
            ) {
                Some(value) => cms::decoded_time(value),
                None => None,
            };
            let signed_seconds: i64 = match signed_time {
                Some(Time::Utc(u)) => u.seconds,
                Some(Time::General(gt)) => gt.seconds,
                None => -1i64,
            };
            let common_name: Seq<char> = chain::common_name_of(cert_ders[cert_pos]);
            let matched: status::LogItemView = status::achievement(
                "timestamp message digest matched: "@ + common_name,
                "timeStamp.validated"@,
            );
            let trusted: status::LogItemView = status::achievement(
                "timestamp cert trusted: "@ + common_name,
                "timeStamp.trusted"@,
            );
            // What the token holds.
            &&& cms::response_signed_data(ts) == Ok::<
                Option<cms::SignedDataView>,
                error::TimeStampErrorView,
            >(Some(signed))
            &&& 0 <= found.1 < signed.signer_infos.len()
            &&& signed.certificates is Some
            &&& 0 <= cert_pos < certs.len()
            &&& forall|k: int| 0 <= k < certs.len() ==> (#[trigger] certs[k]).encoded is Some
            &&& certs[cert_pos].identity is Some
            &&& signer::is_named_by(certs[cert_pos].identity.unwrap(), signer_info.sid)
            &&& certs[cert_pos].key is Some
            &&& signed.encap_content_info.content_type == seq![
                1u32,
                2,
                840,
                113549,
                1,
                9,
                16,
                1,
                4,
            ]
            &&& signed.encap_content_info.content is Some
            &&& cms::decoded_tst_head(octets) is Some
            &&& cms::decoded_tst_tail(octets) is Some
            // The time lies in the period in which the certificate is valid.
            &&& match key.not_before {
                Time::Utc(u) => u.seconds <= tst.gen_time.seconds,
                Time::General(gt) => gt.seconds <= tst.gen_time.seconds,
            }
            &&& match key.not_after {
                Time::Utc(u) => tst.gen_time.seconds <= u.seconds,
                Time::General(gt) => tst.gen_time.seconds <= gt.seconds,
            }
            &&& 0 <= signed_seconds <= 253_402_300_799 ==> tst.gen_time.seconds == signed_seconds
                && tst.gen_time.nanos == 0
            &&& signed_seconds < 0 || signed_seconds > 253_402_300_799 ==> tst.gen_time
                == head.gen_time
            // The time stamp information is what was decoded.
            &&& tst.version == head.version
            &&& tst.policy == head.policy
            &&& tst.message_imprint == head.message_imprint
            &&& tst.serial_number == head.serial_number
            &&& tst.ordering == head.ordering
            &&& tst.nonce == head.nonce
            &&& tst.accuracy == tail.accuracy
            &&& tst.tsa == tail.tsa
            &&& tst.extensions == tail.extensions
            // The message imprint is the digest of the data, and the signed attributes hold that
            // of the content.
            &&& examine::digest_under(tst.message_imprint.hash_algorithm, data) == Some(
                tst.message_imprint.hashed_message,
            )
            &&& signer_info.signed_attrs is Some ==> {
                &&& examine::signed_value_of(
                    signer_info,
                    seq![1u32, 2, 840, 113549, 1, 9, 4],
                ) matches Some(value)
                &&& cms::decoded_octets(value) is Some
                &&& cms::decoded_octets(value) == examine::digest_under(
                    signer_info.digest_algorithm,
                    octets,
                )
            }
            // The signature was found to be valid.
            &&& exists|r: SignatureRequest| #[trigger]
                call_ensures(checks.signature, (&r,), SignatureOutcome::Valid) && r.sig_val@
                    == signer_info.signature && Some(r.signing_key_der@) == key.encoded && Some(
                    r.hash_alg@,
                ) == oid::oid_from_arcs(signer_info.digest_algorithm) && Some(r.sig_alg@)
                    == oid::oid_from_arcs(key.algorithm) && (match signer_info.signed_attrs {
                    Some(attributes) => attributes.encoded == Ok::<Seq<u8>, Seq<char>>(r.tbs@),
                    None => octets == r.tbs@,
                })
            // The certificate was found to be trusted, where that is asked for.
            &&& !verify_trust ==> outcome.log == seq![matched]
            &&& verify_trust ==> exists|r: TrustRequest, o: ProfileOutcome| #[trigger]
                call_ensures(checks.profile, (&r,), o) && o.passed && chain::leaf_to_root(
                    cert_ders,
                    cert_pos,
                ) == Ok::<Seq<Seq<u8>>, error::TimeStampErrorView>(r.chain.deep_view())
                    && r.valid_eku@ == "1.3.6.1.5.5.7.3.8"@ && r.signing_time
                    == tst.gen_time.seconds && r.tst.deep_view() == tst && r.log.deep_view()
                    == seq![matched] && outcome.log == seq![matched] + o.log.deep_view() + seq![
                    trusted,
                ]
            &&& verify_trust ==> exists|r: TrustRequest| #[trigger]
                call_ensures(checks.trust, (&r,), true) && chain::leaf_to_root(cert_ders, cert_pos)
                    == Ok::<Seq<Seq<u8>>, error::TimeStampErrorView>(r.chain.deep_view())
                    && r.valid_eku@ == "1.3.6.1.5.5.7.3.8"@ && r.signing_time
                    == tst.gen_time.seconds && r.tst.deep_view() == tst && r.log.deep_view()
                    == seq![matched]
        }),
{
    let start: VerificationView = verify::begun(ts, data, verify_trust);
    let replies: spec_fn(int) -> Replies = choose|replies: spec_fn(int) -> Replies| #[trigger]
        checks.can_give(start, replies) && outcome == verify::run(start, replies);
    laws::lemma_outcome(ts, data, verify_trust, replies);
    let cx: ContextView = laws::context_of(ts, data, verify_trust).unwrap();
    let signed: cms::SignedDataView = verify::found_signed_data(ts).unwrap();
    let certs: Seq<cms::CertificateChoiceView> = signed.certificates.unwrap();
    let error: error::TimeStampErrorView = error::TimeStampErrorView::InvalidData;
    let i: int = laws::lemma_decider(cx, 0, error, Seq::empty(), replies);
    lemma_answers_were_given(checks, cx, 0, error, Seq::empty(), replies, i);
    let signer_info: cms::SignerInfoView = cx.signer_infos[i];
    let candidate: examine::CandidateView = verify::examined(cx, signer_info)->Candidate_0;
    let cert_pos: int = candidate.cert_pos;
    meaning::the_first_named_certificate_is_the_signers(certs, signer_info.sid);
    meaning::a_signer_is_looked_at_with_its_own_certificate(cx, signer_info);
    meaning::encodings_are_those_of_all_members(certs);
    let key: cms::CertificateKeyView = certs[cert_pos].key.unwrap();
    let der: Seq<u8> = certs[cert_pos].encoded.unwrap();
    let cert_ders: Seq<Seq<u8>> = Seq::new(certs.len(), |k: int| certs[k].encoded.unwrap());
    assert(cx.cert_ders =~= cert_ders);
    let evidence: examine::EvidenceView = examine::evidence_of(cx.content, signer_info, key, der);
    meaning::which_signatures_are_worth_checking(cx.content, signer_info, key, cert_pos, evidence);
    meaning::what_is_kept_of_a_signer(
        cx.content,
        signer_info,
        key,
        cert_pos,
        evidence,
        candidate,
    );
    meaning::what_is_read_of_a_signer(cx.content, signer_info, key, der);
    meaning::decoded_information_is_kept(cx.content.content.unwrap());
    meaning::the_signed_time_is_the_one_that_counts(evidence.tst.unwrap(), evidence.signed_time);
    let computed: Option<Seq<u8>> = examine::digest_under(
        candidate.tst.message_imprint.hash_algorithm,
        data,
    );
    meaning::imprints_have_to_be_those_of_the_data(candidate, computed);
    meaning::signed_values_are_those_of_the_signed_attributes(
        signer_info,
        seq![1u32, 2, 840, 113549, 1, 9, 5],
    );
    if verify_trust {
        let matched: status::LogItemView = status::achievement(
            "timestamp message digest matched: "@ + candidate.common_name,
            "timeStamp.validated"@,
        );
        let trusted: status::LogItemView = status::achievement(
            "timestamp cert trusted: "@ + candidate.common_name,
            "timeStamp.trusted"@,
        );
        assert(outcome.log =~= seq![matched] + replies(i).profile.log + seq![trusted]);
        assert(chain::leaf_to_root(cert_ders, cert_pos) is Ok);
    }
    (signed, i, cert_pos)
}

/// The message imprint is the digest of some data, of all of it, under the algorithm that it names.
pub open spec fn imprint_covers(tst: cms::TstInfoView, data: Seq<u8>) -> bool {
    let named: Option<Seq<u8>> = meaning::octets_of_identifier(tst.message_imprint.hash_algorithm);
    let imprint: Seq<u8> = tst.message_imprint.hashed_message;
    ||| named == Some(seq![0x2bu8, 0x0e, 0x03, 0x02, 0x1a]) && imprint == digest::sha1_digest(data)
    ||| named == Some(seq![0x60u8, 0x86, 0x48, 0x01, 0x65, 0x03, 0x04, 0x02, 0x01]) && imprint
        == digest::sha256_digest(data)
    ||| named == Some(seq![0x60u8, 0x86, 0x48, 0x01, 0x65, 0x03, 0x04, 0x02, 0x02]) && imprint
        == digest::sha384_digest(data)
    ||| named == Some(seq![0x60u8, 0x86, 0x48, 0x01, 0x65, 0x03, 0x04, 0x02, 0x03]) && imprint
        == digest::sha512_digest(data)
}

/// Some time stamp information has, but for its time, the fields that are decoded from the content
/// of a response's signed data.
pub open spec fn is_information_in(ts: Seq<u8>, tst: cms::TstInfoView) -> bool {
    &&& cms::response_signed_data(ts) matches Ok(Some(signed))
    &&& signed.encap_content_info.content_type == seq![1u32, 2, 840, 113549, 1, 9, 16, 1, 4]
    &&& signed.encap_content_info.content matches Some(octets)
    &&& cms::decoded_tst_head(octets) matches Some(head)
    &&& cms::decoded_tst_tail(octets) matches Some(tail)
    &&& tst.version == head.version
    &&& tst.policy == head.policy
    &&& tst.message_imprint == head.message_imprint
    &&& tst.serial_number == head.serial_number
    &&& tst.ordering == head.ordering
    &&& tst.nonce == head.nonce
    &&& tst.accuracy == tail.accuracy
    &&& tst.tsa == tail.tsa
    &&& tst.extensions == tail.extensions
}

/// The time lies in the period of a certificate, both ends included.
pub open spec fn lies_in_period(key: cms::CertificateKeyView, seconds: i64) -> bool {
    &&& match key.not_before {
        Time::Utc(u) => u.seconds <= seconds,
        Time::General(gt) => gt.seconds <= seconds,
    }
    &&& match key.not_after {
        Time::Utc(u) => seconds <= u.seconds,
        Time::General(gt) => seconds <= gt.seconds,
    }
}

/// A signer of a response names a certificate in it that was valid at the time of some time stamp
/// information.
pub open spec fn was_made_in_time(ts: Seq<u8>, tst: cms::TstInfoView) -> bool {
    &&& cms::response_signed_data(ts) matches Ok(Some(signed))
    &&& signed.certificates matches Some(certs)
    &&& exists|i: int, pos: int|
        0 <= i < signed.signer_infos.len() && 0 <= pos < certs.len() && (
        #[trigger] certs[pos]).identity is Some && signer::is_named_by(
            certs[pos].identity.unwrap(),
            (#[trigger] signed.signer_infos[i]).sid,
        ) && certs[pos].key is Some && lies_in_period(
            certs[pos].key.unwrap(),
            tst.gen_time.seconds,
        )
}

/// An accepted time stamp has the message imprint of the data, of all of it. Its information is
/// the one in the response, and it was made while the certificate of its signer was valid.
pub proof fn accepted_time_stamps_fit<
    S: Fn(&SignatureRequest) -> SignatureOutcome,
    P: Fn(&TrustRequest) -> ProfileOutcome,
    T: Fn(&TrustRequest) -> bool,
>(
    checks: Checks<S, P, T>,
    ts: Seq<u8>,
    data: Seq<u8>,
    verify_trust: bool,
    outcome: OutcomeView,
    tst: cms::TstInfoView,
)
    requires
        checks.can_end_with(verify::begun(ts, data, verify_trust), outcome),
        outcome.result == Ok::<cms::TstInfoView, error::TimeStampErrorView>(tst),
    ensures
        imprint_covers(tst, data),
        is_information_in(ts, tst),
        was_made_in_time(ts, tst),
{
    let found: (cms::SignedDataView, int, int) = what_an_accepted_time_stamp_is(
        checks,
        ts,
        data,
        verify_trust,
        outcome,
        tst,
    );
    meaning::digests_are_those_of_the_whole_message(tst.message_imprint.hash_algorithm, data);
    let certs: Seq<cms::CertificateChoiceView> = found.0.certificates.unwrap();
    assert(certs[found.2].identity is Some);
    assert(signer::is_named_by(
        certs[found.2].identity.unwrap(),
        found.0.signer_infos[found.1].sid,
    ));
}

/// A time stamp that is accepted for some data is not accepted for data with other digests.
pub proof fn other_data_is_not_accepted<
    S: Fn(&SignatureRequest) -> SignatureOutcome,
    P: Fn(&TrustRequest) -> ProfileOutcome,
    T: Fn(&TrustRequest) -> bool,
>(
    checks: Checks<S, P, T>,
    ts: Seq<u8>,
    data: Seq<u8>,
    other: Seq<u8>,
    verify_trust: bool,
    outcome: OutcomeView,
    second: OutcomeView,
    tst: cms::TstInfoView,
)
    requires
        checks.can_end_with(verify::begun(ts, data, verify_trust), outcome),
        outcome.result == Ok::<cms::TstInfoView, error::TimeStampErrorView>(tst),
        checks.can_end_with(verify::begun(ts, other, verify_trust), second),
        digest::sha1_digest(other) != digest::sha1_digest(data),
        digest::sha256_digest(other) != digest::sha256_digest(data),
        digest::sha384_digest(other) != digest::sha384_digest(data),
        digest::sha512_digest(other) != digest::sha512_digest(data),
    ensures
        second.result is Err,
{
    if let Ok(again) = second.result {
        let a: (cms::SignedDataView, int, int) = what_an_accepted_time_stamp_is(
            checks,
            ts,
            data,
            verify_trust,
            outcome,
            tst,
        );
        let b: (cms::SignedDataView, int, int) = what_an_accepted_time_stamp_is(
            checks,
            ts,
            other,
            verify_trust,
            second,
            again,
        );
        assert(a.0 == b.0);
        assert(tst.message_imprint == again.message_imprint);
        meaning::digests_are_those_of_the_whole_message(tst.message_imprint.hash_algorithm, data);
        meaning::digests_are_those_of_the_whole_message(tst.message_imprint.hash_algorithm, other);
    }
}

/// A genuine time stamp is accepted: the first signer's certificate is in the token and valid at
/// the time, the signed attributes hold the digest of the content, if there are any, the message
/// imprint is the digest of the data, the signature is found to be valid, and the certificate, if
/// it is asked about, to fit the profile and to be trusted. The lengths of all these do not
/// matter.
pub proof fn a_genuine_time_stamp_is_accepted<
    S: Fn(&SignatureRequest) -> SignatureOutcome,
    P: Fn(&TrustRequest) -> ProfileOutcome,
    T: Fn(&TrustRequest) -> bool,
>(
    checks: Checks<S, P, T>,
    ts: Seq<u8>,
    data: Seq<u8>,
    verify_trust: bool,
    outcome: OutcomeView,
    signed: cms::SignedDataView,
    certs: Seq<cms::CertificateChoiceView>,
    cert_pos: int,
    key: cms::CertificateKeyView,
    octets: Seq<u8>,
    head: cms::TstHeadView,
    seconds: i64,
)
    requires
        checks.can_end_with(verify::begun(ts, data, verify_trust), outcome),
        // What the token holds.
        cms::response_signed_data(ts) == Ok::<
            Option<cms::SignedDataView>,
            error::TimeStampErrorView,
        >(Some(signed)),
        signed.signer_infos.len() > 0,
        signed.certificates == Some(certs),
        forall|k: int| 0 <= k < certs.len() ==> (#[trigger] certs[k]).encoded is Some,
        0 <= cert_pos < certs.len(),
        certs[cert_pos].identity is Some,
        signer::is_named_by(certs[cert_pos].identity.unwrap(), signed.signer_infos[0].sid),
        forall|k: int|
            0 <= k < cert_pos ==> ((#[trigger] certs[k]).identity matches Some(other)
                ==> !signer::is_named_by(other, signed.signer_infos[0].sid)),
        certs[cert_pos].key == Some(key),
        key.encoded is Some,
        oid::oid_from_arcs(key.algorithm) is Some,
        oid::oid_from_arcs(signed.signer_infos[0].digest_algorithm) is Some,
        signed.encap_content_info.content_type == seq![1u32, 2, 840, 113549, 1, 9, 16, 1, 4],
        signed.encap_content_info.content == Some(octets),
        cms::decoded_tst_head(octets) == Some(head),
        cms::decoded_tst_tail(octets) is Some,
        // The signed attributes hold the digest of the content.
        signed.signer_infos[0].signed_attrs matches Some(attributes) ==> {
            &&& attributes.encoded is Ok
            &&& examine::signed_value_of(
                signed.signer_infos[0],
                seq![1u32, 2, 840, 113549, 1, 9, 4],
            ) matches Some(value)
            &&& cms::decoded_octets(value) is Some
            &&& cms::decoded_octets(value) == examine::digest_under(
                signed.signer_infos[0].digest_algorithm,
                octets,
            )
        },
        // The time lies in the period in which the certificate is valid.
        match examine::signed_value_of(
            signed.signer_infos[0],
            seq![1u32, 2, 840, 113549, 1, 9, 5],
        ) {
            Some(value) => match cms::decoded_time(value) {
                Some(Time::Utc(u)) => seconds == u.seconds && 0 <= seconds <= 253_402_300_799,
                Some(Time::General(gt)) => seconds == gt.seconds && 0 <= seconds
                    <= 253_402_300_799,
                None => seconds == head.gen_time.seconds,
            },
            None => seconds == head.gen_time.seconds,
        },
        match key.not_before {
            Time::Utc(u) => u.seconds <= seconds,
            Time::General(gt) => gt.seconds <= seconds,
        },
        match key.not_after {
            Time::Utc(u) => seconds <= u.seconds,
            Time::General(gt) => seconds <= gt.seconds,
        },
        // The message imprint is the digest of the data.
        examine::digest_under(head.message_imprint.hash_algorithm, data) == Some(
            head.message_imprint.hashed_message,
        ),
        // The checks succeed.
        forall|r: SignatureRequest, o: SignatureOutcome| #[trigger]
            call_ensures(checks.signature, (&r,), o) && r.sig_val@
                == signed.signer_infos[0].signature && Some(r.signing_key_der@) == key.encoded
                && Some(r.hash_alg@) == oid::oid_from_arcs(signed.signer_infos[0].digest_algorithm)
                && Some(r.sig_alg@) == oid::oid_from_arcs(key.algorithm) && (
            match signed.signer_infos[0].signed_attrs {
                Some(attributes) => attributes.encoded == Ok::<Seq<u8>, Seq<char>>(r.tbs@),
                None => octets == r.tbs@,
            }) ==> o == SignatureOutcome::Valid,
        verify_trust ==> forall|k: int|
            0 <= k < certs.len() ==> chain::certificate_names(
                (#[trigger] certs[k]).encoded.unwrap(),
            ) is Some,
        verify_trust ==> forall|r: TrustRequest, o: ProfileOutcome| #[trigger]
            call_ensures(checks.profile, (&r,), o) && r.chain@.len() > 0 && Some(r.chain@[0]@)
                == certs[cert_pos].encoded && r.valid_eku@ == "1.3.6.1.5.5.7.3.8"@
                && r.signing_time == seconds ==> o.passed,
        verify_trust ==> forall|r: TrustRequest, o: bool| #[trigger]
            call_ensures(checks.trust, (&r,), o) && r.chain@.len() > 0 && Some(r.chain@[0]@)
                == certs[cert_pos].encoded && r.valid_eku@ == "1.3.6.1.5.5.7.3.8"@
                && r.signing_time == seconds ==> o,
    ensures
        outcome.result matches Ok(tst) && {
            &&& tst.gen_time.seconds == seconds
            &&& tst.message_imprint == head.message_imprint
            &&& tst.serial_number == head.serial_number
            &&& tst.ordering == head.ordering
        },
{
    let start: VerificationView = verify::begun(ts, data, verify_trust);
    let replies: spec_fn(int) -> Replies = choose|replies: spec_fn(int) -> Replies| #[trigger]
        checks.can_give(start, replies) && outcome == verify::run(start, replies);
    let signer_info: cms::SignerInfoView = signed.signer_infos[0];
    let cert_ders: Seq<Seq<u8>> = Seq::new(certs.len(), |k: int| certs[k].encoded.unwrap());
    meaning::how_a_verification_starts(ts, data, verify_trust);
    let cx: ContextView = ContextView {
        content: signed.encap_content_info,
        certs,
        cert_ders,
        signer_infos: signed.signer_infos,
        data,
        verify_trust,
    };
    meaning::the_first_named_certificate_is_the_signers(certs, signer_info.sid);
    assert(signer::signer_position(certs, signer_info.sid) == Some(cert_pos)) by {
        let pos: int = signer::signer_position(certs, signer_info.sid).unwrap();
        if pos < cert_pos {
            assert(certs[pos].identity is Some);
        } else if cert_pos < pos {
            assert(certs[cert_pos].identity is Some);
        }
    }
    let der: Seq<u8> = certs[cert_pos].encoded.unwrap();
    let evidence: examine::EvidenceView = examine::evidence_of(cx.content, signer_info, key, der);
    meaning::a_signer_is_looked_at_with_its_own_certificate(cx, signer_info);
    meaning::what_is_read_of_a_signer(cx.content, signer_info, key, der);
    meaning::decoded_information_is_kept(octets);
    meaning::signed_values_are_those_of_the_signed_attributes(
        signer_info,
        seq![1u32, 2, 840, 113549, 1, 9, 4],
    );
    meaning::signed_values_are_those_of_the_signed_attributes(
        signer_info,
        seq![1u32, 2, 840, 113549, 1, 9, 5],
    );
    meaning::which_signatures_are_worth_checking(cx.content, signer_info, key, cert_pos, evidence);
    let candidate: examine::CandidateView = verify::examined(cx, signer_info)->Candidate_0;
    meaning::what_is_kept_of_a_signer(
        cx.content,
        signer_info,
        key,
        cert_pos,
        evidence,
        candidate,
    );
    meaning::the_signed_time_is_the_one_that_counts(evidence.tst.unwrap(), evidence.signed_time);
    let computed: Option<Seq<u8>> = examine::digest_under(
        candidate.tst.message_imprint.hash_algorithm,
        data,
    );
    meaning::imprints_have_to_be_those_of_the_data(candidate, computed);
    let item: status::LogItemView = examine::imprint_verdict(candidate, computed)->Ok_0;
    let reply: Replies = replies(0);
    let first: PendingView = start->Pending_0;
    assert(first.phase == PhaseView::Signature(candidate));
    assert(checks.can_answer(first, reply));
    assert(reply.signature == SignatureOutcome::Valid);
    let second: VerificationView = verify::answered(first, reply);
    verify::answers_make_progress(first, reply);
    assert(checks.can_give(second, replies) && outcome == verify::run(second, replies));
    if verify_trust {
        chain::ordering_succeeds(cert_ders, cert_pos);
        chain::chain_starts_at_the_leaf(cert_ders, cert_pos);
        let asked: PendingView = second->Pending_0;
        let trial: TrialView = asked.phase->Profile_0;
        assert(asked.position == 0);
        assert(checks.can_answer(asked, reply));
        assert(checks.profile_reports(trial.request, reply.profile));
        let (r, o): (TrustRequest, ProfileOutcome) = choose|r: TrustRequest, o: ProfileOutcome|
            r.deep_view() == trial.request && o.deep_view() == reply.profile
                && #[trigger] call_ensures(checks.profile, (&r,), o);
        assert(r.deep_view().chain[0] == r.chain@[0]@) by {
            assert(r.deep_view().chain[0] == r.chain@[0].deep_view());
            assert(r.chain@[0].deep_view() =~= r.chain@[0]@);
        }
        assert(o.passed);
        verify::answers_make_progress(asked, reply);
        let third: VerificationView = verify::answered(asked, reply);
        assert(checks.can_give(third, replies) && outcome == verify::run(third, replies));
        let last: PendingView = third->Pending_0;
        assert(checks.can_answer(last, reply));
        assert(checks.trust_reports(trial.request, reply.trust));
        let q: TrustRequest = choose|q: TrustRequest|
            q.deep_view() == trial.request && #[trigger] call_ensures(
                checks.trust,
                (&q,),
                reply.trust,
            );
        assert(q.deep_view().chain[0] == q.chain@[0]@) by {
            assert(q.deep_view().chain[0] == q.chain@[0].deep_view());
            assert(q.chain@[0].deep_view() =~= q.chain@[0]@);
        }
        assert(reply.trust);
        verify::answers_make_progress(last, reply);
        let fourth: VerificationView = verify::answered(last, reply);
        assert(outcome == verify::run(fourth, replies));
    }
}

} // verus!
