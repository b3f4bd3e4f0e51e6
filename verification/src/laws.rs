//! What holds of every verification.

use vstd::prelude::*;

use crate::chain;
use crate::cms;
use crate::error;
use crate::examine::{self, SignatureRequest};
use crate::oid;
use crate::signer;
use crate::status;
use crate::verify::{
    self, Checks, ContextView, OutcomeView, ProfileOutcome, Replies, SignatureOutcome, TrustRequest,
};

verus! {

/// What becomes of a signer with the given answers.
pub enum Judgement {
    /// None of the certificates is that of the signer.
    Skipped,
    /// The signer is not accepted.
    Rejected(error::TimeStampErrorView, Seq<status::LogItemView>),
    /// The certificates cannot be ordered, which ends the verification.
    Aborted(error::TimeStampErrorView),
    /// The signer is accepted.
    Accepted(cms::TstInfoView, Seq<status::LogItemView>),
}

/// The log entry on a certificate that is not trusted.
pub open spec fn untrusted_entry(common_name: Seq<char>) -> status::LogItemView {
    status::finding("timestamp cert untrusted: "@ + common_name, status::TIMESTAMP_UNTRUSTED@)
}

/// The log entry on a certificate that is trusted.
pub open spec fn trusted_entry(common_name: Seq<char>) -> status::LogItemView {
    status::achievement("timestamp cert trusted: "@ + common_name, status::TIMESTAMP_TRUSTED@)
}

/// What becomes of a signer whose signature and message imprint were found to be valid, by the
/// answers on its certificate.
pub open spec fn trust_judgement(
    cx: ContextView,
    candidate: examine::CandidateView,
    item: status::LogItemView,
    replies: Replies,
) -> Judgement {
    if !cx.verify_trust {
        Judgement::Accepted(candidate.tst, seq![item])
    } else if let Err(error) = chain::leaf_to_root(cx.cert_ders, candidate.cert_pos) {
        Judgement::Aborted(error)
    } else if replies.profile.passed && replies.trust {
        Judgement::Accepted(
            candidate.tst,
            (seq![item] + replies.profile.log).push(trusted_entry(candidate.common_name)),
        )
    } else {
        Judgement::Rejected(
            error::TimeStampErrorView::Untrusted,
            (seq![item] + replies.profile.log).push(untrusted_entry(candidate.common_name)),
        )
    }
}

/// What becomes of a signer whose signature was worth checking.
pub open spec fn candidate_judgement(
    cx: ContextView,
    candidate: examine::CandidateView,
    replies: Replies,
) -> Judgement {
    if replies.signature != SignatureOutcome::Valid {
        Judgement::Rejected(
            error::TimeStampErrorView::Untrusted,
            seq![
                status::finding(
                    "timestamp signed data did not match signature"@,
                    status::TIMESTAMP_UNTRUSTED@,
                ),
            ],
        )
    } else {
        match examine::imprint_verdict(
            candidate,
            examine::digest_under(candidate.tst.message_imprint.hash_algorithm, cx.data),
        ) {
            Err(rejection) => Judgement::Rejected(rejection.error, seq![rejection.item]),
            Ok(item) => trust_judgement(cx, candidate, item, replies),
        }
    }
}

/// What becomes of a signer with the given answers.
pub open spec fn judgement(
    cx: ContextView,
    signer_info: cms::SignerInfoView,
    replies: Replies,
) -> Judgement {
    match verify::examined(cx, signer_info) {
        verify::ExaminedView::Skipped => Judgement::Skipped,
        verify::ExaminedView::Rejected(rejection) => Judgement::Rejected(
            rejection.error,
            seq![rejection.item],
        ),
        verify::ExaminedView::Candidate(candidate) => candidate_judgement(cx, candidate, replies),
    }
}

/// The outcome that the signers from a position on lead to, with the error and the log entries
/// that the signers before them left behind: the first one that is accepted decides.
pub open spec fn decided(
    cx: ContextView,
    i: int,
    error: error::TimeStampErrorView,
    log: Seq<status::LogItemView>,
    replies: spec_fn(int) -> Replies,
) -> OutcomeView
    decreases cx.signer_infos.len() - i,
{
    if i >= cx.signer_infos.len() {
        OutcomeView { result: Err(error), log }
    } else {
        match judgement(cx, cx.signer_infos[i], replies(i)) {
            Judgement::Skipped => decided(cx, i + 1, error, Seq::empty(), replies),
            Judgement::Rejected(error, log) => decided(cx, i + 1, error, log, replies),
            Judgement::Aborted(error) => OutcomeView { result: Err(error), log: Seq::empty() },
            Judgement::Accepted(tst, log) => OutcomeView { result: Ok(tst), log },
        }
    }
}

/// A verification ends as its signers decide, one after the other.
pub proof fn the_signers_decide(
    cx: ContextView,
    i: int,
    error: error::TimeStampErrorView,
    log: Seq<status::LogItemView>,
    replies: spec_fn(int) -> Replies,
)
    requires
        0 <= i,
    ensures
        verify::run(verify::next_signer(cx, i, error, log), replies) == decided(
            cx,
            i,
            error,
            log,
            replies,
        ),
    decreases cx.signer_infos.len() - i,
{
    reveal_with_fuel(verify::run, 4);
    if i < cx.signer_infos.len() {
        match verify::examined(cx, cx.signer_infos[i]) {
            verify::ExaminedView::Skipped => {
                the_signers_decide(cx, i + 1, error, Seq::empty(), replies);
            },
            verify::ExaminedView::Rejected(rejection) => {
                the_signers_decide(cx, i + 1, rejection.error, seq![rejection.item], replies);
            },
            verify::ExaminedView::Candidate(candidate) => {
                if let Judgement::Rejected(error, log) = candidate_judgement(
                    cx,
                    candidate,
                    replies(i),
                ) {
                    the_signers_decide(cx, i + 1, error, log, replies);
                }
            },
        }
    }
}

/// What a time stamp is verified with, where it has signed data and all its certificates can be
/// encoded.
pub open spec fn context_of(ts: Seq<u8>, data: Seq<u8>, verify_trust: bool) -> Option<ContextView> {
    match verify::found_signed_data(ts) {
        Some(sd) => match sd.certificates {
            Some(certs) => match signer::encodings_of(certs) {
                Some(cert_ders) => Some(
                    ContextView {
                        content: sd.encap_content_info,
                        certs,
                        cert_ders,
                        signer_infos: sd.signer_infos,
                        data,
                        verify_trust,
                    },
                ),
                None => None,
            },
            None => None,
        },
        None => None,
    }
}

/// The outcome of the verification of a time stamp with the given answers.
pub open spec fn outcome_of(
    ts: Seq<u8>,
    data: Seq<u8>,
    verify_trust: bool,
    replies: spec_fn(int) -> Replies,
) -> OutcomeView {
    verify::run(verify::begun(ts, data, verify_trust), replies)
}

/// The verification goes past the signers before a position.
pub open spec fn passes_over(cx: ContextView, i: int, replies: spec_fn(int) -> Replies) -> bool {
    forall|j: int|
        0 <= j < i ==> {
            let earlier: Judgement = judgement(cx, #[trigger] cx.signer_infos[j], replies(j));
            earlier is Skipped || earlier is Rejected
        }
}

/// The signer at a position is accepted, and none before it is accepted or ends the verification.
pub open spec fn accepts_first(cx: ContextView, i: int, replies: spec_fn(int) -> Replies) -> bool {
    &&& 0 <= i < cx.signer_infos.len()
    &&& judgement(cx, cx.signer_infos[i], replies(i)) is Accepted
    &&& passes_over(cx, i, replies)
}

/// The outcome of a verification is what its signers decide.
pub(crate) proof fn lemma_outcome(
    ts: Seq<u8>,
    data: Seq<u8>,
    verify_trust: bool,
    replies: spec_fn(int) -> Replies,
)
    ensures
        match context_of(ts, data, verify_trust) {
            Some(cx) => outcome_of(ts, data, verify_trust, replies) == decided(
                cx,
                0,
                error::TimeStampErrorView::InvalidData,
                Seq::empty(),
                replies,
            ),
            None => {
                let outcome: OutcomeView = outcome_of(ts, data, verify_trust, replies);
                &&& outcome.result is Err
                &&& outcome.log.len() == 1
                &&& outcome.log[0].validation_status == Some(status::TIMESTAMP_MALFORMED@)
                    || outcome.log[0].validation_status == Some(status::TIMESTAMP_UNTRUSTED@)
            },
        },
{
    if let Some(cx) = context_of(ts, data, verify_trust) {
        the_signers_decide(
            cx,
            0,
            error::TimeStampErrorView::InvalidData,
            Seq::empty(),
            replies,
        );
    }
}

/// The signer that decides, where one from a position on is accepted.
pub(crate) proof fn lemma_decider(
    cx: ContextView,
    i: int,
    error: error::TimeStampErrorView,
    log: Seq<status::LogItemView>,
    replies: spec_fn(int) -> Replies,
) -> (k: int)
    requires
        0 <= i,
        decided(cx, i, error, log, replies).result is Ok,
    ensures
        i <= k < cx.signer_infos.len(),
        judgement(cx, cx.signer_infos[k], replies(k)) == Judgement::Accepted(
            decided(cx, i, error, log, replies).result->Ok_0,
            decided(cx, i, error, log, replies).log,
        ),
        forall|j: int|
            i <= j < k ==> {
                let earlier: Judgement = judgement(cx, #[trigger] cx.signer_infos[j], replies(j));
                earlier is Skipped || earlier is Rejected
            },
    decreases cx.signer_infos.len() - i,
{
    match judgement(cx, cx.signer_infos[i], replies(i)) {
        Judgement::Skipped => lemma_decider(cx, i + 1, error, Seq::empty(), replies),
        Judgement::Rejected(error, log) => lemma_decider(cx, i + 1, error, log, replies),
        _ => i,
    }
}

/// An accepted signer decides.
proof fn lemma_decides(
    cx: ContextView,
    i: int,
    error: error::TimeStampErrorView,
    log: Seq<status::LogItemView>,
    replies: spec_fn(int) -> Replies,
    k: int,
)
    requires
        0 <= i <= k,
        accepts_first(cx, k, replies),
    ensures
        judgement(cx, cx.signer_infos[k], replies(k)) == Judgement::Accepted(
            decided(cx, i, error, log, replies).result->Ok_0,
            decided(cx, i, error, log, replies).log,
        ),
        decided(cx, i, error, log, replies).result is Ok,
    decreases k - i,
{
    assert(cx.signer_infos[i] == cx.signer_infos[i]);
    if i < k {
        match judgement(cx, cx.signer_infos[i], replies(i)) {
            Judgement::Skipped => {
                lemma_decides(cx, i + 1, error, Seq::empty(), replies, k);
            },
            Judgement::Rejected(error, log) => {
                lemma_decides(cx, i + 1, error, log, replies, k);
            },
            _ => {},
        }
    }
}

/// A time stamp is accepted exactly when one of its signers is, before another one ends the
/// verification.
pub proof fn accepted_when_a_signer_is(
    ts: Seq<u8>,
    data: Seq<u8>,
    verify_trust: bool,
    replies: spec_fn(int) -> Replies,
)
    ensures
        outcome_of(ts, data, verify_trust, replies).result is Ok <==> {
            &&& context_of(ts, data, verify_trust) is Some
            &&& exists|i: int| #[trigger]
                accepts_first(context_of(ts, data, verify_trust).unwrap(), i, replies)
        },
{
    lemma_outcome(ts, data, verify_trust, replies);
    if let Some(cx) = context_of(ts, data, verify_trust) {
        let error: error::TimeStampErrorView = error::TimeStampErrorView::InvalidData;
        if decided(cx, 0, error, Seq::empty(), replies).result is Ok {
            let k: int = lemma_decider(cx, 0, error, Seq::empty(), replies);
            assert(accepts_first(cx, k, replies));
        }
        if exists|i: int| #[trigger] accepts_first(cx, i, replies) {
            let k: int = choose|i: int| #[trigger] accepts_first(cx, i, replies);
            lemma_decides(cx, 0, error, Seq::empty(), replies, k);
        }
    }
}

/// The signature that is checked for a signer is its own, over its signed attributes or the
/// content, with the key in its certificate.
pub open spec fn request_is_of(
    cx: ContextView,
    signer_info: cms::SignerInfoView,
    candidate: examine::CandidateView,
) -> bool {
    &&& candidate.request.sig_val == signer_info.signature
    &&& examine::signed_octets(cx.content, signer_info) == Ok::<Seq<u8>, examine::RejectionView>(
        candidate.request.tbs,
    )
    &&& cx.certs[candidate.cert_pos].key matches Some(key)
    &&& key.encoded == Some(candidate.request.signing_key_der)
    &&& oid::oid_from_arcs(key.algorithm) == Some(candidate.request.sig_alg)
    &&& oid::oid_from_arcs(signer_info.digest_algorithm) == Some(candidate.request.hash_alg)
}

/// The signed attributes of a signer, where there are any, hold the digest of the content.
pub open spec fn attributes_cover_content(
    cx: ContextView,
    signer_info: cms::SignerInfoView,
) -> bool {
    signer_info.signed_attrs is Some ==> {
        &&& examine::signed_value_of(signer_info, oid::ID_MESSAGE_DIGEST@) matches Some(value)
        &&& cms::decoded_octets(value) is Some
        &&& cms::decoded_octets(value) == examine::digest_under(
            signer_info.digest_algorithm,
            examine::content_octets(cx.content),
        )
    }
}

/// Some time stamp information is that in the content, but for the time of it.
pub open spec fn is_info_of(content: cms::SignedContentView, tst: cms::TstInfoView) -> bool {
    cms::content_tst_info(content) matches Ok(Some(info)) && tst == (cms::TstInfoView {
        gen_time: tst.gen_time,
        ..info
    })
}

/// A signer vouches for a time stamp: one of the certificates is its own, its signature, over
/// signed attributes that cover the content or over the content itself, was found to be valid,
/// the time stamp lies in the validity period of the certificate, and the message imprint is the
/// digest of the data. Where trust is verified, the certificates can be ordered, and both checks
/// of the certificate succeeded.
pub open spec fn vouches(
    cx: ContextView,
    i: int,
    replies: spec_fn(int) -> Replies,
    tst: cms::TstInfoView,
) -> bool {
    &&& 0 <= i < cx.signer_infos.len()
    &&& verify::examined(cx, cx.signer_infos[i]) matches verify::ExaminedView::Candidate(candidate)
    &&& candidate.tst == tst
    &&& is_info_of(cx.content, tst)
    &&& signer::signer_position(cx.certs, cx.signer_infos[i].sid) == Some(candidate.cert_pos)
    &&& request_is_of(cx, cx.signer_infos[i], candidate)
    &&& attributes_cover_content(cx, cx.signer_infos[i])
    &&& replies(i).signature == SignatureOutcome::Valid
    &&& candidate.not_before <= tst.gen_time.seconds <= candidate.not_after
    &&& examine::digest_under(tst.message_imprint.hash_algorithm, cx.data) == Some(
        tst.message_imprint.hashed_message,
    )
    &&& cx.verify_trust ==> {
        &&& chain::leaf_to_root(cx.cert_ders, candidate.cert_pos) is Ok
        &&& replies(i).profile.passed
        &&& replies(i).trust
    }
}

/// For an accepted time stamp one of its signers vouches.
pub proof fn an_accepted_time_stamp_is_vouched_for(
    ts: Seq<u8>,
    data: Seq<u8>,
    verify_trust: bool,
    replies: spec_fn(int) -> Replies,
)
    requires
        outcome_of(ts, data, verify_trust, replies).result is Ok,
    ensures
        context_of(ts, data, verify_trust) is Some,
        exists|i: int| #[trigger]
            vouches(
                context_of(ts, data, verify_trust).unwrap(),
                i,
                replies,
                outcome_of(ts, data, verify_trust, replies).result->Ok_0,
            ),
{
    lemma_outcome(ts, data, verify_trust, replies);
    let cx: ContextView = context_of(ts, data, verify_trust).unwrap();
    let error: error::TimeStampErrorView = error::TimeStampErrorView::InvalidData;
    let k: int = lemma_decider(cx, 0, error, Seq::empty(), replies);
    assert(vouches(cx, k, replies, outcome_of(ts, data, verify_trust, replies).result->Ok_0));
}

/// The status codes are different texts.
pub proof fn status_codes_differ()
    ensures
        status::TIMESTAMP_TRUSTED@ != status::TIMESTAMP_MALFORMED@,
        status::TIMESTAMP_TRUSTED@ != status::TIMESTAMP_MISMATCH@,
        status::TIMESTAMP_TRUSTED@ != status::TIMESTAMP_OUTSIDE_VALIDITY@,
        status::TIMESTAMP_TRUSTED@ != status::TIMESTAMP_UNTRUSTED@,
        status::TIMESTAMP_TRUSTED@ != status::TIMESTAMP_VALIDATED@,
        status::TIMESTAMP_VALIDATED@ != status::TIMESTAMP_MALFORMED@,
        status::TIMESTAMP_VALIDATED@ != status::TIMESTAMP_MISMATCH@,
        status::TIMESTAMP_VALIDATED@ != status::TIMESTAMP_OUTSIDE_VALIDITY@,
        status::TIMESTAMP_VALIDATED@ != status::TIMESTAMP_UNTRUSTED@,
{
    reveal_strlit("timeStamp.malformed");
    reveal_strlit("timeStamp.mismatch");
    reveal_strlit("timeStamp.outsideValidity");
    reveal_strlit("timeStamp.trusted");
    reveal_strlit("timeStamp.untrusted");
    reveal_strlit("timeStamp.validated");
    assert(status::TIMESTAMP_MALFORMED@[10] == 'm');
    assert(status::TIMESTAMP_MISMATCH@[10] == 'm');
    assert(status::TIMESTAMP_OUTSIDE_VALIDITY@[10] == 'o');
    assert(status::TIMESTAMP_TRUSTED@[10] == 't');
    assert(status::TIMESTAMP_UNTRUSTED@[10] == 'u');
    assert(status::TIMESTAMP_VALIDATED@[10] == 'v');
}

/// A log of one entry carries its code.
proof fn lemma_status_single(item: status::LogItemView, code: Seq<char>)
    ensures
        status::log_has_status(seq![item], code) <==> item.validation_status == Some(code),
{
    let log: Seq<status::LogItemView> = seq![item];
    assert(log[0] == item);
}

/// A log with one more entry carries the codes of both.
proof fn lemma_status_pushed(log: Seq<status::LogItemView>, item: status::LogItemView, code: Seq<char>)
    ensures
        status::log_has_status(log.push(item), code) <==> status::log_has_status(log, code)
            || item.validation_status == Some(code),
{
    lemma_status_single(item, code);
    status::joined_logs_carry_both_codes(log, seq![item], code);
    assert(log + seq![item] =~= log.push(item));
}

/// The log entries on a signer, where the verification goes on after it or ends with it.
pub open spec fn judgement_log(judgement: Judgement) -> Seq<status::LogItemView> {
    match judgement {
        Judgement::Skipped => Seq::empty(),
        Judgement::Rejected(_, log) => log,
        Judgement::Aborted(_) => Seq::empty(),
        Judgement::Accepted(_, log) => log,
    }
}

/// The codes in the log entries on a signer.
proof fn lemma_judgement_codes(
    cx: ContextView,
    signer_info: cms::SignerInfoView,
    replies: Replies,
)
    ensures
        ({
            let judged: Judgement = judgement(cx, signer_info, replies);
            let log: Seq<status::LogItemView> = judgement_log(judged);
            let trusted: Seq<char> = status::TIMESTAMP_TRUSTED@;
            let validated: Seq<char> = status::TIMESTAMP_VALIDATED@;
            &&& judged is Accepted ==> status::log_has_status(log, validated)
            &&& judged is Accepted && cx.verify_trust ==> status::log_has_status(log, trusted)
            &&& judged is Accepted && cx.verify_trust ==> replies.profile.passed && replies.trust
            &&& !cx.verify_trust ==> !status::log_has_status(log, trusted)
            &&& !status::log_has_status(replies.profile.log, trusted) && status::log_has_status(
                log,
                trusted,
            ) ==> judged is Accepted && cx.verify_trust
            &&& !cx.verify_trust && status::log_has_status(log, validated) ==> judged is Accepted
        }),
{
    status_codes_differ();
    let trusted: Seq<char> = status::TIMESTAMP_TRUSTED@;
    let validated: Seq<char> = status::TIMESTAMP_VALIDATED@;
    match verify::examined(cx, signer_info) {
        verify::ExaminedView::Skipped => {},
        verify::ExaminedView::Rejected(rejection) => {
            lemma_status_single(rejection.item, trusted);
            lemma_status_single(rejection.item, validated);
        },
        verify::ExaminedView::Candidate(candidate) => {
            let mismatch: status::LogItemView = status::finding(
                "timestamp signed data did not match signature"@,
                status::TIMESTAMP_UNTRUSTED@,
            );
            lemma_status_single(mismatch, trusted);
            lemma_status_single(mismatch, validated);
            match examine::imprint_verdict(
                candidate,
                examine::digest_under(candidate.tst.message_imprint.hash_algorithm, cx.data),
            ) {
                Err(rejection) => {
                    lemma_status_single(rejection.item, trusted);
                    lemma_status_single(rejection.item, validated);
                },
                Ok(item) => {
                    let log: Seq<status::LogItemView> = seq![item] + replies.profile.log;
                    let yes: status::LogItemView = trusted_entry(candidate.common_name);
                    let no: status::LogItemView = untrusted_entry(candidate.common_name);
                    lemma_status_single(item, trusted);
                    lemma_status_single(item, validated);
                    status::joined_logs_carry_both_codes(seq![item], replies.profile.log, trusted);
                    status::joined_logs_carry_both_codes(seq![item], replies.profile.log, validated);
                    lemma_status_pushed(log, yes, trusted);
                    lemma_status_pushed(log, yes, validated);
                    lemma_status_pushed(log, no, trusted);
                },
            }
        },
    }
}

/// No answer on the profile of a certificate comes with a log entry that claims trust.
pub open spec fn profile_logs_claim_no_trust(replies: spec_fn(int) -> Replies) -> bool {
    forall|i: int|
        !status::log_has_status((#[trigger] replies(i)).profile.log, status::TIMESTAMP_TRUSTED@)
}

/// The codes in the log of a verification from a position on.
proof fn lemma_decided_codes(
    cx: ContextView,
    i: int,
    error: error::TimeStampErrorView,
    log: Seq<status::LogItemView>,
    replies: spec_fn(int) -> Replies,
)
    requires
        0 <= i,
    ensures
        ({
            let outcome: OutcomeView = decided(cx, i, error, log, replies);
            let trusted: Seq<char> = status::TIMESTAMP_TRUSTED@;
            let validated: Seq<char> = status::TIMESTAMP_VALIDATED@;
            &&& outcome.result is Ok ==> status::log_has_status(outcome.log, validated)
            &&& outcome.result is Ok && cx.verify_trust ==> status::log_has_status(
                outcome.log,
                trusted,
            )
            &&& !cx.verify_trust && status::log_has_status(outcome.log, trusted)
                ==> status::log_has_status(log, trusted)
            &&& !cx.verify_trust && status::log_has_status(outcome.log, validated)
                ==> outcome.result is Ok || status::log_has_status(log, validated)
            &&& profile_logs_claim_no_trust(replies) && status::log_has_status(outcome.log, trusted)
                ==> outcome.result is Ok && cx.verify_trust || status::log_has_status(log, trusted)
        }),
    decreases cx.signer_infos.len() - i,
{
    if i < cx.signer_infos.len() {
        lemma_judgement_codes(cx, cx.signer_infos[i], replies(i));
        match judgement(cx, cx.signer_infos[i], replies(i)) {
            Judgement::Skipped => {
                lemma_decided_codes(cx, i + 1, error, Seq::empty(), replies);
            },
            Judgement::Rejected(error, log) => {
                lemma_decided_codes(cx, i + 1, error, log, replies);
            },
            _ => {},
        }
    }
}

/// The log of an accepted time stamp says that signature and message imprint were checked, and,
/// where trust is verified, that the authority is trusted. Where trust is not verified, no log
/// says the latter, and only that of an accepted time stamp the former. Where it is, and the
/// checks of the profile do not claim it, only that of an accepted time stamp says the latter.
pub proof fn codes_in_the_log(
    ts: Seq<u8>,
    data: Seq<u8>,
    verify_trust: bool,
    replies: spec_fn(int) -> Replies,
)
    ensures
        ({
            let outcome: OutcomeView = outcome_of(ts, data, verify_trust, replies);
            let trusted: bool = status::log_has_status(outcome.log, status::TIMESTAMP_TRUSTED@);
            let validated: bool = status::log_has_status(outcome.log, status::TIMESTAMP_VALIDATED@);
            &&& outcome.result is Ok ==> validated
            &&& outcome.result is Ok && verify_trust ==> trusted
            &&& !verify_trust ==> !trusted
            &&& !verify_trust && validated ==> outcome.result is Ok
            &&& profile_logs_claim_no_trust(replies) && trusted ==> outcome.result is Ok
                && verify_trust
        }),
{
    status_codes_differ();
    lemma_outcome(ts, data, verify_trust, replies);
    match context_of(ts, data, verify_trust) {
        Some(cx) => {
            lemma_decided_codes(
                cx,
                0,
                error::TimeStampErrorView::InvalidData,
                Seq::empty(),
                replies,
            );
        },
        None => {},
    }
}

/// Where trust is not verified, nothing in the log claims that the authority is trusted, and the
/// log says that signature and message imprint were checked exactly when the time stamp is
/// accepted.
pub proof fn no_trusted_code_without_a_trust_check(
    ts: Seq<u8>,
    data: Seq<u8>,
    replies: spec_fn(int) -> Replies,
)
    ensures
        ({
            let outcome: OutcomeView = outcome_of(ts, data, false, replies);
            &&& !status::log_has_status(outcome.log, status::TIMESTAMP_TRUSTED@)
            &&& status::log_has_status(outcome.log, status::TIMESTAMP_VALIDATED@)
                <==> outcome.result is Ok
        }),
{
    codes_in_the_log(ts, data, false, replies);
}

/// Where trust is verified, the log of an accepted time stamp says that signature and message
/// imprint were checked, and that the authority is trusted.
pub proof fn trusted_code_of_an_accepted_time_stamp(
    ts: Seq<u8>,
    data: Seq<u8>,
    replies: spec_fn(int) -> Replies,
)
    requires
        outcome_of(ts, data, true, replies).result is Ok,
    ensures
        status::log_has_status(
            outcome_of(ts, data, true, replies).log,
            status::TIMESTAMP_VALIDATED@,
        ),
        status::log_has_status(outcome_of(ts, data, true, replies).log, status::TIMESTAMP_TRUSTED@),
{
    codes_in_the_log(ts, data, true, replies);
}

/// Unless the check of a certificate's profile claims it, the log says that the authority is
/// trusted only where the time stamp is accepted and a signer vouches for it whose certificate
/// passed both checks.
pub proof fn trusted_code_is_backed(
    ts: Seq<u8>,
    data: Seq<u8>,
    verify_trust: bool,
    replies: spec_fn(int) -> Replies,
)
    requires
        profile_logs_claim_no_trust(replies),
        status::log_has_status(
            outcome_of(ts, data, verify_trust, replies).log,
            status::TIMESTAMP_TRUSTED@,
        ),
    ensures
        verify_trust,
        outcome_of(ts, data, verify_trust, replies).result is Ok,
        context_of(ts, data, verify_trust) is Some,
        exists|i: int|
            #[trigger] vouches(
                context_of(ts, data, verify_trust).unwrap(),
                i,
                replies,
                outcome_of(ts, data, verify_trust, replies).result->Ok_0,
            ) && replies(i).profile.passed && replies(i).trust,
{
    codes_in_the_log(ts, data, verify_trust, replies);
    an_accepted_time_stamp_is_vouched_for(ts, data, verify_trust, replies);
    let cx: ContextView = context_of(ts, data, verify_trust).unwrap();
    let tst: cms::TstInfoView = outcome_of(ts, data, verify_trust, replies).result->Ok_0;
    let i: int = choose|i: int| #[trigger] vouches(cx, i, replies, tst);
    assert(vouches(cx, i, replies, tst));
}

/// Where trust is verified and no certificate is trusted, the time stamp is not accepted, and
/// unless the check of a certificate's profile claims it, nothing in the log says that the
/// authority is trusted.
pub proof fn nothing_trusted_nothing_accepted(
    ts: Seq<u8>,
    data: Seq<u8>,
    replies: spec_fn(int) -> Replies,
)
    requires
        forall|i: int| !((#[trigger] replies(i)).profile.passed && replies(i).trust),
    ensures
        outcome_of(ts, data, true, replies).result is Err,
        profile_logs_claim_no_trust(replies) ==> !status::log_has_status(
            outcome_of(ts, data, true, replies).log,
            status::TIMESTAMP_TRUSTED@,
        ),
{
    codes_in_the_log(ts, data, true, replies);
    if outcome_of(ts, data, true, replies).result is Ok {
        an_accepted_time_stamp_is_vouched_for(ts, data, true, replies);
        let cx: ContextView = context_of(ts, data, true).unwrap();
        let tst: cms::TstInfoView = outcome_of(ts, data, true, replies).result->Ok_0;
        let i: int = choose|i: int| #[trigger] vouches(cx, i, replies, tst);
        assert(replies(i).profile.passed && replies(i).trust);
    }
}

/// The same answers lead to an acceptance without trust where they do with it.
proof fn lemma_narrowed(
    cx: ContextView,
    open: ContextView,
    i: int,
    error: error::TimeStampErrorView,
    log: Seq<status::LogItemView>,
    other_error: error::TimeStampErrorView,
    other_log: Seq<status::LogItemView>,
    replies: spec_fn(int) -> Replies,
)
    requires
        0 <= i,
        open == (ContextView { verify_trust: false, ..cx }),
        decided(cx, i, error, log, replies).result is Ok,
    ensures
        decided(open, i, other_error, other_log, replies).result is Ok,
    decreases cx.signer_infos.len() - i,
{
    let signer_info: cms::SignerInfoView = cx.signer_infos[i];
    assert(verify::examined(open, signer_info) == verify::examined(cx, signer_info));
    match judgement(cx, signer_info, replies(i)) {
        Judgement::Skipped => {
            lemma_narrowed(
                cx,
                open,
                i + 1,
                error,
                Seq::empty(),
                other_error,
                Seq::empty(),
                replies,
            );
        },
        Judgement::Rejected(error, log) => {
            if let Judgement::Rejected(other_error, other_log) = judgement(
                open,
                signer_info,
                replies(i),
            ) {
                lemma_narrowed(cx, open, i + 1, error, log, other_error, other_log, replies);
            }
        },
        _ => {},
    }
}

/// Verifying trust only narrows what is accepted: with the same answers, a time stamp that is
/// accepted where trust is verified is accepted where it is not.
pub proof fn verifying_trust_only_narrows(
    ts: Seq<u8>,
    data: Seq<u8>,
    replies: spec_fn(int) -> Replies,
)
    requires
        outcome_of(ts, data, true, replies).result is Ok,
    ensures
        outcome_of(ts, data, false, replies).result is Ok,
{
    lemma_outcome(ts, data, true, replies);
    lemma_outcome(ts, data, false, replies);
    let error: error::TimeStampErrorView = error::TimeStampErrorView::InvalidData;
    lemma_narrowed(
        context_of(ts, data, true).unwrap(),
        context_of(ts, data, false).unwrap(),
        0,
        error,
        Seq::empty(),
        error,
        Seq::empty(),
        replies,
    );
}

/// The last signer decides where the verification goes past the others.
proof fn lemma_last_signer(
    cx: ContextView,
    i: int,
    error: error::TimeStampErrorView,
    log: Seq<status::LogItemView>,
    replies: spec_fn(int) -> Replies,
)
    requires
        0 <= i < cx.signer_infos.len(),
        passes_over(cx, cx.signer_infos.len() - 1, replies),
    ensures
        judgement(
            cx,
            cx.signer_infos.last(),
            replies(cx.signer_infos.len() - 1),
        ) matches Judgement::Rejected(last_error, last_log) ==> decided(
            cx,
            i,
            error,
            log,
            replies,
        ) == (OutcomeView { result: Err(last_error), log: last_log }),
    decreases cx.signer_infos.len() - i,
{
    reveal_with_fuel(decided, 2);
    if i < cx.signer_infos.len() - 1 {
        match judgement(cx, cx.signer_infos[i], replies(i)) {
            Judgement::Skipped => {
                lemma_last_signer(cx, i + 1, error, Seq::empty(), replies);
            },
            Judgement::Rejected(error, log) => {
                lemma_last_signer(cx, i + 1, error, log, replies);
            },
            _ => {},
        }
    }
}

/// A time stamp without an accepted signer is refused with the error and the log entries of its
/// last signer, where that one was rejected.
pub proof fn the_last_rejection_is_reported(
    ts: Seq<u8>,
    data: Seq<u8>,
    verify_trust: bool,
    replies: spec_fn(int) -> Replies,
)
    requires
        context_of(ts, data, verify_trust) is Some,
        context_of(ts, data, verify_trust).unwrap().signer_infos.len() > 0,
        passes_over(
            context_of(ts, data, verify_trust).unwrap(),
            context_of(ts, data, verify_trust).unwrap().signer_infos.len() - 1,
            replies,
        ),
    ensures
        ({
            let cx: ContextView = context_of(ts, data, verify_trust).unwrap();
            judgement(
                cx,
                cx.signer_infos.last(),
                replies(cx.signer_infos.len() - 1),
            ) matches Judgement::Rejected(error, log) ==> outcome_of(ts, data, verify_trust, replies)
                == (OutcomeView { result: Err(error), log })
        }),
{
    lemma_outcome(ts, data, verify_trust, replies);
    lemma_last_signer(
        context_of(ts, data, verify_trust).unwrap(),
        0,
        error::TimeStampErrorView::InvalidData,
        Seq::empty(),
        replies,
    );
}

/// A signer whose certificate fails one of the two checks is rejected as untrusted, and the log
/// says so. It says that the authority is trusted only where the check of the profile claims it.
pub proof fn an_untrusted_certificate_is_reported(
    cx: ContextView,
    signer_info: cms::SignerInfoView,
    replies: Replies,
)
    requires
        cx.verify_trust,
        judgement(
            cx,
            signer_info,
            Replies {
                profile: verify::ProfileOutcomeView { passed: true, ..replies.profile },
                trust: true,
                ..replies
            },
        ) is Accepted,
        !(replies.profile.passed && replies.trust),
    ensures
        judgement(cx, signer_info, replies) matches Judgement::Rejected(error, log) && {
            &&& error == error::TimeStampErrorView::Untrusted
            &&& status::log_has_status(log, status::TIMESTAMP_UNTRUSTED@)
            &&& status::log_has_status(log, status::TIMESTAMP_TRUSTED@) ==> status::log_has_status(
                replies.profile.log,
                status::TIMESTAMP_TRUSTED@,
            )
        },
{
    lemma_judgement_codes(cx, signer_info, replies);
    if let verify::ExaminedView::Candidate(candidate) = verify::examined(cx, signer_info) {
        if let Ok(item) = examine::imprint_verdict(
            candidate,
            examine::digest_under(candidate.tst.message_imprint.hash_algorithm, cx.data),
        ) {
            lemma_status_pushed(
                seq![item] + replies.profile.log,
                untrusted_entry(candidate.common_name),
                status::TIMESTAMP_UNTRUSTED@,
            );
        }
    }
}

/// What a verification ends with that finds no signer to look at: a decoding error and a log
/// entry where there is no signed data, no certificate, or a member of the certificate set that
/// is not a certificate, and invalid data without a log entry where there are no signers.
pub proof fn nothing_to_look_at(
    ts: Seq<u8>,
    data: Seq<u8>,
    verify_trust: bool,
    replies: spec_fn(int) -> Replies,
)
    ensures
        ({
            let outcome: OutcomeView = outcome_of(ts, data, verify_trust, replies);
            match verify::found_signed_data(ts) {
                None => verify::VerificationView::Finished(outcome) == verify::refused(
                    "unable to find signed data"@,
                    status::TIMESTAMP_MALFORMED@,
                ),
                Some(sd) => match sd.certificates {
                    None => verify::VerificationView::Finished(outcome) == verify::refused(
                        "time stamp contains no certificates"@,
                        status::TIMESTAMP_UNTRUSTED@,
                    ),
                    Some(certs) => {
                        &&& signer::encodings_of(certs) is None
                            ==> verify::VerificationView::Finished(outcome) == verify::refused(
                            "time stamp certificate could not be processed"@,
                            status::TIMESTAMP_UNTRUSTED@,
                        )
                        &&& signer::encodings_of(certs) is Some && sd.signer_infos.len() == 0
                            ==> outcome == (OutcomeView {
                            result: Err(error::TimeStampErrorView::InvalidData),
                            log: Seq::empty(),
                        })
                    },
                },
            }
        }),
{
    lemma_outcome(ts, data, verify_trust, replies);
}

/// The chain that is handed out for a token is the one that its first signer is checked by: where
/// the signature of the first signer is found to be valid and trust is verified, what is asked
/// about the certificate of that signer is asked about the same chain.
pub proof fn the_exposed_chain_is_the_one_that_is_checked(ts: Seq<u8>, data: Seq<u8>)
    ensures
        verify::with_signature(
            verify::begun(ts, data, true),
            SignatureOutcome::Valid,
        ) matches verify::VerificationView::Pending(pending) ==> pending.phase
            matches verify::PhaseView::Profile(trial) ==> pending.position == 0 ==> {
            &&& signer::tsa_cert_chain(ts) == Ok::<Seq<Seq<u8>>, error::TimeStampErrorView>(
                trial.request.chain,
            )
            &&& trial.request.chain.len() > 0
            &&& signer::tsa_signer_cert(ts) == Ok::<Option<Seq<u8>>, error::TimeStampErrorView>(
                Some(trial.request.chain[0]),
            )
        },
{
    signer::exposed_chain_starts_at_the_signer(ts);
    if let Some(cx) = context_of(ts, data, true) {
        let error: error::TimeStampErrorView = error::TimeStampErrorView::InvalidData;
        verify::next_signer_waits_for_a_candidate(cx, 0, error, Seq::empty());
        if let verify::VerificationView::Pending(first) = verify::begun(ts, data, true) {
            let candidate: examine::CandidateView = first.phase->Signature_0;
            match examine::imprint_verdict(
                candidate,
                examine::digest_under(candidate.tst.message_imprint.hash_algorithm, data),
            ) {
                Err(rejection) => {
                    verify::next_signer_waits_for_a_candidate(
                        cx,
                        first.position + 1,
                        rejection.error,
                        seq![rejection.item],
                    );
                },
                Ok(_) => {
                    if first.position == 0 {
                        assert(signer::signer_position(cx.certs, cx.signer_infos[0].sid) == Some(
                            candidate.cert_pos,
                        ));
                    }
                },
            }
        }
    }
}

/// What is asked about the certificate of a signer: whether it is fit for time stamps, at the
/// time of the time stamp, with a chain that starts at the certificate itself.
pub proof fn the_checked_chain_starts_at_the_signer(
    cx: ContextView,
    position: int,
    candidate: examine::CandidateView,
)
    ensures
        verify::with_valid_signature(
            cx,
            position,
            candidate,
        ) matches verify::VerificationView::Pending(pending) ==> pending.phase
            matches verify::PhaseView::Profile(trial) ==> {
            &&& trial.request.chain.len() > 0
            &&& trial.request.chain[0] == cx.cert_ders[candidate.cert_pos]
            &&& trial.request.valid_eku == verify::TIMESTAMP_OID_STR@
            &&& trial.request.signing_time == candidate.tst.gen_time.seconds
            &&& trial.request.tst == candidate.tst
            &&& trial.request.log == pending.log
        },
{
    chain::chain_starts_at_the_leaf(cx.cert_ders, candidate.cert_pos);
    if let Err(rejection) = examine::imprint_verdict(
        candidate,
        examine::digest_under(candidate.tst.message_imprint.hash_algorithm, cx.data),
    ) {
        verify::next_signer_waits_for_a_candidate(
            cx,
            position + 1,
            rejection.error,
            seq![rejection.item],
        );
    }
}

/// A status code that reports a failure.
pub open spec fn is_failure_code(code: Seq<char>) -> bool {
    ||| code == status::TIMESTAMP_MALFORMED@
    ||| code == status::TIMESTAMP_MISMATCH@
    ||| code == status::TIMESTAMP_OUTSIDE_VALIDITY@
    ||| code == status::TIMESTAMP_UNTRUSTED@
}

/// The log entry on a message imprint that is the digest of the data.
pub open spec fn matched_entry(common_name: Seq<char>) -> status::LogItemView {
    status::achievement(
        "timestamp message digest matched: "@ + common_name,
        status::TIMESTAMP_VALIDATED@,
    )
}

/// The log of an accepted signer: the message imprint matched, and, where trust is verified, what
/// the check of the profile wrote and that the certificate is trusted.
pub open spec fn accepted_log(
    verify_trust: bool,
    common_name: Seq<char>,
    profile_log: Seq<status::LogItemView>,
) -> Seq<status::LogItemView> {
    if verify_trust {
        seq![matched_entry(common_name)] + profile_log + seq![trusted_entry(common_name)]
    } else {
        seq![matched_entry(common_name)]
    }
}

/// The number of entries with a code that the check of the profile wrote, where it was made.
pub open spec fn profile_count(verify_trust: bool, replies: Replies, code: Seq<char>) -> nat {
    if verify_trust {
        status::count_status(replies.profile.log, code)
    } else {
        0
    }
}

/// How many entries with a code are in a log of one entry.
proof fn lemma_single_count(item: status::LogItemView, code: Seq<char>)
    ensures
        status::count_status(seq![item], code) == (if item.validation_status == Some(code) {
            1nat
        } else {
            0nat
        }),
{
    let log: Seq<status::LogItemView> = seq![item];
    assert(log.last() == item);
    assert(log.drop_last() =~= Seq::empty());
    reveal_with_fuel(status::count_status, 2);
}

/// How many entries with a code are in the log of an accepted signer.
proof fn lemma_accepted_count(
    verify_trust: bool,
    common_name: Seq<char>,
    replies: Replies,
    code: Seq<char>,
)
    requires
        code == status::TIMESTAMP_VALIDATED@ || is_failure_code(code),
    ensures
        status::count_status(
            accepted_log(verify_trust, common_name, replies.profile.log),
            code,
        ) == profile_count(verify_trust, replies, code) + (if code == status::TIMESTAMP_VALIDATED@ {
            1nat
        } else {
            0nat
        }),
{
    status_codes_differ();
    let matched: status::LogItemView = matched_entry(common_name);
    let trusted: status::LogItemView = trusted_entry(common_name);
    lemma_single_count(matched, code);
    lemma_single_count(trusted, code);
    status::joined_logs_count_both(seq![matched], replies.profile.log, code);
    status::joined_logs_count_both(seq![matched] + replies.profile.log, seq![trusted], code);
}

/// A signer vouches for a time stamp, and the log is the one that its acceptance leaves behind:
/// one entry that signature and message imprint were checked, a success, and none that reports a
/// failure, but for what the check of its own certificate's profile wrote. Nothing is left of the
/// signers before it.
pub open spec fn log_is_of(
    cx: ContextView,
    i: int,
    replies: spec_fn(int) -> Replies,
    outcome: OutcomeView,
) -> bool {
    &&& outcome.result is Ok
    &&& vouches(cx, i, replies, outcome.result->Ok_0)
    &&& outcome.log == accepted_log(
        cx.verify_trust,
        verify::examined(cx, cx.signer_infos[i])->Candidate_0.common_name,
        replies(i).profile.log,
    )
    &&& outcome.log[0].kind == status::LogKind::Success
    &&& outcome.log[0].validation_status == Some(status::TIMESTAMP_VALIDATED@)
    &&& status::count_status(outcome.log, status::TIMESTAMP_VALIDATED@) == 1 + profile_count(
        cx.verify_trust,
        replies(i),
        status::TIMESTAMP_VALIDATED@,
    )
    &&& forall|code: Seq<char>|
        is_failure_code(code) ==> #[trigger] status::count_status(outcome.log, code)
            == profile_count(cx.verify_trust, replies(i), code)
}

/// The log of an accepted time stamp is that of the signer that vouches for it, and of no other.
pub proof fn an_accepted_log_is_that_of_the_signer(
    ts: Seq<u8>,
    data: Seq<u8>,
    verify_trust: bool,
    replies: spec_fn(int) -> Replies,
)
    requires
        outcome_of(ts, data, verify_trust, replies).result is Ok,
    ensures
        context_of(ts, data, verify_trust) is Some,
        exists|i: int| #[trigger]
            log_is_of(
                context_of(ts, data, verify_trust).unwrap(),
                i,
                replies,
                outcome_of(ts, data, verify_trust, replies),
            ),
{
    lemma_outcome(ts, data, verify_trust, replies);
    let cx: ContextView = context_of(ts, data, verify_trust).unwrap();
    let error: error::TimeStampErrorView = error::TimeStampErrorView::InvalidData;
    let k: int = lemma_decider(cx, 0, error, Seq::empty(), replies);
    let outcome: OutcomeView = outcome_of(ts, data, verify_trust, replies);
    assert(vouches(cx, k, replies, outcome.result->Ok_0));
    let candidate: examine::CandidateView = verify::examined(
        cx,
        cx.signer_infos[k],
    )->Candidate_0;
    let log: Seq<status::LogItemView> = accepted_log(
        verify_trust,
        candidate.common_name,
        replies(k).profile.log,
    );
    assert(outcome.log =~= log);
    lemma_accepted_count(
        verify_trust,
        candidate.common_name,
        replies(k),
        status::TIMESTAMP_VALIDATED@,
    );
    assert forall|code: Seq<char>| is_failure_code(code) implies #[trigger] status::count_status(
        outcome.log,
        code,
    ) == profile_count(verify_trust, replies(k), code) by {
        status_codes_differ();
        lemma_accepted_count(verify_trust, candidate.common_name, replies(k), code);
    }
    assert(log_is_of(cx, k, replies, outcome));
}

/// Answers without the log entries of those profile checks that wrote a code.
pub open spec fn without_code(replies: spec_fn(int) -> Replies, code: Seq<char>) -> spec_fn(
    int,
) -> Replies {
    |i: int|
        if status::log_has_status(replies(i).profile.log, code) {
            Replies {
                profile: verify::ProfileOutcomeView {
                    log: Seq::empty(),
                    ..replies(i).profile
                },
                ..replies(i)
            }
        } else {
            replies(i)
        }
}

/// Leaving out what the check of the profile never writes changes nothing.
proof fn lemma_without_code<
    S: Fn(&SignatureRequest) -> SignatureOutcome,
    P: Fn(&TrustRequest) -> ProfileOutcome,
    T: Fn(&TrustRequest) -> bool,
>(
    checks: Checks<S, P, T>,
    verification: verify::VerificationView,
    replies: spec_fn(int) -> Replies,
    code: Seq<char>,
)
    requires
        checks.profile_never_writes(code),
        checks.can_give(verification, replies),
    ensures
        verify::run(verification, without_code(replies, code)) == verify::run(
            verification,
            replies,
        ),
    decreases verify::answers_left(verification),
{
    if let verify::VerificationView::Pending(pending) = verification {
        let i: int = pending.position;
        let clean: spec_fn(int) -> Replies = without_code(replies, code);
        if let verify::PhaseView::Profile(trial) = pending.phase {
            assert(checks.profile_reports(trial.request, replies(i).profile));
            assert(clean(i) == replies(i));
        }
        assert(verify::answered(pending, clean(i)) == verify::answered(pending, replies(i)));
        verify::answers_make_progress(pending, replies(i));
        lemma_without_code(checks, verify::answered(pending, replies(i)), replies, code);
    }
}

/// A profile check that never writes a code wrote it on no signer of some table of answers that
/// leads to the same outcome.
proof fn lemma_clean_table<
    S: Fn(&SignatureRequest) -> SignatureOutcome,
    P: Fn(&TrustRequest) -> ProfileOutcome,
    T: Fn(&TrustRequest) -> bool,
>(
    checks: Checks<S, P, T>,
    ts: Seq<u8>,
    data: Seq<u8>,
    verify_trust: bool,
    outcome: OutcomeView,
    code: Seq<char>,
) -> (clean: spec_fn(int) -> Replies)
    requires
        checks.profile_never_writes(code),
        checks.can_end_with(verify::begun(ts, data, verify_trust), outcome),
    ensures
        outcome_of(ts, data, verify_trust, clean) == outcome,
        forall|i: int| !status::log_has_status((#[trigger] clean(i)).profile.log, code),
{
    let start: verify::VerificationView = verify::begun(ts, data, verify_trust);
    let replies: spec_fn(int) -> Replies = choose|replies: spec_fn(int) -> Replies| #[trigger]
        checks.can_give(start, replies) && outcome == verify::run(start, replies);
    lemma_without_code(checks, start, replies, code);
    without_code(replies, code)
}

/// Where the check of the profile never claims it, the log that a verification adds says that the
/// authority is trusted exactly when trust is verified and the time stamp is accepted.
pub proof fn trusted_code_exactly_when_accepted_with_trust<
    S: Fn(&SignatureRequest) -> SignatureOutcome,
    P: Fn(&TrustRequest) -> ProfileOutcome,
    T: Fn(&TrustRequest) -> bool,
>(
    checks: Checks<S, P, T>,
    ts: Seq<u8>,
    data: Seq<u8>,
    verify_trust: bool,
    outcome: OutcomeView,
)
    requires
        checks.profile_never_writes(status::TIMESTAMP_TRUSTED@),
        checks.can_end_with(verify::begun(ts, data, verify_trust), outcome),
    ensures
        status::log_has_status(outcome.log, status::TIMESTAMP_TRUSTED@) <==> verify_trust
            && outcome.result is Ok,
{
    let clean: spec_fn(int) -> Replies = lemma_clean_table(
        checks,
        ts,
        data,
        verify_trust,
        outcome,
        status::TIMESTAMP_TRUSTED@,
    );
    assert(profile_logs_claim_no_trust(clean));
    codes_in_the_log(ts, data, verify_trust, clean);
}

/// A log starts with a success: signature and message imprint were checked. It says so exactly
/// once, unless the check of the profile is made and says so too. It reports no failure, unless
/// the check of the profile is made and does.
pub open spec fn reports_one_success<
    S: Fn(&SignatureRequest) -> SignatureOutcome,
    P: Fn(&TrustRequest) -> ProfileOutcome,
    T: Fn(&TrustRequest) -> bool,
>(checks: Checks<S, P, T>, verify_trust: bool, log: Seq<status::LogItemView>) -> bool {
    &&& log.len() > 0
    &&& log[0].kind == status::LogKind::Success
    &&& log[0].validation_status == Some(status::TIMESTAMP_VALIDATED@)
    &&& (verify_trust ==> checks.profile_never_writes(status::TIMESTAMP_VALIDATED@))
        ==> status::count_status(log, status::TIMESTAMP_VALIDATED@) == 1
    &&& forall|code: Seq<char>|
        is_failure_code(code) && (verify_trust ==> checks.profile_never_writes(code))
            ==> !#[trigger] status::log_has_status(log, code)
}

/// The log that the verification of an accepted time stamp adds reports one success and no
/// failure, whatever became of the signers before the accepted one.
pub proof fn an_accepted_log_reports_one_success<
    S: Fn(&SignatureRequest) -> SignatureOutcome,
    P: Fn(&TrustRequest) -> ProfileOutcome,
    T: Fn(&TrustRequest) -> bool,
>(
    checks: Checks<S, P, T>,
    ts: Seq<u8>,
    data: Seq<u8>,
    verify_trust: bool,
    outcome: OutcomeView,
)
    requires
        checks.can_end_with(verify::begun(ts, data, verify_trust), outcome),
        outcome.result is Ok,
    ensures
        reports_one_success(checks, verify_trust, outcome.log),
{
    let start: verify::VerificationView = verify::begun(ts, data, verify_trust);
    let replies: spec_fn(int) -> Replies = choose|replies: spec_fn(int) -> Replies| #[trigger]
        checks.can_give(start, replies) && outcome == verify::run(start, replies);
    an_accepted_log_is_that_of_the_signer(ts, data, verify_trust, replies);
    lemma_code_count(checks, ts, data, verify_trust, outcome, status::TIMESTAMP_VALIDATED@);
    assert forall|code: Seq<char>|
        is_failure_code(code) && (verify_trust ==> checks.profile_never_writes(
            code,
        )) implies !#[trigger] status::log_has_status(outcome.log, code) by {
        lemma_code_count(checks, ts, data, verify_trust, outcome, code);
        status::carried_codes_are_counted(outcome.log, code);
        status_codes_differ();
    }
}

/// How many entries with a code the log of an accepted time stamp has, where the check of the
/// profile never writes the code.
proof fn lemma_code_count<
    S: Fn(&SignatureRequest) -> SignatureOutcome,
    P: Fn(&TrustRequest) -> ProfileOutcome,
    T: Fn(&TrustRequest) -> bool,
>(
    checks: Checks<S, P, T>,
    ts: Seq<u8>,
    data: Seq<u8>,
    verify_trust: bool,
    outcome: OutcomeView,
    code: Seq<char>,
)
    requires
        checks.can_end_with(verify::begun(ts, data, verify_trust), outcome),
        outcome.result is Ok,
        code == status::TIMESTAMP_VALIDATED@ || is_failure_code(code),
    ensures
        (verify_trust ==> checks.profile_never_writes(code)) ==> status::count_status(
            outcome.log,
            code,
        ) == (if code == status::TIMESTAMP_VALIDATED@ {
            1nat
        } else {
            0nat
        }),
{
    status_codes_differ();
    if verify_trust ==> checks.profile_never_writes(code) {
        let start: verify::VerificationView = verify::begun(ts, data, verify_trust);
        let table: spec_fn(int) -> Replies = if verify_trust {
            lemma_clean_table(checks, ts, data, verify_trust, outcome, code)
        } else {
            choose|replies: spec_fn(int) -> Replies| #[trigger]
                checks.can_give(start, replies) && outcome == verify::run(start, replies)
        };
        an_accepted_log_is_that_of_the_signer(ts, data, verify_trust, table);
        let cx: ContextView = context_of(ts, data, verify_trust).unwrap();
        let i: int = choose|i: int| #[trigger] log_is_of(cx, i, table, outcome);
        status::carried_codes_are_counted(table(i).profile.log, code);
    }
}

/// Without trust, what becomes of a signer depends on the answer on its signature alone.
proof fn lemma_signature_decides(
    cx: ContextView,
    i: int,
    error: error::TimeStampErrorView,
    log: Seq<status::LogItemView>,
    a: spec_fn(int) -> Replies,
    b: spec_fn(int) -> Replies,
)
    requires
        0 <= i,
        !cx.verify_trust,
        forall|j: int| (#[trigger] a(j)).signature == b(j).signature,
    ensures
        decided(cx, i, error, log, a) == decided(cx, i, error, log, b),
    decreases cx.signer_infos.len() - i,
{
    if i < cx.signer_infos.len() {
        assert(a(i).signature == b(i).signature);
        match judgement(cx, cx.signer_infos[i], a(i)) {
            Judgement::Skipped => {
                lemma_signature_decides(cx, i + 1, error, Seq::empty(), a, b);
            },
            Judgement::Rejected(error, log) => {
                lemma_signature_decides(cx, i + 1, error, log, a, b);
            },
            _ => {},
        }
    }
}

/// Where trust is not verified, the answers on certificates have no influence: answers that agree
/// on the signatures lead to the same result and the same log.
pub proof fn without_trust_only_signatures_count(
    ts: Seq<u8>,
    data: Seq<u8>,
    a: spec_fn(int) -> Replies,
    b: spec_fn(int) -> Replies,
)
    requires
        forall|i: int| (#[trigger] a(i)).signature == b(i).signature,
    ensures
        outcome_of(ts, data, false, a) == outcome_of(ts, data, false, b),
{
    match context_of(ts, data, false) {
        Some(cx) => {
            lemma_outcome(ts, data, false, a);
            lemma_outcome(ts, data, false, b);
            lemma_signature_decides(
                cx,
                0,
                error::TimeStampErrorView::InvalidData,
                Seq::empty(),
                a,
                b,
            );
        },
        None => {
            nothing_to_look_at(ts, data, false, a);
            nothing_to_look_at(ts, data, false, b);
        },
    }
}

/// Two sets of checks give the same answer on a signature.
pub open spec fn agree_on_signatures<
    S: Fn(&SignatureRequest) -> SignatureOutcome,
    P: Fn(&TrustRequest) -> ProfileOutcome,
    T: Fn(&TrustRequest) -> bool,
    U: Fn(&SignatureRequest) -> SignatureOutcome,
    Q: Fn(&TrustRequest) -> ProfileOutcome,
    V: Fn(&TrustRequest) -> bool,
>(a: Checks<S, P, T>, b: Checks<U, Q, V>) -> bool {
    forall|request: examine::SignatureRequestView, x: SignatureOutcome, y: SignatureOutcome|
        #[trigger] a.signature_reports(request, x) && #[trigger] b.signature_reports(request, y)
            ==> x == y
}

/// Two sets of checks give the same answers on a certificate that is to be used for time stamps
/// and nothing else. Nothing is said of other uses.
pub open spec fn agree_on_time_stamp_certificates<
    S: Fn(&SignatureRequest) -> SignatureOutcome,
    P: Fn(&TrustRequest) -> ProfileOutcome,
    T: Fn(&TrustRequest) -> bool,
    U: Fn(&SignatureRequest) -> SignatureOutcome,
    Q: Fn(&TrustRequest) -> ProfileOutcome,
    V: Fn(&TrustRequest) -> bool,
>(a: Checks<S, P, T>, b: Checks<U, Q, V>) -> bool {
    &&& forall|
        request: verify::TrustRequestView,
        x: verify::ProfileOutcomeView,
        y: verify::ProfileOutcomeView,
    |
        request.valid_eku == verify::TIMESTAMP_OID_STR@ && #[trigger] a.profile_reports(request, x)
            && #[trigger] b.profile_reports(request, y) ==> x == y
    &&& forall|request: verify::TrustRequestView, x: bool, y: bool|
        request.valid_eku == verify::TIMESTAMP_OID_STR@ && #[trigger] a.trust_reports(request, x)
            && #[trigger] b.trust_reports(request, y) ==> x == y
}

/// A verification asks about certificates only where trust is verified, and then only about
/// their use for time stamps.
pub open spec fn asks_about_time_stamps(verification: verify::VerificationView) -> bool {
    match verification {
        verify::VerificationView::Finished(_) => true,
        verify::VerificationView::Pending(pending) => match pending.phase {
            verify::PhaseView::Signature(_) => true,
            verify::PhaseView::Profile(trial) => pending.context.verify_trust
                && trial.request.valid_eku == verify::TIMESTAMP_OID_STR@,
            verify::PhaseView::Trust(trial) => pending.context.verify_trust
                && trial.request.valid_eku == verify::TIMESTAMP_OID_STR@,
        },
    }
}

/// Whatever it is answered, a verification asks about certificates only where trust is
/// verified, and then only about their use for time stamps.
pub proof fn only_the_use_for_time_stamps_is_asked_about(
    pending: verify::PendingView,
    replies: Replies,
)
    requires
        asks_about_time_stamps(verify::VerificationView::Pending(pending)),
    ensures
        asks_about_time_stamps(verify::answered(pending, replies)),
{
    verify::answers_make_progress(pending, replies);
}

/// Checks that agree on what they are asked lead to the same outcome.
proof fn lemma_agreeing_checks<
    S: Fn(&SignatureRequest) -> SignatureOutcome,
    P: Fn(&TrustRequest) -> ProfileOutcome,
    T: Fn(&TrustRequest) -> bool,
    U: Fn(&SignatureRequest) -> SignatureOutcome,
    Q: Fn(&TrustRequest) -> ProfileOutcome,
    V: Fn(&TrustRequest) -> bool,
>(
    a: Checks<S, P, T>,
    b: Checks<U, Q, V>,
    verification: verify::VerificationView,
    x: spec_fn(int) -> Replies,
    y: spec_fn(int) -> Replies,
)
    requires
        agree_on_signatures(a, b),
        verification matches verify::VerificationView::Pending(pending)
            ==> pending.context.verify_trust ==> agree_on_time_stamp_certificates(a, b),
        asks_about_time_stamps(verification),
        a.can_give(verification, x),
        b.can_give(verification, y),
    ensures
        verify::run(verification, x) == verify::run(verification, y),
    decreases verify::answers_left(verification),
{
    if let verify::VerificationView::Pending(pending) = verification {
        let i: int = pending.position;
        assert(a.can_answer(pending, x(i)));
        assert(b.can_answer(pending, y(i)));
        assert(verify::answered(pending, x(i)) == verify::answered(pending, y(i)));
        verify::answers_make_progress(pending, x(i));
        only_the_use_for_time_stamps_is_asked_about(pending, x(i));
        lemma_agreeing_checks(a, b, verify::answered(pending, x(i)), x, y);
    }
}

/// The start of a verification asks about a signature, or is its end.
proof fn lemma_begun_asks(ts: Seq<u8>, data: Seq<u8>, verify_trust: bool)
    ensures
        asks_about_time_stamps(verify::begun(ts, data, verify_trust)),
        verify::begun(ts, data, verify_trust) matches verify::VerificationView::Pending(pending)
            ==> pending.context.verify_trust == verify_trust,
{
    if let Some(cx) = context_of(ts, data, verify_trust) {
        verify::next_signer_waits_for_a_candidate(
            cx,
            0,
            error::TimeStampErrorView::InvalidData,
            Seq::empty(),
        );
    }
}

/// Two verifications of a time stamp end with the same result and add the same log where the
/// checks agree on signatures and, if trust is verified, on certificates that are to be used for
/// time stamps. So without trust the checks of certificates have no influence, and with it what
/// they hold of other uses has none.
pub proof fn agreeing_checks_lead_to_one_outcome<
    S: Fn(&SignatureRequest) -> SignatureOutcome,
    P: Fn(&TrustRequest) -> ProfileOutcome,
    T: Fn(&TrustRequest) -> bool,
    U: Fn(&SignatureRequest) -> SignatureOutcome,
    Q: Fn(&TrustRequest) -> ProfileOutcome,
    V: Fn(&TrustRequest) -> bool,
>(
    a: Checks<S, P, T>,
    b: Checks<U, Q, V>,
    ts: Seq<u8>,
    data: Seq<u8>,
    verify_trust: bool,
    x: OutcomeView,
    y: OutcomeView,
)
    requires
        agree_on_signatures(a, b),
        verify_trust ==> agree_on_time_stamp_certificates(a, b),
        a.can_end_with(verify::begun(ts, data, verify_trust), x),
        b.can_end_with(verify::begun(ts, data, verify_trust), y),
    ensures
        x == y,
{
    let start: verify::VerificationView = verify::begun(ts, data, verify_trust);
    let first: spec_fn(int) -> Replies = choose|replies: spec_fn(int) -> Replies| #[trigger]
        a.can_give(start, replies) && x == verify::run(start, replies);
    let second: spec_fn(int) -> Replies = choose|replies: spec_fn(int) -> Replies| #[trigger]
        b.can_give(start, replies) && y == verify::run(start, replies);
    lemma_begun_asks(ts, data, verify_trust);
    lemma_agreeing_checks(a, b, start, first, second);
}

/// A time stamp is accepted where a signer vouches for it and the verification goes past the
/// signers before it.
pub proof fn a_time_stamp_that_is_vouched_for_is_accepted(
    ts: Seq<u8>,
    data: Seq<u8>,
    verify_trust: bool,
    replies: spec_fn(int) -> Replies,
    i: int,
    tst: cms::TstInfoView,
)
    requires
        context_of(ts, data, verify_trust) is Some,
        vouches(context_of(ts, data, verify_trust).unwrap(), i, replies, tst),
        passes_over(context_of(ts, data, verify_trust).unwrap(), i, replies),
    ensures
        outcome_of(ts, data, verify_trust, replies).result == Ok::<
            cms::TstInfoView,
            error::TimeStampErrorView,
        >(tst),
{
    let cx: ContextView = context_of(ts, data, verify_trust).unwrap();
    lemma_outcome(ts, data, verify_trust, replies);
    assert(accepts_first(cx, i, replies));
    lemma_decides(
        cx,
        0,
        error::TimeStampErrorView::InvalidData,
        Seq::empty(),
        replies,
        i,
    );
}

/// Entries that a check of a certificate against the profile wrote, or none. There are none where
/// trust is not verified.
pub open spec fn written_by_profile_check<
    S: Fn(&SignatureRequest) -> SignatureOutcome,
    P: Fn(&TrustRequest) -> ProfileOutcome,
    T: Fn(&TrustRequest) -> bool,
>(checks: Checks<S, P, T>, verify_trust: bool, written: Seq<status::LogItemView>) -> bool {
    ||| written.len() == 0
    ||| verify_trust && exists|r: TrustRequest, o: ProfileOutcome|
        o.deep_view().log == written && #[trigger] call_ensures(checks.profile, (&r,), o)
}

/// The entries of a verification itself: they say that the authority is trusted exactly when trust
/// is verified and the time stamp is accepted. Those on an accepted time stamp start with a
/// success, that signature and message imprint were checked, say so exactly once, and report no
/// failure.
pub open spec fn own_entries_are_honest(
    verify_trust: bool,
    accepted: bool,
    own: Seq<status::LogItemView>,
) -> bool {
    &&& status::log_has_status(own, status::TIMESTAMP_TRUSTED@) <==> verify_trust && accepted
    &&& accepted ==> {
        &&& own.len() > 0
        &&& own[0].kind == status::LogKind::Success
        &&& own[0].validation_status == Some(status::TIMESTAMP_VALIDATED@)
        &&& status::count_status(own, status::TIMESTAMP_VALIDATED@) == 1
        &&& forall|code: Seq<char>|
            is_failure_code(code) ==> !#[trigger] status::log_has_status(own, code)
    }
}

/// A log is made of entries of the verification itself with what a check of the profile wrote
/// between them.
pub open spec fn consists_of<
    S: Fn(&SignatureRequest) -> SignatureOutcome,
    P: Fn(&TrustRequest) -> ProfileOutcome,
    T: Fn(&TrustRequest) -> bool,
>(
    checks: Checks<S, P, T>,
    verify_trust: bool,
    accepted: bool,
    log: Seq<status::LogItemView>,
    before: Seq<status::LogItemView>,
    written: Seq<status::LogItemView>,
    after: Seq<status::LogItemView>,
) -> bool {
    &&& log == before + written + after
    &&& written_by_profile_check(checks, verify_trust, written)
    &&& own_entries_are_honest(verify_trust, accepted, before + after)
}

/// Apart from what a check of the profile wrote, the entries of a log are those of the
/// verification itself, and honest.
pub open spec fn is_honest_log<
    S: Fn(&SignatureRequest) -> SignatureOutcome,
    P: Fn(&TrustRequest) -> ProfileOutcome,
    T: Fn(&TrustRequest) -> bool,
>(
    checks: Checks<S, P, T>,
    verify_trust: bool,
    accepted: bool,
    log: Seq<status::LogItemView>,
) -> bool {
    exists|
        before: Seq<status::LogItemView>,
        written: Seq<status::LogItemView>,
        after: Seq<status::LogItemView>,
    | #[trigger]
        consists_of(checks, verify_trust, accepted, log, before, written, after)
}

/// The log of a verification is honest so far.
spec fn honest_so_far<
    S: Fn(&SignatureRequest) -> SignatureOutcome,
    P: Fn(&TrustRequest) -> ProfileOutcome,
    T: Fn(&TrustRequest) -> bool,
>(
    checks: Checks<S, P, T>,
    verify_trust: bool,
    verification: verify::VerificationView,
) -> bool {
    match verification {
        verify::VerificationView::Finished(outcome) => is_honest_log(
            checks,
            verify_trust,
            outcome.result is Ok,
            outcome.log,
        ),
        verify::VerificationView::Pending(pending) => {
            &&& pending.context.verify_trust == verify_trust
            &&& match pending.phase {
                verify::PhaseView::Signature(_) => true,
                verify::PhaseView::Profile(trial) => verify_trust && pending.log == seq![
                    matched_entry(trial.common_name),
                ],
                verify::PhaseView::Trust(trial) => {
                    &&& verify_trust
                    &&& exists|written: Seq<status::LogItemView>| #[trigger]
                        written_by_profile_check(checks, verify_trust, written) && pending.log
                            == seq![matched_entry(trial.common_name)] + written
                },
            }
        },
    }
}

/// A refusal without an entry.
proof fn lemma_honest_nothing<
    S: Fn(&SignatureRequest) -> SignatureOutcome,
    P: Fn(&TrustRequest) -> ProfileOutcome,
    T: Fn(&TrustRequest) -> bool,
>(checks: Checks<S, P, T>, verify_trust: bool)
    ensures
        is_honest_log(checks, verify_trust, false, Seq::empty()),
{
    let none: Seq<status::LogItemView> = Seq::empty();
    assert(none + none + none =~= none);
    assert(none + none =~= none);
    assert(consists_of(checks, verify_trust, false, none, none, none, none));
}

/// A refusal with one entry that does not claim trust.
proof fn lemma_honest_refusal<
    S: Fn(&SignatureRequest) -> SignatureOutcome,
    P: Fn(&TrustRequest) -> ProfileOutcome,
    T: Fn(&TrustRequest) -> bool,
>(checks: Checks<S, P, T>, verify_trust: bool, item: status::LogItemView)
    requires
        item.validation_status != Some(status::TIMESTAMP_TRUSTED@),
    ensures
        is_honest_log(checks, verify_trust, false, seq![item]),
{
    let none: Seq<status::LogItemView> = Seq::empty();
    let log: Seq<status::LogItemView> = seq![item];
    lemma_status_single(item, status::TIMESTAMP_TRUSTED@);
    assert(log + none + none =~= log);
    assert(log + none =~= log);
    assert(consists_of(checks, verify_trust, false, log, log, none, none));
}

/// An acceptance without trust.
proof fn lemma_honest_acceptance<
    S: Fn(&SignatureRequest) -> SignatureOutcome,
    P: Fn(&TrustRequest) -> ProfileOutcome,
    T: Fn(&TrustRequest) -> bool,
>(checks: Checks<S, P, T>, common_name: Seq<char>)
    ensures
        is_honest_log(checks, false, true, seq![matched_entry(common_name)]),
{
    let none: Seq<status::LogItemView> = Seq::empty();
    let item: status::LogItemView = matched_entry(common_name);
    let log: Seq<status::LogItemView> = seq![item];
    status_codes_differ();
    lemma_status_single(item, status::TIMESTAMP_TRUSTED@);
    lemma_single_count(item, status::TIMESTAMP_VALIDATED@);
    assert forall|code: Seq<char>| is_failure_code(code) implies !#[trigger] status::log_has_status(
        log,
        code,
    ) by {
        lemma_status_single(item, code);
    }
    assert(log + none + none =~= log);
    assert(log + none =~= log);
    assert(consists_of(checks, false, true, log, log, none, none));
}

/// An acceptance or a refusal after the certificate was checked.
proof fn lemma_honest_trial<
    S: Fn(&SignatureRequest) -> SignatureOutcome,
    P: Fn(&TrustRequest) -> ProfileOutcome,
    T: Fn(&TrustRequest) -> bool,
>(
    checks: Checks<S, P, T>,
    common_name: Seq<char>,
    written: Seq<status::LogItemView>,
)
    requires
        written_by_profile_check(checks, true, written),
    ensures
        is_honest_log(
            checks,
            true,
            true,
            (seq![matched_entry(common_name)] + written).push(trusted_entry(common_name)),
        ),
        is_honest_log(
            checks,
            true,
            false,
            (seq![matched_entry(common_name)] + written).push(untrusted_entry(common_name)),
        ),
{
    let matched: status::LogItemView = matched_entry(common_name);
    let first: Seq<status::LogItemView> = seq![matched];
    let trusted: Seq<char> = status::TIMESTAMP_TRUSTED@;
    let validated: Seq<char> = status::TIMESTAMP_VALIDATED@;
    let yes: status::LogItemView = trusted_entry(common_name);
    let no: status::LogItemView = untrusted_entry(common_name);
    status_codes_differ();
    assert((first + written).push(yes) =~= first + written + seq![yes]);
    assert((first + written).push(no) =~= first + written + seq![no]);
    lemma_status_single(matched, trusted);
    lemma_status_single(yes, trusted);
    lemma_status_single(no, trusted);
    status::joined_logs_carry_both_codes(first, seq![yes], trusted);
    status::joined_logs_carry_both_codes(first, seq![no], trusted);
    lemma_single_count(matched, validated);
    lemma_single_count(yes, validated);
    status::joined_logs_count_both(first, seq![yes], validated);
    let own: Seq<status::LogItemView> = first + seq![yes];
    assert(own[0] == matched);
    assert forall|code: Seq<char>| is_failure_code(code) implies !#[trigger] status::log_has_status(
        own,
        code,
    ) by {
        lemma_status_single(matched, code);
        lemma_status_single(yes, code);
        status::joined_logs_carry_both_codes(first, seq![yes], code);
    }
    assert(consists_of(
        checks,
        true,
        true,
        (first + written).push(yes),
        first,
        written,
        seq![yes],
    ));
    assert(consists_of(
        checks,
        true,
        false,
        (first + written).push(no),
        first,
        written,
        seq![no],
    ));
}

/// The log stays honest when a verification goes on with a signer.
proof fn lemma_honest_next<
    S: Fn(&SignatureRequest) -> SignatureOutcome,
    P: Fn(&TrustRequest) -> ProfileOutcome,
    T: Fn(&TrustRequest) -> bool,
>(
    checks: Checks<S, P, T>,
    cx: ContextView,
    i: int,
    error: error::TimeStampErrorView,
    log: Seq<status::LogItemView>,
)
    requires
        is_honest_log(checks, cx.verify_trust, false, log),
    ensures
        honest_so_far(checks, cx.verify_trust, verify::next_signer(cx, i, error, log)),
    decreases cx.signer_infos.len() - i,
{
    if i < cx.signer_infos.len() {
        match verify::examined(cx, cx.signer_infos[i]) {
            verify::ExaminedView::Skipped => {
                lemma_honest_nothing(checks, cx.verify_trust);
                lemma_honest_next(checks, cx, i + 1, error, Seq::empty());
            },
            verify::ExaminedView::Rejected(rejection) => {
                status_codes_differ();
                lemma_honest_refusal(checks, cx.verify_trust, rejection.item);
                lemma_honest_next(checks, cx, i + 1, rejection.error, seq![rejection.item]);
            },
            verify::ExaminedView::Candidate(_) => {},
        }
    }
}

/// The log stays honest when a verification gets an answer.
proof fn lemma_honest_answered<
    S: Fn(&SignatureRequest) -> SignatureOutcome,
    P: Fn(&TrustRequest) -> ProfileOutcome,
    T: Fn(&TrustRequest) -> bool,
>(checks: Checks<S, P, T>, pending: verify::PendingView, replies: Replies)
    requires
        honest_so_far(
            checks,
            pending.context.verify_trust,
            verify::VerificationView::Pending(pending),
        ),
        checks.can_answer(pending, replies),
    ensures
        honest_so_far(checks, pending.context.verify_trust, verify::answered(pending, replies)),
{
    let cx: ContextView = pending.context;
    let i: int = pending.position + 1;
    status_codes_differ();
    match pending.phase {
        verify::PhaseView::Signature(candidate) => {
            let mismatch: status::LogItemView = status::finding(
                "timestamp signed data did not match signature"@,
                status::TIMESTAMP_UNTRUSTED@,
            );
            lemma_honest_refusal(checks, cx.verify_trust, mismatch);
            lemma_honest_next(
                checks,
                cx,
                i,
                error::TimeStampErrorView::Untrusted,
                seq![mismatch],
            );
            match examine::imprint_verdict(
                candidate,
                examine::digest_under(candidate.tst.message_imprint.hash_algorithm, cx.data),
            ) {
                Err(rejection) => {
                    lemma_honest_refusal(checks, cx.verify_trust, rejection.item);
                    lemma_honest_next(checks, cx, i, rejection.error, seq![rejection.item]);
                },
                Ok(_) => {
                    lemma_honest_acceptance(checks, candidate.common_name);
                    lemma_honest_nothing(checks, cx.verify_trust);
                },
            }
        },
        verify::PhaseView::Profile(trial) => {
            let written: Seq<status::LogItemView> = replies.profile.log;
            assert(checks.profile_reports(trial.request, replies.profile));
            assert(written_by_profile_check(checks, true, written));
            lemma_honest_trial(checks, trial.common_name, written);
            lemma_honest_next(
                checks,
                cx,
                i,
                error::TimeStampErrorView::Untrusted,
                (pending.log + written).push(untrusted_entry(trial.common_name)),
            );
        },
        verify::PhaseView::Trust(trial) => {
            let written: Seq<status::LogItemView> = choose|written: Seq<status::LogItemView>|
                #[trigger]
                written_by_profile_check(checks, cx.verify_trust, written) && pending.log == seq![
                    matched_entry(trial.common_name),
                ] + written;
            lemma_honest_trial(checks, trial.common_name, written);
            lemma_honest_next(
                checks,
                cx,
                i,
                error::TimeStampErrorView::Untrusted,
                pending.log.push(untrusted_entry(trial.common_name)),
            );
        },
    }
}

/// The log is honest at the end.
proof fn lemma_honest_run<
    S: Fn(&SignatureRequest) -> SignatureOutcome,
    P: Fn(&TrustRequest) -> ProfileOutcome,
    T: Fn(&TrustRequest) -> bool,
>(
    checks: Checks<S, P, T>,
    verify_trust: bool,
    verification: verify::VerificationView,
    replies: spec_fn(int) -> Replies,
)
    requires
        honest_so_far(checks, verify_trust, verification),
        checks.can_give(verification, replies),
    ensures
        is_honest_log(
            checks,
            verify_trust,
            verify::run(verification, replies).result is Ok,
            verify::run(verification, replies).log,
        ),
    decreases verify::answers_left(verification),
{
    if let verify::VerificationView::Pending(pending) = verification {
        let answer: Replies = replies(pending.position);
        verify::answers_make_progress(pending, answer);
        lemma_honest_answered(checks, pending, answer);
        lemma_honest_run(checks, verify_trust, verify::answered(pending, answer), replies);
    }
}

/// Whatever the checks are and answer: apart from what a check of a certificate's profile wrote,
/// the log that a verification adds says that the authority is trusted exactly when trust is
/// verified and the time stamp is accepted, and that of an accepted time stamp reports one success
/// of signature and message imprint and no failure.
pub proof fn every_log_is_honest<
    S: Fn(&SignatureRequest) -> SignatureOutcome,
    P: Fn(&TrustRequest) -> ProfileOutcome,
    T: Fn(&TrustRequest) -> bool,
>(
    checks: Checks<S, P, T>,
    ts: Seq<u8>,
    data: Seq<u8>,
    verify_trust: bool,
    outcome: OutcomeView,
)
    requires
        checks.can_end_with(verify::begun(ts, data, verify_trust), outcome),
    ensures
        is_honest_log(checks, verify_trust, outcome.result is Ok, outcome.log),
{
    let start: verify::VerificationView = verify::begun(ts, data, verify_trust);
    let replies: spec_fn(int) -> Replies = choose|replies: spec_fn(int) -> Replies| #[trigger]
        checks.can_give(start, replies) && outcome == verify::run(start, replies);
    status_codes_differ();
    match context_of(ts, data, verify_trust) {
        Some(cx) => {
            lemma_honest_nothing(checks, verify_trust);
            lemma_honest_next(
                checks,
                cx,
                0,
                error::TimeStampErrorView::InvalidData,
                Seq::empty(),
            );
        },
        None => {
            nothing_to_look_at(ts, data, verify_trust, replies);
            lemma_honest_refusal(checks, verify_trust, outcome.log[0]);
            assert(outcome.log =~= seq![outcome.log[0]]);
        },
    }
    lemma_honest_run(checks, verify_trust, start, replies);
}

} // verus!
