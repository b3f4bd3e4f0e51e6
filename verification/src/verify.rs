//! The verification of a time stamp.

use vstd::prelude::*;

use crate::acceptance;
use crate::chain;
use crate::cms::{self, CertificateChoice, SignedContent, SignedData, SignerInfo, TstInfo};
use crate::error::{self, TimeStampError};
use crate::examine::{self, Candidate, Evidence, Rejection, SignatureRequest};
use crate::laws;
use crate::signer;
use crate::status::{self, LogItem, StatusTracker};
use crate::time;

verus! {

/// The extended key usage that a certificate for time stamps has to have.
pub const TIMESTAMP_OID_STR: &'static str = "1.3.6.1.5.5.7.3.8";

/// What a token is verified with.
pub struct Context<'a> {
    /// The content that is signed.
    pub content: SignedContent,
    /// The certificates in the token.
    pub certs: Vec<CertificateChoice>,
    /// The encodings of the certificates.
    pub cert_ders: Vec<Vec<u8>>,
    /// The signers.
    pub signer_infos: Vec<SignerInfo>,
    /// The data that was time-stamped.
    pub data: &'a [u8],
    /// Whether the signer has to be trusted.
    pub verify_trust: bool,
}

/// A [`Context`] as sequences.
pub struct ContextView {
    pub content: cms::SignedContentView,
    pub certs: Seq<cms::CertificateChoiceView>,
    pub cert_ders: Seq<Seq<u8>>,
    pub signer_infos: Seq<cms::SignerInfoView>,
    pub data: Seq<u8>,
    pub verify_trust: bool,
}

impl<'a> DeepView for Context<'a> {
    type V = ContextView;

    open spec fn deep_view(&self) -> ContextView {
        ContextView {
            content: self.content.deep_view(),
            certs: self.certs.deep_view(),
            cert_ders: self.cert_ders.deep_view(),
            signer_infos: self.signer_infos.deep_view(),
            data: self.data@,
            verify_trust: self.verify_trust,
        }
    }
}

/// What is asked about the certificate of a signer.
#[derive(Debug, PartialEq, Eq)]
pub struct TrustRequest {
    /// The certificates from the signer's own one up to the root.
    pub chain: Vec<Vec<u8>>,
    /// The extended key usage that the signer's certificate has to have, and the only one that
    /// counts.
    pub valid_eku: String,
    /// The time of signing, in seconds since the Unix epoch.
    pub signing_time: i64,
    /// The time stamp information.
    pub tst: TstInfo,
    /// The log entries on the signer, as they are before its certificate is checked.
    pub log: Vec<LogItem>,
}

/// A [`TrustRequest`] as sequences.
pub struct TrustRequestView {
    pub chain: Seq<Seq<u8>>,
    pub valid_eku: Seq<char>,
    pub signing_time: i64,
    pub tst: cms::TstInfoView,
    pub log: Seq<status::LogItemView>,
}

impl DeepView for TrustRequest {
    type V = TrustRequestView;

    open spec fn deep_view(&self) -> TrustRequestView {
        TrustRequestView {
            chain: self.chain.deep_view(),
            valid_eku: self.valid_eku@,
            signing_time: self.signing_time,
            tst: self.tst.deep_view(),
            log: self.log.deep_view(),
        }
    }
}

/// A signer whose certificate is being checked.
pub struct Trial {
    /// What is asked about the certificate.
    pub request: TrustRequest,
    /// The common name in the certificate.
    pub common_name: String,
}

/// A [`Trial`] as sequences.
pub struct TrialView {
    pub request: TrustRequestView,
    pub common_name: Seq<char>,
}

impl DeepView for Trial {
    type V = TrialView;

    open spec fn deep_view(&self) -> TrialView {
        TrialView { request: self.request.deep_view(), common_name: self.common_name@ }
    }
}

/// What a verification waits for.
pub enum Phase {
    /// Whether the signature of a signer is valid.
    Signature(Candidate),
    /// Whether the certificate of a signer fits the profile of time stamp certificates.
    Profile(Trial),
    /// Whether the certificate of a signer is trusted.
    Trust(Trial),
}

/// A [`Phase`] as sequences.
pub enum PhaseView {
    Signature(examine::CandidateView),
    Profile(TrialView),
    Trust(TrialView),
}

impl DeepView for Phase {
    type V = PhaseView;

    open spec fn deep_view(&self) -> PhaseView {
        match self {
            Phase::Signature(candidate) => PhaseView::Signature(candidate.deep_view()),
            Phase::Profile(trial) => PhaseView::Profile(trial.deep_view()),
            Phase::Trust(trial) => PhaseView::Trust(trial.deep_view()),
        }
    }
}

/// A verification that waits for an answer.
pub struct Pending<'a> {
    /// What the token is verified with.
    pub context: Context<'a>,
    /// The position of the signer that is being looked at.
    pub position: usize,
    /// What the verification waits for.
    pub phase: Phase,
    /// The log entries on the signer.
    pub log: Vec<LogItem>,
}

/// A [`Pending`] verification as sequences.
pub struct PendingView {
    pub context: ContextView,
    pub position: int,
    pub phase: PhaseView,
    pub log: Seq<status::LogItemView>,
}

impl<'a> DeepView for Pending<'a> {
    type V = PendingView;

    open spec fn deep_view(&self) -> PendingView {
        PendingView {
            context: self.context.deep_view(),
            position: self.position as int,
            phase: self.phase.deep_view(),
            log: self.log.deep_view(),
        }
    }
}

/// The end of a verification.
#[derive(Debug, PartialEq, Eq)]
pub struct Outcome {
    /// The time stamp information, or why the time stamp is not accepted.
    pub result: Result<TstInfo, TimeStampError>,
    /// The log entries that go with it.
    pub log: Vec<LogItem>,
}

/// An [`Outcome`] as sequences.
pub struct OutcomeView {
    pub result: Result<cms::TstInfoView, error::TimeStampErrorView>,
    pub log: Seq<status::LogItemView>,
}

impl DeepView for Outcome {
    type V = OutcomeView;

    open spec fn deep_view(&self) -> OutcomeView {
        OutcomeView { result: error::result_view(self.result), log: self.log.deep_view() }
    }
}

/// A verification of a time stamp, which looks at one signer of the token after the other until
/// one is accepted. What it cannot find out on its own it waits for.
pub enum Verification<'a> {
    Pending(Pending<'a>),
    Finished(Outcome),
}

/// A [`Verification`] as sequences.
pub enum VerificationView {
    Pending(PendingView),
    Finished(OutcomeView),
}

impl<'a> DeepView for Verification<'a> {
    type V = VerificationView;

    open spec fn deep_view(&self) -> VerificationView {
        match self {
            Verification::Pending(pending) => VerificationView::Pending(pending.deep_view()),
            Verification::Finished(outcome) => VerificationView::Finished(outcome.deep_view()),
        }
    }
}

/// [`Examined`] as sequences.
pub enum ExaminedView {
    Skipped,
    Rejected(examine::RejectionView),
    Candidate(examine::CandidateView),
}

/// What the first look at a signer shows.
pub open spec fn examined(cx: ContextView, signer_info: cms::SignerInfoView) -> ExaminedView {
    match signer::signer_position(cx.certs, signer_info.sid) {
        None => ExaminedView::Skipped,
        Some(pos) => match (cx.certs[pos].encoded, cx.certs[pos].key) {
            (Some(der), Some(key)) => match examine::signer_verdict(
                cx.content,
                signer_info,
                key,
                pos,
                examine::evidence_of(cx.content, signer_info, key, der),
            ) {
                Ok(candidate) => ExaminedView::Candidate(candidate),
                Err(rejection) => ExaminedView::Rejected(rejection),
            },
            _ => ExaminedView::Skipped,
        },
    }
}

/// The verification from the signer at the given position on, with the error and the log entries
/// that the signers before it left behind.
pub open spec fn next_signer(
    cx: ContextView,
    i: int,
    error: error::TimeStampErrorView,
    log: Seq<status::LogItemView>,
) -> VerificationView
    decreases cx.signer_infos.len() - i,
{
    if i >= cx.signer_infos.len() {
        VerificationView::Finished(OutcomeView { result: Err(error), log })
    } else {
        match examined(cx, cx.signer_infos[i]) {
            ExaminedView::Skipped => next_signer(cx, i + 1, error, Seq::empty()),
            ExaminedView::Rejected(rejection) => next_signer(
                cx,
                i + 1,
                rejection.error,
                seq![rejection.item],
            ),
            ExaminedView::Candidate(candidate) => VerificationView::Pending(
                PendingView {
                    context: cx,
                    position: i,
                    phase: PhaseView::Signature(candidate),
                    log: Seq::empty(),
                },
            ),
        }
    }
}

/// What the first look at a signer shows.
pub enum Examined {
    /// None of the certificates is that of the signer.
    Skipped,
    /// The signer is not accepted.
    Rejected(Rejection),
    /// The signature is worth checking.
    Candidate(Candidate),
}

impl DeepView for Examined {
    type V = ExaminedView;

    open spec fn deep_view(&self) -> ExaminedView {
        match self {
            Examined::Skipped => ExaminedView::Skipped,
            Examined::Rejected(rejection) => ExaminedView::Rejected(rejection.deep_view()),
            Examined::Candidate(candidate) => ExaminedView::Candidate(candidate.deep_view()),
        }
    }
}

impl<'a> Context<'a> {
    /// Takes a first look at a signer.
    pub fn examine(&self, signer_info: &SignerInfo) -> (look: Examined)
        ensures
            look.deep_view() == examined(self.deep_view(), signer_info.deep_view()),
    {
        let certs: &[CertificateChoice] = self.certs.as_slice();
        assert(certs.deep_view() =~= self.deep_view().certs);
        let Some(pos) = signer::find_signer(certs, &signer_info.sid) else {
            return Examined::Skipped;
        };
        assert(self.deep_view().certs[pos as int] == self.certs@[pos as int].deep_view());
        let (Some(der), Some(key)) = (&self.certs[pos].encoded, &self.certs[pos].key) else {
            return Examined::Skipped;
        };
        let evidence: Evidence = examine::gather_evidence(
            &self.content,
            signer_info,
            key,
            der.as_slice(),
        );
        match examine::judge_signer(&self.content, signer_info, key, pos, evidence) {
            Ok(candidate) => Examined::Candidate(candidate),
            Err(rejection) => Examined::Rejected(rejection),
        }
    }

    /// Goes on with the signer at the given position.
    fn next_signer(self, i: usize, error: TimeStampError, log: Vec<LogItem>) -> (verification:
        Verification<'a>)
        ensures
            verification.deep_view() == next_signer(
                self.deep_view(),
                i as int,
                error@,
                log.deep_view(),
            ),
    {
        let ghost cx: ContextView = self.deep_view();
        let ghost wanted: VerificationView = next_signer(cx, i as int, error@, log.deep_view());
        let mut position: usize = i;
        let mut last_err: TimeStampError = error;
        let mut current_log: Vec<LogItem> = log;
        while position < self.signer_infos.len()
            invariant
                cx == self.deep_view(),
                wanted == next_signer(cx, i as int, error@, log.deep_view()),
                wanted == next_signer(cx, position as int, last_err@, current_log.deep_view()),
            decreases self.signer_infos@.len() - position,
        {
            assert(cx.signer_infos[position as int]
                == self.signer_infos@[position as int].deep_view());
            match self.examine(&self.signer_infos[position]) {
                Examined::Skipped => {
                    current_log = Vec::new();
                    assert(current_log.deep_view() =~= Seq::empty());
                },
                Examined::Rejected(rejection) => {
                    last_err = rejection.error;
                    current_log = Vec::new();
                    current_log.push(rejection.item);
                    assert(current_log.deep_view() =~= seq![rejection.item@]);
                },
                Examined::Candidate(candidate) => {
                    current_log = Vec::new();
                    assert(current_log.deep_view() =~= Seq::empty());
                    return Verification::Pending(
                        Pending {
                            context: self,
                            position,
                            phase: Phase::Signature(candidate),
                            log: current_log,
                        },
                    );
                },
            }
            position = position + 1;
        }
        Verification::Finished(Outcome { result: Err(last_err), log: current_log })
    }
}

/// A verification that ends with an error before any signer was looked at.
pub open spec fn refused(message: Seq<char>, code: Seq<char>) -> VerificationView {
    VerificationView::Finished(
        OutcomeView {
            result: Err(error::TimeStampErrorView::DecodeError(message)),
            log: seq![status::finding("could not parse timestamp data"@, code)],
        },
    )
}

/// The start of the verification of signed data.
pub open spec fn begun_with(
    signed: Option<cms::SignedDataView>,
    data: Seq<u8>,
    verify_trust: bool,
) -> VerificationView {
    match signed {
        None => refused("unable to find signed data"@, status::TIMESTAMP_MALFORMED@),
        Some(sd) => match sd.certificates {
            None => refused(
                "time stamp contains no certificates"@,
                status::TIMESTAMP_UNTRUSTED@,
            ),
            Some(certs) => match signer::encodings_of(certs) {
                None => refused(
                    "time stamp certificate could not be processed"@,
                    status::TIMESTAMP_UNTRUSTED@,
                ),
                Some(cert_ders) => next_signer(
                    ContextView {
                        content: sd.encap_content_info,
                        certs,
                        cert_ders,
                        signer_infos: sd.signer_infos,
                        data,
                        verify_trust,
                    },
                    0,
                    error::TimeStampErrorView::InvalidData,
                    Seq::empty(),
                ),
            },
        },
    }
}

/// The signed data in a response, where there is any.
pub open spec fn found_signed_data(ts: Seq<u8>) -> Option<cms::SignedDataView> {
    match cms::response_signed_data(ts) {
        Ok(Some(sd)) => Some(sd),
        _ => None,
    }
}

/// The start of the verification of a time stamp.
pub open spec fn begun(ts: Seq<u8>, data: Seq<u8>, verify_trust: bool) -> VerificationView {
    begun_with(found_signed_data(ts), data, verify_trust)
}

/// What became of a signature.
#[derive(Clone, Copy, Debug, PartialEq, Eq, Structural)]
pub enum SignatureOutcome {
    /// The signature is valid.
    Valid,
    /// The signature is not valid.
    Invalid,
    /// There is no validator for the algorithms.
    Unsupported,
}

/// What a validator reported, as a result.
pub open spec fn signature_result(outcome: SignatureOutcome) -> Result<
    (),
    error::TimeStampErrorView,
> {
    match outcome {
        SignatureOutcome::Valid => Ok(()),
        SignatureOutcome::Invalid => Err(error::TimeStampErrorView::InvalidData),
        SignatureOutcome::Unsupported => Err(error::TimeStampErrorView::UnsupportedAlgorithm),
    }
}

/// Turns what a validator reported on the signature of a time stamp into a result.
pub fn validate_timestamp_sig(outcome: SignatureOutcome) -> (result: Result<(), TimeStampError>)
    ensures
        error::result_view(result) == signature_result(outcome),
{
    match outcome {
        SignatureOutcome::Valid => Ok(()),
        SignatureOutcome::Invalid => Err(TimeStampError::InvalidData),
        SignatureOutcome::Unsupported => Err(TimeStampError::UnsupportedAlgorithm),
    }
}

/// A validator to check a signature with.
#[derive(Clone, Copy, Debug, PartialEq, Eq, Structural)]
pub enum ValidatorChoice {
    /// The asynchronous one.
    Asynchronous,
    /// The synchronous one.
    Synchronous,
    /// There is none.
    Unsupported,
}

/// Chooses the validator to check a signature with, where one can wait for an asynchronous one:
/// that one comes first.
pub fn choose_validator(asynchronous: bool, synchronous: bool) -> (choice: ValidatorChoice)
    ensures
        choice == (if asynchronous {
            ValidatorChoice::Asynchronous
        } else if synchronous {
            ValidatorChoice::Synchronous
        } else {
            ValidatorChoice::Unsupported
        }),
{
    if asynchronous {
        ValidatorChoice::Asynchronous
    } else if synchronous {
        ValidatorChoice::Synchronous
    } else {
        ValidatorChoice::Unsupported
    }
}

/// What became of the check of a certificate against the profile of time stamp certificates.
#[derive(Debug, PartialEq, Eq)]
pub struct ProfileOutcome {
    /// Whether the certificate fits the profile.
    pub passed: bool,
    /// What the check wrote into the log.
    pub log: Vec<LogItem>,
}

/// A [`ProfileOutcome`] as sequences.
pub struct ProfileOutcomeView {
    pub passed: bool,
    pub log: Seq<status::LogItemView>,
}

impl DeepView for ProfileOutcome {
    type V = ProfileOutcomeView;

    open spec fn deep_view(&self) -> ProfileOutcomeView {
        ProfileOutcomeView { passed: self.passed, log: self.log.deep_view() }
    }
}

/// The verification goes on with the next signer, because the certificate of this one is not
/// trusted.
pub open spec fn untrusted(
    cx: ContextView,
    position: int,
    trial: TrialView,
    log: Seq<status::LogItemView>,
) -> VerificationView {
    next_signer(
        cx,
        position + 1,
        error::TimeStampErrorView::Untrusted,
        log.push(
            status::finding(
                "timestamp cert untrusted: "@ + trial.common_name,
                status::TIMESTAMP_UNTRUSTED@,
            ),
        ),
    )
}

/// What a verification does once the signature of a signer was found to be valid.
pub open spec fn with_valid_signature(
    cx: ContextView,
    position: int,
    candidate: examine::CandidateView,
) -> VerificationView {
    match examine::imprint_verdict(
        candidate,
        examine::digest_under(candidate.tst.message_imprint.hash_algorithm, cx.data),
    ) {
        Err(rejection) => next_signer(cx, position + 1, rejection.error, seq![rejection.item]),
        Ok(item) => if !cx.verify_trust {
            VerificationView::Finished(OutcomeView { result: Ok(candidate.tst), log: seq![item] })
        } else {
            match chain::leaf_to_root(cx.cert_ders, candidate.cert_pos) {
                Err(error) => VerificationView::Finished(
                    OutcomeView { result: Err(error), log: Seq::empty() },
                ),
                Ok(chain) => VerificationView::Pending(
                    PendingView {
                        context: cx,
                        position,
                        phase: PhaseView::Profile(
                            TrialView {
                                request: TrustRequestView {
                                    chain,
                                    valid_eku: TIMESTAMP_OID_STR@,
                                    signing_time: candidate.tst.gen_time.seconds,
                                    tst: candidate.tst,
                                    log: seq![item],
                                },
                                common_name: candidate.common_name,
                            },
                        ),
                        log: seq![item],
                    },
                ),
            }
        },
    }
}

/// What a verification does once it knows what became of a signature. It does nothing where it
/// does not wait for that.
pub open spec fn with_signature(
    verification: VerificationView,
    outcome: SignatureOutcome,
) -> VerificationView {
    match verification {
        VerificationView::Pending(pending) => match pending.phase {
            PhaseView::Signature(candidate) => if outcome == SignatureOutcome::Valid {
                with_valid_signature(pending.context, pending.position, candidate)
            } else {
                next_signer(
                    pending.context,
                    pending.position + 1,
                    error::TimeStampErrorView::Untrusted,
                    seq![
                        status::finding(
                            "timestamp signed data did not match signature"@,
                            status::TIMESTAMP_UNTRUSTED@,
                        ),
                    ],
                )
            },
            _ => verification,
        },
        _ => verification,
    }
}

/// What a verification does once it knows whether a certificate fits the profile. It does nothing
/// where it does not wait for that.
pub open spec fn with_profile(
    verification: VerificationView,
    outcome: ProfileOutcomeView,
) -> VerificationView {
    match verification {
        VerificationView::Pending(pending) => match pending.phase {
            PhaseView::Profile(trial) => if outcome.passed {
                VerificationView::Pending(
                    PendingView {
                        phase: PhaseView::Trust(trial),
                        log: pending.log + outcome.log,
                        ..pending
                    },
                )
            } else {
                untrusted(pending.context, pending.position, trial, pending.log + outcome.log)
            },
            _ => verification,
        },
        _ => verification,
    }
}

/// What a verification does once it knows whether a certificate is trusted. It does nothing where
/// it does not wait for that.
pub open spec fn with_trust(verification: VerificationView, trusted: bool) -> VerificationView {
    match verification {
        VerificationView::Pending(pending) => match pending.phase {
            PhaseView::Trust(trial) => if trusted {
                VerificationView::Finished(
                    OutcomeView {
                        result: Ok(trial.request.tst),
                        log: pending.log.push(
                            status::achievement(
                                "timestamp cert trusted: "@ + trial.common_name,
                                status::TIMESTAMP_TRUSTED@,
                            ),
                        ),
                    },
                )
            } else {
                untrusted(pending.context, pending.position, trial, pending.log)
            },
            _ => verification,
        },
        _ => verification,
    }
}

impl<'a> Context<'a> {
    /// Goes on with the signer after the one at the given position.
    fn after(self, position: usize, error: TimeStampError, log: Vec<LogItem>) -> (next:
        Verification<'a>)
        ensures
            next.deep_view() == next_signer(
                self.deep_view(),
                position + 1,
                error@,
                log.deep_view(),
            ),
    {
        let next: usize = if position < self.signer_infos.len() {
            position + 1
        } else {
            position
        };
        self.next_signer(next, error, log)
    }

    /// Goes on with the next signer, because the certificate of the one at the given position is
    /// not trusted.
    fn distrust(self, position: usize, trial: Trial, log: Vec<LogItem>) -> (next: Verification<'a>)
        ensures
            next.deep_view() == untrusted(
                self.deep_view(),
                position as int,
                trial.deep_view(),
                log.deep_view(),
            ),
    {
        let mut log: Vec<LogItem> = log;
        let ghost before: Seq<status::LogItemView> = log.deep_view();
        let description: String = examine::join(
            "timestamp cert untrusted: ",
            trial.common_name.as_str(),
        );
        let item: LogItem = LogItem::informational(
            description.as_str(),
            status::TIMESTAMP_UNTRUSTED,
        );
        log.push(item);
        assert(log.deep_view() =~= before.push(item@));
        self.after(position, TimeStampError::Untrusted, log)
    }

    /// Goes on with a signer whose signature was found to be valid.
    fn accept_signature(self, position: usize, candidate: Candidate) -> (next: Verification<'a>)
        ensures
            next.deep_view() == with_valid_signature(
                self.deep_view(),
                position as int,
                candidate.deep_view(),
            ),
    {
        let computed: Option<Vec<u8>> = examine::compute_digest(
            candidate.tst.message_imprint.hash_algorithm.as_slice(),
            self.data,
        );
        let mut log: Vec<LogItem> = Vec::new();
        let item: LogItem = match examine::judge_imprint(&candidate, &computed) {
            Err(rejection) => {
                log.push(rejection.item);
                assert(log.deep_view() =~= seq![rejection.item@]);
                return self.after(position, rejection.error, log);
            },
            Ok(item) => item,
        };
        log.push(item);
        assert(log.deep_view() =~= seq![item@]);
        if !self.verify_trust {
            return Verification::Finished(Outcome { result: Ok(candidate.tst), log });
        }
        let cert_ders: &[Vec<u8>] = self.cert_ders.as_slice();
        assert(cert_ders.deep_view() =~= self.cert_ders.deep_view());
        match chain::order_certificates_leaf_to_root(cert_ders, candidate.cert_pos) {
            Err(error) => {
                let log: Vec<LogItem> = Vec::new();
                assert(log.deep_view() =~= Seq::empty());
                Verification::Finished(Outcome { result: Err(error), log })
            },
            Ok(chain) => {
                let mut so_far: Vec<LogItem> = Vec::new();
                so_far.push(log[0].copy());
                assert(so_far.deep_view() =~= seq![item@]);
                let request: TrustRequest = TrustRequest {
                    chain,
                    valid_eku: TIMESTAMP_OID_STR.to_string(),
                    signing_time: time::generalized_time_to_datetime(
                        candidate.tst.gen_time,
                    ).timestamp(),
                    tst: candidate.tst,
                    log: so_far,
                };
                let trial: Trial = Trial { request, common_name: candidate.common_name };
                Verification::Pending(
                    Pending { context: self, position, phase: Phase::Profile(trial), log },
                )
            },
        }
    }
}

/// Ends a verification with an error before any signer was looked at.
fn refuse<'a>(message: &str, code: &str) -> (verification: Verification<'a>)
    ensures
        verification.deep_view() == refused(message@, code@),
{
    let mut log: Vec<LogItem> = Vec::new();
    log.push(LogItem::informational("could not parse timestamp data", code));
    assert(log.deep_view() =~= seq![status::finding("could not parse timestamp data"@, code@)]);
    Verification::Finished(Outcome { result: Err(TimeStampError::decode(message)), log })
}

impl<'a> Verification<'a> {
    /// Starts the verification of signed data.
    pub fn begin_with(signed: Option<SignedData>, data: &'a [u8], verify_trust: bool) -> (started:
        Verification<'a>)
        ensures
            started.deep_view() == begun_with(signed.deep_view(), data@, verify_trust),
    {
        let Some(sd) = signed else {
            return refuse("unable to find signed data", status::TIMESTAMP_MALFORMED);
        };
        let Some(certs) = sd.certificates else {
            return refuse("time stamp contains no certificates", status::TIMESTAMP_UNTRUSTED);
        };
        let members: &[CertificateChoice] = certs.as_slice();
        assert(members.deep_view() =~= certs.deep_view());
        let Some(cert_ders) = signer::collect_encodings(members) else {
            return refuse(
                "time stamp certificate could not be processed",
                status::TIMESTAMP_UNTRUSTED,
            );
        };
        let context: Context = Context {
            content: sd.encap_content_info,
            certs,
            cert_ders,
            signer_infos: sd.signer_infos,
            data,
            verify_trust,
        };
        let log: Vec<LogItem> = Vec::new();
        assert(log.deep_view() =~= Seq::empty());
        context.next_signer(0, TimeStampError::InvalidData, log)
    }

    /// Starts the verification of a time stamp.
    pub fn begin(ts: &[u8], data: &'a [u8], verify_trust: bool) -> (started: Verification<'a>)
        ensures
            started.deep_view() == begun(ts@, data@, verify_trust),
    {
        let signed: Option<SignedData> = match cms::signed_data_from_time_stamp_response(ts) {
            Ok(signed) => signed,
            Err(_) => None,
        };
        Verification::begin_with(signed, data, verify_trust)
    }

    /// Goes on with what became of the signature that the verification waits for.
    pub fn on_signature(self, outcome: SignatureOutcome) -> (next: Verification<'a>)
        ensures
            next.deep_view() == with_signature(self.deep_view(), outcome),
    {
        match self {
            Verification::Pending(
                Pending { context, position, phase: Phase::Signature(candidate), .. },
            ) => {
                if validate_timestamp_sig(outcome).is_ok() {
                    return context.accept_signature(position, candidate);
                }
                let item: LogItem = LogItem::informational(
                    "timestamp signed data did not match signature",
                    status::TIMESTAMP_UNTRUSTED,
                );
                let mut log: Vec<LogItem> = Vec::new();
                log.push(item);
                assert(log.deep_view() =~= seq![item@]);
                context.after(position, TimeStampError::Untrusted, log)
            },
            other => other,
        }
    }

    /// Goes on with what became of the check of the certificate against the profile of time stamp
    /// certificates that the verification waits for.
    pub fn on_profile(self, outcome: ProfileOutcome) -> (next: Verification<'a>)
        ensures
            next.deep_view() == with_profile(self.deep_view(), outcome.deep_view()),
    {
        match self {
            Verification::Pending(
                Pending { context, position, phase: Phase::Profile(trial), log },
            ) => {
                let mut log: Vec<LogItem> = log;
                let mut added: Vec<LogItem> = outcome.log;
                let ghost before: Seq<status::LogItemView> = log.deep_view();
                let ghost after: Seq<status::LogItemView> = added.deep_view();
                log.append(&mut added);
                assert(log.deep_view() =~= before + after);
                if outcome.passed {
                    Verification::Pending(
                        Pending { context, position, phase: Phase::Trust(trial), log },
                    )
                } else {
                    context.distrust(position, trial, log)
                }
            },
            other => other,
        }
    }

    /// Goes on with whether the certificate that the verification waits for is trusted.
    pub fn on_trust(self, trusted: bool) -> (next: Verification<'a>)
        ensures
            next.deep_view() == with_trust(self.deep_view(), trusted),
    {
        match self {
            Verification::Pending(
                Pending { context, position, phase: Phase::Trust(trial), log },
            ) => {
                if !trusted {
                    return context.distrust(position, trial, log);
                }
                let mut log: Vec<LogItem> = log;
                let ghost before: Seq<status::LogItemView> = log.deep_view();
                let description: String = examine::join(
                    "timestamp cert trusted: ",
                    trial.common_name.as_str(),
                );
                let item: LogItem = LogItem::success(
                    description.as_str(),
                    status::TIMESTAMP_TRUSTED,
                );
                log.push(item);
                assert(log.deep_view() =~= before.push(item@));
                Verification::Finished(Outcome { result: Ok(trial.request.tst), log })
            },
            other => other,
        }
    }
}

/// What is answered on a signer.
pub struct Replies {
    /// What became of its signature.
    pub signature: SignatureOutcome,
    /// Whether its certificate fits the profile of time stamp certificates.
    pub profile: ProfileOutcomeView,
    /// Whether its certificate is trusted.
    pub trust: bool,
}

/// What a verification does with the answer that it waits for.
pub open spec fn answered(pending: PendingView, replies: Replies) -> VerificationView {
    let verification: VerificationView = VerificationView::Pending(pending);
    match pending.phase {
        PhaseView::Signature(_) => with_signature(verification, replies.signature),
        PhaseView::Profile(_) => with_profile(verification, replies.profile),
        PhaseView::Trust(_) => with_trust(verification, replies.trust),
    }
}

/// A bound on how many answers a verification waits for.
pub open spec fn answers_left(verification: VerificationView) -> nat {
    match verification {
        VerificationView::Finished(_) => 0,
        VerificationView::Pending(pending) => {
            let n: int = pending.context.signer_infos.len() as int;
            let signers: int = if pending.position < n {
                n - pending.position
            } else {
                0
            };
            let steps: int = match pending.phase {
                PhaseView::Signature(_) => 3,
                PhaseView::Profile(_) => 2,
                PhaseView::Trust(_) => 1,
            };
            (3 * signers + steps) as nat
        },
    }
}

/// A verification that goes on with a signer waits for the signature of that one or a later one,
/// or has ended.
pub proof fn next_signer_waits_for_a_candidate(
    cx: ContextView,
    i: int,
    error: error::TimeStampErrorView,
    log: Seq<status::LogItemView>,
)
    ensures
        next_signer(cx, i, error, log) matches VerificationView::Pending(pending) ==> {
            &&& pending.context == cx
            &&& i <= pending.position < cx.signer_infos.len()
            &&& pending.phase is Signature
            &&& pending.log.len() == 0
            &&& ExaminedView::Candidate(pending.phase->Signature_0) == examined(
                cx,
                cx.signer_infos[pending.position],
            )
        },
    decreases cx.signer_infos.len() - i,
{
    if i < cx.signer_infos.len() {
        match examined(cx, cx.signer_infos[i]) {
            ExaminedView::Skipped => {
                next_signer_waits_for_a_candidate(cx, i + 1, error, Seq::empty());
            },
            ExaminedView::Rejected(rejection) => {
                next_signer_waits_for_a_candidate(cx, i + 1, rejection.error, seq![rejection.item]);
            },
            ExaminedView::Candidate(_) => {},
        }
    }
}

/// With each answer a verification comes closer to its end, or to a later signer.
pub proof fn answers_make_progress(pending: PendingView, replies: Replies)
    ensures
        answers_left(answered(pending, replies)) < answers_left(VerificationView::Pending(pending)),
        answered(pending, replies) matches VerificationView::Pending(next) ==> {
            &&& next.context == pending.context
            &&& next.position >= pending.position
            &&& next.position == pending.position ==> {
                ||| {
                    &&& pending.phase is Signature
                    &&& pending.context.verify_trust
                    &&& next.phase matches PhaseView::Profile(trial)
                    &&& trial.request.valid_eku == TIMESTAMP_OID_STR@
                }
                ||| {
                    &&& pending.phase matches PhaseView::Profile(trial)
                    &&& next.phase == PhaseView::Trust(trial)
                }
            }
            &&& next.position > pending.position ==> next.phase is Signature
        },
{
    let cx: ContextView = pending.context;
    let i: int = pending.position + 1;
    match pending.phase {
        PhaseView::Signature(candidate) => {
            next_signer_waits_for_a_candidate(
                cx,
                i,
                error::TimeStampErrorView::Untrusted,
                seq![
                    status::finding(
                        "timestamp signed data did not match signature"@,
                        status::TIMESTAMP_UNTRUSTED@,
                    ),
                ],
            );
            if let Err(rejection) = examine::imprint_verdict(
                candidate,
                examine::digest_under(candidate.tst.message_imprint.hash_algorithm, cx.data),
            ) {
                next_signer_waits_for_a_candidate(cx, i, rejection.error, seq![rejection.item]);
            }
        },
        PhaseView::Profile(trial) => {
            let log: Seq<status::LogItemView> = (pending.log + replies.profile.log).push(
                status::finding(
                    "timestamp cert untrusted: "@ + trial.common_name,
                    status::TIMESTAMP_UNTRUSTED@,
                ),
            );
            next_signer_waits_for_a_candidate(cx, i, error::TimeStampErrorView::Untrusted, log);
        },
        PhaseView::Trust(trial) => {
            let log: Seq<status::LogItemView> = pending.log.push(
                status::finding(
                    "timestamp cert untrusted: "@ + trial.common_name,
                    status::TIMESTAMP_UNTRUSTED@,
                ),
            );
            next_signer_waits_for_a_candidate(cx, i, error::TimeStampErrorView::Untrusted, log);
        },
    }
}

/// The end of a verification that gets the given answers, each on the signer at a position.
pub open spec fn run(verification: VerificationView, replies: spec_fn(int) -> Replies) -> OutcomeView
    decreases answers_left(verification),
{
    match verification {
        VerificationView::Finished(outcome) => outcome,
        VerificationView::Pending(pending) => {
            proof {
                answers_make_progress(pending, replies(pending.position));
            }
            run(answered(pending, replies(pending.position)), replies)
        },
    }
}

/// The checks that a verification leaves to others.
pub struct Checks<S, P, T> {
    /// Checks a signature.
    pub signature: S,
    /// Checks the first certificate of a chain against the profile of time stamp certificates.
    pub profile: P,
    /// Checks whether the first certificate of a chain is trusted.
    pub trust: T,
}

impl<
    S: Fn(&SignatureRequest) -> SignatureOutcome,
    P: Fn(&TrustRequest) -> ProfileOutcome,
    T: Fn(&TrustRequest) -> bool,
> Checks<S, P, T> {
    /// The checks can be made on anything.
    pub open spec fn total(self) -> bool {
        &&& forall|request: &SignatureRequest| #[trigger]
            call_requires(self.signature, (request,))
        &&& forall|request: &TrustRequest| #[trigger] call_requires(self.profile, (request,))
        &&& forall|request: &TrustRequest| #[trigger] call_requires(self.trust, (request,))
    }

    /// The check of a signature can end like that.
    pub open spec fn signature_reports(
        self,
        request: examine::SignatureRequestView,
        outcome: SignatureOutcome,
    ) -> bool {
        exists|r: SignatureRequest|
            r.deep_view() == request && #[trigger] call_ensures(self.signature, (&r,), outcome)
    }

    /// The check of a certificate against the profile can end like that.
    pub open spec fn profile_reports(
        self,
        request: TrustRequestView,
        outcome: ProfileOutcomeView,
    ) -> bool {
        exists|r: TrustRequest, o: ProfileOutcome|
            r.deep_view() == request && o.deep_view() == outcome && #[trigger] call_ensures(
                self.profile,
                (&r,),
                o,
            )
    }

    /// The check of whether a certificate is trusted can end like that.
    pub open spec fn trust_reports(self, request: TrustRequestView, trusted: bool) -> bool {
        exists|r: TrustRequest|
            r.deep_view() == request && #[trigger] call_ensures(self.trust, (&r,), trusted)
    }

    /// The check of a certificate against the profile never writes a status code into the log.
    pub open spec fn profile_never_writes(self, code: Seq<char>) -> bool {
        forall|r: TrustRequest, o: ProfileOutcome| #[trigger]
            call_ensures(self.profile, (&r,), o) ==> !status::log_has_status(
                o.deep_view().log,
                code,
            )
    }

    /// A check can give the answer that a verification waits for.
    pub open spec fn can_answer(self, pending: PendingView, replies: Replies) -> bool {
        match pending.phase {
            PhaseView::Signature(candidate) => self.signature_reports(
                candidate.request,
                replies.signature,
            ),
            PhaseView::Profile(trial) => self.profile_reports(trial.request, replies.profile),
            PhaseView::Trust(trial) => self.trust_reports(trial.request, replies.trust),
        }
    }

    /// The checks can give all the answers that a verification waits for until it ends.
    pub open spec fn can_give(
        self,
        verification: VerificationView,
        replies: spec_fn(int) -> Replies,
    ) -> bool
        decreases answers_left(verification),
    {
        match verification {
            VerificationView::Finished(_) => true,
            VerificationView::Pending(pending) => {
                proof {
                    answers_make_progress(pending, replies(pending.position));
                }
                &&& self.can_answer(pending, replies(pending.position))
                &&& self.can_give(answered(pending, replies(pending.position)), replies)
            },
        }
    }

    /// With answers that the checks can give, a verification ends like that.
    pub open spec fn can_end_with(
        self,
        verification: VerificationView,
        outcome: OutcomeView,
    ) -> bool {
        exists|replies: spec_fn(int) -> Replies| #[trigger]
            self.can_give(verification, replies) && outcome == run(verification, replies)
    }
}

/// Two tables agree on the answers that a verification no longer waits for.
spec fn agree_so_far(
    a: spec_fn(int) -> Replies,
    b: spec_fn(int) -> Replies,
    verification: VerificationView,
) -> bool {
    match verification {
        VerificationView::Finished(_) => a == b,
        VerificationView::Pending(pending) => {
            let i: int = pending.position;
            &&& forall|j: int| j < i ==> #[trigger] a(j) == b(j)
            &&& pending.phase is Signature || a(i).signature == b(i).signature
            &&& pending.phase is Trust ==> a(i).profile == b(i).profile
        },
    }
}

/// A table with the answers on one signer replaced.
spec fn updated(table: spec_fn(int) -> Replies, i: int, replies: Replies) -> spec_fn(int) -> Replies {
    |j: int|
        if j == i {
            replies
        } else {
            table(j)
        }
}

/// A verification has come from its start with the answers in the table: whatever the answers
/// that follow, both end the same.
spec fn tracks<
    S: Fn(&SignatureRequest) -> SignatureOutcome,
    P: Fn(&TrustRequest) -> ProfileOutcome,
    T: Fn(&TrustRequest) -> bool,
>(
    checks: Checks<S, P, T>,
    start: VerificationView,
    now: VerificationView,
    table: spec_fn(int) -> Replies,
) -> bool {
    forall|t: spec_fn(int) -> Replies| #[trigger]
        agree_so_far(t, table, now) ==> {
            &&& run(start, t) == run(now, t)
            &&& checks.can_give(now, t) ==> checks.can_give(start, t)
        }
}

/// One more answer, put into the table.
proof fn lemma_tracks_on<
    S: Fn(&SignatureRequest) -> SignatureOutcome,
    P: Fn(&TrustRequest) -> ProfileOutcome,
    T: Fn(&TrustRequest) -> bool,
>(
    checks: Checks<S, P, T>,
    start: VerificationView,
    pending: PendingView,
    table: spec_fn(int) -> Replies,
    replies: Replies,
)
    requires
        tracks(checks, start, VerificationView::Pending(pending), table),
        checks.can_answer(pending, replies),
        pending.phase is Signature || replies.signature == table(pending.position).signature,
        pending.phase is Trust ==> replies.profile == table(pending.position).profile,
    ensures
        tracks(
            checks,
            start,
            answered(pending, replies),
            updated(table, pending.position, replies),
        ),
{
    let i: int = pending.position;
    let now: VerificationView = VerificationView::Pending(pending);
    let next: VerificationView = answered(pending, replies);
    let longer: spec_fn(int) -> Replies = updated(table, i, replies);
    answers_make_progress(pending, replies);
    assert forall|t: spec_fn(int) -> Replies| #[trigger] agree_so_far(t, longer, next) implies run(
        start,
        t,
    ) == run(next, t) && (checks.can_give(next, t) ==> checks.can_give(start, t)) by {
        assert(longer(i) == replies);
        assert forall|j: int| j < i implies #[trigger] t(j) == table(j) by {
            assert(longer(j) == table(j));
        }
        if let VerificationView::Pending(after) = next {
            if after.position > i {
                assert(t(i) == longer(i));
            }
        }
        assert(agree_so_far(t, table, now));
        assert(answered(pending, t(i)) == next);
        assert(checks.can_answer(pending, t(i)));
        assert(run(now, t) == run(next, t));
    }
}

/// Decodes a time stamp and verifies it against the data that it was made for, with the given
/// checks of signatures and certificates.
///
/// The signers of the token are looked at one after the other, and the first one that is
/// accepted decides. Where `verify_trust` is not set, the certificate of the signer is not
/// checked. The log gets the entries on the signer that was looked at last.
pub fn verify_time_stamp<
    S: Fn(&SignatureRequest) -> SignatureOutcome,
    P: Fn(&TrustRequest) -> ProfileOutcome,
    T: Fn(&TrustRequest) -> bool,
>(
    ts: &[u8],
    data: &[u8],
    checks: &Checks<S, P, T>,
    validation_log: &mut StatusTracker,
    verify_trust: bool,
) -> (result: Result<TstInfo, TimeStampError>)
    requires
        checks.total(),
    ensures
        exists|outcome: OutcomeView|
            {
                &&& #[trigger] checks.can_end_with(begun(ts@, data@, verify_trust), outcome)
                &&& error::result_view(result) == outcome.result
                &&& final(validation_log)@ == old(validation_log)@ + outcome.log
            },
        result is Ok ==> status::log_has_status(
            final(validation_log)@,
            status::TIMESTAMP_VALIDATED@,
        ),
        result is Ok && verify_trust ==> status::log_has_status(
            final(validation_log)@,
            status::TIMESTAMP_TRUSTED@,
        ),
        !verify_trust && status::log_has_status(final(validation_log)@, status::TIMESTAMP_TRUSTED@)
            ==> status::log_has_status(old(validation_log)@, status::TIMESTAMP_TRUSTED@),
        laws::is_honest_log(
            *checks,
            verify_trust,
            result is Ok,
            status::added_entries(old(validation_log)@, final(validation_log)@),
        ),
        checks.profile_never_writes(status::TIMESTAMP_TRUSTED@) ==> (status::log_has_status(
            status::added_entries(old(validation_log)@, final(validation_log)@),
            status::TIMESTAMP_TRUSTED@,
        ) <==> verify_trust && result is Ok),
        result is Ok ==> laws::reports_one_success(
            *checks,
            verify_trust,
            status::added_entries(old(validation_log)@, final(validation_log)@),
        ),
        result matches Ok(tst) ==> acceptance::imprint_covers(tst.deep_view(), data@),
        result matches Ok(tst) ==> acceptance::is_information_in(ts@, tst.deep_view()),
        result matches Ok(tst) ==> acceptance::was_made_in_time(ts@, tst.deep_view()),
{
    let mut verification: Verification = Verification::begin(ts, data, verify_trust);
    let ghost start: VerificationView = begun(ts@, data@, verify_trust);
    let ghost mut table: spec_fn(int) -> Replies = |i: int| arbitrary();
    loop
        invariant
            checks.total(),
            start == begun(ts@, data@, verify_trust),
            tracks(*checks, start, verification.deep_view(), table),
            validation_log@ == old(validation_log)@,
        decreases answers_left(verification.deep_view()),
    {
        match verification {
            Verification::Finished(outcome) => {
                assert(agree_so_far(table, table, verification.deep_view()));
                assert(checks.can_give(start, table));
                assert(checks.can_end_with(start, outcome.deep_view()));
                proof {
                    laws::codes_in_the_log(ts@, data@, verify_trust, table);
                    let added: OutcomeView = outcome.deep_view();
                    assert(status::added_entries(
                        validation_log@,
                        validation_log@ + added.log,
                    ) =~= added.log);
                    laws::every_log_is_honest(*checks, ts@, data@, verify_trust, added);
                    if checks.profile_never_writes(status::TIMESTAMP_TRUSTED@) {
                        laws::trusted_code_exactly_when_accepted_with_trust(
                            *checks,
                            ts@,
                            data@,
                            verify_trust,
                            added,
                        );
                    }
                    if let Ok(tst) = added.result {
                        acceptance::accepted_time_stamps_fit(
                            *checks,
                            ts@,
                            data@,
                            verify_trust,
                            added,
                            tst,
                        );
                        laws::an_accepted_log_reports_one_success(
                            *checks,
                            ts@,
                            data@,
                            verify_trust,
                            added,
                        );
                    }
                    status::joined_logs_carry_both_codes(
                        validation_log@,
                        outcome.deep_view().log,
                        status::TIMESTAMP_VALIDATED@,
                    );
                    status::joined_logs_carry_both_codes(
                        validation_log@,
                        outcome.deep_view().log,
                        status::TIMESTAMP_TRUSTED@,
                    );
                }
                validation_log.append(outcome.log);
                return outcome.result;
            },
            Verification::Pending(pending) => {
                let ghost view: PendingView = pending.deep_view();
                let ghost known: Replies = table(view.position);
                if let Phase::Signature(candidate) = &pending.phase {
                    let outcome: SignatureOutcome = (checks.signature)(&candidate.request);
                    let ghost replies: Replies = Replies { signature: outcome, ..known };
                    proof {
                        assert(checks.can_answer(view, replies));
                        lemma_tracks_on(*checks, start, view, table, replies);
                        answers_make_progress(view, replies);
                        table = updated(table, view.position, replies);
                    }
                    verification = Verification::Pending(pending).on_signature(outcome);
                } else if let Phase::Profile(trial) = &pending.phase {
                    let outcome: ProfileOutcome = (checks.profile)(&trial.request);
                    let ghost replies: Replies = Replies {
                        profile: outcome.deep_view(),
                        ..known
                    };
                    proof {
                        assert(checks.profile_reports(
                            trial.request.deep_view(),
                            outcome.deep_view(),
                        ));
                        assert(checks.can_answer(view, replies));
                        lemma_tracks_on(*checks, start, view, table, replies);
                        answers_make_progress(view, replies);
                        table = updated(table, view.position, replies);
                    }
                    verification = Verification::Pending(pending).on_profile(outcome);
                } else if let Phase::Trust(trial) = &pending.phase {
                    let trusted: bool = (checks.trust)(&trial.request);
                    let ghost replies: Replies = Replies { trust: trusted, ..known };
                    proof {
                        assert(checks.can_answer(view, replies));
                        lemma_tracks_on(*checks, start, view, table, replies);
                        answers_make_progress(view, replies);
                        table = updated(table, view.position, replies);
                    }
                    verification = Verification::Pending(pending).on_trust(trusted);
                } else {
                    verification = Verification::Pending(pending);
                }
            },
        }
    }
}

} // verus!
