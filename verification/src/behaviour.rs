//! What the functions of the library return for the values that they are given.

use vstd::prelude::*;

use crate::chain::{self, CertificateNames};
use crate::cms::{
    self, Accuracy, Attribute, CertificateChoice, CertificateIdentity, CertificateKey, Extension,
    MessageImprint, SignedAttributes, SignedContent, SignedData, Signer, SignerIdentifier,
    SignerInfo, Token, TstHead, TstInfo, TstTail,
};
use crate::digest::{self, DigestAlgorithm, Hasher, HasherOutput};
use crate::error::{self, TimeStampError};
use crate::examine::{self, Candidate, EncodeError, Evidence, Rejection, SignatureRequest};
use crate::meaning;
use crate::oid::{self, Oid};
use crate::signer::{self, SignerCerts};
use crate::status::{self, LogItem, StatusTracker};
use crate::text;
use crate::time::{self, DateTime, GeneralizedTime, Time};
use crate::verify::{
    self, Context, Examined, Outcome, Pending, Phase, ProfileOutcome, SignatureOutcome, Trial,
    TrustRequest, ValidatorChoice, Verification,
};

verus! {

// Values as sequences.

/// Optional octets and arcs are there as sequences exactly when they are there, and nothing is
/// lost of them.
pub proof fn optional_values_are_seen_as_they_are(octets: Vec<u8>, arcs: Vec<u32>)
    ensures
        cms::octets_of(Some(octets)) == Some(octets@),
        cms::octets_of(None) is None,
        cms::arcs_of(Some(arcs)) == Some(arcs@),
        cms::arcs_of(None) is None,
        cms::encoding_of(Some(Some(octets))) == Some(Some(octets@)),
        cms::encoding_of(Some(None)) == Some(None::<Seq<u8>>),
        cms::encoding_of(None) is None,
{
}

/// Nothing is lost of a token and of the content of signed data.
pub proof fn tokens_are_seen_as_they_are(token: Token, content: SignedContent)
    ensures
        token.deep_view().content_type == token.content_type@,
        token.deep_view().content == token.content@,
        content.deep_view().content_type == content.content_type@,
        content.deep_view().content == cms::octets_of(content.content),
{
}

/// Nothing is lost of a certificate.
pub proof fn certificates_are_seen_as_they_are(
    extension: Extension,
    identity: CertificateIdentity,
    key: CertificateKey,
    choice: CertificateChoice,
)
    ensures
        extension.deep_view().extn_id == extension.extn_id@,
        extension.deep_view().extn_value == extension.extn_value@,
        identity.deep_view().issuer == identity.issuer.deep_view(),
        identity.deep_view().serial_number == identity.serial_number@,
        identity.deep_view().extensions == identity.extensions.deep_view(),
        key.deep_view().encoded == cms::octets_of(key.encoded),
        key.deep_view().algorithm == key.algorithm@,
        key.deep_view().not_before == key.not_before,
        key.deep_view().not_after == key.not_after,
        choice.deep_view().encoded == cms::octets_of(choice.encoded),
        choice.deep_view().identity == choice.identity.deep_view(),
        choice.deep_view().key == choice.key.deep_view(),
{
}

/// Nothing is lost of a signer.
pub proof fn signers_are_seen_as_they_are(
    sid: SignerIdentifier,
    attribute: Attribute,
    attributes: SignedAttributes,
    signer: Signer,
    info: SignerInfo,
)
    ensures
        match sid {
            SignerIdentifier::IssuerAndSerialNumber { issuer, serial_number } => sid.deep_view()
                == (cms::SignerIdentifierView::IssuerAndSerialNumber {
                issuer: issuer.deep_view(),
                serial_number: serial_number@,
            }),
            SignerIdentifier::SubjectKeyIdentifier(id) => sid.deep_view()
                == cms::SignerIdentifierView::SubjectKeyIdentifier(id@),
        },
        attribute.deep_view().attribute_type == cms::arcs_of(attribute.attribute_type),
        attribute.deep_view().values == attribute.values.deep_view(),
        attributes.deep_view().attributes == attributes.attributes.deep_view(),
        match attributes.encoded {
            Ok(encoded) => attributes.deep_view().encoded == Ok::<Seq<u8>, Seq<char>>(encoded@),
            Err(message) => attributes.deep_view().encoded == Err::<Seq<u8>, Seq<char>>(message@),
        },
        signer.deep_view().sid == signer.sid.deep_view(),
        signer.deep_view().digest_algorithm == signer.digest_algorithm@,
        signer.deep_view().signature == signer.signature@,
        info.deep_view().sid == info.sid.deep_view(),
        info.deep_view().digest_algorithm == info.digest_algorithm@,
        info.deep_view().signed_attrs == info.signed_attrs.deep_view(),
        info.deep_view().signature == info.signature@,
{
}

/// Nothing is lost of signed data.
pub proof fn signed_data_is_seen_as_it_is(data: SignedData)
    ensures
        data.deep_view().encap_content_info == data.encap_content_info.deep_view(),
        data.deep_view().certificates == data.certificates.deep_view(),
        data.deep_view().signer_infos == data.signer_infos.deep_view(),
{
}

/// Nothing is lost of time stamp information.
pub proof fn information_is_seen_as_it_is(
    imprint: MessageImprint,
    accuracy: Accuracy,
    head: TstHead,
    tail: TstTail,
    info: TstInfo,
)
    ensures
        imprint.deep_view().hash_algorithm == imprint.hash_algorithm@,
        imprint.deep_view().hash_parameters == cms::octets_of(imprint.hash_parameters),
        imprint.deep_view().hashed_message == imprint.hashed_message@,
        accuracy.deep_view().seconds == accuracy.seconds.deep_view(),
        accuracy.deep_view().millis == accuracy.millis.deep_view(),
        accuracy.deep_view().micros == accuracy.micros.deep_view(),
        head.deep_view().version == head.version@,
        head.deep_view().policy == head.policy@,
        head.deep_view().message_imprint == head.message_imprint.deep_view(),
        head.deep_view().serial_number == head.serial_number@,
        head.deep_view().gen_time == head.gen_time,
        head.deep_view().ordering == head.ordering,
        head.deep_view().nonce == head.nonce.deep_view(),
        tail.deep_view().accuracy == tail.accuracy.deep_view(),
        tail.deep_view().tsa == cms::encoding_of(tail.tsa),
        tail.deep_view().extensions == cms::encoding_of(tail.extensions),
        info.deep_view().version == info.version@,
        info.deep_view().policy == info.policy@,
        info.deep_view().message_imprint == info.message_imprint.deep_view(),
        info.deep_view().serial_number == info.serial_number@,
        info.deep_view().gen_time == info.gen_time,
        info.deep_view().accuracy == info.accuracy.deep_view(),
        info.deep_view().ordering == info.ordering,
        info.deep_view().nonce == info.nonce.deep_view(),
        info.deep_view().tsa == cms::encoding_of(info.tsa),
        info.deep_view().extensions == cms::encoding_of(info.extensions),
{
}

/// Nothing is lost of the names in a certificate.
pub proof fn names_are_seen_as_they_are(names: CertificateNames)
    ensures
        names.deep_view().issuer == names.issuer@,
        names.deep_view().subject == names.subject@,
        names.deep_view().common_names == names.common_names.deep_view(),
{
}

/// Positions are as many numbers, the same ones, and so are lists of names.
pub proof fn positions_are_seen_as_they_are(positions: Seq<usize>, names: Seq<CertificateNames>)
    ensures
        chain::positions_view(positions).len() == positions.len(),
        forall|k: int|
            0 <= k < positions.len() ==> #[trigger] chain::positions_view(positions)[k]
                == positions[k],
        chain::names_view(names).len() == names.len(),
        forall|k: int|
            0 <= k < names.len() ==> #[trigger] chain::names_view(names)[k]
                == names[k].deep_view(),
{
}

/// Nothing is lost of an identifier, or of the certificates that a signer is found in.
pub proof fn identifiers_are_seen_as_they_are(id: Oid, certs: SignerCerts)
    ensures
        id@.octets == id.octets@,
        id@.dotted == id.dotted@,
        id.deep_view() == id@,
        certs.deep_view().0 == certs.cert_ders.deep_view(),
        certs.deep_view().1 == certs.cert_pos,
{
}

/// Nothing is lost of an error.
pub proof fn errors_are_seen_as_they_are(
    error: TimeStampError,
    encode: EncodeError,
    rejection: Rejection,
)
    ensures
        match error {
            TimeStampError::DecodeError(message) => error@ == error::TimeStampErrorView::DecodeError(
                message@,
            ),
            TimeStampError::InvalidData => error@ is InvalidData,
            TimeStampError::Untrusted => error@ is Untrusted,
            TimeStampError::ExpiredCertificate => error@ is ExpiredCertificate,
            TimeStampError::UnsupportedAlgorithm => error@ is UnsupportedAlgorithm,
        },
        encode@.message == encode.message@,
        rejection.deep_view().error == rejection.error@,
        rejection.deep_view().item == rejection.item@,
{
}

/// Results keep what they hold.
pub proof fn results_are_seen_as_they_are<T: DeepView>(
    value: T,
    error: TimeStampError,
    rejection: Rejection,
)
    ensures
        error::result_view(Ok::<T, TimeStampError>(value)) == Ok::<
            T::V,
            error::TimeStampErrorView,
        >(value.deep_view()),
        error::result_view(Err::<T, TimeStampError>(error)) == Err::<
            T::V,
            error::TimeStampErrorView,
        >(error@),
        examine::verdict_view(Ok::<T, Rejection>(value)) == Ok::<T::V, examine::RejectionView>(
            value.deep_view(),
        ),
        examine::verdict_view(Err::<T, Rejection>(rejection)) == Err::<
            T::V,
            examine::RejectionView,
        >(rejection.deep_view()),
        digest::supported(Err(())) is None,
        forall|algorithm: DigestAlgorithm| #[trigger]
            digest::supported(Ok(algorithm)) == Some(algorithm),
{
}

/// Nothing is lost of a log.
pub proof fn log_entries_are_seen_as_they_are(item: LogItem, tracker: StatusTracker)
    ensures
        item@.kind == item.kind,
        item@.label == item.label@,
        item@.description == item.description@,
        item@.function == item.function@,
        item@.validation_status == item.validation_status.deep_view(),
        item.deep_view() == item@,
        tracker@ == tracker.logged_items.deep_view(),
{
}

/// Nothing is lost of what is read of a signer and kept of it.
pub proof fn candidates_are_seen_as_they_are(
    request: SignatureRequest,
    evidence: Evidence,
    candidate: Candidate,
)
    ensures
        request.deep_view().sig_alg == request.sig_alg@,
        request.deep_view().hash_alg == request.hash_alg@,
        request.deep_view().sig_val == request.sig_val@,
        request.deep_view().tbs == request.tbs@,
        request.deep_view().signing_key_der == request.signing_key_der@,
        evidence.deep_view().common_name == evidence.common_name@,
        evidence.deep_view().tst == evidence.tst.deep_view(),
        evidence.deep_view().signed_time == evidence.signed_time,
        evidence.deep_view().signed_digest == cms::octets_of(evidence.signed_digest),
        evidence.deep_view().computed_digest == cms::octets_of(evidence.computed_digest),
        evidence.deep_view().hash_alg == evidence.hash_alg.deep_view(),
        evidence.deep_view().sig_alg == evidence.sig_alg.deep_view(),
        candidate.deep_view().request == candidate.request.deep_view(),
        candidate.deep_view().tst == candidate.tst.deep_view(),
        candidate.deep_view().cert_pos == candidate.cert_pos,
        candidate.deep_view().common_name == candidate.common_name@,
        candidate.deep_view().not_before == candidate.not_before,
        candidate.deep_view().not_after == candidate.not_after,
{
}

/// Nothing is lost of a verification.
pub proof fn verifications_are_seen_as_they_are(
    context: Context,
    request: TrustRequest,
    trial: Trial,
    pending: Pending,
    profile: ProfileOutcome,
    outcome: Outcome,
    phase: Phase,
    verification: Verification,
    look: Examined,
)
    ensures
        context.deep_view().content == context.content.deep_view(),
        context.deep_view().certs == context.certs.deep_view(),
        context.deep_view().cert_ders == context.cert_ders.deep_view(),
        context.deep_view().signer_infos == context.signer_infos.deep_view(),
        context.deep_view().data == context.data@,
        context.deep_view().verify_trust == context.verify_trust,
        request.deep_view().chain == request.chain.deep_view(),
        request.deep_view().valid_eku == request.valid_eku@,
        request.deep_view().signing_time == request.signing_time,
        request.deep_view().tst == request.tst.deep_view(),
        request.deep_view().log == request.log.deep_view(),
        trial.deep_view().request == trial.request.deep_view(),
        trial.deep_view().common_name == trial.common_name@,
        pending.deep_view().context == pending.context.deep_view(),
        pending.deep_view().position == pending.position,
        pending.deep_view().phase == pending.phase.deep_view(),
        pending.deep_view().log == pending.log.deep_view(),
        profile.deep_view().passed == profile.passed,
        profile.deep_view().log == profile.log.deep_view(),
        match outcome.result {
            Ok(tst) => outcome.deep_view().result == Ok::<
                cms::TstInfoView,
                error::TimeStampErrorView,
            >(tst.deep_view()),
            Err(error) => outcome.deep_view().result == Err::<
                cms::TstInfoView,
                error::TimeStampErrorView,
            >(error@),
        },
        outcome.deep_view().log == outcome.log.deep_view(),
        match phase {
            Phase::Signature(candidate) => phase.deep_view() == verify::PhaseView::Signature(
                candidate.deep_view(),
            ),
            Phase::Profile(trial) => phase.deep_view() == verify::PhaseView::Profile(
                trial.deep_view(),
            ),
            Phase::Trust(trial) => phase.deep_view() == verify::PhaseView::Trust(trial.deep_view()),
        },
        match verification {
            Verification::Pending(pending) => verification.deep_view()
                == verify::VerificationView::Pending(pending.deep_view()),
            Verification::Finished(outcome) => verification.deep_view()
                == verify::VerificationView::Finished(outcome.deep_view()),
        },
        match look {
            Examined::Skipped => look.deep_view() is Skipped,
            Examined::Rejected(rejection) => look.deep_view() == verify::ExaminedView::Rejected(
                rejection.deep_view(),
            ),
            Examined::Candidate(candidate) => look.deep_view() == verify::ExaminedView::Candidate(
                candidate.deep_view(),
            ),
        },
{
}

// Texts, times and digests.

/// A number is written in decimal.
pub proof fn numbers_are_written_in_decimal(n: u64, written: String)
    requires
        call_ensures(text::decimal, (n,), written),
    ensures
        meaning::value_of(written@) == n,
        written@.len() > 0,
        written@.len() > 1 ==> written@[0] != '0',
        forall|i: int|
            0 <= i < written@.len() ==> '0' as int <= (#[trigger] written@[i]) as int <= '9' as int,
{
    meaning::decimal_notation_stands_for_the_number(n as nat);
    if n == 0 {
        assert(text::decimal_text(0).len() == 1);
    }
}

/// An arc that is added to an identifier comes behind a dot at the end of its dotted form.
pub proof fn arcs_are_written_with_dots(
    arcs: &[u32],
    more: &[u32],
    arc: u32,
    written: String,
    longer: String,
    last: String,
)
    requires
        more@ == arcs@.push(arc),
        call_ensures(text::dotted, (arcs,), written),
        call_ensures(text::dotted, (more,), longer),
        call_ensures(text::decimal, (arc as u64,), last),
    ensures
        arcs@.len() == 0 ==> longer@ == last@,
        arcs@.len() > 0 ==> longer@ == written@ + seq!['.'] + last@,
{
    meaning::dotted_form_joins_the_arcs(arcs@, arc);
    if arcs@.len() == 0 {
        assert(more@ =~= seq![arc]);
    }
}

/// All numbers in a text fit 32 bits exactly when each run of digits in it stands for one that
/// does.
pub proof fn numbers_that_fit(written: &str, fits: bool)
    requires
        call_ensures(text::arcs_fit, (written,), fits),
    ensures
        fits <==> forall|i: int, j: int|
            #![trigger written@.subrange(i, j)]
            0 <= i <= j <= written@.len() && meaning::are_digits(written@.subrange(i, j))
                ==> meaning::value_of(written@.subrange(i, j)) <= 4_294_967_295,
{
    meaning::runs_of_digits_fit(written@);
}

/// A time stands for the same second in both encodings, and for the same fraction of it.
pub proof fn times_keep_their_seconds(t: Time, gt: GeneralizedTime, x: DateTime, y: DateTime)
    requires
        call_ensures(time::time_to_datetime, (t,), x),
        call_ensures(time::generalized_time_to_datetime, (gt,), y),
    ensures
        match t {
            Time::Utc(u) => x.seconds == u.seconds && x.nanos == u.nanos,
            Time::General(g) => x.seconds == g.seconds && x.nanos == g.nanos,
        },
        y.seconds == gt.seconds,
        y.nanos == gt.nanos,
{
}

/// There is a GeneralizedTime for a number of seconds exactly in the years 1970 to 9999, and it
/// is that second.
pub proof fn seconds_become_times(seconds: i64, made: Option<GeneralizedTime>)
    requires
        call_ensures(time::timestamp_to_generalized_time, (seconds,), made),
    ensures
        made is Some <==> 0 <= seconds <= 253_402_300_799,
        made matches Some(gt) ==> gt.seconds == seconds && gt.nanos == 0,
{
}

/// A digest is that of the whole message, under the algorithm that was chosen.
pub proof fn finished_digests_cover_the_message(hasher: Hasher, output: HasherOutput)
    requires
        call_ensures(Hasher::finish, (hasher,), output),
    ensures
        match hasher {
            Hasher::Sha1(message) => output.0@ == digest::sha1_digest(message@),
            Hasher::Sha256(message) => output.0@ == digest::sha256_digest(message@),
            Hasher::Sha384(message) => output.0@ == digest::sha384_digest(message@),
            Hasher::Sha512(message) => output.0@ == digest::sha512_digest(message@),
        },
{
}

/// A digest starts with an empty message, under the algorithm that was asked for.
pub proof fn digests_start_empty(algorithm: DigestAlgorithm, hasher: Hasher)
    requires
        call_ensures(DigestAlgorithm::digester, (algorithm,), hasher),
    ensures
        match hasher {
            Hasher::Sha1(message) => algorithm is Sha1 && message@.len() == 0,
            Hasher::Sha256(message) => algorithm is Sha256 && message@.len() == 0,
            Hasher::Sha384(message) => algorithm is Sha384 && message@.len() == 0,
            Hasher::Sha512(message) => algorithm is Sha512 && message@.len() == 0,
        },
{
}

/// What a digest in progress is about: the message that it holds.
pub proof fn hashers_are_seen_as_they_are(message: Vec<u8>, output: HasherOutput)
    ensures
        Hasher::Sha1(message).message() == message@,
        Hasher::Sha256(message).message() == message@,
        Hasher::Sha384(message).message() == message@,
        Hasher::Sha512(message).message() == message@,
        Hasher::Sha1(message).algorithm() is Sha1,
        Hasher::Sha256(message).algorithm() is Sha256,
        Hasher::Sha384(message).algorithm() is Sha384,
        Hasher::Sha512(message).algorithm() is Sha512,
        output@ == output.0@,
{
}

/// Octets stand for an algorithm exactly when they are those registered for it.
pub proof fn algorithms_are_told_by_their_octets(
    octets: &[u8],
    result: Result<DigestAlgorithm, ()>,
)
    requires
        call_ensures(DigestAlgorithm::from_octets, (octets,), result),
    ensures
        match result {
            Ok(DigestAlgorithm::Sha1) => octets@ == seq![0x2bu8, 0x0e, 0x03, 0x02, 0x1a],
            Ok(DigestAlgorithm::Sha256) => octets@ == seq![
                0x60u8,
                0x86,
                0x48,
                0x01,
                0x65,
                0x03,
                0x04,
                0x02,
                0x01,
            ],
            Ok(DigestAlgorithm::Sha384) => octets@ == seq![
                0x60u8,
                0x86,
                0x48,
                0x01,
                0x65,
                0x03,
                0x04,
                0x02,
                0x02,
            ],
            Ok(DigestAlgorithm::Sha512) => octets@ == seq![
                0x60u8,
                0x86,
                0x48,
                0x01,
                0x65,
                0x03,
                0x04,
                0x02,
                0x03,
            ],
            Err(_) => {
                &&& octets@ != seq![0x2bu8, 0x0e, 0x03, 0x02, 0x1a]
                &&& octets@ != seq![0x60u8, 0x86, 0x48, 0x01, 0x65, 0x03, 0x04, 0x02, 0x01]
                &&& octets@ != seq![0x60u8, 0x86, 0x48, 0x01, 0x65, 0x03, 0x04, 0x02, 0x02]
                &&& octets@ != seq![0x60u8, 0x86, 0x48, 0x01, 0x65, 0x03, 0x04, 0x02, 0x03]
            },
        },
{
    meaning::octets_stand_for_the_registered_algorithm(octets@);
}

/// An identifier stands for the algorithm of the octets that its dotted form is read as.
pub proof fn algorithms_are_told_by_their_identifiers(
    id: &Oid,
    octets: &[u8],
    result: Result<DigestAlgorithm, ()>,
    known: Result<DigestAlgorithm, ()>,
)
    requires
        call_ensures(DigestAlgorithm::try_from, (id,), result),
        call_ensures(DigestAlgorithm::from_octets, (octets,), known),
        oid::der_oid(id.dotted@) == Some(octets@),
        id.dotted@.len() <= 1000,
        text::all_arcs_fit(id.dotted@),
    ensures
        result == known,
{
    meaning::an_identifier_is_told_by_its_dotted_form(id@);
    assert(digest::supported(result) == digest::supported(known));
    assert(result is Err <==> known is Err);
    if result is Err {
        assert(result->Err_0 == known->Err_0);
    }
}

/// The digest that is computed of a message is that of all of its octets, whatever their number,
/// under the algorithm that the identifier stands for; there is none for any other identifier.
pub proof fn computed_digests_cover_the_message(
    algorithm: &[u32],
    message: &[u8],
    computed: Option<Vec<u8>>,
)
    requires
        call_ensures(examine::compute_digest, (algorithm, message), computed),
    ensures
        ({
            let id: Option<Seq<u8>> = meaning::octets_of_identifier(algorithm@);
            let sha1: bool = id == Some(seq![0x2bu8, 0x0e, 0x03, 0x02, 0x1a]);
            let sha256: bool = id == Some(
                seq![0x60u8, 0x86, 0x48, 0x01, 0x65, 0x03, 0x04, 0x02, 0x01],
            );
            let sha384: bool = id == Some(
                seq![0x60u8, 0x86, 0x48, 0x01, 0x65, 0x03, 0x04, 0x02, 0x02],
            );
            let sha512: bool = id == Some(
                seq![0x60u8, 0x86, 0x48, 0x01, 0x65, 0x03, 0x04, 0x02, 0x03],
            );
            match computed {
                Some(octets) => {
                    ||| sha1 && octets@ == digest::sha1_digest(message@)
                    ||| sha256 && octets@ == digest::sha256_digest(message@)
                    ||| sha384 && octets@ == digest::sha384_digest(message@)
                    ||| sha512 && octets@ == digest::sha512_digest(message@)
                },
                None => !sha1 && !sha256 && !sha384 && !sha512,
            }
        }),
{
    meaning::digests_are_those_of_the_whole_message(algorithm@, message@);
}

// The log.

/// Entries have the description and the code that they were given.
pub proof fn entries_have_what_they_were_given(
    description: &str,
    code: &str,
    info: LogItem,
    success: LogItem,
)
    requires
        call_ensures(LogItem::informational, (description, code), info),
        call_ensures(LogItem::success, (description, code), success),
    ensures
        info.kind is Informational,
        success.kind is Success,
        info.description@ == description@,
        success.description@ == description@,
        info.validation_status is Some,
        success.validation_status is Some,
        info.validation_status.unwrap()@ == code@,
        success.validation_status.unwrap()@ == code@,
        info.label@.len() == 0,
        success.label@.len() == 0,
        info.function@ == "verify_time_stamp"@,
        success.function@ == "verify_time_stamp"@,
{
    assert(info@.validation_status == Some(code@));
    assert(success@.validation_status == Some(code@));
}

/// A log has a status exactly when one of its entries carries it.
pub proof fn statuses_are_those_of_the_entries(tracker: &StatusTracker, code: &str, found: bool)
    requires
        call_ensures(StatusTracker::has_status, (tracker, code), found),
    ensures
        found <==> exists|i: int|
            0 <= i < tracker.logged_items@.len() && (
            #[trigger] tracker.logged_items@[i]).validation_status.deep_view() == Some(code@),
{
    if found {
        let i: int = choose|i: int|
            0 <= i < tracker@.len() && #[trigger] tracker@[i].validation_status == Some(code@);
        assert(tracker.logged_items@[i].validation_status.deep_view() == Some(code@));
    }
    if exists|i: int|
        0 <= i < tracker.logged_items@.len() && (
        #[trigger] tracker.logged_items@[i]).validation_status.deep_view() == Some(code@) {
        let i: int = choose|i: int|
            0 <= i < tracker.logged_items@.len() && (
            #[trigger] tracker.logged_items@[i]).validation_status.deep_view() == Some(code@);
        assert(tracker@[i].validation_status == Some(code@));
    }
}

// What a token holds.

/// Putting time stamp information together keeps every field of it.
pub proof fn assembled_information_keeps_its_fields(head: TstHead, tail: TstTail, info: TstInfo)
    requires
        call_ensures(cms::assemble_tst_info, (head, tail), info),
    ensures
        info.version@ == head.version@,
        info.policy@ == head.policy@,
        info.message_imprint.hash_algorithm@ == head.message_imprint.hash_algorithm@,
        cms::octets_of(info.message_imprint.hash_parameters) == cms::octets_of(
            head.message_imprint.hash_parameters,
        ),
        info.message_imprint.hashed_message@ == head.message_imprint.hashed_message@,
        info.serial_number@ == head.serial_number@,
        info.gen_time.seconds == head.gen_time.seconds,
        info.gen_time.nanos == head.gen_time.nanos,
        info.ordering == head.ordering,
        info.nonce.deep_view() == head.nonce.deep_view(),
        info.accuracy.deep_view() == tail.accuracy.deep_view(),
        cms::encoding_of(info.tsa) == cms::encoding_of(tail.tsa),
        cms::encoding_of(info.extensions) == cms::encoding_of(tail.extensions),
{
    assert(info.deep_view().message_imprint == head.message_imprint.deep_view());
}

/// Putting a certificate set together keeps what is known of each member.
pub proof fn assembled_certificates_keep_their_parts(
    encodings: Vec<Option<Vec<u8>>>,
    identities: Vec<Option<CertificateIdentity>>,
    keys: Vec<Option<CertificateKey>>,
    set: Vec<CertificateChoice>,
    i: int,
)
    requires
        call_ensures(
            cms::assemble_certificates,
            (encodings, Some(identities), Some(keys)),
            set,
        ),
        0 <= i < encodings@.len(),
        identities@.len() == encodings@.len(),
        keys@.len() == encodings@.len(),
    ensures
        set@.len() == encodings@.len(),
        cms::octets_of(set@[i].encoded) == cms::octets_of(encodings@[i]),
        set@[i].identity.deep_view() == identities@[i].deep_view(),
        set@[i].key.deep_view() == keys@[i].deep_view(),
{
    broadcast use oid::octets_are_flat;

    meaning::certificates_are_kept(
        encodings.deep_view(),
        Some(identities.deep_view()),
        Some(keys.deep_view()),
    );
    assert(set.deep_view()[i] == set@[i].deep_view());
    assert(encodings.deep_view()[i] == encodings@[i].deep_view());
    assert(identities.deep_view()[i] == identities@[i].deep_view());
    assert(keys.deep_view()[i] == keys@[i].deep_view());
}

/// Putting signers together keeps what is known of each.
pub proof fn assembled_signers_keep_their_parts(
    list: Vec<Signer>,
    attributes: Vec<Option<SignedAttributes>>,
    infos: Vec<SignerInfo>,
    i: int,
)
    requires
        call_ensures(cms::assemble_signers, (list, Some(attributes)), infos),
        0 <= i < list@.len(),
        attributes@.len() == list@.len(),
    ensures
        infos@.len() == list@.len(),
        infos@[i].sid.deep_view() == list@[i].sid.deep_view(),
        infos@[i].digest_algorithm@ == list@[i].digest_algorithm@,
        infos@[i].signature@ == list@[i].signature@,
        infos@[i].signed_attrs.deep_view() == attributes@[i].deep_view(),
{
    meaning::signers_are_kept(list.deep_view(), Some(attributes.deep_view()));
    assert(infos.deep_view()[i] == infos@[i].deep_view());
    assert(list.deep_view()[i] == list@[i].deep_view());
    assert(attributes.deep_view()[i] == attributes@[i].deep_view());
}

/// The content of a token of signed data is handed out whole.
pub proof fn the_content_of_a_token_is_handed_out(
    token: Token,
    result: Result<Option<Vec<u8>>, TimeStampError>,
)
    requires
        call_ensures(cms::token_content, (Some(Some(token)),), result),
    ensures
        token.content_type@ == seq![1u32, 2, 840, 113549, 1, 7, 2] <==> result is Ok,
        result matches Ok(content) ==> content is Some && content.unwrap()@ == token.content@,
        result matches Err(error) ==> error is DecodeError && error->DecodeError_0@
            == "invalid OID for signed data"@,
{
    broadcast use oid::octets_are_flat;

    meaning::the_identifiers_are_the_registered_ones();
    assert(Some(Some(token)).deep_view() == Some(Some(token.deep_view())));
}

// Certificates.

/// The certificates are ordered from the leaf on by their names: each is followed by the first of
/// those outside of the chain so far whose subject is its issuer, and the chain ends only where
/// none of the certificates outside of it has a subject that is the issuer of the last one.
pub proof fn ordered_certificates_follow_their_names(
    cert_ders: &[Vec<u8>],
    leaf: usize,
    ordered: Vec<Vec<u8>>,
) -> (at: Seq<int>)
    requires
        call_ensures(chain::order_certificates_leaf_to_root, (cert_ders, leaf), Ok(ordered)),
    ensures
        at.len() == ordered@.len(),
        at.len() > 0,
        at[0] == leaf,
        forall|k: int| 0 <= k < at.len() ==> 0 <= #[trigger] at[k] < cert_ders@.len(),
        forall|k: int| 0 <= k < at.len() ==> #[trigger] ordered@[k]@ == cert_ders@[at[k]]@,
        forall|j: int, k: int|
            0 <= j < at.len() && 0 <= k < at.len() && j != k ==> #[trigger] at[j] != #[trigger] at[k],
        forall|i: int|
            0 <= i < cert_ders@.len() ==> chain::certificate_names(
                (#[trigger] cert_ders@[i])@,
            ) is Some,
        forall|k: int|
            0 < k < at.len() ==> chain::certificate_names(cert_ders@[at[k - 1]]@).unwrap().issuer
                == chain::certificate_names(cert_ders@[#[trigger] at[k]]@).unwrap().subject,
        forall|k: int, i: int|
            0 < k < at.len() && 0 <= i < #[trigger] at[k] && !at.take(k).contains(i)
                ==> chain::certificate_names(cert_ders@[at[k - 1]]@).unwrap().issuer
                != chain::certificate_names((#[trigger] cert_ders@[i])@).unwrap().subject,
        forall|i: int|
            0 <= i < cert_ders@.len() && !at.contains(i) ==> chain::certificate_names(
                cert_ders@[at.last()]@,
            ).unwrap().issuer != chain::certificate_names(
                (#[trigger] cert_ders@[i])@,
            ).unwrap().subject,
{
    broadcast use oid::octets_are_flat;

    let ders: Seq<Seq<u8>> = cert_ders.deep_view();
    assert(Ok::<Vec<Vec<u8>>, TimeStampError>(ordered) is Ok);
    assert(chain::leaf_to_root(ders, leaf as int) == Ok::<Seq<Seq<u8>>, error::TimeStampErrorView>(
        ordered.deep_view(),
    ));
    chain::ordering_succeeds(ders, leaf as int);
    let names: Seq<chain::CertificateNamesView> = Seq::new(
        ders.len(),
        |i: int| chain::certificate_names(ders[i]).unwrap(),
    );
    let at: Seq<int> = chain::chain_positions(names, leaf as int);
    meaning::certificates_are_ordered_by_their_names(ders, names, leaf as int);
    meaning::chains_follow_the_names(names, leaf as int);
    assert forall|i: int| 0 <= i < cert_ders@.len() implies names[i]
        == chain::certificate_names((#[trigger] cert_ders@[i])@).unwrap()
        && chain::certificate_names(cert_ders@[i]@) is Some by {
        assert(ders[i] == cert_ders@[i].deep_view());
    }
    assert forall|k: int| 0 <= k < at.len() implies #[trigger] ordered@[k]@
        == cert_ders@[at[k]]@ by {
        assert(ordered.deep_view()[k] == ordered@[k].deep_view());
        assert(ders[at[k]] == cert_ders@[at[k]].deep_view());
    }
    assert forall|k: int| 0 < k < at.len() implies chain::certificate_names(
        cert_ders@[at[k - 1]]@,
    ).unwrap().issuer == chain::certificate_names(
        cert_ders@[#[trigger] at[k]]@,
    ).unwrap().subject by {
        assert(names[at[k]] == chain::certificate_names(cert_ders@[at[k]]@).unwrap());
        assert(names[at[k - 1]] == chain::certificate_names(cert_ders@[at[k - 1]]@).unwrap());
    }
    assert forall|k: int, i: int|
        0 < k < at.len() && 0 <= i < #[trigger] at[k] && !at.take(k).contains(
            i,
        ) implies chain::certificate_names(cert_ders@[at[k - 1]]@).unwrap().issuer
        != chain::certificate_names((#[trigger] cert_ders@[i])@).unwrap().subject by {
        assert(names[at[k - 1]] == chain::certificate_names(cert_ders@[at[k - 1]]@).unwrap());
        assert(names[i] == chain::certificate_names(cert_ders@[i]@).unwrap());
    }
    assert forall|i: int| 0 <= i < cert_ders@.len() && !at.contains(i) implies chain::certificate_names(
        cert_ders@[at.last()]@,
    ).unwrap().issuer != chain::certificate_names((#[trigger] cert_ders@[i])@).unwrap().subject by {
        assert(names[at.last()] == chain::certificate_names(cert_ders@[at.last()]@).unwrap());
        assert(names[i] == chain::certificate_names(cert_ders@[i]@).unwrap());
    }
    at
}

/// Certificates are ordered exactly when the leaf is one of them and all of them can be read.
pub proof fn which_certificates_are_ordered(
    cert_ders: &[Vec<u8>],
    leaf: usize,
    result: Result<Vec<Vec<u8>>, TimeStampError>,
)
    requires
        call_ensures(chain::order_certificates_leaf_to_root, (cert_ders, leaf), result),
    ensures
        result is Ok <==> leaf < cert_ders@.len() && forall|i: int|
            0 <= i < cert_ders@.len() ==> chain::certificate_names(
                (#[trigger] cert_ders@[i])@,
            ) is Some,
        result matches Err(error) ==> error is DecodeError && error->DecodeError_0@ == (if leaf
            >= cert_ders@.len() {
            "invalid leaf certificate position"@
        } else {
            "failed to parse certificates"@
        }),
{
    broadcast use oid::octets_are_flat;

    let ders: Seq<Seq<u8>> = cert_ders.deep_view();
    chain::ordering_succeeds(ders, leaf as int);
    assert forall|i: int| 0 <= i < cert_ders@.len() implies ders[i] == (
    #[trigger] cert_ders@[i])@ by {
        assert(ders[i] == cert_ders@[i].deep_view());
    }
    assert((forall|i: int|
        0 <= i < ders.len() ==> chain::certificate_names(#[trigger] ders[i]) is Some) <==> (forall|
        i: int,
    |
        0 <= i < cert_ders@.len() ==> chain::certificate_names((#[trigger] cert_ders@[i])@) is Some))
        by {
        if forall|i: int|
            0 <= i < cert_ders@.len() ==> chain::certificate_names(
                (#[trigger] cert_ders@[i])@,
            ) is Some {
            assert forall|i: int| 0 <= i < ders.len() implies chain::certificate_names(
                #[trigger] ders[i],
            ) is Some by {
                assert(chain::certificate_names(cert_ders@[i]@) is Some);
            }
        }
    }
}

// Signers.

/// A signer that is identified by issuer and serial number names the certificates with the same
/// serial number and the same issuer, however long these are, and no others.
pub proof fn certificates_are_named_by_issuer_and_serial_number(
    issuer: Vec<Vec<Vec<u8>>>,
    serial_number: String,
    certificate: &CertificateIdentity,
    sid: &SignerIdentifier,
    named: bool,
)
    requires
        *sid == (SignerIdentifier::IssuerAndSerialNumber { issuer: Some(issuer), serial_number }),
        call_ensures(signer::names_certificate, (sid, certificate), named),
    ensures
        certificate.issuer.deep_view() == Some(issuer.deep_view()) && certificate.serial_number@
            == serial_number@ ==> named,
        certificate.serial_number@ != serial_number@ ==> !named,
        certificate.issuer is None ==> !named,
        named ==> {
            let own: Seq<Seq<Seq<u8>>> = certificate.issuer.unwrap().deep_view();
            let wanted: Seq<Seq<Seq<u8>>> = issuer.deep_view();
            &&& own.len() == wanted.len()
            &&& forall|i: int, j: int|
                0 <= i < own.len() && 0 <= j < own[i].len() ==> wanted[i].contains(
                    #[trigger] own[i][j],
                )
            &&& forall|i: int, j: int|
                0 <= i < wanted.len() && 0 <= j < wanted[i].len() ==> own[i].contains(
                    #[trigger] wanted[i][j],
                )
        },
{
    let view: cms::CertificateIdentityView = certificate.deep_view();
    meaning::issuer_and_serial_number_name_a_certificate(
        view,
        Some(issuer.deep_view()),
        serial_number@,
    );
    if let Some(own) = view.issuer {
        meaning::names_are_lists_of_sets(issuer.deep_view(), own);
        assert(own == certificate.issuer.unwrap().deep_view());
    }
}

/// A signer that is identified by a key identifier names the certificates with an extension
/// 2.5.29.14 that holds it, and no others.
pub proof fn certificates_are_named_by_key_identifier(
    id: Vec<u8>,
    certificate: &CertificateIdentity,
    sid: &SignerIdentifier,
    named: bool,
)
    requires
        *sid == SignerIdentifier::SubjectKeyIdentifier(id),
        call_ensures(signer::names_certificate, (sid, certificate), named),
    ensures
        certificate.extensions is None ==> !named,
        certificate.extensions matches Some(extensions) ==> (named <==> exists|i: int|
            0 <= i < extensions@.len() && (#[trigger] extensions@[i]).extn_id@ == seq![
                2u32,
                5,
                29,
                14,
            ] && extensions@[i].extn_value@ == id@),
{
    let view: cms::CertificateIdentityView = certificate.deep_view();
    meaning::a_key_identifier_names_a_certificate(view, id@);
    if let Some(extensions) = certificate.extensions {
        let seen: Seq<cms::ExtensionView> = extensions.deep_view();
        assert(view.extensions == Some(seen));
        assert forall|i: int| 0 <= i < extensions@.len() implies seen[i]
            == #[trigger] extensions@[i].deep_view() by {}
        if named {
            let i: int = choose|i: int|
                0 <= i < seen.len() && (#[trigger] seen[i]).extn_id == seq![2u32, 5, 29, 14]
                    && seen[i].extn_value == id@;
            assert(seen[i] == extensions@[i].deep_view());
            assert(extensions@[i].extn_id@ == seq![2u32, 5, 29, 14]);
        }
        if exists|i: int|
            0 <= i < extensions@.len() && (#[trigger] extensions@[i]).extn_id@ == seq![
                2u32,
                5,
                29,
                14,
            ] && extensions@[i].extn_value@ == id@ {
            let i: int = choose|i: int|
                0 <= i < extensions@.len() && (#[trigger] extensions@[i]).extn_id@ == seq![
                    2u32,
                    5,
                    29,
                    14,
                ] && extensions@[i].extn_value@ == id@;
            assert(seen[i] == extensions@[i].deep_view());
            assert(seen[i].extn_id == seq![2u32, 5, 29, 14]);
        }
    }
}

/// The certificates of signed data are handed out all, with the position of the one that the
/// first signer names.
pub proof fn the_certificates_of_the_signer_are_handed_out(
    data: &SignedData,
    set: Vec<CertificateChoice>,
    found: SignerCerts,
)
    requires
        data.certificates == Some(set),
        call_ensures(signer::signer_certs_from_signed_data, (data,), Ok(Some(found))),
    ensures
        found.cert_ders@.len() == set@.len(),
        found.cert_pos < set@.len(),
        forall|i: int|
            0 <= i < set@.len() ==> cms::octets_of((#[trigger] set@[i]).encoded) == Some(
                found.cert_ders@[i]@,
            ),
        data.signer_infos@.len() > 0,
        set@[found.cert_pos as int].identity is Some,
        signer::is_named_by(
            set@[found.cert_pos as int].identity.unwrap().deep_view(),
            data.signer_infos@[0].sid.deep_view(),
        ),
{
    broadcast use oid::octets_are_flat;

    let certs: Seq<cms::CertificateChoiceView> = set.deep_view();
    assert(data.deep_view().certificates == Some(certs));
    let result: Result<Option<SignerCerts>, TimeStampError> = Ok(Some(found));
    assert(error::result_view(result) == Ok::<
        Option<(Seq<Seq<u8>>, int)>,
        error::TimeStampErrorView,
    >(Some(found.deep_view())));
    meaning::encodings_are_those_of_all_members(certs);
    assert(data.deep_view().signer_infos.len() == data.signer_infos@.len());
    assert(data.deep_view().signer_infos[0] == data.signer_infos@[0].deep_view());
    meaning::the_first_named_certificate_is_the_signers(
        certs,
        data.signer_infos@[0].sid.deep_view(),
    );
    assert forall|i: int| 0 <= i < set@.len() implies cms::octets_of((#[trigger] set@[i]).encoded)
        == Some(found.cert_ders@[i]@) by {
        assert(certs[i] == set@[i].deep_view());
        assert(found.cert_ders.deep_view()[i] == found.cert_ders@[i].deep_view());
    }
    assert(certs[found.cert_pos as int] == set@[found.cert_pos as int].deep_view());
}

// What a signer signed.

/// A signer that is worth checking is kept with the period in which its certificate is valid, as
/// the key has it in either encoding, and with the time stamp information as it was read but for
/// the signed time.
pub proof fn judged_signers_keep_what_was_read(
    content: &SignedContent,
    signer: &SignerInfo,
    key: &CertificateKey,
    cert_pos: usize,
    evidence: Evidence,
    tst: TstInfo,
    candidate: Candidate,
)
    requires
        call_ensures(
            examine::judge_signer,
            (content, signer, key, cert_pos, evidence),
            Ok(candidate),
        ),
        evidence.tst == Some(tst),
    ensures
        candidate.not_before == match key.not_before {
            Time::Utc(u) => u.seconds,
            Time::General(gt) => gt.seconds,
        },
        candidate.not_after == match key.not_after {
            Time::Utc(u) => u.seconds,
            Time::General(gt) => gt.seconds,
        },
        candidate.cert_pos == cert_pos,
        candidate.common_name@ == evidence.common_name@,
        candidate.request.sig_val@ == signer.signature@,
        Some(candidate.request.signing_key_der@) == cms::octets_of(key.encoded),
        Some(candidate.request.hash_alg@) == evidence.hash_alg.deep_view(),
        Some(candidate.request.sig_alg@) == evidence.sig_alg.deep_view(),
        match signer.signed_attrs {
            Some(attributes) => attributes.encoded is Ok && attributes.encoded.unwrap()@
                == candidate.request.tbs@,
            None => cms::octets_of(content.content) == Some(candidate.request.tbs@),
        },
        candidate.tst.version@ == tst.version@,
        candidate.tst.policy@ == tst.policy@,
        candidate.tst.message_imprint.deep_view() == tst.message_imprint.deep_view(),
        candidate.tst.serial_number@ == tst.serial_number@,
        candidate.tst.accuracy.deep_view() == tst.accuracy.deep_view(),
        candidate.tst.ordering == tst.ordering,
        candidate.tst.nonce.deep_view() == tst.nonce.deep_view(),
        cms::encoding_of(candidate.tst.tsa) == cms::encoding_of(tst.tsa),
        cms::encoding_of(candidate.tst.extensions) == cms::encoding_of(tst.extensions),
        signer.signed_attrs is None || evidence.signed_time is None ==> candidate.tst.gen_time
            == tst.gen_time,
        signer.signed_attrs is Some ==> match evidence.signed_time {
            Some(Time::Utc(u)) => 0 <= u.seconds <= 253_402_300_799
                ==> candidate.tst.gen_time.seconds == u.seconds,
            Some(Time::General(gt)) => 0 <= gt.seconds <= 253_402_300_799
                ==> candidate.tst.gen_time.seconds == gt.seconds,
            None => true,
        },
{
    let verdict: Result<Candidate, Rejection> = Ok(candidate);
    assert(examine::verdict_view(verdict) == Ok::<examine::CandidateView, examine::RejectionView>(
        candidate.deep_view(),
    ));
    meaning::what_is_kept_of_a_signer(
        content.deep_view(),
        signer.deep_view(),
        key.deep_view(),
        cert_pos as int,
        evidence.deep_view(),
        candidate.deep_view(),
    );
    meaning::the_signed_time_is_the_one_that_counts(tst.deep_view(), evidence.signed_time);
    meaning::which_signatures_are_worth_checking(
        content.deep_view(),
        signer.deep_view(),
        key.deep_view(),
        cert_pos as int,
        evidence.deep_view(),
    );
    if let Some(attributes) = signer.signed_attrs {
        assert(signer.deep_view().signed_attrs == Some(attributes.deep_view()));
    }
}

/// A signer stands exactly when it signed in the period in which its certificate is valid and the
/// message imprint is the digest of the data.
pub proof fn judged_imprints_are_those_of_the_data(
    candidate: &Candidate,
    computed: &Option<Vec<u8>>,
    result: Result<LogItem, Rejection>,
)
    requires
        call_ensures(examine::judge_imprint, (candidate, computed), result),
    ensures
        ({
            let seconds: i64 = candidate.tst.gen_time.seconds;
            let within: bool = candidate.not_before <= seconds && seconds <= candidate.not_after;
            &&& result is Ok <==> within && cms::octets_of(*computed) == Some(
                candidate.tst.message_imprint.hashed_message@,
            )
            &&& result matches Err(rejection) ==> {
                &&& !within <==> rejection.error is ExpiredCertificate
                &&& within && *computed is None <==> rejection.error is UnsupportedAlgorithm
                &&& within && *computed is Some <==> rejection.error is InvalidData
            }
        }),
{
    let verdict: Result<status::LogItemView, examine::RejectionView> = examine::verdict_view(
        result,
    );
    meaning::imprints_have_to_be_those_of_the_data(
        candidate.deep_view(),
        cms::octets_of(*computed),
    );
    match result {
        Ok(item) => {
            assert(verdict is Ok);
        },
        Err(rejection) => {
            assert(verdict == Err::<status::LogItemView, examine::RejectionView>(
                rejection.deep_view(),
            ));
        },
    }
}

/// The signed time replaces that of the time stamp information, and nothing else.
pub proof fn the_signed_time_replaces_only_the_time(
    tst: TstInfo,
    signed_time: Option<Time>,
    updated: TstInfo,
)
    requires
        call_ensures(examine::use_signed_time, (tst, signed_time), updated),
    ensures
        updated.version@ == tst.version@,
        updated.policy@ == tst.policy@,
        updated.message_imprint.deep_view() == tst.message_imprint.deep_view(),
        updated.serial_number@ == tst.serial_number@,
        updated.accuracy.deep_view() == tst.accuracy.deep_view(),
        updated.ordering == tst.ordering,
        updated.nonce.deep_view() == tst.nonce.deep_view(),
        cms::encoding_of(updated.tsa) == cms::encoding_of(tst.tsa),
        cms::encoding_of(updated.extensions) == cms::encoding_of(tst.extensions),
        signed_time is None ==> updated.gen_time == tst.gen_time,
        signed_time matches Some(Time::Utc(u)) ==> updated.gen_time == (if 0 <= u.seconds
            <= 253_402_300_799 {
            GeneralizedTime { seconds: u.seconds, nanos: 0 }
        } else {
            tst.gen_time
        }),
        signed_time matches Some(Time::General(gt)) ==> updated.gen_time == (if 0 <= gt.seconds
            <= 253_402_300_799 {
            GeneralizedTime { seconds: gt.seconds, nanos: 0 }
        } else {
            tst.gen_time
        }),
{
    meaning::the_signed_time_is_the_one_that_counts(tst.deep_view(), signed_time);
}

// Helpers.

/// Two lists are the same exactly when they have as many members, each the same, and a copy is the
/// same as what it was made of.
pub proof fn comparing_and_copying(
    a: &[u8],
    b: &[u8],
    x: &[u32],
    y: &[u32],
    octets: &Vec<u8>,
    same: bool,
    alike: bool,
    copy: Vec<u8>,
)
    requires
        call_ensures(oid::same_octets, (a, b), same),
        call_ensures(oid::same_arcs, (x, y), alike),
        call_ensures(oid::copy_octets, (octets,), copy),
    ensures
        same <==> a@.len() == b@.len() && forall|i: int|
            0 <= i < a@.len() ==> #[trigger] a@[i] == b@[i],
        alike <==> x@.len() == y@.len() && forall|i: int|
            0 <= i < x@.len() ==> #[trigger] x@[i] == y@[i],
        copy@ == octets@,
{
    if a@.len() == b@.len() && forall|i: int| 0 <= i < a@.len() ==> #[trigger] a@[i] == b@[i] {
        assert(a@ =~= b@);
    }
    if x@.len() == y@.len() && forall|i: int| 0 <= i < x@.len() ==> #[trigger] x@[i] == y@[i] {
        assert(x@ =~= y@);
    }
}

/// Arcs make the identifier that their dotted form is read as.
pub proof fn arcs_make_identifiers(arcs: &[u32], written: String, id: Option<Oid>)
    requires
        call_ensures(Oid::from_arcs, (arcs,), id),
        call_ensures(text::dotted, (arcs,), written),
    ensures
        arcs@.len() >= 2 && arcs@[0] == 2 && arcs@[1] > 4_294_967_215 ==> id is None,
        arcs@.len() < 2 || arcs@[0] != 2 || arcs@[1] <= 4_294_967_215 ==> id.deep_view()
            == oid::bcder_oid(written@),
{
    meaning::arcs_make_the_identifier_of_their_dotted_form(arcs@);
}

/// A text can be read as an identifier exactly when it has up to 1000 characters and all numbers
/// in it fit 32 bits.
pub proof fn which_texts_can_be_read(written: &str, readable: bool, fits: bool)
    requires
        call_ensures(oid::readable, (written,), readable),
        call_ensures(text::arcs_fit, (written,), fits),
    ensures
        readable <==> written@.len() <= 1000 && fits,
{
}

/// A copy of a log entry has each field of it, an error has the message that it was given, and
/// the octets of a digest are handed out as they are.
pub proof fn what_is_handed_on(
    item: &LogItem,
    copy: LogItem,
    message: &str,
    error: TimeStampError,
    output: &HasherOutput,
    octets: &[u8],
    moment: DateTime,
    seconds: i64,
)
    requires
        call_ensures(LogItem::copy, (item,), copy),
        call_ensures(TimeStampError::decode, (message,), error),
        call_ensures(HasherOutput::as_ref, (output,), octets),
        call_ensures(DateTime::timestamp, (moment,), seconds),
    ensures
        copy.kind == item.kind,
        copy.label@ == item.label@,
        copy.description@ == item.description@,
        copy.function@ == item.function@,
        copy.validation_status.deep_view() == item.validation_status.deep_view(),
        error is DecodeError,
        error->DecodeError_0@ == message@,
        octets@ == output.0@,
        seconds == moment.seconds,
{
    assert(copy@ == item@);
}

/// A validator is chosen where there is one, the asynchronous one before the other, and a
/// signature counts as valid only where it was found to be.
pub proof fn validators_and_what_they_report(
    asynchronous: bool,
    synchronous: bool,
    choice: ValidatorChoice,
    outcome: SignatureOutcome,
    result: Result<(), TimeStampError>,
)
    requires
        call_ensures(verify::choose_validator, (asynchronous, synchronous), choice),
        call_ensures(verify::validate_timestamp_sig, (outcome,), result),
    ensures
        choice is Asynchronous <==> asynchronous,
        choice is Synchronous <==> !asynchronous && synchronous,
        choice is Unsupported <==> !asynchronous && !synchronous,
        result is Ok <==> outcome is Valid,
        result matches Err(error) ==> {
            &&& outcome is Invalid <==> error is InvalidData
            &&& outcome is Unsupported <==> error is UnsupportedAlgorithm
        },
{
    match result {
        Ok(unit) => {
            assert(error::result_view(result) == Ok::<(), error::TimeStampErrorView>(()));
        },
        Err(error) => {
            assert(error::result_view(result) == Err::<(), error::TimeStampErrorView>(error@));
        },
    }
}

// Names and positions.

/// The common names of a certificate are joined in their order.
pub proof fn common_names_in_order(
    names: &CertificateNames,
    more: &CertificateNames,
    added: String,
    name: String,
    longer: String,
)
    requires
        call_ensures(chain::join_common_names, (names,), name),
        call_ensures(chain::join_common_names, (more,), longer),
        more.common_names@ == names.common_names@.push(Some(added)) || more.common_names@
            == names.common_names@.push(None),
    ensures
        names.common_names@.len() == 0 ==> name@.len() == 0,
        more.common_names@.last() is Some ==> longer@ == name@
            + more.common_names@.last().unwrap()@,
        more.common_names@.last() is None ==> longer@ == name@,
{
    let before: Seq<Option<Seq<char>>> = names.common_names.deep_view();
    let after: Seq<Option<Seq<char>>> = more.common_names.deep_view();
    let last: Option<String> = more.common_names@.last();
    assert(after.last() == last.deep_view());
    assert(after.drop_last() =~= before);
    if names.common_names@.len() == 0 {
        assert(before =~= Seq::empty());
    }
    meaning::common_names_are_joined_in_order(before, added@, Seq::empty());
    assert(after =~= before.push(after.last()));
}

/// The common name of a certificate is that of the names in it, and empty where it cannot be read.
pub proof fn the_common_name_of_a_certificate(
    der: &[u8],
    names: &CertificateNames,
    name: String,
    of_names: String,
)
    requires
        call_ensures(chain::common_name, (der,), name),
        call_ensures(chain::join_common_names, (names,), of_names),
    ensures
        chain::certificate_names(der@) == Some(names.deep_view()) ==> name@ == of_names@,
        chain::certificate_names(der@) is None ==> name@.len() == 0,
{
}

/// Positions are ordered by the names of the certificates.
pub proof fn positions_follow_the_names(
    names: &[CertificateNames],
    leaf: usize,
    at: Vec<usize>,
)
    requires
        leaf < names@.len(),
        call_ensures(chain::order_positions, (names, leaf), at),
    ensures
        at@.len() > 0,
        at@[0] == leaf,
        forall|k: int| 0 <= k < at@.len() ==> (#[trigger] at@[k]) < names@.len(),
        forall|j: int, k: int|
            0 <= j < at@.len() && 0 <= k < at@.len() && j != k ==> #[trigger] at@[j]
                != #[trigger] at@[k],
        forall|k: int|
            0 < k < at@.len() ==> names@[at@[k - 1] as int].issuer@ == names@[(
            #[trigger] at@[k]) as int].subject@,
        forall|k: int, i: usize|
            0 < k < at@.len() && i < #[trigger] at@[k] && !#[trigger] at@.take(k).contains(i)
                ==> names@[at@[k - 1] as int].issuer@ != names@[i as int].subject@,
        forall|i: usize|
            i < names@.len() && !#[trigger] at@.contains(i) ==> names@[at@.last() as int].issuer@
                != names@[i as int].subject@,
{
    let views: Seq<chain::CertificateNamesView> = chain::names_view(names@);
    let seen: Seq<int> = chain::positions_view(at@);
    meaning::chains_follow_the_names(views, leaf as int);
    assert(seen == chain::chain_positions(views, leaf as int));
    assert forall|k: int| 0 <= k < at@.len() implies seen[k] == #[trigger] at@[k] by {}
    assert forall|k: int| 0 < k < at@.len() implies names@[at@[k - 1] as int].issuer@ == names@[(
    #[trigger] at@[k]) as int].subject@ by {
        assert(seen[k] == at@[k] && seen[k - 1] == at@[k - 1]);
        assert(views[seen[k - 1]].issuer == views[seen[k]].subject);
    }
    assert forall|k: int| 0 <= k < at@.len() implies (#[trigger] at@[k]) < names@.len() by {
        assert(0 <= seen[k] < views.len());
    }
    assert forall|j: int, k: int| 0 <= j < at@.len() && 0 <= k < at@.len() && j != k implies (
    #[trigger] at@[j]) != (#[trigger] at@[k]) by {
        assert(seen[j] != seen[k]);
    }
    assert forall|k: int, i: usize|
        0 < k < at@.len() && i < #[trigger] at@[k] && !#[trigger] at@.take(k).contains(i) implies
        names@[at@[k - 1] as int].issuer@ != names@[i as int].subject@ by {
        assert(seen[k] == at@[k] && seen[k - 1] == at@[k - 1]);
        if seen.take(k).contains(i as int) {
            let j: int = choose|j: int| 0 <= j < k && seen.take(k)[j] == i as int;
            assert(at@.take(k)[j] == i);
        }
        assert(views[i as int].subject != views[seen[k - 1]].issuer);
    }
    assert forall|i: usize| i < names@.len() && !#[trigger] at@.contains(i) implies names@[
    at@.last() as int].issuer@ != names@[i as int].subject@ by {
        assert(seen.last() == at@.last());
        if seen.contains(i as int) {
            let j: int = choose|j: int| 0 <= j < seen.len() && seen[j] == i as int;
            assert(at@[j] == i);
        }
        assert(views[i as int].subject != views[seen.last()].issuer);
    }
}

/// The signer's certificate is the first one that its identifier names.
pub proof fn the_first_named_certificate_is_found(
    certs: &[CertificateChoice],
    sid: &SignerIdentifier,
    position: Option<usize>,
)
    requires
        call_ensures(signer::find_signer, (certs, sid), position),
    ensures
        match position {
            Some(k) => {
                &&& k < certs@.len()
                &&& certs@[k as int].identity matches Some(identity)
                &&& signer::is_named_by(identity.deep_view(), sid.deep_view())
                &&& forall|j: int|
                    0 <= j < k ==> ((#[trigger] certs@[j]).identity matches Some(other)
                        ==> !signer::is_named_by(other.deep_view(), sid.deep_view()))
            },
            None => forall|j: int|
                0 <= j < certs@.len() ==> ((#[trigger] certs@[j]).identity matches Some(other)
                    ==> !signer::is_named_by(other.deep_view(), sid.deep_view())),
        },
{
    let views: Seq<cms::CertificateChoiceView> = certs.deep_view();
    meaning::the_first_named_certificate_is_the_signers(views, sid.deep_view());
    assert forall|j: int| 0 <= j < certs@.len() implies views[j]
        == (#[trigger] certs@[j]).deep_view() by {}
    if let Some(k) = position {
        assert(views[k as int] == certs@[k as int].deep_view());
    }
}

/// All encodings are collected, in their order, or none.
pub proof fn all_encodings_are_collected(
    certs: &[CertificateChoice],
    encodings: Option<Vec<Vec<u8>>>,
)
    requires
        call_ensures(signer::collect_encodings, (certs,), encodings),
    ensures
        match encodings {
            Some(list) => {
                &&& list@.len() == certs@.len()
                &&& forall|i: int|
                    0 <= i < certs@.len() ==> cms::octets_of((#[trigger] certs@[i]).encoded)
                        == Some(list@[i]@)
            },
            None => exists|i: int| 0 <= i < certs@.len() && (#[trigger] certs@[i]).encoded is None,
        },
{
    broadcast use oid::octets_are_flat;

    let views: Seq<cms::CertificateChoiceView> = certs.deep_view();
    meaning::encodings_are_those_of_all_members(views);
    assert forall|j: int| 0 <= j < certs@.len() implies views[j]
        == (#[trigger] certs@[j]).deep_view() by {}
    match encodings {
        Some(list) => {
            assert(encodings.deep_view() == Some(list.deep_view()));
            assert forall|i: int| 0 <= i < certs@.len() implies cms::octets_of(
                (#[trigger] certs@[i]).encoded,
            ) == Some(list@[i]@) by {
                assert(views[i].encoded == Some(list.deep_view()[i]));
                assert(list.deep_view()[i] == list@[i].deep_view());
            }
        },
        None => {
            let i: int = choose|i: int|
                0 <= i < views.len() && (#[trigger] views[i]).encoded is None;
            assert(certs@[i].encoded is None);
        },
    }
}

/// Two names are the same exactly when they have as many parts, each with as many attributes, and
/// all attributes of each part are in that of the other.
pub proof fn names_that_match(a: &[Vec<Vec<u8>>], b: &[Vec<Vec<u8>>], same: bool)
    requires
        call_ensures(signer::names_match, (a, b), same),
    ensures
        ({
            let x: Seq<Seq<Seq<u8>>> = a.deep_view();
            let y: Seq<Seq<Seq<u8>>> = b.deep_view();
            same <==> {
                &&& x.len() == y.len()
                &&& forall|i: int| 0 <= i < x.len() ==> (#[trigger] x[i]).len() == y[i].len()
                &&& forall|i: int, j: int|
                    0 <= i < x.len() && 0 <= j < x[i].len() ==> y[i].contains(#[trigger] x[i][j])
                &&& forall|i: int, j: int|
                    0 <= i < y.len() && 0 <= j < y[i].len() ==> x[i].contains(#[trigger] y[i][j])
            }
        }),
{
    meaning::names_are_lists_of_sets(a.deep_view(), b.deep_view());
}

// What is found in a token.

/// What is taken out of a response is what its token is decoded as.
pub proof fn what_is_taken_out_of_a_response(
    ts: &[u8],
    data: Result<Option<SignedData>, TimeStampError>,
    der: Result<Option<Vec<u8>>, TimeStampError>,
    ordered: Result<Vec<Vec<u8>>, TimeStampError>,
    certs: Result<Option<SignerCerts>, TimeStampError>,
)
    requires
        call_ensures(cms::signed_data_from_time_stamp_response, (ts,), data),
        call_ensures(signer::tsa_signer_cert_der_from_token, (ts,), der),
        call_ensures(signer::tsa_cert_chain_der_from_token, (ts,), ordered),
        call_ensures(signer::signer_certs_from_token, (ts,), certs),
    ensures
        data matches Ok(Some(signed)) ==> {
            &&& cms::time_stamp_token(ts@) matches Some(Some(token))
            &&& token.content_type == seq![1u32, 2, 840, 113549, 1, 7, 2]
            &&& cms::decoded_signed_data(token.content) == Some(signed.deep_view())
            &&& cms::signed_content(token.content) == Some(signed.encap_content_info.deep_view())
        },
        data matches Ok(None) ==> cms::time_stamp_token(ts@) == Some(None::<cms::TokenView>),
        data is Err ==> der is Err && ordered is Err && certs is Err,
        certs matches Ok(Some(found)) ==> {
            &&& der matches Ok(Some(octets))
            &&& octets@ == found.cert_ders@[found.cert_pos as int]@
            &&& error::result_view(ordered) == chain::leaf_to_root(
                found.cert_ders.deep_view(),
                found.cert_pos as int,
            )
        },
        certs matches Ok(None) ==> {
            &&& der matches Ok(None)
            &&& ordered matches Ok(list)
            &&& list@.len() == 0
        },
        certs matches Err(error) ==> {
            &&& der matches Err(same)
            &&& same@ == error@
            &&& ordered matches Err(alike)
            &&& alike@ == error@
        },
{
    broadcast use oid::octets_are_flat;

    meaning::signed_data_is_that_in_the_token(ts@);
    if let Ok(Some(signed)) = data {
        assert(error::result_view(data) == Ok::<
            Option<cms::SignedDataView>,
            error::TimeStampErrorView,
        >(Some(signed.deep_view())));
        meaning::signed_data_is_kept(cms::time_stamp_token(ts@).unwrap().unwrap().content);
    }
    if let Ok(list) = ordered {
        assert(error::result_view(ordered) == Ok::<Seq<Seq<u8>>, error::TimeStampErrorView>(
            list.deep_view(),
        ));
        assert(list.deep_view().len() == list@.len());
    }
    if let Ok(Some(found)) = certs {
        assert(error::result_view(certs) == Ok::<
            Option<(Seq<Seq<u8>>, int)>,
            error::TimeStampErrorView,
        >(Some(found.deep_view())));
        assert(found.deep_view().0[found.cert_pos as int]
            == found.cert_ders@[found.cert_pos as int].deep_view());
        assert(error::result_view(der) is Ok);
        let octets: Vec<u8> = der->Ok_0.unwrap();
        assert(der->Ok_0.deep_view() == Some(octets.deep_view()));
    }
}

/// The time stamp information of signed content is what is decoded from it, where the content is
/// of the type for it.
pub proof fn what_is_decoded_from_signed_content(
    content: &SignedContent,
    octets: Vec<u8>,
    tst: TstInfo,
)
    requires
        content.content == Some(octets),
        call_ensures(cms::tst_info_from_content, (content,), Ok(Some(tst))),
    ensures
        content.content_type@ == seq![1u32, 2, 840, 113549, 1, 9, 16, 1, 4],
        cms::decoded_tst_head(octets@) is Some,
        cms::decoded_tst_tail(octets@) is Some,
        tst.version@ == cms::decoded_tst_head(octets@).unwrap().version,
        tst.policy@ == cms::decoded_tst_head(octets@).unwrap().policy,
        tst.message_imprint.deep_view() == cms::decoded_tst_head(octets@).unwrap().message_imprint,
        tst.serial_number@ == cms::decoded_tst_head(octets@).unwrap().serial_number,
        tst.gen_time == cms::decoded_tst_head(octets@).unwrap().gen_time,
        tst.ordering == cms::decoded_tst_head(octets@).unwrap().ordering,
        tst.nonce.deep_view() == cms::decoded_tst_head(octets@).unwrap().nonce,
        tst.accuracy.deep_view() == cms::decoded_tst_tail(octets@).unwrap().accuracy,
        cms::encoding_of(tst.tsa) == cms::decoded_tst_tail(octets@).unwrap().tsa,
        cms::encoding_of(tst.extensions) == cms::decoded_tst_tail(octets@).unwrap().extensions,
{
    let result: Result<Option<TstInfo>, TimeStampError> = Ok(Some(tst));
    assert(error::result_view(result) == Ok::<Option<cms::TstInfoView>, error::TimeStampErrorView>(
        Some(tst.deep_view()),
    ));
    meaning::information_is_that_in_the_content(content.deep_view());
    meaning::decoded_information_is_kept(octets@);
}

/// An attribute is found where there is one of the type, and it is the first one; its value is
/// handed out where it has just one.
pub proof fn the_first_attribute_is_found(
    attributes: &Vec<Attribute>,
    attribute_type: &[u32],
    i: int,
    found: Option<&Attribute>,
    value: Option<&Vec<u8>>,
)
    requires
        call_ensures(examine::find_attribute, (attributes, attribute_type), found),
        call_ensures(examine::find_single_value, (attributes, attribute_type), value),
        0 <= i < attributes@.len(),
        cms::arcs_of(attributes@[i].attribute_type) == Some(attribute_type@),
        forall|j: int|
            0 <= j < i ==> cms::arcs_of((#[trigger] attributes@[j]).attribute_type) != Some(
                attribute_type@,
            ),
    ensures
        found is Some,
        found.unwrap().deep_view() == attributes@[i].deep_view(),
        value is Some <==> attributes@[i].values@.len() == 1,
        value matches Some(octets) ==> octets@ == attributes@[i].values@[0]@,
{
    broadcast use oid::octets_are_flat;

    let views: Seq<cms::AttributeView> = attributes.deep_view();
    assert forall|j: int| 0 <= j < attributes@.len() implies views[j]
        == (#[trigger] attributes@[j]).deep_view() by {}
    assert forall|j: int| 0 <= j < i implies (#[trigger] views[j]).attribute_type != Some(
        attribute_type@,
    ) by {
        assert(views[j] == attributes@[j].deep_view());
    }
    assert(views[i] == attributes@[i].deep_view());
    meaning::the_first_attribute_of_a_type_counts(views, attribute_type@, i);
    assert(views[i].values.len() == attributes@[i].values@.len());
    if attributes@[i].values@.len() == 1 {
        assert(views[i].values[0] == attributes@[i].values@[0].deep_view());
    }
}

/// What is digested of a signer with signed attributes is their encoding.
pub proof fn the_encoding_of_the_attributes_is_digested(
    signer: &SignerInfo,
    content: Result<Option<Vec<u8>>, EncodeError>,
)
    requires
        call_ensures(examine::signed_attributes_digested_content, (signer,), content),
    ensures
        match signer.signed_attrs {
            None => content matches Ok(None),
            Some(attributes) => match attributes.encoded {
                Ok(encoded) => {
                    &&& content matches Ok(Some(octets))
                    &&& octets@ == encoded@
                },
                Err(message) => {
                    &&& content matches Err(error)
                    &&& error.message@ == message@
                },
            },
        },
{
    if let Some(attributes) = signer.signed_attrs {
        assert(signer.deep_view().signed_attrs == Some(attributes.deep_view()));
    }
}

/// A message digest is in order exactly when it is there once, was decoded, and is the computed
/// one.
pub proof fn judged_message_digests_agree(
    attribute: Option<&Attribute>,
    signed: &Option<Vec<u8>>,
    computed: &Option<Vec<u8>>,
    verdict: Result<(), Rejection>,
)
    requires
        call_ensures(examine::judge_message_digest, (attribute, signed, computed), verdict),
    ensures
        verdict is Ok <==> {
            &&& attribute is Some
            &&& attribute.unwrap().values@.len() == 1
            &&& *signed is Some
            &&& cms::octets_of(*signed) == cms::octets_of(*computed)
        },
{
    meaning::message_digests_have_to_agree(
        attribute.deep_view(),
        cms::octets_of(*signed),
        cms::octets_of(*computed),
    );
    if let Some(found) = attribute {
        assert(attribute.deep_view() == Some(found.deep_view()));
        assert(found.deep_view().values.len() == found.values@.len());
    }
    assert(verdict is Ok <==> examine::verdict_view(verdict) is Ok);
}

/// What a signature is checked against is put together from the signer, the key and what is
/// signed.
pub proof fn requests_are_made_of_what_is_signed(
    content: &SignedContent,
    signer: &SignerInfo,
    key: &CertificateKey,
    hash_alg: Option<Oid>,
    sig_alg: Option<Oid>,
    result: Result<SignatureRequest, Rejection>,
)
    requires
        call_ensures(
            examine::build_signature_request,
            (content, signer, key, hash_alg, sig_alg),
            result,
        ),
    ensures
        result is Ok <==> {
            &&& hash_alg is Some
            &&& sig_alg is Some
            &&& key.encoded is Some
            &&& match signer.signed_attrs {
                Some(attributes) => attributes.encoded is Ok,
                None => content.content is Some,
            }
        },
        result matches Ok(request) ==> {
            &&& request.sig_val@ == signer.signature@
            &&& Some(request.signing_key_der@) == cms::octets_of(key.encoded)
            &&& Some(request.hash_alg@) == hash_alg.deep_view()
            &&& Some(request.sig_alg@) == sig_alg.deep_view()
            &&& match signer.signed_attrs {
                Some(attributes) => attributes.encoded.unwrap()@ == request.tbs@,
                None => cms::octets_of(content.content) == Some(request.tbs@),
            }
        },
{
    meaning::a_signature_is_checked_against_what_is_signed(
        content.deep_view(),
        signer.deep_view(),
        key.deep_view(),
        hash_alg.deep_view(),
        sig_alg.deep_view(),
    );
    meaning::what_is_signed(content.deep_view(), signer.deep_view());
    if let Some(attributes) = signer.signed_attrs {
        assert(signer.deep_view().signed_attrs == Some(attributes.deep_view()));
    }
    match result {
        Ok(request) => {
            assert(examine::verdict_view(result) == Ok::<
                examine::SignatureRequestView,
                examine::RejectionView,
            >(request.deep_view()));
        },
        Err(rejection) => {
            assert(examine::verdict_view(result) == Err::<
                examine::SignatureRequestView,
                examine::RejectionView,
            >(rejection.deep_view()));
        },
    }
}

// The course of a verification.

/// A verification starts with the signed data in the response, all of the data and whether trust
/// is to be verified.
pub proof fn verifications_start_with_what_they_are_given<'a>(
    ts: &[u8],
    data: &'a [u8],
    verify_trust: bool,
    pending: Pending<'a>,
)
    requires
        call_ensures(
            Verification::begin,
            (ts, data, verify_trust),
            Verification::Pending(pending),
        ),
    ensures
        pending.context.data@ == data@,
        pending.context.verify_trust == verify_trust,
        pending.phase is Signature,
        pending.log@.len() == 0,
        pending.position < pending.context.signer_infos@.len(),
        cms::response_signed_data(ts@) matches Ok(Some(signed)) && {
            &&& pending.context.content.deep_view() == signed.encap_content_info
            &&& Some(pending.context.certs.deep_view()) == signed.certificates
            &&& pending.context.signer_infos.deep_view() == signed.signer_infos
        },
{
    let view: verify::PendingView = pending.deep_view();
    assert(Verification::Pending(pending).deep_view() == verify::VerificationView::Pending(view));
    meaning::how_a_verification_starts(ts@, data@, verify_trust);
    let signed: cms::SignedDataView = cms::response_signed_data(ts@)->Ok_0.unwrap();
    let certs: Seq<cms::CertificateChoiceView> = signed.certificates.unwrap();
    if exists|k: int| 0 <= k < certs.len() && (#[trigger] certs[k]).encoded is None {
    } else {
        let cx: verify::ContextView = verify::ContextView {
            content: signed.encap_content_info,
            certs,
            cert_ders: Seq::new(certs.len(), |k: int| certs[k].encoded.unwrap()),
            signer_infos: signed.signer_infos,
            data: data@,
            verify_trust,
        };
        verify::next_signer_waits_for_a_candidate(
            cx,
            0,
            error::TimeStampErrorView::InvalidData,
            Seq::empty(),
        );
        assert(view.context == cx);
        assert(pending.log.deep_view().len() == pending.log@.len());
        assert(pending.context.signer_infos.deep_view().len()
            == pending.context.signer_infos@.len());
    }
}

/// A signer is accepted only with a valid signature, in the validity period and with the digest of
/// the data; without trust this suffices.
pub proof fn what_an_answer_on_a_signature_leads_to<'a>(
    pending: Pending<'a>,
    candidate: Candidate,
    outcome: SignatureOutcome,
    next: Verification<'a>,
    computed: Option<Vec<u8>>,
)
    requires
        pending.phase == Phase::Signature(candidate),
        call_ensures(
            Verification::on_signature,
            (Verification::Pending(pending), outcome),
            next,
        ),
        cms::octets_of(computed) == examine::digest_under(
            candidate.tst.message_imprint.hash_algorithm@,
            pending.context.data@,
        ),
    ensures
        ({
            let good: bool = outcome is Valid && candidate.not_before
                <= candidate.tst.gen_time.seconds && candidate.tst.gen_time.seconds
                <= candidate.not_after && cms::octets_of(computed) == Some(
                candidate.tst.message_imprint.hashed_message@,
            );
            &&& next matches Verification::Finished(end) ==> end.result is Ok ==> good
                && !pending.context.verify_trust
            &&& good && !pending.context.verify_trust ==> {
                &&& next matches Verification::Finished(end)
                &&& end.result matches Ok(tst)
                &&& tst.deep_view() == candidate.tst.deep_view()
                &&& end.log@.len() == 1
                &&& end.log@[0].kind is Success
            }
            &&& next matches Verification::Pending(asked) ==> asked.phase is Profile ==> good
                && pending.context.verify_trust
        }),
{
    let view: verify::PendingView = pending.deep_view();
    assert(Verification::Pending(pending).deep_view() == verify::VerificationView::Pending(view));
    meaning::imprints_have_to_be_those_of_the_data(
        candidate.deep_view(),
        cms::octets_of(computed),
    );
    let verdict: Result<status::LogItemView, examine::RejectionView> = examine::imprint_verdict(
        candidate.deep_view(),
        cms::octets_of(computed),
    );
    if outcome is Valid {
        meaning::what_follows_a_valid_signature(view, candidate.deep_view());
        if let Err(rejection) = verdict {
            verify::next_signer_waits_for_a_candidate(
                view.context,
                view.position + 1,
                rejection.error,
                seq![rejection.item],
            );
            lemma_going_on_accepts_nothing(
                view.context,
                view.position + 1,
                rejection.error,
                seq![rejection.item],
            );
        }
    } else {
        meaning::a_signature_that_is_not_valid_is_not_accepted(
            view,
            candidate.deep_view(),
            outcome,
        );
        let log: Seq<status::LogItemView> = seq![
            status::finding(
                "timestamp signed data did not match signature"@,
                "timeStamp.untrusted"@,
            ),
        ];
        verify::next_signer_waits_for_a_candidate(
            view.context,
            view.position + 1,
            error::TimeStampErrorView::Untrusted,
            log,
        );
        lemma_going_on_accepts_nothing(
            view.context,
            view.position + 1,
            error::TimeStampErrorView::Untrusted,
            log,
        );
    }
    match next {
        Verification::Finished(end) => {
            assert(next.deep_view() == verify::VerificationView::Finished(end.deep_view()));
            assert(end.log.deep_view().len() == end.log@.len());
            if end.log@.len() > 0 {
                assert(end.log.deep_view()[0] == end.log@[0]@);
            }
        },
        Verification::Pending(asked) => {
            assert(next.deep_view() == verify::VerificationView::Pending(asked.deep_view()));
        },
    }
}

/// Going on with the next signer accepts nothing at once.
proof fn lemma_going_on_accepts_nothing(
    cx: verify::ContextView,
    i: int,
    error: error::TimeStampErrorView,
    log: Seq<status::LogItemView>,
)
    ensures
        verify::next_signer(cx, i, error, log) matches verify::VerificationView::Finished(end)
            ==> end.result is Err,
    decreases cx.signer_infos.len() - i,
{
    if i < cx.signer_infos.len() {
        match verify::examined(cx, cx.signer_infos[i]) {
            verify::ExaminedView::Skipped => {
                lemma_going_on_accepts_nothing(cx, i + 1, error, Seq::empty());
            },
            verify::ExaminedView::Rejected(rejection) => {
                lemma_going_on_accepts_nothing(
                    cx,
                    i + 1,
                    rejection.error,
                    seq![rejection.item],
                );
            },
            verify::ExaminedView::Candidate(_) => {},
        }
    }
}

/// A certificate that fits the profile is asked about again, with all that was asked before; one
/// that is trusted leads to the acceptance of the time stamp information that was asked about.
pub proof fn what_the_answers_on_a_certificate_lead_to<'a>(
    first: Pending<'a>,
    second: Pending<'a>,
    trial: Trial,
    outcome: ProfileOutcome,
    trusted: bool,
    asked: Verification<'a>,
    end: Verification<'a>,
)
    requires
        first.phase == Phase::Profile(trial),
        second.phase == Phase::Trust(trial),
        call_ensures(Verification::on_profile, (Verification::Pending(first), outcome), asked),
        call_ensures(Verification::on_trust, (Verification::Pending(second), trusted), end),
    ensures
        outcome.passed <==> (asked matches Verification::Pending(again) && again.phase is Trust),
        asked matches Verification::Finished(refused) ==> refused.result is Err,
        asked matches Verification::Pending(again) ==> outcome.passed ==> {
            &&& again.phase matches Phase::Trust(same)
            &&& same.deep_view() == trial.deep_view()
            &&& again.position == first.position
            &&& again.context.deep_view() == first.context.deep_view()
            &&& again.log.deep_view() == first.log.deep_view() + outcome.log.deep_view()
        },
        trusted <==> (end matches Verification::Finished(accepted) && accepted.result is Ok),
        end matches Verification::Finished(accepted) ==> trusted ==> {
            &&& accepted.result matches Ok(tst)
            &&& tst.deep_view() == trial.request.tst.deep_view()
            &&& accepted.log@.len() == second.log@.len() + 1
        },
{
    let a: verify::PendingView = first.deep_view();
    let b: verify::PendingView = second.deep_view();
    assert(Verification::Pending(first).deep_view() == verify::VerificationView::Pending(a));
    assert(Verification::Pending(second).deep_view() == verify::VerificationView::Pending(b));
    meaning::what_follows_the_check_of_the_profile(a, trial.deep_view(), outcome.deep_view());
    meaning::what_follows_the_check_of_trust(b, trial.deep_view());
    let entry: status::LogItemView = status::finding(
        "timestamp cert untrusted: "@ + trial.common_name@,
        "timeStamp.untrusted"@,
    );
    let error: error::TimeStampErrorView = error::TimeStampErrorView::Untrusted;
    let log: Seq<status::LogItemView> = (a.log + outcome.deep_view().log).push(entry);
    verify::next_signer_waits_for_a_candidate(a.context, a.position + 1, error, log);
    lemma_going_on_accepts_nothing(a.context, a.position + 1, error, log);
    lemma_going_on_accepts_nothing(b.context, b.position + 1, error, b.log.push(entry));
    match asked {
        Verification::Finished(x) => {
            assert(asked.deep_view() == verify::VerificationView::Finished(x.deep_view()));
        },
        Verification::Pending(x) => {
            assert(asked.deep_view() == verify::VerificationView::Pending(x.deep_view()));
            match x.phase {
                Phase::Signature(c) => {
                    assert(x.deep_view().phase is Signature);
                },
                Phase::Profile(t) => {
                    assert(x.deep_view().phase is Profile);
                },
                Phase::Trust(t) => {
                    assert(x.deep_view().phase == verify::PhaseView::Trust(t.deep_view()));
                },
            }
        },
    }
    match end {
        Verification::Finished(x) => {
            assert(end.deep_view() == verify::VerificationView::Finished(x.deep_view()));
            assert(x.log.deep_view().len() == x.log@.len());
            assert(second.log.deep_view().len() == second.log@.len());
            assert(x.deep_view().result is Ok <==> x.result is Ok);
        },
        Verification::Pending(x) => {
            assert(end.deep_view() == verify::VerificationView::Pending(x.deep_view()));
        },
    }
}

} // verus!
