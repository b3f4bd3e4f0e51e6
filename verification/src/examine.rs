//! What is found of a signer before and after its signature is checked.

use vstd::prelude::*;

use crate::chain;
use crate::cms::{self, Attribute, CertificateKey, SignedContent, SignerInfo, TstInfo};
use crate::digest::{self, DigestAlgorithm, HasherOutput};
use crate::error::{self, TimeStampError};
use crate::oid::{self, Oid};
use crate::status::{self, LogItem};
use crate::text;
use crate::time::{self, Time};

verus! {

/// Why a signer is not accepted, and the log entry that says so.
#[derive(Debug, PartialEq, Eq)]
pub struct Rejection {
    pub error: TimeStampError,
    pub item: LogItem,
}

/// A [`Rejection`] with its texts as sequences.
pub struct RejectionView {
    pub error: error::TimeStampErrorView,
    pub item: status::LogItemView,
}

impl DeepView for Rejection {
    type V = RejectionView;

    open spec fn deep_view(&self) -> RejectionView {
        RejectionView { error: self.error@, item: self.item@ }
    }
}

/// A decoding error, reported as a malformed time stamp.
pub open spec fn malformed(description: Seq<char>, message: Seq<char>) -> RejectionView {
    RejectionView {
        error: error::TimeStampErrorView::DecodeError(message),
        item: status::finding(description, status::TIMESTAMP_MALFORMED@),
    }
}

impl Rejection {
    /// A decoding error, reported as a malformed time stamp.
    fn malformed(description: &str, message: &str) -> (rejection: Rejection)
        ensures
            rejection.deep_view() == malformed(description@, message@),
    {
        Rejection {
            error: TimeStampError::decode(message),
            item: LogItem::informational(description, status::TIMESTAMP_MALFORMED),
        }
    }

    /// An error, reported under a status code.
    fn reported(error: TimeStampError, description: &str, code: &str) -> (rejection: Rejection)
        ensures
            rejection.deep_view() == (RejectionView {
                error: error@,
                item: status::finding(description@, code@),
            }),
    {
        Rejection { error, item: LogItem::informational(description, code) }
    }
}

/// A result with the view of its rejection.
pub open spec fn verdict_view<T: DeepView>(result: Result<T, Rejection>) -> Result<
    T::V,
    RejectionView,
> {
    match result {
        Ok(value) => Ok(value.deep_view()),
        Err(rejection) => Err(rejection.deep_view()),
    }
}

/// The first attribute of a type, at or after a position.
pub open spec fn attribute_from(
    attributes: Seq<cms::AttributeView>,
    attribute_type: Seq<u32>,
    i: int,
) -> Option<cms::AttributeView>
    decreases attributes.len() - i,
{
    if i >= attributes.len() {
        None
    } else if attributes[i].attribute_type == Some(attribute_type) {
        Some(attributes[i])
    } else {
        attribute_from(attributes, attribute_type, i + 1)
    }
}

/// The first attribute of a type.
pub open spec fn attribute_of(
    attributes: Seq<cms::AttributeView>,
    attribute_type: Seq<u32>,
) -> Option<cms::AttributeView> {
    attribute_from(attributes, attribute_type, 0)
}

/// The value of the first attribute of a type, where it has exactly one.
pub open spec fn single_value_of(
    attributes: Seq<cms::AttributeView>,
    attribute_type: Seq<u32>,
) -> Option<Seq<u8>> {
    match attribute_of(attributes, attribute_type) {
        Some(attribute) if attribute.values.len() == 1 => Some(attribute.values[0]),
        _ => None,
    }
}

/// Finds the first attribute of a type.
pub fn find_attribute<'a>(attributes: &'a Vec<Attribute>, attribute_type: &[u32]) -> (found: Option<
    &'a Attribute,
>)
    ensures
        attribute_of(attributes.deep_view(), attribute_type@) == match found {
            Some(attribute) => Some(attribute.deep_view()),
            None => None,
        },
{
    let ghost views: Seq<cms::AttributeView> = attributes.deep_view();
    let mut i: usize = 0;
    while i < attributes.len()
        invariant
            i <= attributes@.len(),
            views == attributes.deep_view(),
            attribute_of(views, attribute_type@) == attribute_from(
                views,
                attribute_type@,
                i as int,
            ),
        decreases attributes@.len() - i,
    {
        assert(views[i as int] == attributes@[i as int].deep_view());
        if let Some(present) = &attributes[i].attribute_type {
            if oid::same_arcs(present.as_slice(), attribute_type) {
                return Some(&attributes[i]);
            }
        }
        i = i + 1;
    }
    None
}

/// Finds the value of the first attribute of a type; `None` where it does not have exactly one.
pub fn find_single_value<'a>(attributes: &'a Vec<Attribute>, attribute_type: &[u32]) -> (found:
    Option<&'a Vec<u8>>)
    ensures
        single_value_of(attributes.deep_view(), attribute_type@) == match found {
            Some(value) => Some(value@),
            None => None,
        },
{
    broadcast use oid::octets_are_flat;

    match find_attribute(attributes, attribute_type) {
        Some(attribute) => {
            assert(attribute.deep_view().values.len() == attribute.values@.len());
            if attribute.values.len() == 1 {
                assert(attribute.deep_view().values[0] == attribute.values@[0]@);
                Some(&attribute.values[0])
            } else {
                None
            }
        },
        None => None,
    }
}

/// The digest of a message under the algorithm with the given identifier, where it is supported.
pub open spec fn digest_under(algorithm: Seq<u32>, message: Seq<u8>) -> Option<Seq<u8>> {
    match oid::oid_from_arcs(algorithm) {
        Some(id) => match digest::algorithm_with_oid(id) {
            Some(algorithm) => Some(digest::digest_of(algorithm, message)),
            None => None,
        },
        None => None,
    }
}

/// Digests a message under the algorithm with the given identifier; `None` where it is not
/// supported.
pub fn compute_digest(algorithm: &[u32], message: &[u8]) -> (digest: Option<Vec<u8>>)
    ensures
        cms::octets_of(digest) == digest_under(algorithm@, message@),
{
    let Some(id) = Oid::from_arcs(algorithm) else {
        return None;
    };
    match DigestAlgorithm::try_from(&id) {
        Ok(algorithm) => {
            let mut hasher: digest::Hasher = algorithm.digester();
            hasher.update(message);
            assert(hasher.message() =~= message@);
            let HasherOutput(octets) = hasher.finish();
            Some(octets)
        },
        Err(_) => None,
    }
}

/// The content of signed data, or nothing.
pub open spec fn content_octets(content: cms::SignedContentView) -> Seq<u8> {
    match content.content {
        Some(octets) => octets,
        None => Seq::empty(),
    }
}

/// The signed attributes cannot be encoded.
#[derive(Debug, PartialEq, Eq)]
pub struct EncodeError {
    /// What the encoder reported.
    pub message: String,
}

/// An [`EncodeError`] with its message as a sequence of characters.
pub struct EncodeErrorView {
    pub message: Seq<char>,
}

impl View for EncodeError {
    type V = EncodeErrorView;

    open spec fn view(&self) -> EncodeErrorView {
        EncodeErrorView { message: self.message@ }
    }
}

/// The encoding of the signed attributes of a signer.
pub open spec fn digested_attributes(signer: cms::SignerInfoView) -> Result<
    Option<Seq<u8>>,
    EncodeErrorView,
> {
    match signer.signed_attrs {
        Some(attributes) => match attributes.encoded {
            Ok(encoded) => Ok(Some(encoded)),
            Err(message) => Err(EncodeErrorView { message }),
        },
        None => Ok(None),
    }
}

/// Hands out what is digested where a signer has signed attributes: the encoding of the
/// attributes.
pub fn signed_attributes_digested_content(signer_info: &SignerInfo) -> (content: Result<
    Option<Vec<u8>>,
    EncodeError,
>)
    ensures
        digested_attributes(signer_info.deep_view()) == match content {
            Ok(encoded) => Ok(cms::octets_of(encoded)),
            Err(error) => Err(error@),
        },
{
    match &signer_info.signed_attrs {
        Some(attributes) => match &attributes.encoded {
            Ok(encoded) => Ok(Some(oid::copy_octets(encoded))),
            Err(message) => Err(EncodeError { message: message.clone() }),
        },
        None => Ok(None),
    }
}

/// What is signed: the encoding of the signed attributes where there are any, and the content
/// where there are none.
pub open spec fn signed_octets(
    content: cms::SignedContentView,
    signer: cms::SignerInfoView,
) -> Result<Seq<u8>, RejectionView> {
    match digested_attributes(signer) {
        Ok(Some(encoded)) => Ok(encoded),
        Ok(None) => match content.content {
            Some(octets) => Ok(octets),
            None => Err(
                malformed(
                    "timestamp no message digest"@,
                    "time stamp does not contain digested content"@,
                ),
            ),
        },
        Err(_) => Err(
            malformed(
                "timestamp signer attributes malformed"@,
                "timestamp signer info malformed"@,
            ),
        ),
    }
}

/// Collects what is signed.
fn collect_signed_octets(content: &SignedContent, signer: &SignerInfo) -> (octets: Result<
    Vec<u8>,
    Rejection,
>)
    ensures
        verdict_view(octets) == signed_octets(content.deep_view(), signer.deep_view()),
{
    broadcast use oid::octets_are_flat;

    match signed_attributes_digested_content(signer) {
        Ok(Some(encoded)) => Ok(encoded),
        Ok(None) => match &content.content {
            Some(octets) => Ok(oid::copy_octets(octets)),
            None => Err(
                Rejection::malformed(
                    "timestamp no message digest",
                    "time stamp does not contain digested content",
                ),
            ),
        },
        Err(_) => Err(
            Rejection::malformed(
                "timestamp signer attributes malformed",
                "timestamp signer info malformed",
            ),
        ),
    }
}

/// Whether the message digest among the signed attributes is that of the content. The arguments
/// are the attribute, its value where it could be decoded, and the digest of the content where
/// the algorithm is supported.
pub open spec fn message_digest_verdict(
    attribute: Option<cms::AttributeView>,
    signed: Option<Seq<u8>>,
    computed: Option<Seq<u8>>,
) -> Result<(), RejectionView> {
    match attribute {
        None => Err(malformed("timestamp no message digest"@, "no message imprint"@)),
        Some(attribute) => if attribute.values.len() != 1 {
            Err(
                malformed(
                    "timestamp response contained multiple message digests"@,
                    "message digest attribute has "@ + text::decimal_text(attribute.values.len())
                        + " values, should have one"@,
                ),
            )
        } else {
            match (signed, computed) {
                (None, _) => Err(
                    malformed(
                        "timestamp could not decode signed message data"@,
                        "unable to decode signed message data"@,
                    ),
                ),
                (Some(_), None) => Err(
                    malformed(
                        "timestamp bad message digest algorithm"@,
                        "unsupported digest algorithm"@,
                    ),
                ),
                (Some(signed), Some(computed)) => if signed == computed {
                    Ok(())
                } else {
                    Err(
                        RejectionView {
                            error: error::TimeStampErrorView::InvalidData,
                            item: status::finding(
                                "timestamp bad message digest"@,
                                status::TIMESTAMP_MISMATCH@,
                            ),
                        },
                    )
                },
            }
        },
    }
}

/// Judges the message digest among the signed attributes.
pub fn judge_message_digest(
    attribute: Option<&Attribute>,
    signed: &Option<Vec<u8>>,
    computed: &Option<Vec<u8>>,
) -> (verdict: Result<(), Rejection>)
    ensures
        verdict_view(verdict) == message_digest_verdict(
            attribute.deep_view(),
            cms::octets_of(*signed),
            cms::octets_of(*computed),
        ),
{
    let Some(attribute) = attribute else {
        return Err(Rejection::malformed("timestamp no message digest", "no message imprint"));
    };
    assert(attribute.deep_view().values.len() == attribute.values@.len());
    if attribute.values.len() != 1 {
        let mut message: String = "message digest attribute has ".to_string();
        let count: String = text::decimal(attribute.values.len() as u64);
        message.append(count.as_str());
        message.append(" values, should have one");
        return Err(
            Rejection::malformed(
                "timestamp response contained multiple message digests",
                message.as_str(),
            ),
        );
    }
    let Some(signed) = signed else {
        return Err(
            Rejection::malformed(
                "timestamp could not decode signed message data",
                "unable to decode signed message data",
            ),
        );
    };
    let Some(computed) = computed else {
        return Err(
            Rejection::malformed(
                "timestamp bad message digest algorithm",
                "unsupported digest algorithm",
            ),
        );
    };
    if oid::same_octets(signed.as_slice(), computed.as_slice()) {
        Ok(())
    } else {
        Err(
            Rejection::reported(
                TimeStampError::InvalidData,
                "timestamp bad message digest",
                status::TIMESTAMP_MISMATCH,
            ),
        )
    }
}

/// What a signature is to be checked against.
#[derive(Debug, PartialEq, Eq)]
pub struct SignatureRequest {
    /// The algorithm of the signing key.
    pub sig_alg: Oid,
    /// The digest algorithm.
    pub hash_alg: Oid,
    /// The signature.
    pub sig_val: Vec<u8>,
    /// What is signed.
    pub tbs: Vec<u8>,
    /// The encoding of the signing key.
    pub signing_key_der: Vec<u8>,
}

/// A [`SignatureRequest`] as sequences.
pub struct SignatureRequestView {
    pub sig_alg: oid::OidView,
    pub hash_alg: oid::OidView,
    pub sig_val: Seq<u8>,
    pub tbs: Seq<u8>,
    pub signing_key_der: Seq<u8>,
}

impl DeepView for SignatureRequest {
    type V = SignatureRequestView;

    open spec fn deep_view(&self) -> SignatureRequestView {
        SignatureRequestView {
            sig_alg: self.sig_alg@,
            hash_alg: self.hash_alg@,
            sig_val: self.sig_val@,
            tbs: self.tbs@,
            signing_key_der: self.signing_key_der@,
        }
    }
}

/// What could be read of a signer and of what it signed.
pub struct Evidence {
    /// The common name in the signer's certificate.
    pub common_name: String,
    /// The time stamp information.
    pub tst: Option<TstInfo>,
    /// The time among the signed attributes.
    pub signed_time: Option<Time>,
    /// The message digest among the signed attributes.
    pub signed_digest: Option<Vec<u8>>,
    /// The digest of the content.
    pub computed_digest: Option<Vec<u8>>,
    /// The digest algorithm.
    pub hash_alg: Option<Oid>,
    /// The algorithm of the signing key.
    pub sig_alg: Option<Oid>,
}

/// [`Evidence`] as sequences.
pub struct EvidenceView {
    pub common_name: Seq<char>,
    pub tst: Option<cms::TstInfoView>,
    pub signed_time: Option<Time>,
    pub signed_digest: Option<Seq<u8>>,
    pub computed_digest: Option<Seq<u8>>,
    pub hash_alg: Option<oid::OidView>,
    pub sig_alg: Option<oid::OidView>,
}

impl DeepView for Evidence {
    type V = EvidenceView;

    open spec fn deep_view(&self) -> EvidenceView {
        EvidenceView {
            common_name: self.common_name@,
            tst: self.tst.deep_view(),
            signed_time: self.signed_time,
            signed_digest: cms::octets_of(self.signed_digest),
            computed_digest: cms::octets_of(self.computed_digest),
            hash_alg: self.hash_alg.deep_view(),
            sig_alg: self.sig_alg.deep_view(),
        }
    }
}

/// A signer whose signature is worth checking.
pub struct Candidate {
    /// What the signature is to be checked against.
    pub request: SignatureRequest,
    /// The time stamp information, with the time among the signed attributes where there is one.
    pub tst: TstInfo,
    /// The position of the signer's certificate.
    pub cert_pos: usize,
    /// The common name in the signer's certificate.
    pub common_name: String,
    /// The start of the certificate's validity period.
    pub not_before: i64,
    /// The end of the certificate's validity period.
    pub not_after: i64,
}

/// A [`Candidate`] as sequences.
pub struct CandidateView {
    pub request: SignatureRequestView,
    pub tst: cms::TstInfoView,
    pub cert_pos: int,
    pub common_name: Seq<char>,
    pub not_before: i64,
    pub not_after: i64,
}

impl DeepView for Candidate {
    type V = CandidateView;

    open spec fn deep_view(&self) -> CandidateView {
        CandidateView {
            request: self.request.deep_view(),
            tst: self.tst.deep_view(),
            cert_pos: self.cert_pos as int,
            common_name: self.common_name@,
            not_before: self.not_before,
            not_after: self.not_after,
        }
    }
}

/// The time stamp information with the time among the signed attributes, where that one can be a
/// GeneralizedTime.
pub open spec fn with_signed_time(tst: cms::TstInfoView, signed_time: Option<Time>) -> cms::TstInfoView {
    match signed_time {
        Some(signed) => match time::generalized_time_at(signed.datetime().seconds) {
            Some(gen_time) => cms::TstInfoView { gen_time, ..tst },
            None => tst,
        },
        None => tst,
    }
}

/// Puts the time among the signed attributes into the time stamp information.
pub fn use_signed_time(tst: TstInfo, signed_time: Option<Time>) -> (updated: TstInfo)
    ensures
        updated.deep_view() == with_signed_time(tst.deep_view(), signed_time),
{
    let mut tst: TstInfo = tst;
    if let Some(signed) = signed_time {
        let signed_signing_time: i64 = time::time_to_datetime(signed).timestamp();
        if let Some(gt) = time::timestamp_to_generalized_time(signed_signing_time) {
            tst.gen_time = gt;
        }
    }
    tst
}

/// What the signature of a signer is to be checked against.
pub open spec fn signature_request_of(
    content: cms::SignedContentView,
    signer: cms::SignerInfoView,
    key: cms::CertificateKeyView,
    hash_alg: Option<oid::OidView>,
    sig_alg: Option<oid::OidView>,
) -> Result<SignatureRequestView, RejectionView> {
    match signed_octets(content, signer) {
        Err(rejection) => Err(rejection),
        Ok(tbs) => match hash_alg {
            None => Err(malformed("timestamp bad hash alg"@, "timestamp bad tbs certificate"@)),
            Some(hash_alg) => match key.encoded {
                None => Err(
                    malformed("timestamp bad signing key"@, "timestamp bad tbs certificate"@),
                ),
                Some(signing_key_der) => match sig_alg {
                    None => Err(
                        malformed(
                            "timestamp bad tbs certificate alg"@,
                            "timestamp bad tbs certificate"@,
                        ),
                    ),
                    Some(sig_alg) => Ok(
                        SignatureRequestView {
                            sig_alg,
                            hash_alg,
                            sig_val: signer.signature,
                            tbs,
                            signing_key_der,
                        },
                    ),
                },
            },
        },
    }
}

/// Puts together what the signature of a signer is to be checked against.
pub fn build_signature_request(
    content: &SignedContent,
    signer: &SignerInfo,
    key: &CertificateKey,
    hash_alg: Option<Oid>,
    sig_alg: Option<Oid>,
) -> (request: Result<SignatureRequest, Rejection>)
    ensures
        verdict_view(request) == signature_request_of(
            content.deep_view(),
            signer.deep_view(),
            key.deep_view(),
            hash_alg.deep_view(),
            sig_alg.deep_view(),
        ),
{
    broadcast use oid::octets_are_flat;

    let tbs: Vec<u8> = match collect_signed_octets(content, signer) {
        Ok(tbs) => tbs,
        Err(rejection) => {
            return Err(rejection);
        },
    };
    let Some(hash_alg) = hash_alg else {
        return Err(Rejection::malformed("timestamp bad hash alg", "timestamp bad tbs certificate"));
    };
    let Some(encoded) = &key.encoded else {
        return Err(
            Rejection::malformed("timestamp bad signing key", "timestamp bad tbs certificate"),
        );
    };
    let Some(sig_alg) = sig_alg else {
        return Err(
            Rejection::malformed(
                "timestamp bad tbs certificate alg",
                "timestamp bad tbs certificate",
            ),
        );
    };
    Ok(
        SignatureRequest {
            sig_alg,
            hash_alg,
            sig_val: oid::copy_octets(&signer.signature),
            tbs,
            signing_key_der: oid::copy_octets(encoded),
        },
    )
}

/// Whether the signed attributes of a signer agree with the content. There is nothing to check
/// where there are none.
pub open spec fn attributes_verdict(signer: cms::SignerInfoView, evidence: EvidenceView) -> Result<
    (),
    RejectionView,
> {
    match signer.signed_attrs {
        Some(signed) => message_digest_verdict(
            attribute_of(signed.attributes, oid::ID_MESSAGE_DIGEST@),
            evidence.signed_digest,
            evidence.computed_digest,
        ),
        None => Ok(()),
    }
}

/// Whether the signature of a signer is worth checking, by what could be read of it.
pub open spec fn signer_verdict(
    content: cms::SignedContentView,
    signer: cms::SignerInfoView,
    key: cms::CertificateKeyView,
    cert_pos: int,
    evidence: EvidenceView,
) -> Result<CandidateView, RejectionView> {
    match evidence.tst {
        None => Err(
            RejectionView {
                error: error::TimeStampErrorView::InvalidData,
                item: status::finding(
                    "timestamp response had no TstInfo"@,
                    status::TIMESTAMP_MALFORMED@,
                ),
            },
        ),
        Some(tst) => match attributes_verdict(signer, evidence) {
            Err(rejection) => Err(rejection),
            Ok(_) => match signature_request_of(
                content,
                signer,
                key,
                evidence.hash_alg,
                evidence.sig_alg,
            ) {
                Err(rejection) => Err(rejection),
                Ok(request) => Ok(
                    CandidateView {
                        request,
                        tst: if signer.signed_attrs is Some {
                            with_signed_time(tst, evidence.signed_time)
                        } else {
                            tst
                        },
                        cert_pos,
                        common_name: evidence.common_name,
                        not_before: key.not_before.datetime().seconds,
                        not_after: key.not_after.datetime().seconds,
                    },
                ),
            },
        },
    }
}

/// Judges whether the signature of a signer is worth checking, by what could be read of it.
pub fn judge_signer(
    content: &SignedContent,
    signer: &SignerInfo,
    key: &CertificateKey,
    cert_pos: usize,
    evidence: Evidence,
) -> (verdict: Result<Candidate, Rejection>)
    ensures
        verdict_view(verdict) == signer_verdict(
            content.deep_view(),
            signer.deep_view(),
            key.deep_view(),
            cert_pos as int,
            evidence.deep_view(),
        ),
{
    let Some(tst) = evidence.tst else {
        return Err(
            Rejection::reported(
                TimeStampError::InvalidData,
                "timestamp response had no TstInfo",
                status::TIMESTAMP_MALFORMED,
            ),
        );
    };
    let tst: TstInfo = match &signer.signed_attrs {
        Some(signed) => {
            let message_digest: Option<&Attribute> = find_attribute(
                &signed.attributes,
                &oid::ID_MESSAGE_DIGEST,
            );
            if let Err(rejection) = judge_message_digest(
                message_digest,
                &evidence.signed_digest,
                &evidence.computed_digest,
            ) {
                return Err(rejection);
            }
            use_signed_time(tst, evidence.signed_time)
        },
        None => tst,
    };
    match build_signature_request(content, signer, key, evidence.hash_alg, evidence.sig_alg) {
        Ok(request) => Ok(
            Candidate {
                request,
                tst,
                cert_pos,
                common_name: evidence.common_name,
                not_before: time::time_to_datetime(key.not_before).timestamp(),
                not_after: time::time_to_datetime(key.not_after).timestamp(),
            },
        ),
        Err(rejection) => Err(rejection),
    }
}

/// What can be read of a signer and of what it signed.
pub open spec fn evidence_of(
    content: cms::SignedContentView,
    signer: cms::SignerInfoView,
    key: cms::CertificateKeyView,
    cert_der: Seq<u8>,
) -> EvidenceView {
    EvidenceView {
        common_name: chain::common_name_of(cert_der),
        tst: match cms::content_tst_info(content) {
            Ok(Some(tst)) => Some(tst),
            _ => None,
        },
        signed_time: match signed_value_of(signer, oid::ID_SIGNING_TIME@) {
            Some(value) => cms::decoded_time(value),
            None => None,
        },
        signed_digest: match signed_value_of(signer, oid::ID_MESSAGE_DIGEST@) {
            Some(value) => cms::decoded_octets(value),
            None => None,
        },
        computed_digest: digest_under(signer.digest_algorithm, content_octets(content)),
        hash_alg: oid::oid_from_arcs(signer.digest_algorithm),
        sig_alg: oid::oid_from_arcs(key.algorithm),
    }
}

/// The value of the first signed attribute of a type, where it has exactly one.
pub open spec fn signed_value_of(
    signer: cms::SignerInfoView,
    attribute_type: Seq<u32>,
) -> Option<Seq<u8>> {
    match signer.signed_attrs {
        Some(signed) => single_value_of(signed.attributes, attribute_type),
        None => None,
    }
}

/// Finds the value of the first signed attribute of a type; `None` where it does not have
/// exactly one.
pub fn find_signed_value<'a>(signer: &'a SignerInfo, attribute_type: &[u32]) -> (found: Option<
    &'a Vec<u8>,
>)
    ensures
        signed_value_of(signer.deep_view(), attribute_type@) == match found {
            Some(value) => Some(value@),
            None => None,
        },
{
    match &signer.signed_attrs {
        Some(signed) => find_single_value(&signed.attributes, attribute_type),
        None => None,
    }
}

/// Reads what can be read of a signer and of what it signed.
pub(crate) fn gather_evidence(
    content: &SignedContent,
    signer: &SignerInfo,
    key: &CertificateKey,
    cert_der: &[u8],
) -> (evidence: Evidence)
    ensures
        evidence.deep_view() == evidence_of(
            content.deep_view(),
            signer.deep_view(),
            key.deep_view(),
            cert_der@,
        ),
{
    let tst: Option<TstInfo> = match cms::tst_info_from_content(content) {
        Ok(tst) => tst,
        Err(_) => None,
    };
    let signed_time: Option<Time> = match find_signed_value(signer, &oid::ID_SIGNING_TIME) {
        Some(value) => cms::decode_time(value.as_slice()),
        None => None,
    };
    let signed_digest: Option<Vec<u8>> = match find_signed_value(signer, &oid::ID_MESSAGE_DIGEST) {
        Some(value) => cms::decode_octets(value.as_slice()),
        None => None,
    };
    let computed_digest: Option<Vec<u8>> = match &content.content {
        Some(octets) => compute_digest(signer.digest_algorithm.as_slice(), octets.as_slice()),
        None => {
            let nothing: Vec<u8> = Vec::new();
            compute_digest(signer.digest_algorithm.as_slice(), nothing.as_slice())
        },
    };
    Evidence {
        common_name: chain::common_name(cert_der),
        tst,
        signed_time,
        signed_digest,
        computed_digest,
        hash_alg: Oid::from_arcs(signer.digest_algorithm.as_slice()),
        sig_alg: Oid::from_arcs(key.algorithm.as_slice()),
    }
}

/// Joins two texts.
pub(crate) fn join(first: &str, second: &str) -> (joined: String)
    ensures
        joined@ == first@ + second@,
{
    let mut joined: String = first.to_string();
    joined.append(second);
    joined
}

/// Whether a signer whose signature was accepted signed at a time at which it could, and the
/// data that was time-stamped. The second argument is the digest of the data, where the
/// algorithm of the message imprint is supported.
pub open spec fn imprint_verdict(candidate: CandidateView, computed: Option<Seq<u8>>) -> Result<
    status::LogItemView,
    RejectionView,
> {
    if !(candidate.not_before <= candidate.tst.gen_time.seconds <= candidate.not_after) {
        Err(
            RejectionView {
                error: error::TimeStampErrorView::ExpiredCertificate,
                item: status::finding(
                    "timestamp signer outside of certificate validity"@,
                    status::TIMESTAMP_OUTSIDE_VALIDITY@,
                ),
            },
        )
    } else {
        match computed {
            None => Err(
                RejectionView {
                    error: error::TimeStampErrorView::UnsupportedAlgorithm,
                    item: status::finding(
                        "timestamp unknown message digest algorithm"@,
                        status::TIMESTAMP_UNTRUSTED@,
                    ),
                },
            ),
            Some(computed) => if computed == candidate.tst.message_imprint.hashed_message {
                Ok(
                    status::achievement(
                        "timestamp message digest matched: "@ + candidate.common_name,
                        status::TIMESTAMP_VALIDATED@,
                    ),
                )
            } else {
                Err(
                    RejectionView {
                        error: error::TimeStampErrorView::InvalidData,
                        item: status::finding(
                            "timestamp message digest did not match: "@ + candidate.common_name,
                            status::TIMESTAMP_MISMATCH@,
                        ),
                    },
                )
            },
        }
    }
}

/// Judges whether a signer whose signature was accepted signed at a time at which it could, and
/// the data that was time-stamped.
pub fn judge_imprint(candidate: &Candidate, computed: &Option<Vec<u8>>) -> (verdict: Result<
    LogItem,
    Rejection,
>)
    ensures
        verdict_view(verdict) == imprint_verdict(
            candidate.deep_view(),
            cms::octets_of(*computed),
        ),
{
    let signing_time: i64 = time::generalized_time_to_datetime(candidate.tst.gen_time).timestamp();
    if !(signing_time >= candidate.not_before && signing_time <= candidate.not_after) {
        return Err(
            Rejection::reported(
                TimeStampError::ExpiredCertificate,
                "timestamp signer outside of certificate validity",
                status::TIMESTAMP_OUTSIDE_VALIDITY,
            ),
        );
    }
    let Some(digest) = computed else {
        return Err(
            Rejection::reported(
                TimeStampError::UnsupportedAlgorithm,
                "timestamp unknown message digest algorithm",
                status::TIMESTAMP_UNTRUSTED,
            ),
        );
    };
    if oid::same_octets(
        digest.as_slice(),
        candidate.tst.message_imprint.hashed_message.as_slice(),
    ) {
        let description: String = join(
            "timestamp message digest matched: ",
            candidate.common_name.as_str(),
        );
        Ok(LogItem::success(description.as_str(), status::TIMESTAMP_VALIDATED))
    } else {
        let description: String = join(
            "timestamp message digest did not match: ",
            candidate.common_name.as_str(),
        );
        Err(
            Rejection::reported(
                TimeStampError::InvalidData,
                description.as_str(),
                status::TIMESTAMP_MISMATCH,
            ),
        )
    }
}

} // verus!
