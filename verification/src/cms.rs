//! What a time stamp token holds, as plain values.

use rasn::der::{decode, encode};
use rasn_cms::{tsp, CertificateChoices, SignedData as Signed, SignerIdentifier as Named};
use rasn_pkix::{AlgorithmIdentifier, Name, Time as Encoded};
use vstd::prelude::*;

use crate::error::{self, TimeStampError};
use crate::oid;
use crate::time::{DateTime, GeneralizedTime, Time};

verus! {

/// The content of a time stamp token and its type.
pub struct Token {
    pub content_type: Vec<u32>,
    pub content: Vec<u8>,
}

/// A [`Token`] as sequences.
pub struct TokenView {
    pub content_type: Seq<u32>,
    pub content: Seq<u8>,
}

impl DeepView for Token {
    type V = TokenView;

    open spec fn deep_view(&self) -> TokenView {
        TokenView { content_type: self.content_type@, content: self.content@ }
    }
}

/// The content that is signed, and its type.
pub struct SignedContent {
    pub content_type: Vec<u32>,
    pub content: Option<Vec<u8>>,
}

/// A [`SignedContent`] as sequences.
pub struct SignedContentView {
    pub content_type: Seq<u32>,
    pub content: Option<Seq<u8>>,
}

impl DeepView for SignedContent {
    type V = SignedContentView;

    open spec fn deep_view(&self) -> SignedContentView {
        SignedContentView { content_type: self.content_type@, content: octets_of(self.content) }
    }
}

/// An optional string of octets as a sequence.
pub open spec fn octets_of(octets: Option<Vec<u8>>) -> Option<Seq<u8>> {
    match octets {
        Some(octets) => Some(octets@),
        None => None,
    }
}

/// An optional encoding, where something is there that may not be possible to encode, as a
/// sequence.
pub open spec fn encoding_of(encoding: Option<Option<Vec<u8>>>) -> Option<Option<Seq<u8>>> {
    match encoding {
        Some(octets) => Some(octets_of(octets)),
        None => None,
    }
}

/// An optional list of arcs as a sequence.
pub open spec fn arcs_of(arcs: Option<Vec<u32>>) -> Option<Seq<u32>> {
    match arcs {
        Some(arcs) => Some(arcs@),
        None => None,
    }
}

/// An extension of a certificate.
pub struct Extension {
    pub extn_id: Vec<u32>,
    pub extn_value: Vec<u8>,
}

/// An [`Extension`] as sequences.
pub struct ExtensionView {
    pub extn_id: Seq<u32>,
    pub extn_value: Seq<u8>,
}

impl DeepView for Extension {
    type V = ExtensionView;

    open spec fn deep_view(&self) -> ExtensionView {
        ExtensionView { extn_id: self.extn_id@, extn_value: self.extn_value@ }
    }
}

/// What a certificate is found by.
pub struct CertificateIdentity {
    /// The relative distinguished names of the issuer, each a set of encoded attributes; nothing
    /// where one of the attributes cannot be encoded.
    pub issuer: Option<Vec<Vec<Vec<u8>>>>,
    /// The serial number in decimal.
    pub serial_number: String,
    /// The extensions, where there are any.
    pub extensions: Option<Vec<Extension>>,
}

/// A [`CertificateIdentity`] as sequences.
pub struct CertificateIdentityView {
    pub issuer: Option<Seq<Seq<Seq<u8>>>>,
    pub serial_number: Seq<char>,
    pub extensions: Option<Seq<ExtensionView>>,
}

impl DeepView for CertificateIdentity {
    type V = CertificateIdentityView;

    open spec fn deep_view(&self) -> CertificateIdentityView {
        CertificateIdentityView {
            issuer: self.issuer.deep_view(),
            serial_number: self.serial_number@,
            extensions: self.extensions.deep_view(),
        }
    }
}

/// The key that a certificate holds, and when it may be used.
pub struct CertificateKey {
    /// The encoding of the subject public key info, where it can be encoded.
    pub encoded: Option<Vec<u8>>,
    /// The identifier of the key's algorithm.
    pub algorithm: Vec<u32>,
    /// The start of the validity period.
    pub not_before: Time,
    /// The end of the validity period.
    pub not_after: Time,
}

/// A [`CertificateKey`] as sequences.
pub struct CertificateKeyView {
    pub encoded: Option<Seq<u8>>,
    pub algorithm: Seq<u32>,
    pub not_before: Time,
    pub not_after: Time,
}

impl DeepView for CertificateKey {
    type V = CertificateKeyView;

    open spec fn deep_view(&self) -> CertificateKeyView {
        CertificateKeyView {
            encoded: octets_of(self.encoded),
            algorithm: self.algorithm@,
            not_before: self.not_before,
            not_after: self.not_after,
        }
    }
}

/// How a signer is found among the certificates.
pub enum SignerIdentifier {
    /// By the issuer and the serial number of its certificate.
    IssuerAndSerialNumber {
        issuer: Option<Vec<Vec<Vec<u8>>>>,
        serial_number: String,
    },
    /// By the subject key identifier in its certificate.
    SubjectKeyIdentifier(Vec<u8>),
}

/// A [`SignerIdentifier`] as sequences.
pub enum SignerIdentifierView {
    IssuerAndSerialNumber {
        issuer: Option<Seq<Seq<Seq<u8>>>>,
        serial_number: Seq<char>,
    },
    SubjectKeyIdentifier(Seq<u8>),
}

impl DeepView for SignerIdentifier {
    type V = SignerIdentifierView;

    open spec fn deep_view(&self) -> SignerIdentifierView {
        match self {
            SignerIdentifier::IssuerAndSerialNumber { issuer, serial_number } =>
                SignerIdentifierView::IssuerAndSerialNumber {
                    issuer: issuer.deep_view(),
                    serial_number: serial_number@,
                },
            SignerIdentifier::SubjectKeyIdentifier(id) =>
                SignerIdentifierView::SubjectKeyIdentifier(id@),
        }
    }
}

/// An attribute that a signer adds to the content.
pub struct Attribute {
    /// The type; nothing where it cannot be read.
    pub attribute_type: Option<Vec<u32>>,
    /// The encodings of its values.
    pub values: Vec<Vec<u8>>,
}

/// An [`Attribute`] as sequences.
pub struct AttributeView {
    pub attribute_type: Option<Seq<u32>>,
    pub values: Seq<Seq<u8>>,
}

impl DeepView for Attribute {
    type V = AttributeView;

    open spec fn deep_view(&self) -> AttributeView {
        AttributeView {
            attribute_type: arcs_of(self.attribute_type),
            values: self.values.deep_view(),
        }
    }
}

/// What `rasn` reads a time stamp response as: nothing where it is not one, and the token in it
/// where there is one.
pub uninterp spec fn time_stamp_token(response: Seq<u8>) -> Option<Option<TokenView>>;

/// Calls `rasn::der::decode` for a `rasn_cms::tsp::TimeStampResp` and hands out the content type
/// and the content of its token. The result is a function of the response alone.
#[verifier::external_body]
fn decode_response(response: &[u8]) -> (token: Option<Option<Token>>)
    ensures
        token.deep_view() == time_stamp_token(response@),
{
    decode::<tsp::TimeStampResp>(response).ok().map(
        |response| response.time_stamp_token.map(
            |token| Token {
                content_type: token.content_type.to_vec(),
                content: token.content.as_bytes().to_vec(),
            },
        ),
    )
}

/// The content inside the signed data that `rasn` reads from its encoding.
pub uninterp spec fn signed_content(der: Seq<u8>) -> Option<SignedContentView>;

/// Calls `rasn::der::decode` for a `rasn_cms::SignedData` and hands out its content. The result
/// is a function of the encoding alone.
#[verifier::external_body]
fn decode_content(der: &[u8]) -> (content: Option<SignedContent>)
    ensures
        content.deep_view() == signed_content(der@),
{
    decode::<Signed>(der).ok().map(
        |data| SignedContent {
            content_type: data.encap_content_info.content_type.to_vec(),
            content: data.encap_content_info.content.map(|content| content.to_vec()),
        },
    )
}

/// The certificates inside the signed data that `rasn` reads from its encoding, encoded again:
/// one entry for each member of the set, and nothing in it where the member is not an X.509
/// certificate.
pub uninterp spec fn certificate_encodings(der: Seq<u8>) -> Option<Seq<Option<Seq<u8>>>>;

/// Calls `rasn::der::decode` for a `rasn_cms::SignedData` and `rasn::der::encode` for each
/// certificate in it. The result is a function of the encoding alone.
#[verifier::external_body]
fn encode_certificates(der: &[u8]) -> (encodings: Option<Vec<Option<Vec<u8>>>>)
    ensures
        encodings.deep_view() == certificate_encodings(der@),
{
    decode::<Signed>(der).ok().and_then(|data| data.certificates).map(
        |set| set.to_vec().into_iter().map(
            |choice| match choice {
                CertificateChoices::Certificate(certificate) => encode(certificate).ok(),
                _ => None,
            },
        ).collect(),
    )
}

/// What the certificates inside the signed data are found by, as `rasn` reads it from the
/// encoding.
pub uninterp spec fn certificate_identities(der: Seq<u8>) -> Option<
    Seq<Option<CertificateIdentityView>>,
>;

/// Calls `rasn::der::decode` for a `rasn_cms::SignedData` and hands out what its certificates
/// are found by; an attribute of a name is handed out as `rasn::der::encode` writes it, which is
/// the same for two attributes exactly when they are equal; nothing is handed out for a name with
/// an attribute that cannot be encoded. The result is a function of the encoding alone.
#[verifier::external_body]
fn decode_identities(der: &[u8]) -> (identities: Option<Vec<Option<CertificateIdentity>>>)
    ensures
        identities.deep_view() == certificate_identities(der@),
{
    let set = decode::<Signed>(der).ok()?.certificates?;
    Some(set.to_vec().into_iter().map(|choice| {
        let CertificateChoices::Certificate(certificate) = choice else { return None };
        let Name::RdnSequence(rdns) = &certificate.tbs_certificate.issuer;
        Some(CertificateIdentity {
            issuer: rdns.iter().map(|rdn| rdn.to_vec().into_iter().map(
                |attribute| encode(attribute).ok()).collect()).collect(),
            serial_number: certificate.tbs_certificate.serial_number.to_string(),
            extensions: certificate.tbs_certificate.extensions.as_ref().map(|list| list.iter().map(
                |e| Extension { extn_id: e.extn_id.to_vec(), extn_value: e.extn_value.to_vec() },
            ).collect()),
        })
    }).collect())
}

/// The keys in the certificates inside the signed data, as `rasn` reads them from the encoding.
pub uninterp spec fn certificate_keys(der: Seq<u8>) -> Option<Seq<Option<CertificateKeyView>>>;

/// Calls `rasn::der::decode` for a `rasn_cms::SignedData` and hands out the keys and validity
/// periods of its certificates, the key info as `rasn::der::encode` writes it. The result is a
/// function of the encoding alone.
#[verifier::external_body]
fn decode_keys(der: &[u8]) -> (keys: Option<Vec<Option<CertificateKey>>>)
    ensures
        keys.deep_view() == certificate_keys(der@),
{
    let set = decode::<Signed>(der).ok()?.certificates?;
    let time = |time| match time {
        Encoded::Utc(time) => Time::Utc(DateTime {
            seconds: time.timestamp(), nanos: time.timestamp_subsec_nanos() }),
        Encoded::General(time) => Time::General(GeneralizedTime {
            seconds: time.timestamp(), nanos: time.timestamp_subsec_nanos() }),
    };
    Some(set.to_vec().into_iter().map(|choice| {
        let CertificateChoices::Certificate(certificate) = choice else { return None };
        let tbs = &certificate.tbs_certificate;
        Some(CertificateKey { encoded: encode(&tbs.subject_public_key_info).ok(),
            algorithm: tbs.subject_public_key_info.algorithm.algorithm.to_vec(),
            not_before: time(tbs.validity.not_before), not_after: time(tbs.validity.not_after) })
    }).collect())
}

/// A signer without its signed attributes.
pub struct Signer {
    pub sid: SignerIdentifier,
    pub digest_algorithm: Vec<u32>,
    pub signature: Vec<u8>,
}

/// A [`Signer`] as sequences.
pub struct SignerView {
    pub sid: SignerIdentifierView,
    pub digest_algorithm: Seq<u32>,
    pub signature: Seq<u8>,
}

impl DeepView for Signer {
    type V = SignerView;

    open spec fn deep_view(&self) -> SignerView {
        SignerView {
            sid: self.sid.deep_view(),
            digest_algorithm: self.digest_algorithm@,
            signature: self.signature@,
        }
    }
}

/// The signers inside the signed data that `rasn` reads from its encoding.
pub uninterp spec fn signers(der: Seq<u8>) -> Option<Seq<SignerView>>;

/// Calls `rasn::der::decode` for a `rasn_cms::SignedData` and hands out its signers, the
/// attributes of a name as `rasn::der::encode` writes them; nothing is handed out for a name with
/// an attribute that cannot be encoded. The result is a function of the encoding alone.
#[verifier::external_body]
fn decode_signers(der: &[u8]) -> (list: Option<Vec<Signer>>)
    ensures
        list.deep_view() == signers(der@),
{
    decode::<Signed>(der).ok().map(|data| data.signer_infos.to_vec().into_iter().map(|signer| Signer {
        sid: match &signer.sid {
            Named::IssuerAndSerialNumber(id) => {
                let Name::RdnSequence(rdns) = &id.issuer;
                SignerIdentifier::IssuerAndSerialNumber {
                    issuer: rdns.iter().map(|rdn| rdn.to_vec().into_iter().map(
                        |attribute| encode(attribute).ok()).collect()).collect(),
                    serial_number: id.serial_number.to_string() }
            },
            Named::SubjectKeyIdentifier(id) => SignerIdentifier::SubjectKeyIdentifier(id.to_vec()),
        },
        digest_algorithm: signer.digest_algorithm.algorithm.to_vec(),
        signature: signer.signature.to_vec(),
    }).collect())
}

/// The signed attributes of a signer.
pub struct SignedAttributes {
    pub attributes: Vec<Attribute>,
    /// The encoding of the set, or why it cannot be encoded.
    pub encoded: Result<Vec<u8>, String>,
}

/// [`SignedAttributes`] as sequences.
pub struct SignedAttributesView {
    pub attributes: Seq<AttributeView>,
    pub encoded: Result<Seq<u8>, Seq<char>>,
}

impl DeepView for SignedAttributes {
    type V = SignedAttributesView;

    open spec fn deep_view(&self) -> SignedAttributesView {
        SignedAttributesView {
            attributes: self.attributes.deep_view(),
            encoded: match self.encoded {
                Ok(encoded) => Ok(encoded@),
                Err(message) => Err(message@),
            },
        }
    }
}

/// The signed attributes of the signers inside the signed data, as `rasn` reads them from the
/// encoding.
pub uninterp spec fn signed_attributes(der: Seq<u8>) -> Option<Seq<Option<SignedAttributesView>>>;

/// Calls `rasn::der::decode` for a `rasn_cms::SignedData` and hands out the signed attributes of
/// its signers, one by one and as `rasn::der::encode` writes them, or the kind of error that it
/// reports. The type of an attribute is read with `rasn::der::decode` from what
/// `rasn::der::encode` writes for it, which is an identifier and something else, as in an
/// algorithm identifier; nothing is handed out where that fails. The result is a function of the
/// encoding alone.
#[verifier::external_body]
fn decode_attributes(der: &[u8]) -> (attributes: Option<Vec<Option<SignedAttributes>>>)
    ensures
        attributes.deep_view() == signed_attributes(der@),
{
    let data = decode::<Signed>(der).ok()?;
    Some(data.signer_infos.to_vec().into_iter().map(|signer| signer.signed_attrs.as_ref().map(
        |set| SignedAttributes {
            encoded: encode(set).map_err(|error| error.kind.to_string()),
            attributes: set.to_vec().into_iter().map(|attribute| Attribute {
                attribute_type: encode(attribute).ok().and_then(
                    |der| decode::<AlgorithmIdentifier>(&der).ok(),
                ).map(|pair| pair.algorithm.to_vec()),
                values: attribute.values.to_vec().into_iter().map(|v| v.as_bytes().to_vec()).collect(),
            }).collect(),
        },
    )).collect())
}

/// The time that `rasn` reads from its encoding.
pub uninterp spec fn decoded_time(der: Seq<u8>) -> Option<Time>;

/// Calls `rasn::der::decode` for a `rasn_pkix::Time`. The result is a function of the encoding
/// alone.
#[verifier::external_body]
pub(crate) fn decode_time(der: &[u8]) -> (time: Option<Time>)
    ensures
        time == decoded_time(der@),
{
    decode::<Encoded>(der).ok().map(|time| match time {
        Encoded::Utc(time) => Time::Utc(DateTime {
            seconds: time.timestamp(), nanos: time.timestamp_subsec_nanos() }),
        Encoded::General(time) => Time::General(GeneralizedTime {
            seconds: time.timestamp(), nanos: time.timestamp_subsec_nanos() }),
    })
}

/// The octets that `rasn` reads from the encoding of an octet string.
pub uninterp spec fn decoded_octets(der: Seq<u8>) -> Option<Seq<u8>>;

/// Calls `rasn::der::decode` for a `rasn::types::OctetString`. The result is a function of the
/// encoding alone.
#[verifier::external_body]
pub(crate) fn decode_octets(der: &[u8]) -> (octets: Option<Vec<u8>>)
    ensures
        octets_of(octets) == decoded_octets(der@),
{
    decode::<rasn::types::OctetString>(der).ok().map(|octets| octets.to_vec())
}

/// What was time-stamped: the digest of the data.
#[derive(Debug, PartialEq, Eq)]
pub struct MessageImprint {
    /// The identifier of the digest algorithm.
    pub hash_algorithm: Vec<u32>,
    /// The encoding of the parameters of the digest algorithm, where there are any.
    pub hash_parameters: Option<Vec<u8>>,
    /// The digest.
    pub hashed_message: Vec<u8>,
}

/// A [`MessageImprint`] as sequences.
pub struct MessageImprintView {
    pub hash_algorithm: Seq<u32>,
    pub hash_parameters: Option<Seq<u8>>,
    pub hashed_message: Seq<u8>,
}

impl DeepView for MessageImprint {
    type V = MessageImprintView;

    open spec fn deep_view(&self) -> MessageImprintView {
        MessageImprintView {
            hash_algorithm: self.hash_algorithm@,
            hash_parameters: octets_of(self.hash_parameters),
            hashed_message: self.hashed_message@,
        }
    }
}

/// How far the time in a time stamp may be off. The numbers are in decimal.
#[derive(Debug, PartialEq, Eq)]
pub struct Accuracy {
    pub seconds: Option<String>,
    pub millis: Option<String>,
    pub micros: Option<String>,
}

/// An [`Accuracy`] as sequences.
pub struct AccuracyView {
    pub seconds: Option<Seq<char>>,
    pub millis: Option<Seq<char>>,
    pub micros: Option<Seq<char>>,
}

impl DeepView for Accuracy {
    type V = AccuracyView;

    open spec fn deep_view(&self) -> AccuracyView {
        AccuracyView {
            seconds: self.seconds.deep_view(),
            millis: self.millis.deep_view(),
            micros: self.micros.deep_view(),
        }
    }
}

/// The information in a time stamp. Its numbers are in decimal.
#[derive(Debug, PartialEq, Eq)]
pub struct TstInfo {
    pub version: String,
    /// The policy under which the time stamp was made.
    pub policy: Vec<u32>,
    pub message_imprint: MessageImprint,
    pub serial_number: String,
    /// The time of the time stamp.
    pub gen_time: GeneralizedTime,
    pub accuracy: Option<Accuracy>,
    /// Whether time stamps of this authority can be ordered by their times alone.
    pub ordering: bool,
    pub nonce: Option<String>,
    /// The encoding of the authority's name, where the name is there; nothing inside where it
    /// cannot be encoded.
    pub tsa: Option<Option<Vec<u8>>>,
    /// The encoding of the extensions, where they are there; nothing inside where they cannot be
    /// encoded.
    pub extensions: Option<Option<Vec<u8>>>,
}

/// A [`TstInfo`] as sequences.
pub struct TstInfoView {
    pub version: Seq<char>,
    pub policy: Seq<u32>,
    pub message_imprint: MessageImprintView,
    pub serial_number: Seq<char>,
    pub gen_time: GeneralizedTime,
    pub accuracy: Option<AccuracyView>,
    pub ordering: bool,
    pub nonce: Option<Seq<char>>,
    pub tsa: Option<Option<Seq<u8>>>,
    pub extensions: Option<Option<Seq<u8>>>,
}

impl DeepView for TstInfo {
    type V = TstInfoView;

    open spec fn deep_view(&self) -> TstInfoView {
        TstInfoView {
            version: self.version@,
            policy: self.policy@,
            message_imprint: self.message_imprint.deep_view(),
            serial_number: self.serial_number@,
            gen_time: self.gen_time,
            accuracy: self.accuracy.deep_view(),
            ordering: self.ordering,
            nonce: self.nonce.deep_view(),
            tsa: encoding_of(self.tsa),
            extensions: encoding_of(self.extensions),
        }
    }
}

/// The part of the time stamp information that says what was time-stamped and when.
pub struct TstHead {
    pub version: String,
    pub policy: Vec<u32>,
    pub message_imprint: MessageImprint,
    pub serial_number: String,
    pub gen_time: GeneralizedTime,
    pub ordering: bool,
    pub nonce: Option<String>,
}

/// A [`TstHead`] as sequences.
pub struct TstHeadView {
    pub version: Seq<char>,
    pub policy: Seq<u32>,
    pub message_imprint: MessageImprintView,
    pub serial_number: Seq<char>,
    pub gen_time: GeneralizedTime,
    pub ordering: bool,
    pub nonce: Option<Seq<char>>,
}

impl DeepView for TstHead {
    type V = TstHeadView;

    open spec fn deep_view(&self) -> TstHeadView {
        TstHeadView {
            version: self.version@,
            policy: self.policy@,
            message_imprint: self.message_imprint.deep_view(),
            serial_number: self.serial_number@,
            gen_time: self.gen_time,
            ordering: self.ordering,
            nonce: self.nonce.deep_view(),
        }
    }
}

/// The part of the time stamp information that says more about the authority.
pub struct TstTail {
    pub accuracy: Option<Accuracy>,
    pub tsa: Option<Option<Vec<u8>>>,
    pub extensions: Option<Option<Vec<u8>>>,
}

/// A [`TstTail`] as sequences.
pub struct TstTailView {
    pub accuracy: Option<AccuracyView>,
    pub tsa: Option<Option<Seq<u8>>>,
    pub extensions: Option<Option<Seq<u8>>>,
}

impl DeepView for TstTail {
    type V = TstTailView;

    open spec fn deep_view(&self) -> TstTailView {
        TstTailView {
            accuracy: self.accuracy.deep_view(),
            tsa: encoding_of(self.tsa),
            extensions: encoding_of(self.extensions),
        }
    }
}

/// The head of the time stamp information that `rasn` reads from its encoding.
pub uninterp spec fn decoded_tst_head(der: Seq<u8>) -> Option<TstHeadView>;

/// Calls `rasn::der::decode` for a `rasn_cms::tsp::TstInfo` and hands out its head. The result is
/// a function of the encoding alone.
#[verifier::external_body]
fn decode_tst_head(der: &[u8]) -> (head: Option<TstHead>)
    ensures
        head.deep_view() == decoded_tst_head(der@),
{
    decode::<tsp::TstInfo>(der).ok().map(|info| TstHead {
        version: info.version.to_string(),
        policy: info.policy.to_vec(),
        message_imprint: MessageImprint {
            hash_algorithm: info.message_imprint.hash_algorithm.algorithm.to_vec(),
            hash_parameters: info.message_imprint.hash_algorithm.parameters.map(|any| any.into_bytes()),
            hashed_message: info.message_imprint.hashed_message.to_vec(),
        },
        serial_number: info.serial_number.to_string(),
        gen_time: GeneralizedTime {
            seconds: info.gen_time.timestamp(), nanos: info.gen_time.timestamp_subsec_nanos() },
        ordering: info.ordering,
        nonce: info.nonce.map(|nonce| nonce.to_string()),
    })
}

/// The tail of the time stamp information that `rasn` reads from its encoding.
pub uninterp spec fn decoded_tst_tail(der: Seq<u8>) -> Option<TstTailView>;

/// Calls `rasn::der::decode` for a `rasn_cms::tsp::TstInfo` and hands out its tail, the name of
/// the authority and the extensions as `rasn::der::encode` writes them. The result is a function
/// of the encoding alone.
#[verifier::external_body]
fn decode_tst_tail(der: &[u8]) -> (tail: Option<TstTail>)
    ensures
        tail.deep_view() == decoded_tst_tail(der@),
{
    decode::<tsp::TstInfo>(der).ok().map(|info| TstTail {
        accuracy: info.accuracy.map(|accuracy| Accuracy {
            seconds: accuracy.seconds.map(|number| number.to_string()),
            millis: accuracy.millis.map(|number| number.to_string()),
            micros: accuracy.micros.map(|number| number.to_string()),
        }),
        tsa: info.tsa.map(|name| encode(&name).ok()),
        extensions: info.extensions.map(|list| encode(&list).ok()),
    })
}

/// The time stamp information with the given head and tail.
pub open spec fn assembled_tst_info(head: TstHeadView, tail: TstTailView) -> TstInfoView {
    TstInfoView {
        version: head.version,
        policy: head.policy,
        message_imprint: head.message_imprint,
        serial_number: head.serial_number,
        gen_time: head.gen_time,
        accuracy: tail.accuracy,
        ordering: head.ordering,
        nonce: head.nonce,
        tsa: tail.tsa,
        extensions: tail.extensions,
    }
}

/// The time stamp information with the given encoding, where it is one.
pub open spec fn decoded_tst_info(der: Seq<u8>) -> Option<TstInfoView> {
    match (decoded_tst_head(der), decoded_tst_tail(der)) {
        (Some(head), Some(tail)) => Some(assembled_tst_info(head, tail)),
        _ => None,
    }
}

/// Puts the time stamp information together from its head and its tail.
pub fn assemble_tst_info(head: TstHead, tail: TstTail) -> (info: TstInfo)
    ensures
        info.deep_view() == assembled_tst_info(head.deep_view(), tail.deep_view()),
{
    TstInfo {
        version: head.version,
        policy: head.policy,
        message_imprint: head.message_imprint,
        serial_number: head.serial_number,
        gen_time: head.gen_time,
        accuracy: tail.accuracy,
        ordering: head.ordering,
        nonce: head.nonce,
        tsa: tail.tsa,
        extensions: tail.extensions,
    }
}

/// Decodes time stamp information.
fn decode_tst_info(der: &[u8]) -> (info: Option<TstInfo>)
    ensures
        info.deep_view() == decoded_tst_info(der@),
{
    match (decode_tst_head(der), decode_tst_tail(der)) {
        (Some(head), Some(tail)) => Some(assemble_tst_info(head, tail)),
        _ => None,
    }
}

/// A member of the certificate set.
pub struct CertificateChoice {
    /// The encoding of the certificate; nothing where the member is not an X.509 certificate.
    pub encoded: Option<Vec<u8>>,
    /// What the certificate is found by.
    pub identity: Option<CertificateIdentity>,
    /// The key that the certificate holds.
    pub key: Option<CertificateKey>,
}

/// A [`CertificateChoice`] as sequences.
pub struct CertificateChoiceView {
    pub encoded: Option<Seq<u8>>,
    pub identity: Option<CertificateIdentityView>,
    pub key: Option<CertificateKeyView>,
}

impl DeepView for CertificateChoice {
    type V = CertificateChoiceView;

    open spec fn deep_view(&self) -> CertificateChoiceView {
        CertificateChoiceView {
            encoded: octets_of(self.encoded),
            identity: self.identity.deep_view(),
            key: self.key.deep_view(),
        }
    }
}

/// One signer of the content.
pub struct SignerInfo {
    pub sid: SignerIdentifier,
    /// The identifier of the digest algorithm.
    pub digest_algorithm: Vec<u32>,
    pub signed_attrs: Option<SignedAttributes>,
    pub signature: Vec<u8>,
}

/// A [`SignerInfo`] as sequences.
pub struct SignerInfoView {
    pub sid: SignerIdentifierView,
    pub digest_algorithm: Seq<u32>,
    pub signed_attrs: Option<SignedAttributesView>,
    pub signature: Seq<u8>,
}

impl DeepView for SignerInfo {
    type V = SignerInfoView;

    open spec fn deep_view(&self) -> SignerInfoView {
        SignerInfoView {
            sid: self.sid.deep_view(),
            digest_algorithm: self.digest_algorithm@,
            signed_attrs: self.signed_attrs.deep_view(),
            signature: self.signature@,
        }
    }
}

/// The signed data in a time stamp token.
pub struct SignedData {
    /// The content and its type.
    pub encap_content_info: SignedContent,
    /// The certificates that came with the token, where there are any.
    pub certificates: Option<Vec<CertificateChoice>>,
    pub signer_infos: Vec<SignerInfo>,
}

/// [`SignedData`] as sequences.
pub struct SignedDataView {
    pub encap_content_info: SignedContentView,
    pub certificates: Option<Seq<CertificateChoiceView>>,
    pub signer_infos: Seq<SignerInfoView>,
}

impl DeepView for SignedData {
    type V = SignedDataView;

    open spec fn deep_view(&self) -> SignedDataView {
        SignedDataView {
            encap_content_info: self.encap_content_info.deep_view(),
            certificates: self.certificates.deep_view(),
            signer_infos: self.signer_infos.deep_view(),
        }
    }
}

/// The entry of an optional list at a position, where there is one.
pub open spec fn entry<T>(list: Option<Seq<Option<T>>>, i: int) -> Option<T> {
    match list {
        Some(list) if 0 <= i < list.len() => list[i],
        _ => None,
    }
}

/// The members of a certificate set, put together from what is known of each.
pub open spec fn assembled_certificates(
    encodings: Seq<Option<Seq<u8>>>,
    identities: Option<Seq<Option<CertificateIdentityView>>>,
    keys: Option<Seq<Option<CertificateKeyView>>>,
) -> Seq<CertificateChoiceView> {
    Seq::new(
        encodings.len(),
        |i: int|
            CertificateChoiceView {
                encoded: encodings[i],
                identity: entry(identities, i),
                key: entry(keys, i),
            },
    )
}

/// The certificates inside the signed data with the given encoding.
pub open spec fn certificates_of(der: Seq<u8>) -> Option<Seq<CertificateChoiceView>> {
    match certificate_encodings(der) {
        Some(encodings) => Some(
            assembled_certificates(encodings, certificate_identities(der), certificate_keys(der)),
        ),
        None => None,
    }
}

/// A signer with its signed attributes.
pub open spec fn signer_with(
    signer: SignerView,
    signed_attrs: Option<SignedAttributesView>,
) -> SignerInfoView {
    SignerInfoView {
        sid: signer.sid,
        digest_algorithm: signer.digest_algorithm,
        signed_attrs,
        signature: signer.signature,
    }
}

/// The signers, put together from what is known of each.
pub open spec fn assembled_signers(
    list: Seq<SignerView>,
    attributes: Option<Seq<Option<SignedAttributesView>>>,
) -> Seq<SignerInfoView> {
    Seq::new(list.len(), |i: int| signer_with(list[i], entry(attributes, i)))
}

/// The signers inside the signed data with the given encoding.
pub open spec fn signer_infos_of(der: Seq<u8>) -> Seq<SignerInfoView> {
    match signers(der) {
        Some(list) => assembled_signers(list, signed_attributes(der)),
        None => Seq::empty(),
    }
}

/// The signed data with the given encoding, where it is one.
pub open spec fn decoded_signed_data(der: Seq<u8>) -> Option<SignedDataView> {
    match signed_content(der) {
        Some(content) => Some(
            SignedDataView {
                encap_content_info: content,
                certificates: certificates_of(der),
                signer_infos: signer_infos_of(der),
            },
        ),
        None => None,
    }
}

/// Takes the entry at a position out of an optional list.
fn take_entry<T: DeepView>(list: &mut Option<Vec<Option<T>>>, i: usize) -> (taken: Option<T>)
    ensures
        taken.deep_view() == entry(old(list).deep_view(), i as int),
        forall|j: int|
            j != i ==> #[trigger] entry(final(list).deep_view(), j) == entry(
                old(list).deep_view(),
                j,
            ),
{
    match list {
        Some(list) => {
            if i < list.len() {
                let mut taken: Option<T> = None;
                std::mem::swap(&mut taken, &mut list[i]);
                taken
            } else {
                None
            }
        },
        None => None,
    }
}

/// Puts the members of a certificate set together from what is known of each.
pub fn assemble_certificates(
    encodings: Vec<Option<Vec<u8>>>,
    identities: Option<Vec<Option<CertificateIdentity>>>,
    keys: Option<Vec<Option<CertificateKey>>>,
) -> (certificates: Vec<CertificateChoice>)
    ensures
        certificates.deep_view() == assembled_certificates(
            encodings.deep_view(),
            identities.deep_view(),
            keys.deep_view(),
        ),
{
    broadcast use oid::octets_are_flat;

    let ghost all_identities: Option<Seq<Option<CertificateIdentityView>>> = identities.deep_view();
    let ghost all_keys: Option<Seq<Option<CertificateKeyView>>> = keys.deep_view();
    let ghost wanted: Seq<CertificateChoiceView> = assembled_certificates(
        encodings.deep_view(),
        all_identities,
        all_keys,
    );
    let mut identities: Option<Vec<Option<CertificateIdentity>>> = identities;
    let mut keys: Option<Vec<Option<CertificateKey>>> = keys;
    let n: usize = encodings.len();
    let mut certificates: Vec<CertificateChoice> = Vec::new();
    let mut i: usize = 0;
    for encoded in it: encodings
        invariant
            i == it.index(),
            it.seq().len() == n,
            wanted == assembled_certificates(encodings.deep_view(), all_identities, all_keys),
            wanted.len() == n,
            it.seq() == encodings@,
            forall|j: int|
                i <= j ==> #[trigger] entry(identities.deep_view(), j) == entry(all_identities, j),
            forall|j: int| i <= j ==> #[trigger] entry(keys.deep_view(), j) == entry(all_keys, j),
            certificates@.len() == i,
            forall|j: int| 0 <= j < i ==> certificates@[j].deep_view() == #[trigger] wanted[j],
    {
        assert(encodings.deep_view()[i as int] == octets_of(encoded));
        let identity: Option<CertificateIdentity> = take_entry(&mut identities, i);
        let key: Option<CertificateKey> = take_entry(&mut keys, i);
        let certificate: CertificateChoice = CertificateChoice { encoded, identity, key };
        assert(certificate.deep_view() == wanted[i as int]);
        certificates.push(certificate);
        i = i + 1;
    }
    assert(certificates.deep_view() =~= wanted);
    certificates
}

/// Decodes the certificates of signed data.
fn decode_certificates(der: &[u8]) -> (certificates: Option<Vec<CertificateChoice>>)
    ensures
        certificates.deep_view() == certificates_of(der@),
{
    match encode_certificates(der) {
        Some(encodings) => Some(
            assemble_certificates(encodings, decode_identities(der), decode_keys(der)),
        ),
        None => None,
    }
}

/// Puts the signers together from what is known of each.
pub fn assemble_signers(
    list: Vec<Signer>,
    attributes: Option<Vec<Option<SignedAttributes>>>,
) -> (signer_infos: Vec<SignerInfo>)
    ensures
        signer_infos.deep_view() == assembled_signers(list.deep_view(), attributes.deep_view()),
{
    let ghost all_attributes: Option<Seq<Option<SignedAttributesView>>> = attributes.deep_view();
    let ghost wanted: Seq<SignerInfoView> = assembled_signers(list.deep_view(), all_attributes);
    let mut attributes: Option<Vec<Option<SignedAttributes>>> = attributes;
    let mut signer_infos: Vec<SignerInfo> = Vec::new();
    let n: usize = list.len();
    let mut i: usize = 0;
    for signer in it: list
        invariant
            i == it.index(),
            it.seq().len() == n,
            wanted == assembled_signers(list.deep_view(), all_attributes),
            wanted.len() == n,
            it.seq() == list@,
            forall|j: int|
                i <= j ==> #[trigger] entry(attributes.deep_view(), j) == entry(all_attributes, j),
            signer_infos@.len() == i,
            forall|j: int| 0 <= j < i ==> signer_infos@[j].deep_view() == #[trigger] wanted[j],
    {
        assert(list.deep_view()[i as int] == signer.deep_view());
        let signed_attrs: Option<SignedAttributes> = take_entry(&mut attributes, i);
        let signer_info: SignerInfo = SignerInfo {
            sid: signer.sid,
            digest_algorithm: signer.digest_algorithm,
            signed_attrs,
            signature: signer.signature,
        };
        assert(signer_info.deep_view() == wanted[i as int]);
        signer_infos.push(signer_info);
        i = i + 1;
    }
    assert(signer_infos.deep_view() =~= wanted);
    signer_infos
}

/// Decodes the signers of signed data.
fn decode_signer_infos(der: &[u8]) -> (signer_infos: Vec<SignerInfo>)
    ensures
        signer_infos.deep_view() == signer_infos_of(der@),
{
    match decode_signers(der) {
        Some(list) => assemble_signers(list, decode_attributes(der)),
        None => {
            let signer_infos: Vec<SignerInfo> = Vec::new();
            assert(signer_infos.deep_view() =~= Seq::empty());
            signer_infos
        },
    }
}

/// Decodes signed data.
fn decode_signed_data(der: &[u8]) -> (data: Option<SignedData>)
    ensures
        data.deep_view() == decoded_signed_data(der@),
{
    let Some(encap_content_info) = decode_content(der) else {
        return None;
    };
    Some(
        SignedData {
            encap_content_info,
            certificates: decode_certificates(der),
            signer_infos: decode_signer_infos(der),
        },
    )
}

/// The content of a token that holds signed data.
pub open spec fn token_content_of(token: Option<Option<TokenView>>) -> Result<
    Option<Seq<u8>>,
    error::TimeStampErrorView,
> {
    match token {
        None => Err(error::TimeStampErrorView::DecodeError("unable to decode time stamp response"@)),
        Some(None) => Ok(None),
        Some(Some(token)) => if token.content_type == oid::ID_SIGNED_DATA@ {
            Ok(Some(token.content))
        } else {
            Err(error::TimeStampErrorView::DecodeError("invalid OID for signed data"@))
        },
    }
}

/// Takes the content out of a token that holds signed data; `None` where there is no token.
pub fn token_content(token: Option<Option<Token>>) -> (content: Result<
    Option<Vec<u8>>,
    TimeStampError,
>)
    ensures
        error::result_view(content) == token_content_of(token.deep_view()),
{
    broadcast use oid::octets_are_flat;

    match token {
        None => Err(TimeStampError::decode("unable to decode time stamp response")),
        Some(None) => Ok(None),
        Some(Some(token)) => {
            if oid::same_arcs(token.content_type.as_slice(), &oid::ID_SIGNED_DATA) {
                Ok(Some(token.content))
            } else {
                Err(TimeStampError::decode("invalid OID for signed data"))
            }
        },
    }
}

/// The signed data in a time stamp response.
pub open spec fn response_signed_data(ts: Seq<u8>) -> Result<
    Option<SignedDataView>,
    error::TimeStampErrorView,
> {
    match token_content_of(time_stamp_token(ts)) {
        Err(error) => Err(error),
        Ok(None) => Ok(None),
        Ok(Some(content)) => match decoded_signed_data(content) {
            Some(data) => Ok(Some(data)),
            None => Err(error::TimeStampErrorView::DecodeError("unable to decode signed data"@)),
        },
    }
}

/// Takes the signed data out of a time stamp response; `None` where the response has no token.
pub fn signed_data_from_time_stamp_response(ts: &[u8]) -> (data: Result<
    Option<SignedData>,
    TimeStampError,
>)
    ensures
        error::result_view(data) == response_signed_data(ts@),
{
    broadcast use oid::octets_are_flat;

    match token_content(decode_response(ts)) {
        Err(error) => Err(error),
        Ok(None) => Ok(None),
        Ok(Some(content)) => match decode_signed_data(content.as_slice()) {
            Some(data) => Ok(Some(data)),
            None => Err(TimeStampError::decode("unable to decode signed data")),
        },
    }
}

/// The encoded time stamp information in the content of signed data.
pub open spec fn tst_content_of(content: SignedContentView) -> Result<
    Option<Seq<u8>>,
    error::TimeStampErrorView,
> {
    if content.content_type == oid::ID_CT_TST_INFO@ {
        Ok(content.content)
    } else {
        Err(error::TimeStampErrorView::DecodeError("invalid OID for time stamp info"@))
    }
}

/// The time stamp information in the content of signed data.
pub open spec fn content_tst_info(content: SignedContentView) -> Result<
    Option<TstInfoView>,
    error::TimeStampErrorView,
> {
    match tst_content_of(content) {
        Err(error) => Err(error),
        Ok(None) => Ok(None),
        Ok(Some(der)) => match decoded_tst_info(der) {
            Some(info) => Ok(Some(info)),
            None => Err(error::TimeStampErrorView::DecodeError("unable to decode time stamp info"@)),
        },
    }
}

/// Decodes the time stamp information in the content of signed data; `None` where there is no
/// content.
pub fn tst_info_from_content(content: &SignedContent) -> (info: Result<
    Option<TstInfo>,
    TimeStampError,
>)
    ensures
        error::result_view(info) == content_tst_info(content.deep_view()),
{
    if !oid::same_arcs(content.content_type.as_slice(), &oid::ID_CT_TST_INFO) {
        return Err(TimeStampError::decode("invalid OID for time stamp info"));
    }
    match &content.content {
        None => Ok(None),
        Some(content) => match decode_tst_info(content.as_slice()) {
            Some(info) => Ok(Some(info)),
            None => Err(TimeStampError::decode("unable to decode time stamp info")),
        },
    }
}

} // verus!
