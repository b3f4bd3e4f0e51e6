//! The certificate of a signer.

use vstd::prelude::*;

use crate::chain;
use crate::cms::{self, CertificateChoice, CertificateIdentity, Extension, SignedData, SignerIdentifier};
use crate::error::{self, TimeStampError};
use crate::oid;

verus! {

/// Two relative distinguished names are the same set of attributes.
pub open spec fn same_rdn(a: Seq<Seq<u8>>, b: Seq<Seq<u8>>) -> bool {
    &&& a.len() == b.len()
    &&& forall|i: int| 0 <= i < a.len() ==> b.contains(#[trigger] a[i])
    &&& forall|i: int| 0 <= i < b.len() ==> a.contains(#[trigger] b[i])
}

/// Two names consist of the same relative distinguished names.
pub open spec fn same_name(a: Seq<Seq<Seq<u8>>>, b: Seq<Seq<Seq<u8>>>) -> bool {
    &&& a.len() == b.len()
    &&& forall|i: int| 0 <= i < a.len() ==> same_rdn(#[trigger] a[i], b[i])
}

/// An extension is a subject key identifier with the given value.
pub open spec fn is_key_identifier(extension: cms::ExtensionView, id: Seq<u8>) -> bool {
    extension.extn_id == oid::ID_SUBJECT_KEY_IDENTIFIER@ && extension.extn_value == id
}

/// A subject key identifier with the given value is among the extensions of a certificate.
pub open spec fn key_identifier_among(extensions: Seq<cms::ExtensionView>, id: Seq<u8>) -> bool {
    exists|i: int| 0 <= i < extensions.len() && is_key_identifier(#[trigger] extensions[i], id)
}

/// A certificate is the one that a signer names.
pub open spec fn is_named_by(
    certificate: cms::CertificateIdentityView,
    sid: cms::SignerIdentifierView,
) -> bool {
    match sid {
        cms::SignerIdentifierView::IssuerAndSerialNumber { issuer, serial_number } => {
            &&& issuer is Some && certificate.issuer is Some
            &&& same_name(issuer.unwrap(), certificate.issuer.unwrap())
            &&& serial_number == certificate.serial_number
        },
        cms::SignerIdentifierView::SubjectKeyIdentifier(id) => match certificate.extensions {
            Some(extensions) => key_identifier_among(extensions, id),
            None => false,
        },
    }
}

/// A member of the certificate set is the certificate that a signer names.
pub open spec fn choice_is_named_by(
    choice: cms::CertificateChoiceView,
    sid: cms::SignerIdentifierView,
) -> bool {
    match choice.identity {
        Some(identity) => is_named_by(identity, sid),
        None => false,
    }
}

/// The first member of the certificate set, at or after a position, that a signer names.
pub open spec fn position_from(
    certs: Seq<cms::CertificateChoiceView>,
    sid: cms::SignerIdentifierView,
    i: int,
) -> Option<int>
    decreases certs.len() - i,
{
    if i >= certs.len() {
        None
    } else if choice_is_named_by(certs[i], sid) {
        Some(i)
    } else {
        position_from(certs, sid, i + 1)
    }
}

/// The first member of the certificate set that a signer names.
pub open spec fn signer_position(
    certs: Seq<cms::CertificateChoiceView>,
    sid: cms::SignerIdentifierView,
) -> Option<int> {
    position_from(certs, sid, 0)
}

/// Tells whether a list of octet strings contains one.
fn contains_octets(list: &[Vec<u8>], octets: &[u8]) -> (found: bool)
    ensures
        found == list.deep_view().contains(octets@),
{
    broadcast use oid::octets_are_flat;

    let ghost views: Seq<Seq<u8>> = list.deep_view();
    let mut i: usize = 0;
    while i < list.len()
        invariant
            i <= list@.len(),
            views == list.deep_view(),
            forall|j: int| 0 <= j < i ==> #[trigger] views[j] != octets@,
        decreases list@.len() - i,
    {
        assert(views[i as int] == list@[i as int]@);
        if oid::same_octets(list[i].as_slice(), octets) {
            return true;
        }
        i = i + 1;
    }
    false
}

/// Tells whether every octet string of one list is in the other.
fn all_contained(a: &[Vec<u8>], b: &[Vec<u8>]) -> (contained: bool)
    ensures
        contained == forall|i: int|
            0 <= i < a.deep_view().len() ==> b.deep_view().contains(#[trigger] a.deep_view()[i]),
{
    broadcast use oid::octets_are_flat;

    let ghost views: Seq<Seq<u8>> = a.deep_view();
    let mut i: usize = 0;
    while i < a.len()
        invariant
            i <= a@.len(),
            views == a.deep_view(),
            forall|j: int| 0 <= j < i ==> b.deep_view().contains(#[trigger] views[j]),
        decreases a@.len() - i,
    {
        assert(views[i as int] == a@[i as int]@);
        if !contains_octets(b, a[i].as_slice()) {
            return false;
        }
        i = i + 1;
    }
    true
}

/// Tells whether two names are the same.
pub fn names_match(a: &[Vec<Vec<u8>>], b: &[Vec<Vec<u8>>]) -> (same: bool)
    ensures
        same == same_name(a.deep_view(), b.deep_view()),
{
    let ghost left: Seq<Seq<Seq<u8>>> = a.deep_view();
    let ghost right: Seq<Seq<Seq<u8>>> = b.deep_view();
    if a.len() != b.len() {
        return false;
    }
    let mut i: usize = 0;
    while i < a.len()
        invariant
            i <= a@.len(),
            a@.len() == b@.len(),
            left == a.deep_view(),
            right == b.deep_view(),
            forall|j: int| 0 <= j < i ==> same_rdn(#[trigger] left[j], right[j]),
        decreases a@.len() - i,
    {
        let x: &[Vec<u8>] = a[i].as_slice();
        let y: &[Vec<u8>] = b[i].as_slice();
        assert(x.deep_view() =~= left[i as int]);
        assert(y.deep_view() =~= right[i as int]);
        if x.len() != y.len() || !all_contained(x, y) || !all_contained(y, x) {
            assert(!same_rdn(left[i as int], right[i as int]));
            return false;
        }
        i = i + 1;
    }
    true
}

/// Tells whether a subject key identifier is among the extensions of a certificate.
fn has_key_identifier(extensions: &Vec<Extension>, id: &[u8]) -> (found: bool)
    ensures
        found == key_identifier_among(extensions.deep_view(), id@),
{
    let ghost views: Seq<cms::ExtensionView> = extensions.deep_view();
    let mut i: usize = 0;
    while i < extensions.len()
        invariant
            i <= extensions@.len(),
            views == extensions.deep_view(),
            forall|j: int| 0 <= j < i ==> !is_key_identifier(#[trigger] views[j], id@),
        decreases extensions@.len() - i,
    {
        assert(views[i as int] == extensions@[i as int].deep_view());
        if oid::same_arcs(extensions[i].extn_id.as_slice(), &oid::ID_SUBJECT_KEY_IDENTIFIER)
            && oid::same_octets(id, extensions[i].extn_value.as_slice()) {
            assert(is_key_identifier(views[i as int], id@));
            return true;
        }
        i = i + 1;
    }
    false
}

/// Tells whether a certificate is the one that a signer names.
pub fn names_certificate(sid: &SignerIdentifier, certificate: &CertificateIdentity) -> (named: bool)
    ensures
        named == is_named_by(certificate.deep_view(), sid.deep_view()),
{
    match sid {
        SignerIdentifier::IssuerAndSerialNumber { issuer, serial_number } => {
            match (issuer, &certificate.issuer) {
                (Some(issuer), Some(present)) => {
                    let wanted: &[Vec<Vec<u8>>] = issuer.as_slice();
                    let present: &[Vec<Vec<u8>>] = present.as_slice();
                    assert(Some(wanted.deep_view()) =~= sid.deep_view()->issuer);
                    assert(Some(present.deep_view()) =~= certificate.deep_view().issuer);
                    names_match(wanted, present) && *serial_number == certificate.serial_number
                },
                _ => false,
            }
        },
        SignerIdentifier::SubjectKeyIdentifier(id) => {
            match &certificate.extensions {
                Some(extensions) => has_key_identifier(extensions, id.as_slice()),
                None => false,
            }
        },
    }
}

/// Finds the certificate that a signer names.
pub fn find_signer(certs: &[CertificateChoice], sid: &SignerIdentifier) -> (position: Option<usize>)
    ensures
        signer_position(certs.deep_view(), sid.deep_view()) == match position {
            Some(i) => Some(i as int),
            None => None,
        },
        position matches Some(i) ==> i < certs@.len(),
{
    let ghost views: Seq<cms::CertificateChoiceView> = certs.deep_view();
    let mut i: usize = 0;
    while i < certs.len()
        invariant
            i <= certs@.len(),
            views == certs.deep_view(),
            signer_position(views, sid.deep_view()) == position_from(
                views,
                sid.deep_view(),
                i as int,
            ),
        decreases certs@.len() - i,
    {
        assert(views[i as int] == certs@[i as int].deep_view());
        if let Some(identity) = &certs[i].identity {
            if names_certificate(sid, identity) {
                return Some(i);
            }
        }
        i = i + 1;
    }
    None
}

/// The certificates of signed data as encodings, where each member of the set is a certificate
/// that can be encoded.
pub open spec fn encodings_of(certs: Seq<cms::CertificateChoiceView>) -> Option<Seq<Seq<u8>>> {
    if forall|i: int| 0 <= i < certs.len() ==> (#[trigger] certs[i]).encoded is Some {
        Some(Seq::new(certs.len(), |i: int| certs[i].encoded.unwrap()))
    } else {
        None
    }
}

/// Collects the encodings of the certificates; `None` where one of them is missing.
pub fn collect_encodings(certs: &[CertificateChoice]) -> (encodings: Option<Vec<Vec<u8>>>)
    ensures
        encodings.deep_view() == encodings_of(certs.deep_view()),
{
    broadcast use oid::octets_are_flat;

    let ghost views: Seq<cms::CertificateChoiceView> = certs.deep_view();
    let mut encodings: Vec<Vec<u8>> = Vec::new();
    let mut i: usize = 0;
    while i < certs.len()
        invariant
            i <= certs@.len(),
            views == certs.deep_view(),
            encodings@.len() == i,
            forall|j: int|
                0 <= j < i ==> (#[trigger] views[j]).encoded == Some(encodings@[j]@),
        decreases certs@.len() - i,
    {
        assert(views[i as int] == certs@[i as int].deep_view());
        match &certs[i].encoded {
            Some(encoded) => {
                let copy: Vec<u8> = encoded.clone();
                assert(copy@ =~= encoded@);
                encodings.push(copy);
            },
            None => {
                return None;
            },
        }
        i = i + 1;
    }
    assert(encodings.deep_view() =~= encodings_of(views).unwrap());
    Some(encodings)
}

/// The certificates of a token, and the position of the first signer's certificate among them.
pub open spec fn signer_certs_of(data: cms::SignedDataView) -> Result<
    Option<(Seq<Seq<u8>>, int)>,
    error::TimeStampErrorView,
> {
    match data.certificates {
        None => Ok(None),
        Some(certs) => match encodings_of(certs) {
            None => Err(
                error::TimeStampErrorView::DecodeError(
                    "time stamp certificate could not be processed"@,
                ),
            ),
            Some(encodings) => if data.signer_infos.len() == 0 {
                Ok(None)
            } else {
                match signer_position(certs, data.signer_infos[0].sid) {
                    Some(position) => Ok(Some((encodings, position))),
                    None => Ok(None),
                }
            },
        },
    }
}

/// The certificates of the token in a response, and the position of the first signer's
/// certificate among them.
pub open spec fn token_signer_certs(ts: Seq<u8>) -> Result<
    Option<(Seq<Seq<u8>>, int)>,
    error::TimeStampErrorView,
> {
    match cms::response_signed_data(ts) {
        Ok(Some(data)) => signer_certs_of(data),
        Ok(None) => Ok(None),
        Err(error) => Err(error),
    }
}

/// Encodings of certificates and a position among them.
pub struct SignerCerts {
    pub cert_ders: Vec<Vec<u8>>,
    pub cert_pos: usize,
}

impl DeepView for SignerCerts {
    type V = (Seq<Seq<u8>>, int);

    open spec fn deep_view(&self) -> (Seq<Seq<u8>>, int) {
        (self.cert_ders.deep_view(), self.cert_pos as int)
    }
}

/// Takes the certificates, and the position of the first signer's certificate among them, out of
/// signed data; `None` where there are no certificates, or no signer that names one of them.
pub fn signer_certs_from_signed_data(data: &SignedData) -> (certs: Result<
    Option<SignerCerts>,
    TimeStampError,
>)
    ensures
        error::result_view(certs) == signer_certs_of(data.deep_view()),
        certs matches Ok(Some(certs)) ==> certs.cert_pos < certs.cert_ders@.len(),
{
    let Some(certs) = &data.certificates else {
        return Ok(None);
    };
    let certs: &[CertificateChoice] = certs.as_slice();
    assert(certs.deep_view() =~= data.deep_view().certificates.unwrap());
    let Some(cert_ders) = collect_encodings(certs) else {
        return Err(TimeStampError::decode("time stamp certificate could not be processed"));
    };
    if data.signer_infos.len() == 0 {
        return Ok(None);
    }
    assert(data.deep_view().signer_infos[0] == data.signer_infos@[0].deep_view());
    match find_signer(certs, &data.signer_infos[0].sid) {
        Some(cert_pos) => {
            assert(cert_ders.deep_view().len() == cert_ders@.len());
            Ok(Some(SignerCerts { cert_ders, cert_pos }))
        },
        None => Ok(None),
    }
}

/// Takes the certificates, and the position of the first signer's certificate among them, out of
/// the token in a response.
///
/// A time stamp token has exactly one signer; further ones are ignored.
pub fn signer_certs_from_token(ts: &[u8]) -> (certs: Result<Option<SignerCerts>, TimeStampError>)
    ensures
        error::result_view(certs) == token_signer_certs(ts@),
        certs matches Ok(Some(certs)) ==> certs.cert_pos < certs.cert_ders@.len(),
{
    match cms::signed_data_from_time_stamp_response(ts) {
        Ok(Some(data)) => signer_certs_from_signed_data(&data),
        Ok(None) => Ok(None),
        Err(error) => Err(error),
    }
}

/// The certificate of the first signer of the token in a response.
pub open spec fn tsa_signer_cert(ts: Seq<u8>) -> Result<
    Option<Seq<u8>>,
    error::TimeStampErrorView,
> {
    match token_signer_certs(ts) {
        Ok(Some((cert_ders, cert_pos))) => Ok(Some(cert_ders[cert_pos])),
        Ok(None) => Ok(None),
        Err(error) => Err(error),
    }
}

/// Extracts the certificate of the authority that signed a time stamp from its token. Does not
/// verify the token: it only parses it and returns the first signer's certificate.
pub fn tsa_signer_cert_der_from_token(ts: &[u8]) -> (der: Result<Option<Vec<u8>>, TimeStampError>)
    ensures
        error::result_view(der) == tsa_signer_cert(ts@),
{
    broadcast use oid::octets_are_flat;

    match signer_certs_from_token(ts) {
        Ok(Some(certs)) => {
            let der: Vec<u8> = certs.cert_ders[certs.cert_pos].clone();
            assert(der@ =~= certs.cert_ders@[certs.cert_pos as int]@);
            assert(certs.deep_view().0[certs.cert_pos as int] == der@);
            Ok(Some(der))
        },
        Ok(None) => Ok(None),
        Err(error) => Err(error),
    }
}

/// The chain of certificates of the first signer of the token in a response, from the signer's
/// own certificate up to the root; empty where the token names no signer certificate.
pub open spec fn tsa_cert_chain(ts: Seq<u8>) -> Result<
    Seq<Seq<u8>>,
    error::TimeStampErrorView,
> {
    match token_signer_certs(ts) {
        Ok(Some((cert_ders, cert_pos))) => chain::leaf_to_root(cert_ders, cert_pos),
        Ok(None) => Ok(Seq::empty()),
        Err(error) => Err(error),
    }
}

/// Extracts the chain of certificates of the authority that signed a time stamp from its token,
/// leaf first, in the order in which `verify_time_stamp` hands it to its trust check.
///
/// Does not verify the token, and says nothing about whether it verifies: who acts on the chain
/// has to establish first that the token itself is usable.
pub fn tsa_cert_chain_der_from_token(ts: &[u8]) -> (chain: Result<Vec<Vec<u8>>, TimeStampError>)
    ensures
        error::result_view(chain) == tsa_cert_chain(ts@),
{
    match signer_certs_from_token(ts) {
        Ok(Some(certs)) => {
            let cert_ders: &[Vec<u8>] = certs.cert_ders.as_slice();
            assert(cert_ders.deep_view() =~= certs.cert_ders.deep_view());
            chain::order_certificates_leaf_to_root(cert_ders, certs.cert_pos)
        },
        Ok(None) => {
            let chain: Vec<Vec<u8>> = Vec::new();
            assert(chain.deep_view() =~= Seq::empty());
            Ok(chain)
        },
        Err(error) => Err(error),
    }
}

/// What a search from a position on finds.
proof fn lemma_position_from(
    certs: Seq<cms::CertificateChoiceView>,
    sid: cms::SignerIdentifierView,
    i: int,
)
    requires
        0 <= i,
    ensures
        match position_from(certs, sid, i) {
            Some(k) => {
                &&& i <= k < certs.len()
                &&& choice_is_named_by(certs[k], sid)
                &&& forall|j: int| i <= j < k ==> !choice_is_named_by(#[trigger] certs[j], sid)
            },
            None => forall|j: int|
                i <= j < certs.len() ==> !choice_is_named_by(#[trigger] certs[j], sid),
        },
    decreases certs.len() - i,
{
    if i < certs.len() {
        lemma_position_from(certs, sid, i + 1);
    }
}

/// The certificate of a signer is the first one that the signer names, and there is none exactly
/// when the signer names none of them.
pub proof fn signer_certificate_is_the_first_named(
    certs: Seq<cms::CertificateChoiceView>,
    sid: cms::SignerIdentifierView,
)
    ensures
        match signer_position(certs, sid) {
            Some(k) => {
                &&& 0 <= k < certs.len()
                &&& choice_is_named_by(certs[k], sid)
                &&& forall|j: int| 0 <= j < k ==> !choice_is_named_by(#[trigger] certs[j], sid)
            },
            None => forall|j: int|
                0 <= j < certs.len() ==> !choice_is_named_by(#[trigger] certs[j], sid),
        },
{
    lemma_position_from(certs, sid, 0);
}

/// The position that comes with the certificates of a token is one of them.
proof fn lemma_signer_in_range(ts: Seq<u8>)
    ensures
        token_signer_certs(ts) matches Ok(Some((cert_ders, cert_pos))) ==> 0 <= cert_pos
            < cert_ders.len(),
{
    if let Ok(Some(data)) = cms::response_signed_data(ts) {
        if let Some(certs) = data.certificates {
            if data.signer_infos.len() > 0 {
                lemma_position_from(certs, data.signer_infos[0].sid, 0);
            }
        }
    }
}

/// The chain of a token starts at the certificate of its signer, and is empty exactly when the
/// token names none.
pub proof fn exposed_chain_starts_at_the_signer(ts: Seq<u8>)
    ensures
        match (tsa_signer_cert(ts), tsa_cert_chain(ts)) {
            (Ok(Some(der)), Ok(chain)) => chain.len() > 0 && chain[0] == der,
            (Ok(Some(_)), Err(_)) => true,
            (Ok(None), chain) => chain == Ok::<Seq<Seq<u8>>, error::TimeStampErrorView>(
                Seq::empty(),
            ),
            (Err(error), chain) => chain == Err::<Seq<Seq<u8>>, error::TimeStampErrorView>(error),
        },
{
    lemma_signer_in_range(ts);
    if let Ok(Some((cert_ders, cert_pos))) = token_signer_certs(ts) {
        chain::chain_starts_at_the_leaf(cert_ders, cert_pos);
    }
}

/// Each certificate in the chain of a token but the last was issued by the one after it.
pub proof fn exposed_chain_is_linked(ts: Seq<u8>, k: int)
    requires
        tsa_cert_chain(ts) is Ok,
        0 <= k < tsa_cert_chain(ts)->Ok_0.len() - 1,
    ensures
        chain::certificate_names(tsa_cert_chain(ts)->Ok_0[k]) is Some,
        chain::certificate_names(tsa_cert_chain(ts)->Ok_0[k + 1]) is Some,
        chain::issued_by(
            chain::certificate_names(tsa_cert_chain(ts)->Ok_0[k]).unwrap(),
            chain::certificate_names(tsa_cert_chain(ts)->Ok_0[k + 1]).unwrap(),
        ),
{
    if let Ok(Some((cert_ders, cert_pos))) = token_signer_certs(ts) {
        chain::chain_is_linked(cert_ders, cert_pos, k);
    }
}

/// What is not a time stamp response, and a response without a token, have no chain: the first
/// is an error, the second gives an empty one.
pub proof fn no_token_no_chain(ts: Seq<u8>)
    ensures
        cms::time_stamp_token(ts) is None ==> tsa_cert_chain(ts) is Err && tsa_signer_cert(
            ts,
        ) is Err,
        cms::time_stamp_token(ts) == Some(None::<cms::TokenView>) ==> tsa_cert_chain(ts) == Ok::<
            Seq<Seq<u8>>,
            error::TimeStampErrorView,
        >(Seq::empty()) && tsa_signer_cert(ts) == Ok::<
            Option<Seq<u8>>,
            error::TimeStampErrorView,
        >(None),
{
}

} // verus!
