//! Chains of certificates.

use std::collections::HashSet;

use asn1_rs::FromDer;
use vstd::prelude::*;
use x509_parser::certificate::X509Certificate;

use crate::error::{self, TimeStampError};
use crate::oid;

verus! {

/// The names in a certificate.
pub struct CertificateNames {
    /// The encoding of the issuer's name.
    pub issuer: Vec<u8>,
    /// The encoding of the subject's name.
    pub subject: Vec<u8>,
    /// The common names of the subject; nothing in the place of one that is not a text.
    pub common_names: Vec<Option<String>>,
}

/// [`CertificateNames`] as sequences.
pub struct CertificateNamesView {
    pub issuer: Seq<u8>,
    pub subject: Seq<u8>,
    pub common_names: Seq<Option<Seq<char>>>,
}

impl DeepView for CertificateNames {
    type V = CertificateNamesView;

    open spec fn deep_view(&self) -> CertificateNamesView {
        CertificateNamesView {
            issuer: self.issuer@,
            subject: self.subject@,
            common_names: self.common_names.deep_view(),
        }
    }
}

/// The names in the certificate that `x509_parser` reads from its encoding.
pub uninterp spec fn certificate_names(der: Seq<u8>) -> Option<CertificateNamesView>;

/// Calls `from_der` of `x509_parser::certificate::X509Certificate` and hands out the names in the
/// certificate: those of issuer and subject as their encodings, by which `x509_parser` tells two
/// names apart, and the common names of the subject that `iter_common_name` finds. The result is
/// a function of the encoding alone.
#[verifier::external_body]
fn parse_names(der: &[u8]) -> (names: Option<CertificateNames>)
    ensures
        names.deep_view() == certificate_names(der@),
{
    let (_, certificate) = X509Certificate::from_der(der).ok()?;
    Some(CertificateNames {
        issuer: certificate.issuer().as_raw().to_vec(),
        subject: certificate.subject().as_raw().to_vec(),
        common_names: certificate.subject().iter_common_name().map(
            |name| name.as_str().ok().map(|name| name.to_string()),
        ).collect(),
    })
}

/// The texts of a list one after the other, without those that are not there.
pub open spec fn joined(texts: Seq<Option<Seq<char>>>) -> Seq<char>
    decreases texts.len(),
{
    if texts.len() == 0 {
        Seq::empty()
    } else {
        match texts.last() {
            Some(text) => joined(texts.drop_last()) + text,
            None => joined(texts.drop_last()),
        }
    }
}

/// The common name in a certificate; empty where it is not a certificate.
pub open spec fn common_name_of(der: Seq<u8>) -> Seq<char> {
    match certificate_names(der) {
        Some(names) => joined(names.common_names),
        None => Seq::empty(),
    }
}

/// Joins the common names in a certificate.
pub fn join_common_names(names: &CertificateNames) -> (name: String)
    ensures
        name@ == joined(names.deep_view().common_names),
{
    let mut name: String = String::new();
    let ghost texts: Seq<Option<Seq<char>>> = names.common_names.deep_view();
    let mut i: usize = 0;
    while i < names.common_names.len()
        invariant
            i <= names.common_names@.len(),
            texts == names.common_names.deep_view(),
            name@ == joined(texts.take(i as int)),
        decreases names.common_names@.len() - i,
    {
        assert(texts.take(i + 1).drop_last() =~= texts.take(i as int));
        if let Some(text) = &names.common_names[i] {
            name.append(text.as_str());
        }
        i = i + 1;
    }
    assert(texts.take(i as int) =~= texts);
    name
}

/// Reads the common name in a certificate.
pub fn common_name(der: &[u8]) -> (name: String)
    ensures
        name@ == common_name_of(der@),
{
    match parse_names(der) {
        Some(names) => join_common_names(&names),
        None => String::new(),
    }
}

/// One certificate names the other as its issuer.
pub open spec fn issued_by(child: CertificateNamesView, parent: CertificateNamesView) -> bool {
    child.issuer == parent.subject
}

/// The first certificate at or after a position that is not in the chain yet and issued the last
/// one of the chain.
pub open spec fn next_issuer(names: Seq<CertificateNamesView>, chain: Seq<int>, i: int) -> Option<
    int,
>
    decreases names.len() - i,
{
    if i >= names.len() {
        None
    } else if !chain.contains(i) && issued_by(names[chain.last()], names[i]) {
        Some(i)
    } else {
        next_issuer(names, chain, i + 1)
    }
}

/// The chain, continued as far as it goes.
pub open spec fn extended(names: Seq<CertificateNamesView>, chain: Seq<int>) -> Seq<int>
    decreases names.len() - chain.len(),
{
    if chain.len() >= names.len() {
        chain
    } else {
        match next_issuer(names, chain, 0) {
            Some(i) => extended(names, chain.push(i)),
            None => chain,
        }
    }
}

/// The positions of the certificates from the one at the given position up to the root.
pub open spec fn chain_positions(names: Seq<CertificateNamesView>, leaf: int) -> Seq<int> {
    extended(names, seq![leaf])
}

/// The elements of a list at the given positions.
pub open spec fn at_positions<T>(list: Seq<T>, positions: Seq<int>) -> Seq<T> {
    positions.map_values(|i: int| list[i])
}

/// The names in all certificates, where all of them can be read.
pub open spec fn all_names(cert_ders: Seq<Seq<u8>>) -> Option<Seq<CertificateNamesView>> {
    if forall|i: int| 0 <= i < cert_ders.len() ==> certificate_names(#[trigger] cert_ders[i]) is Some {
        Some(Seq::new(cert_ders.len(), |i: int| certificate_names(cert_ders[i]).unwrap()))
    } else {
        None
    }
}

/// The certificates from the one at the given position up to the root.
pub open spec fn leaf_to_root(cert_ders: Seq<Seq<u8>>, leaf: int) -> Result<
    Seq<Seq<u8>>,
    error::TimeStampErrorView,
> {
    if !(0 <= leaf < cert_ders.len()) {
        Err(error::TimeStampErrorView::DecodeError("invalid leaf certificate position"@))
    } else {
        match all_names(cert_ders) {
            Some(names) => Ok(at_positions(cert_ders, chain_positions(names, leaf))),
            None => Err(error::TimeStampErrorView::DecodeError("failed to parse certificates"@)),
        }
    }
}

/// Positions as integers.
pub open spec fn positions_view(positions: Seq<usize>) -> Seq<int> {
    positions.map_values(|i: usize| i as int)
}

/// The names of a list of certificates as sequences.
pub open spec fn names_view(names: Seq<CertificateNames>) -> Seq<CertificateNamesView> {
    names.map_values(|names: CertificateNames| names.deep_view())
}

/// A chain has no certificate twice, and none from outside of the list.
pub open spec fn is_selection(chain: Seq<int>, n: nat) -> bool {
    &&& chain.no_duplicates()
    &&& forall|k: int| 0 <= k < chain.len() ==> 0 <= #[trigger] chain[k] < n
}

/// There are no more positions in a selection than there are to select from.
pub(crate) proof fn lemma_selection_len(chain: Seq<int>, n: nat)
    requires
        is_selection(chain, n),
    ensures
        chain.len() <= n,
{
    chain.unique_seq_to_set();
    vstd::set_lib::lemma_int_range(0, n as int);
    let range: Set<int> = vstd::set_lib::set_int_range(0, n as int);
    assert(chain.to_set().subset_of(range));
    vstd::set_lib::lemma_len_subset(chain.to_set(), range);
}

/// With all certificates in the chain, none is left to continue it.
proof fn lemma_full_chain_ends(names: Seq<CertificateNamesView>, chain: Seq<int>, i: int)
    requires
        is_selection(chain, names.len()),
        chain.len() >= names.len(),
        0 <= i,
    ensures
        next_issuer(names, chain, i) is None,
    decreases names.len() - i,
{
    if i < names.len() {
        if !chain.contains(i) {
            let longer: Seq<int> = chain.push(i);
            lemma_selection_grows(chain, i, names.len());
            lemma_selection_len(longer, names.len());
        }
        lemma_full_chain_ends(names, chain, i + 1);
    }
}

/// Continuing a chain is finding the next issuer and continuing from there.
pub(crate) proof fn lemma_extended_step(
    names: Seq<CertificateNamesView>,
    chain: Seq<int>,
)
    requires
        is_selection(chain, names.len()),
    ensures
        extended(names, chain) == match next_issuer(names, chain, 0) {
            Some(i) => extended(names, chain.push(i)),
            None => chain,
        },
{
    if chain.len() >= names.len() {
        lemma_full_chain_ends(names, chain, 0);
    }
}

/// What it means to be found as the next issuer.
proof fn lemma_next_issuer(names: Seq<CertificateNamesView>, chain: Seq<int>, i: int)
    requires
        0 <= i,
    ensures
        match next_issuer(names, chain, i) {
            Some(k) => {
                &&& i <= k < names.len()
                &&& !chain.contains(k)
                &&& issued_by(names[chain.last()], names[k])
                &&& forall|j: int|
                    i <= j < k ==> chain.contains(j) || !issued_by(
                        names[chain.last()],
                        #[trigger] names[j],
                    )
            },
            None => forall|j: int|
                i <= j < names.len() ==> chain.contains(j) || !issued_by(
                    names[chain.last()],
                    #[trigger] names[j],
                ),
        },
    decreases names.len() - i,
{
    if i < names.len() {
        lemma_next_issuer(names, chain, i + 1);
    }
}

/// Finds the first certificate that is not in the chain yet and issued the last one of it.
fn find_next_issuer(
    names: &[CertificateNames],
    current: usize,
    used_indices: &HashSet<usize>,
    Ghost(chain): Ghost<Seq<int>>,
) -> (next: Option<usize>)
    requires
        chain.len() > 0,
        chain.last() == current,
        current < names@.len(),
        forall|i: usize| #[trigger] used_indices@.contains(i) <==> chain.contains(i as int),
    ensures
        next_issuer(names_view(names@), chain, 0) == match next {
            Some(i) => Some(i as int),
            None => None,
        },
{
    broadcast use vstd::std_specs::hash::group_hash_axioms;

    let ghost views: Seq<CertificateNamesView> = names_view(names@);
    let mut i: usize = 0;
    while i < names.len()
        invariant
            i <= names@.len(),
            views == names_view(names@),
            chain.len() > 0,
            chain.last() == current,
            current < names@.len(),
            forall|i: usize| #[trigger] used_indices@.contains(i) <==> chain.contains(i as int),
            next_issuer(views, chain, 0) == next_issuer(views, chain, i as int),
        decreases names@.len() - i,
    {
        if !used_indices.contains(&i) && oid::same_octets(
            names[current].issuer.as_slice(),
            names[i].subject.as_slice(),
        ) {
            return Some(i);
        }
        i = i + 1;
    }
    None
}

/// Orders certificates from the one at the given position up to the root: each is followed by
/// the first one, among those that are left, that issued it.
pub fn order_positions(names: &[CertificateNames], leaf_cert_pos: usize) -> (positions: Vec<usize>)
    requires
        leaf_cert_pos < names@.len(),
    ensures
        positions_view(positions@) == chain_positions(names_view(names@), leaf_cert_pos as int),
{
    broadcast use vstd::std_specs::hash::group_hash_axioms;

    let ghost views: Seq<CertificateNamesView> = names_view(names@);
    let mut ordered: Vec<usize> = Vec::new();
    let mut used_indices: HashSet<usize> = HashSet::new();
    ordered.push(leaf_cert_pos);
    used_indices.insert(leaf_cert_pos);
    let mut current: usize = leaf_cert_pos;
    let ghost mut chain: Seq<int> = seq![leaf_cert_pos as int];
    assert(positions_view(ordered@) =~= chain);
    assert(chain[0] == leaf_cert_pos as int);
    proof {
        assert forall|i: usize| #[trigger] used_indices@.contains(i) <==> chain.contains(
            i as int,
        ) by {
            if chain.contains(i as int) {
                assert(i == leaf_cert_pos);
            }
        }
    }
    loop
        invariant
            views == names_view(names@),
            chain == positions_view(ordered@),
            chain.len() > 0,
            chain.last() == current,
            current < names@.len(),
            is_selection(chain, names@.len()),
            forall|i: usize| #[trigger] used_indices@.contains(i) <==> chain.contains(i as int),
            extended(views, chain) == chain_positions(views, leaf_cert_pos as int),
        ensures
            positions_view(ordered@) == chain_positions(views, leaf_cert_pos as int),
        decreases names@.len() - ordered@.len(),
    {
        proof {
            lemma_extended_step(views, chain);
            lemma_next_issuer(views, chain, 0);
            lemma_selection_len(chain, names@.len());
        }
        match find_next_issuer(names, current, &used_indices, Ghost(chain)) {
            Some(i) => {
                let ghost before: Seq<int> = chain;
                ordered.push(i);
                used_indices.insert(i);
                current = i;
                proof {
                    chain = before.push(i as int);
                    assert(positions_view(ordered@) =~= chain);
                    assert forall|k: usize| #[trigger] used_indices@.contains(k) <==> chain.contains(
                        k as int,
                    ) by {
                        if before.contains(k as int) {
                            let at: int = before.index_of(k as int);
                            assert(chain[at] == k);
                        }
                        assert(chain[before.len() as int] == i as int);
                        if chain.contains(k as int) && k != i {
                            let at: int = chain.index_of(k as int);
                            assert(before[at] == k);
                        }
                    }
                    lemma_selection_grows(before, i as int, names@.len());
                    lemma_selection_len(chain, names@.len());
                }
            },
            None => {
                break;
            },
        }
    }
    ordered
}

/// A selection with one more position in it is a selection.
pub(crate) proof fn lemma_selection_grows(chain: Seq<int>, i: int, n: nat)
    requires
        is_selection(chain, n),
        0 <= i < n,
        !chain.contains(i),
    ensures
        is_selection(chain.push(i), n),
{
    let longer: Seq<int> = chain.push(i);
    assert forall|a: int, b: int|
        0 <= a < longer.len() && 0 <= b < longer.len() && a != b implies longer[a]
        != longer[b] by {
        if a == chain.len() {
            assert(chain[b] == longer[b]);
        }
        if b == chain.len() {
            assert(chain[a] == longer[a]);
        }
    }
}

/// Reads the names in all certificates; `None` where one of them cannot be read.
fn parse_all(cert_ders: &[Vec<u8>]) -> (parsed: Option<Vec<CertificateNames>>)
    ensures
        all_names(cert_ders.deep_view()) == match parsed {
            Some(names) => Some(names_view(names@)),
            None => None,
        },
{
    broadcast use oid::octets_are_flat;

    let ghost ders: Seq<Seq<u8>> = cert_ders.deep_view();
    let mut parsed: Vec<CertificateNames> = Vec::new();
    let mut i: usize = 0;
    while i < cert_ders.len()
        invariant
            i <= cert_ders@.len(),
            ders == cert_ders.deep_view(),
            parsed@.len() == i,
            forall|k: int|
                0 <= k < i ==> certificate_names(#[trigger] ders[k]) == Some(
                    parsed@[k].deep_view(),
                ),
        decreases cert_ders@.len() - i,
    {
        assert(ders[i as int] == cert_ders@[i as int]@);
        match parse_names(cert_ders[i].as_slice()) {
            Some(names) => {
                parsed.push(names);
            },
            None => {
                return None;
            },
        }
        i = i + 1;
    }
    assert(all_names(ders).unwrap() =~= names_view(parsed@));
    Some(parsed)
}

/// Orders certificates from the one at the given position up to the root.
pub fn order_certificates_leaf_to_root(cert_ders: &[Vec<u8>], leaf_cert_pos: usize) -> (ordered:
    Result<Vec<Vec<u8>>, TimeStampError>)
    ensures
        error::result_view(ordered) == leaf_to_root(cert_ders.deep_view(), leaf_cert_pos as int),
{
    broadcast use oid::octets_are_flat;

    if leaf_cert_pos >= cert_ders.len() {
        return Err(TimeStampError::decode("invalid leaf certificate position"));
    }
    let Some(names) = parse_all(cert_ders) else {
        return Err(TimeStampError::decode("failed to parse certificates"));
    };
    let positions: Vec<usize> = order_positions(names.as_slice(), leaf_cert_pos);
    let ghost ders: Seq<Seq<u8>> = cert_ders.deep_view();
    let ghost chain: Seq<int> = positions_view(positions@);
    proof {
        lemma_chain_is_selection(names_view(names@), leaf_cert_pos as int);
    }
    let mut ordered: Vec<Vec<u8>> = Vec::new();
    let mut k: usize = 0;
    while k < positions.len()
        invariant
            k <= positions@.len(),
            ders == cert_ders.deep_view(),
            chain == positions_view(positions@),
            is_selection(chain, ders.len()),
            ordered.deep_view() == at_positions(ders, chain).take(k as int),
        decreases positions@.len() - k,
    {
        assert(chain[k as int] == positions@[k as int]);
        let der: Vec<u8> = cert_ders[positions[k]].clone();
        assert(der@ =~= cert_ders@[positions@[k as int] as int]@);
        assert(der.deep_view() == ders[chain[k as int]]);
        let ghost before: Seq<Seq<u8>> = ordered.deep_view();
        ordered.push(der);
        assert(ordered.deep_view() =~= before.push(der.deep_view()));
        assert(at_positions(ders, chain).take(k + 1) =~= at_positions(ders, chain).take(
            k as int,
        ).push(ders[chain[k as int]]));
        k = k + 1;
    }
    assert(at_positions(ders, chain).take(k as int) =~= at_positions(ders, chain));
    Ok(ordered)
}

/// Continuing a selection gives a selection that starts with it and in which each certificate
/// that was added issued the one before.
proof fn lemma_extended(names: Seq<CertificateNamesView>, chain: Seq<int>)
    requires
        is_selection(chain, names.len()),
        chain.len() > 0,
    ensures
        is_selection(extended(names, chain), names.len()),
        extended(names, chain).len() >= chain.len(),
        extended(names, chain).take(chain.len() as int) == chain,
        forall|k: int|
            chain.len() <= k < extended(names, chain).len() ==> issued_by(
                names[#[trigger] extended(names, chain)[k - 1]],
                names[extended(names, chain)[k]],
            ),
        next_issuer(names, extended(names, chain), 0) is None,
    decreases names.len() - chain.len(),
{
    lemma_selection_len(chain, names.len());
    lemma_next_issuer(names, chain, 0);
    if chain.len() >= names.len() {
        lemma_full_chain_ends(names, chain, 0);
    } else {
        match next_issuer(names, chain, 0) {
            Some(i) => {
                lemma_selection_grows(chain, i, names.len());
                lemma_extended(names, chain.push(i));
                let longer: Seq<int> = extended(names, chain.push(i));
                let n: int = chain.len() as int;
                assert(longer.take(chain.len() as int) =~= chain) by {
                    assert(longer.take(n + 1).take(n) =~= longer.take(n));
                    assert(chain.push(i).take(chain.len() as int) =~= chain);
                }
                assert forall|k: int| chain.len() <= k < longer.len() implies issued_by(
                    names[#[trigger] longer[k - 1]],
                    names[longer[k]],
                ) by {
                    if k == chain.len() {
                        assert(longer.take(n + 1)[k] == i);
                        assert(longer.take(n + 1)[k - 1] == chain.last());
                    }
                }
            },
            None => {
                assert(chain.take(chain.len() as int) =~= chain);
            },
        }
    }
    assert(chain.take(chain.len() as int) =~= chain);
}

/// The positions of a chain are those of different certificates of the list.
proof fn lemma_chain_is_selection(names: Seq<CertificateNamesView>, leaf: int)
    requires
        0 <= leaf < names.len(),
    ensures
        is_selection(chain_positions(names, leaf), names.len()),
{
    lemma_extended(names, seq![leaf]);
}

/// Certificates can be ordered exactly when the leaf is one of them and all of them can be read.
pub proof fn ordering_succeeds(cert_ders: Seq<Seq<u8>>, leaf: int)
    ensures
        leaf_to_root(cert_ders, leaf) is Ok <==> 0 <= leaf < cert_ders.len() && forall|i: int|
            0 <= i < cert_ders.len() ==> certificate_names(#[trigger] cert_ders[i]) is Some,
{
}

/// A chain starts at the leaf.
pub proof fn chain_starts_at_the_leaf(cert_ders: Seq<Seq<u8>>, leaf: int)
    ensures
        leaf_to_root(cert_ders, leaf) matches Ok(chain) ==> chain.len() > 0 && chain[0]
            == cert_ders[leaf],
{
    if let Some(names) = all_names(cert_ders) {
        if 0 <= leaf < cert_ders.len() {
            lemma_extended(names, seq![leaf]);
            assert(chain_positions(names, leaf).take(1)[0] == leaf);
        }
    }
}

/// Each certificate of a chain but the last was issued by the one after it.
pub proof fn chain_is_linked(cert_ders: Seq<Seq<u8>>, leaf: int, k: int)
    requires
        leaf_to_root(cert_ders, leaf) is Ok,
        0 <= k < leaf_to_root(cert_ders, leaf)->Ok_0.len() - 1,
    ensures
        certificate_names(leaf_to_root(cert_ders, leaf)->Ok_0[k]) is Some,
        certificate_names(leaf_to_root(cert_ders, leaf)->Ok_0[k + 1]) is Some,
        issued_by(
            certificate_names(leaf_to_root(cert_ders, leaf)->Ok_0[k]).unwrap(),
            certificate_names(leaf_to_root(cert_ders, leaf)->Ok_0[k + 1]).unwrap(),
        ),
{
    let names: Seq<CertificateNamesView> = all_names(cert_ders).unwrap();
    let positions: Seq<int> = chain_positions(names, leaf);
    lemma_extended(names, seq![leaf]);
    assert(0 <= positions[k] < names.len());
    assert(0 <= positions[k + 1] < names.len());
    assert(issued_by(names[positions[(k + 1) - 1]], names[positions[k + 1]]));
    assert(certificate_names(cert_ders[positions[k]]) is Some);
    assert(certificate_names(cert_ders[positions[k + 1]]) is Some);
}

/// A chain is made of different members of the list, and no member outside of the chain issued
/// its last certificate.
pub proof fn chain_is_complete(cert_ders: Seq<Seq<u8>>, leaf: int)
    requires
        leaf_to_root(cert_ders, leaf) is Ok,
    ensures
        ({
            let names: Seq<CertificateNamesView> = all_names(cert_ders).unwrap();
            let positions: Seq<int> = chain_positions(names, leaf);
            &&& leaf_to_root(cert_ders, leaf) == Ok::<Seq<Seq<u8>>, error::TimeStampErrorView>(
                at_positions(cert_ders, positions),
            )
            &&& is_selection(positions, cert_ders.len())
            &&& positions.len() <= cert_ders.len()
            &&& forall|i: int|
                0 <= i < cert_ders.len() && !positions.contains(i) ==> !issued_by(
                    names[positions.last()],
                    #[trigger] names[i],
                )
        }),
{
    let names: Seq<CertificateNamesView> = all_names(cert_ders).unwrap();
    let positions: Seq<int> = chain_positions(names, leaf);
    lemma_extended(names, seq![leaf]);
    lemma_selection_len(positions, names.len());
    lemma_next_issuer(names, positions, 0);
}

/// Where several certificates issued the last one of a chain that is being built, the first of
/// them that is not in the chain yet comes next.
pub proof fn the_first_issuer_comes_next(names: Seq<CertificateNamesView>, chain: Seq<int>)
    ensures
        match next_issuer(names, chain, 0) {
            Some(k) => {
                &&& 0 <= k < names.len()
                &&& !chain.contains(k)
                &&& issued_by(names[chain.last()], names[k])
                &&& forall|j: int|
                    0 <= j < k ==> chain.contains(j) || !issued_by(
                        names[chain.last()],
                        #[trigger] names[j],
                    )
            },
            None => forall|j: int|
                0 <= j < names.len() ==> chain.contains(j) || !issued_by(
                    names[chain.last()],
                    #[trigger] names[j],
                ),
        },
{
    lemma_next_issuer(names, chain, 0);
}

/// The positions from the first up to a position.
spec fn up_to(j: int) -> Seq<int> {
    Seq::new((j + 1) as nat, |k: int| k)
}

/// In a list in which each certificate was issued by the one after it, a chain from the first one
/// goes on to the last.
proof fn lemma_straight(names: Seq<CertificateNamesView>, j: int)
    requires
        0 <= j < names.len(),
        forall|k: int|
            0 <= k < names.len() - 1 ==> issued_by(#[trigger] names[k], names[k + 1]),
    ensures
        extended(names, up_to(j)) == up_to(names.len() - 1),
    decreases names.len() - j,
{
    let chain: Seq<int> = up_to(j);
    if j < names.len() - 1 {
        lemma_next_issuer(names, chain, 0);
        assert(issued_by(names[j], names[j + 1]));
        assert(chain.last() == j);
        assert(!chain.contains(j + 1));
        assert forall|k: int| 0 <= k <= j implies chain.contains(k) by {
            assert(chain[k] == k);
        }
        assert(names[j + 1] == names[j + 1]);
        assert(next_issuer(names, chain, 0) == Some(j + 1));
        assert(chain.push(j + 1) =~= up_to(j + 1));
        lemma_straight(names, j + 1);
    }
}

/// Ordering a chain that is ordered changes nothing.
pub proof fn ordering_a_chain_again_changes_nothing(cert_ders: Seq<Seq<u8>>, leaf: int)
    requires
        leaf_to_root(cert_ders, leaf) is Ok,
    ensures
        leaf_to_root(leaf_to_root(cert_ders, leaf)->Ok_0, 0) == leaf_to_root(cert_ders, leaf),
{
    let chain: Seq<Seq<u8>> = leaf_to_root(cert_ders, leaf)->Ok_0;
    let n: int = chain.len() as int;
    chain_starts_at_the_leaf(cert_ders, leaf);
    chain_is_complete(cert_ders, leaf);
    assert forall|k: int| 0 <= k < n implies certificate_names(#[trigger] chain[k]) is Some by {
        let positions: Seq<int> = chain_positions(all_names(cert_ders).unwrap(), leaf);
        assert(0 <= positions[k] < cert_ders.len());
        assert(certificate_names(cert_ders[positions[k]]) is Some);
    }
    let names: Seq<CertificateNamesView> = all_names(chain).unwrap();
    assert forall|k: int| 0 <= k < n - 1 implies issued_by(#[trigger] names[k], names[k + 1]) by {
        chain_is_linked(cert_ders, leaf, k);
    }
    lemma_straight(names, 0);
    assert(up_to(0) =~= seq![0int]);
    assert(at_positions(chain, up_to(n - 1)) =~= chain);
}

/// No two certificates that can be read have the same subject.
pub open spec fn subjects_differ(cert_ders: Seq<Seq<u8>>) -> bool {
    forall|a: int, b: int|
        0 <= a < cert_ders.len() && 0 <= b < cert_ders.len() && a != b ==> match (
            certificate_names(#[trigger] cert_ders[a]),
            certificate_names(#[trigger] cert_ders[b]),
        ) {
            (Some(x), Some(y)) => x.subject != y.subject,
            _ => true,
        }
}

/// A selection of all positions has each of them.
proof fn lemma_all_selected(p: Seq<int>, n: nat, k: int)
    requires
        is_selection(p, n),
        p.len() == n,
        0 <= k < n,
    ensures
        p.contains(k),
{
    if !p.contains(k) {
        lemma_selection_grows(p, k, n);
        lemma_selection_len(p.push(k), n);
    }
}

/// Positions of a selection, selected.
proof fn lemma_selected_twice(p: Seq<int>, c: Seq<int>, n: nat)
    requires
        is_selection(p, n),
        p.len() == n,
        is_selection(c, n),
    ensures
        is_selection(at_positions(p, c), n),
        forall|k: int| 0 <= k < n && at_positions(p, c).contains(#[trigger] p[k]) ==> c.contains(k),
{
    let pc: Seq<int> = at_positions(p, c);
    assert forall|a: int, b: int| 0 <= a < pc.len() && 0 <= b < pc.len() && a != b implies pc[a]
        != pc[b] by {
        assert(0 <= c[a] < n && 0 <= c[b] < n);
        assert(c[a] != c[b]);
    }
    assert forall|k: int| 0 <= k < pc.len() implies 0 <= #[trigger] pc[k] < n by {
        assert(0 <= c[k] < n);
    }
    assert forall|k: int| 0 <= k < n && pc.contains(#[trigger] p[k]) implies c.contains(k) by {
        let at: int = pc.index_of(p[k]);
        assert(0 <= c[at] < n);
        assert(p[c[at]] == p[k]);
        assert(c[at] == k);
    }
}

/// With different subjects, a chain in a list that is arranged otherwise is the same chain.
proof fn lemma_arranged(names: Seq<CertificateNamesView>, p: Seq<int>, c: Seq<int>)
    requires
        is_selection(p, names.len()),
        p.len() == names.len(),
        is_selection(c, names.len()),
        c.len() > 0,
        forall|a: int, b: int|
            0 <= a < names.len() && 0 <= b < names.len() && a != b ==> (#[trigger] names[a]).subject
                != (#[trigger] names[b]).subject,
    ensures
        at_positions(p, extended(at_positions(names, p), c)) == extended(
            names,
            at_positions(p, c),
        ),
    decreases names.len() - c.len(),
{
    let n: nat = names.len();
    let arranged: Seq<CertificateNamesView> = at_positions(names, p);
    let pc: Seq<int> = at_positions(p, c);
    lemma_selected_twice(p, c, n);
    lemma_selection_len(c, n);
    lemma_extended_step(arranged, c);
    lemma_extended_step(names, pc);
    lemma_next_issuer(arranged, c, 0);
    lemma_next_issuer(names, pc, 0);
    assert(0 <= c.last() < n);
    assert(arranged[c.last()] == names[pc.last()]);
    match next_issuer(arranged, c, 0) {
        Some(k) => {
            assert(arranged[k] == names[p[k]]);
            assert(0 <= p[k] < n);
            assert(!pc.contains(p[k]));
            assert(issued_by(names[pc.last()], names[p[k]]));
            assert(next_issuer(names, pc, 0) == Some(p[k]));
            lemma_selection_grows(c, k, n);
            lemma_selection_len(c.push(k), n);
            lemma_arranged(names, p, c.push(k));
            assert(at_positions(p, c.push(k)) =~= pc.push(p[k]));
        },
        None => {
            if let Some(k) = next_issuer(names, pc, 0) {
                lemma_all_selected(p, n, k);
                let i: int = p.index_of(k);
                assert(arranged[i] == names[k]);
                if c.contains(i) {
                    let at: int = c.index_of(i);
                    assert(pc[at] == k);
                }
                assert(false);
            }
        },
    }
}

/// Where no two certificates have the same subject, it does not matter how the list is arranged:
/// the chain from a certificate is the same.
pub proof fn the_arrangement_does_not_matter(cert_ders: Seq<Seq<u8>>, p: Seq<int>, j: int)
    requires
        subjects_differ(cert_ders),
        is_selection(p, cert_ders.len()),
        p.len() == cert_ders.len(),
        0 <= j < cert_ders.len(),
    ensures
        leaf_to_root(at_positions(cert_ders, p), j) == leaf_to_root(cert_ders, p[j]),
{
    let arranged: Seq<Seq<u8>> = at_positions(cert_ders, p);
    let n: nat = cert_ders.len();
    assert(0 <= p[j] < n);
    if all_names(cert_ders) is Some {
        let names: Seq<CertificateNamesView> = all_names(cert_ders).unwrap();
        assert forall|i: int| 0 <= i < n implies certificate_names(#[trigger] arranged[i]) is Some by {
            assert(0 <= p[i] < n);
            assert(certificate_names(cert_ders[p[i]]) is Some);
        }
        assert(all_names(arranged).unwrap() =~= at_positions(names, p)) by {
            assert forall|i: int| 0 <= i < n implies 0 <= #[trigger] p[i] < n by {}
        }
        assert forall|a: int, b: int|
            0 <= a < names.len() && 0 <= b < names.len() && a != b implies (
        #[trigger] names[a]).subject != (#[trigger] names[b]).subject by {
            assert(certificate_names(cert_ders[a]) is Some);
            assert(certificate_names(cert_ders[b]) is Some);
        }
        lemma_arranged(names, p, seq![j]);
        assert(at_positions(p, seq![j]) =~= seq![p[j]]);
        lemma_chain_is_selection(at_positions(names, p), j);
        let c: Seq<int> = chain_positions(at_positions(names, p), j);
        assert(at_positions(arranged, c) =~= at_positions(cert_ders, at_positions(p, c))) by {
            assert forall|k: int| 0 <= k < c.len() implies 0 <= #[trigger] c[k] < n by {}
        }
    } else {
        let k: int = choose|k: int|
            0 <= k < n && certificate_names(#[trigger] cert_ders[k]) is None;
        lemma_all_selected(p, n, k);
        let i: int = p.index_of(k);
        assert(certificate_names(arranged[i]) is None);
    }
}

/// The position of an element after another one was inserted.
pub open spec fn shifted(i: int, j: int) -> int {
    if j < i {
        j
    } else {
        j + 1
    }
}

/// A chain in a list into which a certificate was inserted that issued none of the chain.
proof fn lemma_inserted(
    names: Seq<CertificateNamesView>,
    i: int,
    x: CertificateNamesView,
    c: Seq<int>,
)
    requires
        0 <= i <= names.len(),
        is_selection(c, names.len()),
        c.len() > 0,
        forall|k: int|
            0 <= k < extended(names, c).len() ==> !issued_by(
                names[#[trigger] extended(names, c)[k]],
                x,
            ),
    ensures
        extended(names.insert(i, x), c.map_values(|j: int| shifted(i, j))) == extended(
            names,
            c,
        ).map_values(|j: int| shifted(i, j)),
    decreases names.len() - c.len(),
{
    let n: nat = names.len();
    let longer: Seq<CertificateNamesView> = names.insert(i, x);
    let sc: Seq<int> = c.map_values(|j: int| shifted(i, j));
    let last: int = c.last();
    lemma_selection_len(c, n);
    lemma_extended(names, c);
    assert(extended(names, c).take(c.len() as int)[c.len() - 1] == last);
    assert(!issued_by(names[last], x));
    assert(0 <= last < n);
    assert forall|j: int| 0 <= j < n implies #[trigger] longer[shifted(i, j)] == names[j] by {}
    assert(longer[sc.last()] == names[last]) by {
        assert(longer[shifted(i, last)] == names[last]);
    }
    assert forall|j: int| 0 <= j < n implies (#[trigger] sc.contains(shifted(i, j)) <==> c.contains(
        j,
    )) by {
        if c.contains(j) {
            assert(sc[c.index_of(j)] == shifted(i, j));
        }
        if sc.contains(shifted(i, j)) {
            let at: int = sc.index_of(shifted(i, j));
            assert(c[at] == j);
        }
    }
    assert(is_selection(sc, n + 1)) by {
        assert forall|a: int, b: int|
            0 <= a < sc.len() && 0 <= b < sc.len() && a != b implies sc[a] != sc[b] by {
            assert(c[a] != c[b]);
        }
        assert forall|k: int| 0 <= k < sc.len() implies 0 <= #[trigger] sc[k] < n + 1 by {
            assert(0 <= c[k] < n);
        }
    }
    lemma_extended_step(names, c);
    lemma_extended_step(longer, sc);
    lemma_next_issuer(names, c, 0);
    lemma_next_issuer(longer, sc, 0);
    if let Some(k) = next_issuer(longer, sc, 0) {
        // what is found is not the inserted one
        assert(longer[i] == x);
        assert(k != i);
        let j: int = if k < i {
            k
        } else {
            k - 1
        };
        assert(shifted(i, j) == k);
        assert(longer[shifted(i, j)] == names[j]);
        assert(!c.contains(j));
        assert(issued_by(names[last], names[j]));
        assert(next_issuer(names, c, 0) is Some);
    }
    match next_issuer(names, c, 0) {
        Some(j) => {
            let k: int = shifted(i, j);
            assert(longer[shifted(i, j)] == names[j]);
            assert(!sc.contains(shifted(i, j)));
            assert(longer[k] == names[j]);
            assert(next_issuer(longer, sc, 0) is Some);
            let found: int = next_issuer(longer, sc, 0).unwrap();
            assert(found <= k);
            if found < k {
                let earlier: int = if found < i {
                    found
                } else {
                    found - 1
                };
                assert(shifted(i, earlier) == found);
                assert(longer[shifted(i, earlier)] == names[earlier]);
                assert(sc.contains(shifted(i, earlier)) <==> c.contains(earlier));
                assert(names[earlier] == names[earlier]);
                assert(false);
            }
            lemma_selection_grows(c, j, n);
            lemma_selection_len(c.push(j), n);
            lemma_inserted(names, i, x, c.push(j));
            assert(c.push(j).map_values(|j: int| shifted(i, j)) =~= sc.push(k));
        },
        None => {},
    }
}

/// A certificate that can be read and issued none of a chain changes nothing of the chain,
/// wherever in the list it stands.
pub proof fn an_unrelated_certificate_is_ignored(
    cert_ders: Seq<Seq<u8>>,
    leaf: int,
    i: int,
    other: Seq<u8>,
)
    requires
        leaf_to_root(cert_ders, leaf) is Ok,
        0 <= i <= cert_ders.len(),
        certificate_names(other) is Some,
        forall|k: int|
            0 <= k < leaf_to_root(cert_ders, leaf)->Ok_0.len() ==> !issued_by(
                certificate_names(#[trigger] leaf_to_root(cert_ders, leaf)->Ok_0[k]).unwrap(),
                certificate_names(other).unwrap(),
            ),
    ensures
        leaf_to_root(cert_ders.insert(i, other), shifted(i, leaf)) == leaf_to_root(cert_ders, leaf),
{
    let n: nat = cert_ders.len();
    let longer: Seq<Seq<u8>> = cert_ders.insert(i, other);
    let names: Seq<CertificateNamesView> = all_names(cert_ders).unwrap();
    let x: CertificateNamesView = certificate_names(other).unwrap();
    let chain: Seq<int> = chain_positions(names, leaf);
    lemma_chain_is_selection(names, leaf);
    assert forall|k: int| 0 <= k < n + 1 implies certificate_names(#[trigger] longer[k]) is Some by {
        if k < i {
            assert(longer[k] == cert_ders[k]);
        } else if k > i {
            assert(longer[k] == cert_ders[k - 1]);
        }
    }
    assert(all_names(longer).unwrap() =~= names.insert(i, x));
    assert forall|k: int| 0 <= k < chain.len() implies !issued_by(
        names[#[trigger] chain[k]],
        x,
    ) by {
        assert(leaf_to_root(cert_ders, leaf)->Ok_0[k] == cert_ders[chain[k]]);
    }
    lemma_inserted(names, i, x, seq![leaf]);
    assert(seq![leaf].map_values(|j: int| shifted(i, j)) =~= seq![shifted(i, leaf)]);
    let moved: Seq<int> = chain.map_values(|j: int| shifted(i, j));
    assert(at_positions(longer, moved) =~= at_positions(cert_ders, chain)) by {
        assert forall|k: int| 0 <= k < chain.len() implies 0 <= #[trigger] chain[k] < n by {}
    }
}

} // verus!
