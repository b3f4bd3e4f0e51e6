//! Object identifiers.

use std::str::FromStr;

use vstd::prelude::*;

use crate::text;

verus! {

/// The CMS content type of signed data.
pub const ID_SIGNED_DATA: [u32; 7] = [1, 2, 840, 113549, 1, 7, 2];

/// The CMS content type of the information in a time stamp.
pub const ID_CT_TST_INFO: [u32; 9] = [1, 2, 840, 113549, 1, 9, 16, 1, 4];

/// The attribute that holds the digest of the signed content.
pub const ID_MESSAGE_DIGEST: [u32; 7] = [1, 2, 840, 113549, 1, 9, 4];

/// The attribute that holds the time of signing.
pub const ID_SIGNING_TIME: [u32; 7] = [1, 2, 840, 113549, 1, 9, 5];

/// The certificate extension that holds the subject key identifier.
pub const ID_SUBJECT_KEY_IDENTIFIER: [u32; 4] = [2, 5, 29, 14];

/// An object identifier of an algorithm.
#[derive(Debug, PartialEq, Eq)]
pub struct Oid {
    /// The content octets of its BER encoding.
    pub octets: Vec<u8>,
    /// Its arcs in dotted form.
    pub dotted: String,
}

/// An [`Oid`] as sequences of octets and characters.
pub struct OidView {
    pub octets: Seq<u8>,
    pub dotted: Seq<char>,
}

impl View for Oid {
    type V = OidView;

    open spec fn view(&self) -> OidView {
        OidView { octets: self.octets@, dotted: self.dotted@ }
    }
}

impl DeepView for Oid {
    type V = OidView;

    open spec fn deep_view(&self) -> OidView {
        self@
    }
}

/// The first two arcs can be put into one subidentifier of 32 bits.
pub open spec fn root_fits(arcs: Seq<u32>) -> bool {
    arcs.len() >= 2 && arcs[0] == 2 ==> arcs[1] <= u32::MAX - 80
}

/// What `bcder` reads a dotted object identifier as.
pub uninterp spec fn bcder_oid(written: Seq<char>) -> Option<OidView>;

/// Calls `bcder::Oid::from_str`, and writes the identifier that comes out with its `Display`.
/// The result is a function of the text alone. A text in which the sum of 80 and the second arc
/// exceeds 32 bits is left out, because the sum overflows there.
#[verifier::external_body]
fn parse_bcder_oid(written: &str) -> (oid: Option<Oid>)
    requires
        exists|arcs: Seq<u32>| written@ == #[trigger] text::dotted_text(arcs) && root_fits(arcs),
    ensures
        oid.deep_view() == bcder_oid(written@),
{
    bcder::Oid::<Vec<u8>>::from_str(written).ok().map(
        |oid| Oid { dotted: oid.to_string(), octets: oid.0 },
    )
}

/// No identifier that `der` can hold has a dotted form that is longer.
pub const LONGEST_DOTTED: usize = 1000;

/// A text that `der` can be given to read an identifier from.
pub open spec fn is_readable(written: Seq<char>) -> bool {
    written.len() <= LONGEST_DOTTED && text::all_arcs_fit(written)
}

/// Tells whether `der` can be given a text to read an identifier from.
pub fn readable(written: &str) -> (readable: bool)
    ensures
        readable == is_readable(written@),
{
    written.unicode_len() <= LONGEST_DOTTED && text::arcs_fit(written)
}

/// The octets of the identifier that `der` reads from a text.
pub uninterp spec fn der_oid(written: Seq<char>) -> Option<Seq<u8>>;

/// Calls `der::asn1::ObjectIdentifier::new` and hands out the octets of the identifier, which
/// are what two identifiers are compared by. The result is a function of the text alone. A text
/// with an arc above `u32::MAX` is left out, because reading it overflows, and so is a long text,
/// because it is read by recursion.
#[verifier::external_body]
pub(crate) fn parse_der_oid(written: &str) -> (octets: Option<Vec<u8>>)
    requires
        is_readable(written@),
    ensures
        octets.deep_view() == der_oid(written@),
{
    der::asn1::ObjectIdentifier::new(written).ok().map(|oid| oid.as_bytes().to_vec())
}

/// The identifier with the given arcs, where `bcder` accepts it.
pub open spec fn oid_from_arcs(arcs: Seq<u32>) -> Option<OidView> {
    if root_fits(arcs) {
        bcder_oid(text::dotted_text(arcs))
    } else {
        None
    }
}

impl Oid {
    /// Makes an identifier from its arcs; `None` where they cannot be those of an identifier.
    pub fn from_arcs(arcs: &[u32]) -> (oid: Option<Oid>)
        ensures
            oid.deep_view() == oid_from_arcs(arcs@),
    {
        if arcs.len() >= 2 && arcs[0] == 2 && arcs[1] > u32::MAX - 80 {
            return None;
        }
        let written: String = text::dotted(arcs);
        parse_bcder_oid(written.as_str())
    }
}

/// Tells whether two lists of arcs are the same.
pub fn same_arcs(a: &[u32], b: &[u32]) -> (same: bool)
    ensures
        same == (a@ == b@),
{
    if a.len() != b.len() {
        return false;
    }
    let mut i: usize = 0;
    while i < a.len()
        invariant
            i <= a@.len(),
            a@.len() == b@.len(),
            forall|j: int| 0 <= j < i ==> a@[j] == b@[j],
        decreases a@.len() - i,
    {
        if a[i] != b[i] {
            return false;
        }
        i = i + 1;
    }
    assert(a@ =~= b@);
    true
}

/// Tells whether two strings of octets are the same.
pub fn same_octets(a: &[u8], b: &[u8]) -> (same: bool)
    ensures
        same == (a@ == b@),
{
    if a.len() != b.len() {
        return false;
    }
    let mut i: usize = 0;
    while i < a.len()
        invariant
            i <= a@.len(),
            a@.len() == b@.len(),
            forall|j: int| 0 <= j < i ==> a@[j] == b@[j],
        decreases a@.len() - i,
    {
        if a[i] != b[i] {
            return false;
        }
        i = i + 1;
    }
    assert(a@ =~= b@);
    true
}

/// Copies octets.
pub fn copy_octets(octets: &Vec<u8>) -> (copy: Vec<u8>)
    ensures
        copy@ == octets@,
{
    let copy: Vec<u8> = octets.clone();
    assert(copy@ =~= octets@);
    copy
}

/// Octets have nothing inside them: a list of them looks the same at any depth.
pub broadcast proof fn octets_are_flat(octets: Vec<u8>)
    ensures
        #[trigger] octets.deep_view() == octets@,
{
    assert(octets.deep_view() =~= octets@);
}

} // verus!
