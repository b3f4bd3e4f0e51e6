//! Message digests.

use vstd::prelude::*;

use crate::oid::{self, Oid};

verus! {

/// The octets of SHA-1's identifier, 1.3.14.3.2.26.
pub const SHA1_OID: [u8; 5] = [0x2b, 0x0e, 0x03, 0x02, 0x1a];

/// The octets of SHA-256's identifier, 2.16.840.1.101.3.4.2.1.
pub const SHA256_OID: [u8; 9] = [0x60, 0x86, 0x48, 0x01, 0x65, 0x03, 0x04, 0x02, 0x01];

/// The octets of SHA-384's identifier, 2.16.840.1.101.3.4.2.2.
pub const SHA384_OID: [u8; 9] = [0x60, 0x86, 0x48, 0x01, 0x65, 0x03, 0x04, 0x02, 0x02];

/// The octets of SHA-512's identifier, 2.16.840.1.101.3.4.2.3.
pub const SHA512_OID: [u8; 9] = [0x60, 0x86, 0x48, 0x01, 0x65, 0x03, 0x04, 0x02, 0x03];

/// The SHA-1 digest of a message.
pub uninterp spec fn sha1_digest(message: Seq<u8>) -> Seq<u8>;

/// The SHA-256 digest of a message.
pub uninterp spec fn sha256_digest(message: Seq<u8>) -> Seq<u8>;

/// The SHA-384 digest of a message.
pub uninterp spec fn sha384_digest(message: Seq<u8>) -> Seq<u8>;

/// The SHA-512 digest of a message.
pub uninterp spec fn sha512_digest(message: Seq<u8>) -> Seq<u8>;

/// Calls `digest` of `sha1::Sha1`: 20 octets that depend on the message alone.
#[verifier::external_body]
fn sha1(message: &[u8]) -> (digest: Vec<u8>)
    ensures
        digest@ == sha1_digest(message@),
        digest@.len() == 20,
{
    <sha1::Sha1 as sha1::Digest>::digest(message).to_vec()
}

/// Calls `digest` of `sha2::Sha256`: 32 octets that depend on the message alone.
#[verifier::external_body]
fn sha256(message: &[u8]) -> (digest: Vec<u8>)
    ensures
        digest@ == sha256_digest(message@),
        digest@.len() == 32,
{
    <sha2::Sha256 as sha2::Digest>::digest(message).to_vec()
}

/// Calls `digest` of `sha2::Sha384`: 48 octets that depend on the message alone.
#[verifier::external_body]
fn sha384(message: &[u8]) -> (digest: Vec<u8>)
    ensures
        digest@ == sha384_digest(message@),
        digest@.len() == 48,
{
    <sha2::Sha384 as sha2::Digest>::digest(message).to_vec()
}

/// Calls `digest` of `sha2::Sha512`: 64 octets that depend on the message alone.
#[verifier::external_body]
fn sha512(message: &[u8]) -> (digest: Vec<u8>)
    ensures
        digest@ == sha512_digest(message@),
        digest@.len() == 64,
{
    <sha2::Sha512 as sha2::Digest>::digest(message).to_vec()
}

/// A digest algorithm.
#[derive(Clone, Copy, Debug, PartialEq, Eq, Structural)]
pub enum DigestAlgorithm {
    Sha1,
    Sha256,
    Sha384,
    Sha512,
}

/// The digest of a message under an algorithm.
pub open spec fn digest_of(algorithm: DigestAlgorithm, message: Seq<u8>) -> Seq<u8> {
    match algorithm {
        DigestAlgorithm::Sha1 => sha1_digest(message),
        DigestAlgorithm::Sha256 => sha256_digest(message),
        DigestAlgorithm::Sha384 => sha384_digest(message),
        DigestAlgorithm::Sha512 => sha512_digest(message),
    }
}

/// The number of octets in a digest.
pub open spec fn digest_len(algorithm: DigestAlgorithm) -> nat {
    match algorithm {
        DigestAlgorithm::Sha1 => 20,
        DigestAlgorithm::Sha256 => 32,
        DigestAlgorithm::Sha384 => 48,
        DigestAlgorithm::Sha512 => 64,
    }
}

/// The algorithm that an identifier with these octets stands for.
pub open spec fn algorithm_with_octets(octets: Seq<u8>) -> Option<DigestAlgorithm> {
    if octets == SHA1_OID@ {
        Some(DigestAlgorithm::Sha1)
    } else if octets == SHA256_OID@ {
        Some(DigestAlgorithm::Sha256)
    } else if octets == SHA384_OID@ {
        Some(DigestAlgorithm::Sha384)
    } else if octets == SHA512_OID@ {
        Some(DigestAlgorithm::Sha512)
    } else {
        None
    }
}

/// The algorithm that an identifier stands for: its dotted form is read once more, by `der`, and
/// compared with the known identifiers.
pub open spec fn algorithm_with_oid(id: oid::OidView) -> Option<DigestAlgorithm> {
    if !oid::is_readable(id.dotted) {
        None
    } else {
        match oid::der_oid(id.dotted) {
            Some(octets) => algorithm_with_octets(octets),
            None => None,
        }
    }
}

/// A result without its error as an option.
pub open spec fn supported(result: Result<DigestAlgorithm, ()>) -> Option<DigestAlgorithm> {
    match result {
        Ok(algorithm) => Some(algorithm),
        Err(_) => None,
    }
}

impl DigestAlgorithm {
    /// Starts a digest.
    pub fn digester(self) -> (hasher: Hasher)
        ensures
            hasher.algorithm() == self,
            hasher.message() == Seq::<u8>::empty(),
    {
        match self {
            DigestAlgorithm::Sha1 => Hasher::Sha1(Vec::new()),
            DigestAlgorithm::Sha256 => Hasher::Sha256(Vec::new()),
            DigestAlgorithm::Sha384 => Hasher::Sha384(Vec::new()),
            DigestAlgorithm::Sha512 => Hasher::Sha512(Vec::new()),
        }
    }

    /// The algorithm whose identifier has the given octets.
    pub fn from_octets(octets: &[u8]) -> (result: Result<DigestAlgorithm, ()>)
        ensures
            supported(result) == algorithm_with_octets(octets@),
    {
        if oid::same_octets(octets, &SHA1_OID) {
            Ok(DigestAlgorithm::Sha1)
        } else if oid::same_octets(octets, &SHA256_OID) {
            Ok(DigestAlgorithm::Sha256)
        } else if oid::same_octets(octets, &SHA384_OID) {
            Ok(DigestAlgorithm::Sha384)
        } else if oid::same_octets(octets, &SHA512_OID) {
            Ok(DigestAlgorithm::Sha512)
        } else {
            Err(())
        }
    }

    /// The algorithm that an identifier stands for.
    pub fn try_from(id: &Oid) -> (result: Result<DigestAlgorithm, ()>)
        ensures
            supported(result) == algorithm_with_oid(id@),
    {
        if !oid::readable(id.dotted.as_str()) {
            return Err(());
        }
        match oid::parse_der_oid(id.dotted.as_str()) {
            Some(octets) => {
                assert(octets.deep_view() =~= octets@);
                DigestAlgorithm::from_octets(octets.as_slice())
            },
            None => Err(()),
        }
    }
}

/// A digest in progress, with the message that it has been given so far.
pub enum Hasher {
    Sha1(Vec<u8>),
    Sha256(Vec<u8>),
    Sha384(Vec<u8>),
    Sha512(Vec<u8>),
}

impl Hasher {
    /// The algorithm of the digest.
    pub open spec fn algorithm(self) -> DigestAlgorithm {
        match self {
            Hasher::Sha1(_) => DigestAlgorithm::Sha1,
            Hasher::Sha256(_) => DigestAlgorithm::Sha256,
            Hasher::Sha384(_) => DigestAlgorithm::Sha384,
            Hasher::Sha512(_) => DigestAlgorithm::Sha512,
        }
    }

    /// The message given so far.
    pub open spec fn message(self) -> Seq<u8> {
        match self {
            Hasher::Sha1(m) => m@,
            Hasher::Sha256(m) => m@,
            Hasher::Sha384(m) => m@,
            Hasher::Sha512(m) => m@,
        }
    }

    /// Continues the message.
    pub fn update(&mut self, data: &[u8])
        ensures
            final(self).algorithm() == old(self).algorithm(),
            final(self).message() == old(self).message() + data@,
    {
        match self {
            Hasher::Sha1(m) => {
                m.extend_from_slice(data);
            },
            Hasher::Sha256(m) => {
                m.extend_from_slice(data);
            },
            Hasher::Sha384(m) => {
                m.extend_from_slice(data);
            },
            Hasher::Sha512(m) => {
                m.extend_from_slice(data);
            },
        }
        assert(self.message() =~= old(self).message() + data@);
    }

    /// Ends the message and hands out its digest.
    pub fn finish(self) -> (output: HasherOutput)
        ensures
            output@ == digest_of(self.algorithm(), self.message()),
            output@.len() == digest_len(self.algorithm()),
    {
        match self {
            Hasher::Sha1(m) => HasherOutput(sha1(m.as_slice())),
            Hasher::Sha256(m) => HasherOutput(sha256(m.as_slice())),
            Hasher::Sha384(m) => HasherOutput(sha384(m.as_slice())),
            Hasher::Sha512(m) => HasherOutput(sha512(m.as_slice())),
        }
    }
}

/// A finished digest.
pub struct HasherOutput(pub Vec<u8>);

impl View for HasherOutput {
    type V = Seq<u8>;

    open spec fn view(&self) -> Seq<u8> {
        self.0@
    }
}

impl HasherOutput {
    /// The octets of the digest.
    pub fn as_ref(&self) -> (octets: &[u8])
        ensures
            octets@ == self@,
    {
        self.0.as_slice()
    }
}

/// A message that is given in parts has the digest of the parts put together.
pub proof fn parts_make_the_message(algorithm: DigestAlgorithm, first: Seq<u8>, second: Seq<u8>)
    ensures
        digest_of(algorithm, (Seq::<u8>::empty() + first) + second) == digest_of(
            algorithm,
            first + second,
        ),
{
    assert((Seq::<u8>::empty() + first) + second =~= first + second);
}

/// Each algorithm is found by its own identifier.
pub proof fn each_algorithm_has_its_identifier()
    ensures
        algorithm_with_octets(SHA1_OID@) == Some(DigestAlgorithm::Sha1),
        algorithm_with_octets(SHA256_OID@) == Some(DigestAlgorithm::Sha256),
        algorithm_with_octets(SHA384_OID@) == Some(DigestAlgorithm::Sha384),
        algorithm_with_octets(SHA512_OID@) == Some(DigestAlgorithm::Sha512),
{
    assert(SHA1_OID@.len() == 5);
    assert(SHA256_OID@.len() == 9);
    assert(SHA384_OID@.len() == 9);
    assert(SHA512_OID@.len() == 9);
    assert(SHA256_OID@[8] == 1);
    assert(SHA384_OID@[8] == 2);
    assert(SHA512_OID@[8] == 3);
}

} // verus!
