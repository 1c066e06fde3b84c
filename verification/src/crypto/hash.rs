//! Hash algorithm identifiers and the digests behind them.
//!
//! The digests are computed by the `md-5`, `sha1`, `ripemd` and `sha2` crates.
//! Each digest is a function of the hashed octets alone, so each has a name in
//! specifications; nothing is claimed of a digest beyond its name and length.

use sha2::Digest;
use vstd::prelude::*;

verus! {

/// The hash algorithms that a signature can name, by their one-octet identifier.
#[derive(Debug, Clone, Copy, PartialEq, Eq, Structural)]
pub enum HashAlgorithm {
    MD5,
    SHA1,
    RIPEMD160,
    SHA256,
    SHA384,
    SHA512,
    SHA224,
}

/// The MD5 digest of `data`.
pub uninterp spec fn md5_digest(data: Seq<u8>) -> Seq<u8>;

/// The SHA-1 digest of `data`.
pub uninterp spec fn sha1_digest(data: Seq<u8>) -> Seq<u8>;

/// The RIPEMD-160 digest of `data`.
pub uninterp spec fn ripemd160_digest(data: Seq<u8>) -> Seq<u8>;

/// The SHA-256 digest of `data`.
pub uninterp spec fn sha256_digest(data: Seq<u8>) -> Seq<u8>;

/// The SHA-384 digest of `data`.
pub uninterp spec fn sha384_digest(data: Seq<u8>) -> Seq<u8>;

/// The SHA-512 digest of `data`.
pub uninterp spec fn sha512_digest(data: Seq<u8>) -> Seq<u8>;

/// The SHA-224 digest of `data`.
pub uninterp spec fn sha224_digest(data: Seq<u8>) -> Seq<u8>;

/// Trusted: `md5::Md5::digest` returns the MD5 digest, 16 octets long.
#[verifier::external_body]
fn md5(data: &[u8]) -> (r: Vec<u8>)
    ensures
        r@ == md5_digest(data@),
        r@.len() == 16,
{
    md5::Md5::digest(data).to_vec()
}

/// Trusted: `sha1::Sha1::digest` returns the SHA-1 digest, 20 octets long.
#[verifier::external_body]
fn sha1(data: &[u8]) -> (r: Vec<u8>)
    ensures
        r@ == sha1_digest(data@),
        r@.len() == 20,
{
    sha1::Sha1::digest(data).to_vec()
}

/// Trusted: `ripemd::Ripemd160::digest` returns the RIPEMD-160 digest, 20
/// octets long.
#[verifier::external_body]
fn ripemd160(data: &[u8]) -> (r: Vec<u8>)
    ensures
        r@ == ripemd160_digest(data@),
        r@.len() == 20,
{
    ripemd::Ripemd160::digest(data).to_vec()
}

/// Trusted: `sha2::Sha256::digest` returns the SHA-256 digest, 32 octets long.
#[verifier::external_body]
fn sha256(data: &[u8]) -> (r: Vec<u8>)
    ensures
        r@ == sha256_digest(data@),
        r@.len() == 32,
{
    sha2::Sha256::digest(data).to_vec()
}

/// Trusted: `sha2::Sha384::digest` returns the SHA-384 digest, 48 octets long.
#[verifier::external_body]
fn sha384(data: &[u8]) -> (r: Vec<u8>)
    ensures
        r@ == sha384_digest(data@),
        r@.len() == 48,
{
    sha2::Sha384::digest(data).to_vec()
}

/// Trusted: `sha2::Sha512::digest` returns the SHA-512 digest, 64 octets long.
#[verifier::external_body]
fn sha512(data: &[u8]) -> (r: Vec<u8>)
    ensures
        r@ == sha512_digest(data@),
        r@.len() == 64,
{
    sha2::Sha512::digest(data).to_vec()
}

/// Trusted: `sha2::Sha224::digest` returns the SHA-224 digest, 28 octets long.
#[verifier::external_body]
fn sha224(data: &[u8]) -> (r: Vec<u8>)
    ensures
        r@ == sha224_digest(data@),
        r@.len() == 28,
{
    sha2::Sha224::digest(data).to_vec()
}

impl HashAlgorithm {
    /// The identifier octet of the algorithm.
    pub open spec fn id(self) -> u8 {
        match self {
            HashAlgorithm::MD5 => 1,
            HashAlgorithm::SHA1 => 2,
            HashAlgorithm::RIPEMD160 => 3,
            HashAlgorithm::SHA256 => 8,
            HashAlgorithm::SHA384 => 9,
            HashAlgorithm::SHA512 => 10,
            HashAlgorithm::SHA224 => 11,
        }
    }

    /// The algorithm that an identifier octet names, if any.
    pub open spec fn of_id(v: u8) -> Option<HashAlgorithm> {
        if v == 1 {
            Some(HashAlgorithm::MD5)
        } else if v == 2 {
            Some(HashAlgorithm::SHA1)
        } else if v == 3 {
            Some(HashAlgorithm::RIPEMD160)
        } else if v == 8 {
            Some(HashAlgorithm::SHA256)
        } else if v == 9 {
            Some(HashAlgorithm::SHA384)
        } else if v == 10 {
            Some(HashAlgorithm::SHA512)
        } else if v == 11 {
            Some(HashAlgorithm::SHA224)
        } else {
            None
        }
    }

    /// The length of the algorithm's digests in octets.
    pub open spec fn digest_size_spec(self) -> nat {
        match self {
            HashAlgorithm::MD5 => 16,
            HashAlgorithm::SHA1 => 20,
            HashAlgorithm::RIPEMD160 => 20,
            HashAlgorithm::SHA256 => 32,
            HashAlgorithm::SHA384 => 48,
            HashAlgorithm::SHA512 => 64,
            HashAlgorithm::SHA224 => 28,
        }
    }

    /// The digest of `data` under the algorithm.
    pub open spec fn digest_spec(self, data: Seq<u8>) -> Seq<u8> {
        match self {
            HashAlgorithm::MD5 => md5_digest(data),
            HashAlgorithm::SHA1 => sha1_digest(data),
            HashAlgorithm::RIPEMD160 => ripemd160_digest(data),
            HashAlgorithm::SHA256 => sha256_digest(data),
            HashAlgorithm::SHA384 => sha384_digest(data),
            HashAlgorithm::SHA512 => sha512_digest(data),
            HashAlgorithm::SHA224 => sha224_digest(data),
        }
    }

    /// The name of the variant, as it is shown in diagnostics.
    pub open spec fn name_spec(self) -> Seq<char> {
        match self {
            HashAlgorithm::MD5 => "MD5"@,
            HashAlgorithm::SHA1 => "SHA1"@,
            HashAlgorithm::RIPEMD160 => "RIPEMD160"@,
            HashAlgorithm::SHA256 => "SHA256"@,
            HashAlgorithm::SHA384 => "SHA384"@,
            HashAlgorithm::SHA512 => "SHA512"@,
            HashAlgorithm::SHA224 => "SHA224"@,
        }
    }

    /// The identifier octet of the algorithm.
    pub fn to_u8(self) -> (r: u8)
        ensures
            r == self.id(),
    {
        match self {
            HashAlgorithm::MD5 => 1,
            HashAlgorithm::SHA1 => 2,
            HashAlgorithm::RIPEMD160 => 3,
            HashAlgorithm::SHA256 => 8,
            HashAlgorithm::SHA384 => 9,
            HashAlgorithm::SHA512 => 10,
            HashAlgorithm::SHA224 => 11,
        }
    }

    /// The algorithm that `v` names; `None` for an unassigned identifier.
    pub fn from_u8(v: u8) -> (r: Option<HashAlgorithm>)
        ensures
            r == HashAlgorithm::of_id(v),
    {
        match v {
            1 => Some(HashAlgorithm::MD5),
            2 => Some(HashAlgorithm::SHA1),
            3 => Some(HashAlgorithm::RIPEMD160),
            8 => Some(HashAlgorithm::SHA256),
            9 => Some(HashAlgorithm::SHA384),
            10 => Some(HashAlgorithm::SHA512),
            11 => Some(HashAlgorithm::SHA224),
            _ => None,
        }
    }

    /// The name of the variant, as it is shown in diagnostics.
    pub fn name(self) -> (r: &'static str)
        ensures
            r@ == self.name_spec(),
    {
        match self {
            HashAlgorithm::MD5 => "MD5",
            HashAlgorithm::SHA1 => "SHA1",
            HashAlgorithm::RIPEMD160 => "RIPEMD160",
            HashAlgorithm::SHA256 => "SHA256",
            HashAlgorithm::SHA384 => "SHA384",
            HashAlgorithm::SHA512 => "SHA512",
            HashAlgorithm::SHA224 => "SHA224",
        }
    }

    /// The length of the algorithm's digests in octets.
    pub fn digest_size(self) -> (r: usize)
        ensures
            r == self.digest_size_spec(),
    {
        match self {
            HashAlgorithm::MD5 => 16,
            HashAlgorithm::SHA1 => 20,
            HashAlgorithm::RIPEMD160 => 20,
            HashAlgorithm::SHA256 => 32,
            HashAlgorithm::SHA384 => 48,
            HashAlgorithm::SHA512 => 64,
            HashAlgorithm::SHA224 => 28,
        }
    }

    /// Computes the digest of `data` under the algorithm.
    pub fn digest(self, data: &[u8]) -> (r: Vec<u8>)
        ensures
            r@ == self.digest_spec(data@),
            r@.len() == self.digest_size_spec(),
    {
        match self {
            HashAlgorithm::MD5 => md5(data),
            HashAlgorithm::SHA1 => sha1(data),
            HashAlgorithm::RIPEMD160 => ripemd160(data),
            HashAlgorithm::SHA256 => sha256(data),
            HashAlgorithm::SHA384 => sha384(data),
            HashAlgorithm::SHA512 => sha512(data),
            HashAlgorithm::SHA224 => sha224(data),
        }
    }
}

/// Every algorithm is found again from its identifier.
pub proof fn lemma_hash_id_roundtrip(a: HashAlgorithm)
    ensures
        HashAlgorithm::of_id(a.id()) == Some(a),
{
}

/// An identifier that names an algorithm is the identifier of that algorithm.
pub proof fn lemma_hash_of_id_sound(v: u8)
    ensures
        HashAlgorithm::of_id(v) matches Some(a) ==> a.id() == v,
{
}

} // verus!
