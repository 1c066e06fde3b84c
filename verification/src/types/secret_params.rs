//! The secret parameters of a key, as the secret part of a key packet holds
//! them: in the clear behind a checksum, or wrapped by a cipher whose key is
//! derived from a password.
//!
//! The secret part starts with an octet that tells how it is protected. Zero
//! means that the secret integers follow as MPIs, with the sum of their
//! octets modulo 65536 in two octets after them. 254 and 255 mean that a
//! cipher, a string-to-key specifier and an initial vector of the cipher's
//! block length follow, and after them the wrapped octets up to the end of
//! the packet. The wrapped octets are kept as they are; unwrapping them is
//! the work of a cipher engine.

use crate::bignum::{biguint_value, nat_bits};
use crate::crypto::hash::{lemma_hash_id_roundtrip, HashAlgorithm};
use crate::crypto::public_key::{
    lemma_parse_nat_at, lemma_parse_two, parse_nat, read_integer, PublicKeyAlgorithm,
};
use crate::crypto::sym::{lemma_symmetric_id_roundtrip, SymmetricKeyAlgorithm};
use crate::errors::Error;
use crate::packet::length::{lemma_u16_be_roundtrip, read_u16_be, u16_at};
use crate::ser::Serialize;
use crate::util::{
    append_bytes, mpi_of_nat, u16_be, write_bignum_mpi, write_u16_be, MAX_MPI_BITS,
};
use num_bigint::BigUint;
use vstd::prelude::*;
use vstd::slice::{slice_subrange, slice_to_vec};

verus! {

/// How a password is turned into a key.
#[derive(Debug, Clone, Copy, PartialEq, Eq, Structural)]
pub enum StringToKeyType {
    /// The password is hashed.
    Simple,
    /// The password is hashed behind a salt.
    Salted,
    /// Salt and password are hashed over and over.
    IteratedAndSalted,
}

/// A string-to-key specifier: the method, the hash algorithm and, by method,
/// the salt and the coded iteration count.
#[derive(Debug, Clone, Copy, PartialEq, Eq)]
pub struct StringToKey {
    pub typ: StringToKeyType,
    pub hash: HashAlgorithm,
    pub salt: Option<[u8; 8]>,
    pub count: Option<u8>,
}

/// The mathematical content of a [`StringToKey`].
pub ghost struct StringToKeyView {
    pub typ: StringToKeyType,
    pub hash: HashAlgorithm,
    pub salt: Option<Seq<u8>>,
    pub count: Option<u8>,
}

impl View for StringToKey {
    type V = StringToKeyView;

    open spec fn view(&self) -> StringToKeyView {
        StringToKeyView {
            typ: self.typ,
            hash: self.hash,
            salt: match self.salt {
                Some(s) => Some(s@),
                None => None,
            },
            count: self.count,
        }
    }
}

impl StringToKeyView {
    /// Whether salt and count are there exactly when the method uses them,
    /// and the salt is eight octets long.
    pub open spec fn well_formed(self) -> bool {
        match self.typ {
            StringToKeyType::Simple => self.salt is None && self.count is None,
            StringToKeyType::Salted => (self.salt matches Some(s) && s.len() == 8) && self.count
                is None,
            StringToKeyType::IteratedAndSalted => (self.salt matches Some(s) && s.len() == 8)
                && self.count is Some,
        }
    }

    /// The octets of the specifier: the method, the hash algorithm, the salt
    /// and the count where the method has them.
    pub open spec fn serialized(self) -> Seq<u8> {
        match self.typ {
            StringToKeyType::Simple => seq![0u8, self.hash.id()],
            StringToKeyType::Salted => seq![1u8, self.hash.id()] + self.salt->0,
            StringToKeyType::IteratedAndSalted => seq![3u8, self.hash.id()] + self.salt->0 + seq![
                self.count->0,
            ],
        }
    }
}

/// The result of reading a string-to-key specifier at `pos`.
#[verifier::opaque]
pub open spec fn parse_string_to_key(body: Seq<u8>, pos: int) -> Result<(StringToKeyView, int), Error> {
    if pos < 0 || pos + 2 > body.len() {
        Err(Error::MalformedInput { offset: pos as usize })
    } else {
        match HashAlgorithm::of_id(body[pos + 1]) {
            None => Err(Error::UnsupportedAlgorithm),
            Some(hash) => if body[pos] == 0 {
                Ok((StringToKeyView { typ: StringToKeyType::Simple, hash, salt: None, count: None }, pos + 2))
            } else if body[pos] == 1 {
                if pos + 10 > body.len() {
                    Err(Error::MalformedInput { offset: pos as usize })
                } else {
                    Ok(
                        (
                            StringToKeyView {
                                typ: StringToKeyType::Salted,
                                hash,
                                salt: Some(body.subrange(pos + 2, pos + 10)),
                                count: None,
                            },
                            pos + 10,
                        ),
                    )
                }
            } else if body[pos] == 3 {
                if pos + 11 > body.len() {
                    Err(Error::MalformedInput { offset: pos as usize })
                } else {
                    Ok(
                        (
                            StringToKeyView {
                                typ: StringToKeyType::IteratedAndSalted,
                                hash,
                                salt: Some(body.subrange(pos + 2, pos + 10)),
                                count: Some(body[pos + 10]),
                            },
                            pos + 11,
                        ),
                    )
                }
            } else {
                Err(Error::UnsupportedAlgorithm)
            },
        }
    }
}

/// The block length of a cipher in octets, which is the length of its
/// initial vector; `None` for an identifier that names no cipher.
pub open spec fn block_size(alg: SymmetricKeyAlgorithm) -> Option<nat> {
    match alg {
        SymmetricKeyAlgorithm::IDEA
        | SymmetricKeyAlgorithm::TripleDES
        | SymmetricKeyAlgorithm::CAST5
        | SymmetricKeyAlgorithm::Blowfish => Some(8),
        SymmetricKeyAlgorithm::AES128
        | SymmetricKeyAlgorithm::AES192
        | SymmetricKeyAlgorithm::AES256
        | SymmetricKeyAlgorithm::Twofish
        | SymmetricKeyAlgorithm::Camellia128
        | SymmetricKeyAlgorithm::Camellia192
        | SymmetricKeyAlgorithm::Camellia256 => Some(16),
        SymmetricKeyAlgorithm::Plaintext | SymmetricKeyAlgorithm::Private10 => None,
    }
}

/// The block length of a cipher in octets.
pub fn cipher_block_size(alg: SymmetricKeyAlgorithm) -> (r: Option<usize>)
    ensures
        match r {
            Some(n) => block_size(alg) == Some(n as nat),
            None => block_size(alg) is None,
        },
{
    match alg {
        SymmetricKeyAlgorithm::IDEA
        | SymmetricKeyAlgorithm::TripleDES
        | SymmetricKeyAlgorithm::CAST5
        | SymmetricKeyAlgorithm::Blowfish => Some(8),
        SymmetricKeyAlgorithm::AES128
        | SymmetricKeyAlgorithm::AES192
        | SymmetricKeyAlgorithm::AES256
        | SymmetricKeyAlgorithm::Twofish
        | SymmetricKeyAlgorithm::Camellia128
        | SymmetricKeyAlgorithm::Camellia192
        | SymmetricKeyAlgorithm::Camellia256 => Some(16),
        SymmetricKeyAlgorithm::Plaintext | SymmetricKeyAlgorithm::Private10 => None,
    }
}

/// Secret parameters in the clear.
#[derive(Clone, PartialEq, Eq)]
pub enum PlainSecretParams {
    RSA { d: BigUint, p: BigUint, q: BigUint, u: BigUint },
    DSA { x: BigUint },
    ECDSA { x: BigUint },
    ECDH { x: BigUint },
    Elgamal { x: BigUint },
    EdDSA { x: BigUint },
}

/// The mathematical content of a [`PlainSecretParams`].
pub ghost enum PlainSecretParamsView {
    RSA { d: nat, p: nat, q: nat, u: nat },
    DSA { x: nat },
    ECDSA { x: nat },
    ECDH { x: nat },
    Elgamal { x: nat },
    EdDSA { x: nat },
}

impl View for PlainSecretParams {
    type V = PlainSecretParamsView;

    open spec fn view(&self) -> PlainSecretParamsView {
        match *self {
            PlainSecretParams::RSA { d, p, q, u } => PlainSecretParamsView::RSA {
                d: biguint_value(d),
                p: biguint_value(p),
                q: biguint_value(q),
                u: biguint_value(u),
            },
            PlainSecretParams::DSA { x } => PlainSecretParamsView::DSA { x: biguint_value(x) },
            PlainSecretParams::ECDSA { x } => PlainSecretParamsView::ECDSA { x: biguint_value(x) },
            PlainSecretParams::ECDH { x } => PlainSecretParamsView::ECDH { x: biguint_value(x) },
            PlainSecretParams::Elgamal { x } => PlainSecretParamsView::Elgamal {
                x: biguint_value(x),
            },
            PlainSecretParams::EdDSA { x } => PlainSecretParamsView::EdDSA { x: biguint_value(x) },
        }
    }
}

/// The sum of the octets of `s`.
pub open spec fn octet_sum(s: Seq<u8>) -> nat
    decreases s.len(),
{
    if s.len() == 0 {
        0
    } else {
        octet_sum(s.drop_last()) + s.last() as nat
    }
}

/// The checksum of secret octets in the clear: their sum modulo 65536.
pub open spec fn checksum(s: Seq<u8>) -> u16 {
    (octet_sum(s) % 0x1_0000) as u16
}

impl PlainSecretParamsView {
    /// Whether every integer fits the length field of an MPI.
    pub open spec fn encodable(self) -> bool {
        match self {
            PlainSecretParamsView::RSA { d, p, q, u } => nat_bits(d) <= MAX_MPI_BITS && nat_bits(p)
                <= MAX_MPI_BITS && nat_bits(q) <= MAX_MPI_BITS && nat_bits(u) <= MAX_MPI_BITS,
            PlainSecretParamsView::DSA { x } => nat_bits(x) <= MAX_MPI_BITS,
            PlainSecretParamsView::ECDSA { x } => nat_bits(x) <= MAX_MPI_BITS,
            PlainSecretParamsView::ECDH { x } => nat_bits(x) <= MAX_MPI_BITS,
            PlainSecretParamsView::Elgamal { x } => nat_bits(x) <= MAX_MPI_BITS,
            PlainSecretParamsView::EdDSA { x } => nat_bits(x) <= MAX_MPI_BITS,
        }
    }

    /// The integers as consecutive MPIs, in the order of the fields.
    pub open spec fn mpis(self) -> Seq<u8> {
        match self {
            PlainSecretParamsView::RSA { d, p, q, u } => mpi_of_nat(d) + mpi_of_nat(p) + mpi_of_nat(
                q,
            ) + mpi_of_nat(u),
            PlainSecretParamsView::DSA { x } => mpi_of_nat(x),
            PlainSecretParamsView::ECDSA { x } => mpi_of_nat(x),
            PlainSecretParamsView::ECDH { x } => mpi_of_nat(x),
            PlainSecretParamsView::Elgamal { x } => mpi_of_nat(x),
            PlainSecretParamsView::EdDSA { x } => mpi_of_nat(x),
        }
    }

    /// Whether `alg` is an algorithm whose keys have secrets of this shape.
    pub open spec fn belongs_to(self, alg: PublicKeyAlgorithm) -> bool {
        match self {
            PlainSecretParamsView::RSA { .. } => alg == PublicKeyAlgorithm::RSA || alg
                == PublicKeyAlgorithm::RSAEncrypt || alg == PublicKeyAlgorithm::RSASign,
            PlainSecretParamsView::DSA { .. } => alg == PublicKeyAlgorithm::DSA,
            PlainSecretParamsView::ECDSA { .. } => alg == PublicKeyAlgorithm::ECDSA,
            PlainSecretParamsView::ECDH { .. } => alg == PublicKeyAlgorithm::ECDH,
            PlainSecretParamsView::Elgamal { .. } => alg == PublicKeyAlgorithm::Elgamal || alg
                == PublicKeyAlgorithm::ElgamalSign,
            PlainSecretParamsView::EdDSA { .. } => alg == PublicKeyAlgorithm::EdDSA,
        }
    }

    /// The secret part of a key packet with these parameters: the octet
    /// zero, the MPIs and their checksum.
    pub open spec fn serialized(self) -> Seq<u8> {
        seq![0u8] + self.mpis() + u16_be(checksum(self.mpis()))
    }
}

/// The result of reading the secret integers of a key of algorithm `alg` at
/// `pos`: the parameters and the position after their MPIs.
#[verifier::opaque]
pub open spec fn parse_plain_mpis(alg: PublicKeyAlgorithm, body: Seq<u8>, pos: int) -> Result<
    (PlainSecretParamsView, int),
    Error,
> {
    match alg {
        PublicKeyAlgorithm::RSA | PublicKeyAlgorithm::RSAEncrypt | PublicKeyAlgorithm::RSASign => {
            match parse_nat(body, pos) {
                Err(e) => Err(e),
                Ok((d, at1)) => match parse_nat(body, at1) {
                    Err(e) => Err(e),
                    Ok((p, at2)) => match parse_nat(body, at2) {
                        Err(e) => Err(e),
                        Ok((q, at3)) => match parse_nat(body, at3) {
                            Err(e) => Err(e),
                            Ok((u, at4)) => Ok((PlainSecretParamsView::RSA { d, p, q, u }, at4)),
                        },
                    },
                },
            }
        },
        PublicKeyAlgorithm::DSA => match parse_nat(body, pos) {
            Err(e) => Err(e),
            Ok((x, end)) => Ok((PlainSecretParamsView::DSA { x }, end)),
        },
        PublicKeyAlgorithm::ECDSA => match parse_nat(body, pos) {
            Err(e) => Err(e),
            Ok((x, end)) => Ok((PlainSecretParamsView::ECDSA { x }, end)),
        },
        PublicKeyAlgorithm::ECDH => match parse_nat(body, pos) {
            Err(e) => Err(e),
            Ok((x, end)) => Ok((PlainSecretParamsView::ECDH { x }, end)),
        },
        PublicKeyAlgorithm::Elgamal | PublicKeyAlgorithm::ElgamalSign => match parse_nat(body, pos) {
            Err(e) => Err(e),
            Ok((x, end)) => Ok((PlainSecretParamsView::Elgamal { x }, end)),
        },
        PublicKeyAlgorithm::EdDSA => match parse_nat(body, pos) {
            Err(e) => Err(e),
            Ok((x, end)) => Ok((PlainSecretParamsView::EdDSA { x }, end)),
        },
        _ => Err(Error::UnsupportedAlgorithm),
    }
}

/// Secret parameters that are wrapped by a cipher.
#[derive(Debug, Clone, PartialEq, Eq)]
pub struct EncryptedSecretParams {
    /// The wrapped octets, as they stand in the packet.
    pub data: Vec<u8>,
    /// The initial vector of the cipher.
    pub iv: Vec<u8>,
    /// The cipher.
    pub encryption_algorithm: SymmetricKeyAlgorithm,
    /// How the key of the cipher is derived from the password.
    pub string_to_key: StringToKey,
    /// The octet that introduces the wrapping: 254 when a SHA-1 digest
    /// guards the wrapped octets, 255 when a checksum does.
    pub string_to_key_id: u8,
}

/// The mathematical content of an [`EncryptedSecretParams`].
pub ghost struct EncryptedSecretParamsView {
    pub data: Seq<u8>,
    pub iv: Seq<u8>,
    pub encryption_algorithm: SymmetricKeyAlgorithm,
    pub string_to_key: StringToKeyView,
    pub string_to_key_id: u8,
}

impl View for EncryptedSecretParams {
    type V = EncryptedSecretParamsView;

    open spec fn view(&self) -> EncryptedSecretParamsView {
        EncryptedSecretParamsView {
            data: self.data@,
            iv: self.iv@,
            encryption_algorithm: self.encryption_algorithm,
            string_to_key: self.string_to_key@,
            string_to_key_id: self.string_to_key_id,
        }
    }
}

impl EncryptedSecretParamsView {
    /// Whether the parts fit together: the introducing octet is 254 or 255,
    /// the specifier is well formed and the initial vector has the block
    /// length of the cipher.
    pub open spec fn well_formed(self) -> bool {
        &&& self.string_to_key_id == 254 || self.string_to_key_id == 255
        &&& self.string_to_key.well_formed()
        &&& block_size(self.encryption_algorithm) == Some(self.iv.len())
    }

    /// The secret part of a key packet with these parameters: the
    /// introducing octet, the cipher, the specifier, the initial vector and
    /// the wrapped octets.
    pub open spec fn serialized(self) -> Seq<u8> {
        seq![self.string_to_key_id, self.encryption_algorithm.id()]
            + self.string_to_key.serialized() + self.iv + self.data
    }
}

/// The secret parameters of a key.
#[derive(Clone, PartialEq, Eq)]
pub enum SecretParams {
    Plain(PlainSecretParams),
    Encrypted(EncryptedSecretParams),
}

/// The mathematical content of a [`SecretParams`].
pub ghost enum SecretParamsView {
    Plain(PlainSecretParamsView),
    Encrypted(EncryptedSecretParamsView),
}

impl View for SecretParams {
    type V = SecretParamsView;

    open spec fn view(&self) -> SecretParamsView {
        match *self {
            SecretParams::Plain(p) => SecretParamsView::Plain(p@),
            SecretParams::Encrypted(e) => SecretParamsView::Encrypted(e@),
        }
    }
}

impl SecretParamsView {
    /// Whether the parameters have an encoding.
    pub open spec fn encodable(self) -> bool {
        match self {
            SecretParamsView::Plain(p) => p.encodable(),
            SecretParamsView::Encrypted(e) => e.well_formed(),
        }
    }

    /// The secret part of a key packet with these parameters.
    pub open spec fn serialized(self) -> Seq<u8> {
        match self {
            SecretParamsView::Plain(p) => p.serialized(),
            SecretParamsView::Encrypted(e) => e.serialized(),
        }
    }

    /// Whether `alg` is an algorithm whose keys have secrets of this shape;
    /// of wrapped secrets the shape is not known.
    pub open spec fn belongs_to(self, alg: PublicKeyAlgorithm) -> bool {
        match self {
            SecretParamsView::Plain(p) => p.belongs_to(alg),
            SecretParamsView::Encrypted(_) => true,
        }
    }
}

/// The result of reading the secret part of a key of algorithm `alg`, which
/// starts at `pos` and runs to the end of the packet body. Secrets in the
/// clear must be followed by their checksum and nothing else. An introducing
/// octet other than 0, 254 and 255 is unsupported.
#[verifier::opaque]
pub open spec fn parse_secret_params(alg: PublicKeyAlgorithm, body: Seq<u8>, pos: int) -> Result<
    SecretParamsView,
    Error,
> {
    if pos < 0 || pos >= body.len() {
        Err(Error::MalformedInput { offset: pos as usize })
    } else if body[pos] == 0 {
        match parse_plain_mpis(alg, body, pos + 1) {
            Err(e) => Err(e),
            Ok((plain, end)) => if end < pos + 1 || end + 2 != body.len() || u16_at(body, end)
                != checksum(body.subrange(pos + 1, end)) {
                Err(Error::MalformedInput { offset: end as usize })
            } else {
                Ok(SecretParamsView::Plain(plain))
            },
        }
    } else if body[pos] == 254 || body[pos] == 255 {
        if pos + 2 > body.len() {
            Err(Error::MalformedInput { offset: pos as usize })
        } else {
            match SymmetricKeyAlgorithm::of_id(body[pos + 1]) {
                None => Err(Error::UnsupportedAlgorithm),
                Some(cipher) => match block_size(cipher) {
                    None => Err(Error::UnsupportedAlgorithm),
                    Some(block) => match parse_string_to_key(body, pos + 2) {
                        Err(e) => Err(e),
                        Ok((string_to_key, at)) => if at + block > body.len() {
                            Err(Error::MalformedInput { offset: at as usize })
                        } else {
                            Ok(
                                SecretParamsView::Encrypted(
                                    EncryptedSecretParamsView {
                                        data: body.subrange(at + block, body.len() as int),
                                        iv: body.subrange(at, at + block),
                                        encryption_algorithm: cipher,
                                        string_to_key,
                                        string_to_key_id: body[pos],
                                    },
                                ),
                            )
                        },
                    },
                },
            }
        }
    } else {
        Err(Error::UnsupportedAlgorithm)
    }
}

/// The checksum of secret octets in the clear.
pub fn compute_checksum(data: &[u8]) -> (r: u16)
    ensures
        r == checksum(data@),
{
    let mut acc: u32 = 0;
    let mut i: usize = 0;
    assert(data@.take(0) =~= Seq::<u8>::empty());
    while i < data.len()
        invariant
            i <= data.len(),
            acc < 0x1_0000,
            acc == octet_sum(data@.take(i as int)) % 0x1_0000,
        decreases data.len() - i,
    {
        proof {
            assert(data@.take(i + 1).drop_last() =~= data@.take(i as int));
            assert(data@.take(i + 1).last() == data@[i as int]);
        }
        acc = (acc + data[i] as u32) % 0x1_0000;
        i += 1;
    }
    assert(data@.take(i as int) =~= data@);
    acc as u16
}

impl StringToKey {
    /// Whether salt and count are there exactly when the method uses them.
    pub fn is_well_formed(&self) -> (r: bool)
        ensures
            r == self@.well_formed(),
    {
        match self.typ {
            StringToKeyType::Simple => self.salt.is_none() && self.count.is_none(),
            StringToKeyType::Salted => self.salt.is_some() && self.count.is_none(),
            StringToKeyType::IteratedAndSalted => self.salt.is_some() && self.count.is_some(),
        }
    }

    /// Appends the octets of a well-formed specifier.
    fn write(&self, buf: &mut Vec<u8>)
        requires
            self@.well_formed(),
        ensures
            final(buf)@ == old(buf)@ + self@.serialized(),
    {
        match self.typ {
            StringToKeyType::Simple => {
                buf.push(0);
                buf.push(self.hash.to_u8());
            },
            StringToKeyType::Salted => {
                buf.push(1);
                buf.push(self.hash.to_u8());
                if let Some(salt) = &self.salt {
                    append_bytes(buf, salt.as_slice());
                }
            },
            StringToKeyType::IteratedAndSalted => {
                buf.push(3);
                buf.push(self.hash.to_u8());
                if let Some(salt) = &self.salt {
                    append_bytes(buf, salt.as_slice());
                }
                if let Some(count) = self.count {
                    buf.push(count);
                }
            },
        }
        assert(buf@ =~= old(buf)@ + self@.serialized());
    }

    /// Reads a string-to-key specifier at `pos` and returns it with the
    /// position after it.
    pub fn parse(body: &[u8], pos: usize) -> (r: Result<(StringToKey, usize), Error>)
        ensures
            match r {
                Ok((s, next)) => parse_string_to_key(body@, pos as int) == Ok::<
                    (StringToKeyView, int),
                    Error,
                >((s@, next as int)) && pos <= next <= body@.len() && s@.well_formed(),
                Err(e) => parse_string_to_key(body@, pos as int) == Err::<
                    (StringToKeyView, int),
                    Error,
                >(e),
            },
    {
        reveal(parse_string_to_key);
        let n = body.len();
        if pos > n || n - pos < 2 {
            return Err(Error::MalformedInput { offset: pos });
        }
        let hash = match HashAlgorithm::from_u8(body[pos + 1]) {
            Some(h) => h,
            None => {
                return Err(Error::UnsupportedAlgorithm);
            },
        };
        let method = body[pos];
        if method == 0 {
            Ok((StringToKey { typ: StringToKeyType::Simple, hash, salt: None, count: None }, pos + 2))
        } else if method == 1 {
            if n - pos < 10 {
                return Err(Error::MalformedInput { offset: pos });
            }
            let salt = salt_at(body, pos + 2);
            Ok(
                (
                    StringToKey { typ: StringToKeyType::Salted, hash, salt: Some(salt), count: None },
                    pos + 10,
                ),
            )
        } else if method == 3 {
            if n - pos < 11 {
                return Err(Error::MalformedInput { offset: pos });
            }
            let salt = salt_at(body, pos + 2);
            Ok(
                (
                    StringToKey {
                        typ: StringToKeyType::IteratedAndSalted,
                        hash,
                        salt: Some(salt),
                        count: Some(body[pos + 10]),
                    },
                    pos + 11,
                ),
            )
        } else {
            Err(Error::UnsupportedAlgorithm)
        }
    }
}

/// The eight octets of a salt at `pos`.
fn salt_at(body: &[u8], pos: usize) -> (r: [u8; 8])
    requires
        pos + 8 <= body@.len(),
    ensures
        r@ == body@.subrange(pos as int, pos + 8),
{
    let r = [
        body[pos],
        body[pos + 1],
        body[pos + 2],
        body[pos + 3],
        body[pos + 4],
        body[pos + 5],
        body[pos + 6],
        body[pos + 7],
    ];
    assert(r@ =~= body@.subrange(pos as int, pos + 8));
    r
}

impl PlainSecretParams {
    /// Writes the integers as consecutive MPIs into `buf`; reports whether
    /// all of them could be encoded.
    fn write_mpis(&self, buf: &mut Vec<u8>) -> (ok: bool)
        ensures
            ok <==> self@.encodable(),
            ok ==> final(buf)@ == old(buf)@ + self@.mpis(),
    {
        match self {
            PlainSecretParams::RSA { d, p, q, u } => {
                if write_bignum_mpi(d, buf).is_err() {
                    return false;
                }
                if write_bignum_mpi(p, buf).is_err() {
                    return false;
                }
                if write_bignum_mpi(q, buf).is_err() {
                    return false;
                }
                if write_bignum_mpi(u, buf).is_err() {
                    return false;
                }
                assert(buf@ =~= old(buf)@ + self@.mpis());
                true
            },
            PlainSecretParams::DSA { x } => write_bignum_mpi(x, buf).is_ok(),
            PlainSecretParams::ECDSA { x } => write_bignum_mpi(x, buf).is_ok(),
            PlainSecretParams::ECDH { x } => write_bignum_mpi(x, buf).is_ok(),
            PlainSecretParams::Elgamal { x } => write_bignum_mpi(x, buf).is_ok(),
            PlainSecretParams::EdDSA { x } => write_bignum_mpi(x, buf).is_ok(),
        }
    }
}

impl Serialize for SecretParams {
    open spec fn encodable(&self) -> bool {
        self@.encodable()
    }

    open spec fn serialized(&self) -> Seq<u8> {
        self@.serialized()
    }

    /// Appends the secret part of a key packet.
    fn to_writer(&self, writer: &mut Vec<u8>) -> (r: Result<(), Error>) {
        let mut buf: Vec<u8> = Vec::new();
        match self {
            SecretParams::Plain(plain) => {
                let mut mpis: Vec<u8> = Vec::new();
                if !plain.write_mpis(&mut mpis) {
                    return Err(Error::MalformedInput { offset: writer.len() });
                }
                assert(mpis@ =~= plain@.mpis());
                buf.push(0);
                append_bytes(&mut buf, mpis.as_slice());
                write_u16_be(compute_checksum(mpis.as_slice()), &mut buf);
                assert(buf@ =~= self@.serialized());
            },
            SecretParams::Encrypted(wrapped) => {
                if wrapped.string_to_key_id != 254 && wrapped.string_to_key_id != 255 {
                    return Err(Error::MalformedInput { offset: writer.len() });
                }
                if !wrapped.string_to_key.is_well_formed() {
                    return Err(Error::MalformedInput { offset: writer.len() });
                }
                match cipher_block_size(wrapped.encryption_algorithm) {
                    Some(block) => {
                        if wrapped.iv.len() != block {
                            return Err(Error::MalformedInput { offset: writer.len() });
                        }
                    },
                    None => {
                        return Err(Error::MalformedInput { offset: writer.len() });
                    },
                }
                buf.push(wrapped.string_to_key_id);
                buf.push(wrapped.encryption_algorithm.to_u8());
                wrapped.string_to_key.write(&mut buf);
                append_bytes(&mut buf, wrapped.iv.as_slice());
                append_bytes(&mut buf, wrapped.data.as_slice());
                assert(buf@ =~= self@.serialized());
            },
        }
        append_bytes(writer, buf.as_slice());
        Ok(())
    }
}

/// Reads the secret integers of a key of algorithm `alg` at `pos`.
fn read_plain_mpis(alg: PublicKeyAlgorithm, body: &[u8], pos: usize) -> (r: Result<
    (PlainSecretParams, usize),
    Error,
>)
    ensures
        match r {
            Ok((plain, end)) => parse_plain_mpis(alg, body@, pos as int) == Ok::<
                (PlainSecretParamsView, int),
                Error,
            >((plain@, end as int)) && pos <= end <= body@.len(),
            Err(e) => parse_plain_mpis(alg, body@, pos as int) == Err::<
                (PlainSecretParamsView, int),
                Error,
            >(e),
        },
{
    reveal(parse_plain_mpis);
    match alg {
        PublicKeyAlgorithm::RSA | PublicKeyAlgorithm::RSAEncrypt | PublicKeyAlgorithm::RSASign => {
            let (d, at1) = match read_integer(body, pos) {
                Ok(v) => v,
                Err(e) => {
                    return Err(e);
                },
            };
            let (p, at2) = match read_integer(body, at1) {
                Ok(v) => v,
                Err(e) => {
                    return Err(e);
                },
            };
            let (q, at3) = match read_integer(body, at2) {
                Ok(v) => v,
                Err(e) => {
                    return Err(e);
                },
            };
            let (u, at4) = match read_integer(body, at3) {
                Ok(v) => v,
                Err(e) => {
                    return Err(e);
                },
            };
            Ok((PlainSecretParams::RSA { d, p, q, u }, at4))
        },
        PublicKeyAlgorithm::DSA => match read_integer(body, pos) {
            Ok((x, end)) => Ok((PlainSecretParams::DSA { x }, end)),
            Err(e) => Err(e),
        },
        PublicKeyAlgorithm::ECDSA => match read_integer(body, pos) {
            Ok((x, end)) => Ok((PlainSecretParams::ECDSA { x }, end)),
            Err(e) => Err(e),
        },
        PublicKeyAlgorithm::ECDH => match read_integer(body, pos) {
            Ok((x, end)) => Ok((PlainSecretParams::ECDH { x }, end)),
            Err(e) => Err(e),
        },
        PublicKeyAlgorithm::Elgamal | PublicKeyAlgorithm::ElgamalSign => match read_integer(
            body,
            pos,
        ) {
            Ok((x, end)) => Ok((PlainSecretParams::Elgamal { x }, end)),
            Err(e) => Err(e),
        },
        PublicKeyAlgorithm::EdDSA => match read_integer(body, pos) {
            Ok((x, end)) => Ok((PlainSecretParams::EdDSA { x }, end)),
            Err(e) => Err(e),
        },
        _ => Err(Error::UnsupportedAlgorithm),
    }
}

impl SecretParams {
    /// Reads the secret part of a key of algorithm `alg`, which starts at
    /// `pos` and runs to the end of `body`.
    pub fn parse(alg: PublicKeyAlgorithm, body: &[u8], pos: usize) -> (r: Result<
        SecretParams,
        Error,
    >)
        ensures
            match r {
                Ok(s) => parse_secret_params(alg, body@, pos as int) == Ok::<
                    SecretParamsView,
                    Error,
                >(s@),
                Err(e) => parse_secret_params(alg, body@, pos as int) == Err::<
                    SecretParamsView,
                    Error,
                >(e),
            },
    {
        reveal(parse_secret_params);
        let n = body.len();
        if pos >= n {
            return Err(Error::MalformedInput { offset: pos });
        }
        let usage = body[pos];
        if usage == 0 {
            let (plain, end) = match read_plain_mpis(alg, body, pos + 1) {
                Ok(v) => v,
                Err(e) => {
                    return Err(e);
                },
            };
            if n - end != 2 {
                return Err(Error::MalformedInput { offset: end });
            }
            if read_u16_be(body, end) != compute_checksum(slice_subrange(body, pos + 1, end)) {
                return Err(Error::MalformedInput { offset: end });
            }
            Ok(SecretParams::Plain(plain))
        } else if usage == 254 || usage == 255 {
            if n - pos < 2 {
                return Err(Error::MalformedInput { offset: pos });
            }
            let cipher = match SymmetricKeyAlgorithm::from_u8(body[pos + 1]) {
                Some(c) => c,
                None => {
                    return Err(Error::UnsupportedAlgorithm);
                },
            };
            let block = match cipher_block_size(cipher) {
                Some(b) => b,
                None => {
                    return Err(Error::UnsupportedAlgorithm);
                },
            };
            let (string_to_key, at) = match StringToKey::parse(body, pos + 2) {
                Ok(v) => v,
                Err(e) => {
                    return Err(e);
                },
            };
            if n - at < block {
                return Err(Error::MalformedInput { offset: at });
            }
            let iv = slice_to_vec(slice_subrange(body, at, at + block));
            let data = slice_to_vec(slice_subrange(body, at + block, n));
            Ok(
                SecretParams::Encrypted(
                    EncryptedSecretParams {
                        data,
                        iv,
                        encryption_algorithm: cipher,
                        string_to_key,
                        string_to_key_id: usage,
                    },
                ),
            )
        } else {
            Err(Error::UnsupportedAlgorithm)
        }
    }
}

/// A well-formed string-to-key specifier is read back from its octets,
/// whatever surrounds them.
pub proof fn lemma_string_to_key_roundtrip(pre: Seq<u8>, s: StringToKeyView, rest: Seq<u8>)
    requires
        s.well_formed(),
    ensures
        parse_string_to_key(pre + s.serialized() + rest, pre.len() as int) == Ok::<
            (StringToKeyView, int),
            Error,
        >((s, (pre.len() + s.serialized().len()) as int)),
{
    reveal(parse_string_to_key);
    let body = pre + s.serialized() + rest;
    let pos = pre.len() as int;
    lemma_hash_id_roundtrip(s.hash);
    assert(body[pos] == s.serialized()[0]);
    assert(body[pos + 1] == s.hash.id());
    match s.typ {
        StringToKeyType::Simple => {},
        StringToKeyType::Salted => {
            assert(body.subrange(pos + 2, pos + 10) =~= s.salt->0);
        },
        StringToKeyType::IteratedAndSalted => {
            assert(body.subrange(pos + 2, pos + 10) =~= s.salt->0);
            assert(body[pos + 10] == s.count->0);
        },
    }
}

/// The secret integers are read back from their MPIs, whatever surrounds
/// them.
proof fn lemma_plain_mpis_roundtrip(
    alg: PublicKeyAlgorithm,
    pre: Seq<u8>,
    v: PlainSecretParamsView,
    rest: Seq<u8>,
)
    requires
        v.encodable(),
        v.belongs_to(alg),
    ensures
        parse_plain_mpis(alg, pre + v.mpis() + rest, pre.len() as int) == Ok::<
            (PlainSecretParamsView, int),
            Error,
        >((v, (pre.len() + v.mpis().len()) as int)),
{
    reveal(parse_plain_mpis);
    let body = pre + v.mpis() + rest;
    match v {
        PlainSecretParamsView::RSA { d, p, q, u } => {
            let tail = mpi_of_nat(q) + mpi_of_nat(u) + rest;
            assert(body =~= pre + mpi_of_nat(d) + mpi_of_nat(p) + tail);
            lemma_parse_two(body, pre, d, p, tail);
            let head = pre + mpi_of_nat(d) + mpi_of_nat(p);
            assert(body =~= head + mpi_of_nat(q) + mpi_of_nat(u) + rest);
            lemma_parse_two(body, head, q, u, rest);
        },
        PlainSecretParamsView::DSA { x } => {
            lemma_parse_nat_at(body, pre, x, rest);
        },
        PlainSecretParamsView::ECDSA { x } => {
            lemma_parse_nat_at(body, pre, x, rest);
        },
        PlainSecretParamsView::ECDH { x } => {
            lemma_parse_nat_at(body, pre, x, rest);
        },
        PlainSecretParamsView::Elgamal { x } => {
            lemma_parse_nat_at(body, pre, x, rest);
        },
        PlainSecretParamsView::EdDSA { x } => {
            lemma_parse_nat_at(body, pre, x, rest);
        },
    }
}

/// Secret parameters that have an encoding are read back from the secret
/// part of a key packet of an algorithm of their shape. Wrapped octets come
/// back as they were, octet for octet and in their length.
pub proof fn lemma_secret_params_roundtrip(
    alg: PublicKeyAlgorithm,
    pre: Seq<u8>,
    v: SecretParamsView,
)
    requires
        v.encodable(),
        v.belongs_to(alg),
    ensures
        parse_secret_params(alg, pre + v.serialized(), pre.len() as int) == Ok::<
            SecretParamsView,
            Error,
        >(v),
{
    match v {
        SecretParamsView::Plain(plain) => {
            lemma_plain_roundtrip(alg, pre, plain);
        },
        SecretParamsView::Encrypted(e) => {
            lemma_encrypted_roundtrip(alg, pre, e);
        },
    }
}

/// The round trip of secrets in the clear.
proof fn lemma_plain_roundtrip(alg: PublicKeyAlgorithm, pre: Seq<u8>, plain: PlainSecretParamsView)
    requires
        plain.encodable(),
        plain.belongs_to(alg),
    ensures
        parse_secret_params(alg, pre + plain.serialized(), pre.len() as int) == Ok::<
            SecretParamsView,
            Error,
        >(SecretParamsView::Plain(plain)),
{
    reveal(parse_secret_params);
    let body = pre + plain.serialized();
    let pos = pre.len() as int;
    let mpis = plain.mpis();
    let sum = u16_be(checksum(mpis));
    let pre2 = pre + seq![0u8];
    assert(body =~= pre2 + mpis + sum);
    assert(body[pos] == 0);
    lemma_plain_mpis_roundtrip(alg, pre2, plain, sum);
    let end = pos + 1 + mpis.len();
    assert(body.subrange(pos + 1, end) =~= mpis);
    assert(body.subrange(end, end + 2) =~= sum);
    lemma_u16_be_roundtrip(checksum(mpis), body, end);
}

/// The round trip of wrapped secrets.
proof fn lemma_encrypted_roundtrip(
    alg: PublicKeyAlgorithm,
    pre: Seq<u8>,
    e: EncryptedSecretParamsView,
)
    requires
        e.well_formed(),
    ensures
        parse_secret_params(alg, pre + e.serialized(), pre.len() as int) == Ok::<
            SecretParamsView,
            Error,
        >(SecretParamsView::Encrypted(e)),
{
    reveal(parse_secret_params);
    let body = pre + e.serialized();
    let pos = pre.len() as int;
    let head = seq![e.string_to_key_id, e.encryption_algorithm.id()];
    let s2k = e.string_to_key.serialized();
    assert(body =~= (pre + head) + s2k + (e.iv + e.data));
    assert(body[pos] == e.string_to_key_id);
    assert(body[pos + 1] == e.encryption_algorithm.id());
    lemma_symmetric_id_roundtrip(e.encryption_algorithm);
    lemma_string_to_key_roundtrip(pre + head, e.string_to_key, e.iv + e.data);
    let at = pos + 2 + s2k.len();
    assert(body.subrange(at, at + e.iv.len()) =~= e.iv);
    assert(body.subrange(at + e.iv.len(), body.len() as int) =~= e.data);
}

} // verus!
