//! Public-key algorithm identifiers and the public parameters of each algorithm.

use crate::bignum::{biguint_to_bytes_be, biguint_value, nat_bits, nat_to_bytes_be};
use crate::crypto::ecc_curve::{lemma_curve_oid_roundtrip, ECCCurve};
use crate::crypto::hash::{lemma_hash_id_roundtrip, HashAlgorithm};
use crate::crypto::sym::{lemma_symmetric_id_roundtrip, SymmetricKeyAlgorithm};
use crate::errors::Error;
use crate::ser::Serialize;
use crate::util::{
    append_bytes, bit_size_spec, hex_string, lemma_mpi_roundtrip,
    lemma_parse_mpi_bytes, mpi_bytes, mpi_of_nat, parse_mpi, read_bignum_mpi, read_mpi,
    write_bignum_mpi, write_mpi, MAX_MPI_BITS,
};
use num_bigint::BigUint;
use vstd::prelude::*;
use vstd::slice::slice_subrange;

verus! {

/// The public-key algorithms, by their one-octet identifier.
#[derive(Debug, PartialEq, Eq, Clone, Copy, Structural)]
pub enum PublicKeyAlgorithm {
    /// RSA (Encrypt and Sign)
    RSA,
    /// DEPRECATED: RSA (Encrypt-Only)
    RSAEncrypt,
    /// DEPRECATED: RSA (Sign-Only)
    RSASign,
    /// Elgamal (Encrypt-Only)
    ElgamalSign,
    /// DSA (Digital Signature Algorithm)
    DSA,
    /// Elliptic Curve Diffie-Hellman
    ECDH,
    /// ECDSA
    ECDSA,
    /// DEPRECATED: Elgamal (Encrypt and Sign)
    Elgamal,
    /// Reserved for Diffie-Hellman (X9.42, as defined for IETF-S/MIME)
    DiffieHellman,
    /// EdDSA
    EdDSA,
    /// Private experimental range
    Private100,
    Private101,
    Private102,
    Private103,
    Private104,
    Private105,
    Private106,
    Private107,
    Private108,
    Private109,
    Private110,
}

impl PublicKeyAlgorithm {
    /// The identifier octet of the algorithm.
    pub open spec fn id(self) -> u8 {
        match self {
            PublicKeyAlgorithm::RSA => 1,
            PublicKeyAlgorithm::RSAEncrypt => 2,
            PublicKeyAlgorithm::RSASign => 3,
            PublicKeyAlgorithm::ElgamalSign => 16,
            PublicKeyAlgorithm::DSA => 17,
            PublicKeyAlgorithm::ECDH => 18,
            PublicKeyAlgorithm::ECDSA => 19,
            PublicKeyAlgorithm::Elgamal => 20,
            PublicKeyAlgorithm::DiffieHellman => 21,
            PublicKeyAlgorithm::EdDSA => 22,
            PublicKeyAlgorithm::Private100 => 100,
            PublicKeyAlgorithm::Private101 => 101,
            PublicKeyAlgorithm::Private102 => 102,
            PublicKeyAlgorithm::Private103 => 103,
            PublicKeyAlgorithm::Private104 => 104,
            PublicKeyAlgorithm::Private105 => 105,
            PublicKeyAlgorithm::Private106 => 106,
            PublicKeyAlgorithm::Private107 => 107,
            PublicKeyAlgorithm::Private108 => 108,
            PublicKeyAlgorithm::Private109 => 109,
            PublicKeyAlgorithm::Private110 => 110,
        }
    }

    /// The algorithm that an identifier octet names, if any.
    pub open spec fn of_id(v: u8) -> Option<PublicKeyAlgorithm> {
        if v == 1 {
            Some(PublicKeyAlgorithm::RSA)
        } else if v == 2 {
            Some(PublicKeyAlgorithm::RSAEncrypt)
        } else if v == 3 {
            Some(PublicKeyAlgorithm::RSASign)
        } else if v == 16 {
            Some(PublicKeyAlgorithm::ElgamalSign)
        } else if v == 17 {
            Some(PublicKeyAlgorithm::DSA)
        } else if v == 18 {
            Some(PublicKeyAlgorithm::ECDH)
        } else if v == 19 {
            Some(PublicKeyAlgorithm::ECDSA)
        } else if v == 20 {
            Some(PublicKeyAlgorithm::Elgamal)
        } else if v == 21 {
            Some(PublicKeyAlgorithm::DiffieHellman)
        } else if v == 22 {
            Some(PublicKeyAlgorithm::EdDSA)
        } else if v == 100 {
            Some(PublicKeyAlgorithm::Private100)
        } else if v == 101 {
            Some(PublicKeyAlgorithm::Private101)
        } else if v == 102 {
            Some(PublicKeyAlgorithm::Private102)
        } else if v == 103 {
            Some(PublicKeyAlgorithm::Private103)
        } else if v == 104 {
            Some(PublicKeyAlgorithm::Private104)
        } else if v == 105 {
            Some(PublicKeyAlgorithm::Private105)
        } else if v == 106 {
            Some(PublicKeyAlgorithm::Private106)
        } else if v == 107 {
            Some(PublicKeyAlgorithm::Private107)
        } else if v == 108 {
            Some(PublicKeyAlgorithm::Private108)
        } else if v == 109 {
            Some(PublicKeyAlgorithm::Private109)
        } else if v == 110 {
            Some(PublicKeyAlgorithm::Private110)
        } else {
            None
        }
    }

    /// The identifier octet of the algorithm.
    pub fn to_u8(self) -> (r: u8)
        ensures
            r == self.id(),
    {
        match self {
            PublicKeyAlgorithm::RSA => 1,
            PublicKeyAlgorithm::RSAEncrypt => 2,
            PublicKeyAlgorithm::RSASign => 3,
            PublicKeyAlgorithm::ElgamalSign => 16,
            PublicKeyAlgorithm::DSA => 17,
            PublicKeyAlgorithm::ECDH => 18,
            PublicKeyAlgorithm::ECDSA => 19,
            PublicKeyAlgorithm::Elgamal => 20,
            PublicKeyAlgorithm::DiffieHellman => 21,
            PublicKeyAlgorithm::EdDSA => 22,
            PublicKeyAlgorithm::Private100 => 100,
            PublicKeyAlgorithm::Private101 => 101,
            PublicKeyAlgorithm::Private102 => 102,
            PublicKeyAlgorithm::Private103 => 103,
            PublicKeyAlgorithm::Private104 => 104,
            PublicKeyAlgorithm::Private105 => 105,
            PublicKeyAlgorithm::Private106 => 106,
            PublicKeyAlgorithm::Private107 => 107,
            PublicKeyAlgorithm::Private108 => 108,
            PublicKeyAlgorithm::Private109 => 109,
            PublicKeyAlgorithm::Private110 => 110,
        }
    }

    /// The algorithm that `v` names; `None` for an unassigned identifier.
    pub fn from_u8(v: u8) -> (r: Option<PublicKeyAlgorithm>)
        ensures
            r == PublicKeyAlgorithm::of_id(v),
    {
        match v {
            1 => Some(PublicKeyAlgorithm::RSA),
            2 => Some(PublicKeyAlgorithm::RSAEncrypt),
            3 => Some(PublicKeyAlgorithm::RSASign),
            16 => Some(PublicKeyAlgorithm::ElgamalSign),
            17 => Some(PublicKeyAlgorithm::DSA),
            18 => Some(PublicKeyAlgorithm::ECDH),
            19 => Some(PublicKeyAlgorithm::ECDSA),
            20 => Some(PublicKeyAlgorithm::Elgamal),
            21 => Some(PublicKeyAlgorithm::DiffieHellman),
            22 => Some(PublicKeyAlgorithm::EdDSA),
            100 => Some(PublicKeyAlgorithm::Private100),
            101 => Some(PublicKeyAlgorithm::Private101),
            102 => Some(PublicKeyAlgorithm::Private102),
            103 => Some(PublicKeyAlgorithm::Private103),
            104 => Some(PublicKeyAlgorithm::Private104),
            105 => Some(PublicKeyAlgorithm::Private105),
            106 => Some(PublicKeyAlgorithm::Private106),
            107 => Some(PublicKeyAlgorithm::Private107),
            108 => Some(PublicKeyAlgorithm::Private108),
            109 => Some(PublicKeyAlgorithm::Private109),
            110 => Some(PublicKeyAlgorithm::Private110),
            _ => None,
        }
    }
}

/// Every algorithm, the deprecated ones included, is found again from its
/// identifier.
pub proof fn lemma_public_key_algorithm_id_roundtrip(a: PublicKeyAlgorithm)
    ensures
        PublicKeyAlgorithm::of_id(a.id()) == Some(a),
{
}

/// An identifier that names an algorithm is the identifier of that algorithm.
pub proof fn lemma_public_key_algorithm_of_id_sound(v: u8)
    ensures
        PublicKeyAlgorithm::of_id(v) matches Some(a) ==> a.id() == v,
{
}

/// Represent the public parameters for the different algorithms.
#[allow(inconsistent_fields)]
#[derive(PartialEq, Eq, Clone)]
pub enum PublicParams {
    RSA { n: BigUint, e: BigUint },
    DSA { p: BigUint, q: BigUint, g: BigUint, y: BigUint },
    ECDSA { curve: ECCCurve, p: Vec<u8> },
    ECDH { curve: ECCCurve, p: Vec<u8>, hash: HashAlgorithm, alg_sym: SymmetricKeyAlgorithm },
    Elgamal { p: BigUint, g: BigUint, y: BigUint },
    EdDSA { curve: ECCCurve, q: Vec<u8> },
}

/// The mathematical content of a [`PublicParams`]: integers as natural
/// numbers, curve points as octet strings.
#[allow(inconsistent_fields)]
pub ghost enum PublicParamsView {
    RSA { n: nat, e: nat },
    DSA { p: nat, q: nat, g: nat, y: nat },
    ECDSA { curve: ECCCurve, p: Seq<u8> },
    ECDH { curve: ECCCurve, p: Seq<u8>, hash: HashAlgorithm, alg_sym: SymmetricKeyAlgorithm },
    Elgamal { p: nat, g: nat, y: nat },
    EdDSA { curve: ECCCurve, q: Seq<u8> },
}

impl View for PublicParams {
    type V = PublicParamsView;

    open spec fn view(&self) -> PublicParamsView {
        match *self {
            PublicParams::RSA { n, e } => PublicParamsView::RSA {
                n: biguint_value(n),
                e: biguint_value(e),
            },
            PublicParams::DSA { p, q, g, y } => PublicParamsView::DSA {
                p: biguint_value(p),
                q: biguint_value(q),
                g: biguint_value(g),
                y: biguint_value(y),
            },
            PublicParams::ECDSA { curve, p } => PublicParamsView::ECDSA { curve, p: p@ },
            PublicParams::ECDH { curve, p, hash, alg_sym } => PublicParamsView::ECDH {
                curve,
                p: p@,
                hash,
                alg_sym,
            },
            PublicParams::Elgamal { p, g, y } => PublicParamsView::Elgamal {
                p: biguint_value(p),
                g: biguint_value(g),
                y: biguint_value(y),
            },
            PublicParams::EdDSA { curve, q } => PublicParamsView::EdDSA { curve, q: q@ },
        }
    }
}

/// The octets that introduce a curve point: the length of the curve's object
/// identifier in one octet, then the identifier.
pub open spec fn curve_prefix(curve: ECCCurve) -> Seq<u8> {
    seq![curve.oid_spec().len() as u8] + curve.oid_spec()
}

/// The key-derivation descriptor that ends an ECDH parameter block.
pub open spec fn kdf_descriptor(hash: HashAlgorithm, alg_sym: SymmetricKeyAlgorithm) -> Seq<u8> {
    seq![0x03u8, 0x01u8, hash.id(), alg_sym.id()]
}

/// Whether a point on `curve` can belong to a key of algorithm `alg`: EdDSA
/// keys use Ed25519 and nothing else does; Curve25519 is for ECDH alone.
pub open spec fn curve_fits(alg: PublicKeyAlgorithm, curve: ECCCurve) -> bool {
    match alg {
        PublicKeyAlgorithm::EdDSA => curve == ECCCurve::Ed25519,
        PublicKeyAlgorithm::ECDH => curve != ECCCurve::Ed25519,
        PublicKeyAlgorithm::ECDSA => curve != ECCCurve::Ed25519 && curve != ECCCurve::Curve25519,
        _ => false,
    }
}

impl PublicParamsView {
    /// Whether every integer and point fits the length field of an MPI.
    pub open spec fn encodable(self) -> bool {
        match self {
            PublicParamsView::RSA { n, e } => nat_bits(n) <= MAX_MPI_BITS && nat_bits(e)
                <= MAX_MPI_BITS,
            PublicParamsView::DSA { p, q, g, y } => nat_bits(p) <= MAX_MPI_BITS && nat_bits(q)
                <= MAX_MPI_BITS && nat_bits(g) <= MAX_MPI_BITS && nat_bits(y) <= MAX_MPI_BITS,
            PublicParamsView::ECDSA { curve, p } => bit_size_spec(p) <= MAX_MPI_BITS,
            PublicParamsView::ECDH { curve, p, hash, alg_sym } => bit_size_spec(p) <= MAX_MPI_BITS,
            PublicParamsView::Elgamal { p, g, y } => nat_bits(p) <= MAX_MPI_BITS && nat_bits(g)
                <= MAX_MPI_BITS && nat_bits(y) <= MAX_MPI_BITS,
            PublicParamsView::EdDSA { curve, q } => bit_size_spec(q) <= MAX_MPI_BITS,
        }
    }

    /// The parameter block: the integers as consecutive MPIs in the order of
    /// the fields; for a curve point the curve prefix and the point as an MPI
    /// of its octets, with the key-derivation descriptor after it for ECDH.
    pub open spec fn serialized(self) -> Seq<u8> {
        match self {
            PublicParamsView::RSA { n, e } => mpi_of_nat(n) + mpi_of_nat(e),
            PublicParamsView::DSA { p, q, g, y } => mpi_of_nat(p) + mpi_of_nat(q) + mpi_of_nat(g)
                + mpi_of_nat(y),
            PublicParamsView::ECDSA { curve, p } => curve_prefix(curve) + mpi_bytes(p),
            PublicParamsView::ECDH { curve, p, hash, alg_sym } => curve_prefix(curve) + mpi_bytes(
                p,
            ) + kdf_descriptor(hash, alg_sym),
            PublicParamsView::Elgamal { p, g, y } => mpi_of_nat(p) + mpi_of_nat(g) + mpi_of_nat(y),
            PublicParamsView::EdDSA { curve, q } => curve_prefix(curve) + mpi_bytes(q),
        }
    }

    /// Whether `alg` is an algorithm whose keys carry parameters of this shape.
    pub open spec fn belongs_to(self, alg: PublicKeyAlgorithm) -> bool {
        match self {
            PublicParamsView::RSA { .. } => alg == PublicKeyAlgorithm::RSA || alg
                == PublicKeyAlgorithm::RSAEncrypt || alg == PublicKeyAlgorithm::RSASign,
            PublicParamsView::DSA { .. } => alg == PublicKeyAlgorithm::DSA,
            PublicParamsView::ECDSA { curve, .. } => alg == PublicKeyAlgorithm::ECDSA
                && curve_fits(alg, curve),
            PublicParamsView::ECDH { curve, .. } => alg == PublicKeyAlgorithm::ECDH && curve_fits(
                alg,
                curve,
            ),
            PublicParamsView::Elgamal { .. } => alg == PublicKeyAlgorithm::Elgamal || alg
                == PublicKeyAlgorithm::ElgamalSign,
            PublicParamsView::EdDSA { curve, .. } => alg == PublicKeyAlgorithm::EdDSA
                && curve_fits(alg, curve),
        }
    }

    /// Whether the curve point, if there is one, starts with a nonzero octet or
    /// is empty, so that its MPI length field covers all of it.
    pub open spec fn point_is_tagged(self) -> bool {
        match self {
            PublicParamsView::ECDSA { curve, p } => p.len() > 0 ==> p[0] != 0,
            PublicParamsView::ECDH { curve, p, hash, alg_sym } => p.len() > 0 ==> p[0] != 0,
            PublicParamsView::EdDSA { curve, q } => q.len() > 0 ==> q[0] != 0,
            _ => true,
        }
    }

    /// The text that [`PublicParams::fmt`] produces: the name of the variant
    /// and its fields, integers and points in lowercase hexadecimal. ECDH
    /// parameters are introduced by the name of the ECDSA variant and are
    /// told apart by their `hash` and `alg_sym` fields.
    pub open spec fn debug_text(self) -> Seq<char> {
        match self {
            PublicParamsView::RSA { n, e } => "PublicParams::RSA { n: \""@ + hex_string(
                nat_to_bytes_be(n),
            ) + "\", e: \""@ + hex_string(nat_to_bytes_be(e)) + "\" }"@,
            PublicParamsView::DSA { p, q, g, y } => "PublicParams::DSA { p: \""@ + hex_string(
                nat_to_bytes_be(p),
            ) + "\", q: \""@ + hex_string(nat_to_bytes_be(q)) + "\", g: \""@ + hex_string(
                nat_to_bytes_be(g),
            ) + "\", y: \""@ + hex_string(nat_to_bytes_be(y)) + "\" }"@,
            PublicParamsView::ECDSA { curve, p } => "PublicParams::ECDSA { curve: "@
                + curve.name_spec() + ", p: \""@ + hex_string(p) + "\" }"@,
            PublicParamsView::ECDH { curve, p, hash, alg_sym } => "PublicParams::ECDSA { curve: "@
                + curve.name_spec() + ", hash: "@ + hash.name_spec() + ", alg_sym: "@
                + alg_sym.name_spec() + ", p: \""@ + hex_string(p) + "\" }"@,
            PublicParamsView::Elgamal { p, g, y } => "PublicParams::Elgamal { p: \""@ + hex_string(
                nat_to_bytes_be(p),
            ) + "\", g: \""@ + hex_string(nat_to_bytes_be(g)) + "\", y: \""@ + hex_string(
                nat_to_bytes_be(y),
            ) + "\" }"@,
            PublicParamsView::EdDSA { curve, q } => "PublicParams::EdDSA { curve: "@
                + curve.name_spec() + ", q: \""@ + hex_string(q) + "\" }"@,
        }
    }
}

/// The result of reading a curve at `pos`: one octet of length, then the
/// object identifier of a known curve.
pub open spec fn parse_curve(input: Seq<u8>, pos: int) -> Result<(ECCCurve, int), Error> {
    if pos < 0 || pos >= input.len() {
        Err(Error::MalformedInput { offset: pos as usize })
    } else if pos + 1 + input[pos] > input.len() {
        Err(Error::MalformedInput { offset: pos as usize })
    } else {
        match ECCCurve::of_oid(input.subrange(pos + 1, pos + 1 + input[pos])) {
            Some(curve) => Ok((curve, pos + 1 + input[pos])),
            None => Err(Error::UnsupportedCurve),
        }
    }
}

/// The result of reading an integer MPI at `pos`.
#[verifier::opaque]
pub open spec fn parse_nat(input: Seq<u8>, pos: int) -> Result<(nat, int), Error> {
    match parse_mpi(input, pos) {
        Some((octets, next)) => Ok((crate::bignum::be_value(octets), next)),
        None => Err(Error::MalformedInput { offset: pos as usize }),
    }
}

/// The result of reading a curve point at `pos`: a curve that fits `alg`, then
/// the point as an MPI.
pub open spec fn parse_point(alg: PublicKeyAlgorithm, input: Seq<u8>, pos: int) -> Result<
    (ECCCurve, Seq<u8>, int),
    Error,
> {
    match parse_curve(input, pos) {
        Err(e) => Err(e),
        Ok((curve, at1)) => if !curve_fits(alg, curve) {
            Err(Error::MalformedInput { offset: pos as usize })
        } else {
            match parse_mpi(input, at1) {
                None => Err(Error::MalformedInput { offset: at1 as usize }),
                Some((point, at2)) => Ok((curve, point, at2)),
            }
        },
    }
}

/// The result of reading the key-derivation descriptor of ECDH at `pos`.
pub open spec fn parse_kdf(input: Seq<u8>, pos: int) -> Result<
    (HashAlgorithm, SymmetricKeyAlgorithm, int),
    Error,
> {
    if pos < 0 || pos + 4 > input.len() || input[pos] != 0x03 || input[pos + 1] != 0x01 {
        Err(Error::MalformedInput { offset: pos as usize })
    } else {
        match (HashAlgorithm::of_id(input[pos + 2]), SymmetricKeyAlgorithm::of_id(input[pos + 3])) {
            (Some(hash), Some(alg_sym)) => Ok((hash, alg_sym, pos + 4)),
            _ => Err(Error::UnsupportedAlgorithm),
        }
    }
}

/// The result of reading the parameter block of a key of algorithm `alg` at
/// `pos`: the parameters and the position after them. Algorithms without a
/// parameter format are refused as unsupported.
pub open spec fn parse_public_params(alg: PublicKeyAlgorithm, input: Seq<u8>, pos: int) -> Result<
    (PublicParamsView, int),
    Error,
> {
    match alg {
        PublicKeyAlgorithm::RSA | PublicKeyAlgorithm::RSAEncrypt | PublicKeyAlgorithm::RSASign => {
            match parse_nat(input, pos) {
                Err(e) => Err(e),
                Ok((n, at1)) => match parse_nat(input, at1) {
                    Err(e) => Err(e),
                    Ok((e, at2)) => Ok((PublicParamsView::RSA { n, e }, at2)),
                },
            }
        },
        PublicKeyAlgorithm::DSA => {
            match parse_nat(input, pos) {
                Err(e) => Err(e),
                Ok((p, at1)) => match parse_nat(input, at1) {
                    Err(e) => Err(e),
                    Ok((q, at2)) => match parse_nat(input, at2) {
                        Err(e) => Err(e),
                        Ok((g, at3)) => match parse_nat(input, at3) {
                            Err(e) => Err(e),
                            Ok((y, at4)) => Ok((PublicParamsView::DSA { p, q, g, y }, at4)),
                        },
                    },
                },
            }
        },
        PublicKeyAlgorithm::Elgamal | PublicKeyAlgorithm::ElgamalSign => {
            match parse_nat(input, pos) {
                Err(e) => Err(e),
                Ok((p, at1)) => match parse_nat(input, at1) {
                    Err(e) => Err(e),
                    Ok((g, at2)) => match parse_nat(input, at2) {
                        Err(e) => Err(e),
                        Ok((y, at3)) => Ok((PublicParamsView::Elgamal { p, g, y }, at3)),
                    },
                },
            }
        },
        PublicKeyAlgorithm::ECDSA => {
            match parse_point(alg, input, pos) {
                Err(e) => Err(e),
                Ok((curve, p, next)) => Ok((PublicParamsView::ECDSA { curve, p }, next)),
            }
        },
        PublicKeyAlgorithm::EdDSA => {
            match parse_point(alg, input, pos) {
                Err(e) => Err(e),
                Ok((curve, q, next)) => Ok((PublicParamsView::EdDSA { curve, q }, next)),
            }
        },
        PublicKeyAlgorithm::ECDH => {
            match parse_point(alg, input, pos) {
                Err(e) => Err(e),
                Ok((curve, p, next)) => match parse_kdf(input, next) {
                    Err(e) => Err(e),
                    Ok((hash, alg_sym, end)) => Ok(
                        (PublicParamsView::ECDH { curve, p, hash, alg_sym }, end),
                    ),
                },
            }
        },
        _ => Err(Error::UnsupportedAlgorithm),
    }
}

/// Writes the curve prefix of `curve` into `buf`.
fn write_curve(curve: &ECCCurve, buf: &mut Vec<u8>)
    ensures
        final(buf)@ == old(buf)@ + curve_prefix(*curve),
{
    let oid = curve.oid();
    buf.push(oid.len() as u8);
    append_bytes(buf, oid.as_slice());
    assert(buf@ =~= old(buf)@ + curve_prefix(*curve));
}

/// Writes the curve prefix and the point as an MPI into `buf`; reports whether
/// the point could be encoded.
fn write_point(curve: &ECCCurve, point: &Vec<u8>, buf: &mut Vec<u8>) -> (ok: bool)
    ensures
        ok <==> bit_size_spec(point@) <= MAX_MPI_BITS,
        ok ==> final(buf)@ == old(buf)@ + curve_prefix(*curve) + mpi_bytes(point@),
{
    write_curve(curve, buf);
    write_mpi(point.as_slice(), buf).is_ok()
}

/// Writes up to four integers as consecutive MPIs into `buf`; reports whether
/// all of them could be encoded.
fn write_integers(a: &BigUint, b: &BigUint, c: Option<&BigUint>, d: Option<&BigUint>, buf: &mut Vec<u8>) -> (ok: bool)
    requires
        d is Some ==> c is Some,
    ensures
        ok <==> nat_bits(biguint_value(*a)) <= MAX_MPI_BITS && nat_bits(biguint_value(*b))
            <= MAX_MPI_BITS && (c matches Some(c) ==> nat_bits(biguint_value(*c)) <= MAX_MPI_BITS)
            && (d matches Some(d) ==> nat_bits(biguint_value(*d)) <= MAX_MPI_BITS),
        ok ==> final(buf)@ == old(buf)@ + mpi_of_nat(biguint_value(*a)) + mpi_of_nat(
            biguint_value(*b),
        ) + (match c {
            Some(c) => mpi_of_nat(biguint_value(*c)),
            None => Seq::empty(),
        }) + (match d {
            Some(d) => mpi_of_nat(biguint_value(*d)),
            None => Seq::empty(),
        }),
{
    if write_bignum_mpi(a, buf).is_err() {
        return false;
    }
    if write_bignum_mpi(b, buf).is_err() {
        return false;
    }
    if let Some(c) = c {
        if write_bignum_mpi(c, buf).is_err() {
            return false;
        }
    }
    if let Some(d) = d {
        if write_bignum_mpi(d, buf).is_err() {
            return false;
        }
    }
    assert(buf@ =~= old(buf)@ + mpi_of_nat(biguint_value(*a)) + mpi_of_nat(biguint_value(*b)) + (match c {
        Some(c) => mpi_of_nat(biguint_value(*c)),
        None => Seq::empty(),
    }) + (match d {
        Some(d) => mpi_of_nat(biguint_value(*d)),
        None => Seq::empty(),
    }));
    true
}

impl Serialize for PublicParams {
    open spec fn encodable(&self) -> bool {
        self@.encodable()
    }

    open spec fn serialized(&self) -> Seq<u8> {
        self@.serialized()
    }

    /// Appends the parameter block to `writer`.
    fn to_writer(&self, writer: &mut Vec<u8>) -> (r: Result<(), Error>) {
        let mut buf: Vec<u8> = Vec::new();
        let ok = match self {
            PublicParams::RSA { n, e } => write_integers(n, e, None, None, &mut buf),
            PublicParams::DSA { p, q, g, y } => write_integers(p, q, Some(g), Some(y), &mut buf),
            PublicParams::ECDSA { curve, p } => write_point(curve, p, &mut buf),
            PublicParams::ECDH { curve, p, hash, alg_sym } => {
                let ok = write_point(curve, p, &mut buf);
                if ok {
                    buf.push(
                        // len of the following fields
                        0x03,
                    );
                    buf.push(
                        // fixed tag
                        0x01,
                    );
                    buf.push(hash.to_u8());
                    buf.push(alg_sym.to_u8());
                }
                ok
            },
            PublicParams::Elgamal { p, g, y } => write_integers(p, g, Some(y), None, &mut buf),
            PublicParams::EdDSA { curve, q } => write_point(curve, q, &mut buf),
        };
        if ok {
            assert(buf@ =~= self@.serialized());
            append_bytes(writer, buf.as_slice());
            Ok(())
        } else {
            Err(Error::MalformedInput { offset: writer.len() })
        }
    }
}

/// Trusted: `hex::encode` writes each octet as two lowercase hexadecimal
/// digits, high digit first, in the order of the octets.
#[verifier::external_body]
fn hex_encode(data: &[u8]) -> (r: String)
    ensures
        r@ == hex_string(data@),
{
    hex::encode(data)
}

/// Appends the hexadecimal text of `data` to `s`.
fn append_hex(s: &mut String, data: &[u8])
    ensures
        final(s)@ == old(s)@ + hex_string(data@),
{
    let h = hex_encode(data);
    s.append(h.as_str());
}

/// Appends the hexadecimal text of the octets of `n` to `s`.
fn append_hex_integer(s: &mut String, n: &BigUint)
    ensures
        final(s)@ == old(s)@ + hex_string(nat_to_bytes_be(biguint_value(*n))),
{
    let bytes = biguint_to_bytes_be(n);
    append_hex(s, bytes.as_slice());
}

/// Reads a curve at `pos`.
fn read_curve(input: &[u8], pos: usize) -> (r: Result<(ECCCurve, usize), Error>)
    ensures
        match r {
            Ok((curve, next)) => parse_curve(input@, pos as int) == Ok::<(ECCCurve, int), Error>(
                (curve, next as int),
            ),
            Err(e) => parse_curve(input@, pos as int) == Err::<(ECCCurve, int), Error>(e),
        },
{
    let len = input.len();
    if pos >= len {
        return Err(Error::MalformedInput { offset: pos });
    }
    let n: usize = input[pos] as usize;
    if len - pos - 1 < n {
        return Err(Error::MalformedInput { offset: pos });
    }
    match ECCCurve::from_oid(slice_subrange(input, pos + 1, pos + 1 + n)) {
        Some(curve) => Ok((curve, pos + 1 + n)),
        None => Err(Error::UnsupportedCurve),
    }
}

/// Whether a point on `curve` can belong to a key of algorithm `alg`.
fn check_curve_fits(alg: PublicKeyAlgorithm, curve: ECCCurve) -> (r: bool)
    ensures
        r == curve_fits(alg, curve),
{
    match alg {
        PublicKeyAlgorithm::EdDSA => curve == ECCCurve::Ed25519,
        PublicKeyAlgorithm::ECDH => curve != ECCCurve::Ed25519,
        PublicKeyAlgorithm::ECDSA => curve != ECCCurve::Ed25519 && curve != ECCCurve::Curve25519,
        _ => false,
    }
}

/// Reads a curve that fits `alg` and a point at `pos`.
fn read_point(alg: PublicKeyAlgorithm, input: &[u8], pos: usize) -> (r: Result<
    (ECCCurve, Vec<u8>, usize),
    Error,
>)
    ensures
        match r {
            Ok((curve, point, next)) => parse_point(alg, input@, pos as int) == Ok::<
                (ECCCurve, Seq<u8>, int),
                Error,
            >((curve, point@, next as int)),
            Err(e) => parse_point(alg, input@, pos as int) == Err::<
                (ECCCurve, Seq<u8>, int),
                Error,
            >(e),
        },
{
    let (curve, at1) = match read_curve(input, pos) {
        Ok(v) => v,
        Err(e) => {
            return Err(e);
        },
    };
    if !check_curve_fits(alg, curve) {
        return Err(Error::MalformedInput { offset: pos });
    }
    match read_mpi(input, at1) {
        Ok((point, at2)) => Ok((curve, point, at2)),
        Err(e) => Err(e),
    }
}

/// Reads the key-derivation descriptor of ECDH at `pos`.
fn read_kdf(input: &[u8], pos: usize) -> (r: Result<
    (HashAlgorithm, SymmetricKeyAlgorithm, usize),
    Error,
>)
    ensures
        match r {
            Ok((hash, alg_sym, next)) => parse_kdf(input@, pos as int) == Ok::<
                (HashAlgorithm, SymmetricKeyAlgorithm, int),
                Error,
            >((hash, alg_sym, next as int)),
            Err(e) => parse_kdf(input@, pos as int) == Err::<
                (HashAlgorithm, SymmetricKeyAlgorithm, int),
                Error,
            >(e),
        },
{
    let len = input.len();
    if pos > len || len - pos < 4 || input[pos] != 0x03 || input[pos + 1] != 0x01 {
        return Err(Error::MalformedInput { offset: pos });
    }
    match (HashAlgorithm::from_u8(input[pos + 2]), SymmetricKeyAlgorithm::from_u8(input[pos + 3])) {
        (Some(hash), Some(alg_sym)) => Ok((hash, alg_sym, pos + 4)),
        _ => Err(Error::UnsupportedAlgorithm),
    }
}

/// Reads an integer MPI at `pos`.
pub fn read_integer(input: &[u8], pos: usize) -> (r: Result<(BigUint, usize), Error>)
    ensures
        match r {
            Ok((n, next)) => parse_nat(input@, pos as int) == Ok::<(nat, int), Error>(
                (biguint_value(n), next as int),
            ) && pos + 2 <= next <= input@.len(),
            Err(e) => parse_nat(input@, pos as int) == Err::<(nat, int), Error>(e) && e == (
            Error::MalformedInput { offset: pos }),
        },
{
    reveal(parse_nat);
    read_bignum_mpi(input, pos)
}

impl PublicParams {
    /// Renders the parameters for diagnostics: the name of the variant and
    /// its fields, each under its own name, integers and points in lowercase
    /// hexadecimal.
    pub fn fmt(&self) -> (r: String)
        ensures
            r@ == self@.debug_text(),
    {
        match self {
            PublicParams::RSA { n, e } => {
                let mut s = String::from_str("PublicParams::RSA { n: \"");
                append_hex_integer(&mut s, n);
                s.append("\", e: \"");
                append_hex_integer(&mut s, e);
                s.append("\" }");
                s
            },
            PublicParams::DSA { p, q, g, y } => {
                let mut s = String::from_str("PublicParams::DSA { p: \"");
                append_hex_integer(&mut s, p);
                s.append("\", q: \"");
                append_hex_integer(&mut s, q);
                s.append("\", g: \"");
                append_hex_integer(&mut s, g);
                s.append("\", y: \"");
                append_hex_integer(&mut s, y);
                s.append("\" }");
                s
            },
            PublicParams::ECDSA { curve, p } => {
                let mut s = String::from_str("PublicParams::ECDSA { curve: ");
                s.append(curve.name());
                s.append(", p: \"");
                append_hex(&mut s, p.as_slice());
                s.append("\" }");
                s
            },
            PublicParams::ECDH { curve, p, hash, alg_sym } => {
                let mut s = String::from_str("PublicParams::ECDSA { curve: ");
                s.append(curve.name());
                s.append(", hash: ");
                s.append(hash.name());
                s.append(", alg_sym: ");
                s.append(alg_sym.name());
                s.append(", p: \"");
                append_hex(&mut s, p.as_slice());
                s.append("\" }");
                s
            },
            PublicParams::Elgamal { p, g, y } => {
                let mut s = String::from_str("PublicParams::Elgamal { p: \"");
                append_hex_integer(&mut s, p);
                s.append("\", g: \"");
                append_hex_integer(&mut s, g);
                s.append("\", y: \"");
                append_hex_integer(&mut s, y);
                s.append("\" }");
                s
            },
            PublicParams::EdDSA { curve, q } => {
                let mut s = String::from_str("PublicParams::EdDSA { curve: ");
                s.append(curve.name());
                s.append(", q: \"");
                append_hex(&mut s, q.as_slice());
                s.append("\" }");
                s
            },
        }
    }

    /// Reads the parameter block of a key of algorithm `alg` at `pos` and
    /// returns the parameters with the position after them.
    pub fn parse(alg: PublicKeyAlgorithm, input: &[u8], pos: usize) -> (r: Result<
        (PublicParams, usize),
        Error,
    >)
        ensures
            match r {
                Ok((params, next)) => parse_public_params(alg, input@, pos as int) == Ok::<
                    (PublicParamsView, int),
                    Error,
                >((params@, next as int)),
                Err(e) => parse_public_params(alg, input@, pos as int) == Err::<
                    (PublicParamsView, int),
                    Error,
                >(e),
            },
    {
        match alg {
            PublicKeyAlgorithm::RSA | PublicKeyAlgorithm::RSAEncrypt | PublicKeyAlgorithm::RSASign => {
                let (n, at1) = match read_integer(input, pos) {
                    Ok(v) => v,
                    Err(e) => {
                        return Err(e);
                    },
                };
                let (e, at2) = match read_integer(input, at1) {
                    Ok(v) => v,
                    Err(e) => {
                        return Err(e);
                    },
                };
                Ok((PublicParams::RSA { n, e }, at2))
            },
            PublicKeyAlgorithm::DSA => {
                let (p, at1) = match read_integer(input, pos) {
                    Ok(v) => v,
                    Err(e) => {
                        return Err(e);
                    },
                };
                let (q, at2) = match read_integer(input, at1) {
                    Ok(v) => v,
                    Err(e) => {
                        return Err(e);
                    },
                };
                let (g, at3) = match read_integer(input, at2) {
                    Ok(v) => v,
                    Err(e) => {
                        return Err(e);
                    },
                };
                let (y, at4) = match read_integer(input, at3) {
                    Ok(v) => v,
                    Err(e) => {
                        return Err(e);
                    },
                };
                Ok((PublicParams::DSA { p, q, g, y }, at4))
            },
            PublicKeyAlgorithm::Elgamal | PublicKeyAlgorithm::ElgamalSign => {
                let (p, at1) = match read_integer(input, pos) {
                    Ok(v) => v,
                    Err(e) => {
                        return Err(e);
                    },
                };
                let (g, at2) = match read_integer(input, at1) {
                    Ok(v) => v,
                    Err(e) => {
                        return Err(e);
                    },
                };
                let (y, at3) = match read_integer(input, at2) {
                    Ok(v) => v,
                    Err(e) => {
                        return Err(e);
                    },
                };
                Ok((PublicParams::Elgamal { p, g, y }, at3))
            },
            PublicKeyAlgorithm::ECDSA => {
                match read_point(alg, input, pos) {
                    Ok((curve, p, next)) => Ok((PublicParams::ECDSA { curve, p }, next)),
                    Err(e) => Err(e),
                }
            },
            PublicKeyAlgorithm::EdDSA => {
                match read_point(alg, input, pos) {
                    Ok((curve, q, next)) => Ok((PublicParams::EdDSA { curve, q }, next)),
                    Err(e) => Err(e),
                }
            },
            PublicKeyAlgorithm::ECDH => {
                let (curve, p, next) = match read_point(alg, input, pos) {
                    Ok(v) => v,
                    Err(e) => {
                        return Err(e);
                    },
                };
                match read_kdf(input, next) {
                    Ok((hash, alg_sym, end)) => Ok(
                        (PublicParams::ECDH { curve, p, hash, alg_sym }, end),
                    ),
                    Err(e) => Err(e),
                }
            },
            _ => Err(Error::UnsupportedAlgorithm),
        }
    }
}

/// An encoded integer is read back wherever it stands in the input.
pub proof fn lemma_parse_nat_at(input: Seq<u8>, pre: Seq<u8>, x: nat, rest: Seq<u8>)
    requires
        nat_bits(x) <= MAX_MPI_BITS,
        input == pre + mpi_of_nat(x) + rest,
    ensures
        parse_nat(input, pre.len() as int) == Ok::<(nat, int), Error>(
            (x, (pre.len() + mpi_of_nat(x).len()) as int),
        ),
{
    reveal(parse_nat);
    lemma_mpi_roundtrip(pre, x, rest);
}

/// An encoded point that starts with a nonzero octet is read back wherever it
/// stands in the input.
proof fn lemma_parse_point_at(
    alg: PublicKeyAlgorithm,
    input: Seq<u8>,
    pre: Seq<u8>,
    curve: ECCCurve,
    point: Seq<u8>,
    rest: Seq<u8>,
)
    requires
        curve_fits(alg, curve),
        bit_size_spec(point) <= MAX_MPI_BITS,
        point.len() > 0 ==> point[0] != 0,
        input == pre + (curve_prefix(curve) + mpi_bytes(point)) + rest,
    ensures
        parse_point(alg, input, pre.len() as int) == Ok::<(ECCCurve, Seq<u8>, int), Error>(
            (curve, point, (pre.len() + curve_prefix(curve).len() + mpi_bytes(point).len()) as int),
        ),
{
    let pos = pre.len() as int;
    let oid = curve.oid_spec();
    lemma_curve_oid_roundtrip(curve);
    assert(input[pos] == oid.len() as u8);
    assert(input.subrange(pos + 1, pos + 1 + oid.len()) =~= oid);
    let pre2 = pre + curve_prefix(curve);
    assert(input =~= pre2 + mpi_bytes(point) + rest);
    lemma_parse_mpi_bytes(pre2, point, rest);
}

/// Reading back an emitted parameter block yields the parameters again and
/// consumes exactly the block, for parameters that have an encoding, under an
/// algorithm that carries their shape and curve, with a point that does not
/// start with a zero octet.
pub proof fn lemma_public_params_roundtrip(
    alg: PublicKeyAlgorithm,
    v: PublicParamsView,
    pre: Seq<u8>,
    rest: Seq<u8>,
)
    requires
        v.encodable(),
        v.belongs_to(alg),
        v.point_is_tagged(),
    ensures
        parse_public_params(alg, pre + v.serialized() + rest, pre.len() as int) == Ok::<
            (PublicParamsView, int),
            Error,
        >((v, (pre.len() + v.serialized().len()) as int)),
{
    let input = pre + v.serialized() + rest;
    match v {
        PublicParamsView::RSA { n, e } => {
            assert(input =~= pre + mpi_of_nat(n) + mpi_of_nat(e) + rest);
            lemma_parse_two(input, pre, n, e, rest);
        },
        PublicParamsView::DSA { p, q, g, y } => {
            lemma_roundtrip_dsa(p, q, g, y, pre, rest);
        },
        PublicParamsView::Elgamal { p, g, y } => {
            lemma_roundtrip_elgamal(alg, p, g, y, pre, rest);
        },
        PublicParamsView::ECDSA { curve, p } => {
            lemma_parse_point_at(alg, input, pre, curve, p, rest);
        },
        PublicParamsView::EdDSA { curve, q } => {
            lemma_parse_point_at(alg, input, pre, curve, q, rest);
        },
        PublicParamsView::ECDH { curve, p, hash, alg_sym } => {
            lemma_roundtrip_ecdh(curve, p, hash, alg_sym, pre, rest);
        },
    }
}

/// The round trip of DSA parameters.
proof fn lemma_roundtrip_dsa(p: nat, q: nat, g: nat, y: nat, pre: Seq<u8>, rest: Seq<u8>)
    requires
        (PublicParamsView::DSA { p, q, g, y }).encodable(),
    ensures
        parse_public_params(
            PublicKeyAlgorithm::DSA,
            pre + (PublicParamsView::DSA { p, q, g, y }).serialized() + rest,
            pre.len() as int,
        ) == Ok::<(PublicParamsView, int), Error>(
            (
                PublicParamsView::DSA { p, q, g, y },
                (pre.len() + (PublicParamsView::DSA { p, q, g, y }).serialized().len()) as int,
            ),
        ),
{
    let input = pre + (PublicParamsView::DSA { p, q, g, y }).serialized() + rest;
    let tail = mpi_of_nat(g) + mpi_of_nat(y) + rest;
    assert(input =~= pre + mpi_of_nat(p) + mpi_of_nat(q) + tail);
    lemma_parse_two(input, pre, p, q, tail);
    let head = pre + mpi_of_nat(p) + mpi_of_nat(q);
    assert(input =~= head + mpi_of_nat(g) + mpi_of_nat(y) + rest);
    lemma_parse_two(input, head, g, y, rest);
}

/// The round trip of Elgamal parameters.
proof fn lemma_roundtrip_elgamal(
    alg: PublicKeyAlgorithm,
    p: nat,
    g: nat,
    y: nat,
    pre: Seq<u8>,
    rest: Seq<u8>,
)
    requires
        (PublicParamsView::Elgamal { p, g, y }).encodable(),
        alg == PublicKeyAlgorithm::Elgamal || alg == PublicKeyAlgorithm::ElgamalSign,
    ensures
        parse_public_params(
            alg,
            pre + (PublicParamsView::Elgamal { p, g, y }).serialized() + rest,
            pre.len() as int,
        ) == Ok::<(PublicParamsView, int), Error>(
            (
                PublicParamsView::Elgamal { p, g, y },
                (pre.len() + (PublicParamsView::Elgamal { p, g, y }).serialized().len()) as int,
            ),
        ),
{
    let input = pre + (PublicParamsView::Elgamal { p, g, y }).serialized() + rest;
    let tail = mpi_of_nat(y) + rest;
    assert(input =~= pre + mpi_of_nat(p) + mpi_of_nat(g) + tail);
    lemma_parse_two(input, pre, p, g, tail);
    let head = pre + mpi_of_nat(p) + mpi_of_nat(g);
    assert(input =~= head + mpi_of_nat(y) + rest);
    lemma_parse_nat_at(input, head, y, rest);
}

/// The round trip of ECDH parameters.
proof fn lemma_roundtrip_ecdh(
    curve: ECCCurve,
    p: Seq<u8>,
    hash: HashAlgorithm,
    alg_sym: SymmetricKeyAlgorithm,
    pre: Seq<u8>,
    rest: Seq<u8>,
)
    requires
        bit_size_spec(p) <= MAX_MPI_BITS,
        p.len() > 0 ==> p[0] != 0,
        curve_fits(PublicKeyAlgorithm::ECDH, curve),
    ensures
        parse_public_params(
            PublicKeyAlgorithm::ECDH,
            pre + (PublicParamsView::ECDH { curve, p, hash, alg_sym }).serialized() + rest,
            pre.len() as int,
        ) == Ok::<(PublicParamsView, int), Error>(
            (
                PublicParamsView::ECDH { curve, p, hash, alg_sym },
                (pre.len() + (PublicParamsView::ECDH {
                    curve,
                    p,
                    hash,
                    alg_sym,
                }).serialized().len()) as int,
            ),
        ),
{
    let input = pre + (PublicParamsView::ECDH { curve, p, hash, alg_sym }).serialized() + rest;
    let block = curve_prefix(curve) + mpi_bytes(p);
    let kdf = kdf_descriptor(hash, alg_sym);
    assert(input =~= pre + block + (kdf + rest));
    lemma_parse_point_at(PublicKeyAlgorithm::ECDH, input, pre, curve, p, kdf + rest);
    let next = (pre.len() + block.len()) as int;
    assert(input[next] == 0x03);
    assert(input[next + 1] == 0x01);
    assert(input[next + 2] == hash.id());
    assert(input[next + 3] == alg_sym.id());
    lemma_hash_id_roundtrip(hash);
    lemma_symmetric_id_roundtrip(alg_sym);
}

/// Two consecutive encoded integers are read back one after the other.
pub proof fn lemma_parse_two(input: Seq<u8>, pre: Seq<u8>, x1: nat, x2: nat, rest: Seq<u8>)
    requires
        nat_bits(x1) <= MAX_MPI_BITS,
        nat_bits(x2) <= MAX_MPI_BITS,
        input == pre + mpi_of_nat(x1) + mpi_of_nat(x2) + rest,
    ensures
        parse_nat(input, pre.len() as int) == Ok::<(nat, int), Error>(
            (x1, (pre.len() + mpi_of_nat(x1).len()) as int),
        ),
        parse_nat(input, (pre.len() + mpi_of_nat(x1).len()) as int) == Ok::<(nat, int), Error>(
            (x2, (pre.len() + mpi_of_nat(x1).len() + mpi_of_nat(x2).len()) as int),
        ),
{
    let a = mpi_of_nat(x1);
    let b = mpi_of_nat(x2);
    assert(input =~= pre + a + (b + rest));
    lemma_parse_nat_at(input, pre, x1, b + rest);
    lemma_parse_nat_at(input, pre + a, x2, rest);
}

} // verus!
