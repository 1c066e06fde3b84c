//! Octet-level helpers and the multi-precision integer (MPI) codec.
//!
//! An MPI is a two-octet big-endian bit count followed by the magnitude in
//! big-endian order, `ceil(bits / 8)` octets long. Integers are written with
//! their leading zero bits stripped; elliptic-curve points are written as they
//! are, prefixed with the bit count of their octets.

use crate::bignum::{
    be_value, biguint_bits, biguint_from_bytes_be, biguint_to_bytes_be, biguint_value, nat_be_bytes,
    nat_bits,
};
use crate::errors::Error;
use num_bigint::BigUint;
use vstd::arithmetic::power2::{lemma2_to64, lemma_pow2_unfold, pow2};
use vstd::prelude::*;
use vstd::slice::{slice_subrange, slice_to_vec};

verus! {

/// The largest bit count that the two-octet length field of an MPI can hold.
pub const MAX_MPI_BITS: usize = 0xffff;

/// The two octets of `v`, most significant first.
pub open spec fn u16_be(v: u16) -> Seq<u8> {
    seq![(v / 256) as u8, (v % 256) as u8]
}

/// The four octets of `v`, most significant first.
pub open spec fn u32_be(v: u32) -> Seq<u8> {
    seq![
        (v / 0x100_0000) as u8,
        ((v / 0x1_0000) % 256) as u8,
        ((v / 0x100) % 256) as u8,
        (v % 256) as u8,
    ]
}

/// The number of significant bits of one octet.
pub open spec fn octet_bits(b: u8) -> nat {
    if b == 0 {
        0
    } else if b < 2 {
        1
    } else if b < 4 {
        2
    } else if b < 8 {
        3
    } else if b < 16 {
        4
    } else if b < 32 {
        5
    } else if b < 64 {
        6
    } else if b < 128 {
        7
    } else {
        8
    }
}

/// The bit count of an octet string as an MPI length field states it: eight
/// bits for every octet after the first, plus the significant bits of the first.
pub open spec fn bit_size_spec(s: Seq<u8>) -> nat {
    if s.len() == 0 {
        0
    } else {
        ((s.len() - 1) * 8 + octet_bits(s[0])) as nat
    }
}

/// The MPI encoding of an octet string: its bit count, then the octets unchanged.
pub open spec fn mpi_bytes(octets: Seq<u8>) -> Seq<u8>
    recommends
        bit_size_spec(octets) <= MAX_MPI_BITS,
{
    u16_be(bit_size_spec(octets) as u16) + octets
}

/// The MPI encoding of a natural number: its bit count, then its magnitude
/// without leading zero octets. Zero is the bare length field `00 00`.
pub open spec fn mpi_of_nat(v: nat) -> Seq<u8>
    recommends
        nat_bits(v) <= MAX_MPI_BITS,
{
    u16_be(nat_bits(v) as u16) + nat_be_bytes(v)
}

/// The result of reading one MPI at `pos`: the magnitude octets and the
/// position after them. `None` when fewer than two octets remain, when the
/// declared bit count asks for more octets than remain, or when the first
/// magnitude octet has fewer significant bits than the declared count leaves
/// for it.
#[verifier::opaque]
pub open spec fn parse_mpi(input: Seq<u8>, pos: int) -> Option<(Seq<u8>, int)> {
    if pos < 0 || pos + 2 > input.len() {
        None
    } else {
        let bits = input[pos] as int * 256 + input[pos + 1] as int;
        let n = (bits + 7) / 8;
        if pos + 2 + n > input.len() {
            None
        } else if n > 0 && octet_bits(input[pos + 2]) < bits - 8 * (n - 1) {
            None
        } else {
            Some((input.subrange(pos + 2, pos + 2 + n), pos + 2 + n))
        }
    }
}

/// Appends `bytes` to `w`.
pub fn append_bytes(w: &mut Vec<u8>, bytes: &[u8])
    ensures
        final(w)@ == old(w)@ + bytes@,
{
    w.extend_from_slice(bytes);
    assert(w@ =~= old(w)@ + bytes@);
}

/// The lowercase hexadecimal digit of a value below sixteen.
pub open spec fn hex_digit(d: int) -> char {
    seq!['0', '1', '2', '3', '4', '5', '6', '7', '8', '9', 'a', 'b', 'c', 'd', 'e', 'f'][d]
}

/// The lowercase hexadecimal text of an octet string: two digits per octet,
/// high digit first.
pub open spec fn hex_string(data: Seq<u8>) -> Seq<char>
    decreases data.len(),
{
    if data.len() == 0 {
        Seq::empty()
    } else {
        hex_string(data.drop_last()) + seq![
            hex_digit(data.last() as int / 16),
            hex_digit(data.last() as int % 16),
        ]
    }
}

/// The octets of `s` after its leading zero octets.
pub open spec fn strip_zeros(s: Seq<u8>) -> Seq<u8>
    decreases s.len(),
{
    if s.len() > 0 && s[0] == 0 {
        strip_zeros(s.drop_first())
    } else {
        s
    }
}

/// Whether `s` is empty or starts with a nonzero octet.
pub open spec fn is_stripped(s: Seq<u8>) -> bool {
    s.len() > 0 ==> s[0] != 0
}

/// Stripping leaves a string that is stripped and is a suffix of the string
/// that was given; only zero octets are removed.
pub proof fn lemma_strip_zeros(s: Seq<u8>)
    ensures
        is_stripped(strip_zeros(s)),
        strip_zeros(s).len() <= s.len(),
        strip_zeros(s) == s.skip(s.len() - strip_zeros(s).len()),
        forall|i: int| 0 <= i < s.len() - strip_zeros(s).len() ==> s[i] == 0,
        is_stripped(s) ==> strip_zeros(s) == s,
    decreases s.len(),
{
    if s.len() > 0 && s[0] == 0 {
        let t = s.drop_first();
        lemma_strip_zeros(t);
        assert(t.skip(t.len() - strip_zeros(t).len()) =~= s.skip(s.len() - strip_zeros(t).len()));
        assert forall|i: int| 0 <= i < s.len() - strip_zeros(s).len() implies s[i] == 0 by {
            if i > 0 {
                assert(s[i] == t[i - 1]);
            }
        }
    } else {
        assert(s.skip(0) =~= s);
    }
}

/// A copy of `val` without its leading zero octets.
pub fn strip_leading_zeros(val: &[u8]) -> (r: Vec<u8>)
    ensures
        r@ == strip_zeros(val@),
{
    let mut i: usize = 0;
    assert(val@.skip(0) =~= val@);
    while i < val.len() && val[i] == 0
        invariant
            i <= val.len(),
            strip_zeros(val@) == strip_zeros(val@.skip(i as int)),
        decreases val.len() - i,
    {
        assert(val@.skip(i as int).drop_first() =~= val@.skip(i + 1));
        i += 1;
    }
    let r = slice_to_vec(slice_subrange(val, i, val.len()));
    assert(r@ =~= val@.skip(i as int));
    assert(val@.skip(0) =~= val@);
    r
}

/// Whether two octet strings are equal.
pub fn bytes_eq(a: &[u8], b: &[u8]) -> (r: bool)
    ensures
        r == (a@ == b@),
{
    if a.len() != b.len() {
        return false;
    }
    let mut i: usize = 0;
    while i < a.len()
        invariant
            i <= a.len(),
            a.len() == b.len(),
            forall|j: int| 0 <= j < i ==> a@[j] == b@[j],
        decreases a.len() - i,
    {
        if a[i] != b[i] {
            return false;
        }
        i += 1;
    }
    assert(a@ =~= b@);
    true
}

/// Appends the two octets of `v`, most significant first.
pub fn write_u16_be(v: u16, w: &mut Vec<u8>)
    ensures
        final(w)@ == old(w)@ + u16_be(v),
{
    w.push((v / 256) as u8);
    w.push((v % 256) as u8);
    assert(w@ =~= old(w)@ + u16_be(v));
}

/// Appends the four octets of `v`, most significant first.
pub fn write_u32_be(v: u32, w: &mut Vec<u8>)
    ensures
        final(w)@ == old(w)@ + u32_be(v),
{
    w.push((v / 0x100_0000) as u8);
    w.push(((v / 0x1_0000) % 256) as u8);
    w.push(((v / 0x100) % 256) as u8);
    w.push((v % 256) as u8);
    assert(w@ =~= old(w)@ + u32_be(v));
}

/// The number of significant bits of one octet.
pub fn significant_bits(b: u8) -> (r: usize)
    ensures
        r == octet_bits(b),
{
    if b == 0 {
        0
    } else if b < 2 {
        1
    } else if b < 4 {
        2
    } else if b < 8 {
        3
    } else if b < 16 {
        4
    } else if b < 32 {
        5
    } else if b < 64 {
        6
    } else if b < 128 {
        7
    } else {
        8
    }
}

/// The bit count of `val` as an MPI length field states it.
pub fn bit_size(val: &[u8]) -> (r: usize)
    requires
        val@.len() <= usize::MAX / 8,
    ensures
        r == bit_size_spec(val@),
{
    if val.len() == 0 {
        0
    } else {
        (val.len() - 1) * 8 + significant_bits(val[0])
    }
}

/// Writes the octets `val` as an MPI: the bit count of `val`, then `val`
/// itself, leading zero bits included. Nothing is written when the bit count
/// does not fit in the length field.
pub fn write_mpi(val: &[u8], w: &mut Vec<u8>) -> (r: Result<(), Error>)
    ensures
        r is Ok <==> bit_size_spec(val@) <= MAX_MPI_BITS,
        r is Ok ==> final(w)@ == old(w)@ + mpi_bytes(val@),
        r is Err ==> final(w)@ == old(w)@ && r == Err::<(), Error>(
            Error::MalformedInput { offset: old(w)@.len() as usize },
        ),
{
    if val.len() > MAX_MPI_BITS / 8 + 1 {
        return Err(Error::MalformedInput { offset: w.len() });
    }
    let size = bit_size(val);
    if size > MAX_MPI_BITS {
        return Err(Error::MalformedInput { offset: w.len() });
    }
    write_u16_be(size as u16, w);
    append_bytes(w, val);
    assert(w@ =~= old(w)@ + mpi_bytes(val@));
    Ok(())
}

/// Writes the integer `n` as an MPI: its bit count, then its magnitude with
/// leading zero bits stripped; zero is written as the bare length field.
/// Nothing is written when the bit count does not fit in the length field.
pub fn write_bignum_mpi(n: &BigUint, w: &mut Vec<u8>) -> (r: Result<(), Error>)
    ensures
        r is Ok <==> nat_bits(biguint_value(*n)) <= MAX_MPI_BITS,
        r is Ok ==> final(w)@ == old(w)@ + mpi_of_nat(biguint_value(*n)),
        r is Err ==> final(w)@ == old(w)@ && r == Err::<(), Error>(
            Error::MalformedInput { offset: old(w)@.len() as usize },
        ),
{
    let size = biguint_bits(n);
    if size > 0xffff {
        return Err(Error::MalformedInput { offset: w.len() });
    }
    write_u16_be(size as u16, w);
    if size > 0 {
        let bytes = biguint_to_bytes_be(n);
        append_bytes(w, bytes.as_slice());
    }
    assert(w@ =~= old(w)@ + mpi_of_nat(biguint_value(*n)));
    Ok(())
}

/// Reads one MPI at `pos` and returns its magnitude octets with the position
/// after them.
pub fn read_mpi(input: &[u8], pos: usize) -> (r: Result<(Vec<u8>, usize), Error>)
    ensures
        match r {
            Ok((octets, next)) => parse_mpi(input@, pos as int) == Some((octets@, next as int))
                && pos + 2 <= next <= input@.len(),
            Err(e) => parse_mpi(input@, pos as int) is None && e == (Error::MalformedInput {
                offset: pos,
            }),
        },
{
    reveal(parse_mpi);
    let len = input.len();
    if pos > len || len - pos < 2 {
        return Err(Error::MalformedInput { offset: pos });
    }
    let hi: usize = input[pos] as usize;
    let lo: usize = input[pos + 1] as usize;
    let bits: usize = hi * 256 + lo;
    let n: usize = (bits + 7) / 8;
    if len - pos - 2 < n {
        return Err(Error::MalformedInput { offset: pos });
    }
    if n > 0 && significant_bits(input[pos + 2]) < bits - 8 * (n - 1) {
        return Err(Error::MalformedInput { offset: pos });
    }
    let octets = slice_to_vec(slice_subrange(input, pos + 2, pos + 2 + n));
    Ok((octets, pos + 2 + n))
}

/// Reads one MPI at `pos` as an integer and returns it with the position after
/// its encoding.
pub fn read_bignum_mpi(input: &[u8], pos: usize) -> (r: Result<(BigUint, usize), Error>)
    ensures
        match r {
            Ok((n, next)) => pos + 2 <= next <= input@.len() && (match parse_mpi(
                input@,
                pos as int,
            ) {
                Some((octets, end)) => next as int == end && biguint_value(n) == be_value(octets),
                None => false,
            }),
            Err(e) => parse_mpi(input@, pos as int) is None && e == (Error::MalformedInput {
                offset: pos,
            }),
        },
{
    match read_mpi(input, pos) {
        Ok((octets, next)) => Ok((biguint_from_bytes_be(octets.as_slice()), next)),
        Err(e) => Err(e),
    }
}

/// Dividing by 256 removes eight significant bits.
pub proof fn lemma_nat_bits_shift8(v: nat)
    requires
        v >= 256,
    ensures
        nat_bits(v) == 8 + nat_bits(v / 256),
{
    reveal_with_fuel(nat_bits, 9);
    assert(v / 2 / 2 / 2 / 2 / 2 / 2 / 2 / 2 == v / 256);
}

/// The significant bits of a number below 256 are those of its octet.
pub proof fn lemma_nat_bits_octet(b: u8)
    ensures
        nat_bits(b as nat) == octet_bits(b),
{
    reveal_with_fuel(nat_bits, 10);
}

/// The digits of a positive number start with a nonzero octet, and the bit
/// count of the digit string is the bit count of the number.
pub proof fn lemma_nat_be_bytes_shape(v: nat)
    ensures
        v == 0 <==> nat_be_bytes(v).len() == 0,
        v > 0 ==> nat_be_bytes(v)[0] != 0,
        bit_size_spec(nat_be_bytes(v)) == nat_bits(v),
        be_value(nat_be_bytes(v)) == v,
    decreases v,
{
    if v == 0 {
    } else if v < 256 {
        let s = nat_be_bytes(v);
        assert(nat_be_bytes(v / 256) =~= Seq::<u8>::empty());
        assert(s =~= seq![v as u8]);
        lemma_nat_bits_octet(v as u8);
        assert(s.drop_last() =~= Seq::<u8>::empty());
        assert(be_value(s.drop_last()) == 0);
    } else {
        let hi = nat_be_bytes(v / 256);
        let s = nat_be_bytes(v);
        lemma_nat_be_bytes_shape(v / 256);
        lemma_nat_bits_shift8(v);
        assert(s == hi.push((v % 256) as u8));
        assert(s[0] == hi[0]);
        assert(s.drop_last() =~= hi);
    }
}

/// The two encodings agree: writing a number is writing its digit string.
pub proof fn lemma_mpi_of_nat_is_mpi_bytes(v: nat)
    ensures
        mpi_of_nat(v) == mpi_bytes(nat_be_bytes(v)),
{
    lemma_nat_be_bytes_shape(v);
}

/// An octet string that does not start with a zero octet is read back from its
/// MPI encoding unchanged, whatever surrounds the encoding.
pub proof fn lemma_parse_mpi_bytes(pre: Seq<u8>, octets: Seq<u8>, rest: Seq<u8>)
    requires
        bit_size_spec(octets) <= MAX_MPI_BITS,
        octets.len() > 0 ==> octets[0] != 0,
    ensures
        parse_mpi(pre + mpi_bytes(octets) + rest, pre.len() as int) == Some(
            (octets, (pre.len() + 2 + octets.len()) as int),
        ),
{
    reveal(parse_mpi);
    let input = pre + mpi_bytes(octets) + rest;
    let pos = pre.len() as int;
    let bits = bit_size_spec(octets);
    assert(input[pos] == (bits as u16 / 256) as u8);
    assert(input[pos + 1] == (bits as u16 % 256) as u8);
    assert(input[pos] as int * 256 + input[pos + 1] as int == bits);
    let n = (bits + 7) / 8;
    assert(n == octets.len());
    if n > 0 {
        assert(input[pos + 2] == octets[0]);
    }
    assert(input.subrange(pos + 2, pos + 2 + n) =~= octets);
}

/// Reading back an encoded integer yields the integer again and consumes
/// exactly its encoding; the declared bit count is the least that holds it.
pub proof fn lemma_mpi_roundtrip(pre: Seq<u8>, x: nat, rest: Seq<u8>)
    requires
        nat_bits(x) <= MAX_MPI_BITS,
    ensures
        parse_mpi(pre + mpi_of_nat(x) + rest, pre.len() as int) == Some(
            (nat_be_bytes(x), (pre.len() + mpi_of_nat(x).len()) as int),
        ),
        be_value(nat_be_bytes(x)) == x,
        mpi_of_nat(x).subrange(0, 2) == u16_be(nat_bits(x) as u16),
        x < pow2(nat_bits(x)),
        nat_bits(x) > 0 ==> pow2((nat_bits(x) - 1) as nat) <= x,
{
    lemma_nat_be_bytes_shape(x);
    lemma_parse_mpi_bytes(pre, nat_be_bytes(x), rest);
    lemma_nat_bits_minimal(x);
    assert(mpi_of_nat(x).subrange(0, 2) =~= u16_be(nat_bits(x) as u16));
}

/// `nat_bits(x)` is the least number of bits that can hold `x`.
pub proof fn lemma_nat_bits_minimal(x: nat)
    ensures
        x < pow2(nat_bits(x)),
        nat_bits(x) > 0 ==> pow2((nat_bits(x) - 1) as nat) <= x,
    decreases x,
{
    lemma2_to64();
    if x == 0 {
    } else {
        lemma_nat_bits_minimal(x / 2);
        lemma_pow2_unfold(nat_bits(x));
        if x / 2 > 0 {
            lemma_pow2_unfold((nat_bits(x) - 1) as nat);
        }
    }
}

} // verus!
