//! Arbitrary-precision non-negative integers, as `num_bigint` provides them.
//!
//! The verified code never looks inside a [`BigUint`]: it converts between
//! integers and octet strings through the functions below, whose contracts are
//! taken on trust from the `num_bigint` crate.

use num_bigint::BigUint;
use vstd::prelude::*;

verus! {

#[verifier::external_type_specification]
#[verifier::external_body]
pub struct ExBigUint(BigUint);

/// The natural number that a [`BigUint`] holds.
pub uninterp spec fn biguint_value(n: BigUint) -> nat;

/// The value of an octet string read as a big-endian base-256 numeral.
pub open spec fn be_value(s: Seq<u8>) -> nat
    decreases s.len(),
{
    if s.len() == 0 {
        0
    } else {
        be_value(s.drop_last()) * 256 + s.last() as nat
    }
}

/// The big-endian base-256 digits of `v` without leading zero octets; empty for zero.
pub open spec fn nat_be_bytes(v: nat) -> Seq<u8>
    decreases v,
{
    if v == 0 {
        Seq::empty()
    } else {
        nat_be_bytes(v / 256).push((v % 256) as u8)
    }
}

/// The number of significant bits of `v`: zero for zero, otherwise the position
/// of the highest set bit, counted from one.
pub open spec fn nat_bits(v: nat) -> nat
    decreases v,
{
    if v == 0 {
        0
    } else {
        1 + nat_bits(v / 2)
    }
}

/// The octets that stand for `v` where at least one octet is wanted: the
/// single octet zero for zero, otherwise the digits without leading zero octets.
pub open spec fn nat_to_bytes_be(v: nat) -> Seq<u8> {
    if v == 0 {
        seq![0u8]
    } else {
        nat_be_bytes(v)
    }
}

/// Trusted: `BigUint::to_bytes_be` returns the big-endian octets of the number
/// without leading zero octets, and the single octet zero for the number zero.
#[verifier::external_body]
pub(crate) fn biguint_to_bytes_be(n: &BigUint) -> (r: Vec<u8>)
    ensures
        r@ == nat_to_bytes_be(biguint_value(*n)),
{
    n.to_bytes_be()
}

/// Trusted: `BigUint::from_bytes_be` builds the number whose big-endian
/// base-256 numeral is `bytes`; leading zero octets and the empty string are
/// accepted.
#[verifier::external_body]
pub(crate) fn biguint_from_bytes_be(bytes: &[u8]) -> (r: BigUint)
    ensures
        biguint_value(r) == be_value(bytes@),
{
    BigUint::from_bytes_be(bytes)
}

/// Trusted: `BigUint::bits` returns the fewest bits that express the number.
#[verifier::external_body]
pub(crate) fn biguint_bits(n: &BigUint) -> (r: u64)
    ensures
        r == nat_bits(biguint_value(*n)),
{
    n.bits()
}

/// Trusted: cloning a `BigUint` keeps the number.
pub assume_specification[ <BigUint as Clone>::clone ](n: &BigUint) -> (r: BigUint)
    ensures
        biguint_value(r) == biguint_value(*n),
;

} // verus!
