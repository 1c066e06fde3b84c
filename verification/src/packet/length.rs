//! The variable-length length fields of new-format packets and subpackets.
//!
//! A length below 192 takes one octet. A length below 8384 takes two octets,
//! the first between 192 and 223. Any other length up to `2^32 - 1` takes five
//! octets, the first being 255. A reader of subpacket lengths accepts every
//! first octet from 192 to 254 as the start of a two-octet length.

use crate::util::{u32_be, write_u32_be};
use vstd::prelude::*;

verus! {

/// The octets of the length field for `len`.
pub open spec fn length_bytes(len: nat) -> Seq<u8>
    recommends
        len <= u32::MAX,
{
    if len < 192 {
        seq![len as u8]
    } else if len < 8384 {
        seq![((len - 192) / 256 + 192) as u8, ((len - 192) % 256) as u8]
    } else {
        seq![0xffu8] + u32_be(len as u32)
    }
}

/// The value of the four octets at `pos`, most significant first.
pub open spec fn u32_at(input: Seq<u8>, pos: int) -> nat
    recommends
        0 <= pos,
        pos + 4 <= input.len(),
{
    (input[pos] as nat) * 0x100_0000 + (input[pos + 1] as nat) * 0x1_0000 + (input[pos + 2] as nat)
        * 0x100 + input[pos + 3] as nat
}

/// The value of the two octets at `pos`, most significant first.
pub open spec fn u16_at(input: Seq<u8>, pos: int) -> nat
    recommends
        0 <= pos,
        pos + 2 <= input.len(),
{
    (input[pos] as nat) * 0x100 + input[pos + 1] as nat
}

/// The result of reading a subpacket length field at `pos`: the length and the
/// position after the field. `None` when the field is cut short.
pub open spec fn parse_length(input: Seq<u8>, pos: int) -> Option<(nat, int)> {
    if pos < 0 || pos >= input.len() {
        None
    } else if input[pos] < 192 {
        Some((input[pos] as nat, pos + 1))
    } else if input[pos] < 255 {
        if pos + 2 > input.len() {
            None
        } else {
            Some((((input[pos] - 192) * 256 + input[pos + 1] + 192) as nat, pos + 2))
        }
    } else {
        if pos + 5 > input.len() {
            None
        } else {
            Some((u32_at(input, pos + 1), pos + 5))
        }
    }
}

/// Appends the length field for `len`.
pub fn write_length(len: u32, w: &mut Vec<u8>)
    ensures
        final(w)@ == old(w)@ + length_bytes(len as nat),
{
    if len < 192 {
        w.push(len as u8);
        assert(w@ =~= old(w)@ + length_bytes(len as nat));
    } else if len < 8384 {
        w.push(((len - 192) / 256 + 192) as u8);
        w.push(((len - 192) % 256) as u8);
        assert(w@ =~= old(w)@ + length_bytes(len as nat));
    } else {
        w.push(0xff);
        write_u32_be(len, w);
        assert(w@ =~= old(w)@ + length_bytes(len as nat));
    }
}

/// Reads the four octets at `pos` as a number, most significant first.
pub fn read_u32_be(input: &[u8], pos: usize) -> (r: u32)
    requires
        pos + 4 <= input@.len(),
    ensures
        r == u32_at(input@, pos as int),
{
    let b0: u32 = input[pos] as u32;
    let b1: u32 = input[pos + 1] as u32;
    let b2: u32 = input[pos + 2] as u32;
    let b3: u32 = input[pos + 3] as u32;
    b0 * 0x100_0000 + b1 * 0x1_0000 + b2 * 0x100 + b3
}

/// Reads the two octets at `pos` as a number, most significant first.
pub fn read_u16_be(input: &[u8], pos: usize) -> (r: u16)
    requires
        pos + 2 <= input@.len(),
    ensures
        r == u16_at(input@, pos as int),
{
    let b0: u16 = input[pos] as u16;
    let b1: u16 = input[pos + 1] as u16;
    b0 * 0x100 + b1
}

/// Reads a subpacket length field at `pos`; `None` when the field is cut short.
pub fn read_length(input: &[u8], pos: usize) -> (r: Option<(u32, usize)>)
    ensures
        match r {
            Some((len, next)) => parse_length(input@, pos as int) == Some(
                (len as nat, next as int),
            ),
            None => parse_length(input@, pos as int) is None,
        },
{
    let n = input.len();
    if pos >= n {
        return None;
    }
    let first = input[pos];
    if first < 192 {
        Some((first as u32, pos + 1))
    } else if first < 255 {
        if n - pos < 2 {
            return None;
        }
        let second = input[pos + 1];
        Some((((first - 192) as u32) * 256 + second as u32 + 192, pos + 2))
    } else {
        if n - pos < 5 {
            return None;
        }
        Some((read_u32_be(input, pos + 1), pos + 5))
    }
}

/// The four octets of a number give the number back.
pub proof fn lemma_u32_be_roundtrip(v: u32, input: Seq<u8>, pos: int)
    requires
        0 <= pos,
        pos + 4 <= input.len(),
        input.subrange(pos, pos + 4) == u32_be(v),
    ensures
        u32_at(input, pos) == v,
{
    let s = input.subrange(pos, pos + 4);
    assert(input[pos] == s[0]);
    assert(input[pos + 1] == s[1]);
    assert(input[pos + 2] == s[2]);
    assert(input[pos + 3] == s[3]);
}

/// The two octets of a number give the number back.
pub proof fn lemma_u16_be_roundtrip(v: u16, input: Seq<u8>, pos: int)
    requires
        0 <= pos,
        pos + 2 <= input.len(),
        input.subrange(pos, pos + 2) == crate::util::u16_be(v),
    ensures
        u16_at(input, pos) == v,
{
    let s = input.subrange(pos, pos + 2);
    assert(input[pos] == s[0]);
    assert(input[pos + 1] == s[1]);
}

/// A length field is read back as the length it was written for, whatever
/// surrounds it.
pub proof fn lemma_length_roundtrip(pre: Seq<u8>, len: nat, rest: Seq<u8>)
    requires
        len <= u32::MAX,
    ensures
        parse_length(pre + length_bytes(len) + rest, pre.len() as int) == Some(
            (len, (pre.len() + length_bytes(len).len()) as int),
        ),
        1 <= length_bytes(len).len() <= 5,
{
    let input = pre + length_bytes(len) + rest;
    let pos = pre.len() as int;
    assert(input[pos] == length_bytes(len)[0]);
    if len < 192 {
    } else if len < 8384 {
        assert(input[pos + 1] == length_bytes(len)[1]);
    } else {
        assert(input.subrange(pos + 1, pos + 5) =~= u32_be(len as u32));
        lemma_u32_be_roundtrip(len as u32, input, pos + 1);
    }
}

} // verus!
