//! Packet framing: headers in old and new format, body lengths, and bodies
//! that arrive in partial-length chunks.
//!
//! The first octet of a packet has bit 7 set. With bit 6 clear the header is
//! in old format: the tag in bits 5..2 and in bits 1..0 the kind of length
//! that follows (one, two or four octets, or none for a body that runs to the
//! end of the input). With bit 6 set the header is in new format: the tag in
//! bits 5..0, then a length of one, two or five octets, or a partial length:
//! an octet from 224 to 254 that announces a chunk of `2^(octet - 224)`
//! octets and is followed, after the chunk, by another length.

use crate::errors::Error;
use crate::packet::length::{
    lemma_length_roundtrip, lemma_u16_be_roundtrip, lemma_u32_be_roundtrip, length_bytes,
    parse_length, read_length, read_u16_be, read_u32_be, u16_at, u32_at, write_length,
};
use crate::ser::Serialize;
use crate::types::tag::{lemma_tag_id_roundtrip, Tag, Version};
use crate::util::{append_bytes, u16_be, u32_be, write_u16_be, write_u32_be};
use vstd::arithmetic::power2::{lemma2_to64, lemma_pow2_strictly_increases, lemma_pow2_unfold, pow2};
use vstd::prelude::*;
use vstd::slice::{slice_subrange, slice_to_vec};

verus! {

/// A packet: the format of its header, its tag and its body.
#[derive(Debug, Clone, PartialEq, Eq)]
pub struct Packet {
    pub version: Version,
    pub tag: Tag,
    pub body: Vec<u8>,
}

/// The mathematical content of a [`Packet`].
pub ghost struct PacketView {
    pub version: Version,
    pub tag: Tag,
    pub body: Seq<u8>,
}

impl View for Packet {
    type V = PacketView;

    open spec fn view(&self) -> PacketView {
        PacketView { version: self.version, tag: self.tag, body: self.body@ }
    }
}

/// The smallest and the largest power of two that a partial-length chunk can
/// have as its size: the first chunk of a body holds at least 512 octets.
pub const MIN_CHUNK_POWER: u8 = 9;

pub const MAX_CHUNK_POWER: u8 = 30;

/// The kind of length of an old-format header for a body of `len` octets:
/// 0 for one octet, 1 for two, 2 for four.
pub open spec fn old_length_type(len: nat) -> u8 {
    if len <= 0xff {
        0
    } else if len <= 0xffff {
        1
    } else {
        2
    }
}

/// The length field of an old-format header for a body of `len` octets.
pub open spec fn old_length_bytes(len: nat) -> Seq<u8>
    recommends
        len <= u32::MAX,
{
    if len <= 0xff {
        seq![len as u8]
    } else if len <= 0xffff {
        u16_be(len as u16)
    } else {
        u32_be(len as u32)
    }
}

impl PacketView {
    /// Whether the packet has an encoding: the body fits a length field, and
    /// a tag above 15 is not asked to fit an old-format header.
    pub open spec fn encodable(self) -> bool {
        self.body.len() <= u32::MAX && (self.version == Version::Old ==> self.tag.id() <= 15)
    }

    /// The octets of the header.
    pub open spec fn header(self) -> Seq<u8> {
        match self.version {
            Version::New => seq![(0xC0 + self.tag.id()) as u8] + length_bytes(self.body.len()),
            Version::Old => seq![
                (0x80 + self.tag.id() * 4 + old_length_type(self.body.len())) as u8,
            ] + old_length_bytes(self.body.len()),
        }
    }

    /// The encoding of the packet with a definite length: header, then body.
    pub open spec fn serialized(self) -> Seq<u8> {
        self.header() + self.body
    }
}

/// The octets after the first header octet of a new-format packet whose body
/// is written in chunks of `2^k` octets: as long as more than one chunk is
/// left, a partial length and a chunk; then a definite length and the rest.
pub open spec fn partial_bytes(body: Seq<u8>, k: nat) -> Seq<u8>
    recommends
        k <= MAX_CHUNK_POWER,
    decreases body.len(),
{
    if body.len() > pow2(k) && pow2(k) > 0 {
        seq![(224 + k) as u8] + body.take(pow2(k) as int) + partial_bytes(
            body.skip(pow2(k) as int),
            k,
        )
    } else {
        length_bytes(body.len()) + body
    }
}

/// The result of reading the length and body of a new-format packet at
/// `pos`: the body, chunks joined, and the position after it. `None` when a
/// length or a chunk is cut short.
pub open spec fn parse_new_body(input: Seq<u8>, pos: int) -> Option<(Seq<u8>, int)>
    decreases input.len() - pos,
{
    if pos < 0 || pos >= input.len() {
        None
    } else if 224 <= input[pos] < 255 {
        let n = pow2((input[pos] - 224) as nat) as int;
        if pos + 1 + n > input.len() {
            None
        } else {
            match parse_new_body(input, pos + 1 + n) {
                None => None,
                Some((rest, end)) => Some((input.subrange(pos + 1, pos + 1 + n) + rest, end)),
            }
        }
    } else {
        match parse_length(input, pos) {
            None => None,
            Some((len, start)) => if start + len > input.len() {
                None
            } else {
                Some((input.subrange(start, start + len), start + len))
            },
        }
    }
}

/// The result of reading the length and body of an old-format packet whose
/// kind of length is `length_type`, at `pos`.
pub open spec fn parse_old_body(input: Seq<u8>, pos: int, length_type: int) -> Option<
    (Seq<u8>, int),
> {
    if pos < 0 || pos > input.len() {
        None
    } else if length_type == 3 {
        Some((input.subrange(pos, input.len() as int), input.len() as int))
    } else {
        let width: int = if length_type == 0 {
            1
        } else if length_type == 1 {
            2
        } else {
            4
        };
        if pos + width > input.len() {
            None
        } else {
            let len: int = if length_type == 0 {
                input[pos] as int
            } else if length_type == 1 {
                u16_at(input, pos) as int
            } else {
                u32_at(input, pos) as int
            };
            if pos + width + len > input.len() {
                None
            } else {
                Some((input.subrange(pos + width, pos + width + len), pos + width + len))
            }
        }
    }
}

/// The result of reading one packet at `pos`: the packet and the position
/// after it. A first octet without bit 7, a tag that is not dispatched, and a
/// length or body that is cut short are malformed; the offset is `pos`.
pub open spec fn parse_packet(input: Seq<u8>, pos: int) -> Result<(PacketView, int), Error> {
    let malformed = Err::<(PacketView, int), Error>(Error::MalformedInput { offset: pos as usize });
    if pos < 0 || pos >= input.len() || input[pos] < 128 {
        malformed
    } else if input[pos] >= 192 {
        match (Tag::of_id((input[pos] - 192) as u8), parse_new_body(input, pos + 1)) {
            (Some(tag), Some((body, end))) => Ok(
                (PacketView { version: Version::New, tag, body }, end),
            ),
            _ => malformed,
        }
    } else {
        match (
            Tag::of_id(((input[pos] - 128) / 4) as u8),
            parse_old_body(input, pos + 1, (input[pos] - 128) % 4),
        ) {
            (Some(tag), Some((body, end))) => Ok(
                (PacketView { version: Version::Old, tag, body }, end),
            ),
            _ => malformed,
        }
    }
}

/// The size of a chunk of power `k`.
fn chunk_size(k: u8) -> (r: usize)
    requires
        k <= MAX_CHUNK_POWER,
    ensures
        r == pow2(k as nat),
        1 <= r <= 0x4000_0000,
{
    proof {
        lemma2_to64();
    }
    let mut r: usize = 1;
    let mut i: u8 = 0;
    while i < k
        invariant
            i <= k <= MAX_CHUNK_POWER,
            r == pow2(i as nat),
            1 <= r <= 0x4000_0000,
            pow2(30) == 0x4000_0000,
        decreases k - i,
    {
        proof {
            lemma_pow2_unfold((i + 1) as nat);
            if i + 1 < 30 {
                lemma_pow2_strictly_increases((i + 1) as nat, 30);
            }
        }
        r = r * 2;
        i += 1;
    }
    r
}

impl Serialize for Packet {
    open spec fn encodable(&self) -> bool {
        self@.encodable()
    }

    open spec fn serialized(&self) -> Seq<u8> {
        self@.serialized()
    }

    /// Appends the packet with a definite length.
    fn to_writer(&self, writer: &mut Vec<u8>) -> (r: Result<(), Error>) {
        let len = self.body.len();
        let tag = self.tag.to_u8();
        if len > 0xffff_ffff {
            return Err(Error::MalformedInput { offset: writer.len() });
        }
        let mut buf: Vec<u8> = Vec::new();
        match self.version {
            Version::New => {
                buf.push(0xC0 + tag);
                write_length(len as u32, &mut buf);
            },
            Version::Old => {
                if tag > 15 {
                    return Err(Error::MalformedInput { offset: writer.len() });
                }
                if len <= 0xff {
                    buf.push(0x80 + tag * 4);
                    buf.push(len as u8);
                } else if len <= 0xffff {
                    buf.push(0x80 + tag * 4 + 1);
                    write_u16_be(len as u16, &mut buf);
                } else {
                    buf.push(0x80 + tag * 4 + 2);
                    write_u32_be(len as u32, &mut buf);
                }
            },
        }
        assert(buf@ =~= self@.header());
        append_bytes(&mut buf, self.body.as_slice());
        append_bytes(writer, buf.as_slice());
        Ok(())
    }
}

impl Packet {
    /// Creates a packet.
    pub fn new(version: Version, tag: Tag, body: Vec<u8>) -> (r: Packet)
        ensures
            r@ == (PacketView { version, tag, body: body@ }),
    {
        Packet { version, tag, body }
    }

    /// Appends the packet in new format with its body in chunks of `2^k`
    /// octets. Refused, with nothing written, unless the tag is one of
    /// literal, compressed or encrypted data and `k` is between 9 and 30.
    pub fn to_writer_partial(&self, k: u8, writer: &mut Vec<u8>) -> (r: Result<(), Error>)
        ensures
            r is Ok <==> self@.tag.allows_partial() && MIN_CHUNK_POWER <= k <= MAX_CHUNK_POWER
                && self@.body.len() <= u32::MAX,
            r is Ok ==> final(writer)@ == old(writer)@ + seq![(0xC0 + self@.tag.id()) as u8]
                + partial_bytes(self@.body, k as nat),
            r is Err ==> final(writer)@ == old(writer)@ && r == Err::<(), Error>(
                Error::MalformedInput { offset: old(writer)@.len() as usize },
            ),
    {
        if !self.tag.supports_partial() || k < MIN_CHUNK_POWER || k > MAX_CHUNK_POWER
            || self.body.len() > 0xffff_ffff {
            return Err(Error::MalformedInput { offset: writer.len() });
        }
        let chunk = chunk_size(k);
        let body = self.body.as_slice();
        let total = body.len();
        writer.push(0xC0 + self.tag.to_u8());
        let ghost head = old(writer)@ + seq![(0xC0 + self@.tag.id()) as u8];
        let mut at: usize = 0;
        assert(body@.skip(0) =~= body@);
        assert(writer@ == head);
        while total - at > chunk
            invariant
                at <= total,
                total == body@.len(),
                total <= u32::MAX,
                chunk == pow2(k as nat),
                chunk >= 1,
                k <= MAX_CHUNK_POWER,
                forall|tail: Seq<u8>|
                    #![trigger writer@ + tail]
                    tail == partial_bytes(body@.skip(at as int), k as nat) ==> writer@ + tail
                        == head + partial_bytes(body@, k as nat),
            decreases total - at,
        {
            let ghost before = writer@;
            let ghost rest = body@.skip(at as int);
            writer.push(224 + k);
            append_bytes(writer, slice_subrange(body, at, at + chunk));
            proof {
                assert(rest.take(chunk as int) =~= body@.subrange(at as int, at + chunk));
                assert(rest.skip(chunk as int) =~= body@.skip(at + chunk));
                assert forall|tail: Seq<u8>|
                    #![trigger writer@ + tail]
                    tail == partial_bytes(body@.skip(at + chunk), k as nat) implies writer@ + tail
                    == head + partial_bytes(body@, k as nat) by {
                    let whole = seq![(224 + k) as u8] + rest.take(chunk as int) + tail;
                    assert(whole == partial_bytes(rest, k as nat));
                    assert(writer@ + tail =~= before + whole);
                }
            }
            at = at + chunk;
        }
        let ghost before = writer@;
        let ghost rest = body@.skip(at as int);
        write_length((total - at) as u32, writer);
        append_bytes(writer, slice_subrange(body, at, total));
        proof {
            assert(body@.subrange(at as int, total as int) =~= rest);
            let tail = length_bytes(rest.len()) + rest;
            assert(tail == partial_bytes(rest, k as nat));
            assert(writer@ =~= before + tail);
            assert(body@.skip(0) =~= body@);
        }
        Ok(())
    }

    /// Reads one packet at `pos` and returns it with the position after it.
    /// The chunks of a body in partial lengths are joined.
    pub fn parse(input: &[u8], pos: usize) -> (r: Result<(Packet, usize), Error>)
        ensures
            match r {
                Ok((p, next)) => parse_packet(input@, pos as int) == Ok::<(PacketView, int), Error>(
                    (p@, next as int),
                ) && pos < next <= input@.len(),
                Err(e) => parse_packet(input@, pos as int) is Err && e == (Error::MalformedInput {
                    offset: pos,
                }),
            },
    {
        let malformed = Err(Error::MalformedInput { offset: pos });
        if pos >= input.len() {
            return malformed;
        }
        let first = input[pos];
        if first < 128 {
            return malformed;
        }
        if first >= 192 {
            let tag = match Tag::from_u8(first - 192) {
                Some(t) => t,
                None => {
                    return malformed;
                },
            };
            match read_new_body(input, pos + 1) {
                Some((body, end)) => Ok((Packet { version: Version::New, tag, body }, end)),
                None => malformed,
            }
        } else {
            let tag = match Tag::from_u8((first - 128) / 4) {
                Some(t) => t,
                None => {
                    return malformed;
                },
            };
            match read_old_body(input, pos + 1, (first - 128) % 4) {
                Some((body, end)) => Ok((Packet { version: Version::Old, tag, body }, end)),
                None => malformed,
            }
        }
    }
}

/// What a reader that has joined the chunks `done` yields when the rest of
/// the body reads as `rest`.
pub open spec fn join_chunks(done: Seq<u8>, rest: Option<(Seq<u8>, int)>) -> Option<
    (Seq<u8>, int),
> {
    match rest {
        Some((more, end)) => Some((done + more, end)),
        None => None,
    }
}

/// Reads the length and body of a new-format packet at `pos`.
fn read_new_body(input: &[u8], pos: usize) -> (r: Option<(Vec<u8>, usize)>)
    ensures
        match r {
            Some((body, end)) => parse_new_body(input@, pos as int) == Some((body@, end as int))
                && pos <= end <= input@.len(),
            None => parse_new_body(input@, pos as int) is None,
        },
{
    let n = input.len();
    let mut body: Vec<u8> = Vec::new();
    let mut at: usize = pos;
    assert(Seq::<u8>::empty() + Seq::<u8>::empty() =~= Seq::<u8>::empty());
    loop
        invariant
            n == input@.len(),
            pos <= at,
            parse_new_body(input@, pos as int) == join_chunks(
                body@,
                parse_new_body(input@, at as int),
            ),
        decreases n - at,
    {
        if at >= n {
            return None;
        }
        let first = input[at];
        if first >= 224 && first < 255 {
            let size = chunk_size(first - 224);
            if n - at - 1 < size {
                return None;
            }
            let ghost done = body@;
            let ghost chunk = input@.subrange(at + 1, at + 1 + size);
            append_bytes(&mut body, slice_subrange(input, at + 1, at + 1 + size));
            proof {
                match parse_new_body(input@, at + 1 + size) {
                    Some((more, end)) => {
                        assert(done + (chunk + more) =~= (done + chunk) + more);
                    },
                    None => {},
                }
            }
            at = at + 1 + size;
        } else {
            let (len, start) = match read_length(input, at) {
                Some(v) => v,
                None => {
                    return None;
                },
            };
            let len: usize = len as usize;
            if n - start < len {
                return None;
            }
            append_bytes(&mut body, slice_subrange(input, start, start + len));
            return Some((body, start + len));
        }
    }
}

/// Reads the length and body of an old-format packet at `pos`.
fn read_old_body(input: &[u8], pos: usize, length_type: u8) -> (r: Option<(Vec<u8>, usize)>)
    requires
        length_type <= 3,
    ensures
        match r {
            Some((body, end)) => parse_old_body(input@, pos as int, length_type as int) == Some(
                (body@, end as int),
            ) && pos <= end <= input@.len(),
            None => parse_old_body(input@, pos as int, length_type as int) is None,
        },
{
    let n = input.len();
    if pos > n {
        return None;
    }
    if length_type == 3 {
        return Some((slice_to_vec(slice_subrange(input, pos, n)), n));
    }
    let width: usize = if length_type == 0 {
        1
    } else if length_type == 1 {
        2
    } else {
        4
    };
    if n - pos < width {
        return None;
    }
    let len: usize = if length_type == 0 {
        input[pos] as usize
    } else if length_type == 1 {
        read_u16_be(input, pos) as usize
    } else {
        read_u32_be(input, pos) as usize
    };
    if n - pos - width < len {
        return None;
    }
    Some((slice_to_vec(slice_subrange(input, pos + width, pos + width + len)), pos + width + len))
}

/// A body written in chunks is read back whole, whatever surrounds it.
pub proof fn lemma_partial_body_roundtrip(pre: Seq<u8>, body: Seq<u8>, k: nat, rest: Seq<u8>)
    requires
        k <= MAX_CHUNK_POWER,
        body.len() <= u32::MAX,
    ensures
        parse_new_body(pre + partial_bytes(body, k) + rest, pre.len() as int) == Some(
            (body, (pre.len() + partial_bytes(body, k).len()) as int),
        ),
    decreases body.len(),
{
    let input = pre + partial_bytes(body, k) + rest;
    let pos = pre.len() as int;
    let size = pow2(k);
    vstd::arithmetic::power2::lemma_pow2_pos(k);
    if body.len() > size {
        let chunk = body.take(size as int);
        let remaining = body.skip(size as int);
        let tail = partial_bytes(remaining, k);
        let pre2 = pre + seq![(224 + k) as u8] + chunk;
        assert(input =~= pre2 + tail + rest);
        assert(input[pos] == (224 + k) as u8);
        assert(input.subrange(pos + 1, pos + 1 + size) =~= chunk);
        lemma_partial_body_roundtrip(pre2, remaining, k, rest);
        assert(chunk + remaining =~= body);
    } else {
        let field = length_bytes(body.len());
        assert(input =~= pre + field + (body + rest));
        lemma_length_roundtrip(pre, body.len(), body + rest);
        lemma_length_first_octet(body.len());
        assert(input[pos] == field[0]);
        let start = pos + field.len();
        assert(input.subrange(start, start + body.len()) =~= body);
    }
}

/// The first octet of a definite length is never a partial length.
pub proof fn lemma_length_first_octet(len: nat)
    requires
        len <= u32::MAX,
    ensures
        length_bytes(len)[0] < 224 || length_bytes(len)[0] == 255,
{
}

/// A packet that has an encoding is read back from it, body octet for octet,
/// whatever surrounds the encoding, and the reader stops right after it.
pub proof fn lemma_packet_roundtrip(pre: Seq<u8>, p: PacketView, rest: Seq<u8>)
    requires
        p.encodable(),
    ensures
        parse_packet(pre + p.serialized() + rest, pre.len() as int) == Ok::<
            (PacketView, int),
            Error,
        >((p, (pre.len() + p.serialized().len()) as int)),
{
    let input = pre + p.serialized() + rest;
    let pos = pre.len() as int;
    let len = p.body.len();
    lemma_tag_id_roundtrip(p.tag);
    assert(input[pos] == p.header()[0]);
    match p.version {
        Version::New => {
            let pre2 = pre + seq![(0xC0 + p.tag.id()) as u8];
            let field = length_bytes(len);
            assert(input =~= pre2 + field + (p.body + rest));
            lemma_length_roundtrip(pre2, len, p.body + rest);
            lemma_length_first_octet(len);
            assert(input[pos + 1] == field[0]);
            let start = pos + 1 + field.len();
            assert(input.subrange(start, start + len) =~= p.body);
        },
        Version::Old => {
            let field = old_length_bytes(len);
            let start = pos + 1 + field.len();
            assert(input.subrange(pos + 1, start) =~= field);
            assert(input.subrange(start, start + len) =~= p.body);
            if len <= 0xff {
                assert(input[pos + 1] == field[0]);
            } else if len <= 0xffff {
                lemma_u16_be_roundtrip(len as u16, input, pos + 1);
            } else {
                lemma_u32_be_roundtrip(len as u32, input, pos + 1);
            }
        },
    }
}

/// A packet written with its body in chunks is read back as the packet in new
/// format with the whole body.
pub proof fn lemma_partial_packet_roundtrip(
    pre: Seq<u8>,
    tag: Tag,
    body: Seq<u8>,
    k: nat,
    rest: Seq<u8>,
)
    requires
        k <= MAX_CHUNK_POWER,
        body.len() <= u32::MAX,
    ensures
        parse_packet(
            pre + seq![(0xC0 + tag.id()) as u8] + partial_bytes(body, k) + rest,
            pre.len() as int,
        ) == Ok::<(PacketView, int), Error>(
            (
                PacketView { version: Version::New, tag, body },
                (pre.len() + 1 + partial_bytes(body, k).len()) as int,
            ),
        ),
{
    let first = seq![(0xC0 + tag.id()) as u8];
    let input = pre + first + partial_bytes(body, k) + rest;
    lemma_tag_id_roundtrip(tag);
    assert(input[pre.len() as int] == (0xC0 + tag.id()) as u8);
    lemma_partial_body_roundtrip(pre + first, body, k, rest);
}

/// A body that is read from a new-format packet is no longer than the octets
/// that were read, and the reader stays within the input.
pub proof fn lemma_new_body_bounds(input: Seq<u8>, pos: int)
    requires
        parse_new_body(input, pos) is Some,
    ensures
        match parse_new_body(input, pos) {
            Some((body, end)) => pos < end <= input.len() && body.len() <= end - pos,
            None => false,
        },
    decreases input.len() - pos,
{
    if 224 <= input[pos] < 255 {
        let n = pow2((input[pos] - 224) as nat) as int;
        lemma_new_body_bounds(input, pos + 1 + n);
    }
}

/// A packet that is read has an encoding of its own: its body is no longer
/// than the input, and a packet in old format has a tag that fits the old
/// header. The reader moves forward and stays within the input.
pub proof fn lemma_parsed_packet_bounds(input: Seq<u8>, pos: int)
    requires
        parse_packet(input, pos) is Ok,
    ensures
        match parse_packet(input, pos) {
            Ok((p, next)) => pos < next <= input.len() && p.body.len() <= input.len() && (p.version
                == Version::Old ==> p.tag.id() <= 15),
            Err(_) => false,
        },
{
    if input[pos] >= 192 {
        lemma_new_body_bounds(input, pos + 1);
    } else {
        crate::types::tag::lemma_tag_of_id_sound(((input[pos] - 128) / 4) as u8);
    }
}

/// The encodings, with definite lengths, of the packets that are read from
/// `pos` on, one after the other, up to the end of the input or the first
/// packet that cannot be read.
pub open spec fn reemit(input: Seq<u8>, pos: int) -> Seq<u8>
    decreases input.len() - pos,
{
    if pos < 0 || pos >= input.len() {
        Seq::empty()
    } else {
        match parse_packet(input, pos) {
            Err(_) => Seq::empty(),
            Ok((p, next)) => if next <= pos || next > input.len() {
                Seq::empty()
            } else {
                p.serialized() + reemit(input, next)
            },
        }
    }
}

} // verus!
