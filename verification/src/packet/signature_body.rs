//! The body of a signature packet: its layout, its writer and its reader.
//!
//! A version 4 signature body holds the version octet, the signature type,
//! the public-key and hash algorithm, the hashed subpacket area behind its
//! two-octet length, the unhashed area behind its own, the first two octets
//! of the digest, and the integers of the signature as MPIs up to the end of
//! the body. The writer emits the hashed area exactly as the signature keeps
//! it, so that what was hashed is what is written.
//!
//! A version 3 signature body holds the version octet, the octet 5, the
//! signature type, the creation time in four octets, the key id of the
//! issuer, the two algorithms, the digest prefix and the integers. A body of
//! version 2 is not read.

use crate::crypto::hash::{lemma_hash_id_roundtrip, HashAlgorithm};
use crate::crypto::public_key::{lemma_public_key_algorithm_id_roundtrip, PublicKeyAlgorithm};
use crate::errors::Error;
use crate::packet::length::{
    lemma_u16_be_roundtrip, lemma_u32_be_roundtrip, read_u16_be, read_u32_be, u16_at, u32_at,
};
use crate::packet::signature::{
    lemma_signature_type_id_roundtrip, signature_data, Signature, SignatureConfig,
    SignatureConfigView, SignatureType, SignatureVersion, SignatureView, SIGNATURE_VERSION,
};
use crate::packet::subpacket::{
    lemma_parse_subpackets_roundtrip, parse_subpackets, read_subpackets, subpackets_encodable,
    subpackets_serialized, subpackets_view, write_subpackets, SubpacketView, Subpacket,
};
use crate::ser::Serialize;
use crate::types::key_id::KeyId;
use crate::types::key_traits::mpis_view;
use crate::util::{
    append_bytes, bit_size_spec, is_stripped, lemma_parse_mpi_bytes, mpi_bytes, parse_mpi, read_mpi,
    u16_be, u32_be, write_mpi, write_u16_be, write_u32_be, MAX_MPI_BITS,
};
use vstd::prelude::*;
use vstd::slice::{slice_subrange, slice_to_vec};

verus! {

/// The encodings of the integers of a list as MPIs, one after the other.
pub open spec fn mpis_serialized(list: Seq<Seq<u8>>) -> Seq<u8>
    decreases list.len(),
{
    if list.len() == 0 {
        Seq::empty()
    } else {
        mpi_bytes(list[0]) + mpis_serialized(list.drop_first())
    }
}

/// Whether the bit count of every integer of a list fits an MPI length field.
pub open spec fn mpis_encodable(list: Seq<Seq<u8>>) -> bool {
    forall|i: int| 0 <= i < list.len() ==> bit_size_spec(#[trigger] list[i]) <= MAX_MPI_BITS
}

/// The result of reading MPIs from `pos` to the end of the input.
pub open spec fn parse_mpis(input: Seq<u8>, pos: int) -> Result<Seq<Seq<u8>>, Error>
    decreases input.len() - pos,
{
    if pos >= input.len() {
        Ok(Seq::empty())
    } else {
        match parse_mpi(input, pos) {
            None => Err(Error::MalformedInput { offset: pos as usize }),
            Some((m, next)) => if next <= pos || next > input.len() {
                Err(Error::MalformedInput { offset: pos as usize })
            } else {
                match parse_mpis(input, next) {
                    Err(e) => Err(e),
                    Ok(rest) => Ok(seq![m] + rest),
                }
            },
        }
    }
}

/// The result of reading a subpacket area at `at`: the two-octet length of
/// the area, then the area. Yields the octets of the area, its subpackets and
/// the position after it. The offset of a fault within the area is counted
/// from the start of the body.
#[verifier::opaque]
pub open spec fn parse_area(body: Seq<u8>, at: int) -> Result<
    (Seq<u8>, Seq<SubpacketView>, int),
    Error,
> {
    if at < 0 || at + 2 > body.len() || at + 2 + u16_at(body, at) > body.len() {
        Err(Error::MalformedInput { offset: at as usize })
    } else {
        let area = body.subrange(at + 2, at + 2 + u16_at(body, at));
        match parse_subpackets(area, 0) {
            Err(e) => Err(e.spec_shifted((at + 2) as usize)),
            Ok(list) => Ok((area, list, at + 2 + u16_at(body, at))),
        }
    }
}

/// The type and algorithms that the first four octets of a version 4
/// signature body state. A body of version 2 is unsupported and one of any
/// other version is malformed; an unknown type is malformed; an unknown
/// algorithm is unsupported.
#[verifier::opaque]
pub open spec fn parse_signature_head(body: Seq<u8>) -> Result<
    (SignatureType, PublicKeyAlgorithm, HashAlgorithm),
    Error,
> {
    if body.len() < 4 {
        Err(Error::MalformedInput { offset: 0 })
    } else if body[0] == 2 {
        Err(Error::UnsupportedAlgorithm)
    } else if body[0] != SIGNATURE_VERSION {
        Err(Error::MalformedInput { offset: 0 })
    } else {
        match (
            SignatureType::of_id(body[1]),
            PublicKeyAlgorithm::of_id(body[2]),
            HashAlgorithm::of_id(body[3]),
        ) {
            (Some(typ), Some(pub_alg), Some(hash_alg)) => Ok((typ, pub_alg, hash_alg)),
            (None, _, _) => Err(Error::MalformedInput { offset: 1 }),
            _ => Err(Error::UnsupportedAlgorithm),
        }
    }
}

/// The signature that a packet body stands for: a version 3 signature when
/// the body starts with the octet 3, a version 4 signature otherwise.
pub open spec fn parse_signature(body: Seq<u8>) -> Result<SignatureView, Error> {
    if body.len() > 0 && body[0] == 3 {
        parse_signature_v3(body)
    } else {
        parse_signature_v4(body)
    }
}

/// The version 3 signature that a packet body stands for: the version, the
/// octet 5, the type, the creation time, the key id of the issuer, the two
/// algorithms, the digest prefix and the integers.
#[verifier::opaque]
pub open spec fn parse_signature_v3(body: Seq<u8>) -> Result<SignatureView, Error> {
    if body.len() < 19 {
        Err(Error::MalformedInput { offset: 0 })
    } else if body[1] != 5 {
        Err(Error::MalformedInput { offset: 1 })
    } else {
        match (
            SignatureType::of_id(body[2]),
            PublicKeyAlgorithm::of_id(body[15]),
            HashAlgorithm::of_id(body[16]),
        ) {
            (Some(typ), Some(pub_alg), Some(hash_alg)) => match parse_mpis(body, 19) {
                Err(e) => Err(e),
                Ok(signature) => Ok(
                    SignatureView {
                        config: SignatureConfigView {
                            version: SignatureVersion::V3,
                            typ,
                            pub_alg,
                            hash_alg,
                            unhashed: Seq::empty(),
                            hashed: Seq::empty(),
                            created: Some(u32_at(body, 3) as u32),
                            issuer: Some(body.subrange(7, 15)),
                        },
                        hashed_area: Seq::empty(),
                        signed_hash_value: body.subrange(17, 19),
                        signature,
                    },
                ),
            },
            (None, _, _) => Err(Error::MalformedInput { offset: 2 }),
            _ => Err(Error::UnsupportedAlgorithm),
        }
    }
}

/// The version 4 signature that a packet body stands for.
pub open spec fn parse_signature_v4(body: Seq<u8>) -> Result<SignatureView, Error> {
    match parse_signature_head(body) {
        Err(e) => Err(e),
        Ok((typ, pub_alg, hash_alg)) => match parse_area(body, 4) {
            Err(e) => Err(e),
            Ok((hashed_area, hashed, p)) => match parse_area(body, p) {
                Err(e) => Err(e),
                Ok((_, unhashed, q)) => if q + 2 > body.len() {
                    Err(Error::MalformedInput { offset: q as usize })
                } else {
                    match parse_mpis(body, q + 2) {
                        Err(e) => Err(e),
                        Ok(signature) => Ok(
                            SignatureView {
                                config: SignatureConfigView {
                                    version: SignatureVersion::V4,
                                    typ,
                                    pub_alg,
                                    hash_alg,
                                    unhashed,
                                    hashed,
                                    created: None,
                                    issuer: None,
                                },
                                hashed_area,
                                signed_hash_value: body.subrange(q, q + 2),
                                signature,
                            },
                        ),
                    }
                },
            },
        },
    }
}

impl SignatureView {
    /// Whether the signature has an encoding: its fixed fields fit its
    /// version, the digest prefix is two octets and every integer fits an
    /// MPI; in version 4 both areas fit their length fields and every
    /// unhashed subpacket has an encoding; in version 3 there are no
    /// subpackets and the key id of the issuer is eight octets.
    pub open spec fn encodable(self) -> bool {
        &&& self.config.well_formed()
        &&& self.signed_hash_value.len() == 2
        &&& mpis_encodable(self.signature)
        &&& match self.config.version {
            SignatureVersion::V4 => {
                &&& self.hashed_area.len() <= 0xffff
                &&& subpackets_encodable(self.config.unhashed)
                &&& subpackets_serialized(self.config.unhashed).len() <= 0xffff
            },
            SignatureVersion::V3 => {
                &&& self.hashed_area.len() == 0
                &&& self.config.hashed.len() == 0
                &&& self.config.unhashed.len() == 0
                &&& self.config.issuer matches Some(id) && id.len() == 8
            },
        }
    }

    /// The packet body of a version 4 signature.
    pub open spec fn serialized_v4(self) -> Seq<u8> {
        signature_data(self.config.typ, self.config.pub_alg, self.config.hash_alg, self.hashed_area)
            + u16_be(subpackets_serialized(self.config.unhashed).len() as u16)
            + subpackets_serialized(self.config.unhashed) + self.signed_hash_value
            + mpis_serialized(self.signature)
    }

    /// The packet body of a version 3 signature.
    pub open spec fn serialized_v3(self) -> Seq<u8> {
        seq![3u8, 5u8, self.config.typ.id()] + u32_be(
            match self.config.created {
                Some(t) => t,
                None => 0,
            },
        ) + (match self.config.issuer {
            Some(id) => id,
            None => Seq::empty(),
        }) + seq![self.config.pub_alg.id(), self.config.hash_alg.id()] + self.signed_hash_value
            + mpis_serialized(self.signature)
    }

    /// The packet body of the signature.
    pub open spec fn serialized(self) -> Seq<u8> {
        match self.config.version {
            SignatureVersion::V3 => self.serialized_v3(),
            SignatureVersion::V4 => self.serialized_v4(),
        }
    }
}

/// The encoding of a list with one more integer at its end is the encoding of
/// the list followed by that of the integer.
proof fn lemma_mpis_serialized_push(list: Seq<Seq<u8>>, last: Seq<u8>)
    ensures
        mpis_serialized(list.push(last)) == mpis_serialized(list) + mpi_bytes(last),
    decreases list.len(),
{
    let all = list.push(last);
    if list.len() == 0 {
        assert(all.drop_first() =~= list);
        assert(mpis_serialized(list) =~= Seq::<u8>::empty());
        assert(all[0] == last);
        assert(mpis_serialized(all) =~= mpi_bytes(last));
    } else {
        assert(all.drop_first() =~= list.drop_first().push(last));
        lemma_mpis_serialized_push(list.drop_first(), last);
        assert(mpis_serialized(all) =~= mpis_serialized(list) + mpi_bytes(last));
    }
}

/// Writes the integers of `list` as MPIs into `buf`; reports whether all of
/// them could be encoded.
fn write_mpis(list: &Vec<Vec<u8>>, buf: &mut Vec<u8>) -> (ok: bool)
    ensures
        ok <==> mpis_encodable(mpis_view(list@)),
        ok ==> final(buf)@ == old(buf)@ + mpis_serialized(mpis_view(list@)),
{
    let ghost views = mpis_view(list@);
    let ghost start = buf@;
    let mut i: usize = 0;
    assert(mpis_serialized(views.take(0)) =~= Seq::<u8>::empty());
    while i < list.len()
        invariant
            i <= list.len(),
            views == mpis_view(list@),
            forall|j: int| 0 <= j < i ==> bit_size_spec(#[trigger] views[j]) <= MAX_MPI_BITS,
            buf@ == start + mpis_serialized(views.take(i as int)),
        decreases list.len() - i,
    {
        if write_mpi(list[i].as_slice(), buf).is_err() {
            assert(bit_size_spec(views[i as int]) > MAX_MPI_BITS);
            return false;
        }
        proof {
            lemma_mpis_serialized_push(views.take(i as int), views[i as int]);
            assert(views.take(i as int).push(views[i as int]) =~= views.take(i + 1));
            assert(buf@ =~= start + mpis_serialized(views.take(i + 1)));
        }
        i += 1;
    }
    assert(views.take(i as int) =~= views);
    true
}

impl Serialize for Signature {
    open spec fn encodable(&self) -> bool {
        self@.encodable()
    }

    open spec fn serialized(&self) -> Seq<u8> {
        self@.serialized()
    }

    /// Appends the packet body of the signature.
    fn to_writer(&self, writer: &mut Vec<u8>) -> (r: Result<(), Error>) {
        if !self.config.is_well_formed() {
            return Err(Error::MalformedInput { offset: writer.len() });
        }
        match self.config.version {
            SignatureVersion::V3 => {
                return self.to_writer_v3(writer);
            },
            SignatureVersion::V4 => {},
        }
        if self.hashed_area.len() > 0xffff {
            return Err(Error::MalformedInput { offset: writer.len() });
        }
        let mut unhashed: Vec<u8> = Vec::new();
        if write_subpackets(&self.config.unhashed_subpackets, &mut unhashed).is_err() {
            return Err(Error::MalformedInput { offset: writer.len() });
        }
        assert(unhashed@ =~= subpackets_serialized(self@.config.unhashed));
        if unhashed.len() > 0xffff {
            return Err(Error::MalformedInput { offset: writer.len() });
        }
        let mut buf: Vec<u8> = Vec::new();
        buf.push(SIGNATURE_VERSION);
        buf.push(self.config.typ.to_u8());
        buf.push(self.config.pub_alg.to_u8());
        buf.push(self.config.hash_alg.to_u8());
        write_u16_be(self.hashed_area.len() as u16, &mut buf);
        append_bytes(&mut buf, self.hashed_area.as_slice());
        assert(buf@ =~= signature_data(
            self@.config.typ,
            self@.config.pub_alg,
            self@.config.hash_alg,
            self@.hashed_area,
        ));
        write_u16_be(unhashed.len() as u16, &mut buf);
        append_bytes(&mut buf, unhashed.as_slice());
        append_bytes(&mut buf, self.signed_hash_value.as_slice());
        if !write_mpis(&self.signature, &mut buf) {
            return Err(Error::MalformedInput { offset: writer.len() });
        }
        assert(buf@ =~= self@.serialized());
        append_bytes(writer, buf.as_slice());
        Ok(())
    }
}

impl Signature {
    /// Appends the packet body of a version 3 signature.
    fn to_writer_v3(&self, writer: &mut Vec<u8>) -> (r: Result<(), Error>)
        requires
            self@.config.version == SignatureVersion::V3,
            self@.config.well_formed(),
        ensures
            r is Ok <==> self@.encodable(),
            r is Ok ==> final(writer)@ == old(writer)@ + self@.serialized(),
            r is Err ==> final(writer)@ == old(writer)@ && r == Err::<(), Error>(
                Error::MalformedInput { offset: old(writer)@.len() as usize },
            ),
    {
        let (created, issuer) = match (self.config.created, self.config.issuer) {
            (Some(t), Some(id)) => (t, id),
            _ => {
                return Err(Error::MalformedInput { offset: writer.len() });
            },
        };
        proof {
            issuer.lemma_len();
        }
        if self.hashed_area.len() != 0 || self.config.hashed_subpackets.len() != 0
            || self.config.unhashed_subpackets.len() != 0 {
            return Err(Error::MalformedInput { offset: writer.len() });
        }
        let mut buf: Vec<u8> = Vec::new();
        buf.push(3);
        buf.push(5);
        buf.push(self.config.typ.to_u8());
        write_u32_be(created, &mut buf);
        let id = issuer.to_vec();
        append_bytes(&mut buf, id.as_slice());
        buf.push(self.config.pub_alg.to_u8());
        buf.push(self.config.hash_alg.to_u8());
        append_bytes(&mut buf, self.signed_hash_value.as_slice());
        let ghost head = buf@;
        if !write_mpis(&self.signature, &mut buf) {
            return Err(Error::MalformedInput { offset: writer.len() });
        }
        assert(buf@ =~= self@.serialized_v3());
        append_bytes(writer, buf.as_slice());
        Ok(())
    }
}

/// What a reader that has read the integers `done` yields when the rest of
/// the input reads as `rest`.
pub open spec fn prepend_mpis(done: Seq<Seq<u8>>, rest: Result<Seq<Seq<u8>>, Error>) -> Result<
    Seq<Seq<u8>>,
    Error,
> {
    match rest {
        Ok(more) => Ok(done + more),
        Err(e) => Err(e),
    }
}

/// An integer that is read from an MPI has no leading zero octet, and the
/// reader moves forward.
pub proof fn lemma_parse_mpi_stripped(input: Seq<u8>, pos: int)
    requires
        parse_mpi(input, pos) is Some,
    ensures
        match parse_mpi(input, pos) {
            Some((m, next)) => is_stripped(m) && next >= pos + 2,
            None => false,
        },
{
    reveal(parse_mpi);
    let bits = input[pos] as int * 256 + input[pos + 1] as int;
    let n = (bits + 7) / 8;
    let m = input.subrange(pos + 2, pos + 2 + n);
    if n > 0 {
        assert(m[0] == input[pos + 2]);
    }
}

/// Reads MPIs from `pos` to the end of `input`.
fn read_mpis(input: &[u8], pos: usize) -> (r: Result<Vec<Vec<u8>>, Error>)
    ensures
        match r {
            Ok(list) => parse_mpis(input@, pos as int) == Ok::<Seq<Seq<u8>>, Error>(
                mpis_view(list@),
            ) && forall|i: int| 0 <= i < list@.len() ==> is_stripped(#[trigger] mpis_view(list@)[i]),
            Err(e) => parse_mpis(input@, pos as int) == Err::<Seq<Seq<u8>>, Error>(e),
        },
{
    let mut list: Vec<Vec<u8>> = Vec::new();
    let mut at: usize = pos;
    assert(mpis_view(list@) =~= Seq::<Seq<u8>>::empty());
    assert(prepend_mpis(Seq::<Seq<u8>>::empty(), parse_mpis(input@, pos as int)) == parse_mpis(
        input@,
        pos as int,
    )) by {
        match parse_mpis(input@, pos as int) {
            Ok(more) => {
                assert(Seq::<Seq<u8>>::empty() + more =~= more);
            },
            Err(_) => {},
        }
    }
    while at < input.len()
        invariant
            pos <= at,
            parse_mpis(input@, pos as int) == prepend_mpis(
                mpis_view(list@),
                parse_mpis(input@, at as int),
            ),
            forall|i: int| 0 <= i < list@.len() ==> is_stripped(#[trigger] mpis_view(list@)[i]),
        decreases input@.len() - at,
    {
        match read_mpi(input, at) {
            Ok((m, next)) => {
                proof {
                    lemma_parse_mpi_stripped(input@, at as int);
                    let done = mpis_view(list@);
                    assert(mpis_view(list@.push(m)) =~= done.push(m@));
                    match parse_mpis(input@, next as int) {
                        Ok(more) => {
                            assert(done + (seq![m@] + more) =~= done.push(m@) + more);
                        },
                        Err(_) => {},
                    }
                }
                list.push(m);
                at = next;
            },
            Err(e) => {
                return Err(e);
            },
        }
    }
    proof {
        assert(mpis_view(list@) + Seq::<Seq<u8>>::empty() =~= mpis_view(list@));
    }
    Ok(list)
}

/// Reads a subpacket area at `at`.
fn read_area(body: &[u8], at: usize) -> (r: Result<(Vec<u8>, Vec<Subpacket>, usize), Error>)
    ensures
        match r {
            Ok((area, list, next)) => parse_area(body@, at as int) == Ok::<
                (Seq<u8>, Seq<SubpacketView>, int),
                Error,
            >((area@, subpackets_view(list@), next as int)) && parse_subpackets(area@, 0) == Ok::<
                Seq<SubpacketView>,
                Error,
            >(subpackets_view(list@)) && at + 2 <= next <= body@.len(),
            Err(e) => parse_area(body@, at as int) == Err::<
                (Seq<u8>, Seq<SubpacketView>, int),
                Error,
            >(e),
        },
{
    reveal(parse_area);
    let n = body.len();
    if at > n || n - at < 2 {
        return Err(Error::MalformedInput { offset: at });
    }
    let len: usize = read_u16_be(body, at) as usize;
    if n - at - 2 < len {
        return Err(Error::MalformedInput { offset: at });
    }
    let area = slice_subrange(body, at + 2, at + 2 + len);
    match read_subpackets(area, 0) {
        Ok(list) => Ok((slice_to_vec(area), list, at + 2 + len)),
        Err(e) => Err(e.shifted(at + 2)),
    }
}

/// Reads the type and algorithms of a signature body.
fn read_signature_head(body: &[u8]) -> (r: Result<
    (SignatureType, PublicKeyAlgorithm, HashAlgorithm),
    Error,
>)
    ensures
        r == parse_signature_head(body@),
{
    reveal(parse_signature_head);
    if body.len() < 4 {
        return Err(Error::MalformedInput { offset: 0 });
    }
    if body[0] == 2 {
        return Err(Error::UnsupportedAlgorithm);
    }
    if body[0] != SIGNATURE_VERSION {
        return Err(Error::MalformedInput { offset: 0 });
    }
    match (
        SignatureType::from_u8(body[1]),
        PublicKeyAlgorithm::from_u8(body[2]),
        HashAlgorithm::from_u8(body[3]),
    ) {
        (Some(typ), Some(pub_alg), Some(hash_alg)) => Ok((typ, pub_alg, hash_alg)),
        (None, _, _) => Err(Error::MalformedInput { offset: 1 }),
        _ => Err(Error::UnsupportedAlgorithm),
    }
}

impl Signature {
    /// Reads a signature from the packet body `body`. The hashed area is
    /// kept octet for octet beside the subpackets that were read from it.
    pub fn from_slice(body: &[u8]) -> (r: Result<Signature, Error>)
        ensures
            match r {
                Ok(sig) => parse_signature(body@) == Ok::<SignatureView, Error>(sig@)
                    && sig@.well_formed(),
                Err(e) => parse_signature(body@) == Err::<SignatureView, Error>(e),
            },
    {
        if body.len() > 0 && body[0] == 3 {
            return Signature::from_slice_v3(body);
        }
        let (typ, pub_alg, hash_alg) = match read_signature_head(body) {
            Ok(v) => v,
            Err(e) => {
                return Err(e);
            },
        };
        let (hashed_area, hashed_subpackets, p) = match read_area(body, 4) {
            Ok(v) => v,
            Err(e) => {
                return Err(e);
            },
        };
        let (_, unhashed_subpackets, q) = match read_area(body, p) {
            Ok(v) => v,
            Err(e) => {
                return Err(e);
            },
        };
        if body.len() - q < 2 {
            return Err(Error::MalformedInput { offset: q });
        }
        let signed_hash_value = [body[q], body[q + 1]];
        assert(signed_hash_value@ =~= body@.subrange(q as int, q + 2));
        let signature = match read_mpis(body, q + 2) {
            Ok(v) => v,
            Err(e) => {
                return Err(e);
            },
        };
        Ok(
            Signature {
                config: SignatureConfig {
                    version: SignatureVersion::V4,
                    typ,
                    pub_alg,
                    hash_alg,
                    unhashed_subpackets,
                    hashed_subpackets,
                    created: None,
                    issuer: None,
                },
                hashed_area,
                signed_hash_value,
                signature,
            },
        )
    }

    /// Reads a version 3 signature from the packet body `body`.
    fn from_slice_v3(body: &[u8]) -> (r: Result<Signature, Error>)
        ensures
            match r {
                Ok(sig) => parse_signature_v3(body@) == Ok::<SignatureView, Error>(sig@)
                    && sig@.well_formed(),
                Err(e) => parse_signature_v3(body@) == Err::<SignatureView, Error>(e),
            },
    {
        reveal(parse_signature_v3);
        if body.len() < 19 {
            return Err(Error::MalformedInput { offset: 0 });
        }
        if body[1] != 5 {
            return Err(Error::MalformedInput { offset: 1 });
        }
        let (typ, pub_alg, hash_alg) = match (
            SignatureType::from_u8(body[2]),
            PublicKeyAlgorithm::from_u8(body[15]),
            HashAlgorithm::from_u8(body[16]),
        ) {
            (Some(typ), Some(pub_alg), Some(hash_alg)) => (typ, pub_alg, hash_alg),
            (None, _, _) => {
                return Err(Error::MalformedInput { offset: 2 });
            },
            _ => {
                return Err(Error::UnsupportedAlgorithm);
            },
        };
        let created = read_u32_be(body, 3);
        let issuer = match KeyId::from_slice(slice_subrange(body, 7, 15)) {
            Ok(id) => id,
            Err(_) => {
                return Err(Error::MalformedInput { offset: 0 });
            },
        };
        let signed_hash_value = [body[17], body[18]];
        assert(signed_hash_value@ =~= body@.subrange(17, 19));
        let signature = match read_mpis(body, 19) {
            Ok(v) => v,
            Err(e) => {
                return Err(e);
            },
        };
        let sig = Signature {
            config: SignatureConfig::new_v3(typ, pub_alg, hash_alg, created, issuer),
            hashed_area: Vec::new(),
            signed_hash_value,
            signature,
        };
        Ok(sig)
    }
}

/// A list of integers without leading zero octets is read back from the
/// encoding of the list.
pub proof fn lemma_parse_mpis_roundtrip(pre: Seq<u8>, list: Seq<Seq<u8>>)
    requires
        mpis_encodable(list),
        forall|i: int| 0 <= i < list.len() ==> is_stripped(#[trigger] list[i]),
    ensures
        parse_mpis(pre + mpis_serialized(list), pre.len() as int) == Ok::<Seq<Seq<u8>>, Error>(
            list,
        ),
    decreases list.len(),
{
    let input = pre + mpis_serialized(list);
    let pos = pre.len() as int;
    if list.len() == 0 {
        assert(input =~= pre);
        assert(list =~= Seq::<Seq<u8>>::empty());
    } else {
        let first = list[0];
        let others = list.drop_first();
        let tail = mpis_serialized(others);
        assert(input =~= pre + mpi_bytes(first) + tail);
        lemma_parse_mpi_bytes(pre, first, tail);
        let pre2 = pre + mpi_bytes(first);
        let next = pre2.len() as int;
        assert(input =~= pre2 + tail);
        assert forall|i: int| 0 <= i < others.len() implies is_stripped(#[trigger] others[i])
            && bit_size_spec(others[i]) <= MAX_MPI_BITS by {
            assert(others[i] == list[i + 1]);
        }
        lemma_parse_mpis_roundtrip(pre2, others);
        assert(parse_mpi(input, pos) == Some((first, next)));
        assert(parse_mpis(input, next) == Ok::<Seq<Seq<u8>>, Error>(others));
        assert(next > pos);
        assert(next <= input.len());
        assert(pos < input.len());
        assert(seq![first] + others =~= list);
    }
}

/// A subpacket area is read back where it stands in a body: two octets of
/// length, then octets that read as the subpackets `list`.
proof fn lemma_parse_area_at(body: Seq<u8>, at: int, area: Seq<u8>, list: Seq<SubpacketView>)
    requires
        0 <= at,
        area.len() <= 0xffff,
        at + 2 + area.len() <= body.len(),
        body.subrange(at, at + 2) == u16_be(area.len() as u16),
        body.subrange(at + 2, at + 2 + area.len()) == area,
        parse_subpackets(area, 0) == Ok::<Seq<SubpacketView>, Error>(list),
    ensures
        parse_area(body, at) == Ok::<(Seq<u8>, Seq<SubpacketView>, int), Error>(
            (area, list, at + 2 + area.len()),
        ),
{
    reveal(parse_area);
    lemma_u16_be_roundtrip(area.len() as u16, body, at);
}

/// A well-formed signature that has an encoding is read back from its packet
/// body: parts, hashed area and integers, octet for octet.
pub proof fn lemma_signature_roundtrip(sig: SignatureView)
    requires
        sig.well_formed(),
        sig.encodable(),
    ensures
        parse_signature(sig.serialized()) == Ok::<SignatureView, Error>(sig),
{
    match sig.config.version {
        SignatureVersion::V3 => {
            lemma_signature_v3_roundtrip(sig);
        },
        SignatureVersion::V4 => {
            lemma_signature_v4_roundtrip(sig);
        },
    }
}

/// The round trip of a version 3 signature.
proof fn lemma_signature_v3_roundtrip(sig: SignatureView)
    requires
        sig.config.version == SignatureVersion::V3,
        sig.well_formed(),
        sig.encodable(),
    ensures
        parse_signature(sig.serialized()) == Ok::<SignatureView, Error>(sig),
{
    reveal(parse_signature_v3);
    let body = sig.serialized_v3();
    let c = sig.config;
    let created = c.created->0;
    let issuer = c.issuer->0;
    let head = seq![3u8, 5u8, c.typ.id()] + u32_be(created) + issuer + seq![
        c.pub_alg.id(),
        c.hash_alg.id(),
    ] + sig.signed_hash_value;
    let mb = mpis_serialized(sig.signature);
    assert(body =~= head + mb);
    assert(head.len() == 19);
    assert(body[0] == 3 && body[1] == 5 && body[2] == c.typ.id());
    assert(body[15] == c.pub_alg.id() && body[16] == c.hash_alg.id());
    assert(body.subrange(3, 7) =~= u32_be(created));
    lemma_u32_be_roundtrip(created, body, 3);
    assert(body.subrange(7, 15) =~= issuer);
    assert(body.subrange(17, 19) =~= sig.signed_hash_value);
    lemma_signature_type_id_roundtrip(c.typ);
    lemma_public_key_algorithm_id_roundtrip(c.pub_alg);
    lemma_hash_id_roundtrip(c.hash_alg);
    lemma_parse_mpis_roundtrip(head, sig.signature);
    assert(c.hashed =~= Seq::<SubpacketView>::empty());
    assert(c.unhashed =~= Seq::<SubpacketView>::empty());
    assert(sig.hashed_area =~= Seq::<u8>::empty());
}

/// The round trip of a version 4 signature.
proof fn lemma_signature_v4_roundtrip(sig: SignatureView)
    requires
        sig.config.version == SignatureVersion::V4,
        sig.well_formed(),
        sig.encodable(),
    ensures
        parse_signature(sig.serialized()) == Ok::<SignatureView, Error>(sig),
{
    let body = sig.serialized();
    let c = sig.config;
    let data = signature_data(c.typ, c.pub_alg, c.hash_alg, sig.hashed_area);
    let ub = subpackets_serialized(c.unhashed);
    let ul = u16_be(ub.len() as u16);
    let mb = mpis_serialized(sig.signature);
    assert(body == data + ul + ub + sig.signed_hash_value + mb);
    let hl = sig.hashed_area.len() as int;
    assert(data.len() == 6 + hl);
    assert(ul.len() == 2);
    let p = 6 + hl;
    let q = p + 2 + ub.len();
    assert(body.len() == q + 2 + mb.len());
    assert(body[0] == SIGNATURE_VERSION && body[1] == c.typ.id() && body[2] == c.pub_alg.id()
        && body[3] == c.hash_alg.id()) by {
        assert(body[0] == data[0]);
        assert(body[1] == data[1]);
        assert(body[2] == data[2]);
        assert(body[3] == data[3]);
    }
    assert(parse_signature_head(body) == Ok::<
        (SignatureType, PublicKeyAlgorithm, HashAlgorithm),
        Error,
    >((c.typ, c.pub_alg, c.hash_alg))) by {
        reveal(parse_signature_head);
        lemma_signature_type_id_roundtrip(c.typ);
        lemma_public_key_algorithm_id_roundtrip(c.pub_alg);
        lemma_hash_id_roundtrip(c.hash_alg);
    }
    assert(body.subrange(4, 6) =~= u16_be(hl as u16));
    assert(body.subrange(6, 6 + hl) =~= sig.hashed_area);
    lemma_parse_area_at(body, 4, sig.hashed_area, c.hashed);
    assert(body.subrange(p, p + 2) =~= ul);
    assert(body.subrange(p + 2, p + 2 + ub.len()) =~= ub);
    assert(Seq::<u8>::empty() + ub =~= ub);
    lemma_parse_subpackets_roundtrip(Seq::<u8>::empty(), c.unhashed);
    lemma_parse_area_at(body, p, ub, c.unhashed);
    assert(body.subrange(q, q + 2) =~= sig.signed_hash_value);
    let pre = data + ul + ub + sig.signed_hash_value;
    assert(body =~= pre + mb);
    lemma_parse_mpis_roundtrip(pre, sig.signature);
}

} // verus!
