//! The subpackets of a signature: their model, their octet encoding and the
//! reader of subpacket areas.
//!
//! A subpacket is written as a length field that covers the type octet and
//! the body, then the type octet, then the body. Bit 7 of the type octet is
//! the critical flag. Subpackets of a type that is not modelled here are kept
//! as opaque records of type, critical flag and body.

use crate::crypto::hash::{lemma_hash_id_roundtrip, HashAlgorithm};
use crate::crypto::public_key::PublicKeyAlgorithm;
use crate::crypto::sym::{lemma_symmetric_id_roundtrip, SymmetricKeyAlgorithm};
use crate::errors::Error;
use crate::packet::length::{
    lemma_length_roundtrip, lemma_u16_be_roundtrip, lemma_u32_be_roundtrip, length_bytes,
    parse_length, read_length, read_u16_be, read_u32_be, u16_at, u32_at, write_length,
};
use crate::ser::Serialize;
use crate::types::compression::{lemma_compression_id_roundtrip, CompressionAlgorithm};
use crate::types::key_id::KeyId;
use crate::types::revocation_key::{RevocationKey, RevocationKeyClass, RevocationKeyView};
use crate::util::{append_bytes, u16_be, u32_be, write_u16_be, write_u32_be};
use vstd::prelude::*;
use vstd::slice::{slice_subrange, slice_to_vec};

verus! {

/// One subpacket of a signature.
#[derive(Debug, Clone, PartialEq, Eq)]
pub enum Subpacket {
    /// The time the signature was made, in seconds since the epoch.
    SignatureCreationTime(u32),
    /// The validity period of the signature, in seconds after its creation.
    SignatureExpirationTime(u32),
    /// The validity period of the key, in seconds after its creation.
    KeyExpirationTime(u32),
    /// The identifier of the key that issued the signature.
    Issuer(KeyId),
    /// The symmetric algorithms that the key holder prefers, most preferred first.
    PreferredSymmetricAlgorithms(Vec<SymmetricKeyAlgorithm>),
    /// The hash algorithms that the key holder prefers, most preferred first.
    PreferredHashAlgorithms(Vec<HashAlgorithm>),
    /// The compression algorithms that the key holder prefers, most preferred first.
    PreferredCompressionAlgorithms(Vec<CompressionAlgorithm>),
    /// Flags for the key server that holds the key.
    KeyServerPreferences(Vec<u8>),
    /// The capabilities of the key.
    KeyFlags(Vec<u8>),
    /// The features that the key holder's implementation supports.
    Features(Vec<u8>),
    /// Why a key or certification was revoked: a code and a text.
    RevocationReason(u8, Vec<u8>),
    /// Whether the certified user id is the primary one of the key.
    IsPrimary(bool),
    /// A key that is allowed to revoke this key.
    RevocationKey(RevocationKey),
    /// The body of a signature packet embedded in this signature.
    EmbeddedSignature(Vec<u8>),
    /// The address of the policy under which the signature was issued.
    PolicyURI(Vec<u8>),
    /// The trust level and trust amount of a trust signature.
    TrustSignature(u8, u8),
    /// The regular expression that limits a trust signature.
    RegularExpression(Vec<u8>),
    /// A notation: a name and a value, marked as text for humans or not.
    Notation { readable: bool, name: Vec<u8>, value: Vec<u8> },
    /// The 20-octet fingerprint of the version 4 key that issued the signature.
    IssuerFingerprint(Vec<u8>),
    /// A subpacket of a type that is not modelled: the type without the
    /// critical flag, the flag and the body.
    Unknown { typ: u8, critical: bool, data: Vec<u8> },
}

/// The mathematical content of a [`Subpacket`].
pub ghost enum SubpacketView {
    SignatureCreationTime(u32),
    SignatureExpirationTime(u32),
    KeyExpirationTime(u32),
    Issuer(Seq<u8>),
    PreferredSymmetricAlgorithms(Seq<SymmetricKeyAlgorithm>),
    PreferredHashAlgorithms(Seq<HashAlgorithm>),
    PreferredCompressionAlgorithms(Seq<CompressionAlgorithm>),
    KeyServerPreferences(Seq<u8>),
    KeyFlags(Seq<u8>),
    Features(Seq<u8>),
    RevocationReason(u8, Seq<u8>),
    IsPrimary(bool),
    RevocationKey(RevocationKeyView),
    EmbeddedSignature(Seq<u8>),
    PolicyURI(Seq<u8>),
    TrustSignature(u8, u8),
    RegularExpression(Seq<u8>),
    Notation { readable: bool, name: Seq<u8>, value: Seq<u8> },
    IssuerFingerprint(Seq<u8>),
    Unknown { typ: u8, critical: bool, data: Seq<u8> },
}

impl View for Subpacket {
    type V = SubpacketView;

    open spec fn view(&self) -> SubpacketView {
        match *self {
            Subpacket::SignatureCreationTime(t) => SubpacketView::SignatureCreationTime(t),
            Subpacket::SignatureExpirationTime(t) => SubpacketView::SignatureExpirationTime(t),
            Subpacket::KeyExpirationTime(t) => SubpacketView::KeyExpirationTime(t),
            Subpacket::Issuer(id) => SubpacketView::Issuer(id@),
            Subpacket::PreferredSymmetricAlgorithms(a) => SubpacketView::PreferredSymmetricAlgorithms(
                a@,
            ),
            Subpacket::PreferredHashAlgorithms(a) => SubpacketView::PreferredHashAlgorithms(a@),
            Subpacket::PreferredCompressionAlgorithms(
                a,
            ) => SubpacketView::PreferredCompressionAlgorithms(a@),
            Subpacket::KeyServerPreferences(d) => SubpacketView::KeyServerPreferences(d@),
            Subpacket::KeyFlags(d) => SubpacketView::KeyFlags(d@),
            Subpacket::Features(d) => SubpacketView::Features(d@),
            Subpacket::RevocationReason(code, text) => SubpacketView::RevocationReason(code, text@),
            Subpacket::IsPrimary(b) => SubpacketView::IsPrimary(b),
            Subpacket::RevocationKey(k) => SubpacketView::RevocationKey(k@),
            Subpacket::EmbeddedSignature(d) => SubpacketView::EmbeddedSignature(d@),
            Subpacket::PolicyURI(d) => SubpacketView::PolicyURI(d@),
            Subpacket::TrustSignature(level, amount) => SubpacketView::TrustSignature(level, amount),
            Subpacket::RegularExpression(d) => SubpacketView::RegularExpression(d@),
            Subpacket::Notation { readable, name, value } => SubpacketView::Notation {
                readable,
                name: name@,
                value: value@,
            },
            Subpacket::IssuerFingerprint(fp) => SubpacketView::IssuerFingerprint(fp@),
            Subpacket::Unknown { typ, critical, data } => SubpacketView::Unknown {
                typ,
                critical,
                data: data@,
            },
        }
    }
}

/// The views of a list of subpackets, in order.
pub open spec fn subpackets_view(list: Seq<Subpacket>) -> Seq<SubpacketView> {
    list.map_values(|s: Subpacket| s@)
}

/// The identifier octets of a list of symmetric algorithms.
pub open spec fn symmetric_ids(algs: Seq<SymmetricKeyAlgorithm>) -> Seq<u8> {
    algs.map_values(|a: SymmetricKeyAlgorithm| a.id())
}

/// The identifier octets of a list of hash algorithms.
pub open spec fn hash_ids(algs: Seq<HashAlgorithm>) -> Seq<u8> {
    algs.map_values(|a: HashAlgorithm| a.id())
}

/// The identifier octets of a list of compression algorithms.
pub open spec fn compression_ids(algs: Seq<CompressionAlgorithm>) -> Seq<u8> {
    algs.map_values(|a: CompressionAlgorithm| a.id())
}

/// The symmetric algorithms that `body` names, when every octet names one.
pub open spec fn symmetric_algorithms_of(body: Seq<u8>) -> Option<Seq<SymmetricKeyAlgorithm>> {
    if forall|i: int|
        0 <= i < body.len() ==> SymmetricKeyAlgorithm::of_id(#[trigger] body[i]) is Some {
        Some(body.map_values(|b: u8| SymmetricKeyAlgorithm::of_id(b)->0))
    } else {
        None
    }
}

/// The hash algorithms that `body` names, when every octet names one.
pub open spec fn hash_algorithms_of(body: Seq<u8>) -> Option<Seq<HashAlgorithm>> {
    if forall|i: int| 0 <= i < body.len() ==> HashAlgorithm::of_id(#[trigger] body[i]) is Some {
        Some(body.map_values(|b: u8| HashAlgorithm::of_id(b)->0))
    } else {
        None
    }
}

/// The compression algorithms that `body` names, when every octet names one.
pub open spec fn compression_algorithms_of(body: Seq<u8>) -> Option<Seq<CompressionAlgorithm>> {
    if forall|i: int|
        0 <= i < body.len() ==> CompressionAlgorithm::of_id(#[trigger] body[i]) is Some {
        Some(body.map_values(|b: u8| CompressionAlgorithm::of_id(b)->0))
    } else {
        None
    }
}

/// Whether `t` is the type of a subpacket that is modelled with its own variant.
pub open spec fn is_known_type(t: u8) -> bool {
    t == 2 || t == 3 || t == 5 || t == 6 || t == 9 || t == 11 || t == 12 || t == 16 || t == 20
        || t == 21 || t == 22 || t == 23 || t == 25 || t == 26 || t == 27 || t == 29 || t == 30
        || t == 32 || t == 33
}

/// The octet that states whether a notation is text for humans.
pub open spec fn notation_flag(readable: bool) -> u8 {
    if readable {
        0x80
    } else {
        0
    }
}

impl SubpacketView {
    /// The type of the subpacket, without the critical flag.
    pub open spec fn type_id(self) -> u8 {
        match self {
            SubpacketView::SignatureCreationTime(_) => 2,
            SubpacketView::SignatureExpirationTime(_) => 3,
            SubpacketView::TrustSignature(_, _) => 5,
            SubpacketView::RegularExpression(_) => 6,
            SubpacketView::KeyExpirationTime(_) => 9,
            SubpacketView::PreferredSymmetricAlgorithms(_) => 11,
            SubpacketView::RevocationKey(_) => 12,
            SubpacketView::Issuer(_) => 16,
            SubpacketView::Notation { .. } => 20,
            SubpacketView::PreferredHashAlgorithms(_) => 21,
            SubpacketView::PreferredCompressionAlgorithms(_) => 22,
            SubpacketView::KeyServerPreferences(_) => 23,
            SubpacketView::IsPrimary(_) => 25,
            SubpacketView::PolicyURI(_) => 26,
            SubpacketView::KeyFlags(_) => 27,
            SubpacketView::RevocationReason(_, _) => 29,
            SubpacketView::Features(_) => 30,
            SubpacketView::EmbeddedSignature(_) => 32,
            SubpacketView::IssuerFingerprint(_) => 33,
            SubpacketView::Unknown { typ, .. } => typ,
        }
    }

    /// Whether the subpacket is marked critical. Modelled subpackets are
    /// written without the flag.
    pub open spec fn is_critical(self) -> bool {
        match self {
            SubpacketView::Unknown { critical, .. } => critical,
            _ => false,
        }
    }

    /// The type octet as it is written: the type, with bit 7 set when the
    /// subpacket is critical.
    pub open spec fn type_octet(self) -> u8 {
        if self.is_critical() {
            (self.type_id() + 128) as u8
        } else {
            self.type_id()
        }
    }

    /// The body of the subpacket.
    pub open spec fn body(self) -> Seq<u8> {
        match self {
            SubpacketView::SignatureCreationTime(t) => u32_be(t),
            SubpacketView::SignatureExpirationTime(t) => u32_be(t),
            SubpacketView::KeyExpirationTime(t) => u32_be(t),
            SubpacketView::Issuer(id) => id,
            SubpacketView::PreferredSymmetricAlgorithms(a) => symmetric_ids(a),
            SubpacketView::PreferredHashAlgorithms(a) => hash_ids(a),
            SubpacketView::PreferredCompressionAlgorithms(a) => compression_ids(a),
            SubpacketView::KeyServerPreferences(d) => d,
            SubpacketView::KeyFlags(d) => d,
            SubpacketView::Features(d) => d,
            SubpacketView::RevocationReason(code, text) => seq![code] + text,
            SubpacketView::IsPrimary(b) => seq![if b {
                1u8
            } else {
                0u8
            }],
            SubpacketView::RevocationKey(k) => k.serialized(),
            SubpacketView::EmbeddedSignature(d) => d,
            SubpacketView::PolicyURI(d) => d,
            SubpacketView::TrustSignature(level, amount) => seq![level, amount],
            SubpacketView::RegularExpression(d) => d,
            SubpacketView::Notation { readable, name, value } => seq![
                notation_flag(readable),
                0u8,
                0u8,
                0u8,
            ] + u16_be(name.len() as u16) + u16_be(value.len() as u16) + name + value,
            SubpacketView::IssuerFingerprint(fp) => seq![4u8] + fp,
            SubpacketView::Unknown { data, .. } => data,
        }
    }

    /// Whether the fields have the sizes that their encoding fixes, and an
    /// opaque record does not use the type of a modelled subpacket.
    pub open spec fn well_formed(self) -> bool {
        match self {
            SubpacketView::Issuer(id) => id.len() == 8,
            SubpacketView::RevocationKey(k) => k.fingerprint.len() == 20,
            SubpacketView::Notation { name, value, .. } => name.len() <= 0xffff && value.len()
                <= 0xffff,
            SubpacketView::IssuerFingerprint(fp) => fp.len() == 20,
            SubpacketView::Unknown { typ, .. } => typ < 128 && !is_known_type(typ),
            _ => true,
        }
    }

    /// Whether the subpacket has an encoding: it is well formed and its type
    /// octet and body fit a length field.
    pub open spec fn encodable(self) -> bool {
        self.well_formed() && 1 + self.body().len() <= u32::MAX
    }

    /// The encoding of the subpacket: the length of type octet and body, the
    /// type octet, the body.
    pub open spec fn serialized(self) -> Seq<u8> {
        length_bytes(1 + self.body().len()) + seq![self.type_octet()] + self.body()
    }
}

/// The encodings of the subpackets of a list, one after the other.
pub open spec fn subpackets_serialized(list: Seq<SubpacketView>) -> Seq<u8>
    decreases list.len(),
{
    if list.len() == 0 {
        Seq::empty()
    } else {
        list[0].serialized() + subpackets_serialized(list.drop_first())
    }
}

/// Whether every subpacket of a list has an encoding.
pub open spec fn subpackets_encodable(list: Seq<SubpacketView>) -> bool {
    forall|i: int| 0 <= i < list.len() ==> (#[trigger] list[i]).encodable()
}

/// The identifier octets of `algs`.
fn symmetric_ids_vec(algs: &Vec<SymmetricKeyAlgorithm>) -> (r: Vec<u8>)
    ensures
        r@ == symmetric_ids(algs@),
{
    let mut r: Vec<u8> = Vec::new();
    let mut i: usize = 0;
    while i < algs.len()
        invariant
            i <= algs.len(),
            r@.len() == i,
            forall|j: int| 0 <= j < i ==> r@[j] == algs@[j].id(),
        decreases algs.len() - i,
    {
        r.push(algs[i].to_u8());
        i += 1;
    }
    assert(r@ =~= symmetric_ids(algs@));
    r
}

/// The identifier octets of `algs`.
fn hash_ids_vec(algs: &Vec<HashAlgorithm>) -> (r: Vec<u8>)
    ensures
        r@ == hash_ids(algs@),
{
    let mut r: Vec<u8> = Vec::new();
    let mut i: usize = 0;
    while i < algs.len()
        invariant
            i <= algs.len(),
            r@.len() == i,
            forall|j: int| 0 <= j < i ==> r@[j] == algs@[j].id(),
        decreases algs.len() - i,
    {
        r.push(algs[i].to_u8());
        i += 1;
    }
    assert(r@ =~= hash_ids(algs@));
    r
}

/// The identifier octets of `algs`.
fn compression_ids_vec(algs: &Vec<CompressionAlgorithm>) -> (r: Vec<u8>)
    ensures
        r@ == compression_ids(algs@),
{
    let mut r: Vec<u8> = Vec::new();
    let mut i: usize = 0;
    while i < algs.len()
        invariant
            i <= algs.len(),
            r@.len() == i,
            forall|j: int| 0 <= j < i ==> r@[j] == algs@[j].id(),
        decreases algs.len() - i,
    {
        r.push(algs[i].to_u8());
        i += 1;
    }
    assert(r@ =~= compression_ids(algs@));
    r
}

/// A copy of `data`.
fn copy_bytes(data: &Vec<u8>) -> (r: Vec<u8>)
    ensures
        r@ == data@,
{
    let mut r: Vec<u8> = Vec::new();
    append_bytes(&mut r, data.as_slice());
    assert(r@ =~= data@);
    r
}

/// The four octets of `v`, most significant first.
fn u32_bytes(v: u32) -> (r: Vec<u8>)
    ensures
        r@ == u32_be(v),
{
    let mut r: Vec<u8> = Vec::new();
    write_u32_be(v, &mut r);
    assert(r@ =~= u32_be(v));
    r
}

impl Subpacket {
    /// The type of the subpacket, without the critical flag.
    pub fn type_id(&self) -> (r: u8)
        ensures
            r == self@.type_id(),
    {
        match self {
            Subpacket::SignatureCreationTime(_) => 2,
            Subpacket::SignatureExpirationTime(_) => 3,
            Subpacket::TrustSignature(_, _) => 5,
            Subpacket::RegularExpression(_) => 6,
            Subpacket::KeyExpirationTime(_) => 9,
            Subpacket::PreferredSymmetricAlgorithms(_) => 11,
            Subpacket::RevocationKey(_) => 12,
            Subpacket::Issuer(_) => 16,
            Subpacket::Notation { .. } => 20,
            Subpacket::PreferredHashAlgorithms(_) => 21,
            Subpacket::PreferredCompressionAlgorithms(_) => 22,
            Subpacket::KeyServerPreferences(_) => 23,
            Subpacket::IsPrimary(_) => 25,
            Subpacket::PolicyURI(_) => 26,
            Subpacket::KeyFlags(_) => 27,
            Subpacket::RevocationReason(_, _) => 29,
            Subpacket::Features(_) => 30,
            Subpacket::EmbeddedSignature(_) => 32,
            Subpacket::IssuerFingerprint(_) => 33,
            Subpacket::Unknown { typ, .. } => *typ,
        }
    }

    /// The body of the subpacket; `None` when the subpacket is not well formed.
    pub fn body(&self) -> (r: Option<Vec<u8>>)
        ensures
            r is Some <==> self@.well_formed(),
            r matches Some(b) ==> b@ == self@.body(),
    {
        match self {
            Subpacket::SignatureCreationTime(t) => Some(u32_bytes(*t)),
            Subpacket::SignatureExpirationTime(t) => Some(u32_bytes(*t)),
            Subpacket::KeyExpirationTime(t) => Some(u32_bytes(*t)),
            Subpacket::Issuer(id) => {
                proof {
                    id.lemma_len();
                }
                Some(id.to_vec())
            },
            Subpacket::PreferredSymmetricAlgorithms(a) => Some(symmetric_ids_vec(a)),
            Subpacket::PreferredHashAlgorithms(a) => Some(hash_ids_vec(a)),
            Subpacket::PreferredCompressionAlgorithms(a) => Some(compression_ids_vec(a)),
            Subpacket::KeyServerPreferences(d) => Some(copy_bytes(d)),
            Subpacket::KeyFlags(d) => Some(copy_bytes(d)),
            Subpacket::Features(d) => Some(copy_bytes(d)),
            Subpacket::RevocationReason(code, text) => {
                let mut b: Vec<u8> = Vec::new();
                b.push(*code);
                append_bytes(&mut b, text.as_slice());
                assert(b@ =~= self@.body());
                Some(b)
            },
            Subpacket::IsPrimary(p) => {
                let b = vec![if *p {
                    1u8
                } else {
                    0u8
                }];
                assert(b@ =~= self@.body());
                Some(b)
            },
            Subpacket::RevocationKey(k) => Some(k.to_vec()),
            Subpacket::EmbeddedSignature(d) => Some(copy_bytes(d)),
            Subpacket::PolicyURI(d) => Some(copy_bytes(d)),
            Subpacket::TrustSignature(level, amount) => {
                let b = vec![*level, *amount];
                assert(b@ =~= self@.body());
                Some(b)
            },
            Subpacket::RegularExpression(d) => Some(copy_bytes(d)),
            Subpacket::Notation { readable, name, value } => {
                if name.len() > 0xffff || value.len() > 0xffff {
                    return None;
                }
                let mut b: Vec<u8> = Vec::new();
                b.push(if *readable {
                    0x80
                } else {
                    0
                });
                b.push(0);
                b.push(0);
                b.push(0);
                write_u16_be(name.len() as u16, &mut b);
                write_u16_be(value.len() as u16, &mut b);
                append_bytes(&mut b, name.as_slice());
                append_bytes(&mut b, value.as_slice());
                assert(b@ =~= self@.body());
                Some(b)
            },
            Subpacket::IssuerFingerprint(fp) => {
                if fp.len() != 20 {
                    return None;
                }
                let mut b: Vec<u8> = Vec::new();
                b.push(4);
                append_bytes(&mut b, fp.as_slice());
                assert(b@ =~= self@.body());
                Some(b)
            },
            Subpacket::Unknown { typ, critical, data } => {
                if *typ >= 128 || known_type(*typ) {
                    return None;
                }
                Some(copy_bytes(data))
            },
        }
    }

    /// Whether the subpacket is an opaque record marked critical.
    pub fn is_critical(&self) -> (r: bool)
        ensures
            r == self@.is_critical(),
    {
        match self {
            Subpacket::Unknown { critical, .. } => *critical,
            _ => false,
        }
    }
}

/// Whether `t` is the type of a subpacket that is modelled with its own variant.
pub fn known_type(t: u8) -> (r: bool)
    ensures
        r == is_known_type(t),
{
    t == 2 || t == 3 || t == 5 || t == 6 || t == 9 || t == 11 || t == 12 || t == 16 || t == 20
        || t == 21 || t == 22 || t == 23 || t == 25 || t == 26 || t == 27 || t == 29 || t == 30
        || t == 32 || t == 33
}

impl Serialize for Subpacket {
    open spec fn encodable(&self) -> bool {
        self@.encodable()
    }

    open spec fn serialized(&self) -> Seq<u8> {
        self@.serialized()
    }

    /// Appends the encoding of the subpacket to `writer`.
    fn to_writer(&self, writer: &mut Vec<u8>) -> (r: Result<(), Error>) {
        let body = match self.body() {
            Some(b) => b,
            None => {
                return Err(Error::MalformedInput { offset: writer.len() });
            },
        };
        if body.len() >= 0xffff_ffff {
            return Err(Error::MalformedInput { offset: writer.len() });
        }
        let typ = self.type_id();
        let type_octet = if self.is_critical() {
            typ + 128
        } else {
            typ
        };
        let mut buf: Vec<u8> = Vec::new();
        write_length((1 + body.len()) as u32, &mut buf);
        buf.push(type_octet);
        append_bytes(&mut buf, body.as_slice());
        assert(buf@ =~= self@.serialized());
        append_bytes(writer, buf.as_slice());
        Ok(())
    }
}

/// Appends the encodings of the subpackets of `list` to `writer`, in order.
/// Nothing is written unless every subpacket has an encoding.
pub fn write_subpackets(list: &Vec<Subpacket>, writer: &mut Vec<u8>) -> (r: Result<(), Error>)
    ensures
        r is Ok <==> subpackets_encodable(subpackets_view(list@)),
        r is Ok ==> final(writer)@ == old(writer)@ + subpackets_serialized(
            subpackets_view(list@),
        ),
        r is Err ==> final(writer)@ == old(writer)@ && r == Err::<(), Error>(
            Error::MalformedInput { offset: old(writer)@.len() as usize },
        ),
{
    let ghost views = subpackets_view(list@);
    let mut buf: Vec<u8> = Vec::new();
    let mut i: usize = 0;
    while i < list.len()
        invariant
            i <= list.len(),
            views == subpackets_view(list@),
            forall|j: int| 0 <= j < i ==> (#[trigger] views[j]).encodable(),
            buf@ == subpackets_serialized(views.take(i as int)),
            writer@ == old(writer)@,
        decreases list.len() - i,
    {
        let ghost before = buf@;
        match list[i].to_writer(&mut buf) {
            Ok(()) => {},
            Err(_) => {
                assert(!views[i as int].encodable());
                return Err(Error::MalformedInput { offset: writer.len() });
            },
        }
        proof {
            lemma_subpackets_serialized_push(views.take(i as int), views[i as int]);
            assert(views.take(i as int).push(views[i as int]) =~= views.take(i + 1));
        }
        i += 1;
    }
    assert(views.take(i as int) =~= views);
    append_bytes(writer, buf.as_slice());
    Ok(())
}

/// The encoding of a list with one more subpacket at its end is the encoding
/// of the list followed by that of the subpacket.
pub proof fn lemma_subpackets_serialized_push(list: Seq<SubpacketView>, last: SubpacketView)
    ensures
        subpackets_serialized(list.push(last)) == subpackets_serialized(list) + last.serialized(),
    decreases list.len(),
{
    let all = list.push(last);
    if list.len() == 0 {
        assert(all.drop_first() =~= list);
        assert(subpackets_serialized(list) =~= Seq::<u8>::empty());
        assert(all[0] == last);
        assert(subpackets_serialized(all) =~= last.serialized());
        assert(subpackets_serialized(list) + last.serialized() =~= last.serialized());
    } else {
        assert(all.drop_first() =~= list.drop_first().push(last));
        lemma_subpackets_serialized_push(list.drop_first(), last);
        assert(subpackets_serialized(all) =~= subpackets_serialized(list) + last.serialized());
    }
}

/// The subpacket that a type, a critical flag and a body stand for. A body
/// whose size or content does not fit its type is malformed, with `at` as the
/// offset of the fault; an octet that names no algorithm is unsupported. The
/// critical flag of a modelled subpacket is not kept.
#[verifier::opaque]
pub open spec fn parse_body(typ: u8, critical: bool, body: Seq<u8>, at: usize) -> Result<
    SubpacketView,
    Error,
> {
    let malformed = Err::<SubpacketView, Error>(Error::MalformedInput { offset: at });
    let unsupported = Err::<SubpacketView, Error>(Error::UnsupportedAlgorithm);
    if typ == 2 {
        if body.len() == 4 {
            Ok(SubpacketView::SignatureCreationTime(u32_at(body, 0) as u32))
        } else {
            malformed
        }
    } else if typ == 3 {
        if body.len() == 4 {
            Ok(SubpacketView::SignatureExpirationTime(u32_at(body, 0) as u32))
        } else {
            malformed
        }
    } else if typ == 9 {
        if body.len() == 4 {
            Ok(SubpacketView::KeyExpirationTime(u32_at(body, 0) as u32))
        } else {
            malformed
        }
    } else if typ == 16 {
        if body.len() == 8 {
            Ok(SubpacketView::Issuer(body))
        } else {
            malformed
        }
    } else if typ == 11 {
        match symmetric_algorithms_of(body) {
            Some(a) => Ok(SubpacketView::PreferredSymmetricAlgorithms(a)),
            None => unsupported,
        }
    } else if typ == 21 {
        match hash_algorithms_of(body) {
            Some(a) => Ok(SubpacketView::PreferredHashAlgorithms(a)),
            None => unsupported,
        }
    } else if typ == 22 {
        match compression_algorithms_of(body) {
            Some(a) => Ok(SubpacketView::PreferredCompressionAlgorithms(a)),
            None => unsupported,
        }
    } else if typ == 23 {
        Ok(SubpacketView::KeyServerPreferences(body))
    } else if typ == 27 {
        Ok(SubpacketView::KeyFlags(body))
    } else if typ == 30 {
        Ok(SubpacketView::Features(body))
    } else if typ == 29 {
        if body.len() >= 1 {
            Ok(SubpacketView::RevocationReason(body[0], body.skip(1)))
        } else {
            malformed
        }
    } else if typ == 25 {
        if body.len() == 1 {
            Ok(SubpacketView::IsPrimary(body[0] == 1))
        } else {
            malformed
        }
    } else if typ == 12 {
        if body.len() != 22 {
            malformed
        } else {
            match (RevocationKeyClass::of_id(body[0]), PublicKeyAlgorithm::of_id(body[1])) {
                (None, _) => malformed,
                (Some(_), None) => unsupported,
                (Some(class), Some(algorithm)) => Ok(
                    SubpacketView::RevocationKey(
                        RevocationKeyView { class, algorithm, fingerprint: body.skip(2) },
                    ),
                ),
            }
        }
    } else if typ == 32 {
        Ok(SubpacketView::EmbeddedSignature(body))
    } else if typ == 26 {
        Ok(SubpacketView::PolicyURI(body))
    } else if typ == 5 {
        if body.len() == 2 {
            Ok(SubpacketView::TrustSignature(body[0], body[1]))
        } else {
            malformed
        }
    } else if typ == 6 {
        Ok(SubpacketView::RegularExpression(body))
    } else if typ == 20 {
        if body.len() < 8 || 8 + u16_at(body, 4) + u16_at(body, 6) != body.len() {
            malformed
        } else {
            Ok(
                SubpacketView::Notation {
                    readable: body[0] == 0x80,
                    name: body.subrange(8, (8 + u16_at(body, 4)) as int),
                    value: body.subrange((8 + u16_at(body, 4)) as int, body.len() as int),
                },
            )
        }
    } else if typ == 33 {
        if body.len() == 21 && body[0] == 4 {
            Ok(SubpacketView::IssuerFingerprint(body.skip(1)))
        } else {
            malformed
        }
    } else {
        Ok(SubpacketView::Unknown { typ, critical, data: body })
    }
}

/// The result of reading one subpacket at `pos`: the subpacket and the
/// position after it. The length field must be whole, cover at least the type
/// octet and stay within the input.
pub open spec fn parse_subpacket(input: Seq<u8>, pos: int) -> Result<(SubpacketView, int), Error> {
    match parse_length(input, pos) {
        None => Err(Error::MalformedInput { offset: pos as usize }),
        Some((len, start)) => if len < 1 || start + len > input.len() {
            Err(Error::MalformedInput { offset: pos as usize })
        } else {
            match parse_body(
                input[start] % 128,
                input[start] >= 128,
                input.subrange(start + 1, start + len),
                pos as usize,
            ) {
                Err(e) => Err(e),
                Ok(sp) => Ok((sp, start + len)),
            }
        },
    }
}

/// The result of reading subpackets from `pos` to the end of the input.
pub open spec fn parse_subpackets(input: Seq<u8>, pos: int) -> Result<Seq<SubpacketView>, Error>
    decreases input.len() - pos,
{
    if pos >= input.len() {
        Ok(Seq::empty())
    } else {
        match parse_subpacket(input, pos) {
            Err(e) => Err(e),
            Ok((sp, next)) => if next <= pos {
                Err(Error::MalformedInput { offset: pos as usize })
            } else {
                match parse_subpackets(input, next) {
                    Err(e) => Err(e),
                    Ok(rest) => Ok(seq![sp] + rest),
                }
            },
        }
    }
}

/// The body of a list of preferred symmetric algorithms names that list.
proof fn lemma_symmetric_ids_roundtrip(a: Seq<SymmetricKeyAlgorithm>)
    ensures
        symmetric_algorithms_of(symmetric_ids(a)) == Some(a),
{
    let body = symmetric_ids(a);
    assert forall|i: int| 0 <= i < body.len() implies SymmetricKeyAlgorithm::of_id(
        #[trigger] body[i],
    ) is Some by {
        lemma_symmetric_id_roundtrip(a[i]);
    }
    let back = body.map_values(|b: u8| SymmetricKeyAlgorithm::of_id(b)->0);
    assert forall|i: int| 0 <= i < a.len() implies back[i] == a[i] by {
        lemma_symmetric_id_roundtrip(a[i]);
    }
    assert(back =~= a);
}

/// The body of a list of preferred hash algorithms names that list.
proof fn lemma_hash_ids_roundtrip(a: Seq<HashAlgorithm>)
    ensures
        hash_algorithms_of(hash_ids(a)) == Some(a),
{
    let body = hash_ids(a);
    assert forall|i: int| 0 <= i < body.len() implies HashAlgorithm::of_id(
        #[trigger] body[i],
    ) is Some by {
        lemma_hash_id_roundtrip(a[i]);
    }
    let back = body.map_values(|b: u8| HashAlgorithm::of_id(b)->0);
    assert forall|i: int| 0 <= i < a.len() implies back[i] == a[i] by {
        lemma_hash_id_roundtrip(a[i]);
    }
    assert(back =~= a);
}

/// The body of a list of preferred compression algorithms names that list.
proof fn lemma_compression_ids_roundtrip(a: Seq<CompressionAlgorithm>)
    ensures
        compression_algorithms_of(compression_ids(a)) == Some(a),
{
    let body = compression_ids(a);
    assert forall|i: int| 0 <= i < body.len() implies CompressionAlgorithm::of_id(
        #[trigger] body[i],
    ) is Some by {
        lemma_compression_id_roundtrip(a[i]);
    }
    let back = body.map_values(|b: u8| CompressionAlgorithm::of_id(b)->0);
    assert forall|i: int| 0 <= i < a.len() implies back[i] == a[i] by {
        lemma_compression_id_roundtrip(a[i]);
    }
    assert(back =~= a);
}

/// The body of a notation is read back as the notation.
proof fn lemma_notation_roundtrip(readable: bool, name: Seq<u8>, value: Seq<u8>, at: usize)
    requires
        name.len() <= 0xffff,
        value.len() <= 0xffff,
    ensures
        parse_body(20, false, (SubpacketView::Notation { readable, name, value }).body(), at)
            == Ok::<SubpacketView, Error>(SubpacketView::Notation { readable, name, value }),
{
    reveal(parse_body);
    let body = (SubpacketView::Notation { readable, name, value }).body();
    let head = seq![notation_flag(readable), 0u8, 0u8, 0u8];
    let nl = u16_be(name.len() as u16);
    let vl = u16_be(value.len() as u16);
    assert(body == head + nl + vl + name + value);
    assert(body.len() == 8 + name.len() + value.len());
    assert(body[0] == notation_flag(readable));
    assert(body.subrange(4, 6) =~= nl);
    assert(body.subrange(6, 8) =~= vl);
    lemma_u16_be_roundtrip(name.len() as u16, body, 4);
    lemma_u16_be_roundtrip(value.len() as u16, body, 6);
    assert(body.subrange(8, (8 + name.len()) as int) =~= name);
    assert(body.subrange((8 + name.len()) as int, body.len() as int) =~= value);
}

/// The body of a well-formed subpacket is read back, under its type, as the
/// subpacket.
pub proof fn lemma_parse_body_roundtrip(v: SubpacketView, at: usize)
    requires
        v.well_formed(),
    ensures
        parse_body(v.type_id(), v.is_critical(), v.body(), at) == Ok::<SubpacketView, Error>(v),
{
    reveal(parse_body);
    let body = v.body();
    match v {
        SubpacketView::SignatureCreationTime(t) => {
            assert(body.subrange(0, 4) =~= u32_be(t));
            lemma_u32_be_roundtrip(t, body, 0);
        },
        SubpacketView::SignatureExpirationTime(t) => {
            assert(body.subrange(0, 4) =~= u32_be(t));
            lemma_u32_be_roundtrip(t, body, 0);
        },
        SubpacketView::KeyExpirationTime(t) => {
            assert(body.subrange(0, 4) =~= u32_be(t));
            lemma_u32_be_roundtrip(t, body, 0);
        },
        SubpacketView::PreferredSymmetricAlgorithms(a) => {
            lemma_symmetric_ids_roundtrip(a);
        },
        SubpacketView::PreferredHashAlgorithms(a) => {
            lemma_hash_ids_roundtrip(a);
        },
        SubpacketView::PreferredCompressionAlgorithms(a) => {
            lemma_compression_ids_roundtrip(a);
        },
        SubpacketView::RevocationReason(code, text) => {
            assert(body.skip(1) =~= text);
        },
        SubpacketView::RevocationKey(k) => {
            assert(body.len() == 22);
            assert(body[0] == k.class.id());
            assert(body[1] == k.algorithm.id());
            assert(body.skip(2) =~= k.fingerprint);
            crate::crypto::public_key::lemma_public_key_algorithm_id_roundtrip(k.algorithm);
        },
        SubpacketView::Notation { readable, name, value } => {
            lemma_notation_roundtrip(readable, name, value, at);
        },
        SubpacketView::IssuerFingerprint(fp) => {
            assert(body.skip(1) =~= fp);
        },
        _ => {},
    }
}

/// A subpacket that has an encoding is read back from it, whatever surrounds
/// the encoding, and the reader stops right after it.
pub proof fn lemma_parse_subpacket_roundtrip(pre: Seq<u8>, v: SubpacketView, rest: Seq<u8>)
    requires
        v.encodable(),
    ensures
        parse_subpacket(pre + v.serialized() + rest, pre.len() as int) == Ok::<
            (SubpacketView, int),
            Error,
        >((v, (pre.len() + v.serialized().len()) as int)),
        v.serialized().len() >= 2,
{
    let input = pre + v.serialized() + rest;
    let pos = pre.len() as int;
    let body = v.body();
    let len = 1 + body.len();
    let field = length_bytes(len as nat);
    let tail = seq![v.type_octet()] + body + rest;
    assert(input =~= pre + field + tail);
    lemma_length_roundtrip(pre, len as nat, tail);
    let start = pos + field.len();
    assert(input[start] == v.type_octet());
    assert(v.type_id() < 128);
    assert(input.subrange(start + 1, start + len) =~= body);
    lemma_parse_body_roundtrip(v, pos as usize);
}

/// A list of subpackets that all have an encoding is read back from the
/// encoding of the list.
pub proof fn lemma_parse_subpackets_roundtrip(pre: Seq<u8>, list: Seq<SubpacketView>)
    requires
        subpackets_encodable(list),
    ensures
        parse_subpackets(pre + subpackets_serialized(list), pre.len() as int) == Ok::<
            Seq<SubpacketView>,
            Error,
        >(list),
    decreases list.len(),
{
    let input = pre + subpackets_serialized(list);
    let pos = pre.len() as int;
    if list.len() == 0 {
        assert(input =~= pre);
        assert(list =~= Seq::<SubpacketView>::empty());
    } else {
        let first = list[0];
        let others = list.drop_first();
        let tail = subpackets_serialized(others);
        assert(first.encodable());
        assert(input =~= pre + first.serialized() + tail);
        lemma_parse_subpacket_roundtrip(pre, first, tail);
        let pre2 = pre + first.serialized();
        let next = pre2.len() as int;
        assert(input =~= pre2 + tail);
        assert forall|i: int| 0 <= i < others.len() implies (#[trigger] others[i]).encodable() by {
            assert(others[i] == list[i + 1]);
        }
        lemma_parse_subpackets_roundtrip(pre2, others);
        assert(parse_subpacket(input, pos) == Ok::<(SubpacketView, int), Error>((first, next)));
        assert(parse_subpackets(input, next) == Ok::<Seq<SubpacketView>, Error>(others));
        assert(next > pos);
        assert(pos < input.len());
        assert(seq![first] + others =~= list);
    }
}

/// The symmetric algorithms that `body` names; `None` when an octet names none.
fn read_symmetric_algorithms(body: &[u8]) -> (r: Option<Vec<SymmetricKeyAlgorithm>>)
    ensures
        match r {
            Some(v) => symmetric_algorithms_of(body@) == Some(v@),
            None => symmetric_algorithms_of(body@) is None,
        },
{
    let mut r: Vec<SymmetricKeyAlgorithm> = Vec::new();
    let mut i: usize = 0;
    while i < body.len()
        invariant
            i <= body.len(),
            r@.len() == i,
            forall|j: int|
                0 <= j < i ==> SymmetricKeyAlgorithm::of_id(#[trigger] body@[j]) == Some(r@[j]),
        decreases body.len() - i,
    {
        match SymmetricKeyAlgorithm::from_u8(body[i]) {
            Some(a) => r.push(a),
            None => {
                assert(SymmetricKeyAlgorithm::of_id(body@[i as int]) is None);
                return None;
            },
        }
        i += 1;
    }
    assert(r@ =~= body@.map_values(|b: u8| SymmetricKeyAlgorithm::of_id(b)->0));
    Some(r)
}

/// The hash algorithms that `body` names; `None` when an octet names none.
fn read_hash_algorithms(body: &[u8]) -> (r: Option<Vec<HashAlgorithm>>)
    ensures
        match r {
            Some(v) => hash_algorithms_of(body@) == Some(v@),
            None => hash_algorithms_of(body@) is None,
        },
{
    let mut r: Vec<HashAlgorithm> = Vec::new();
    let mut i: usize = 0;
    while i < body.len()
        invariant
            i <= body.len(),
            r@.len() == i,
            forall|j: int| 0 <= j < i ==> HashAlgorithm::of_id(#[trigger] body@[j]) == Some(r@[j]),
        decreases body.len() - i,
    {
        match HashAlgorithm::from_u8(body[i]) {
            Some(a) => r.push(a),
            None => {
                assert(HashAlgorithm::of_id(body@[i as int]) is None);
                return None;
            },
        }
        i += 1;
    }
    assert(r@ =~= body@.map_values(|b: u8| HashAlgorithm::of_id(b)->0));
    Some(r)
}

/// The compression algorithms that `body` names; `None` when an octet names none.
fn read_compression_algorithms(body: &[u8]) -> (r: Option<Vec<CompressionAlgorithm>>)
    ensures
        match r {
            Some(v) => compression_algorithms_of(body@) == Some(v@),
            None => compression_algorithms_of(body@) is None,
        },
{
    let mut r: Vec<CompressionAlgorithm> = Vec::new();
    let mut i: usize = 0;
    while i < body.len()
        invariant
            i <= body.len(),
            r@.len() == i,
            forall|j: int|
                0 <= j < i ==> CompressionAlgorithm::of_id(#[trigger] body@[j]) == Some(r@[j]),
        decreases body.len() - i,
    {
        match CompressionAlgorithm::from_u8(body[i]) {
            Some(a) => r.push(a),
            None => {
                assert(CompressionAlgorithm::of_id(body@[i as int]) is None);
                return None;
            },
        }
        i += 1;
    }
    assert(r@ =~= body@.map_values(|b: u8| CompressionAlgorithm::of_id(b)->0));
    Some(r)
}

/// A copy of the octets of `data` from `from` on.
fn copy_from(data: &[u8], from: usize) -> (r: Vec<u8>)
    requires
        from <= data@.len(),
    ensures
        r@ == data@.skip(from as int),
        from == 0 ==> r@ == data@,
{
    let r = slice_to_vec(slice_subrange(data, from, data.len()));
    assert(r@ =~= data@.skip(from as int));
    assert(data@.skip(0) =~= data@);
    r
}

/// The twenty octets of `body` from position 2 on.
fn fingerprint_of(body: &[u8]) -> (r: [u8; 20])
    requires
        body@.len() == 22,
    ensures
        r@ == body@.skip(2),
{
    let r = [
        body[2],
        body[3],
        body[4],
        body[5],
        body[6],
        body[7],
        body[8],
        body[9],
        body[10],
        body[11],
        body[12],
        body[13],
        body[14],
        body[15],
        body[16],
        body[17],
        body[18],
        body[19],
        body[20],
        body[21],
    ];
    assert(r@ =~= body@.skip(2));
    r
}

/// Builds the subpacket that a type, a critical flag and a body stand for.
fn read_body(typ: u8, critical: bool, body: &[u8], at: usize) -> (r: Result<Subpacket, Error>)
    ensures
        match r {
            Ok(sp) => parse_body(typ, critical, body@, at) == Ok::<SubpacketView, Error>(sp@),
            Err(e) => parse_body(typ, critical, body@, at) == Err::<SubpacketView, Error>(e) && (e
                == (Error::MalformedInput { offset: at }) || e == Error::UnsupportedAlgorithm),
        },
{
    reveal(parse_body);
    let malformed = Err(Error::MalformedInput { offset: at });
    let n = body.len();
    match typ {
        2 => if n == 4 {
            Ok(Subpacket::SignatureCreationTime(read_u32_be(body, 0)))
        } else {
            malformed
        },
        3 => if n == 4 {
            Ok(Subpacket::SignatureExpirationTime(read_u32_be(body, 0)))
        } else {
            malformed
        },
        9 => if n == 4 {
            Ok(Subpacket::KeyExpirationTime(read_u32_be(body, 0)))
        } else {
            malformed
        },
        16 => match KeyId::from_slice(body) {
            Ok(id) => Ok(Subpacket::Issuer(id)),
            Err(_) => malformed,
        },
        11 => match read_symmetric_algorithms(body) {
            Some(a) => Ok(Subpacket::PreferredSymmetricAlgorithms(a)),
            None => Err(Error::UnsupportedAlgorithm),
        },
        21 => match read_hash_algorithms(body) {
            Some(a) => Ok(Subpacket::PreferredHashAlgorithms(a)),
            None => Err(Error::UnsupportedAlgorithm),
        },
        22 => match read_compression_algorithms(body) {
            Some(a) => Ok(Subpacket::PreferredCompressionAlgorithms(a)),
            None => Err(Error::UnsupportedAlgorithm),
        },
        23 => Ok(Subpacket::KeyServerPreferences(copy_from(body, 0))),
        27 => Ok(Subpacket::KeyFlags(copy_from(body, 0))),
        30 => Ok(Subpacket::Features(copy_from(body, 0))),
        29 => if n >= 1 {
            Ok(Subpacket::RevocationReason(body[0], copy_from(body, 1)))
        } else {
            malformed
        },
        25 => if n == 1 {
            Ok(Subpacket::IsPrimary(body[0] == 1))
        } else {
            malformed
        },
        12 => {
            if n != 22 {
                return malformed;
            }
            let class = match RevocationKeyClass::from_u8(body[0]) {
                Some(c) => c,
                None => {
                    return malformed;
                },
            };
            let algorithm = match PublicKeyAlgorithm::from_u8(body[1]) {
                Some(a) => a,
                None => {
                    return Err(Error::UnsupportedAlgorithm);
                },
            };
            Ok(Subpacket::RevocationKey(RevocationKey::new(class, algorithm, fingerprint_of(body))))
        },
        32 => Ok(Subpacket::EmbeddedSignature(copy_from(body, 0))),
        26 => Ok(Subpacket::PolicyURI(copy_from(body, 0))),
        5 => if n == 2 {
            Ok(Subpacket::TrustSignature(body[0], body[1]))
        } else {
            malformed
        },
        6 => Ok(Subpacket::RegularExpression(copy_from(body, 0))),
        20 => {
            if n < 8 {
                return malformed;
            }
            let name_len: usize = read_u16_be(body, 4) as usize;
            let value_len: usize = read_u16_be(body, 6) as usize;
            if n - 8 < name_len || n - 8 - name_len != value_len {
                return malformed;
            }
            let name = slice_to_vec(slice_subrange(body, 8, 8 + name_len));
            let value = slice_to_vec(slice_subrange(body, 8 + name_len, n));
            Ok(Subpacket::Notation { readable: body[0] == 0x80, name, value })
        },
        33 => if n == 21 && body[0] == 4 {
            Ok(Subpacket::IssuerFingerprint(copy_from(body, 1)))
        } else {
            malformed
        },
        _ => Ok(Subpacket::Unknown { typ, critical, data: copy_from(body, 0) }),
    }
}

impl Subpacket {
    /// Reads one subpacket at `pos` and returns it with the position after it.
    pub fn parse(input: &[u8], pos: usize) -> (r: Result<(Subpacket, usize), Error>)
        ensures
            match r {
                Ok((sp, next)) => parse_subpacket(input@, pos as int) == Ok::<
                    (SubpacketView, int),
                    Error,
                >((sp@, next as int)) && pos < next <= input@.len(),
                Err(e) => parse_subpacket(input@, pos as int) == Err::<(SubpacketView, int), Error>(
                    e,
                ) && (e == (Error::MalformedInput { offset: pos }) || e
                    == Error::UnsupportedAlgorithm),
            },
    {
        let (len, start) = match read_length(input, pos) {
            Some(v) => v,
            None => {
                return Err(Error::MalformedInput { offset: pos });
            },
        };
        let len: usize = len as usize;
        if len < 1 || input.len() - start < len {
            return Err(Error::MalformedInput { offset: pos });
        }
        let type_octet = input[start];
        let body = slice_subrange(input, start + 1, start + len);
        match read_body(type_octet % 128, type_octet >= 128, body, pos) {
            Ok(sp) => Ok((sp, start + len)),
            Err(e) => Err(e),
        }
    }
}

/// Reads subpackets from `pos` to the end of `input`.
pub fn read_subpackets(input: &[u8], pos: usize) -> (r: Result<Vec<Subpacket>, Error>)
    ensures
        match r {
            Ok(list) => parse_subpackets(input@, pos as int) == Ok::<Seq<SubpacketView>, Error>(
                subpackets_view(list@),
            ),
            Err(e) => parse_subpackets(input@, pos as int) == Err::<Seq<SubpacketView>, Error>(e)
                && (e == Error::UnsupportedAlgorithm || exists|o: usize|
                    pos <= o < input@.len() && e == (Error::MalformedInput { offset: o })),
        },
{
    let mut list: Vec<Subpacket> = Vec::new();
    let mut at: usize = pos;
    while at < input.len()
        invariant
            pos <= at,
            parse_subpackets(input@, pos as int) == prepend_parsed(
                subpackets_view(list@),
                parse_subpackets(input@, at as int),
            ),
        decreases input@.len() - at,
    {
        match Subpacket::parse(input, at) {
            Ok((sp, next)) => {
                proof {
                    let done = subpackets_view(list@);
                    let rest = parse_subpackets(input@, next as int);
                    assert(subpackets_view(list@.push(sp)) =~= done.push(sp@));
                    match rest {
                        Ok(more) => {
                            assert(done + (seq![sp@] + more) =~= done.push(sp@) + more);
                        },
                        Err(_) => {},
                    }
                }
                list.push(sp);
                at = next;
            },
            Err(e) => {
                return Err(e);
            },
        }
    }
    proof {
        assert(subpackets_view(list@) + Seq::<SubpacketView>::empty() =~= subpackets_view(list@));
    }
    Ok(list)
}

/// The result of a reader that has read `done` and goes on with `rest`.
pub open spec fn prepend_parsed(
    done: Seq<SubpacketView>,
    rest: Result<Seq<SubpacketView>, Error>,
) -> Result<Seq<SubpacketView>, Error> {
    match rest {
        Ok(more) => Ok(done + more),
        Err(e) => Err(e),
    }
}

} // verus!
