//! Signatures: their model, the octets that are hashed for a certification,
//! and the making and checking of certifications.
//!
//! The octets that a signature covers are a prologue that depends on what is
//! signed, then the signature data (version, type, algorithms, the two-octet
//! length of the hashed subpacket area, the area) and the trailer (version,
//! `0xFF`, the four-octet length of the signature data). The prologue of a
//! certification is the key prologue (`0x99`, the two-octet length of the
//! public-key packet body, the body) and the identity prologue (`0xB4` for a
//! user id or `0xD1` for a user attribute, the four-octet length of the packet
//! body, the body). The prologue of a signature on a key is its key prologue,
//! that of a signature on a subkey the key prologues of key and subkey. A
//! version 3 signature covers the prologue, without marker and length before
//! an identity, then its type and its creation time.
//!
//! The engines that sign and verify are behind the key traits. Every function
//! here that asks a key states what holds whatever the key answers, and has
//! beside it the functions that do the work before and after the answer.

use crate::crypto::hash::HashAlgorithm;
use crate::crypto::public_key::PublicKeyAlgorithm;
use crate::errors::Error;
use crate::packet::subpacket::{
    lemma_parse_subpackets_roundtrip, parse_subpackets, subpackets_encodable,
    subpackets_serialized, subpackets_view, write_subpackets, Subpacket, SubpacketView,
};
use crate::ser::{encoding, to_bytes, Serialize};
use crate::types::key_id::KeyId;
use crate::types::key_traits::{mpis_view, PublicKeyTrait, SecretKeyTrait};
use crate::types::tag::Tag;
use crate::util::{
    append_bytes, bytes_eq, is_stripped, lemma_strip_zeros, strip_leading_zeros, strip_zeros,
    u16_be, u32_be, write_u16_be, write_u32_be,
};
use vstd::prelude::*;

verus! {

/// What a signature asserts.
#[derive(Debug, Clone, Copy, PartialEq, Eq, Structural)]
pub enum SignatureType {
    /// Signature of a binary document.
    Binary,
    /// Signature of a canonical text document.
    Text,
    /// Standalone signature.
    Standalone,
    /// Generic certification of a user id and public-key packet.
    CertGeneric,
    /// Persona certification of a user id and public-key packet.
    CertPersona,
    /// Casual certification of a user id and public-key packet.
    CertCasual,
    /// Positive certification of a user id and public-key packet.
    CertPositive,
    /// Subkey binding signature.
    SubkeyBinding,
    /// Primary key binding signature.
    PrimaryKeyBinding,
    /// Signature directly on a key.
    DirectKey,
    /// Key revocation signature.
    KeyRevocation,
    /// Subkey revocation signature.
    SubkeyRevocation,
    /// Certification revocation signature.
    CertRevocation,
    /// Timestamp signature.
    Timestamp,
    /// Third-party confirmation signature.
    ThirdParty,
}

impl SignatureType {
    /// The type octet.
    pub open spec fn id(self) -> u8 {
        match self {
            SignatureType::Binary => 0x00,
            SignatureType::Text => 0x01,
            SignatureType::Standalone => 0x02,
            SignatureType::CertGeneric => 0x10,
            SignatureType::CertPersona => 0x11,
            SignatureType::CertCasual => 0x12,
            SignatureType::CertPositive => 0x13,
            SignatureType::SubkeyBinding => 0x18,
            SignatureType::PrimaryKeyBinding => 0x19,
            SignatureType::DirectKey => 0x1F,
            SignatureType::KeyRevocation => 0x20,
            SignatureType::SubkeyRevocation => 0x28,
            SignatureType::CertRevocation => 0x30,
            SignatureType::Timestamp => 0x40,
            SignatureType::ThirdParty => 0x50,
        }
    }

    /// The type that an octet names, if any.
    pub open spec fn of_id(v: u8) -> Option<SignatureType> {
        if v == 0x00 {
            Some(SignatureType::Binary)
        } else if v == 0x01 {
            Some(SignatureType::Text)
        } else if v == 0x02 {
            Some(SignatureType::Standalone)
        } else if v == 0x10 {
            Some(SignatureType::CertGeneric)
        } else if v == 0x11 {
            Some(SignatureType::CertPersona)
        } else if v == 0x12 {
            Some(SignatureType::CertCasual)
        } else if v == 0x13 {
            Some(SignatureType::CertPositive)
        } else if v == 0x18 {
            Some(SignatureType::SubkeyBinding)
        } else if v == 0x19 {
            Some(SignatureType::PrimaryKeyBinding)
        } else if v == 0x1F {
            Some(SignatureType::DirectKey)
        } else if v == 0x20 {
            Some(SignatureType::KeyRevocation)
        } else if v == 0x28 {
            Some(SignatureType::SubkeyRevocation)
        } else if v == 0x30 {
            Some(SignatureType::CertRevocation)
        } else if v == 0x40 {
            Some(SignatureType::Timestamp)
        } else if v == 0x50 {
            Some(SignatureType::ThirdParty)
        } else {
            None
        }
    }

    /// Whether the type certifies a user id or user attribute.
    pub open spec fn is_certification(self) -> bool {
        self == SignatureType::CertGeneric || self == SignatureType::CertPersona || self
            == SignatureType::CertCasual || self == SignatureType::CertPositive
    }

    /// The type octet.
    pub fn to_u8(self) -> (r: u8)
        ensures
            r == self.id(),
    {
        match self {
            SignatureType::Binary => 0x00,
            SignatureType::Text => 0x01,
            SignatureType::Standalone => 0x02,
            SignatureType::CertGeneric => 0x10,
            SignatureType::CertPersona => 0x11,
            SignatureType::CertCasual => 0x12,
            SignatureType::CertPositive => 0x13,
            SignatureType::SubkeyBinding => 0x18,
            SignatureType::PrimaryKeyBinding => 0x19,
            SignatureType::DirectKey => 0x1F,
            SignatureType::KeyRevocation => 0x20,
            SignatureType::SubkeyRevocation => 0x28,
            SignatureType::CertRevocation => 0x30,
            SignatureType::Timestamp => 0x40,
            SignatureType::ThirdParty => 0x50,
        }
    }

    /// The type that `v` names; `None` for any other octet.
    pub fn from_u8(v: u8) -> (r: Option<SignatureType>)
        ensures
            r == SignatureType::of_id(v),
    {
        match v {
            0x00 => Some(SignatureType::Binary),
            0x01 => Some(SignatureType::Text),
            0x02 => Some(SignatureType::Standalone),
            0x10 => Some(SignatureType::CertGeneric),
            0x11 => Some(SignatureType::CertPersona),
            0x12 => Some(SignatureType::CertCasual),
            0x13 => Some(SignatureType::CertPositive),
            0x18 => Some(SignatureType::SubkeyBinding),
            0x19 => Some(SignatureType::PrimaryKeyBinding),
            0x1F => Some(SignatureType::DirectKey),
            0x20 => Some(SignatureType::KeyRevocation),
            0x28 => Some(SignatureType::SubkeyRevocation),
            0x30 => Some(SignatureType::CertRevocation),
            0x40 => Some(SignatureType::Timestamp),
            0x50 => Some(SignatureType::ThirdParty),
            _ => None,
        }
    }

    /// Whether the type certifies a user id or user attribute.
    pub fn certifies(self) -> (r: bool)
        ensures
            r == self.is_certification(),
    {
        match self {
            SignatureType::CertGeneric
            | SignatureType::CertPersona
            | SignatureType::CertCasual
            | SignatureType::CertPositive => true,
            _ => false,
        }
    }
}

/// Every signature type is found again from its octet.
pub proof fn lemma_signature_type_id_roundtrip(t: SignatureType)
    ensures
        SignatureType::of_id(t.id()) == Some(t),
{
}

/// The versions of signature packets.
#[derive(Debug, Clone, Copy, PartialEq, Eq, Structural)]
pub enum SignatureVersion {
    /// The old layout: creation time and issuer in fixed fields, no subpackets.
    V3,
    /// The layout with hashed and unhashed subpacket areas.
    V4,
}

impl SignatureVersion {
    /// The version octet.
    pub open spec fn id(self) -> u8 {
        match self {
            SignatureVersion::V3 => 3,
            SignatureVersion::V4 => 4,
        }
    }

    /// The version octet.
    pub fn to_u8(self) -> (r: u8)
        ensures
            r == self.id(),
    {
        match self {
            SignatureVersion::V3 => 3,
            SignatureVersion::V4 => 4,
        }
    }
}

/// What is fixed of a signature before it is made: its version, its type,
/// its algorithms and, by version, its two subpacket lists or its creation
/// time and issuer.
#[derive(Debug, Clone, PartialEq, Eq)]
pub struct SignatureConfig {
    pub version: SignatureVersion,
    pub typ: SignatureType,
    pub pub_alg: PublicKeyAlgorithm,
    pub hash_alg: HashAlgorithm,
    pub unhashed_subpackets: Vec<Subpacket>,
    pub hashed_subpackets: Vec<Subpacket>,
    /// The creation time; set on version 3 signatures only.
    pub created: Option<u32>,
    /// The key id of the issuer; set on version 3 signatures only.
    pub issuer: Option<KeyId>,
}

/// The mathematical content of a [`SignatureConfig`].
pub ghost struct SignatureConfigView {
    pub version: SignatureVersion,
    pub typ: SignatureType,
    pub pub_alg: PublicKeyAlgorithm,
    pub hash_alg: HashAlgorithm,
    pub unhashed: Seq<SubpacketView>,
    pub hashed: Seq<SubpacketView>,
    pub created: Option<u32>,
    pub issuer: Option<Seq<u8>>,
}

/// The view of an optional key id.
pub open spec fn key_id_view(id: Option<KeyId>) -> Option<Seq<u8>> {
    match id {
        Some(id) => Some(id@),
        None => None,
    }
}

impl View for SignatureConfig {
    type V = SignatureConfigView;

    open spec fn view(&self) -> SignatureConfigView {
        SignatureConfigView {
            version: self.version,
            typ: self.typ,
            pub_alg: self.pub_alg,
            hash_alg: self.hash_alg,
            unhashed: subpackets_view(self.unhashed_subpackets@),
            hashed: subpackets_view(self.hashed_subpackets@),
            created: self.created,
            issuer: key_id_view(self.issuer),
        }
    }
}

/// The version octet of the signatures that this crate makes.
pub const SIGNATURE_VERSION: u8 = 4;

/// The key prologue: `0x99`, the length of the public-key packet body in two
/// octets, the body.
pub open spec fn key_prologue(key_body: Seq<u8>) -> Seq<u8>
    recommends
        key_body.len() <= 0xffff,
{
    seq![0x99u8] + u16_be(key_body.len() as u16) + key_body
}

/// The octet that introduces the certified identity: `0xB4` for a user id,
/// `0xD1` for a user attribute.
pub open spec fn identity_marker(tag: Tag) -> u8 {
    if tag == Tag::UserId {
        0xB4
    } else {
        0xD1
    }
}

/// The identity prologue: the marker of the identity's kind, the length of
/// its packet body in four octets, the body.
pub open spec fn identity_prologue(tag: Tag, id_body: Seq<u8>) -> Seq<u8>
    recommends
        id_body.len() <= u32::MAX,
{
    seq![identity_marker(tag)] + u32_be(id_body.len() as u32) + id_body
}

/// The signature data: version, type, algorithms, the length of the hashed
/// subpacket area in two octets, the area.
pub open spec fn signature_data(
    typ: SignatureType,
    pub_alg: PublicKeyAlgorithm,
    hash_alg: HashAlgorithm,
    hashed_area: Seq<u8>,
) -> Seq<u8>
    recommends
        hashed_area.len() <= 0xffff,
{
    seq![SIGNATURE_VERSION, typ.id(), pub_alg.id(), hash_alg.id()] + u16_be(
        hashed_area.len() as u16,
    ) + hashed_area
}

/// The trailer: version, `0xFF`, the length of the signature data in four
/// octets.
pub open spec fn trailer(data_len: nat) -> Seq<u8>
    recommends
        data_len <= u32::MAX,
{
    seq![SIGNATURE_VERSION, 0xffu8] + u32_be(data_len as u32)
}

/// Whether the octets to be hashed can be laid out: the identity is a user id
/// or user attribute, and every length fits the field that carries it.
pub open spec fn can_certify(key_body: Seq<u8>, tag: Tag, id_body: Seq<u8>, hashed_area: Seq<u8>) -> bool {
    &&& tag == Tag::UserId || tag == Tag::UserAttribute
    &&& key_body.len() <= 0xffff
    &&& id_body.len() <= u32::MAX
    &&& hashed_area.len() <= 0xffff
}

/// The octets that a certification covers.
pub open spec fn certification_tbh(
    typ: SignatureType,
    pub_alg: PublicKeyAlgorithm,
    hash_alg: HashAlgorithm,
    hashed_area: Seq<u8>,
    key_body: Seq<u8>,
    tag: Tag,
    id_body: Seq<u8>,
) -> Seq<u8> {
    key_prologue(key_body) + identity_prologue(tag, id_body) + signature_data(
        typ,
        pub_alg,
        hash_alg,
        hashed_area,
    ) + trailer(signature_data(typ, pub_alg, hash_alg, hashed_area).len())
}

/// The octets that a version 3 certification covers: the key prologue, the
/// packet body of the identity without any header, the signature type and
/// the creation time.
pub open spec fn certification_tbh_v3(
    typ: SignatureType,
    created: u32,
    key_body: Seq<u8>,
    id_body: Seq<u8>,
) -> Seq<u8> {
    key_prologue(key_body) + id_body + seq![typ.id()] + u32_be(created)
}

impl SignatureConfigView {
    /// Whether the fixed fields fit the version: a version 3 signature states
    /// its creation time and issuer, a version 4 signature leaves both to
    /// its subpackets.
    pub open spec fn well_formed(self) -> bool {
        match self.version {
            SignatureVersion::V3 => self.created is Some && self.issuer is Some,
            SignatureVersion::V4 => self.created is None && self.issuer is None,
        }
    }

    /// Whether the octets that a certification under this configuration
    /// covers can be laid out.
    pub open spec fn can_certify(
        self,
        key_body: Seq<u8>,
        tag: Tag,
        id_body: Seq<u8>,
        hashed_area: Seq<u8>,
    ) -> bool {
        &&& self.well_formed()
        &&& match self.version {
            SignatureVersion::V3 => (tag == Tag::UserId || tag == Tag::UserAttribute)
                && key_body.len() <= 0xffff,
            SignatureVersion::V4 => can_certify(key_body, tag, id_body, hashed_area),
        }
    }

    /// The octets that a certification under this configuration covers, with
    /// `hashed_area` as the octets of its hashed subpackets. The unhashed
    /// subpackets take no part in them.
    pub open spec fn tbh(
        self,
        hashed_area: Seq<u8>,
        key_body: Seq<u8>,
        tag: Tag,
        id_body: Seq<u8>,
    ) -> Seq<u8> {
        match self.version {
            SignatureVersion::V3 => certification_tbh_v3(
                self.typ,
                match self.created {
                    Some(t) => t,
                    None => 0,
                },
                key_body,
                id_body,
            ),
            SignatureVersion::V4 => certification_tbh(
                self.typ,
                self.pub_alg,
                self.hash_alg,
                hashed_area,
                key_body,
                tag,
                id_body,
            ),
        }
    }
}

/// Lays out the octets that a version 3 certification covers; `None` when
/// they cannot be laid out.
pub fn build_certification_tbh_v3(
    typ: SignatureType,
    created: u32,
    key_body: &[u8],
    tag: Tag,
    id_body: &[u8],
) -> (r: Option<Vec<u8>>)
    ensures
        r is Some <==> (tag == Tag::UserId || tag == Tag::UserAttribute) && key_body@.len()
            <= 0xffff,
        r matches Some(tbh) ==> tbh@ == certification_tbh_v3(typ, created, key_body@, id_body@),
{
    match tag {
        Tag::UserId | Tag::UserAttribute => {},
        _ => {
            return None;
        },
    }
    if key_body.len() > 0xffff {
        return None;
    }
    let mut tbh: Vec<u8> = Vec::new();
    write_key_prologue(key_body, &mut tbh);
    append_bytes(&mut tbh, id_body);
    tbh.push(typ.to_u8());
    write_u32_be(created, &mut tbh);
    assert(tbh@ =~= certification_tbh_v3(typ, created, key_body@, id_body@));
    Some(tbh)
}

/// Lays out the octets that a certification covers; `None` when they cannot
/// be laid out.
pub fn build_certification_tbh(
    typ: SignatureType,
    pub_alg: PublicKeyAlgorithm,
    hash_alg: HashAlgorithm,
    hashed_area: &[u8],
    key_body: &[u8],
    tag: Tag,
    id_body: &[u8],
) -> (r: Option<Vec<u8>>)
    ensures
        r is Some <==> can_certify(key_body@, tag, id_body@, hashed_area@),
        r matches Some(tbh) ==> tbh@ == certification_tbh(
            typ,
            pub_alg,
            hash_alg,
            hashed_area@,
            key_body@,
            tag,
            id_body@,
        ),
{
    let marker: u8 = match tag {
        Tag::UserId => 0xB4,
        Tag::UserAttribute => 0xD1,
        _ => {
            return None;
        },
    };
    if key_body.len() > 0xffff || id_body.len() > 0xffff_ffff || hashed_area.len() > 0xffff {
        return None;
    }
    let mut tbh: Vec<u8> = Vec::new();
    write_key_prologue(key_body, &mut tbh);
    write_identity_prologue(tag, marker, id_body, &mut tbh);
    write_signature_data(typ, pub_alg, hash_alg, hashed_area, &mut tbh);
    write_trailer((6 + hashed_area.len()) as u32, &mut tbh);
    assert(tbh@ =~= certification_tbh(
        typ,
        pub_alg,
        hash_alg,
        hashed_area@,
        key_body@,
        tag,
        id_body@,
    ));
    Some(tbh)
}

/// Appends the key prologue.
fn write_key_prologue(key_body: &[u8], w: &mut Vec<u8>)
    requires
        key_body@.len() <= 0xffff,
    ensures
        final(w)@ == old(w)@ + key_prologue(key_body@),
{
    w.push(0x99);
    write_u16_be(key_body.len() as u16, w);
    append_bytes(w, key_body);
    assert(w@ =~= old(w)@ + key_prologue(key_body@));
}

/// Appends the identity prologue.
fn write_identity_prologue(tag: Tag, marker: u8, id_body: &[u8], w: &mut Vec<u8>)
    requires
        id_body@.len() <= u32::MAX,
        marker == identity_marker(tag),
    ensures
        final(w)@ == old(w)@ + identity_prologue(tag, id_body@),
{
    w.push(marker);
    write_u32_be(id_body.len() as u32, w);
    append_bytes(w, id_body);
    assert(w@ =~= old(w)@ + identity_prologue(tag, id_body@));
}

/// Appends the signature data.
fn write_signature_data(
    typ: SignatureType,
    pub_alg: PublicKeyAlgorithm,
    hash_alg: HashAlgorithm,
    hashed_area: &[u8],
    w: &mut Vec<u8>,
)
    requires
        hashed_area@.len() <= 0xffff,
    ensures
        final(w)@ == old(w)@ + signature_data(typ, pub_alg, hash_alg, hashed_area@),
        signature_data(typ, pub_alg, hash_alg, hashed_area@).len() == 6 + hashed_area@.len(),
{
    w.push(SIGNATURE_VERSION);
    w.push(typ.to_u8());
    w.push(pub_alg.to_u8());
    w.push(hash_alg.to_u8());
    write_u16_be(hashed_area.len() as u16, w);
    append_bytes(w, hashed_area);
    assert(w@ =~= old(w)@ + signature_data(typ, pub_alg, hash_alg, hashed_area@));
}

/// Appends the trailer for signature data of `data_len` octets.
fn write_trailer(data_len: u32, w: &mut Vec<u8>)
    ensures
        final(w)@ == old(w)@ + trailer(data_len as nat),
{
    w.push(SIGNATURE_VERSION);
    w.push(0xff);
    write_u32_be(data_len, w);
    assert(w@ =~= old(w)@ + trailer(data_len as nat));
}

/// A signature: its configuration, the octets of its hashed subpacket area
/// exactly as they were hashed, the first two octets of the digest, and the
/// integers that the signing engine produced.
#[derive(Debug, Clone, PartialEq, Eq)]
pub struct Signature {
    pub config: SignatureConfig,
    pub hashed_area: Vec<u8>,
    pub signed_hash_value: [u8; 2],
    pub signature: Vec<Vec<u8>>,
}

/// The mathematical content of a [`Signature`].
pub ghost struct SignatureView {
    pub config: SignatureConfigView,
    pub hashed_area: Seq<u8>,
    pub signed_hash_value: Seq<u8>,
    pub signature: Seq<Seq<u8>>,
}

impl View for Signature {
    type V = SignatureView;

    open spec fn view(&self) -> SignatureView {
        SignatureView {
            config: self.config@,
            hashed_area: self.hashed_area@,
            signed_hash_value: self.signed_hash_value@,
            signature: mpis_view(self.signature@),
        }
    }
}

/// The views of a list of signatures, in order.
pub open spec fn signatures_view(list: Seq<Signature>) -> Seq<SignatureView> {
    list.map_values(|s: Signature| s@)
}

/// The integers of a signature with their leading zero octets removed.
pub open spec fn stripped_mpis(raw: Seq<Seq<u8>>) -> Seq<Seq<u8>> {
    raw.map_values(|m: Seq<u8>| strip_zeros(m))
}

/// Whether a list of subpackets holds an opaque record that is marked critical.
pub open spec fn has_critical_unknown(list: Seq<SubpacketView>) -> bool {
    exists|i: int| 0 <= i < list.len() && (#[trigger] list[i]).is_critical()
}

impl SignatureView {
    /// Whether the parts of the signature agree: the hashed area is the
    /// octets of the hashed subpackets as a reader sees them, the digest
    /// prefix is two octets, and no integer starts with a zero octet.
    pub open spec fn well_formed(self) -> bool {
        &&& self.config.well_formed()
        &&& parse_subpackets(self.hashed_area, 0) == Ok::<Seq<SubpacketView>, Error>(
            self.config.hashed,
        )
        &&& self.signed_hash_value.len() == 2
        &&& forall|i: int| 0 <= i < self.signature.len() ==> is_stripped(#[trigger] self.signature[i])
    }

    /// The octets that the signature covers as a certification of the
    /// identity `id_body` of kind `tag` under the key with body `key_body`.
    /// The unhashed subpackets take no part in them.
    pub open spec fn tbh(self, key_body: Seq<u8>, tag: Tag, id_body: Seq<u8>) -> Seq<u8> {
        self.config.tbh(self.hashed_area, key_body, tag, id_body)
    }

    /// The digest of the octets that the signature covers.
    pub open spec fn digest(self, key_body: Seq<u8>, tag: Tag, id_body: Seq<u8>) -> Seq<u8> {
        self.config.hash_alg.digest_spec(self.tbh(key_body, tag, id_body))
    }

    /// Whether the signature is the certification that is made from `config`
    /// for the given key and identity: it has that configuration, the encoding
    /// of the hashed subpackets as its hashed area, and the first two octets
    /// of the digest of the covered octets as its digest prefix.
    pub open spec fn certifies(
        self,
        config: SignatureConfigView,
        key_body: Seq<u8>,
        tag: Tag,
        id_body: Seq<u8>,
    ) -> bool {
        &&& self.config == config
        &&& self.hashed_area == subpackets_serialized(config.hashed)
        &&& self.signed_hash_value == self.digest(key_body, tag, id_body).take(2)
        &&& self.well_formed()
    }

    /// The outcome of checking the signature as a certification, given what
    /// the key's engine says of the digest and the integers. A critical
    /// opaque record among the hashed subpackets is refused first; then an
    /// identity that cannot be hashed; then a digest prefix that differs; then
    /// what the engine refuses.
    pub open spec fn verification(
        self,
        key_body: Seq<u8>,
        tag: Tag,
        id_body: Option<Seq<u8>>,
        engine_accepts: bool,
    ) -> Result<(), Error> {
        if has_critical_unknown(self.config.hashed) {
            Err(Error::CriticalUnknown)
        } else if id_body is None || !self.config.can_certify(
            key_body,
            tag,
            id_body->0,
            self.hashed_area,
        ) {
            Err(Error::MalformedInput { offset: 0 })
        } else if self.digest(key_body, tag, id_body->0).take(2) != self.signed_hash_value {
            Err(Error::VerificationFailed)
        } else if !engine_accepts {
            Err(Error::VerificationFailed)
        } else {
            Ok(())
        }
    }
}

/// Removes the leading zero octets of every integer of `raw`.
fn strip_mpis(raw: Vec<Vec<u8>>) -> (r: Vec<Vec<u8>>)
    ensures
        mpis_view(r@) == stripped_mpis(mpis_view(raw@)),
        forall|i: int| 0 <= i < r@.len() ==> is_stripped(#[trigger] mpis_view(r@)[i]),
{
    let mut r: Vec<Vec<u8>> = Vec::new();
    let mut i: usize = 0;
    while i < raw.len()
        invariant
            i <= raw.len(),
            r@.len() == i,
            forall|j: int| 0 <= j < i ==> (#[trigger] r@[j])@ == strip_zeros(raw@[j]@),
        decreases raw.len() - i,
    {
        r.push(strip_leading_zeros(raw[i].as_slice()));
        i += 1;
    }
    assert(mpis_view(r@) =~= stripped_mpis(mpis_view(raw@)));
    assert forall|i: int| 0 <= i < r@.len() implies is_stripped(#[trigger] mpis_view(r@)[i]) by {
        lemma_strip_zeros(raw@[i]@);
    }
    r
}

/// Whether a list of subpackets holds an opaque record that is marked critical.
pub fn contains_critical_unknown(list: &Vec<Subpacket>) -> (r: bool)
    ensures
        r == has_critical_unknown(subpackets_view(list@)),
{
    let mut i: usize = 0;
    while i < list.len()
        invariant
            i <= list.len(),
            forall|j: int| 0 <= j < i ==> !(#[trigger] subpackets_view(list@)[j]).is_critical(),
        decreases list.len() - i,
    {
        if list[i].is_critical() {
            assert(subpackets_view(list@)[i as int].is_critical());
            return true;
        }
        i += 1;
    }
    false
}

impl SignatureConfig {
    /// Creates the configuration of a version 4 signature.
    pub fn new_v4(
        typ: SignatureType,
        pub_alg: PublicKeyAlgorithm,
        hash_alg: HashAlgorithm,
        hashed_subpackets: Vec<Subpacket>,
        unhashed_subpackets: Vec<Subpacket>,
    ) -> (r: SignatureConfig)
        ensures
            r@ == (SignatureConfigView {
                version: SignatureVersion::V4,
                typ,
                pub_alg,
                hash_alg,
                unhashed: subpackets_view(unhashed_subpackets@),
                hashed: subpackets_view(hashed_subpackets@),
                created: None,
                issuer: None,
            }),
            r@.well_formed(),
    {
        SignatureConfig {
            version: SignatureVersion::V4,
            typ,
            pub_alg,
            hash_alg,
            unhashed_subpackets,
            hashed_subpackets,
            created: None,
            issuer: None,
        }
    }

    /// Creates the configuration of a version 3 signature.
    pub fn new_v3(
        typ: SignatureType,
        pub_alg: PublicKeyAlgorithm,
        hash_alg: HashAlgorithm,
        created: u32,
        issuer: KeyId,
    ) -> (r: SignatureConfig)
        ensures
            r@ == (SignatureConfigView {
                version: SignatureVersion::V3,
                typ,
                pub_alg,
                hash_alg,
                unhashed: Seq::empty(),
                hashed: Seq::empty(),
                created: Some(created),
                issuer: Some(issuer@),
            }),
            r@.well_formed(),
    {
        let r = SignatureConfig {
            version: SignatureVersion::V3,
            typ,
            pub_alg,
            hash_alg,
            unhashed_subpackets: Vec::new(),
            hashed_subpackets: Vec::new(),
            created: Some(created),
            issuer: Some(issuer),
        };
        assert(r@.unhashed =~= Seq::empty());
        assert(r@.hashed =~= Seq::empty());
        r
    }

    /// Whether the fixed fields fit the version.
    pub fn is_well_formed(&self) -> (r: bool)
        ensures
            r == self@.well_formed(),
    {
        match self.version {
            SignatureVersion::V3 => self.created.is_some() && self.issuer.is_some(),
            SignatureVersion::V4 => self.created.is_none() && self.issuer.is_none(),
        }
    }

    /// Lays out the octets that a certification under this configuration
    /// covers, with `hashed_area` as the octets of its hashed subpackets;
    /// `None` when they cannot be laid out.
    pub fn build_tbh(&self, hashed_area: &[u8], key_body: &[u8], tag: Tag, id_body: &[u8]) -> (r:
        Option<Vec<u8>>)
        ensures
            r is Some <==> self@.can_certify(key_body@, tag, id_body@, hashed_area@),
            r matches Some(tbh) ==> tbh@ == self@.tbh(hashed_area@, key_body@, tag, id_body@),
    {
        if !self.is_well_formed() {
            return None;
        }
        match self.version {
            SignatureVersion::V3 => {
                let created = match self.created {
                    Some(t) => t,
                    None => 0,
                };
                build_certification_tbh_v3(self.typ, created, key_body, tag, id_body)
            },
            SignatureVersion::V4 => build_certification_tbh(
                self.typ,
                self.pub_alg,
                self.hash_alg,
                hashed_area,
                key_body,
                tag,
                id_body,
            ),
        }
    }

    /// The hashed subpacket area: the encodings of the hashed subpackets, one
    /// after the other. Refused when a subpacket has no encoding.
    pub fn hashed_area(&self) -> (r: Result<Vec<u8>, Error>)
        ensures
            r is Ok <==> subpackets_encodable(self@.hashed),
            r matches Ok(area) ==> area@ == subpackets_serialized(self@.hashed),
            r matches Err(e) ==> e == (Error::MalformedInput { offset: 0 }),
    {
        let mut area: Vec<u8> = Vec::new();
        match write_subpackets(&self.hashed_subpackets, &mut area) {
            Ok(()) => {
                assert(area@ =~= subpackets_serialized(self@.hashed));
                Ok(area)
            },
            Err(e) => Err(e),
        }
    }

    /// Makes the certification of the identity `id` of kind `tag` under
    /// `key`: lays out the covered octets, hashes them, and has the key sign
    /// the digest.
    ///
    /// The key is asked for its public-key packet body and then for a
    /// signature over the digest. Whatever it answers: a certification that
    /// comes back is the certification of the identity under this
    /// configuration and the body that the key gave, and an identity or a
    /// hashed subpacket without an encoding is refused. The steps before and
    /// after the key's signature are [`SignatureConfig::prepare_certificate`]
    /// and [`PendingSignature::complete`].
    pub fn sign_certificate<K: SecretKeyTrait, F, I: Serialize>(
        self,
        key: &K,
        key_pw: F,
        tag: Tag,
        id: &I,
    ) -> (r: Result<Signature, Error>) where F: FnOnce() -> String
        ensures
            !(subpackets_encodable(self@.hashed) && id.encodable() && (tag == Tag::UserId || tag
                == Tag::UserAttribute)) ==> r == Err::<Signature, Error>(
                Error::MalformedInput { offset: 0 },
            ),
            r matches Ok(sig) ==> exists|key_body: Seq<u8>|
                #![trigger sig@.certifies(self@, key_body, tag, id.serialized())]
                can_sign_certificate(self@, key_body, tag, id.encodable(), id.serialized())
                    && sig@.certifies(self@, key_body, tag, id.serialized()),
    {
        let key_body = key.packet_body();
        let pending = match self.prepare_certificate(key_body.as_slice(), tag, id) {
            Ok(p) => p,
            Err(e) => {
                return Err(e);
            },
        };
        let raw = match key.create_signature(key_pw, pending.hash_algorithm(), pending.digest()) {
            Ok(s) => s,
            Err(e) => {
                return Err(e);
            },
        };
        Ok(pending.complete(raw))
    }

    /// Prepares the certification of the identity `id` of kind `tag` under the
    /// key with packet body `key_body`: lays out the covered octets and hashes
    /// them. What is left to do is to have the digest signed.
    pub fn prepare_certificate<I: Serialize>(self, key_body: &[u8], tag: Tag, id: &I) -> (r: Result<
        PendingSignature,
        Error,
    >)
        ensures
            r is Ok <==> can_sign_certificate(
                self@,
                key_body@,
                tag,
                id.encodable(),
                id.serialized(),
            ),
            r matches Ok(p) ==> p.prepared(self@, key_body@, tag, id.serialized()),
            r matches Err(e) ==> e == (Error::MalformedInput { offset: 0 }),
    {
        let hashed_area = match self.hashed_area() {
            Ok(area) => area,
            Err(e) => {
                return Err(e);
            },
        };
        let id_body = match to_bytes(id) {
            Ok(b) => b,
            Err(e) => {
                return Err(e);
            },
        };
        let tbh = match self.build_tbh(hashed_area.as_slice(), key_body, tag, id_body.as_slice()) {
            Some(t) => t,
            None => {
                return Err(Error::MalformedInput { offset: 0 });
            },
        };
        let digest = self.hash_alg.digest(tbh.as_slice());
        Ok(PendingSignature { config: self, hashed_area, digest })
    }
}

/// A certification whose covered octets have been hashed and whose digest
/// waits to be signed. It is made by [`SignatureConfig::prepare_certificate`]
/// and by nothing else, so that it always holds the encoding of its hashed
/// subpackets and a digest of the length of its hash algorithm.
pub struct PendingSignature {
    config: SignatureConfig,
    hashed_area: Vec<u8>,
    digest: Vec<u8>,
}

impl PendingSignature {
    #[verifier::type_invariant]
    spec fn consistent(self) -> bool {
        &&& self.config@.well_formed()
        &&& subpackets_encodable(self.config@.hashed)
        &&& self.hashed_area@ == subpackets_serialized(self.config@.hashed)
        &&& self.digest@.len() == self.config.hash_alg.digest_size_spec()
    }

    /// The configuration of the certification.
    pub closed spec fn config_view(self) -> SignatureConfigView {
        self.config@
    }

    /// The digest that waits to be signed.
    pub closed spec fn digest_view(self) -> Seq<u8> {
        self.digest@
    }

    /// Whether this is what [`SignatureConfig::prepare_certificate`] yields
    /// for the given configuration, key and identity: it has that
    /// configuration, and its digest is that of the octets that the
    /// certification covers.
    pub open spec fn prepared(
        self,
        config: SignatureConfigView,
        key_body: Seq<u8>,
        tag: Tag,
        id_body: Seq<u8>,
    ) -> bool {
        &&& self.config_view() == config
        &&& self.digest_view() == config.hash_alg.digest_spec(
            config.tbh(subpackets_serialized(config.hashed), key_body, tag, id_body),
        )
    }

    /// The digest that waits to be signed.
    pub fn digest(&self) -> (r: &[u8])
        ensures
            r@ == self.digest_view(),
    {
        self.digest.as_slice()
    }

    /// The hash algorithm of the digest.
    pub fn hash_algorithm(&self) -> (r: HashAlgorithm)
        ensures
            r == self.config_view().hash_alg,
    {
        self.config.hash_alg
    }

    /// Completes the certification with the integers `raw` that the signing
    /// engine returned for the digest; their leading zero octets are removed.
    pub fn complete(self, raw: Vec<Vec<u8>>) -> (r: Signature)
        ensures
            r@.signature == stripped_mpis(mpis_view(raw@)),
            forall|config: SignatureConfigView, key_body: Seq<u8>, tag: Tag, id_body: Seq<u8>|
                self.prepared(config, key_body, tag, id_body) ==> r@.certifies(
                    config,
                    key_body,
                    tag,
                    id_body,
                ),
    {
        proof {
            use_type_invariant(&self);
        }
        let signed_hash_value = [self.digest[0], self.digest[1]];
        assert(signed_hash_value@ =~= self.digest@.take(2));
        Signature::from_parts(self.config, self.hashed_area, signed_hash_value, raw)
    }
}

/// Whether a certification can be made from `config` for the key and the
/// identity: the hashed subpackets and the identity have an encoding and the
/// covered octets can be laid out.
pub open spec fn can_sign_certificate(
    config: SignatureConfigView,
    key_body: Seq<u8>,
    tag: Tag,
    id_encodable: bool,
    id_body: Seq<u8>,
) -> bool {
    &&& subpackets_encodable(config.hashed)
    &&& id_encodable
    &&& config.can_certify(key_body, tag, id_body, subpackets_serialized(config.hashed))
}

impl Signature {
    /// Puts a signature together from its configuration, the encoding of the
    /// hashed subpackets, the digest prefix and the engine's integers, which
    /// are stripped of their leading zero octets.
    fn from_parts(
        config: SignatureConfig,
        hashed_area: Vec<u8>,
        signed_hash_value: [u8; 2],
        signature: Vec<Vec<u8>>,
    ) -> (r: Signature)
        requires
            config@.well_formed(),
            subpackets_encodable(config@.hashed),
            hashed_area@ == subpackets_serialized(config@.hashed),
        ensures
            r@ == (SignatureView {
                config: config@,
                hashed_area: hashed_area@,
                signed_hash_value: signed_hash_value@,
                signature: stripped_mpis(mpis_view(signature@)),
            }),
            r@.well_formed(),
    {
        proof {
            assert(Seq::<u8>::empty() + subpackets_serialized(config@.hashed) =~= hashed_area@);
            lemma_parse_subpackets_roundtrip(Seq::<u8>::empty(), config@.hashed);
        }
        let signature = strip_mpis(signature);
        Signature { config, hashed_area, signed_hash_value, signature }
    }

    /// Puts a signature together from its configuration, the digest prefix
    /// and the engine's integers. Refused as malformed exactly when the
    /// fixed fields do not fit the version or a hashed subpacket has no
    /// encoding.
    pub fn from_config(
        config: SignatureConfig,
        signed_hash_value: [u8; 2],
        signature: Vec<Vec<u8>>,
    ) -> (r: Result<Signature, Error>)
        ensures
            r is Ok <==> config@.well_formed() && subpackets_encodable(config@.hashed),
            r matches Ok(sig) ==> sig@ == (SignatureView {
                config: config@,
                hashed_area: subpackets_serialized(config@.hashed),
                signed_hash_value: signed_hash_value@,
                signature: stripped_mpis(mpis_view(signature@)),
            }) && sig@.well_formed(),
            r matches Err(e) ==> e == (Error::MalformedInput { offset: 0 }),
    {
        if !config.is_well_formed() {
            return Err(Error::MalformedInput { offset: 0 });
        }
        match config.hashed_area() {
            Ok(area) => Ok(Signature::from_parts(config, area, signed_hash_value, signature)),
            Err(e) => Err(e),
        }
    }

    /// Makes the verifier's own checks of the signature as a certification of
    /// the identity `id` of kind `tag` under the key with packet body
    /// `key_body`: rebuilds the covered octets from the hashed area as it was
    /// kept, hashes them and compares the digest prefix. The digest that
    /// comes back is what the key's engine has to judge.
    pub fn check_certificate<I: Serialize>(&self, key_body: &[u8], tag: Tag, id: &I) -> (r: Result<
        Vec<u8>,
        Error,
    >)
        ensures
            match r {
                Ok(digest) => id.encodable() && digest@ == self@.digest(
                    key_body@,
                    tag,
                    id.serialized(),
                ) && self@.verification(key_body@, tag, Some(id.serialized()), true) is Ok,
                Err(e) => self@.verification(
                    key_body@,
                    tag,
                    encoding(id),
                    true,
                ) == Err::<(), Error>(e),
            },
    {
        if contains_critical_unknown(&self.config.hashed_subpackets) {
            return Err(Error::CriticalUnknown);
        }
        let id_body = match to_bytes(id) {
            Ok(b) => b,
            Err(_) => {
                return Err(Error::MalformedInput { offset: 0 });
            },
        };
        let tbh = match self.config.build_tbh(
            self.hashed_area.as_slice(),
            key_body,
            tag,
            id_body.as_slice(),
        ) {
            Some(t) => t,
            None => {
                return Err(Error::MalformedInput { offset: 0 });
            },
        };
        let digest = self.config.hash_alg.digest(tbh.as_slice());
        let prefix = [digest[0], digest[1]];
        assert(prefix@ =~= digest@.take(2));
        if !bytes_eq(prefix.as_slice(), self.signed_hash_value.as_slice()) {
            return Err(Error::VerificationFailed);
        }
        Ok(digest)
    }

    /// Checks the signature as a certification of the identity `id` of kind
    /// `tag` under `key`: makes the verifier's own checks and then asks the
    /// key's engine to judge the digest and the integers.
    ///
    /// The key is asked for its public-key packet body and for its verdict.
    /// Whatever it answers, the outcome is that of [`SignatureView::verification`]
    /// for the body that the key gave and for the verdict of its engine.
    pub fn verify_certificate<K: PublicKeyTrait, I: Serialize>(&self, key: &K, tag: Tag, id: &I) -> (r:
        Result<(), Error>)
        ensures
            exists|key_body: Seq<u8>, engine_accepts: bool|
                r == #[trigger] self@.verification(
                    key_body,
                    tag,
                    encoding(id),
                    engine_accepts,
                ),
    {
        let key_body = key.packet_body();
        let ghost body = encoding(id);
        let digest = match self.check_certificate(key_body.as_slice(), tag, id) {
            Ok(d) => d,
            Err(e) => {
                assert(Err::<(), Error>(e) == self@.verification(key_body@, tag, body, true));
                return Err(e);
            },
        };
        match key.verify_signature(self.config.hash_alg, digest.as_slice(), &self.signature) {
            Ok(()) => {
                assert(Ok::<(), Error>(()) == self@.verification(key_body@, tag, body, true));
                Ok(())
            },
            Err(_) => {
                assert(Err::<(), Error>(Error::VerificationFailed) == self@.verification(
                    key_body@,
                    tag,
                    body,
                    false,
                ));
                Err(Error::VerificationFailed)
            },
        }
    }
}

/// A certification that was just made passes every check that the verifier
/// makes itself on its own rebuilding of the covered octets: when none of the
/// hashed subpackets is a critical opaque record, the outcome of verification
/// is the verdict of the key's engine on the digest that was signed.
pub proof fn lemma_fresh_certification_verifies(
    sig: SignatureView,
    config: SignatureConfigView,
    key_body: Seq<u8>,
    tag: Tag,
    id_body: Seq<u8>,
    engine_accepts: bool,
)
    requires
        sig.certifies(config, key_body, tag, id_body),
        can_sign_certificate(config, key_body, tag, true, id_body),
        !has_critical_unknown(config.hashed),
    ensures
        sig.verification(key_body, tag, Some(id_body), engine_accepts) == (if engine_accepts {
            Ok::<(), Error>(())
        } else {
            Err::<(), Error>(Error::VerificationFailed)
        }),
{
}

/// The covered octets determine the identity: two identities of the same kind
/// with the same covered octets are the same, octet for octet. Changing an
/// octet of a certified identity therefore changes what is hashed.
pub proof fn lemma_tbh_determines_identity(
    config: SignatureConfigView,
    hashed_area: Seq<u8>,
    key_body: Seq<u8>,
    tag: Tag,
    id1: Seq<u8>,
    id2: Seq<u8>,
)
    requires
        config.tbh(hashed_area, key_body, tag, id1) == config.tbh(hashed_area, key_body, tag, id2),
    ensures
        id1 == id2,
{
    let head = key_prologue(key_body);
    let t1 = config.tbh(hashed_area, key_body, tag, id1);
    let t2 = config.tbh(hashed_area, key_body, tag, id2);
    match config.version {
        SignatureVersion::V4 => {
            let data = signature_data(config.typ, config.pub_alg, config.hash_alg, hashed_area);
            let tail = data + trailer(data.len());
            assert(t1 =~= head + identity_prologue(tag, id1) + tail);
            assert(t2 =~= head + identity_prologue(tag, id2) + tail);
            assert(t1.len() == head.len() + 5 + id1.len() + tail.len());
            assert(t2.len() == head.len() + 5 + id2.len() + tail.len());
            let from = (head.len() + 5) as int;
            assert(t1.subrange(from, from + id1.len()) =~= id1);
            assert(t2.subrange(from, from + id2.len()) =~= id2);
        },
        SignatureVersion::V3 => {
            assert(t1.len() == head.len() + id1.len() + 5);
            assert(t2.len() == head.len() + id2.len() + 5);
            let from = head.len() as int;
            assert(t1.subrange(from, from + id1.len()) =~= id1);
            assert(t2.subrange(from, from + id2.len()) =~= id2);
        },
    }
}

/// The unhashed subpackets are not covered: a signature and the same
/// signature with other unhashed subpackets cover the same octets and have the
/// same outcome of verification.
pub proof fn lemma_unhashed_not_covered(
    sig: SignatureView,
    unhashed: Seq<SubpacketView>,
    key_body: Seq<u8>,
    tag: Tag,
    id_body: Option<Seq<u8>>,
    engine_accepts: bool,
)
    ensures
        ({
            let other = SignatureView {
                config: SignatureConfigView { unhashed, ..sig.config },
                ..sig
            };
            &&& forall|id: Seq<u8>| other.tbh(key_body, tag, id) == sig.tbh(key_body, tag, id)
            &&& other.verification(key_body, tag, id_body, engine_accepts) == sig.verification(
                key_body,
                tag,
                id_body,
                engine_accepts,
            )
        }),
{
}

/// A signature with a critical opaque record among its hashed subpackets is
/// refused as such, whatever else holds of it.
pub proof fn lemma_critical_unknown_refused(
    sig: SignatureView,
    i: int,
    key_body: Seq<u8>,
    tag: Tag,
    id_body: Option<Seq<u8>>,
    engine_accepts: bool,
)
    requires
        0 <= i < sig.config.hashed.len(),
        sig.config.hashed[i].is_critical(),
    ensures
        sig.verification(key_body, tag, id_body, engine_accepts) == Err::<(), Error>(
            Error::CriticalUnknown,
        ),
{
}

/// The prologue of a signature that binds a subkey: the key prologue of the
/// primary key, then that of the subkey.
pub open spec fn binding_prologue(key_body: Seq<u8>, subkey_body: Seq<u8>) -> Seq<u8> {
    key_prologue(key_body) + key_prologue(subkey_body)
}

/// The prologue of a certification: the key prologue and the identity; in
/// version 4 with the identity prologue, in version 3 with the bare packet
/// body of the identity.
pub open spec fn certification_prologue(
    version: SignatureVersion,
    key_body: Seq<u8>,
    tag: Tag,
    id_body: Seq<u8>,
) -> Seq<u8> {
    match version {
        SignatureVersion::V3 => key_prologue(key_body) + id_body,
        SignatureVersion::V4 => key_prologue(key_body) + identity_prologue(tag, id_body),
    }
}

impl SignatureConfigView {
    /// Whether what follows the prologue can be laid out: the fixed fields
    /// fit the version and, in version 4, the hashed area fits its length
    /// field.
    pub open spec fn can_hash(self, hashed_area: Seq<u8>) -> bool {
        self.well_formed() && (self.version == SignatureVersion::V4 ==> hashed_area.len()
            <= 0xffff)
    }

    /// The octets that a signature under this configuration covers when the
    /// prologue of its type is `prologue`: the prologue, then in version 4
    /// the signature data and the trailer, and in version 3 the signature
    /// type and the creation time.
    pub open spec fn tbh_over(self, prologue: Seq<u8>, hashed_area: Seq<u8>) -> Seq<u8> {
        match self.version {
            SignatureVersion::V3 => prologue + seq![self.typ.id()] + u32_be(
                match self.created {
                    Some(t) => t,
                    None => 0,
                },
            ),
            SignatureVersion::V4 => prologue + signature_data(
                self.typ,
                self.pub_alg,
                self.hash_alg,
                hashed_area,
            ) + trailer(
                signature_data(self.typ, self.pub_alg, self.hash_alg, hashed_area).len(),
            ),
        }
    }
}

impl SignatureView {
    /// The outcome of checking the signature over the prologue `prologue`,
    /// given what the key's engine says of the digest and the integers;
    /// `None` stands for a prologue that cannot be laid out. The order of the
    /// checks is that of [`SignatureView::verification`].
    pub open spec fn verification_over(
        self,
        prologue: Option<Seq<u8>>,
        engine_accepts: bool,
    ) -> Result<(), Error> {
        if has_critical_unknown(self.config.hashed) {
            Err(Error::CriticalUnknown)
        } else if prologue is None || !self.config.can_hash(self.hashed_area) {
            Err(Error::MalformedInput { offset: 0 })
        } else if self.config.hash_alg.digest_spec(
            self.config.tbh_over(prologue->0, self.hashed_area),
        ).take(2) != self.signed_hash_value {
            Err(Error::VerificationFailed)
        } else if !engine_accepts {
            Err(Error::VerificationFailed)
        } else {
            Ok(())
        }
    }
}

/// The key prologue of a key with packet body `key_body`, when the body fits
/// the two octets of its length.
pub open spec fn key_prologue_of(key_body: Seq<u8>) -> Option<Seq<u8>> {
    if key_body.len() <= 0xffff {
        Some(key_prologue(key_body))
    } else {
        None
    }
}

/// The prologue of a binding of the subkey with packet body `subkey_body` to
/// the key with packet body `key_body`, when both bodies fit the two octets
/// of their lengths.
pub open spec fn binding_prologue_of(key_body: Seq<u8>, subkey_body: Seq<u8>) -> Option<Seq<u8>> {
    if key_body.len() <= 0xffff && subkey_body.len() <= 0xffff {
        Some(binding_prologue(key_body, subkey_body))
    } else {
        None
    }
}

/// The view of an optional octet string.
pub open spec fn octets_view(octets: Option<Vec<u8>>) -> Option<Seq<u8>> {
    match octets {
        Some(o) => Some(o@),
        None => None,
    }
}

/// Lays out the key prologue of `key_body`; `None` when the body is longer
/// than the two octets of its length can say.
pub fn build_key_prologue(key_body: &[u8]) -> (r: Option<Vec<u8>>)
    ensures
        match r {
            Some(p) => key_prologue_of(key_body@) == Some(p@),
            None => key_prologue_of(key_body@) is None,
        },
{
    if key_body.len() > 0xffff {
        return None;
    }
    let mut p: Vec<u8> = Vec::new();
    write_key_prologue(key_body, &mut p);
    assert(p@ =~= key_prologue(key_body@));
    Some(p)
}

/// Lays out the prologue of a subkey binding; `None` when one of the bodies
/// is longer than the two octets of its length can say.
pub fn build_binding_prologue(key_body: &[u8], subkey_body: &[u8]) -> (r: Option<Vec<u8>>)
    ensures
        match r {
            Some(p) => binding_prologue_of(key_body@, subkey_body@) == Some(p@),
            None => binding_prologue_of(key_body@, subkey_body@) is None,
        },
{
    if key_body.len() > 0xffff || subkey_body.len() > 0xffff {
        return None;
    }
    let mut p: Vec<u8> = Vec::new();
    write_key_prologue(key_body, &mut p);
    write_key_prologue(subkey_body, &mut p);
    assert(p@ =~= binding_prologue(key_body@, subkey_body@));
    Some(p)
}

impl SignatureConfig {
    /// Lays out the octets that a signature under this configuration covers
    /// when the prologue of its type is `prologue`; `None` when what follows
    /// the prologue cannot be laid out.
    pub fn build_tbh_over(&self, prologue: &[u8], hashed_area: &[u8]) -> (r: Option<Vec<u8>>)
        ensures
            r is Some <==> self@.can_hash(hashed_area@),
            r matches Some(tbh) ==> tbh@ == self@.tbh_over(prologue@, hashed_area@),
    {
        if !self.is_well_formed() {
            return None;
        }
        let mut tbh: Vec<u8> = Vec::new();
        append_bytes(&mut tbh, prologue);
        match self.version {
            SignatureVersion::V3 => {
                let created = match self.created {
                    Some(t) => t,
                    None => 0,
                };
                tbh.push(self.typ.to_u8());
                write_u32_be(created, &mut tbh);
                assert(tbh@ =~= self@.tbh_over(prologue@, hashed_area@));
            },
            SignatureVersion::V4 => {
                if hashed_area.len() > 0xffff {
                    return None;
                }
                write_signature_data(self.typ, self.pub_alg, self.hash_alg, hashed_area, &mut tbh);
                write_trailer((6 + hashed_area.len()) as u32, &mut tbh);
                assert(tbh@ =~= self@.tbh_over(prologue@, hashed_area@));
            },
        }
        Some(tbh)
    }
}

impl Signature {
    /// Makes the verifier's own checks of the signature over the prologue
    /// `prologue` of its type: lays out the covered octets with the hashed
    /// area as it was kept, hashes them and compares the digest prefix. The
    /// digest that comes back is what the key's engine has to judge.
    pub fn check_over(&self, prologue: &[u8]) -> (r: Result<Vec<u8>, Error>)
        ensures
            match r {
                Ok(digest) => digest@ == self@.config.hash_alg.digest_spec(
                    self@.config.tbh_over(prologue@, self@.hashed_area),
                ) && self@.verification_over(Some(prologue@), true) is Ok,
                Err(e) => self@.verification_over(Some(prologue@), true) == Err::<(), Error>(e),
            },
    {
        if contains_critical_unknown(&self.config.hashed_subpackets) {
            return Err(Error::CriticalUnknown);
        }
        let tbh = match self.config.build_tbh_over(prologue, self.hashed_area.as_slice()) {
            Some(t) => t,
            None => {
                return Err(Error::MalformedInput { offset: 0 });
            },
        };
        let digest = self.config.hash_alg.digest(tbh.as_slice());
        let prefix = [digest[0], digest[1]];
        assert(prefix@ =~= digest@.take(2));
        if !bytes_eq(prefix.as_slice(), self.signed_hash_value.as_slice()) {
            return Err(Error::VerificationFailed);
        }
        Ok(digest)
    }

    /// Checks the signature over an optional prologue with `key`: a missing
    /// prologue is malformed; otherwise the verifier's own checks are made
    /// and the key's engine judges the digest and the integers.
    fn verify_over<K: PublicKeyTrait>(&self, key: &K, prologue: Option<Vec<u8>>) -> (r: Result<
        (),
        Error,
    >)
        ensures
            exists|engine_accepts: bool|
                r == #[trigger] self@.verification_over(octets_view(prologue), engine_accepts),
    {
        let ghost view = octets_view(prologue);
        let prologue = match prologue {
            Some(p) => p,
            None => {
                let e = if contains_critical_unknown(&self.config.hashed_subpackets) {
                    Error::CriticalUnknown
                } else {
                    Error::MalformedInput { offset: 0 }
                };
                assert(Err::<(), Error>(e) == self@.verification_over(view, true));
                return Err(e);
            },
        };
        let digest = match self.check_over(prologue.as_slice()) {
            Ok(d) => d,
            Err(e) => {
                assert(Err::<(), Error>(e) == self@.verification_over(view, true));
                return Err(e);
            },
        };
        match key.verify_signature(self.config.hash_alg, digest.as_slice(), &self.signature) {
            Ok(()) => {
                assert(Ok::<(), Error>(()) == self@.verification_over(view, true));
                Ok(())
            },
            Err(_) => {
                assert(Err::<(), Error>(Error::VerificationFailed) == self@.verification_over(
                    view,
                    false,
                ));
                Err(Error::VerificationFailed)
            },
        }
    }

    /// Checks the signature as a signature of `key` on itself: a direct key
    /// signature or a key revocation, whose prologue is the key prologue.
    ///
    /// The key is asked for its public-key packet body and for its verdict.
    /// Whatever it answers, the outcome is that of
    /// [`SignatureView::verification_over`] for the key prologue of the body
    /// that the key gave and for the verdict of its engine.
    pub fn verify_key<K: PublicKeyTrait>(&self, key: &K) -> (r: Result<(), Error>)
        ensures
            exists|key_body: Seq<u8>, engine_accepts: bool|
                r == #[trigger] self@.verification_over(key_prologue_of(key_body), engine_accepts),
    {
        let key_body = key.packet_body();
        let prologue = build_key_prologue(key_body.as_slice());
        let r = self.verify_over(key, prologue);
        let ghost accepts = choose|a: bool|
            r == #[trigger] self@.verification_over(key_prologue_of(key_body@), a);
        assert(r == self@.verification_over(key_prologue_of(key_body@), accepts));
        r
    }

    /// Checks the signature as a signature of `key` on the subkey with
    /// packet body `subkey_body`: a subkey binding or a subkey revocation,
    /// whose prologue is the key prologue of the key and then that of the
    /// subkey.
    ///
    /// The key is asked for its public-key packet body and for its verdict.
    /// Whatever it answers, the outcome is that of
    /// [`SignatureView::verification_over`] for the binding prologue of the
    /// body that the key gave and for the verdict of its engine.
    pub fn verify_key_binding<K: PublicKeyTrait>(&self, key: &K, subkey_body: &[u8]) -> (r: Result<
        (),
        Error,
    >)
        ensures
            exists|key_body: Seq<u8>, engine_accepts: bool|
                r == #[trigger] self@.verification_over(
                    binding_prologue_of(key_body, subkey_body@),
                    engine_accepts,
                ),
    {
        let key_body = key.packet_body();
        let prologue = build_binding_prologue(key_body.as_slice(), subkey_body);
        let r = self.verify_over(key, prologue);
        let ghost accepts = choose|a: bool|
            r == #[trigger] self@.verification_over(
                binding_prologue_of(key_body@, subkey_body@),
                a,
            );
        assert(r == self@.verification_over(binding_prologue_of(key_body@, subkey_body@), accepts));
        r
    }
}

/// A certification is a signature over the certification prologue: the
/// octets that it covers are those of the general layout.
pub proof fn lemma_certification_is_over_its_prologue(
    config: SignatureConfigView,
    hashed_area: Seq<u8>,
    key_body: Seq<u8>,
    tag: Tag,
    id_body: Seq<u8>,
)
    ensures
        config.tbh(hashed_area, key_body, tag, id_body) == config.tbh_over(
            certification_prologue(config.version, key_body, tag, id_body),
            hashed_area,
        ),
{
    let prologue = certification_prologue(config.version, key_body, tag, id_body);
    assert(config.tbh(hashed_area, key_body, tag, id_body) =~= config.tbh_over(
        prologue,
        hashed_area,
    ));
}

} // verus!
