//! Packet tags and header formats.

use vstd::prelude::*;

verus! {

/// The kinds of packet that the codec dispatches on.
#[derive(Debug, Clone, Copy, PartialEq, Eq, Structural)]
pub enum Tag {
    /// Public-Key Encrypted Session Key Packet
    PublicKeyEncryptedSessionKey,
    /// Signature Packet
    Signature,
    /// One-Pass Signature Packet
    OnePassSignature,
    /// Secret-Key Packet
    SecretKey,
    /// Public-Key Packet
    PublicKey,
    /// Secret-Subkey Packet
    SecretSubkey,
    /// Compressed Data Packet
    CompressedData,
    /// Symmetrically Encrypted Data Packet
    SymmetricallyEncryptedData,
    /// Marker Packet
    Marker,
    /// Literal Data Packet
    LiteralData,
    /// Trust Packet
    Trust,
    /// User ID Packet
    UserId,
    /// Public-Subkey Packet
    PublicSubkey,
    /// User Attribute Packet
    UserAttribute,
    /// Sym. Encrypted and Integrity Protected Data Packet
    SymmetricallyEncryptedProtectedData,
    /// Modification Detection Code Packet
    ModificationDetectionCode,
}

/// The two encodings of a packet header.
#[derive(Debug, Clone, Copy, PartialEq, Eq, Structural)]
pub enum Version {
    /// Old-format header: tag in bits 5..2, length mode in bits 1..0.
    Old,
    /// New-format header: tag in bits 5..0, then a 1-, 2- or 5-octet length.
    New,
}

impl Tag {
    /// The number of the tag.
    pub open spec fn id(self) -> u8 {
        match self {
            Tag::PublicKeyEncryptedSessionKey => 1,
            Tag::Signature => 2,
            Tag::OnePassSignature => 4,
            Tag::SecretKey => 5,
            Tag::PublicKey => 6,
            Tag::SecretSubkey => 7,
            Tag::CompressedData => 8,
            Tag::SymmetricallyEncryptedData => 9,
            Tag::Marker => 10,
            Tag::LiteralData => 11,
            Tag::Trust => 12,
            Tag::UserId => 13,
            Tag::PublicSubkey => 14,
            Tag::UserAttribute => 17,
            Tag::SymmetricallyEncryptedProtectedData => 18,
            Tag::ModificationDetectionCode => 19,
        }
    }

    /// The tag that a number names, if any.
    pub open spec fn of_id(v: u8) -> Option<Tag> {
        if v == 1 {
            Some(Tag::PublicKeyEncryptedSessionKey)
        } else if v == 2 {
            Some(Tag::Signature)
        } else if v == 4 {
            Some(Tag::OnePassSignature)
        } else if v == 5 {
            Some(Tag::SecretKey)
        } else if v == 6 {
            Some(Tag::PublicKey)
        } else if v == 7 {
            Some(Tag::SecretSubkey)
        } else if v == 8 {
            Some(Tag::CompressedData)
        } else if v == 9 {
            Some(Tag::SymmetricallyEncryptedData)
        } else if v == 10 {
            Some(Tag::Marker)
        } else if v == 11 {
            Some(Tag::LiteralData)
        } else if v == 12 {
            Some(Tag::Trust)
        } else if v == 13 {
            Some(Tag::UserId)
        } else if v == 14 {
            Some(Tag::PublicSubkey)
        } else if v == 17 {
            Some(Tag::UserAttribute)
        } else if v == 18 {
            Some(Tag::SymmetricallyEncryptedProtectedData)
        } else if v == 19 {
            Some(Tag::ModificationDetectionCode)
        } else {
            None
        }
    }

    /// Whether a packet of this tag may be written in partial-length chunks:
    /// literal, compressed and encrypted data only.
    pub open spec fn allows_partial(self) -> bool {
        self == Tag::LiteralData || self == Tag::CompressedData || self
            == Tag::SymmetricallyEncryptedData || self
            == Tag::SymmetricallyEncryptedProtectedData
    }

    /// The number of the tag.
    pub fn to_u8(self) -> (r: u8)
        ensures
            r == self.id(),
            1 <= r <= 19,
    {
        match self {
            Tag::PublicKeyEncryptedSessionKey => 1,
            Tag::Signature => 2,
            Tag::OnePassSignature => 4,
            Tag::SecretKey => 5,
            Tag::PublicKey => 6,
            Tag::SecretSubkey => 7,
            Tag::CompressedData => 8,
            Tag::SymmetricallyEncryptedData => 9,
            Tag::Marker => 10,
            Tag::LiteralData => 11,
            Tag::Trust => 12,
            Tag::UserId => 13,
            Tag::PublicSubkey => 14,
            Tag::UserAttribute => 17,
            Tag::SymmetricallyEncryptedProtectedData => 18,
            Tag::ModificationDetectionCode => 19,
        }
    }

    /// The tag that `v` names; `None` for a number that names no dispatched kind.
    pub fn from_u8(v: u8) -> (r: Option<Tag>)
        ensures
            r == Tag::of_id(v),
    {
        match v {
            1 => Some(Tag::PublicKeyEncryptedSessionKey),
            2 => Some(Tag::Signature),
            4 => Some(Tag::OnePassSignature),
            5 => Some(Tag::SecretKey),
            6 => Some(Tag::PublicKey),
            7 => Some(Tag::SecretSubkey),
            8 => Some(Tag::CompressedData),
            9 => Some(Tag::SymmetricallyEncryptedData),
            10 => Some(Tag::Marker),
            11 => Some(Tag::LiteralData),
            12 => Some(Tag::Trust),
            13 => Some(Tag::UserId),
            14 => Some(Tag::PublicSubkey),
            17 => Some(Tag::UserAttribute),
            18 => Some(Tag::SymmetricallyEncryptedProtectedData),
            19 => Some(Tag::ModificationDetectionCode),
            _ => None,
        }
    }

    /// Whether a packet of this tag may be written in partial-length chunks.
    pub fn supports_partial(self) -> (r: bool)
        ensures
            r == self.allows_partial(),
    {
        match self {
            Tag::LiteralData
            | Tag::CompressedData
            | Tag::SymmetricallyEncryptedData
            | Tag::SymmetricallyEncryptedProtectedData => true,
            _ => false,
        }
    }
}

/// Every tag is found again from its number.
pub proof fn lemma_tag_id_roundtrip(t: Tag)
    ensures
        Tag::of_id(t.id()) == Some(t),
        1 <= t.id() <= 19,
{
}

/// A number that names a tag is the number of that tag.
pub proof fn lemma_tag_of_id_sound(v: u8)
    ensures
        Tag::of_id(v) matches Some(t) ==> t.id() == v,
{
}

} // verus!
