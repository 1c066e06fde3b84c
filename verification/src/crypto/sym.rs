//! Symmetric-key algorithm identifiers.

use vstd::prelude::*;

verus! {

/// The symmetric ciphers that a key can name, by their one-octet identifier.
#[derive(Debug, Clone, Copy, PartialEq, Eq, Structural)]
pub enum SymmetricKeyAlgorithm {
    /// Plaintext or unencrypted data
    Plaintext,
    /// IDEA
    IDEA,
    /// Triple-DES
    TripleDES,
    /// CAST5
    CAST5,
    /// Blowfish
    Blowfish,
    /// AES with 128-bit key
    AES128,
    /// AES with 192-bit key
    AES192,
    /// AES with 256-bit key
    AES256,
    /// Twofish with 256-bit key
    Twofish,
    /// Camellia with 128-bit key
    Camellia128,
    /// Camellia with 192-bit key
    Camellia192,
    /// Camellia with 256-bit key
    Camellia256,
    /// Private or experimental
    Private10,
}

impl SymmetricKeyAlgorithm {
    /// The identifier octet of the algorithm.
    pub open spec fn id(self) -> u8 {
        match self {
            SymmetricKeyAlgorithm::Plaintext => 0,
            SymmetricKeyAlgorithm::IDEA => 1,
            SymmetricKeyAlgorithm::TripleDES => 2,
            SymmetricKeyAlgorithm::CAST5 => 3,
            SymmetricKeyAlgorithm::Blowfish => 4,
            SymmetricKeyAlgorithm::AES128 => 7,
            SymmetricKeyAlgorithm::AES192 => 8,
            SymmetricKeyAlgorithm::AES256 => 9,
            SymmetricKeyAlgorithm::Twofish => 10,
            SymmetricKeyAlgorithm::Camellia128 => 11,
            SymmetricKeyAlgorithm::Camellia192 => 12,
            SymmetricKeyAlgorithm::Camellia256 => 13,
            SymmetricKeyAlgorithm::Private10 => 110,
        }
    }

    /// The algorithm that an identifier octet names, if any.
    pub open spec fn of_id(v: u8) -> Option<SymmetricKeyAlgorithm> {
        if v == 0 {
            Some(SymmetricKeyAlgorithm::Plaintext)
        } else if v == 1 {
            Some(SymmetricKeyAlgorithm::IDEA)
        } else if v == 2 {
            Some(SymmetricKeyAlgorithm::TripleDES)
        } else if v == 3 {
            Some(SymmetricKeyAlgorithm::CAST5)
        } else if v == 4 {
            Some(SymmetricKeyAlgorithm::Blowfish)
        } else if v == 7 {
            Some(SymmetricKeyAlgorithm::AES128)
        } else if v == 8 {
            Some(SymmetricKeyAlgorithm::AES192)
        } else if v == 9 {
            Some(SymmetricKeyAlgorithm::AES256)
        } else if v == 10 {
            Some(SymmetricKeyAlgorithm::Twofish)
        } else if v == 11 {
            Some(SymmetricKeyAlgorithm::Camellia128)
        } else if v == 12 {
            Some(SymmetricKeyAlgorithm::Camellia192)
        } else if v == 13 {
            Some(SymmetricKeyAlgorithm::Camellia256)
        } else if v == 110 {
            Some(SymmetricKeyAlgorithm::Private10)
        } else {
            None
        }
    }

    /// The identifier octet of the algorithm.
    pub fn to_u8(self) -> (r: u8)
        ensures
            r == self.id(),
    {
        match self {
            SymmetricKeyAlgorithm::Plaintext => 0,
            SymmetricKeyAlgorithm::IDEA => 1,
            SymmetricKeyAlgorithm::TripleDES => 2,
            SymmetricKeyAlgorithm::CAST5 => 3,
            SymmetricKeyAlgorithm::Blowfish => 4,
            SymmetricKeyAlgorithm::AES128 => 7,
            SymmetricKeyAlgorithm::AES192 => 8,
            SymmetricKeyAlgorithm::AES256 => 9,
            SymmetricKeyAlgorithm::Twofish => 10,
            SymmetricKeyAlgorithm::Camellia128 => 11,
            SymmetricKeyAlgorithm::Camellia192 => 12,
            SymmetricKeyAlgorithm::Camellia256 => 13,
            SymmetricKeyAlgorithm::Private10 => 110,
        }
    }

    /// The algorithm that `v` names; `None` for an unassigned identifier.
    pub fn from_u8(v: u8) -> (r: Option<SymmetricKeyAlgorithm>)
        ensures
            r == SymmetricKeyAlgorithm::of_id(v),
    {
        match v {
            0 => Some(SymmetricKeyAlgorithm::Plaintext),
            1 => Some(SymmetricKeyAlgorithm::IDEA),
            2 => Some(SymmetricKeyAlgorithm::TripleDES),
            3 => Some(SymmetricKeyAlgorithm::CAST5),
            4 => Some(SymmetricKeyAlgorithm::Blowfish),
            7 => Some(SymmetricKeyAlgorithm::AES128),
            8 => Some(SymmetricKeyAlgorithm::AES192),
            9 => Some(SymmetricKeyAlgorithm::AES256),
            10 => Some(SymmetricKeyAlgorithm::Twofish),
            11 => Some(SymmetricKeyAlgorithm::Camellia128),
            12 => Some(SymmetricKeyAlgorithm::Camellia192),
            13 => Some(SymmetricKeyAlgorithm::Camellia256),
            110 => Some(SymmetricKeyAlgorithm::Private10),
            _ => None,
        }
    }

    /// The name of the variant, as it is shown in diagnostics.
    pub fn name(self) -> (r: &'static str)
        ensures
            r@ == self.name_spec(),
    {
        match self {
            SymmetricKeyAlgorithm::Plaintext => "Plaintext",
            SymmetricKeyAlgorithm::IDEA => "IDEA",
            SymmetricKeyAlgorithm::TripleDES => "TripleDES",
            SymmetricKeyAlgorithm::CAST5 => "CAST5",
            SymmetricKeyAlgorithm::Blowfish => "Blowfish",
            SymmetricKeyAlgorithm::AES128 => "AES128",
            SymmetricKeyAlgorithm::AES192 => "AES192",
            SymmetricKeyAlgorithm::AES256 => "AES256",
            SymmetricKeyAlgorithm::Twofish => "Twofish",
            SymmetricKeyAlgorithm::Camellia128 => "Camellia128",
            SymmetricKeyAlgorithm::Camellia192 => "Camellia192",
            SymmetricKeyAlgorithm::Camellia256 => "Camellia256",
            SymmetricKeyAlgorithm::Private10 => "Private10",
        }
    }

    /// The name of the variant, as it is shown in diagnostics.
    pub open spec fn name_spec(self) -> Seq<char> {
        match self {
            SymmetricKeyAlgorithm::Plaintext => "Plaintext"@,
            SymmetricKeyAlgorithm::IDEA => "IDEA"@,
            SymmetricKeyAlgorithm::TripleDES => "TripleDES"@,
            SymmetricKeyAlgorithm::CAST5 => "CAST5"@,
            SymmetricKeyAlgorithm::Blowfish => "Blowfish"@,
            SymmetricKeyAlgorithm::AES128 => "AES128"@,
            SymmetricKeyAlgorithm::AES192 => "AES192"@,
            SymmetricKeyAlgorithm::AES256 => "AES256"@,
            SymmetricKeyAlgorithm::Twofish => "Twofish"@,
            SymmetricKeyAlgorithm::Camellia128 => "Camellia128"@,
            SymmetricKeyAlgorithm::Camellia192 => "Camellia192"@,
            SymmetricKeyAlgorithm::Camellia256 => "Camellia256"@,
            SymmetricKeyAlgorithm::Private10 => "Private10"@,
        }
    }
}

/// Every algorithm is found again from its identifier.
pub proof fn lemma_symmetric_id_roundtrip(a: SymmetricKeyAlgorithm)
    ensures
        SymmetricKeyAlgorithm::of_id(a.id()) == Some(a),
{
}

/// An identifier that names an algorithm is the identifier of that algorithm.
pub proof fn lemma_symmetric_of_id_sound(v: u8)
    ensures
        SymmetricKeyAlgorithm::of_id(v) matches Some(a) ==> a.id() == v,
{
}

} // verus!
