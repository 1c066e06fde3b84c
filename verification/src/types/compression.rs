//! Compression algorithm identifiers.

use vstd::prelude::*;

verus! {

/// The compression algorithms that a key can prefer, by their one-octet identifier.
#[derive(Debug, Clone, Copy, PartialEq, Eq, Structural)]
pub enum CompressionAlgorithm {
    Uncompressed,
    ZIP,
    ZLIB,
    BZip2,
    /// Private or experimental
    Private10,
}

impl CompressionAlgorithm {
    /// The identifier octet of the algorithm.
    pub open spec fn id(self) -> u8 {
        match self {
            CompressionAlgorithm::Uncompressed => 0,
            CompressionAlgorithm::ZIP => 1,
            CompressionAlgorithm::ZLIB => 2,
            CompressionAlgorithm::BZip2 => 3,
            CompressionAlgorithm::Private10 => 110,
        }
    }

    /// The algorithm that an identifier octet names, if any.
    pub open spec fn of_id(v: u8) -> Option<CompressionAlgorithm> {
        if v == 0 {
            Some(CompressionAlgorithm::Uncompressed)
        } else if v == 1 {
            Some(CompressionAlgorithm::ZIP)
        } else if v == 2 {
            Some(CompressionAlgorithm::ZLIB)
        } else if v == 3 {
            Some(CompressionAlgorithm::BZip2)
        } else if v == 110 {
            Some(CompressionAlgorithm::Private10)
        } else {
            None
        }
    }

    /// The identifier octet of the algorithm.
    pub fn to_u8(self) -> (r: u8)
        ensures
            r == self.id(),
    {
        match self {
            CompressionAlgorithm::Uncompressed => 0,
            CompressionAlgorithm::ZIP => 1,
            CompressionAlgorithm::ZLIB => 2,
            CompressionAlgorithm::BZip2 => 3,
            CompressionAlgorithm::Private10 => 110,
        }
    }

    /// The algorithm that `v` names; `None` for an unassigned identifier.
    pub fn from_u8(v: u8) -> (r: Option<CompressionAlgorithm>)
        ensures
            r == CompressionAlgorithm::of_id(v),
    {
        match v {
            0 => Some(CompressionAlgorithm::Uncompressed),
            1 => Some(CompressionAlgorithm::ZIP),
            2 => Some(CompressionAlgorithm::ZLIB),
            3 => Some(CompressionAlgorithm::BZip2),
            110 => Some(CompressionAlgorithm::Private10),
            _ => None,
        }
    }
}

/// Every algorithm is found again from its identifier.
pub proof fn lemma_compression_id_roundtrip(a: CompressionAlgorithm)
    ensures
        CompressionAlgorithm::of_id(a.id()) == Some(a),
{
}

/// An identifier that names an algorithm is the identifier of that algorithm.
pub proof fn lemma_compression_of_id_sound(v: u8)
    ensures
        CompressionAlgorithm::of_id(v) matches Some(a) ==> a.id() == v,
{
}

} // verus!
