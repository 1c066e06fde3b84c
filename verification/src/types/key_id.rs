//! Key identifiers.

use crate::errors::Error;
use vstd::prelude::*;

verus! {

/// The eight-octet identifier of a key.
#[derive(Debug, Clone, Copy, PartialEq, Eq)]
pub struct KeyId {
    bytes: [u8; 8],
}

impl View for KeyId {
    type V = Seq<u8>;

    closed spec fn view(&self) -> Seq<u8> {
        self.bytes@
    }
}

impl KeyId {
    /// A key identifier is eight octets long.
    pub proof fn lemma_len(self)
        ensures
            self@.len() == 8,
    {
    }

    /// Builds a key identifier from exactly eight octets.
    pub fn from_slice(input: &[u8]) -> (r: Result<KeyId, Error>)
        ensures
            r is Ok <==> input@.len() == 8,
            r matches Ok(id) ==> id@ == input@,
            r matches Err(e) ==> e == (Error::MalformedInput { offset: 0 }),
    {
        if input.len() != 8 {
            return Err(Error::MalformedInput { offset: 0 });
        }
        let bytes = [
            input[0],
            input[1],
            input[2],
            input[3],
            input[4],
            input[5],
            input[6],
            input[7],
        ];
        assert(bytes@ =~= input@);
        Ok(KeyId { bytes })
    }

    /// The eight octets of the identifier.
    pub fn to_vec(&self) -> (r: Vec<u8>)
        ensures
            r@ == self@,
            r@.len() == 8,
    {
        let mut r: Vec<u8> = Vec::new();
        let mut i: usize = 0;
        while i < 8
            invariant
                i <= 8,
                r@ == self.bytes@.subrange(0, i as int),
            decreases 8 - i,
        {
            r.push(self.bytes[i]);
            i += 1;
            assert(r@ =~= self.bytes@.subrange(0, i as int));
        }
        assert(r@ =~= self.bytes@);
        r
    }
}

} // verus!
