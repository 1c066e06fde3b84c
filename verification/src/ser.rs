//! Serialization of values into their OpenPGP octet form.

use crate::errors::Error;
use vstd::prelude::*;

verus! {

/// A value with an OpenPGP octet encoding.
pub trait Serialize {
    /// Whether the value has an encoding: every length in it fits the field
    /// that carries it.
    spec fn encodable(&self) -> bool;

    /// The octets that encode the value.
    spec fn serialized(&self) -> Seq<u8>;

    /// Appends the encoding of the value to `writer`. A value without an
    /// encoding is refused and leaves `writer` as it was; the error carries
    /// the length of `writer`.
    fn to_writer(&self, writer: &mut Vec<u8>) -> (r: Result<(), Error>)
        ensures
            r is Ok <==> self.encodable(),
            r is Ok ==> final(writer)@ == old(writer)@ + self.serialized(),
            r is Err ==> final(writer)@ == old(writer)@ && r == Err::<(), Error>(
                Error::MalformedInput { offset: old(writer)@.len() as usize },
            ),
    ;
}

/// The encoding of `value`, if it has one.
pub open spec fn encoding<T: Serialize>(value: &T) -> Option<Seq<u8>> {
    if value.encodable() {
        Some(value.serialized())
    } else {
        None
    }
}

/// The encoding of `value` as a fresh octet string.
pub fn to_bytes<T: Serialize>(value: &T) -> (r: Result<Vec<u8>, Error>)
    ensures
        r is Ok <==> value.encodable(),
        r matches Ok(bytes) ==> bytes@ == value.serialized(),
        r matches Err(e) ==> e == (Error::MalformedInput { offset: 0 }),
{
    let mut buf: Vec<u8> = Vec::new();
    match value.to_writer(&mut buf) {
        Ok(()) => {
            assert(buf@ =~= value.serialized());
            Ok(buf)
        },
        Err(e) => Err(e),
    }
}

} // verus!
