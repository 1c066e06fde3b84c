//! The User ID packet: the name of a key holder.

use crate::errors::Error;
use crate::ser::Serialize;
use crate::types::tag::{Tag, Version};
use crate::util::append_bytes;
use vstd::prelude::*;
use vstd::slice::slice_to_vec;
use vstd::string::StringSliceAdditionalSpecFns;

verus! {

/// A user id: UTF-8 text, kept as its octets, with the header format of the
/// packet that carries it.
#[derive(Debug, Clone, PartialEq, Eq)]
pub struct UserId {
    pub packet_version: Version,
    pub id: Vec<u8>,
}

/// The mathematical content of a [`UserId`].
pub ghost struct UserIdView {
    pub packet_version: Version,
    pub id: Seq<u8>,
}

impl View for UserId {
    type V = UserIdView;

    open spec fn view(&self) -> UserIdView {
        UserIdView { packet_version: self.packet_version, id: self.id@ }
    }
}

impl UserId {
    /// The user id with the text `id`.
    pub fn from_str(packet_version: Version, id: &str) -> (r: UserId)
        ensures
            r@ == (UserIdView { packet_version, id: id.spec_bytes() }),
    {
        UserId { packet_version, id: slice_to_vec(id.as_bytes()) }
    }

    /// The user id that the packet body `input` holds: the body is the text.
    pub fn from_slice(packet_version: Version, input: &[u8]) -> (r: UserId)
        ensures
            r@ == (UserIdView { packet_version, id: input@ }),
    {
        UserId { packet_version, id: slice_to_vec(input) }
    }

    /// The octets of the text.
    pub fn id(&self) -> (r: &[u8])
        ensures
            r@ == self@.id,
    {
        self.id.as_slice()
    }

    /// The tag of the packet that carries a user id.
    pub fn tag(&self) -> (r: Tag)
        ensures
            r == Tag::UserId,
    {
        Tag::UserId
    }

    /// The header format of the packet.
    pub fn packet_version(&self) -> (r: Version)
        ensures
            r == self@.packet_version,
    {
        self.packet_version
    }

    /// A copy of the user id.
    pub fn duplicate(&self) -> (r: UserId)
        ensures
            r@ == self@,
    {
        UserId { packet_version: self.packet_version, id: slice_to_vec(self.id.as_slice()) }
    }
}

impl Serialize for UserId {
    /// A user id fits a packet when its length fits the largest length field.
    open spec fn encodable(&self) -> bool {
        self@.id.len() <= u32::MAX
    }

    /// The packet body: the octets of the text.
    open spec fn serialized(&self) -> Seq<u8> {
        self@.id
    }

    fn to_writer(&self, writer: &mut Vec<u8>) -> (r: Result<(), Error>) {
        if self.id.len() > 0xffff_ffff {
            return Err(Error::MalformedInput { offset: writer.len() });
        }
        append_bytes(writer, self.id.as_slice());
        Ok(())
    }
}

} // verus!
