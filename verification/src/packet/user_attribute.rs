//! The User Attribute packet: an identity that is not text, such as an image.

use crate::errors::Error;
use crate::packet::length::{
    lemma_length_roundtrip, length_bytes, parse_length, read_length, write_length,
};
use crate::ser::Serialize;
use crate::types::tag::{Tag, Version};
use crate::util::append_bytes;
use vstd::prelude::*;
use vstd::slice::{slice_subrange, slice_to_vec};

verus! {

/// A user attribute: a type octet (1 for an image) and an opaque payload.
#[derive(Debug, Clone, PartialEq, Eq)]
pub struct UserAttribute {
    pub packet_version: Version,
    pub typ: u8,
    pub data: Vec<u8>,
}

/// The mathematical content of a [`UserAttribute`].
pub ghost struct UserAttributeView {
    pub packet_version: Version,
    pub typ: u8,
    pub data: Seq<u8>,
}

impl View for UserAttribute {
    type V = UserAttributeView;

    open spec fn view(&self) -> UserAttributeView {
        UserAttributeView { packet_version: self.packet_version, typ: self.typ, data: self.data@ }
    }
}

impl UserAttributeView {
    /// The packet body: the length of type octet and payload, the type octet,
    /// the payload.
    pub open spec fn serialized(self) -> Seq<u8> {
        length_bytes(1 + self.data.len()) + seq![self.typ] + self.data
    }

    /// Whether type octet and payload fit a length field.
    pub open spec fn encodable(self) -> bool {
        1 + self.data.len() <= u32::MAX
    }
}

/// The user attribute that a packet body stands for: one length field that
/// covers the rest of the body, a type octet and the payload.
pub open spec fn parse_user_attribute(packet_version: Version, body: Seq<u8>) -> Result<
    UserAttributeView,
    Error,
> {
    match parse_length(body, 0) {
        None => Err(Error::MalformedInput { offset: 0 }),
        Some((len, start)) => if len < 1 || start + len != body.len() {
            Err(Error::MalformedInput { offset: 0 })
        } else {
            Ok(
                UserAttributeView {
                    packet_version,
                    typ: body[start],
                    data: body.subrange(start + 1, body.len() as int),
                },
            )
        },
    }
}

impl UserAttribute {
    /// Creates a user attribute.
    pub fn new(packet_version: Version, typ: u8, data: Vec<u8>) -> (r: UserAttribute)
        ensures
            r@ == (UserAttributeView { packet_version, typ, data: data@ }),
    {
        UserAttribute { packet_version, typ, data }
    }

    /// The tag of the packet that carries a user attribute.
    pub fn tag(&self) -> (r: Tag)
        ensures
            r == Tag::UserAttribute,
    {
        Tag::UserAttribute
    }

    /// The header format of the packet.
    pub fn packet_version(&self) -> (r: Version)
        ensures
            r == self@.packet_version,
    {
        self.packet_version
    }

    /// A copy of the user attribute.
    pub fn duplicate(&self) -> (r: UserAttribute)
        ensures
            r@ == self@,
    {
        UserAttribute {
            packet_version: self.packet_version,
            typ: self.typ,
            data: slice_to_vec(self.data.as_slice()),
        }
    }

    /// Reads a user attribute from the packet body `body`.
    pub fn from_slice(packet_version: Version, body: &[u8]) -> (r: Result<UserAttribute, Error>)
        ensures
            match r {
                Ok(attr) => parse_user_attribute(packet_version, body@) == Ok::<
                    UserAttributeView,
                    Error,
                >(attr@),
                Err(e) => parse_user_attribute(packet_version, body@) == Err::<
                    UserAttributeView,
                    Error,
                >(e),
            },
    {
        let (len, start) = match read_length(body, 0) {
            Some(v) => v,
            None => {
                return Err(Error::MalformedInput { offset: 0 });
            },
        };
        let len: usize = len as usize;
        if len < 1 || body.len() - start != len {
            return Err(Error::MalformedInput { offset: 0 });
        }
        let data = slice_to_vec(slice_subrange(body, start + 1, body.len()));
        Ok(UserAttribute { packet_version, typ: body[start], data })
    }
}

impl Serialize for UserAttribute {
    open spec fn encodable(&self) -> bool {
        self@.encodable()
    }

    open spec fn serialized(&self) -> Seq<u8> {
        self@.serialized()
    }

    fn to_writer(&self, writer: &mut Vec<u8>) -> (r: Result<(), Error>) {
        if self.data.len() >= 0xffff_ffff {
            return Err(Error::MalformedInput { offset: writer.len() });
        }
        let mut buf: Vec<u8> = Vec::new();
        write_length((1 + self.data.len()) as u32, &mut buf);
        buf.push(self.typ);
        append_bytes(&mut buf, self.data.as_slice());
        assert(buf@ =~= self@.serialized());
        append_bytes(writer, buf.as_slice());
        Ok(())
    }
}

/// A user attribute that has an encoding is read back from its packet body.
pub proof fn lemma_user_attribute_roundtrip(v: UserAttributeView)
    requires
        v.encodable(),
    ensures
        parse_user_attribute(v.packet_version, v.serialized()) == Ok::<UserAttributeView, Error>(v),
{
    let body = v.serialized();
    let field = length_bytes(1 + v.data.len());
    let tail = seq![v.typ] + v.data;
    assert(body =~= Seq::<u8>::empty() + field + tail);
    lemma_length_roundtrip(Seq::<u8>::empty(), 1 + v.data.len(), tail);
    let start = field.len() as int;
    assert(body[start] == v.typ);
    assert(body.subrange(start + 1, body.len() as int) =~= v.data);
}

} // verus!
