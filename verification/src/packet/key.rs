//! Key packets: the public part of a version 4 key and, for a secret key,
//! the octets of its secret part.
//!
//! The body of a public key packet holds the version octet, the creation
//! time in four octets, the algorithm octet and the parameter block of the
//! algorithm. A secret key packet holds the same and, after it, the secret
//! material, which is kept here as the octets that were read.

use crate::crypto::hash::HashAlgorithm;
use crate::crypto::public_key::{
    lemma_public_key_algorithm_id_roundtrip, lemma_public_params_roundtrip, parse_public_params,
    PublicKeyAlgorithm, PublicParams, PublicParamsView,
};
use crate::errors::Error;
use crate::packet::length::{lemma_u32_be_roundtrip, read_u32_be, u32_at};
use crate::packet::signature::key_prologue;
use crate::ser::Serialize;
use crate::types::key_id::KeyId;
use crate::util::{append_bytes, u32_be, write_u16_be, write_u32_be};
use vstd::prelude::*;
use vstd::slice::slice_subrange;

verus! {

/// The version octet of the keys that this crate reads and writes.
pub const KEY_VERSION: u8 = 4;

/// The public part of a key.
#[derive(Clone, PartialEq, Eq)]
pub struct PublicKey {
    pub created_at: u32,
    pub algorithm: PublicKeyAlgorithm,
    pub public_params: PublicParams,
}

/// The mathematical content of a [`PublicKey`].
pub ghost struct PublicKeyView {
    pub created_at: u32,
    pub algorithm: PublicKeyAlgorithm,
    pub public_params: PublicParamsView,
}

impl View for PublicKey {
    type V = PublicKeyView;

    open spec fn view(&self) -> PublicKeyView {
        PublicKeyView {
            created_at: self.created_at,
            algorithm: self.algorithm,
            public_params: self.public_params@,
        }
    }
}

impl PublicKeyView {
    /// Whether the parameters have an encoding.
    pub open spec fn encodable(self) -> bool {
        self.public_params.encodable()
    }

    /// Whether the key is read back from its encoding: the parameters have
    /// the shape and curve of the algorithm, and a curve point does not start
    /// with a zero octet.
    pub open spec fn well_formed(self) -> bool {
        self.public_params.belongs_to(self.algorithm) && self.public_params.point_is_tagged()
    }

    /// The body of the public-key packet.
    pub open spec fn serialized(self) -> Seq<u8> {
        seq![KEY_VERSION] + u32_be(self.created_at) + seq![self.algorithm.id()]
            + self.public_params.serialized()
    }

    /// The fingerprint of the key: the SHA-1 digest of the key prologue.
    pub open spec fn fingerprint(self) -> Seq<u8>
        recommends
            self.serialized().len() <= 0xffff,
    {
        HashAlgorithm::SHA1.digest_spec(key_prologue(self.serialized()))
    }

    /// The key id: the last eight octets of the fingerprint.
    pub open spec fn key_id(self) -> Seq<u8> {
        self.fingerprint().skip(self.fingerprint().len() - 8)
    }
}

/// The result of reading the public part of a key at the start of a packet
/// body: the key and the position after it. A body of version 2 or 3 and an
/// unknown algorithm are unsupported; any other version is malformed.
pub open spec fn parse_public_key(body: Seq<u8>) -> Result<(PublicKeyView, int), Error> {
    if body.len() < 6 {
        Err(Error::MalformedInput { offset: 0 })
    } else if body[0] == 2 || body[0] == 3 {
        Err(Error::UnsupportedAlgorithm)
    } else if body[0] != KEY_VERSION {
        Err(Error::MalformedInput { offset: 0 })
    } else {
        match PublicKeyAlgorithm::of_id(body[5]) {
            None => Err(Error::UnsupportedAlgorithm),
            Some(algorithm) => match parse_public_params(algorithm, body, 6) {
                Err(e) => Err(e),
                Ok((public_params, end)) => Ok(
                    (
                        PublicKeyView {
                            created_at: u32_at(body, 1) as u32,
                            algorithm,
                            public_params,
                        },
                        end,
                    ),
                ),
            },
        }
    }
}

impl Serialize for PublicKey {
    open spec fn encodable(&self) -> bool {
        self@.encodable()
    }

    open spec fn serialized(&self) -> Seq<u8> {
        self@.serialized()
    }

    /// Appends the body of the public-key packet.
    fn to_writer(&self, writer: &mut Vec<u8>) -> (r: Result<(), Error>) {
        let mut buf: Vec<u8> = Vec::new();
        buf.push(KEY_VERSION);
        write_u32_be(self.created_at, &mut buf);
        buf.push(self.algorithm.to_u8());
        if self.public_params.to_writer(&mut buf).is_err() {
            return Err(Error::MalformedInput { offset: writer.len() });
        }
        assert(buf@ =~= self@.serialized());
        append_bytes(writer, buf.as_slice());
        Ok(())
    }
}

impl PublicKey {
    /// Creates the public part of a key.
    pub fn new(created_at: u32, algorithm: PublicKeyAlgorithm, public_params: PublicParams) -> (r:
        PublicKey)
        ensures
            r@ == (PublicKeyView { created_at, algorithm, public_params: public_params@ }),
    {
        PublicKey { created_at, algorithm, public_params }
    }

    /// Reads the public part of a key at the start of the packet body `body`
    /// and returns it with the position after it.
    pub fn parse(body: &[u8]) -> (r: Result<(PublicKey, usize), Error>)
        ensures
            match r {
                Ok((key, end)) => parse_public_key(body@) == Ok::<(PublicKeyView, int), Error>(
                    (key@, end as int),
                ),
                Err(e) => parse_public_key(body@) == Err::<(PublicKeyView, int), Error>(e),
            },
    {
        if body.len() < 6 {
            return Err(Error::MalformedInput { offset: 0 });
        }
        if body[0] == 2 || body[0] == 3 {
            return Err(Error::UnsupportedAlgorithm);
        }
        if body[0] != KEY_VERSION {
            return Err(Error::MalformedInput { offset: 0 });
        }
        let algorithm = match PublicKeyAlgorithm::from_u8(body[5]) {
            Some(a) => a,
            None => {
                return Err(Error::UnsupportedAlgorithm);
            },
        };
        let created_at = read_u32_be(body, 1);
        match PublicParams::parse(algorithm, body, 6) {
            Ok((public_params, end)) => Ok((PublicKey { created_at, algorithm, public_params }, end)),
            Err(e) => Err(e),
        }
    }

    /// The fingerprint of the key: the SHA-1 digest of `0x99`, the length of
    /// the packet body in two octets and the body. `None` when the key has no
    /// encoding or its body is longer than the two octets can say.
    pub fn fingerprint(&self) -> (r: Option<Vec<u8>>)
        ensures
            r is Some <==> self@.encodable() && self@.serialized().len() <= 0xffff,
            r matches Some(fp) ==> fp@ == self@.fingerprint() && fp@.len() == 20,
    {
        let mut body: Vec<u8> = Vec::new();
        if self.to_writer(&mut body).is_err() {
            return None;
        }
        assert(body@ =~= self@.serialized());
        if body.len() > 0xffff {
            return None;
        }
        let mut hashed: Vec<u8> = Vec::new();
        hashed.push(0x99);
        write_u16_be(body.len() as u16, &mut hashed);
        append_bytes(&mut hashed, body.as_slice());
        assert(hashed@ =~= key_prologue(self@.serialized()));
        Some(HashAlgorithm::SHA1.digest(hashed.as_slice()))
    }

    /// The key id: the last eight octets of the fingerprint. `None` when the
    /// key has no fingerprint.
    pub fn key_id(&self) -> (r: Option<KeyId>)
        ensures
            r is Some <==> self@.encodable() && self@.serialized().len() <= 0xffff,
            r matches Some(id) ==> id@ == self@.key_id(),
    {
        match self.fingerprint() {
            Some(fp) => {
                let tail = slice_subrange(fp.as_slice(), 12, 20);
                assert(tail@ =~= fp@.skip(12));
                match KeyId::from_slice(tail) {
                    Ok(id) => Some(id),
                    Err(_) => None,
                }
            },
            None => None,
        }
    }
}

/// A key that is well formed and has an encoding is read back from its packet
/// body, whatever follows it in the body.
pub proof fn lemma_public_key_roundtrip(key: PublicKeyView, rest: Seq<u8>)
    requires
        key.encodable(),
        key.well_formed(),
    ensures
        parse_public_key(key.serialized() + rest) == Ok::<(PublicKeyView, int), Error>(
            (key, key.serialized().len() as int),
        ),
{
    let body = key.serialized() + rest;
    let pre = seq![KEY_VERSION] + u32_be(key.created_at) + seq![key.algorithm.id()];
    assert(body =~= pre + key.public_params.serialized() + rest);
    assert(pre.len() == 6);
    assert(body[0] == KEY_VERSION);
    assert(body[5] == key.algorithm.id());
    assert(body.subrange(1, 5) =~= u32_be(key.created_at));
    lemma_u32_be_roundtrip(key.created_at, body, 1);
    lemma_public_key_algorithm_id_roundtrip(key.algorithm);
    lemma_public_params_roundtrip(key.algorithm, key.public_params, pre, rest);
}

} // verus!
