//! The key that is allowed to revoke another key.

use crate::crypto::public_key::PublicKeyAlgorithm;
use vstd::prelude::*;

verus! {

/// How a revocation key is to be treated.
#[derive(Debug, Clone, Copy, PartialEq, Eq, Structural)]
pub enum RevocationKeyClass {
    Default,
    Sensitive,
}

impl RevocationKeyClass {
    /// The class octet.
    pub open spec fn id(self) -> u8 {
        match self {
            RevocationKeyClass::Default => 0x80,
            RevocationKeyClass::Sensitive => 0xC0,
        }
    }

    /// The class that an octet names, if any.
    pub open spec fn of_id(v: u8) -> Option<RevocationKeyClass> {
        if v == 0x80 {
            Some(RevocationKeyClass::Default)
        } else if v == 0xC0 {
            Some(RevocationKeyClass::Sensitive)
        } else {
            None
        }
    }

    /// The class octet.
    pub fn to_u8(self) -> (r: u8)
        ensures
            r == self.id(),
    {
        match self {
            RevocationKeyClass::Default => 0x80,
            RevocationKeyClass::Sensitive => 0xC0,
        }
    }

    /// The class that `v` names; `None` for any other octet.
    pub fn from_u8(v: u8) -> (r: Option<RevocationKeyClass>)
        ensures
            r == RevocationKeyClass::of_id(v),
    {
        match v {
            0x80 => Some(RevocationKeyClass::Default),
            0xC0 => Some(RevocationKeyClass::Sensitive),
            _ => None,
        }
    }
}

/// A revocation key: class octet, algorithm octet and the 20-octet fingerprint
/// of the key that may revoke.
#[derive(Debug, Clone, Copy, PartialEq, Eq)]
pub struct RevocationKey {
    pub class: RevocationKeyClass,
    pub algorithm: PublicKeyAlgorithm,
    pub fingerprint: [u8; 20],
}

/// The mathematical content of a [`RevocationKey`].
pub ghost struct RevocationKeyView {
    pub class: RevocationKeyClass,
    pub algorithm: PublicKeyAlgorithm,
    pub fingerprint: Seq<u8>,
}

impl View for RevocationKey {
    type V = RevocationKeyView;

    open spec fn view(&self) -> RevocationKeyView {
        RevocationKeyView {
            class: self.class,
            algorithm: self.algorithm,
            fingerprint: self.fingerprint@,
        }
    }
}

impl RevocationKeyView {
    /// The 22 octets that encode the revocation key.
    pub open spec fn serialized(self) -> Seq<u8> {
        seq![self.class.id(), self.algorithm.id()] + self.fingerprint
    }
}

impl RevocationKey {
    /// Creates a revocation key.
    pub fn new(class: RevocationKeyClass, algorithm: PublicKeyAlgorithm, fingerprint: [u8; 20]) -> (r:
        RevocationKey)
        ensures
            r.class == class,
            r.algorithm == algorithm,
            r.fingerprint == fingerprint,
    {
        RevocationKey { class, algorithm, fingerprint }
    }

    /// The 22 octets that encode the revocation key.
    pub fn to_vec(&self) -> (r: Vec<u8>)
        ensures
            r@ == self@.serialized(),
            r@.len() == 22,
    {
        let mut r: Vec<u8> = Vec::new();
        r.push(self.class.to_u8());
        r.push(self.algorithm.to_u8());
        let mut i: usize = 0;
        while i < 20
            invariant
                i <= 20,
                r@ == seq![self.class.id(), self.algorithm.id()] + self.fingerprint@.subrange(
                    0,
                    i as int,
                ),
            decreases 20 - i,
        {
            r.push(self.fingerprint[i]);
            i += 1;
            assert(r@ =~= seq![self.class.id(), self.algorithm.id()]
                + self.fingerprint@.subrange(0, i as int));
        }
        assert(self.fingerprint@.subrange(0, 20) =~= self.fingerprint@);
        r
    }
}

} // verus!
