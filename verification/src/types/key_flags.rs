//! The capabilities that a key claims for itself.

use vstd::prelude::*;

verus! {

/// The set of capabilities of a key.
#[derive(Debug, Clone, Copy, PartialEq, Eq, Structural)]
pub struct KeyFlags {
    /// The key may certify other keys.
    pub certify: bool,
    /// The key may sign data.
    pub sign: bool,
    /// The key may encrypt communications.
    pub encrypt_comms: bool,
    /// The key may encrypt storage.
    pub encrypt_storage: bool,
    /// The private component may have been split by a secret-sharing mechanism.
    pub shared: bool,
    /// The key may be used for authentication.
    pub authentication: bool,
    /// The private component may be in the possession of more than one person.
    pub group: bool,
}

/// The weight of a flag in the flags octet: `bit` when the flag is set.
pub open spec fn flag_weight(flag: bool, bit: int) -> int {
    if flag {
        bit
    } else {
        0
    }
}

impl KeyFlags {
    /// The flags octet: one bit per capability that is set.
    pub open spec fn octet(self) -> u8 {
        (flag_weight(self.certify, 0x01) + flag_weight(self.sign, 0x02) + flag_weight(
            self.encrypt_comms,
            0x04,
        ) + flag_weight(self.encrypt_storage, 0x08) + flag_weight(self.shared, 0x10) + flag_weight(
            self.authentication,
            0x20,
        ) + flag_weight(self.group, 0x80)) as u8
    }

    /// The set of capabilities that a flags octet states; the one unassigned
    /// bit is ignored.
    pub open spec fn of_octet(b: u8) -> KeyFlags {
        KeyFlags {
            certify: b % 2 == 1,
            sign: (b / 2) % 2 == 1,
            encrypt_comms: (b / 4) % 2 == 1,
            encrypt_storage: (b / 8) % 2 == 1,
            shared: (b / 16) % 2 == 1,
            authentication: (b / 32) % 2 == 1,
            group: b / 128 == 1,
        }
    }

    /// The one-octet body of a key-flags subpacket.
    pub open spec fn to_bytes_spec(self) -> Seq<u8> {
        seq![self.octet()]
    }

    /// The one-octet body of a key-flags subpacket.
    pub fn to_bytes(&self) -> (r: Vec<u8>)
        ensures
            r@ == self.to_bytes_spec(),
    {
        let mut b: u8 = 0;
        if self.certify {
            b = b + 0x01;
        }
        if self.sign {
            b = b + 0x02;
        }
        if self.encrypt_comms {
            b = b + 0x04;
        }
        if self.encrypt_storage {
            b = b + 0x08;
        }
        if self.shared {
            b = b + 0x10;
        }
        if self.authentication {
            b = b + 0x20;
        }
        if self.group {
            b = b + 0x80;
        }
        let r = vec![b];
        assert(r@ =~= self.to_bytes_spec());
        r
    }

    /// The set of capabilities that the flags octet `b` states.
    pub fn from_u8(b: u8) -> (r: KeyFlags)
        ensures
            r == KeyFlags::of_octet(b),
    {
        KeyFlags {
            certify: b % 2 == 1,
            sign: (b / 2) % 2 == 1,
            encrypt_comms: (b / 4) % 2 == 1,
            encrypt_storage: (b / 8) % 2 == 1,
            shared: (b / 16) % 2 == 1,
            authentication: (b / 32) % 2 == 1,
            group: b / 128 == 1,
        }
    }

    /// Whether the key may certify other keys.
    pub fn certify(&self) -> (r: bool)
        ensures
            r == self.certify,
    {
        self.certify
    }

    /// Whether the key may sign data.
    pub fn sign(&self) -> (r: bool)
        ensures
            r == self.sign,
    {
        self.sign
    }

    /// Whether the key may encrypt communications.
    pub fn encrypt_comms(&self) -> (r: bool)
        ensures
            r == self.encrypt_comms,
    {
        self.encrypt_comms
    }

    /// Whether the key may encrypt storage.
    pub fn encrypt_storage(&self) -> (r: bool)
        ensures
            r == self.encrypt_storage,
    {
        self.encrypt_storage
    }

    /// Whether the private component may have been split by secret sharing.
    pub fn shared(&self) -> (r: bool)
        ensures
            r == self.shared,
    {
        self.shared
    }

    /// Whether the key may be used for authentication.
    pub fn authentication(&self) -> (r: bool)
        ensures
            r == self.authentication,
    {
        self.authentication
    }

    /// Whether the private component may be held by more than one person.
    pub fn group(&self) -> (r: bool)
        ensures
            r == self.group,
    {
        self.group
    }

    /// Sets or clears the capability to certify other keys.
    pub fn set_certify(&mut self, value: bool)
        ensures
            *final(self) == (KeyFlags { certify: value, ..*old(self) }),
    {
        self.certify = value;
    }

    /// Sets or clears the capability to sign data.
    pub fn set_sign(&mut self, value: bool)
        ensures
            *final(self) == (KeyFlags { sign: value, ..*old(self) }),
    {
        self.sign = value;
    }

    /// Sets or clears the capability to encrypt communications.
    pub fn set_encrypt_comms(&mut self, value: bool)
        ensures
            *final(self) == (KeyFlags { encrypt_comms: value, ..*old(self) }),
    {
        self.encrypt_comms = value;
    }

    /// Sets or clears the capability to encrypt storage.
    pub fn set_encrypt_storage(&mut self, value: bool)
        ensures
            *final(self) == (KeyFlags { encrypt_storage: value, ..*old(self) }),
    {
        self.encrypt_storage = value;
    }

    /// Sets or clears the split-key flag.
    pub fn set_shared(&mut self, value: bool)
        ensures
            *final(self) == (KeyFlags { shared: value, ..*old(self) }),
    {
        self.shared = value;
    }

    /// Sets or clears the capability to authenticate.
    pub fn set_authentication(&mut self, value: bool)
        ensures
            *final(self) == (KeyFlags { authentication: value, ..*old(self) }),
    {
        self.authentication = value;
    }

    /// Sets or clears the group-key flag.
    pub fn set_group(&mut self, value: bool)
        ensures
            *final(self) == (KeyFlags { group: value, ..*old(self) }),
    {
        self.group = value;
    }
}

impl Default for KeyFlags {
    /// The empty set of capabilities.
    fn default() -> (r: KeyFlags)
        ensures
            r == (KeyFlags {
                certify: false,
                sign: false,
                encrypt_comms: false,
                encrypt_storage: false,
                shared: false,
                authentication: false,
                group: false,
            }),
    {
        KeyFlags {
            certify: false,
            sign: false,
            encrypt_comms: false,
            encrypt_storage: false,
            shared: false,
            authentication: false,
            group: false,
        }
    }
}

/// The set of capabilities is found again from its flags octet.
pub proof fn lemma_key_flags_octet_roundtrip(flags: KeyFlags)
    ensures
        KeyFlags::of_octet(flags.octet()) == flags,
{
}

} // verus!
