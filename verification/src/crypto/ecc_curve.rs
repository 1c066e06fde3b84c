//! The elliptic curves that key parameters can name, and their object identifiers.

use crate::util::bytes_eq;
use vstd::prelude::*;

verus! {

/// An elliptic curve, identified on the wire by the octets of its ASN.1 object
/// identifier.
#[derive(Debug, Clone, Copy, PartialEq, Eq, Structural)]
pub enum ECCCurve {
    Curve25519,
    Ed25519,
    P256,
    P384,
    P521,
    BrainpoolP256r1,
    BrainpoolP384r1,
    BrainpoolP512r1,
    Secp256k1,
}

impl ECCCurve {
    /// The octets of the curve's object identifier.
    pub open spec fn oid_spec(self) -> Seq<u8> {
        match self {
            ECCCurve::Curve25519 => seq![
                0x2Bu8, 0x06, 0x01, 0x04, 0x01, 0x97, 0x55, 0x01, 0x05, 0x01,
            ],
            ECCCurve::Ed25519 => seq![0x2Bu8, 0x06, 0x01, 0x04, 0x01, 0xDA, 0x47, 0x0F, 0x01],
            ECCCurve::P256 => seq![0x2Au8, 0x86, 0x48, 0xCE, 0x3D, 0x03, 0x01, 0x07],
            ECCCurve::P384 => seq![0x2Bu8, 0x81, 0x04, 0x00, 0x22],
            ECCCurve::P521 => seq![0x2Bu8, 0x81, 0x04, 0x00, 0x23],
            ECCCurve::BrainpoolP256r1 => seq![
                0x2Bu8, 0x24, 0x03, 0x03, 0x02, 0x08, 0x01, 0x01, 0x07,
            ],
            ECCCurve::BrainpoolP384r1 => seq![
                0x2Bu8, 0x24, 0x03, 0x03, 0x02, 0x08, 0x01, 0x01, 0x0B,
            ],
            ECCCurve::BrainpoolP512r1 => seq![
                0x2Bu8, 0x24, 0x03, 0x03, 0x02, 0x08, 0x01, 0x01, 0x0D,
            ],
            ECCCurve::Secp256k1 => seq![0x2Bu8, 0x81, 0x04, 0x00, 0x0A],
        }
    }

    /// The curve whose object identifier is `oid`, if there is one.
    pub open spec fn of_oid(oid: Seq<u8>) -> Option<ECCCurve> {
        if oid == ECCCurve::Curve25519.oid_spec() {
            Some(ECCCurve::Curve25519)
        } else if oid == ECCCurve::Ed25519.oid_spec() {
            Some(ECCCurve::Ed25519)
        } else if oid == ECCCurve::P256.oid_spec() {
            Some(ECCCurve::P256)
        } else if oid == ECCCurve::P384.oid_spec() {
            Some(ECCCurve::P384)
        } else if oid == ECCCurve::P521.oid_spec() {
            Some(ECCCurve::P521)
        } else if oid == ECCCurve::BrainpoolP256r1.oid_spec() {
            Some(ECCCurve::BrainpoolP256r1)
        } else if oid == ECCCurve::BrainpoolP384r1.oid_spec() {
            Some(ECCCurve::BrainpoolP384r1)
        } else if oid == ECCCurve::BrainpoolP512r1.oid_spec() {
            Some(ECCCurve::BrainpoolP512r1)
        } else if oid == ECCCurve::Secp256k1.oid_spec() {
            Some(ECCCurve::Secp256k1)
        } else {
            None
        }
    }

    /// The name of the variant, as it is shown in diagnostics.
    pub open spec fn name_spec(self) -> Seq<char> {
        match self {
            ECCCurve::Curve25519 => "Curve25519"@,
            ECCCurve::Ed25519 => "Ed25519"@,
            ECCCurve::P256 => "P256"@,
            ECCCurve::P384 => "P384"@,
            ECCCurve::P521 => "P521"@,
            ECCCurve::BrainpoolP256r1 => "BrainpoolP256r1"@,
            ECCCurve::BrainpoolP384r1 => "BrainpoolP384r1"@,
            ECCCurve::BrainpoolP512r1 => "BrainpoolP512r1"@,
            ECCCurve::Secp256k1 => "Secp256k1"@,
        }
    }

    /// The name of the variant, as it is shown in diagnostics.
    pub fn name(self) -> (r: &'static str)
        ensures
            r@ == self.name_spec(),
    {
        match self {
            ECCCurve::Curve25519 => "Curve25519",
            ECCCurve::Ed25519 => "Ed25519",
            ECCCurve::P256 => "P256",
            ECCCurve::P384 => "P384",
            ECCCurve::P521 => "P521",
            ECCCurve::BrainpoolP256r1 => "BrainpoolP256r1",
            ECCCurve::BrainpoolP384r1 => "BrainpoolP384r1",
            ECCCurve::BrainpoolP512r1 => "BrainpoolP512r1",
            ECCCurve::Secp256k1 => "Secp256k1",
        }
    }

    /// The octets of the curve's object identifier.
    pub fn oid(&self) -> (r: Vec<u8>)
        ensures
            r@ == self.oid_spec(),
            1 <= r@.len() <= 10,
    {
        let r = match self {
            ECCCurve::Curve25519 => vec![
                0x2Bu8, 0x06, 0x01, 0x04, 0x01, 0x97, 0x55, 0x01, 0x05, 0x01,
            ],
            ECCCurve::Ed25519 => vec![0x2Bu8, 0x06, 0x01, 0x04, 0x01, 0xDA, 0x47, 0x0F, 0x01],
            ECCCurve::P256 => vec![0x2Au8, 0x86, 0x48, 0xCE, 0x3D, 0x03, 0x01, 0x07],
            ECCCurve::P384 => vec![0x2Bu8, 0x81, 0x04, 0x00, 0x22],
            ECCCurve::P521 => vec![0x2Bu8, 0x81, 0x04, 0x00, 0x23],
            ECCCurve::BrainpoolP256r1 => vec![
                0x2Bu8, 0x24, 0x03, 0x03, 0x02, 0x08, 0x01, 0x01, 0x07,
            ],
            ECCCurve::BrainpoolP384r1 => vec![
                0x2Bu8, 0x24, 0x03, 0x03, 0x02, 0x08, 0x01, 0x01, 0x0B,
            ],
            ECCCurve::BrainpoolP512r1 => vec![
                0x2Bu8, 0x24, 0x03, 0x03, 0x02, 0x08, 0x01, 0x01, 0x0D,
            ],
            ECCCurve::Secp256k1 => vec![0x2Bu8, 0x81, 0x04, 0x00, 0x0A],
        };
        assert(r@ =~= self.oid_spec());
        r
    }

    /// The curve whose object identifier is `oid`; `None` when no known curve
    /// has it.
    pub fn from_oid(oid: &[u8]) -> (r: Option<ECCCurve>)
        ensures
            r == ECCCurve::of_oid(oid@),
    {
        let all = [
            ECCCurve::Curve25519,
            ECCCurve::Ed25519,
            ECCCurve::P256,
            ECCCurve::P384,
            ECCCurve::P521,
            ECCCurve::BrainpoolP256r1,
            ECCCurve::BrainpoolP384r1,
            ECCCurve::BrainpoolP512r1,
            ECCCurve::Secp256k1,
        ];
        let mut i: usize = 0;
        while i < 9
            invariant
                i <= 9,
                all@ == seq![
                    ECCCurve::Curve25519,
                    ECCCurve::Ed25519,
                    ECCCurve::P256,
                    ECCCurve::P384,
                    ECCCurve::P521,
                    ECCCurve::BrainpoolP256r1,
                    ECCCurve::BrainpoolP384r1,
                    ECCCurve::BrainpoolP512r1,
                    ECCCurve::Secp256k1,
                ],
                forall|j: int| 0 <= j < i ==> oid@ != (#[trigger] all@[j]).oid_spec(),
            decreases 9 - i,
        {
            let c = all[i];
            let c_oid = c.oid();
            if bytes_eq(oid, c_oid.as_slice()) {
                proof {
                    lemma_oids_distinct();
                }
                return Some(c);
            }
            i += 1;
        }
        assert(oid@ != all@[0].oid_spec());
        assert(oid@ != all@[1].oid_spec());
        assert(oid@ != all@[2].oid_spec());
        assert(oid@ != all@[3].oid_spec());
        assert(oid@ != all@[4].oid_spec());
        assert(oid@ != all@[5].oid_spec());
        assert(oid@ != all@[6].oid_spec());
        assert(oid@ != all@[7].oid_spec());
        assert(oid@ != all@[8].oid_spec());
        None
    }
}

/// No two curves share an object identifier.
pub proof fn lemma_oids_distinct()
    ensures
        forall|a: ECCCurve, b: ECCCurve| a.oid_spec() == b.oid_spec() ==> a == b,
{
    assert forall|a: ECCCurve, b: ECCCurve| a.oid_spec() == b.oid_spec() implies a == b by {
        let x = a.oid_spec();
        let y = b.oid_spec();
        assert(x.len() == y.len());
        assert(x[0] == y[0]);
        assert(x[1] == y[1]);
        assert(x[4] == y[4]);
        if x.len() > 5 {
            assert(x[5] == y[5]);
        }
        if x.len() > 8 {
            assert(x[8] == y[8]);
        }
    }
}

/// Every curve is found again from its object identifier.
pub proof fn lemma_curve_oid_roundtrip(c: ECCCurve)
    ensures
        ECCCurve::of_oid(c.oid_spec()) == Some(c),
        1 <= c.oid_spec().len() <= 10,
{
    lemma_oids_distinct();
}

/// An identifier that names a curve is the identifier of that curve.
pub proof fn lemma_curve_of_oid_sound(oid: Seq<u8>)
    ensures
        ECCCurve::of_oid(oid) matches Some(c) ==> c.oid_spec() == oid,
{
}

} // verus!
