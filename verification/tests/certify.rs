use pgp::composed::key::shared::{KeyDetails, Signer};
use pgp::crypto::hash::HashAlgorithm;
use pgp::crypto::public_key::PublicKeyAlgorithm;
use pgp::crypto::sym::SymmetricKeyAlgorithm;
use pgp::errors::Error;
use pgp::packet::signature::SignatureType;
use pgp::packet::subpacket::Subpacket;
use pgp::packet::user_attribute::UserAttribute;
use pgp::packet::user_id::UserId;
use pgp::types::compression::CompressionAlgorithm;
use pgp::types::key_flags::KeyFlags;
use pgp::types::key_id::KeyId;
use pgp::types::key_traits::{KeyTrait, PublicKeyTrait, SecretKeyTrait};
use pgp::types::revocation_key::{RevocationKey, RevocationKeyClass};
use pgp::types::tag::{Tag, Version};
use sha2::Digest;
use std::cell::Cell;

/// A key whose "signature" over a digest is the digest itself, reversed. It
/// counts how often it is asked to sign and can be told to fail.
struct MirrorKey {
    body: Vec<u8>,
    has_key_id: bool,
    fail_after: Option<usize>,
    asked: Cell<usize>,
}

impl MirrorKey {
    fn new() -> MirrorKey {
        MirrorKey {
            body: vec![4, 0, 0, 0, 1, 1, 0, 8, 0xff, 0, 2, 3],
            has_key_id: true,
            fail_after: None,
            asked: Cell::new(0),
        }
    }
}

impl KeyTrait for MirrorKey {
    fn fingerprint(&self) -> Vec<u8> {
        (1u8..=20).collect()
    }

    fn key_id(&self) -> Option<KeyId> {
        if self.has_key_id {
            Some(KeyId::from_slice(&[13, 14, 15, 16, 17, 18, 19, 20]).unwrap())
        } else {
            None
        }
    }

    fn algorithm(&self) -> PublicKeyAlgorithm {
        PublicKeyAlgorithm::RSA
    }
}

impl PublicKeyTrait for MirrorKey {
    fn packet_body(&self) -> Vec<u8> {
        self.body.clone()
    }

    fn verify_signature(&self, _hash: HashAlgorithm, digest: &[u8], sig: &Vec<Vec<u8>>) -> Result<(), Error> {
        let mut expected: Vec<u8> = digest.to_vec();
        expected.reverse();
        let first = expected.iter().position(|b| *b != 0).unwrap_or(expected.len());
        if sig.len() == 1 && sig[0] == expected[first..] {
            Ok(())
        } else {
            Err(Error::VerificationFailed)
        }
    }
}

impl SecretKeyTrait for MirrorKey {
    fn create_signature<F>(&self, key_pw: F, hash: HashAlgorithm, digest: &[u8]) -> Result<Vec<Vec<u8>>, Error>
    where
        F: FnOnce() -> String,
    {
        assert_eq!(hash, HashAlgorithm::SHA256);
        if key_pw() != "secret" {
            return Err(Error::BadPassword);
        }
        let asked = self.asked.get();
        self.asked.set(asked + 1);
        if self.fail_after == Some(asked) {
            return Err(Error::Internal);
        }
        let mut sig: Vec<u8> = digest.to_vec();
        sig.reverse();
        Ok(vec![sig])
    }
}

fn revocation_key() -> RevocationKey {
    RevocationKey::new(RevocationKeyClass::Default, PublicKeyAlgorithm::EdDSA, [0x42; 20])
}

fn details(revocation: Option<RevocationKey>) -> KeyDetails {
    let mut flags = KeyFlags::default();
    flags.set_certify(true);
    flags.set_sign(true);
    KeyDetails::new(
        UserId::from_str(Version::New, "alice <alice@example.org>"),
        vec![UserId::from_str(Version::New, "alice (work)"), UserId::from_str(Version::New, "al")],
        vec![UserAttribute::new(Version::New, 1, vec![0x10, 0, 1, 1, 9, 9])],
        flags,
        vec![SymmetricKeyAlgorithm::AES256, SymmetricKeyAlgorithm::AES128],
        vec![HashAlgorithm::SHA256],
        vec![CompressionAlgorithm::ZLIB],
        revocation,
    )
}

fn common(now: u32) -> Vec<Subpacket> {
    vec![
        Subpacket::SignatureCreationTime(now),
        Subpacket::KeyFlags(vec![0x03]),
        Subpacket::PreferredSymmetricAlgorithms(vec![SymmetricKeyAlgorithm::AES256, SymmetricKeyAlgorithm::AES128]),
        Subpacket::PreferredHashAlgorithms(vec![HashAlgorithm::SHA256]),
        Subpacket::PreferredCompressionAlgorithms(vec![CompressionAlgorithm::ZLIB]),
    ]
}

fn unhashed() -> Vec<Subpacket> {
    vec![
        Subpacket::Issuer(KeyId::from_slice(&[13, 14, 15, 16, 17, 18, 19, 20]).unwrap()),
        Subpacket::IssuerFingerprint((1u8..=20).collect()),
    ]
}

#[test]
fn certified_details_carry_one_signature_per_identity() {
    let key = MirrorKey::new();
    let signed = details(None).sign_at(&key, || "secret".to_string(), 1_500_000_000).unwrap();
    assert!(signed.revocation_signatures.is_empty());
    assert!(signed.direct_signatures.is_empty());
    assert_eq!(signed.users.len(), 3);
    assert_eq!(signed.users[0].id.id(), b"alice <alice@example.org>");
    assert_eq!(signed.users[1].id.id(), b"alice (work)");
    assert_eq!(signed.users[2].id.id(), b"al");
    assert_eq!(signed.user_attributes.len(), 1);
    assert_eq!(key.asked.get(), 4);
    for user in &signed.users {
        assert_eq!(user.signatures.len(), 1);
        assert_eq!(user.signatures[0].verify_certificate(&key, Tag::UserId, &user.id), Ok(()));
    }
    for attribute in &signed.user_attributes {
        assert_eq!(attribute.signatures.len(), 1);
        assert_eq!(
            attribute.signatures[0].verify_certificate(&key, Tag::UserAttribute, &attribute.attr),
            Ok(())
        );
    }
}

#[test]
fn the_primary_certification_carries_the_marker_and_the_others_do_not() {
    let key = MirrorKey::new();
    let now = 1_500_000_000;
    let signed = details(None).sign_at(&key, || "secret".to_string(), now).unwrap();
    let mut primary = vec![Subpacket::IsPrimary(true)];
    primary.extend(common(now));
    assert_eq!(signed.users[0].signatures[0].config.hashed_subpackets, primary);
    assert_eq!(signed.users[1].signatures[0].config.hashed_subpackets, common(now));
    assert_eq!(signed.users[2].signatures[0].config.hashed_subpackets, common(now));
    assert_eq!(signed.user_attributes[0].signatures[0].config.hashed_subpackets, common(now));
    for sig in signed
        .users
        .iter()
        .map(|u| &u.signatures[0])
        .chain(signed.user_attributes.iter().map(|a| &a.signatures[0]))
    {
        assert_eq!(sig.config.unhashed_subpackets, unhashed());
        assert_eq!(sig.config.typ, SignatureType::CertGeneric);
        assert_eq!(sig.config.pub_alg, PublicKeyAlgorithm::RSA);
        assert_eq!(sig.config.hash_alg, HashAlgorithm::SHA256);
    }
}

#[test]
fn the_revocation_key_goes_to_the_primary_certification_only() {
    let key = MirrorKey::new();
    let now = 77;
    let signed = details(Some(revocation_key())).sign_at(&key, || "secret".to_string(), now).unwrap();
    let mut primary = vec![Subpacket::IsPrimary(true)];
    primary.extend(common(now));
    primary.push(Subpacket::RevocationKey(revocation_key()));
    assert_eq!(signed.users[0].signatures[0].config.hashed_subpackets, primary);
    assert_eq!(signed.users[1].signatures[0].config.hashed_subpackets, common(now));
    assert_eq!(signed.user_attributes[0].signatures[0].config.hashed_subpackets, common(now));
}

#[test]
fn the_digest_prefix_is_that_of_the_covered_octets() {
    let key = MirrorKey::new();
    let signed = details(None).sign_at(&key, || "secret".to_string(), 0x0102_0304).unwrap();
    let sig = &signed.users[2].signatures[0];
    let hashed = vec![5u8, 2, 1, 2, 3, 4, 2, 27, 3, 3, 11, 9, 7, 2, 21, 8, 2, 22, 2];
    assert_eq!(sig.hashed_area, hashed);
    let mut tbh = vec![0x99, 0, 12];
    tbh.extend(&key.body);
    tbh.extend([0xB4, 0, 0, 0, 2, b'a', b'l']);
    tbh.extend([4, 0x10, 1, 8, 0, hashed.len() as u8]);
    tbh.extend(&hashed);
    tbh.extend([4, 0xff, 0, 0, 0, 6 + hashed.len() as u8]);
    let digest = sha2::Sha256::digest(&tbh).to_vec();
    assert_eq!(sig.signed_hash_value, [digest[0], digest[1]]);
    let mut mirrored = digest.clone();
    mirrored.reverse();
    let first = mirrored.iter().position(|b| *b != 0).unwrap();
    assert_eq!(sig.signature, vec![mirrored[first..].to_vec()]);
}

#[test]
fn a_key_without_a_key_id_cannot_certify() {
    let mut key = MirrorKey::new();
    key.has_key_id = false;
    assert_eq!(details(None).sign_at(&key, || "secret".to_string(), 1), Err(Error::Internal));
    assert_eq!(details(None).sign(&key, || "secret".to_string()), Err(Error::Internal));
    assert!(Signer::of(&key).is_none());
    assert_eq!(key.asked.get(), 0);
}

#[test]
fn an_error_of_the_key_aborts_the_whole_build() {
    for fail_after in 0..4 {
        let mut key = MirrorKey::new();
        key.fail_after = Some(fail_after);
        assert_eq!(details(None).sign_at(&key, || "secret".to_string(), 1), Err(Error::Internal));
        assert_eq!(key.asked.get(), fail_after + 1);
    }
    let key = MirrorKey::new();
    assert_eq!(details(None).sign_at(&key, || "wrong".to_string(), 1), Err(Error::BadPassword));
}

#[test]
fn details_that_cannot_be_certified_are_refused_before_the_key_is_asked() {
    let mut key = MirrorKey::new();
    key.body = vec![0; 70000];
    assert_eq!(
        details(None).sign_at(&key, || "secret".to_string(), 1),
        Err(Error::MalformedInput { offset: 0 })
    );
    assert_eq!(key.asked.get(), 0);
    let key = MirrorKey::new();
    let many = KeyDetails::new(
        UserId::from_str(Version::New, "a"),
        vec![],
        vec![],
        KeyFlags::default(),
        vec![SymmetricKeyAlgorithm::AES128; 70000],
        vec![],
        vec![],
        None,
    );
    assert_eq!(many.sign_at(&key, || "secret".to_string(), 1), Err(Error::MalformedInput { offset: 0 }));
    assert_eq!(key.asked.get(), 0);
}

#[test]
fn signing_with_the_signer_that_was_taken_from_the_key() {
    let key = MirrorKey::new();
    let signer = Signer::of(&key).unwrap();
    assert_eq!(signer.key_body, key.body);
    assert_eq!(signer.fingerprint, key.fingerprint());
    assert_eq!(signer.key_id, key.key_id().unwrap());
    let with = details(None).sign_with(&key, || "secret".to_string(), signer, 99).unwrap();
    let at = details(None).sign_at(&key, || "secret".to_string(), 99).unwrap();
    assert_eq!(with, at);
}

#[test]
fn signing_at_the_time_of_the_clock() {
    let key = MirrorKey::new();
    let signed = details(None).sign(&key, || "secret".to_string()).unwrap();
    let times: Vec<u32> = signed
        .users
        .iter()
        .map(|u| match u.signatures[0].config.hashed_subpackets.iter().find(|s| matches!(s, Subpacket::SignatureCreationTime(_))) {
            Some(Subpacket::SignatureCreationTime(t)) => *t,
            _ => panic!("no creation time"),
        })
        .collect();
    assert_eq!(times.len(), 3);
    assert!(times.iter().all(|t| *t == times[0]));
    // after 2020-01-01 and before the 32 bits run out
    assert!(times[0] > 1_577_836_800);
    for user in &signed.users {
        assert_eq!(user.signatures[0].verify_certificate(&key, Tag::UserId, &user.id), Ok(()));
    }
}

#[test]
fn the_answers_of_a_key_make_its_signer() {
    let id = KeyId::from_slice(&[13, 14, 15, 16, 17, 18, 19, 20]).unwrap();
    let signer =
        Signer::from_answers(Some(id), vec![4, 0, 0, 0, 1], PublicKeyAlgorithm::DSA, vec![9, 8, 7]).unwrap();
    assert_eq!(signer.key_body, vec![4, 0, 0, 0, 1]);
    assert_eq!(signer.algorithm, PublicKeyAlgorithm::DSA);
    assert_eq!(signer.key_id, id);
    assert_eq!(signer.fingerprint, vec![9, 8, 7]);
    assert!(Signer::from_answers(None, vec![4, 0, 0, 0, 1], PublicKeyAlgorithm::DSA, vec![9, 8, 7]).is_none());

    let key = MirrorKey::new();
    let taken = Signer::of(&key).unwrap();
    assert_eq!(taken.key_body, key.packet_body());
    assert_eq!(taken.algorithm, key.algorithm());
    assert_eq!(Some(taken.key_id), key.key_id());
    assert_eq!(taken.fingerprint, key.fingerprint());
}
