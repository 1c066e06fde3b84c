use pgp::crypto::hash::HashAlgorithm;
use pgp::crypto::public_key::PublicKeyAlgorithm;
use pgp::errors::Error;
use pgp::packet::signature::{
    build_certification_tbh, build_certification_tbh_v3, contains_critical_unknown, Signature,
    SignatureConfig, SignatureType, SignatureVersion,
};
use pgp::packet::subpacket::Subpacket;
use pgp::packet::user_attribute::UserAttribute;
use pgp::packet::user_id::UserId;
use pgp::ser::to_bytes;
use pgp::types::key_id::KeyId;
use pgp::types::key_traits::{KeyTrait, PublicKeyTrait, SecretKeyTrait};
use pgp::types::tag::{Tag, Version};
use sha2::Digest;

/// A key whose "signature" over a digest is the digest with a zero octet in
/// front of it, and which accepts exactly the digest as a signature.
struct EchoKey {
    body: Vec<u8>,
}

impl KeyTrait for EchoKey {
    fn fingerprint(&self) -> Vec<u8> {
        vec![0xf0; 20]
    }

    fn key_id(&self) -> Option<KeyId> {
        Some(KeyId::from_slice(&[0xf0; 8]).unwrap())
    }

    fn algorithm(&self) -> PublicKeyAlgorithm {
        PublicKeyAlgorithm::EdDSA
    }
}

impl PublicKeyTrait for EchoKey {
    fn packet_body(&self) -> Vec<u8> {
        self.body.clone()
    }

    fn verify_signature(&self, _hash: HashAlgorithm, digest: &[u8], sig: &Vec<Vec<u8>>) -> Result<(), Error> {
        let first = digest.iter().position(|b| *b != 0).unwrap_or(digest.len());
        if sig.len() == 1 && sig[0] == digest[first..] {
            Ok(())
        } else {
            Err(Error::Internal)
        }
    }
}

impl SecretKeyTrait for EchoKey {
    fn create_signature<F>(&self, key_pw: F, _hash: HashAlgorithm, digest: &[u8]) -> Result<Vec<Vec<u8>>, Error>
    where
        F: FnOnce() -> String,
    {
        match key_pw().as_str() {
            "" => Err(Error::MissingPassword),
            "open sesame" => {
                let mut sig = vec![0u8];
                sig.extend_from_slice(digest);
                Ok(vec![sig])
            }
            _ => Err(Error::BadPassword),
        }
    }
}

fn key() -> EchoKey {
    EchoKey { body: vec![4, 0x5c, 0, 0, 1, 22, 9, 1, 2, 3] }
}

fn config(hash_alg: HashAlgorithm) -> SignatureConfig {
    SignatureConfig::new_v4(
        SignatureType::CertPositive,
        PublicKeyAlgorithm::EdDSA,
        hash_alg,
        vec![Subpacket::SignatureCreationTime(0x0102_0304), Subpacket::IsPrimary(true)],
        vec![Subpacket::Issuer(KeyId::from_slice(&[0xf0; 8]).unwrap())],
    )
}

fn alice() -> UserId {
    UserId::from_str(Version::New, "alice")
}

fn expected_tbh() -> Vec<u8> {
    let mut tbh = vec![0x99, 0, 10, 4, 0x5c, 0, 0, 1, 22, 9, 1, 2, 3];
    tbh.extend([0xB4, 0, 0, 0, 5]);
    tbh.extend(b"alice");
    tbh.extend([4, 0x13, 22, 8, 0, 9, 5, 2, 1, 2, 3, 4, 2, 25, 1]);
    tbh.extend([4, 0xff, 0, 0, 0, 15]);
    tbh
}

#[test]
fn the_covered_octets_are_laid_out_in_order() {
    let hashed = [5, 2, 1, 2, 3, 4, 2, 25, 1];
    let tbh = build_certification_tbh(
        SignatureType::CertPositive,
        PublicKeyAlgorithm::EdDSA,
        HashAlgorithm::SHA256,
        &hashed,
        &key().body,
        Tag::UserId,
        b"alice",
    )
    .unwrap();
    assert_eq!(tbh, expected_tbh());
    let attribute = build_certification_tbh(
        SignatureType::CertGeneric,
        PublicKeyAlgorithm::RSA,
        HashAlgorithm::SHA1,
        &[],
        &[4],
        Tag::UserAttribute,
        &[2, 1, 7],
    )
    .unwrap();
    assert_eq!(
        attribute,
        vec![0x99, 0, 1, 4, 0xD1, 0, 0, 0, 3, 2, 1, 7, 4, 0x10, 1, 2, 0, 0, 4, 0xff, 0, 0, 0, 6]
    );
}

#[test]
fn only_identities_can_be_certified_and_lengths_must_fit() {
    for tag in [Tag::PublicKey, Tag::Signature, Tag::LiteralData] {
        assert_eq!(
            build_certification_tbh(
                SignatureType::CertGeneric,
                PublicKeyAlgorithm::RSA,
                HashAlgorithm::SHA256,
                &[],
                &[4],
                tag,
                b"x"
            ),
            None
        );
    }
    let long = vec![0u8; 65536];
    assert_eq!(
        build_certification_tbh(
            SignatureType::CertGeneric,
            PublicKeyAlgorithm::RSA,
            HashAlgorithm::SHA256,
            &[],
            &long,
            Tag::UserId,
            b"x"
        ),
        None
    );
    assert_eq!(
        build_certification_tbh(
            SignatureType::CertGeneric,
            PublicKeyAlgorithm::RSA,
            HashAlgorithm::SHA256,
            &long,
            &[4],
            Tag::UserId,
            b"x"
        ),
        None
    );
    assert!(build_certification_tbh(
        SignatureType::CertGeneric,
        PublicKeyAlgorithm::RSA,
        HashAlgorithm::SHA256,
        &long[..65535],
        &long[..65535],
        Tag::UserId,
        &long
    )
    .is_some());
}

#[test]
fn a_certification_carries_the_digest_prefix_and_the_stripped_integers() {
    let sig = config(HashAlgorithm::SHA256)
        .sign_certificate(&key(), || "open sesame".to_string(), Tag::UserId, &alice())
        .unwrap();
    let digest = sha2::Sha256::digest(expected_tbh()).to_vec();
    assert_eq!(sig.signed_hash_value, [digest[0], digest[1]]);
    assert_eq!(sig.hashed_area, vec![5, 2, 1, 2, 3, 4, 2, 25, 1]);
    let first = digest.iter().position(|b| *b != 0).unwrap();
    assert_eq!(sig.signature, vec![digest[first..].to_vec()]);
    assert_eq!(sig.config, config(HashAlgorithm::SHA256));
    assert_eq!(sig.verify_certificate(&key(), Tag::UserId, &alice()), Ok(()));
}

#[test]
fn the_digest_is_taken_with_the_algorithm_of_the_configuration() {
    let sig = config(HashAlgorithm::SHA512)
        .sign_certificate(&key(), || "open sesame".to_string(), Tag::UserId, &alice())
        .unwrap();
    let mut tbh = expected_tbh();
    tbh[13 + 10 + 3] = 10;
    let digest = sha2::Sha512::digest(tbh).to_vec();
    assert_eq!(sig.signed_hash_value, [digest[0], digest[1]]);
    assert_eq!(sig.verify_certificate(&key(), Tag::UserId, &alice()), Ok(()));
}

#[test]
fn errors_of_the_key_end_the_signing() {
    let r = config(HashAlgorithm::SHA256).sign_certificate(&key(), || String::new(), Tag::UserId, &alice());
    assert_eq!(r, Err(Error::MissingPassword));
    let r = config(HashAlgorithm::SHA256).sign_certificate(&key(), || "guess".to_string(), Tag::UserId, &alice());
    assert_eq!(r, Err(Error::BadPassword));
}

#[test]
fn what_cannot_be_hashed_is_refused_before_the_key_is_asked() {
    let broken = SignatureConfig::new_v4(
        SignatureType::CertGeneric,
        PublicKeyAlgorithm::EdDSA,
        HashAlgorithm::SHA256,
        vec![Subpacket::IssuerFingerprint(vec![1, 2])],
        vec![],
    );
    let r = broken.sign_certificate(&key(), || -> String { panic!("the key was asked") }, Tag::UserId, &alice());
    assert_eq!(r, Err(Error::MalformedInput { offset: 0 }));
    let r = config(HashAlgorithm::SHA256).sign_certificate(
        &key(),
        || -> String { panic!("the key was asked") },
        Tag::Marker,
        &alice(),
    );
    assert_eq!(r, Err(Error::MalformedInput { offset: 0 }));
    let r = config(HashAlgorithm::SHA256).prepare_certificate(&vec![0u8; 70000], Tag::UserId, &alice());
    assert!(matches!(r, Err(Error::MalformedInput { offset: 0 })));
}

#[test]
fn modifying_a_hashed_octet_of_the_user_id_invalidates_the_certification() {
    let sig = config(HashAlgorithm::SHA256)
        .sign_certificate(&key(), || "open sesame".to_string(), Tag::UserId, &alice())
        .unwrap();
    for changed in ["blice", "alicf", "alice ", "alic", "Alice", ""] {
        let other = UserId::from_str(Version::New, changed);
        assert_eq!(sig.verify_certificate(&key(), Tag::UserId, &other), Err(Error::VerificationFailed));
    }
    assert_eq!(
        sig.verify_certificate(&key(), Tag::UserAttribute, &alice()),
        Err(Error::VerificationFailed)
    );
    let other_key = EchoKey { body: vec![4, 0x5c, 0, 0, 1, 22, 9, 1, 2, 4] };
    assert_eq!(sig.verify_certificate(&other_key, Tag::UserId, &alice()), Err(Error::VerificationFailed));
}

#[test]
fn modifying_the_signature_itself_invalidates_it() {
    let sig = config(HashAlgorithm::SHA256)
        .sign_certificate(&key(), || "open sesame".to_string(), Tag::UserId, &alice())
        .unwrap();
    let mut prefix = sig.clone();
    prefix.signed_hash_value[1] ^= 1;
    assert_eq!(prefix.verify_certificate(&key(), Tag::UserId, &alice()), Err(Error::VerificationFailed));
    let mut integers = sig.clone();
    integers.signature[0][3] ^= 0x10;
    assert_eq!(integers.verify_certificate(&key(), Tag::UserId, &alice()), Err(Error::VerificationFailed));
    let mut hashed = sig.clone();
    hashed.hashed_area[5] ^= 1;
    assert_eq!(hashed.verify_certificate(&key(), Tag::UserId, &alice()), Err(Error::VerificationFailed));
    let mut typ = sig.clone();
    typ.config.typ = SignatureType::CertGeneric;
    assert_eq!(typ.verify_certificate(&key(), Tag::UserId, &alice()), Err(Error::VerificationFailed));
}

#[test]
fn swapping_the_unhashed_issuer_does_not_affect_verification() {
    let mut sig = config(HashAlgorithm::SHA256)
        .sign_certificate(&key(), || "open sesame".to_string(), Tag::UserId, &alice())
        .unwrap();
    sig.config.unhashed_subpackets = vec![Subpacket::Issuer(KeyId::from_slice(&[0x11; 8]).unwrap())];
    assert_eq!(sig.verify_certificate(&key(), Tag::UserId, &alice()), Ok(()));
    sig.config.unhashed_subpackets = vec![];
    assert_eq!(sig.verify_certificate(&key(), Tag::UserId, &alice()), Ok(()));
    sig.config.unhashed_subpackets = vec![Subpacket::Unknown { typ: 90, critical: true, data: vec![1] }];
    assert_eq!(sig.verify_certificate(&key(), Tag::UserId, &alice()), Ok(()));
}

#[test]
fn critical_unknown_rejection() {
    let mut sig = config(HashAlgorithm::SHA256)
        .sign_certificate(&key(), || "open sesame".to_string(), Tag::UserId, &alice())
        .unwrap();
    sig.config.hashed_subpackets.push(Subpacket::Unknown { typ: 90, critical: true, data: vec![1] });
    assert!(contains_critical_unknown(&sig.config.hashed_subpackets));
    assert_eq!(sig.verify_certificate(&key(), Tag::UserId, &alice()), Err(Error::CriticalUnknown));

    let with_critical = SignatureConfig::new_v4(
        SignatureType::CertGeneric,
        PublicKeyAlgorithm::EdDSA,
        HashAlgorithm::SHA256,
        vec![Subpacket::Unknown { typ: 90, critical: true, data: vec![1] }],
        vec![],
    );
    let made = with_critical
        .sign_certificate(&key(), || "open sesame".to_string(), Tag::UserId, &alice())
        .unwrap();
    assert_eq!(made.hashed_area, vec![2, 90 + 128, 1]);
    assert_eq!(made.verify_certificate(&key(), Tag::UserId, &alice()), Err(Error::CriticalUnknown));

    let harmless = SignatureConfig::new_v4(
        SignatureType::CertGeneric,
        PublicKeyAlgorithm::EdDSA,
        HashAlgorithm::SHA256,
        vec![Subpacket::Unknown { typ: 90, critical: false, data: vec![1] }],
        vec![],
    );
    let made = harmless
        .sign_certificate(&key(), || "open sesame".to_string(), Tag::UserId, &alice())
        .unwrap();
    assert!(!contains_critical_unknown(&made.config.hashed_subpackets));
    assert_eq!(made.verify_certificate(&key(), Tag::UserId, &alice()), Ok(()));
}

#[test]
fn user_attributes_are_certified_over_their_packet_body() {
    let attr = UserAttribute::new(Version::New, 1, vec![0x10, 0, 1, 1, 0xff]);
    assert_eq!(to_bytes(&attr).unwrap(), vec![6, 1, 0x10, 0, 1, 1, 0xff]);
    let sig = config(HashAlgorithm::SHA256)
        .sign_certificate(&key(), || "open sesame".to_string(), Tag::UserAttribute, &attr)
        .unwrap();
    assert_eq!(sig.verify_certificate(&key(), Tag::UserAttribute, &attr), Ok(()));
    let other = UserAttribute::new(Version::New, 1, vec![0x10, 0, 1, 1, 0xfe]);
    assert_eq!(sig.verify_certificate(&key(), Tag::UserAttribute, &other), Err(Error::VerificationFailed));
    assert_eq!(UserAttribute::from_slice(Version::New, &[6, 1, 0x10, 0, 1, 1, 0xff]), Ok(attr));
    assert_eq!(
        UserAttribute::from_slice(Version::Old, &[6, 1, 0x10]),
        Err(Error::MalformedInput { offset: 0 })
    );
    assert_eq!(UserAttribute::from_slice(Version::Old, &[0]), Err(Error::MalformedInput { offset: 0 }));
}

#[test]
fn a_signature_is_read_back_from_its_packet_body() {
    let sig = config(HashAlgorithm::SHA256)
        .sign_certificate(&key(), || "open sesame".to_string(), Tag::UserId, &alice())
        .unwrap();
    let body = to_bytes(&sig).unwrap();
    assert_eq!(&body[..6], &[4, 0x13, 22, 8, 0, 9]);
    assert_eq!(&body[6..15], &[5, 2, 1, 2, 3, 4, 2, 25, 1]);
    assert_eq!(&body[15..27], &[0, 10, 9, 16, 0xf0, 0xf0, 0xf0, 0xf0, 0xf0, 0xf0, 0xf0, 0xf0]);
    assert_eq!(&body[27..29], &sig.signed_hash_value);
    let back = Signature::from_slice(&body).unwrap();
    assert_eq!(back, sig);
    assert_eq!(back.verify_certificate(&key(), Tag::UserId, &alice()), Ok(()));
}

#[test]
fn the_hashed_area_is_kept_as_it_was_read() {
    // The creation time is written with its critical bit set; the area must
    // come back octet for octet.
    let area = [5u8, 2 + 128, 0, 0, 0, 9];
    let mut body = vec![4, 0x10, 1, 8, 0, area.len() as u8];
    body.extend(area);
    body.extend([0, 0, 0xab, 0xcd, 0, 1, 1]);
    let sig = Signature::from_slice(&body).unwrap();
    assert_eq!(sig.hashed_area, area);
    assert_eq!(sig.config.hashed_subpackets, vec![Subpacket::SignatureCreationTime(9)]);
    assert_eq!(sig.signed_hash_value, [0xab, 0xcd]);
    assert_eq!(sig.signature, vec![vec![1u8]]);
    assert_eq!(to_bytes(&sig).unwrap(), body);
}

#[test]
fn signature_bodies_that_cannot_be_read() {
    assert_eq!(Signature::from_slice(&[]), Err(Error::MalformedInput { offset: 0 }));
    assert_eq!(Signature::from_slice(&[2, 5, 0x10, 0]), Err(Error::UnsupportedAlgorithm));
    assert_eq!(Signature::from_slice(&[5, 0x10, 1, 8]), Err(Error::MalformedInput { offset: 0 }));
    assert_eq!(Signature::from_slice(&[4, 0x77, 1, 8, 0, 0]), Err(Error::MalformedInput { offset: 1 }));
    assert_eq!(Signature::from_slice(&[4, 0x10, 9, 8, 0, 0]), Err(Error::UnsupportedAlgorithm));
    assert_eq!(Signature::from_slice(&[4, 0x10, 1, 99, 0, 0]), Err(Error::UnsupportedAlgorithm));
    assert_eq!(Signature::from_slice(&[4, 0x10, 1, 8, 0]), Err(Error::MalformedInput { offset: 4 }));
    assert_eq!(Signature::from_slice(&[4, 0x10, 1, 8, 0, 3, 2, 25]), Err(Error::MalformedInput { offset: 4 }));
    assert_eq!(
        Signature::from_slice(&[4, 0x10, 1, 8, 0, 3, 2, 25, 1]),
        Err(Error::MalformedInput { offset: 9 })
    );
    assert_eq!(
        Signature::from_slice(&[4, 0x10, 1, 8, 0, 3, 2, 25, 1, 0, 0, 0xaa]),
        Err(Error::MalformedInput { offset: 11 })
    );
    // a fault inside the hashed area is counted from the start of the body
    assert_eq!(
        Signature::from_slice(&[4, 0x10, 1, 8, 0, 6, 2, 25, 1, 3, 25, 1, 1, 0, 0, 0xaa, 0xbb]),
        Err(Error::MalformedInput { offset: 9 })
    );
    // and one inside the unhashed area likewise
    assert_eq!(
        Signature::from_slice(&[4, 0x10, 1, 8, 0, 0, 0, 3, 9, 16, 1, 0xaa, 0xbb]),
        Err(Error::MalformedInput { offset: 8 })
    );
    // a malformed integer
    assert_eq!(
        Signature::from_slice(&[4, 0x10, 1, 8, 0, 0, 0, 0, 0xaa, 0xbb, 0, 9, 1]),
        Err(Error::MalformedInput { offset: 10 })
    );
}

#[test]
fn from_config_keeps_the_encoding_of_the_hashed_subpackets() {
    let sig = Signature::from_config(config(HashAlgorithm::SHA1), [1, 2], vec![vec![0, 0, 7, 0], vec![0]]).unwrap();
    assert_eq!(sig.hashed_area, vec![5, 2, 1, 2, 3, 4, 2, 25, 1]);
    assert_eq!(sig.signature, vec![vec![7u8, 0], vec![]]);
    assert_eq!(sig.signed_hash_value, [1, 2]);
    let broken = SignatureConfig::new_v4(
        SignatureType::Binary,
        PublicKeyAlgorithm::RSA,
        HashAlgorithm::SHA1,
        vec![Subpacket::Unknown { typ: 16, critical: false, data: vec![] }],
        vec![],
    );
    assert_eq!(Signature::from_config(broken, [0, 0], vec![]), Err(Error::MalformedInput { offset: 0 }));
}

#[test]
fn signature_types_and_their_octets() {
    let all = [
        (SignatureType::Binary, 0x00u8),
        (SignatureType::Text, 0x01),
        (SignatureType::Standalone, 0x02),
        (SignatureType::CertGeneric, 0x10),
        (SignatureType::CertPersona, 0x11),
        (SignatureType::CertCasual, 0x12),
        (SignatureType::CertPositive, 0x13),
        (SignatureType::SubkeyBinding, 0x18),
        (SignatureType::PrimaryKeyBinding, 0x19),
        (SignatureType::DirectKey, 0x1f),
        (SignatureType::KeyRevocation, 0x20),
        (SignatureType::SubkeyRevocation, 0x28),
        (SignatureType::CertRevocation, 0x30),
        (SignatureType::Timestamp, 0x40),
        (SignatureType::ThirdParty, 0x50),
    ];
    for (typ, id) in all {
        assert_eq!(typ.to_u8(), id);
        assert_eq!(SignatureType::from_u8(id), Some(typ));
        assert_eq!(typ.certifies(), (0x10..=0x13).contains(&id));
    }
    assert_eq!(SignatureType::from_u8(0x14), None);
}

fn v3_config() -> SignatureConfig {
    SignatureConfig::new_v3(
        SignatureType::CertGeneric,
        PublicKeyAlgorithm::RSA,
        HashAlgorithm::SHA1,
        0x3000_0001,
        KeyId::from_slice(&[1, 2, 3, 4, 5, 6, 7, 8]).unwrap(),
    )
}

#[test]
fn a_version_3_certification_covers_key_identity_type_and_time() {
    let tbh = build_certification_tbh_v3(SignatureType::CertGeneric, 0x3000_0001, &key().body, Tag::UserId, b"alice")
        .unwrap();
    let mut expected = vec![0x99, 0, 10, 4, 0x5c, 0, 0, 1, 22, 9, 1, 2, 3];
    expected.extend(b"alice");
    expected.extend([0x10, 0x30, 0, 0, 1]);
    assert_eq!(tbh, expected);
    assert_eq!(
        build_certification_tbh_v3(SignatureType::CertGeneric, 1, &key().body, Tag::Signature, b"alice"),
        None
    );
    assert_eq!(
        v3_config().build_tbh(&[], &key().body, Tag::UserId, b"alice"),
        Some(expected.clone())
    );

    let sig = v3_config()
        .sign_certificate(&key(), || "open sesame".to_string(), Tag::UserId, &alice())
        .unwrap();
    let digest = sha1::Sha1::digest(&expected).to_vec();
    assert_eq!(sig.signed_hash_value, [digest[0], digest[1]]);
    assert_eq!(sig.config.version, SignatureVersion::V3);
    assert!(sig.hashed_area.is_empty());
    assert_eq!(sig.verify_certificate(&key(), Tag::UserId, &alice()), Ok(()));
    assert_eq!(
        sig.verify_certificate(&key(), Tag::UserId, &UserId::from_str(Version::New, "alicf")),
        Err(Error::VerificationFailed)
    );
}

#[test]
fn a_version_3_signature_is_read_back_from_its_packet_body() {
    let sig = Signature::from_config(v3_config(), [0xab, 0xcd], vec![vec![0x01, 0x02], vec![0x7f]]).unwrap();
    let body = to_bytes(&sig).unwrap();
    assert_eq!(
        body,
        vec![3, 5, 0x10, 0x30, 0, 0, 1, 1, 2, 3, 4, 5, 6, 7, 8, 1, 2, 0xab, 0xcd, 0, 9, 1, 2, 0, 7, 0x7f]
    );
    assert_eq!(Signature::from_slice(&body), Ok(sig));
    assert_eq!(Signature::from_slice(&body[..18]), Err(Error::MalformedInput { offset: 0 }));
    let mut wrong = body.clone();
    wrong[1] = 4;
    assert_eq!(Signature::from_slice(&wrong), Err(Error::MalformedInput { offset: 1 }));
    let mut wrong = body.clone();
    wrong[2] = 0x99;
    assert_eq!(Signature::from_slice(&wrong), Err(Error::MalformedInput { offset: 2 }));
    let mut wrong = body.clone();
    wrong[15] = 0x63;
    assert_eq!(Signature::from_slice(&wrong), Err(Error::UnsupportedAlgorithm));
    assert_eq!(Signature::from_slice(&body[..body.len() - 1]), Err(Error::MalformedInput { offset: 23 }));
}

#[test]
fn fixed_fields_must_fit_the_version() {
    let mut mixed = v3_config();
    mixed.version = SignatureVersion::V4;
    assert!(!mixed.is_well_formed());
    assert_eq!(Signature::from_config(mixed.clone(), [0, 0], vec![]), Err(Error::MalformedInput { offset: 0 }));
    assert_eq!(mixed.build_tbh(&[], &[4], Tag::UserId, b"a"), None);
    let mut bare = config(HashAlgorithm::SHA256);
    bare.version = SignatureVersion::V3;
    assert!(!bare.is_well_formed());
    let mut with_subpackets = v3_config();
    with_subpackets.hashed_subpackets = vec![Subpacket::IsPrimary(true)];
    let sig = Signature::from_config(with_subpackets, [0, 0], vec![]).unwrap();
    assert_eq!(to_bytes(&sig), Err(Error::MalformedInput { offset: 0 }));
}
