use pgp::crypto::hash::HashAlgorithm;
use pgp::crypto::public_key::PublicKeyAlgorithm;
use pgp::crypto::sym::SymmetricKeyAlgorithm;
use pgp::errors::Error;
use pgp::packet::length::{read_length, write_length};
use pgp::packet::subpacket::{read_subpackets, write_subpackets, Subpacket};
use pgp::ser::{to_bytes, Serialize};
use pgp::types::compression::CompressionAlgorithm;
use pgp::types::key_flags::KeyFlags;
use pgp::types::key_id::KeyId;
use pgp::types::revocation_key::{RevocationKey, RevocationKeyClass};

fn key_id() -> KeyId {
    KeyId::from_slice(&[1, 2, 3, 4, 5, 6, 7, 8]).unwrap()
}

fn every_kind() -> Vec<Subpacket> {
    vec![
        Subpacket::SignatureCreationTime(0x5c00_0001),
        Subpacket::SignatureExpirationTime(86400),
        Subpacket::KeyExpirationTime(0),
        Subpacket::Issuer(key_id()),
        Subpacket::PreferredSymmetricAlgorithms(vec![
            SymmetricKeyAlgorithm::AES256,
            SymmetricKeyAlgorithm::AES128,
            SymmetricKeyAlgorithm::TripleDES,
        ]),
        Subpacket::PreferredHashAlgorithms(vec![HashAlgorithm::SHA512, HashAlgorithm::SHA256]),
        Subpacket::PreferredCompressionAlgorithms(vec![
            CompressionAlgorithm::ZLIB,
            CompressionAlgorithm::Uncompressed,
        ]),
        Subpacket::KeyServerPreferences(vec![0x80]),
        Subpacket::KeyFlags(vec![0x03]),
        Subpacket::Features(vec![0x01]),
        Subpacket::RevocationReason(2, b"superseded".to_vec()),
        Subpacket::IsPrimary(true),
        Subpacket::IsPrimary(false),
        Subpacket::RevocationKey(RevocationKey::new(
            RevocationKeyClass::Sensitive,
            PublicKeyAlgorithm::DSA,
            [0x5a; 20],
        )),
        Subpacket::EmbeddedSignature(vec![4, 0x19, 1, 8, 0, 0, 0, 0, 0xaa, 0xbb]),
        Subpacket::PolicyURI(b"https://example.org/policy".to_vec()),
        Subpacket::TrustSignature(1, 120),
        Subpacket::RegularExpression(b"<[^>]+[@.]example\\.org>$\0".to_vec()),
        Subpacket::Notation { readable: true, name: b"note@example.org".to_vec(), value: b"hello".to_vec() },
        Subpacket::Notation { readable: false, name: vec![], value: vec![0, 1, 2] },
        Subpacket::IssuerFingerprint((1u8..=20).collect()),
        Subpacket::Unknown { typ: 4, critical: false, data: vec![1] },
        Subpacket::Unknown { typ: 100, critical: true, data: vec![] },
    ]
}

#[test]
fn exact_encodings() {
    assert_eq!(
        to_bytes(&Subpacket::SignatureCreationTime(0x0102_0304)).unwrap(),
        vec![5, 2, 1, 2, 3, 4]
    );
    assert_eq!(to_bytes(&Subpacket::IsPrimary(true)).unwrap(), vec![2, 25, 1]);
    assert_eq!(to_bytes(&Subpacket::IsPrimary(false)).unwrap(), vec![2, 25, 0]);
    assert_eq!(to_bytes(&Subpacket::KeyFlags(vec![0x2f])).unwrap(), vec![2, 27, 0x2f]);
    assert_eq!(
        to_bytes(&Subpacket::Issuer(key_id())).unwrap(),
        vec![9, 16, 1, 2, 3, 4, 5, 6, 7, 8]
    );
    assert_eq!(
        to_bytes(&Subpacket::PreferredSymmetricAlgorithms(vec![
            SymmetricKeyAlgorithm::AES256,
            SymmetricKeyAlgorithm::CAST5
        ]))
        .unwrap(),
        vec![3, 11, 9, 3]
    );
    assert_eq!(
        to_bytes(&Subpacket::PreferredHashAlgorithms(vec![HashAlgorithm::SHA256])).unwrap(),
        vec![2, 21, 8]
    );
    assert_eq!(
        to_bytes(&Subpacket::PreferredCompressionAlgorithms(vec![CompressionAlgorithm::BZip2])).unwrap(),
        vec![2, 22, 3]
    );
    assert_eq!(to_bytes(&Subpacket::TrustSignature(2, 60)).unwrap(), vec![3, 5, 2, 60]);
    assert_eq!(to_bytes(&Subpacket::RevocationReason(3, b"x".to_vec())).unwrap(), vec![3, 29, 3, b'x']);
    let mut fingerprint = vec![22, 33, 4];
    fingerprint.extend(1u8..=20);
    assert_eq!(to_bytes(&Subpacket::IssuerFingerprint((1u8..=20).collect())).unwrap(), fingerprint);
    let mut revocation = vec![23, 12, 0x80, 1];
    revocation.extend([7u8; 20]);
    assert_eq!(
        to_bytes(&Subpacket::RevocationKey(RevocationKey::new(
            RevocationKeyClass::Default,
            PublicKeyAlgorithm::RSA,
            [7; 20]
        )))
        .unwrap(),
        revocation
    );
    assert_eq!(
        to_bytes(&Subpacket::Notation { readable: true, name: b"a".to_vec(), value: b"bc".to_vec() }).unwrap(),
        vec![12, 20, 0x80, 0, 0, 0, 0, 1, 0, 2, b'a', b'b', b'c']
    );
    assert_eq!(
        to_bytes(&Subpacket::Unknown { typ: 99, critical: true, data: vec![9, 8] }).unwrap(),
        vec![3, 99 + 128, 9, 8]
    );
}

#[test]
fn every_kind_is_read_back() {
    let list = every_kind();
    let mut area = vec![0xde, 0xad];
    write_subpackets(&list, &mut area).unwrap();
    assert_eq!(read_subpackets(&area, 2).unwrap(), list);
    for sp in &list {
        let bytes = to_bytes(sp).unwrap();
        let (back, next) = Subpacket::parse(&bytes, 0).unwrap();
        assert_eq!(&back, sp);
        assert_eq!(next, bytes.len());
    }
}

#[test]
fn an_empty_area_holds_no_subpackets() {
    assert_eq!(read_subpackets(&[], 0).unwrap(), vec![]);
    assert_eq!(read_subpackets(&[1, 2, 3], 3).unwrap(), vec![]);
    let mut out = vec![7];
    write_subpackets(&vec![], &mut out).unwrap();
    assert_eq!(out, vec![7]);
}

#[test]
fn length_fields_change_width_at_192_and_8384() {
    for (len, expected) in [
        (0u32, vec![0u8]),
        (191, vec![191]),
        (192, vec![192, 0]),
        (193, vec![192, 1]),
        (447, vec![192, 255]),
        (448, vec![193, 0]),
        (8383, vec![223, 255]),
        (8384, vec![255, 0, 0, 0x20, 0xc0]),
        (0xffff_ffff, vec![255, 255, 255, 255, 255]),
    ] {
        let mut out = Vec::new();
        write_length(len, &mut out);
        assert_eq!(out, expected);
        assert_eq!(read_length(&out, 0), Some((len, out.len())));
    }
}

#[test]
fn a_reader_of_subpacket_lengths_takes_two_octets_up_to_254() {
    assert_eq!(read_length(&[254, 255], 0), Some((16319, 2)));
    assert_eq!(read_length(&[224, 0], 0), Some((8384, 2)));
    assert_eq!(read_length(&[192], 0), None);
    assert_eq!(read_length(&[255, 0, 0, 1], 0), None);
    assert_eq!(read_length(&[], 0), None);
    assert_eq!(read_length(&[5], 1), None);
}

#[test]
fn long_bodies_use_the_wider_length_fields() {
    for len in [190usize, 191, 192, 8382, 8383, 8384, 70000] {
        let sp = Subpacket::PolicyURI(vec![0x61; len]);
        let bytes = to_bytes(&sp).unwrap();
        let header = if len + 1 < 192 { 1 } else if len + 1 < 8384 { 2 } else { 5 };
        assert_eq!(bytes.len(), header + 1 + len);
        assert_eq!(Subpacket::parse(&bytes, 0).unwrap(), (sp, bytes.len()));
    }
}

#[test]
fn a_known_type_with_the_critical_bit_is_read_without_it() {
    let (sp, next) = Subpacket::parse(&[2, 25 + 128, 1], 0).unwrap();
    assert_eq!(sp, Subpacket::IsPrimary(true));
    assert_eq!(next, 3);
    assert!(!sp.is_critical());
    let (sp, _) = Subpacket::parse(&[2, 77 + 128, 1], 0).unwrap();
    assert_eq!(sp, Subpacket::Unknown { typ: 77, critical: true, data: vec![1] });
    assert!(sp.is_critical());
}

#[test]
fn subpackets_that_are_not_well_formed_have_no_encoding() {
    let broken = [
        Subpacket::IssuerFingerprint(vec![1, 2, 3]),
        Subpacket::Unknown { typ: 2, critical: false, data: vec![] },
        Subpacket::Unknown { typ: 200, critical: false, data: vec![] },
        Subpacket::Notation { readable: true, name: vec![0; 65536], value: vec![] },
    ];
    for sp in broken {
        let mut out = vec![1, 2, 3];
        assert_eq!(sp.to_writer(&mut out), Err(Error::MalformedInput { offset: 3 }));
        assert_eq!(out, vec![1, 2, 3]);
        assert_eq!(sp.body(), None);
        let mut out = vec![4];
        assert_eq!(
            write_subpackets(&vec![Subpacket::IsPrimary(true), sp], &mut out),
            Err(Error::MalformedInput { offset: 1 })
        );
        assert_eq!(out, vec![4]);
    }
}

#[test]
fn malformed_bodies_are_reported_at_the_subpacket() {
    let cases: [&[u8]; 9] = [
        &[4, 2, 0, 0, 0],
        &[2, 16, 1],
        &[3, 25, 1, 1],
        &[1, 29],
        &[22, 33, 5, 1, 2, 3, 4, 5, 6, 7, 8, 9, 10, 11, 12, 13, 14, 15, 16, 17, 18, 19, 20],
        &[4, 12, 0x80, 1, 2],
        &[9, 20, 0x80, 0, 0, 0, 0, 1, 0, 1],
        &[2, 5, 1],
        &[0],
    ];
    for case in cases {
        let mut input = vec![2, 25, 1];
        input.extend_from_slice(case);
        assert_eq!(read_subpackets(&input, 0), Err(Error::MalformedInput { offset: 3 }));
    }
}

#[test]
fn truncated_subpackets_are_malformed() {
    assert_eq!(Subpacket::parse(&[5, 2, 0, 0], 0), Err(Error::MalformedInput { offset: 0 }));
    assert_eq!(Subpacket::parse(&[192], 0), Err(Error::MalformedInput { offset: 0 }));
    assert_eq!(Subpacket::parse(&[], 0), Err(Error::MalformedInput { offset: 0 }));
    assert_eq!(read_subpackets(&[2, 25, 1, 9, 16, 1], 0), Err(Error::MalformedInput { offset: 3 }));
}

#[test]
fn unknown_algorithms_in_lists_are_unsupported() {
    assert_eq!(read_subpackets(&[3, 11, 9, 99], 0), Err(Error::UnsupportedAlgorithm));
    assert_eq!(read_subpackets(&[2, 21, 0], 0), Err(Error::UnsupportedAlgorithm));
    assert_eq!(read_subpackets(&[2, 22, 50], 0), Err(Error::UnsupportedAlgorithm));
    let mut revocation = vec![23, 12, 0x80, 9];
    revocation.extend([0u8; 20]);
    assert_eq!(read_subpackets(&revocation, 0), Err(Error::UnsupportedAlgorithm));
    revocation[2] = 0x81;
    assert_eq!(read_subpackets(&revocation, 0), Err(Error::MalformedInput { offset: 0 }));
}

#[test]
fn key_flags_and_their_octet() {
    let mut flags = KeyFlags::default();
    assert_eq!(flags.to_bytes(), vec![0x00]);
    flags.set_certify(true);
    flags.set_sign(true);
    assert_eq!(flags.to_bytes(), vec![0x03]);
    flags.set_encrypt_comms(true);
    flags.set_encrypt_storage(true);
    flags.set_shared(true);
    flags.set_authentication(true);
    flags.set_group(true);
    assert_eq!(flags.to_bytes(), vec![0xbf]);
    assert!(flags.certify() && flags.sign() && flags.encrypt_comms() && flags.encrypt_storage());
    assert!(flags.shared() && flags.authentication() && flags.group());
    flags.set_sign(false);
    assert_eq!(flags.to_bytes(), vec![0xbd]);
    assert_eq!(KeyFlags::from_u8(0xbd), flags);
    assert_eq!(KeyFlags::from_u8(0x40), KeyFlags::default());
    for octet in [0x01u8, 0x02, 0x04, 0x08, 0x10, 0x20, 0x80, 0x2c] {
        assert_eq!(KeyFlags::from_u8(octet).to_bytes(), vec![octet]);
    }
}

#[test]
fn key_ids_are_eight_octets() {
    assert_eq!(key_id().to_vec(), vec![1, 2, 3, 4, 5, 6, 7, 8]);
    assert_eq!(KeyId::from_slice(&[1, 2, 3]), Err(Error::MalformedInput { offset: 0 }));
    assert_eq!(KeyId::from_slice(&[0; 9]), Err(Error::MalformedInput { offset: 0 }));
}
