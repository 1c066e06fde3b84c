use num_bigint::BigUint;
use pgp::crypto::ecc_curve::ECCCurve;
use pgp::crypto::hash::HashAlgorithm;
use pgp::crypto::public_key::{PublicKeyAlgorithm, PublicParams};
use pgp::crypto::sym::SymmetricKeyAlgorithm;
use pgp::errors::Error;
use pgp::ser::{to_bytes, Serialize};

fn big(v: u64) -> BigUint {
    BigUint::from(v)
}

fn point(first: u8, len: usize) -> Vec<u8> {
    let mut p = vec![first];
    p.extend((1..len).map(|i| i as u8));
    p
}

fn samples() -> Vec<(PublicKeyAlgorithm, PublicParams)> {
    vec![
        (PublicKeyAlgorithm::RSA, PublicParams::RSA { n: big(0xc5a1_0f3b_77), e: big(65537) }),
        (PublicKeyAlgorithm::RSASign, PublicParams::RSA { n: big(0), e: big(3) }),
        (
            PublicKeyAlgorithm::DSA,
            PublicParams::DSA { p: big(0xffff_fffb), q: big(0xfff1), g: big(2), y: big(0x1234_5678_9a) },
        ),
        (
            PublicKeyAlgorithm::Elgamal,
            PublicParams::Elgamal { p: big(0xffff_ffff_ffff_ffc5), g: big(5), y: big(0x0102_0304) },
        ),
        (
            PublicKeyAlgorithm::ECDSA,
            PublicParams::ECDSA { curve: ECCCurve::P256, p: point(0x04, 65) },
        ),
        (
            PublicKeyAlgorithm::ECDH,
            PublicParams::ECDH {
                curve: ECCCurve::Curve25519,
                p: point(0x40, 33),
                hash: HashAlgorithm::SHA256,
                alg_sym: SymmetricKeyAlgorithm::AES128,
            },
        ),
        (
            PublicKeyAlgorithm::EdDSA,
            PublicParams::EdDSA { curve: ECCCurve::Ed25519, q: point(0x40, 33) },
        ),
    ]
}

#[test]
fn ecdh_subpacket_fidelity() {
    let params = PublicParams::ECDH {
        curve: ECCCurve::Curve25519,
        p: point(0x40, 33),
        hash: HashAlgorithm::SHA256,
        alg_sym: SymmetricKeyAlgorithm::AES128,
    };
    let bytes = to_bytes(&params).unwrap();
    assert_eq!(&bytes[bytes.len() - 4..], &[0x03, 0x01, 0x08, 0x07]);
    assert_eq!(bytes[0], 10);
    assert_eq!(&bytes[1..11], &[0x2B, 0x06, 0x01, 0x04, 0x01, 0x97, 0x55, 0x01, 0x05, 0x01]);
    assert_eq!(&bytes[11..13], &[0x01, 0x07]);
    assert_eq!(bytes.len(), 11 + 2 + 33 + 4);
}

#[test]
fn rsa_parameters_are_two_mpis_in_order() {
    let params = PublicParams::RSA { n: big(0x0123_45), e: big(65537) };
    let mut out = vec![0xee];
    params.to_writer(&mut out).unwrap();
    assert_eq!(out, vec![0xee, 0x00, 0x11, 0x01, 0x23, 0x45, 0x00, 0x11, 0x01, 0x00, 0x01]);
}

#[test]
fn dsa_and_elgamal_parameters_are_written_in_field_order() {
    let dsa = PublicParams::DSA { p: big(7), q: big(3), g: big(2), y: big(5) };
    assert_eq!(
        to_bytes(&dsa).unwrap(),
        vec![0, 3, 7, 0, 2, 3, 0, 2, 2, 0, 3, 5]
    );
    let elgamal = PublicParams::Elgamal { p: big(11), g: big(2), y: big(9) };
    assert_eq!(to_bytes(&elgamal).unwrap(), vec![0, 4, 11, 0, 2, 2, 0, 4, 9]);
}

#[test]
fn ecdsa_and_eddsa_parameters_are_oid_then_point() {
    let ecdsa = PublicParams::ECDSA { curve: ECCCurve::P384, p: vec![0x04, 0x01] };
    assert_eq!(
        to_bytes(&ecdsa).unwrap(),
        vec![5, 0x2B, 0x81, 0x04, 0x00, 0x22, 0x00, 0x0b, 0x04, 0x01]
    );
    let eddsa = PublicParams::EdDSA { curve: ECCCurve::Ed25519, q: vec![0x40, 0xff] };
    assert_eq!(
        to_bytes(&eddsa).unwrap(),
        vec![9, 0x2B, 0x06, 0x01, 0x04, 0x01, 0xDA, 0x47, 0x0F, 0x01, 0x00, 0x0f, 0x40, 0xff]
    );
}

#[test]
fn emitted_parameters_are_read_back() {
    for (alg, params) in samples() {
        let mut input = vec![0xab, 0xcd];
        params.to_writer(&mut input).unwrap();
        let end = input.len();
        input.extend([0x99, 0x98]);
        let (back, next) = PublicParams::parse(alg, &input, 2).unwrap();
        assert!(back == params);
        assert_eq!(next, end);
    }
}

#[test]
fn parameters_that_do_not_fit_an_mpi_are_refused() {
    let huge = BigUint::from_bytes_be(&vec![0xffu8; 8193]);
    let params = PublicParams::RSA { n: big(5), e: huge };
    let mut out = vec![1, 2];
    assert_eq!(params.to_writer(&mut out), Err(Error::MalformedInput { offset: 2 }));
    assert_eq!(out, vec![1, 2]);
    assert_eq!(to_bytes(&params), Err(Error::MalformedInput { offset: 0 }));
}

#[test]
fn an_unknown_curve_is_unsupported() {
    let input = [3, 0x2B, 0x81, 0x04, 0x00, 0x03, 0x04, 0x00];
    assert!(matches!(
        PublicParams::parse(PublicKeyAlgorithm::ECDSA, &input, 0),
        Err(Error::UnsupportedCurve)
    ));
}

#[test]
fn a_curve_of_another_algorithm_is_malformed() {
    let p256 = PublicParams::EdDSA { curve: ECCCurve::P256, q: vec![0x04, 0x01] };
    let bytes = to_bytes(&p256).unwrap();
    assert!(matches!(
        PublicParams::parse(PublicKeyAlgorithm::EdDSA, &bytes, 0),
        Err(Error::MalformedInput { offset: 0 })
    ));
    let ed = PublicParams::ECDSA { curve: ECCCurve::Ed25519, p: vec![0x40, 0x01] };
    let bytes = to_bytes(&ed).unwrap();
    assert!(matches!(
        PublicParams::parse(PublicKeyAlgorithm::ECDSA, &bytes, 0),
        Err(Error::MalformedInput { offset: 0 })
    ));
    assert!(matches!(
        PublicParams::parse(PublicKeyAlgorithm::ECDH, &bytes, 0),
        Err(Error::MalformedInput { offset: 0 })
    ));
}

#[test]
fn algorithms_without_parameters_are_unsupported() {
    for alg in [PublicKeyAlgorithm::DiffieHellman, PublicKeyAlgorithm::Private100, PublicKeyAlgorithm::Private110] {
        assert!(matches!(PublicParams::parse(alg, &[0, 1, 1, 0, 1, 1], 0), Err(Error::UnsupportedAlgorithm)));
    }
}

#[test]
fn truncated_parameters_are_malformed_where_the_missing_part_starts() {
    assert!(matches!(
        PublicParams::parse(PublicKeyAlgorithm::RSA, &[0x00, 0x01, 0x01], 0),
        Err(Error::MalformedInput { offset: 3 })
    ));
    assert!(matches!(
        PublicParams::parse(PublicKeyAlgorithm::RSA, &[0x00, 0x09, 0x01], 0),
        Err(Error::MalformedInput { offset: 0 })
    ));
    assert!(matches!(
        PublicParams::parse(PublicKeyAlgorithm::DSA, &[0, 1, 1, 0, 1, 1, 0, 1, 1], 0),
        Err(Error::MalformedInput { offset: 9 })
    ));
    assert!(matches!(
        PublicParams::parse(PublicKeyAlgorithm::ECDSA, &[8, 0x2A, 0x86], 0),
        Err(Error::MalformedInput { offset: 0 })
    ));
}

#[test]
fn a_bad_ecdh_descriptor_is_refused() {
    let good = PublicParams::ECDH {
        curve: ECCCurve::P256,
        p: vec![0x04, 0x01],
        hash: HashAlgorithm::SHA512,
        alg_sym: SymmetricKeyAlgorithm::AES256,
    };
    let bytes = to_bytes(&good).unwrap();
    let n = bytes.len();
    assert_eq!(&bytes[n - 4..], &[0x03, 0x01, 0x0a, 0x09]);
    let mut wrong_len = bytes.clone();
    wrong_len[n - 4] = 0x04;
    assert!(matches!(
        PublicParams::parse(PublicKeyAlgorithm::ECDH, &wrong_len, 0),
        Err(Error::MalformedInput { offset }) if offset == n - 4
    ));
    let mut wrong_tag = bytes.clone();
    wrong_tag[n - 3] = 0x02;
    assert!(matches!(
        PublicParams::parse(PublicKeyAlgorithm::ECDH, &wrong_tag, 0),
        Err(Error::MalformedInput { offset }) if offset == n - 4
    ));
    let mut unknown_hash = bytes.clone();
    unknown_hash[n - 2] = 0x63;
    assert!(matches!(
        PublicParams::parse(PublicKeyAlgorithm::ECDH, &unknown_hash, 0),
        Err(Error::UnsupportedAlgorithm)
    ));
    assert!(matches!(
        PublicParams::parse(PublicKeyAlgorithm::ECDH, &bytes[..n - 1], 0),
        Err(Error::MalformedInput { offset }) if offset == n - 4
    ));
}

#[test]
fn diagnostics_show_fields_in_hexadecimal() {
    let rsa = PublicParams::RSA { n: big(0x0abc), e: big(65537) };
    assert_eq!(rsa.fmt(), "PublicParams::RSA { n: \"0abc\", e: \"010001\" }");
    let zero = PublicParams::RSA { n: big(0), e: big(255) };
    assert_eq!(zero.fmt(), "PublicParams::RSA { n: \"00\", e: \"ff\" }");
}

#[test]
fn diagnostics_name_dsa_and_elgamal_fields_by_their_own_names() {
    let dsa = PublicParams::DSA { p: big(0x11), q: big(0x22), g: big(0x33), y: big(0x44) };
    assert_eq!(dsa.fmt(), "PublicParams::DSA { p: \"11\", q: \"22\", g: \"33\", y: \"44\" }");
    let elgamal = PublicParams::Elgamal { p: big(0x11), g: big(0x33), y: big(0x44) };
    assert_eq!(elgamal.fmt(), "PublicParams::Elgamal { p: \"11\", g: \"33\", y: \"44\" }");
}

#[test]
fn diagnostics_of_curve_parameters() {
    let ecdsa = PublicParams::ECDSA { curve: ECCCurve::P256, p: vec![0x04, 0xa0] };
    assert_eq!(ecdsa.fmt(), "PublicParams::ECDSA { curve: P256, p: \"04a0\" }");
    let eddsa = PublicParams::EdDSA { curve: ECCCurve::Ed25519, q: vec![0x40] };
    assert_eq!(eddsa.fmt(), "PublicParams::EdDSA { curve: Ed25519, q: \"40\" }");
    let ecdh = PublicParams::ECDH {
        curve: ECCCurve::Curve25519,
        p: vec![0x40, 0x0f],
        hash: HashAlgorithm::SHA256,
        alg_sym: SymmetricKeyAlgorithm::AES128,
    };
    assert_eq!(
        ecdh.fmt(),
        "PublicParams::ECDSA { curve: Curve25519, hash: SHA256, alg_sym: AES128, p: \"400f\" }"
    );
}

#[test]
fn every_public_key_algorithm_is_found_again_from_its_octet() {
    let all = [
        (PublicKeyAlgorithm::RSA, 1u8),
        (PublicKeyAlgorithm::RSAEncrypt, 2),
        (PublicKeyAlgorithm::RSASign, 3),
        (PublicKeyAlgorithm::ElgamalSign, 16),
        (PublicKeyAlgorithm::DSA, 17),
        (PublicKeyAlgorithm::ECDH, 18),
        (PublicKeyAlgorithm::ECDSA, 19),
        (PublicKeyAlgorithm::Elgamal, 20),
        (PublicKeyAlgorithm::DiffieHellman, 21),
        (PublicKeyAlgorithm::EdDSA, 22),
        (PublicKeyAlgorithm::Private100, 100),
        (PublicKeyAlgorithm::Private101, 101),
        (PublicKeyAlgorithm::Private102, 102),
        (PublicKeyAlgorithm::Private103, 103),
        (PublicKeyAlgorithm::Private104, 104),
        (PublicKeyAlgorithm::Private105, 105),
        (PublicKeyAlgorithm::Private106, 106),
        (PublicKeyAlgorithm::Private107, 107),
        (PublicKeyAlgorithm::Private108, 108),
        (PublicKeyAlgorithm::Private109, 109),
        (PublicKeyAlgorithm::Private110, 110),
    ];
    for (alg, id) in all {
        assert_eq!(alg.to_u8(), id);
        assert_eq!(PublicKeyAlgorithm::from_u8(id), Some(alg));
    }
    for id in [0u8, 4, 15, 23, 99, 111, 255] {
        assert_eq!(PublicKeyAlgorithm::from_u8(id), None);
    }
}

#[test]
fn curves_and_their_object_identifiers() {
    for curve in [
        ECCCurve::Curve25519,
        ECCCurve::Ed25519,
        ECCCurve::P256,
        ECCCurve::P384,
        ECCCurve::P521,
        ECCCurve::BrainpoolP256r1,
        ECCCurve::BrainpoolP384r1,
        ECCCurve::BrainpoolP512r1,
        ECCCurve::Secp256k1,
    ] {
        assert_eq!(ECCCurve::from_oid(&curve.oid()), Some(curve));
    }
    assert_eq!(ECCCurve::P256.oid(), vec![0x2A, 0x86, 0x48, 0xCE, 0x3D, 0x03, 0x01, 0x07]);
    assert_eq!(ECCCurve::from_oid(&[0x2B, 0x81, 0x04, 0x00, 0x23]), Some(ECCCurve::P521));
    assert_eq!(ECCCurve::from_oid(&[0x2B, 0x81, 0x04, 0x00]), None);
    assert_eq!(ECCCurve::from_oid(&[]), None);
    assert_eq!(ECCCurve::Secp256k1.name(), "Secp256k1");
}
