use num_bigint::BigUint;
use pgp::crypto::hash::HashAlgorithm;
use pgp::crypto::public_key::PublicKeyAlgorithm;
use pgp::crypto::sym::SymmetricKeyAlgorithm;
use pgp::errors::Error;
use pgp::ser::{to_bytes, Serialize};
use pgp::types::secret_params::{
    cipher_block_size, compute_checksum, EncryptedSecretParams, PlainSecretParams, SecretParams,
    StringToKey, StringToKeyType,
};

fn big(v: u64) -> BigUint {
    BigUint::from(v)
}

fn plain_samples() -> Vec<(PublicKeyAlgorithm, SecretParams)> {
    vec![
        (
            PublicKeyAlgorithm::RSA,
            SecretParams::Plain(PlainSecretParams::RSA { d: big(0x1234_5678), p: big(65521), q: big(65519), u: big(0) }),
        ),
        (PublicKeyAlgorithm::RSAEncrypt, SecretParams::Plain(PlainSecretParams::RSA { d: big(1), p: big(2), q: big(3), u: big(4) })),
        (PublicKeyAlgorithm::DSA, SecretParams::Plain(PlainSecretParams::DSA { x: big(0xffff_ffff_ffff) })),
        (PublicKeyAlgorithm::ECDSA, SecretParams::Plain(PlainSecretParams::ECDSA { x: big(0xabcdef) })),
        (PublicKeyAlgorithm::ECDH, SecretParams::Plain(PlainSecretParams::ECDH { x: big(77) })),
        (PublicKeyAlgorithm::ElgamalSign, SecretParams::Plain(PlainSecretParams::Elgamal { x: big(511) })),
        (PublicKeyAlgorithm::EdDSA, SecretParams::Plain(PlainSecretParams::EdDSA { x: big(0x8000_0000_0000_0001) })),
    ]
}

fn specifiers() -> Vec<StringToKey> {
    vec![
        StringToKey { typ: StringToKeyType::Simple, hash: HashAlgorithm::MD5, salt: None, count: None },
        StringToKey { typ: StringToKeyType::Salted, hash: HashAlgorithm::SHA1, salt: Some([1, 2, 3, 4, 5, 6, 7, 8]), count: None },
        StringToKey {
            typ: StringToKeyType::IteratedAndSalted,
            hash: HashAlgorithm::SHA256,
            salt: Some([9; 8]),
            count: Some(96),
        },
    ]
}

fn wrapped(cipher: SymmetricKeyAlgorithm, s2k: StringToKey, usage: u8, data: Vec<u8>) -> SecretParams {
    let block = cipher_block_size(cipher).unwrap();
    SecretParams::Encrypted(EncryptedSecretParams {
        data,
        iv: (0..block as u8).collect(),
        encryption_algorithm: cipher,
        string_to_key: s2k,
        string_to_key_id: usage,
    })
}

#[test]
fn secrets_in_the_clear_are_mpis_behind_a_zero_and_before_their_checksum() {
    let rsa = SecretParams::Plain(PlainSecretParams::RSA { d: big(5), p: big(3), q: big(7), u: big(2) });
    assert_eq!(to_bytes(&rsa).unwrap(), vec![0, 0, 3, 5, 0, 2, 3, 0, 3, 7, 0, 2, 2, 0, 27]);
    let dsa = SecretParams::Plain(PlainSecretParams::DSA { x: big(0xffff) });
    assert_eq!(to_bytes(&dsa).unwrap(), vec![0, 0, 16, 0xff, 0xff, 0x02, 0x0e]);
    let zero = SecretParams::Plain(PlainSecretParams::EdDSA { x: big(0) });
    assert_eq!(to_bytes(&zero).unwrap(), vec![0, 0, 0, 0, 0]);
}

#[test]
fn the_checksum_is_the_sum_of_the_octets_modulo_65536() {
    assert_eq!(compute_checksum(&[]), 0);
    assert_eq!(compute_checksum(&[1, 2, 3]), 6);
    assert_eq!(compute_checksum(&[0xff; 257]), 65535);
    assert_eq!(compute_checksum(&[0xff; 258]), 254);
    assert_eq!(compute_checksum(&vec![0x80; 1024]), 0);
}

#[test]
fn wrapped_secrets_state_cipher_specifier_and_initial_vector() {
    let s2k = specifiers()[2];
    let secret = wrapped(SymmetricKeyAlgorithm::AES128, s2k, 254, vec![0xd0, 0xd1]);
    let mut expected = vec![254, 7, 3, 8];
    expected.extend([9; 8]);
    expected.push(96);
    expected.extend(0..16u8);
    expected.extend([0xd0, 0xd1]);
    assert_eq!(to_bytes(&secret).unwrap(), expected);
    let simple = wrapped(SymmetricKeyAlgorithm::CAST5, specifiers()[0], 255, vec![]);
    assert_eq!(to_bytes(&simple).unwrap(), vec![255, 3, 0, 1, 0, 1, 2, 3, 4, 5, 6, 7]);
}

#[test]
fn secret_parameters_are_read_back() {
    for (alg, secret) in plain_samples() {
        let mut body = vec![0x11, 0x22];
        secret.to_writer(&mut body).unwrap();
        assert!(SecretParams::parse(alg, &body, 2).unwrap() == secret);
    }
    for cipher in [
        SymmetricKeyAlgorithm::IDEA,
        SymmetricKeyAlgorithm::TripleDES,
        SymmetricKeyAlgorithm::CAST5,
        SymmetricKeyAlgorithm::Blowfish,
        SymmetricKeyAlgorithm::AES128,
        SymmetricKeyAlgorithm::AES192,
        SymmetricKeyAlgorithm::AES256,
        SymmetricKeyAlgorithm::Twofish,
        SymmetricKeyAlgorithm::Camellia128,
        SymmetricKeyAlgorithm::Camellia192,
        SymmetricKeyAlgorithm::Camellia256,
    ] {
        for s2k in specifiers() {
            for usage in [254u8, 255] {
                for len in [0usize, 1, 100] {
                    let secret = wrapped(cipher, s2k, usage, vec![0x5a; len]);
                    let mut body = vec![0x33];
                    secret.to_writer(&mut body).unwrap();
                    let back = SecretParams::parse(PublicKeyAlgorithm::RSA, &body, 1).unwrap();
                    assert!(back == secret);
                    match back {
                        SecretParams::Encrypted(e) => assert_eq!(e.data.len(), len),
                        SecretParams::Plain(_) => panic!("wrapped secrets came back in the clear"),
                    }
                }
            }
        }
    }
}

#[test]
fn block_lengths() {
    assert_eq!(cipher_block_size(SymmetricKeyAlgorithm::TripleDES), Some(8));
    assert_eq!(cipher_block_size(SymmetricKeyAlgorithm::Blowfish), Some(8));
    assert_eq!(cipher_block_size(SymmetricKeyAlgorithm::AES256), Some(16));
    assert_eq!(cipher_block_size(SymmetricKeyAlgorithm::Twofish), Some(16));
    assert_eq!(cipher_block_size(SymmetricKeyAlgorithm::Plaintext), None);
    assert_eq!(cipher_block_size(SymmetricKeyAlgorithm::Private10), None);
}

#[test]
fn secret_parts_that_cannot_be_read() {
    let rsa = PublicKeyAlgorithm::RSA;
    let good = [0u8, 0, 3, 5, 0, 2, 3, 0, 3, 7, 0, 2, 2, 0, 27];
    assert!(SecretParams::parse(rsa, &good, 0).is_ok());
    assert!(matches!(SecretParams::parse(rsa, &[], 0), Err(Error::MalformedInput { offset: 0 })));
    assert!(matches!(SecretParams::parse(rsa, &good, 15), Err(Error::MalformedInput { offset: 15 })));
    // a wrong checksum, a missing checksum, octets behind the checksum
    let mut wrong = good;
    wrong[14] = 26;
    assert!(matches!(SecretParams::parse(rsa, &wrong, 0), Err(Error::MalformedInput { offset: 13 })));
    assert!(matches!(SecretParams::parse(rsa, &good[..14], 0), Err(Error::MalformedInput { offset: 13 })));
    let mut long = good.to_vec();
    long.push(0);
    assert!(matches!(SecretParams::parse(rsa, &long, 0), Err(Error::MalformedInput { offset: 13 })));
    // a missing integer
    assert!(matches!(SecretParams::parse(rsa, &good[..10], 0), Err(Error::MalformedInput { offset: 10 })));
    // an algorithm without secrets, a legacy protection octet, an unknown cipher or method
    assert!(matches!(
        SecretParams::parse(PublicKeyAlgorithm::DiffieHellman, &good, 0),
        Err(Error::UnsupportedAlgorithm)
    ));
    assert!(matches!(SecretParams::parse(rsa, &[9, 1, 2, 3], 0), Err(Error::UnsupportedAlgorithm)));
    assert!(matches!(SecretParams::parse(rsa, &[254, 99, 0, 2], 0), Err(Error::UnsupportedAlgorithm)));
    assert!(matches!(SecretParams::parse(rsa, &[254, 0, 0, 2], 0), Err(Error::UnsupportedAlgorithm)));
    assert!(matches!(SecretParams::parse(rsa, &[254, 7, 2, 2], 0), Err(Error::UnsupportedAlgorithm)));
    assert!(matches!(SecretParams::parse(rsa, &[254, 7, 0, 77], 0), Err(Error::UnsupportedAlgorithm)));
    // truncated specifier and initial vector
    assert!(matches!(SecretParams::parse(rsa, &[254], 0), Err(Error::MalformedInput { offset: 0 })));
    assert!(matches!(SecretParams::parse(rsa, &[254, 7, 0], 0), Err(Error::MalformedInput { offset: 2 })));
    assert!(matches!(SecretParams::parse(rsa, &[254, 7, 1, 2, 1, 2, 3], 0), Err(Error::MalformedInput { offset: 2 })));
    assert!(matches!(
        SecretParams::parse(rsa, &[254, 7, 3, 2, 1, 2, 3, 4, 5, 6, 7, 8], 0),
        Err(Error::MalformedInput { offset: 2 })
    ));
    assert!(matches!(
        SecretParams::parse(rsa, &[254, 7, 0, 2, 1, 2, 3], 0),
        Err(Error::MalformedInput { offset: 4 })
    ));
}

#[test]
fn secret_parameters_without_an_encoding_are_refused() {
    let huge = BigUint::from_bytes_be(&vec![0xff; 8193]);
    let secret = SecretParams::Plain(PlainSecretParams::DSA { x: huge });
    let mut out = vec![1];
    assert_eq!(secret.to_writer(&mut out), Err(Error::MalformedInput { offset: 1 }));
    assert_eq!(out, vec![1]);
    let mut short_iv = match wrapped(SymmetricKeyAlgorithm::AES128, specifiers()[0], 254, vec![]) {
        SecretParams::Encrypted(e) => e,
        SecretParams::Plain(_) => panic!("not wrapped"),
    };
    short_iv.iv.pop();
    assert_eq!(to_bytes(&SecretParams::Encrypted(short_iv.clone())), Err(Error::MalformedInput { offset: 0 }));
    short_iv.iv.push(0);
    short_iv.string_to_key_id = 9;
    assert_eq!(to_bytes(&SecretParams::Encrypted(short_iv.clone())), Err(Error::MalformedInput { offset: 0 }));
    short_iv.string_to_key_id = 255;
    short_iv.string_to_key.count = Some(1);
    assert!(!short_iv.string_to_key.is_well_formed());
    assert_eq!(to_bytes(&SecretParams::Encrypted(short_iv.clone())), Err(Error::MalformedInput { offset: 0 }));
    short_iv.string_to_key.count = None;
    short_iv.encryption_algorithm = SymmetricKeyAlgorithm::Plaintext;
    assert_eq!(to_bytes(&SecretParams::Encrypted(short_iv)), Err(Error::MalformedInput { offset: 0 }));
}
