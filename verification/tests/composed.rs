use num_bigint::BigUint;
use pgp::composed::grammar::{Phase, Progress, Token};
use pgp::composed::key::shared::KeyDetails;
use pgp::composed::signed_key::{Rejection, SignedKey};
use pgp::composed::verify::Verdict;
use pgp::crypto::hash::HashAlgorithm;
use pgp::crypto::public_key::{PublicKeyAlgorithm, PublicParams};
use pgp::crypto::sym::SymmetricKeyAlgorithm;
use pgp::errors::Error;
use pgp::packet::framing::Packet;
use pgp::packet::key::PublicKey;
use pgp::packet::signature::{
    build_binding_prologue, build_key_prologue, Signature, SignatureConfig, SignatureType,
};
use pgp::packet::subpacket::Subpacket;
use pgp::packet::user_attribute::UserAttribute;
use pgp::packet::user_id::UserId;
use pgp::ser::{to_bytes, Serialize};
use pgp::types::compression::CompressionAlgorithm;
use pgp::types::key_flags::KeyFlags;
use pgp::types::key_id::KeyId;
use pgp::types::key_traits::{KeyTrait, PublicKeyTrait, SecretKeyTrait};
use pgp::types::secret_params::{PlainSecretParams, SecretParams};
use pgp::types::tag::{Tag, Version};

/// A key with a toy engine: the signature over a digest is the digest
/// reversed.
struct ToyKey {
    public: PublicKey,
}

impl KeyTrait for ToyKey {
    fn fingerprint(&self) -> Vec<u8> {
        self.public.fingerprint().unwrap()
    }

    fn key_id(&self) -> Option<KeyId> {
        self.public.key_id()
    }

    fn algorithm(&self) -> PublicKeyAlgorithm {
        self.public.algorithm
    }
}

impl PublicKeyTrait for ToyKey {
    fn packet_body(&self) -> Vec<u8> {
        to_bytes(&self.public).unwrap()
    }

    fn verify_signature(&self, _hash: HashAlgorithm, digest: &[u8], sig: &Vec<Vec<u8>>) -> Result<(), Error> {
        let mut expected = digest.to_vec();
        expected.reverse();
        let first = expected.iter().position(|b| *b != 0).unwrap_or(expected.len());
        if sig.len() == 1 && sig[0] == expected[first..] {
            Ok(())
        } else {
            Err(Error::VerificationFailed)
        }
    }
}

impl SecretKeyTrait for ToyKey {
    fn create_signature<F>(&self, _key_pw: F, _hash: HashAlgorithm, digest: &[u8]) -> Result<Vec<Vec<u8>>, Error>
    where
        F: FnOnce() -> String,
    {
        let mut sig = digest.to_vec();
        sig.reverse();
        Ok(vec![sig])
    }
}

fn public_key(seed: u32) -> PublicKey {
    PublicKey::new(
        0x5c00_0000 + seed,
        PublicKeyAlgorithm::RSA,
        PublicParams::RSA { n: BigUint::from(0xc0ff_ee00u32 + seed), e: BigUint::from(65537u32) },
    )
}

fn toy_key() -> ToyKey {
    ToyKey { public: public_key(1) }
}

fn packet(tag: Tag, body: Vec<u8>) -> Vec<u8> {
    to_bytes(&Packet::new(Version::New, tag, body)).unwrap()
}

fn key_packet(tag: Tag, key: &PublicKey) -> Vec<u8> {
    packet(tag, to_bytes(key).unwrap())
}

fn user_packet(name: &str) -> Vec<u8> {
    packet(Tag::UserId, name.as_bytes().to_vec())
}

fn certification(key: &ToyKey, name: &str, created: u32, primary: Option<bool>) -> Signature {
    let mut hashed = vec![Subpacket::SignatureCreationTime(created)];
    if let Some(flag) = primary {
        hashed.push(Subpacket::IsPrimary(flag));
    }
    SignatureConfig::new_v4(
        SignatureType::CertGeneric,
        key.algorithm(),
        HashAlgorithm::SHA256,
        hashed,
        vec![Subpacket::Issuer(key.key_id().unwrap()), Subpacket::IssuerFingerprint(key.fingerprint())],
    )
    .sign_certificate(key, || String::new(), Tag::UserId, &UserId::from_str(Version::New, name))
    .unwrap()
}

fn plain_signature(typ: SignatureType) -> Signature {
    let config = SignatureConfig::new_v4(
        typ,
        PublicKeyAlgorithm::RSA,
        HashAlgorithm::SHA256,
        vec![Subpacket::SignatureCreationTime(7)],
        vec![],
    );
    Signature::from_config(config, [0x12, 0x34], vec![vec![0x01, 0x02]]).unwrap()
}

fn signature_packet(sig: &Signature) -> Vec<u8> {
    packet(Tag::Signature, to_bytes(sig).unwrap())
}

fn stream(parts: &[Vec<u8>]) -> Vec<u8> {
    parts.concat()
}

fn offset_of(parts: &[Vec<u8>], index: usize) -> usize {
    parts[..index].iter().map(|p| p.len()).sum()
}

fn composite(error_at: usize) -> Rejection {
    Rejection { error: Error::MalformedComposite { offset: error_at }, offset: error_at }
}

fn rejection(input: &[u8]) -> Rejection {
    match SignedKey::from_bytes(input) {
        Ok(_) => panic!("the stream was accepted"),
        Err(r) => r,
    }
}

fn accepted(input: &[u8]) -> SignedKey {
    match SignedKey::from_bytes(input) {
        Ok(key) => key,
        Err(r) => panic!("the stream was turned down: {:?}", r),
    }
}

#[test]
fn a_certified_key_is_assembled_from_its_packets() {
    let key = toy_key();
    let mut flags = KeyFlags::default();
    flags.set_certify(true);
    let details = KeyDetails::new(
        UserId::from_str(Version::New, "alice"),
        vec![UserId::from_str(Version::New, "alice@work")],
        vec![UserAttribute::new(Version::New, 1, vec![1, 2, 3])],
        flags,
        vec![SymmetricKeyAlgorithm::AES256],
        vec![HashAlgorithm::SHA256],
        vec![CompressionAlgorithm::ZLIB],
        None,
    );
    let signed = details.sign_at(&key, || String::new(), 1_600_000_000).unwrap();
    let subkey = public_key(2);
    let binding = plain_signature(SignatureType::SubkeyBinding);
    let revocation = plain_signature(SignatureType::SubkeyRevocation);
    let direct = plain_signature(SignatureType::DirectKey);
    let key_revocation = plain_signature(SignatureType::KeyRevocation);
    let input = stream(&[
        key_packet(Tag::PublicKey, &key.public),
        signature_packet(&direct),
        signature_packet(&key_revocation),
        user_packet("alice"),
        signature_packet(&signed.users[0].signatures[0]),
        user_packet("alice@work"),
        signature_packet(&signed.users[1].signatures[0]),
        packet(Tag::UserAttribute, to_bytes(&signed.user_attributes[0].attr).unwrap()),
        signature_packet(&signed.user_attributes[0].signatures[0]),
        key_packet(Tag::PublicSubkey, &subkey),
        signature_packet(&binding),
        signature_packet(&binding),
        signature_packet(&revocation),
    ]);
    let tree = accepted(&input);
    assert!(!tree.is_secret());
    assert!(tree.primary_key.public == key.public);
    assert!(tree.primary_key.secret.is_none());
    assert_eq!(tree.details.direct_signatures, vec![direct]);
    assert_eq!(tree.details.revocation_signatures, vec![key_revocation]);
    assert_eq!(tree.details.users, signed.users);
    assert_eq!(tree.details.user_attributes, signed.user_attributes);
    assert_eq!(tree.subkeys.len(), 1);
    assert!(tree.subkeys[0].key.public == subkey);
    assert_eq!(tree.subkeys[0].signatures, vec![binding.clone(), binding, revocation]);
    assert_eq!(tree.primary_user, 0);
    assert!(!tree.promoted);
    let verdicts = tree.verify(&key, true).unwrap();
    assert_eq!(verdicts.users, vec![vec![Verdict::Valid], vec![Verdict::Valid]]);
    assert_eq!(verdicts.user_attributes, vec![vec![Verdict::Valid]]);
    // the signatures on the key and the subkey name no issuer
    assert_eq!(verdicts.direct_signatures, vec![Verdict::Unverified]);
    assert_eq!(verdicts.revocation_signatures, vec![Verdict::Unverified]);
    assert_eq!(verdicts.subkeys, vec![vec![Verdict::Unverified; 3]]);
}

#[test]
fn primary_promotion() {
    let key = toy_key();
    let input = stream(&[
        key_packet(Tag::PublicKey, &key.public),
        user_packet("one"),
        signature_packet(&certification(&key, "one", 10, None)),
        user_packet("two"),
        signature_packet(&certification(&key, "two", 10, None)),
        user_packet("three"),
        signature_packet(&certification(&key, "three", 10, Some(false))),
    ]);
    let tree = accepted(&input);
    assert_eq!(tree.details.users.len(), 3);
    assert_eq!(tree.primary_user, 0);
    assert!(tree.promoted);
    assert_eq!(tree.details.users[0].id.id(), b"one");
}

#[test]
fn the_first_marked_user_id_is_the_primary_one() {
    let key = toy_key();
    let input = stream(&[
        key_packet(Tag::PublicKey, &key.public),
        user_packet("one"),
        signature_packet(&certification(&key, "one", 10, None)),
        user_packet("two"),
        signature_packet(&certification(&key, "two", 10, Some(true))),
        user_packet("three"),
        signature_packet(&certification(&key, "three", 10, Some(true))),
    ]);
    let tree = accepted(&input);
    assert_eq!(tree.primary_user, 1);
    assert!(!tree.promoted);
}

#[test]
fn the_most_recent_self_certification_governs_and_the_later_one_breaks_ties() {
    let key = toy_key();
    let marked_old = certification(&key, "one", 10, Some(true));
    let unmarked_new = certification(&key, "one", 20, None);
    let tree = accepted(&stream(&[
        key_packet(Tag::PublicKey, &key.public),
        user_packet("one"),
        signature_packet(&marked_old),
        signature_packet(&unmarked_new),
    ]));
    assert!(tree.promoted);
    let tree = accepted(&stream(&[
        key_packet(Tag::PublicKey, &key.public),
        user_packet("one"),
        signature_packet(&unmarked_new),
        signature_packet(&marked_old),
    ]));
    assert!(tree.promoted);
    let marked_same = certification(&key, "one", 20, Some(true));
    let tree = accepted(&stream(&[
        key_packet(Tag::PublicKey, &key.public),
        user_packet("one"),
        signature_packet(&unmarked_new),
        signature_packet(&marked_same),
    ]));
    assert!(!tree.promoted);
    let tree = accepted(&stream(&[
        key_packet(Tag::PublicKey, &key.public),
        user_packet("one"),
        signature_packet(&marked_same),
        signature_packet(&unmarked_new),
    ]));
    assert!(tree.promoted);
    assert_eq!(
        pgp::composed::signed_key::governing_signature(
            &vec![marked_old.clone(), marked_same.clone(), unmarked_new.clone(), marked_old],
            &key.fingerprint()
        ),
        Some(2)
    );
}

#[test]
fn a_marker_from_another_issuer_does_not_count() {
    let key = toy_key();
    let stranger = ToyKey { public: public_key(9) };
    let foreign = certification(&stranger, "one", 30, Some(true));
    assert!(!foreign.issued_by(&key.fingerprint()));
    assert!(foreign.issued_by(&stranger.fingerprint()));
    let tree = accepted(&stream(&[
        key_packet(Tag::PublicKey, &key.public),
        user_packet("one"),
        signature_packet(&certification(&key, "one", 10, None)),
        signature_packet(&foreign),
    ]));
    assert!(tree.promoted);
    let verdicts = tree.verify(&key, true).unwrap();
    assert_eq!(verdicts.users, vec![vec![Verdict::Valid, Verdict::Unverified]]);
}

#[test]
fn the_fingerprint_decides_over_the_key_id() {
    let key = toy_key();
    let stranger = ToyKey { public: public_key(9) };
    let mut sig = certification(&key, "one", 10, None);
    sig.config.unhashed_subpackets = vec![
        Subpacket::Issuer(stranger.key_id().unwrap()),
        Subpacket::IssuerFingerprint(key.fingerprint()),
    ];
    assert!(sig.issued_by(&key.fingerprint()));
    assert!(!sig.issued_by(&stranger.fingerprint()));
    sig.config.unhashed_subpackets = vec![Subpacket::Issuer(key.key_id().unwrap())];
    assert!(sig.issued_by(&key.fingerprint()));
    assert!(!sig.issued_by(&stranger.fingerprint()));
    sig.config.unhashed_subpackets = vec![];
    assert!(!sig.issued_by(&key.fingerprint()));
}

#[test]
fn key_fingerprints_and_key_ids() {
    let key = public_key(1);
    let body = to_bytes(&key).unwrap();
    assert_eq!(body, vec![4, 0x5c, 0, 0, 1, 1, 0, 32, 0xc0, 0xff, 0xee, 0x01, 0, 17, 1, 0, 1]);
    let mut hashed = vec![0x99, 0, body.len() as u8];
    hashed.extend(&body);
    let fingerprint = HashAlgorithm::SHA1.digest(&hashed);
    assert_eq!(key.fingerprint(), Some(fingerprint.clone()));
    assert_eq!(key.key_id().unwrap().to_vec(), fingerprint[12..].to_vec());
    let (back, end) = PublicKey::parse(&body).unwrap();
    assert!(back == key);
    assert_eq!(end, body.len());
    let huge = PublicKey::new(
        0,
        PublicKeyAlgorithm::RSA,
        PublicParams::RSA { n: BigUint::from_bytes_be(&vec![0xff; 9000]), e: BigUint::from(3u32) },
    );
    assert_eq!(huge.fingerprint(), None);
    assert_eq!(huge.key_id(), None);
    assert!(matches!(PublicKey::parse(&[3, 0, 0, 0, 0, 1, 0, 0]), Err(Error::UnsupportedAlgorithm)));
    assert!(matches!(PublicKey::parse(&[5, 0, 0, 0, 0, 1, 0, 0]), Err(Error::MalformedInput { offset: 0 })));
    assert!(matches!(PublicKey::parse(&[4, 0, 0, 0, 0, 9, 0, 0]), Err(Error::UnsupportedAlgorithm)));
    assert!(matches!(PublicKey::parse(&[4, 0, 0]), Err(Error::MalformedInput { offset: 0 })));
    assert!(matches!(PublicKey::parse(&[4, 0, 0, 0, 0, 1, 0, 1, 1]), Err(Error::MalformedInput { offset: 9 })));
}

#[test]
fn a_secret_key_keeps_its_secret_octets_and_takes_secret_subkeys() {
    let key = toy_key();
    let mut primary = to_bytes(&key.public).unwrap();
    primary.extend([0, 0, 3, 5, 0, 2, 3, 0, 3, 7, 0, 2, 2, 0, 27]);
    let mut wrapped = vec![254, 9, 3, 8];
    wrapped.extend([0x51; 8]);
    wrapped.push(96);
    wrapped.extend([0x1f; 16]);
    wrapped.extend([0xe0, 0xe1, 0xe2]);
    let mut sub = to_bytes(&public_key(2)).unwrap();
    sub.extend(&wrapped);
    let parts = [
        packet(Tag::SecretKey, primary),
        user_packet("one"),
        signature_packet(&certification(&key, "one", 10, Some(true))),
        packet(Tag::SecretSubkey, sub),
        signature_packet(&plain_signature(SignatureType::SubkeyBinding)),
    ];
    let tree = accepted(&stream(&parts));
    assert!(tree.is_secret());
    let plain = SecretParams::Plain(PlainSecretParams::RSA {
        d: BigUint::from(5u32),
        p: BigUint::from(3u32),
        q: BigUint::from(7u32),
        u: BigUint::from(2u32),
    });
    assert!(tree.primary_key.secret == Some(plain));
    match &tree.subkeys[0].key.secret {
        Some(SecretParams::Encrypted(e)) => {
            assert_eq!(e.data, vec![0xe0, 0xe1, 0xe2]);
            assert_eq!(e.iv, vec![0x1f; 16]);
            assert_eq!(e.string_to_key_id, 254);
        }
        _ => panic!("the secret part of the subkey is not wrapped"),
    }
    assert_eq!(to_bytes(&tree.subkeys[0].key).unwrap()[to_bytes(&public_key(2)).unwrap().len()..], wrapped[..]);
    let bad_sum = {
        let mut body = to_bytes(&key.public).unwrap();
        let at = body.len() + 13;
        body.extend([0, 0, 3, 5, 0, 2, 3, 0, 3, 7, 0, 2, 2, 0, 28]);
        (packet(Tag::SecretKey, body), at)
    };
    assert_eq!(
        rejection(&stream(&[bad_sum.0, user_packet("one")])),
        Rejection { error: Error::MalformedInput { offset: bad_sum.1 }, offset: 0 }
    );
    let mut mixed = parts.to_vec();
    mixed[3] = key_packet(Tag::PublicSubkey, &public_key(2));
    assert_eq!(rejection(&stream(&mixed)), composite(offset_of(&mixed, 3)));
}

#[test]
fn every_rejection_carries_a_byte_offset_within_the_input() {
    let key = toy_key();
    let k = key_packet(Tag::PublicKey, &key.public);
    let sk = key_packet(Tag::PublicSubkey, &public_key(2));
    let u = user_packet("one");
    let c = signature_packet(&certification(&key, "one", 10, None));
    let a = packet(Tag::UserAttribute, vec![2, 1, 7]);
    let b = signature_packet(&plain_signature(SignatureType::SubkeyBinding));
    let r = signature_packet(&plain_signature(SignatureType::SubkeyRevocation));
    let d = signature_packet(&plain_signature(SignatureType::DirectKey));
    let data = signature_packet(&plain_signature(SignatureType::Binary));
    let marker = packet(Tag::Marker, b"PGP".to_vec());

    // streams that end where a key may not end
    for parts in [vec![], vec![k.clone()], vec![k.clone(), d.clone()], vec![k.clone(), u.clone()],
        vec![k.clone(), u.clone(), c.clone(), a.clone()],
        vec![k.clone(), u.clone(), c.clone(), sk.clone()]]
    {
        let input = stream(&parts);
        assert_eq!(rejection(&input), composite(input.len()));
    }
    // packets that arrive out of order: the offset is the start of the packet
    let violations: Vec<(Vec<Vec<u8>>, usize)> = vec![
        (vec![u.clone(), c.clone()], 0),
        (vec![c.clone()], 0),
        (vec![k.clone(), k.clone()], 1),
        (vec![k.clone(), c.clone()], 1),
        (vec![k.clone(), a.clone(), c.clone()], 1),
        (vec![k.clone(), sk.clone(), b.clone()], 1),
        (vec![k.clone(), u.clone(), u.clone(), c.clone()], 2),
        (vec![k.clone(), u.clone(), d.clone()], 2),
        (vec![k.clone(), u.clone(), b.clone()], 2),
        (vec![k.clone(), u.clone(), c.clone(), d.clone()], 3),
        (vec![k.clone(), u.clone(), c.clone(), k.clone()], 3),
        (vec![k.clone(), u.clone(), c.clone(), a.clone(), c.clone(), u.clone(), c.clone()], 5),
        (vec![k.clone(), u.clone(), c.clone(), sk.clone(), c.clone()], 4),
        (vec![k.clone(), u.clone(), c.clone(), sk.clone(), r.clone()], 4),
        (vec![k.clone(), u.clone(), c.clone(), sk.clone(), b.clone(), r.clone(), b.clone()], 6),
        (vec![k.clone(), u.clone(), c.clone(), sk.clone(), b.clone(), u.clone(), c.clone()], 5),
        (vec![k.clone(), u.clone(), c.clone(), sk.clone(), b.clone(), a.clone(), c.clone()], 5),
        (vec![k.clone(), u.clone(), data.clone()], 2),
        (vec![k.clone(), marker.clone(), u.clone(), c.clone()], 1),
        (vec![marker.clone(), k.clone(), u.clone(), c.clone()], 0),
    ];
    for (parts, index) in violations {
        let input = stream(&parts);
        let r = rejection(&input);
        assert_eq!(r, composite(offset_of(&parts, index)));
        assert!(r.offset < input.len());
    }
    // streams that the grammar accepts
    for parts in [
        vec![k.clone(), u.clone(), c.clone()],
        vec![k.clone(), d.clone(), d.clone(), u.clone(), c.clone(), c.clone()],
        vec![k.clone(), u.clone(), c.clone(), u.clone(), c.clone(), a.clone(), c.clone(), a.clone(), c.clone()],
        vec![k.clone(), u.clone(), c.clone(), sk.clone(), b.clone(), sk.clone(), b.clone(), r.clone(), r.clone()],
    ] {
        accepted(&stream(&parts));
    }
}

#[test]
fn a_packet_that_cannot_be_read_is_rejected_where_it_starts() {
    let key = toy_key();
    let k = key_packet(Tag::PublicKey, &key.public);
    let u = user_packet("one");
    let c = signature_packet(&certification(&key, "one", 10, None));
    let truncated = stream(&[k.clone(), u.clone(), c.clone()]);
    let cut = &truncated[..truncated.len() - 3];
    assert_eq!(
        rejection(cut),
        Rejection { error: Error::MalformedInput { offset: k.len() + u.len() }, offset: k.len() + u.len() }
    );
    let bad_tag = stream(&[k.clone(), vec![0xC0 + 3, 0], u.clone(), c.clone()]);
    assert_eq!(
        rejection(&bad_tag),
        Rejection { error: Error::MalformedInput { offset: k.len() }, offset: k.len() }
    );
    let v2 = packet(Tag::Signature, vec![2, 5, 0x10, 0, 0, 0, 0]);
    let input = stream(&[k.clone(), u.clone(), v2]);
    assert_eq!(rejection(&input), Rejection { error: Error::UnsupportedAlgorithm, offset: k.len() + u.len() });
    let bad_signature = packet(Tag::Signature, vec![4, 0x10, 1, 8, 0, 3, 2, 25]);
    let input = stream(&[k.clone(), u.clone(), bad_signature]);
    assert_eq!(
        rejection(&input),
        Rejection { error: Error::MalformedInput { offset: 4 }, offset: k.len() + u.len() }
    );
    let mut long_key = to_bytes(&key.public).unwrap();
    long_key.push(0);
    let end = long_key.len() - 1;
    let input = stream(&[packet(Tag::PublicKey, long_key), u.clone(), c.clone()]);
    assert_eq!(rejection(&input), Rejection { error: Error::MalformedInput { offset: end }, offset: 0 });
    let no_key = packet(Tag::PublicKey, vec![]);
    assert_eq!(rejection(&no_key), Rejection { error: Error::MalformedInput { offset: 0 }, offset: 0 });
}

#[test]
fn an_accepted_stream_stays_accepted_when_it_is_emitted_and_read_again() {
    let key = toy_key();
    let sig = certification(&key, "one", 10, Some(true));
    // old-format headers, one of them of indeterminate length at the end
    let mut input = Vec::new();
    Packet::new(Version::Old, Tag::PublicKey, to_bytes(&key.public).unwrap()).to_writer(&mut input).unwrap();
    Packet::new(Version::Old, Tag::UserId, b"one".to_vec()).to_writer(&mut input).unwrap();
    input.push(0x80 | (2 << 2) | 3);
    input.extend(to_bytes(&sig).unwrap());
    let first = accepted(&input);

    let mut packets = Vec::new();
    let mut at = 0;
    while at < input.len() {
        let (p, next) = Packet::parse(&input, at).unwrap();
        packets.push(p);
        at = next;
    }
    assert_eq!(packets.len(), 3);
    let mut again = Vec::new();
    for p in &packets {
        p.to_writer(&mut again).unwrap();
    }
    assert_ne!(again, input);
    let second = accepted(&again);
    assert!(second == first);
    assert_eq!(second.details.users[0].signatures, vec![sig]);

    let mut once_more = Vec::new();
    for p in &packets {
        Packet::new(Version::New, p.tag, p.body.clone()).to_writer(&mut once_more).unwrap();
    }
    let third = accepted(&once_more);
    assert_eq!(third.details.users[0].signatures, first.details.users[0].signatures);
    assert!(third.primary_key == first.primary_key);
}

#[test]
fn lenient_verification_flags_and_strict_verification_fails() {
    let key = toy_key();
    let good = certification(&key, "one", 10, Some(true));
    let mut forged = certification(&key, "two", 10, None);
    forged.signature[0][0] ^= 0x01;
    let mut critical = certification(&key, "two", 11, None);
    critical.config.hashed_subpackets.push(Subpacket::Unknown { typ: 99, critical: true, data: vec![] });
    let tree = accepted(&stream(&[
        key_packet(Tag::PublicKey, &key.public),
        user_packet("one"),
        signature_packet(&good),
        user_packet("two"),
        signature_packet(&forged),
    ]));
    let verdicts = tree.verify(&key, false).unwrap();
    assert_eq!(verdicts.users, vec![vec![Verdict::Valid], vec![Verdict::Invalid]]);
    assert!(verdicts.user_attributes.is_empty());
    assert!(verdicts.subkeys.is_empty());
    assert_eq!(tree.verify(&key, true), Err(Error::VerificationFailed));

    let mut with_critical = tree.clone();
    with_critical.details.users[1].signatures = vec![critical];
    assert_eq!(
        with_critical.verify(&key, false).unwrap().users,
        vec![vec![Verdict::Valid], vec![Verdict::Invalid]]
    );
    assert_eq!(with_critical.verify(&key, true), Err(Error::CriticalUnknown));
    assert_eq!(pgp::composed::verify::settle(Ok(()), true), Ok(Verdict::Valid));
    assert_eq!(pgp::composed::verify::settle(Err(Error::BadPassword), false), Ok(Verdict::Invalid));
    assert_eq!(pgp::composed::verify::settle(Err(Error::BadPassword), true), Err(Error::BadPassword));
}

#[test]
fn the_machine_follows_the_grammar() {
    let start = Progress::new();
    assert_eq!(start.phase, Phase::Start);
    assert_eq!(start.end(), None);
    assert_eq!(start.advance(Token::UserId), None);
    let primary = start.advance(Token::PrimaryKey { secret: true }).unwrap();
    assert_eq!(primary.phase, Phase::ReadPrimary);
    assert!(primary.secret);
    let direct = primary.advance(Token::DirectSig).unwrap();
    assert_eq!(direct.phase, Phase::ReadDirectSigs);
    assert_eq!(direct.advance(Token::DirectSig), Some(direct));
    let user = direct.advance(Token::UserId).unwrap();
    assert_eq!(user.phase, Phase::ReadUserOrAttr);
    assert_eq!(user.end(), None);
    assert_eq!(user.advance(Token::UserId), None);
    let certified = user.advance(Token::CertSig).unwrap();
    assert_eq!(certified.phase, Phase::ReadUserSigs);
    assert_eq!(certified.end().unwrap().phase, Phase::Done);
    assert_eq!(certified.advance(Token::UserId).unwrap().phase, Phase::ReadUserOrAttr);
    let attribute = certified.advance(Token::UserAttribute).unwrap();
    assert!(attribute.attributes_started);
    let attribute = attribute.advance(Token::CertSig).unwrap();
    assert_eq!(attribute.advance(Token::UserId), None);
    assert_eq!(attribute.advance(Token::Subkey { secret: false }), None);
    let subkey = attribute.advance(Token::Subkey { secret: true }).unwrap();
    assert_eq!(subkey.phase, Phase::ReadSubkey);
    assert_eq!(subkey.end(), None);
    assert_eq!(subkey.advance(Token::RevocSig), None);
    let bound = subkey.advance(Token::BindingSig).unwrap();
    assert_eq!(bound.phase, Phase::ReadSubkeySigs);
    assert_eq!(bound.advance(Token::BindingSig), Some(bound));
    let revoked = bound.advance(Token::RevocSig).unwrap();
    assert!(revoked.revoked);
    assert_eq!(revoked.advance(Token::BindingSig), None);
    assert_eq!(revoked.advance(Token::RevocSig), Some(revoked));
    let next = revoked.advance(Token::Subkey { secret: true }).unwrap();
    assert!(!next.revoked);
    let done = revoked.end().unwrap();
    assert_eq!(done.phase, Phase::Done);
    assert_eq!(done.advance(Token::UserId), None);
    assert_eq!(done.end(), None);
    for token in [Token::Other, Token::CertSig, Token::Subkey { secret: false }] {
        assert_eq!(primary.advance(token), None);
    }
}

#[test]
fn packets_and_their_tokens() {
    assert_eq!(Token::classify(Tag::PublicKey, None), Token::PrimaryKey { secret: false });
    assert_eq!(Token::classify(Tag::SecretKey, None), Token::PrimaryKey { secret: true });
    assert_eq!(Token::classify(Tag::PublicSubkey, None), Token::Subkey { secret: false });
    assert_eq!(Token::classify(Tag::SecretSubkey, None), Token::Subkey { secret: true });
    assert_eq!(Token::classify(Tag::UserId, None), Token::UserId);
    assert_eq!(Token::classify(Tag::UserAttribute, None), Token::UserAttribute);
    for (typ, token) in [
        (SignatureType::DirectKey, Token::DirectSig),
        (SignatureType::KeyRevocation, Token::DirectSig),
        (SignatureType::CertGeneric, Token::CertSig),
        (SignatureType::CertPersona, Token::CertSig),
        (SignatureType::CertCasual, Token::CertSig),
        (SignatureType::CertPositive, Token::CertSig),
        (SignatureType::CertRevocation, Token::CertSig),
        (SignatureType::SubkeyBinding, Token::BindingSig),
        (SignatureType::SubkeyRevocation, Token::RevocSig),
        (SignatureType::Binary, Token::Other),
        (SignatureType::PrimaryKeyBinding, Token::Other),
        (SignatureType::Timestamp, Token::Other),
    ] {
        assert_eq!(Token::classify(Tag::Signature, Some(typ)), token);
    }
    assert_eq!(Token::classify(Tag::Signature, None), Token::Other);
    assert_eq!(Token::classify(Tag::Trust, None), Token::Other);
    assert_eq!(Token::classify(Tag::LiteralData, Some(SignatureType::CertGeneric)), Token::Other);
}

#[test]
fn version_3_certifications_take_part_in_a_key() {
    let key = toy_key();
    let config = SignatureConfig::new_v3(
        SignatureType::CertGeneric,
        key.algorithm(),
        HashAlgorithm::SHA1,
        50,
        key.key_id().unwrap(),
    );
    let old = config
        .sign_certificate(&key, || String::new(), Tag::UserId, &UserId::from_str(Version::Old, "one"))
        .unwrap();
    assert!(old.issued_by(&key.fingerprint()));
    assert_eq!(old.created_at(), 50);
    let newer = certification(&key, "one", 60, Some(true));
    assert_eq!(newer.created_at(), 60);
    let mut input = Vec::new();
    Packet::new(Version::Old, Tag::PublicKey, to_bytes(&key.public).unwrap()).to_writer(&mut input).unwrap();
    Packet::new(Version::Old, Tag::UserId, b"one".to_vec()).to_writer(&mut input).unwrap();
    input.extend(signature_packet(&newer));
    input.extend(signature_packet(&old));
    let tree = accepted(&input);
    assert_eq!(tree.details.users[0].signatures, vec![newer.clone(), old.clone()]);
    assert!(!tree.promoted);
    assert_eq!(tree.verify(&key, true).unwrap().users, vec![vec![Verdict::Valid, Verdict::Valid]]);
    let later = SignatureConfig::new_v3(
        SignatureType::CertGeneric,
        key.algorithm(),
        HashAlgorithm::SHA1,
        60,
        key.key_id().unwrap(),
    )
    .sign_certificate(&key, || String::new(), Tag::UserId, &UserId::from_str(Version::Old, "one"))
    .unwrap();
    assert_eq!(
        pgp::composed::signed_key::governing_signature(&vec![newer, later, old], &key.fingerprint()),
        Some(1)
    );
}

/// A signature of `key` over `prologue`, made with the toy engine.
fn signature_over(key: &ToyKey, typ: SignatureType, prologue: &[u8]) -> Signature {
    let config = SignatureConfig::new_v4(
        typ,
        key.algorithm(),
        HashAlgorithm::SHA256,
        vec![Subpacket::SignatureCreationTime(5)],
        vec![Subpacket::IssuerFingerprint(key.fingerprint())],
    );
    let hashed = config.hashed_area().unwrap();
    let tbh = config.build_tbh_over(prologue, &hashed).unwrap();
    let digest = HashAlgorithm::SHA256.digest(&tbh);
    let raw = key.create_signature(|| String::new(), HashAlgorithm::SHA256, &digest).unwrap();
    Signature::from_config(config, [digest[0], digest[1]], raw).unwrap()
}

#[test]
fn signatures_on_the_key_and_on_subkeys_are_verified_over_their_prologues() {
    let key = toy_key();
    let subkey = public_key(2);
    let key_body = to_bytes(&key.public).unwrap();
    let subkey_body = to_bytes(&subkey).unwrap();

    let key_prologue = build_key_prologue(&key_body).unwrap();
    let mut expected = vec![0x99, 0, key_body.len() as u8];
    expected.extend(&key_body);
    assert_eq!(key_prologue, expected);
    let binding_prologue = build_binding_prologue(&key_body, &subkey_body).unwrap();
    expected.extend([0x99, 0, subkey_body.len() as u8]);
    expected.extend(&subkey_body);
    assert_eq!(binding_prologue, expected);
    assert_eq!(build_key_prologue(&vec![0; 65536]), None);
    assert_eq!(build_binding_prologue(&key_body, &vec![0; 65536]), None);

    let direct = signature_over(&key, SignatureType::DirectKey, &key_prologue);
    let binding = signature_over(&key, SignatureType::SubkeyBinding, &binding_prologue);
    let revocation = signature_over(&key, SignatureType::SubkeyRevocation, &binding_prologue);
    assert_eq!(direct.verify_key(&key), Ok(()));
    assert_eq!(binding.verify_key_binding(&key, &subkey_body), Ok(()));
    assert_eq!(binding.verify_key(&key), Err(Error::VerificationFailed));
    assert_eq!(direct.verify_key_binding(&key, &subkey_body), Err(Error::VerificationFailed));
    assert_eq!(
        binding.verify_key_binding(&key, &to_bytes(&public_key(3)).unwrap()),
        Err(Error::VerificationFailed)
    );
    assert_eq!(
        binding.verify_key_binding(&key, &vec![0; 65536]),
        Err(Error::MalformedInput { offset: 0 })
    );
    assert_eq!(binding.check_over(&binding_prologue).map(|d| d.len()), Ok(32));

    let misplaced = signature_over(&key, SignatureType::SubkeyBinding, &key_prologue);
    let tree = accepted(&stream(&[
        key_packet(Tag::PublicKey, &key.public),
        signature_packet(&direct),
        user_packet("one"),
        signature_packet(&certification(&key, "one", 10, Some(true))),
        key_packet(Tag::PublicSubkey, &subkey),
        signature_packet(&binding),
        signature_packet(&misplaced),
        signature_packet(&revocation),
    ]));
    let verdicts = tree.verify(&key, false).unwrap();
    assert_eq!(verdicts.direct_signatures, vec![Verdict::Valid]);
    assert!(verdicts.revocation_signatures.is_empty());
    assert_eq!(verdicts.users, vec![vec![Verdict::Valid]]);
    assert_eq!(verdicts.subkeys, vec![vec![Verdict::Valid, Verdict::Invalid, Verdict::Valid]]);
    assert_eq!(tree.verify(&key, true), Err(Error::VerificationFailed));
}

#[test]
fn rsa_key_parse() {
    // A binary RSA secret key: one primary key, one user id, one generic
    // self-certification.
    let key = toy_key();
    let mut primary = to_bytes(&key.public).unwrap();
    primary.extend([0, 0, 3, 5, 0, 2, 3, 0, 3, 7, 0, 2, 2, 0, 27]);
    let certification = certification(&key, "Test Key (RSA) <testkey@example.org>", 1_400_000_000, Some(true));
    assert_eq!(certification.config.typ, SignatureType::CertGeneric);
    let mut input = Vec::new();
    Packet::new(Version::Old, Tag::SecretKey, primary).to_writer(&mut input).unwrap();
    Packet::new(Version::Old, Tag::UserId, b"Test Key (RSA) <testkey@example.org>".to_vec())
        .to_writer(&mut input)
        .unwrap();
    Packet::new(Version::Old, Tag::Signature, to_bytes(&certification).unwrap()).to_writer(&mut input).unwrap();
    let tree = accepted(&input);
    assert!(tree.is_secret());
    assert_eq!(tree.primary_key.public.algorithm, PublicKeyAlgorithm::RSA);
    assert!(tree.subkeys.is_empty());
    assert_eq!(tree.details.users.len(), 1);
    assert_eq!(tree.details.users[0].id.id(), b"Test Key (RSA) <testkey@example.org>");
    let generic: Vec<&Signature> = tree.details.users[0]
        .signatures
        .iter()
        .filter(|s| s.config.typ == SignatureType::CertGeneric && s.is_self_certification(&key.fingerprint()))
        .collect();
    assert!(!generic.is_empty());
    assert_eq!(generic[0].verify_certificate(&key, Tag::UserId, &tree.details.users[0].id), Ok(()));
    assert_eq!(tree.verify(&key, true).unwrap().users, vec![vec![Verdict::Valid]]);
}

#[test]
fn a_strict_pass_ends_at_the_first_signature_that_fails() {
    let key = toy_key();
    let mut critical = certification(&key, "one", 10, Some(true));
    critical.config.hashed_subpackets.push(Subpacket::Unknown { typ: 99, critical: true, data: vec![] });
    let mut forged = certification(&key, "two", 10, None);
    forged.signature[0][0] ^= 0x01;
    let good = certification(&key, "two", 11, None);
    let mut tree = accepted(&stream(&[
        key_packet(Tag::PublicKey, &key.public),
        user_packet("one"),
        signature_packet(&good),
        user_packet("two"),
        signature_packet(&forged),
        signature_packet(&good),
    ]));
    tree.details.users[0].signatures = vec![critical.clone()];
    assert_eq!(tree.verify(&key, true), Err(Error::CriticalUnknown));
    assert_eq!(
        tree.verify(&key, false).unwrap().users,
        vec![vec![Verdict::Invalid], vec![Verdict::Invalid, Verdict::Valid]]
    );

    tree.details.users[0].signatures = vec![];
    tree.details.users[1].signatures.push(critical);
    assert_eq!(tree.verify(&key, true), Err(Error::VerificationFailed));

    let other = ToyKey { public: public_key(2) };
    let foreign = certification(&other, "two", 12, None);
    tree.details.users[1].signatures = vec![foreign];
    assert_eq!(
        tree.verify(&key, true).unwrap().users,
        vec![vec![], vec![Verdict::Unverified]]
    );
}
