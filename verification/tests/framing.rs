use pgp::errors::Error;
use pgp::packet::framing::Packet;
use pgp::ser::{to_bytes, Serialize};
use pgp::types::tag::{Tag, Version};

fn body(len: usize) -> Vec<u8> {
    (0..len).map(|i| (i * 31 + 7) as u8).collect()
}

#[test]
fn new_format_headers() {
    let p = Packet::new(Version::New, Tag::UserId, b"bob".to_vec());
    assert_eq!(to_bytes(&p).unwrap(), vec![0xC0 + 13, 3, b'b', b'o', b'b']);
    let p = Packet::new(Version::New, Tag::Signature, body(200));
    let bytes = to_bytes(&p).unwrap();
    assert_eq!(&bytes[..3], &[0xC2, 192, 8]);
    let p = Packet::new(Version::New, Tag::UserAttribute, body(9000));
    let bytes = to_bytes(&p).unwrap();
    assert_eq!(&bytes[..6], &[0xC0 + 17, 255, 0, 0, 0x23, 0x28]);
}

#[test]
fn old_format_headers() {
    let p = Packet::new(Version::Old, Tag::PublicKey, body(5));
    let bytes = to_bytes(&p).unwrap();
    assert_eq!(&bytes[..2], &[0x80 | (6 << 2), 5]);
    let p = Packet::new(Version::Old, Tag::Signature, body(256));
    let bytes = to_bytes(&p).unwrap();
    assert_eq!(&bytes[..3], &[0x80 | (2 << 2) | 1, 1, 0]);
    let p = Packet::new(Version::Old, Tag::UserId, body(65536));
    let bytes = to_bytes(&p).unwrap();
    assert_eq!(&bytes[..5], &[0x80 | (13 << 2) | 2, 0, 1, 0, 0]);
}

#[test]
fn a_tag_above_fifteen_has_no_old_format_header() {
    for tag in [Tag::UserAttribute, Tag::SymmetricallyEncryptedProtectedData, Tag::ModificationDetectionCode] {
        let p = Packet::new(Version::Old, tag, vec![1]);
        let mut out = vec![5, 5];
        assert_eq!(p.to_writer(&mut out), Err(Error::MalformedInput { offset: 2 }));
        assert_eq!(out, vec![5, 5]);
    }
}

#[test]
fn every_recognized_packet_is_read_back_body_for_body() {
    let tags = [
        Tag::PublicKeyEncryptedSessionKey,
        Tag::Signature,
        Tag::OnePassSignature,
        Tag::SecretKey,
        Tag::PublicKey,
        Tag::SecretSubkey,
        Tag::CompressedData,
        Tag::SymmetricallyEncryptedData,
        Tag::Marker,
        Tag::LiteralData,
        Tag::Trust,
        Tag::UserId,
        Tag::PublicSubkey,
        Tag::UserAttribute,
        Tag::SymmetricallyEncryptedProtectedData,
        Tag::ModificationDetectionCode,
    ];
    for tag in tags {
        for version in [Version::New, Version::Old] {
            if version == Version::Old && tag.to_u8() > 15 {
                continue;
            }
            for len in [0usize, 1, 191, 192, 255, 256, 8383, 8384, 70000] {
                let p = Packet::new(version, tag, body(len));
                let mut input = vec![0x11, 0x22, 0x33];
                p.to_writer(&mut input).unwrap();
                let end = input.len();
                input.extend([0xC0, 0x00]);
                let (back, next) = Packet::parse(&input, 3).unwrap();
                assert_eq!(back, p);
                assert_eq!(next, end);
            }
        }
    }
}

#[test]
fn partial_length_roundtrip() {
    let data = body(131072);
    let p = Packet::new(Version::New, Tag::LiteralData, data.clone());
    let mut out = Vec::new();
    p.to_writer_partial(15, &mut out).unwrap();
    assert_eq!(out.len(), 1 + 3 * (1 + 32768) + 5 + 32768);
    assert_eq!(out[0], 0xC0 + 11);
    assert_eq!(out[1], 224 + 15);
    assert_eq!(out[1 + 32769], 224 + 15);
    assert_eq!(out[1 + 2 * 32769], 224 + 15);
    assert_eq!(&out[1 + 3 * 32769..1 + 3 * 32769 + 5], &[255, 0, 0, 0x80, 0x00]);
    let (back, next) = Packet::parse(&out, 0).unwrap();
    assert_eq!(next, out.len());
    assert_eq!(back.tag, Tag::LiteralData);
    assert_eq!(back.version, Version::New);
    assert_eq!(back.body.len(), 131072);
    assert!(back.body == data);
}

#[test]
fn partial_lengths_with_a_short_last_chunk() {
    for len in [0usize, 1, 511, 512, 513, 1024, 1500, 5000] {
        let p = Packet::new(Version::New, Tag::CompressedData, body(len));
        let mut out = vec![0xee];
        p.to_writer_partial(9, &mut out).unwrap();
        out.push(0xC1);
        let (back, next) = Packet::parse(&out, 1).unwrap();
        assert_eq!(back, p);
        assert_eq!(next, out.len() - 1);
    }
    let p = Packet::new(Version::New, Tag::SymmetricallyEncryptedData, body(1024));
    let mut out = Vec::new();
    p.to_writer_partial(9, &mut out).unwrap();
    assert_eq!(out[1], 224 + 9);
    assert_eq!(&out[1 + 513..1 + 513 + 2], &[193, 64]);
    assert_eq!(out.len(), 1 + 513 + 2 + 512);
}

#[test]
fn partial_lengths_are_refused_where_the_tag_does_not_permit_them() {
    for tag in [Tag::UserId, Tag::Signature, Tag::PublicKey, Tag::SecretKey, Tag::Marker, Tag::Trust] {
        let p = Packet::new(Version::New, tag, body(2000));
        let mut out = vec![1];
        assert_eq!(p.to_writer_partial(9, &mut out), Err(Error::MalformedInput { offset: 1 }));
        assert_eq!(out, vec![1]);
    }
    let p = Packet::new(Version::New, Tag::LiteralData, body(2000));
    let mut out = Vec::new();
    assert_eq!(p.to_writer_partial(8, &mut out), Err(Error::MalformedInput { offset: 0 }));
    assert_eq!(p.to_writer_partial(31, &mut out), Err(Error::MalformedInput { offset: 0 }));
    assert!(out.is_empty());
    p.to_writer_partial(30, &mut out).unwrap();
    assert_eq!(Packet::parse(&out, 0).unwrap().0, p);
    assert!(Tag::SymmetricallyEncryptedProtectedData.supports_partial());
    assert!(!Tag::UserAttribute.supports_partial());
}

#[test]
fn a_reader_joins_chunks_of_any_size() {
    let input = [0xC0 + 11, 224 + 1, b'a', b'b', 224, b'c', 2, b'd', b'e', 0xff];
    let (p, next) = Packet::parse(&input, 0).unwrap();
    assert_eq!(p.body, b"abcde");
    assert_eq!(next, 9);
}

#[test]
fn an_old_format_body_of_indeterminate_length_runs_to_the_end() {
    let input = [0x00, 0x80 | (11 << 2) | 3, 1, 2, 3, 4];
    let (p, next) = Packet::parse(&input, 1).unwrap();
    assert_eq!(p, Packet::new(Version::Old, Tag::LiteralData, vec![1, 2, 3, 4]));
    assert_eq!(next, 6);
}

#[test]
fn bad_headers_are_malformed_at_the_packet() {
    let cases: [&[u8]; 9] = [
        &[],
        &[0x3f, 0],
        &[0x7f, 1, 0],
        &[0xC0, 0],
        &[0xC0 + 3, 0],
        &[0xC0 + 20, 0],
        &[0x80 | (15 << 2), 0],
        &[0xC0 + 13],
        &[0xC0 + 13, 5, 1, 2],
    ];
    for case in cases {
        let mut input = vec![0xC0 + 13, 0];
        input.extend_from_slice(case);
        assert_eq!(Packet::parse(&input, 2), Err(Error::MalformedInput { offset: 2 }));
    }
    assert_eq!(Packet::parse(&[0xC0 + 11, 224 + 4, 1, 2, 3], 0), Err(Error::MalformedInput { offset: 0 }));
    assert_eq!(Packet::parse(&[0xC0 + 11, 224, 1], 0), Err(Error::MalformedInput { offset: 0 }));
    assert_eq!(Packet::parse(&[0x80 | (13 << 2) | 1, 0], 0), Err(Error::MalformedInput { offset: 0 }));
    assert_eq!(Packet::parse(&[0x80 | (13 << 2) | 2, 0, 0, 0, 1], 0), Err(Error::MalformedInput { offset: 0 }));
    assert_eq!(Packet::parse(&[0xC0 + 13, 0], 9), Err(Error::MalformedInput { offset: 9 }));
}

#[test]
fn tags_and_their_numbers() {
    assert_eq!(Tag::from_u8(2), Some(Tag::Signature));
    assert_eq!(Tag::from_u8(17), Some(Tag::UserAttribute));
    for n in [0u8, 3, 15, 16, 20, 63] {
        assert_eq!(Tag::from_u8(n), None);
    }
    assert_eq!(Tag::PublicSubkey.to_u8(), 14);
}
