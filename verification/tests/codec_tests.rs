use semicircle::codec::{decode, encode, parse, ParseTree, RawAttribute};
use semicircle::errors::{DecodeError, EncodeError, ParseError};
use semicircle::pkt::{
    FramedCompression, FramedProtocol, FramedRouting, Ipv4Address, RadiusAttribute, RadiusCode,
    RadiusData, ServiceType, VendorSpecificData, VendorSpecificDecoded,
};

fn auth16() -> Vec<u8> {
    (0u8..16u8).collect()
}

fn header_only_packet() -> RadiusData {
    RadiusData {
        code: RadiusCode::AccessRequest,
        identifier: 7,
        authenticator: auth16(),
        attributes: vec![],
    }
}

#[test]
fn encode_header_only() {
    let p = header_only_packet();
    let w = encode(&p).unwrap();
    assert_eq!(w.len(), 20);
    assert_eq!(w[0], 1);
    assert_eq!(w[1], 7);
    assert_eq!(&w[2..4], &[0, 20]);
    assert_eq!(&w[4..20], auth16().as_slice());
}

#[test]
fn round_trip_typical_packet() {
    let p = RadiusData {
        code: RadiusCode::AccessRequest,
        identifier: 42,
        authenticator: auth16(),
        attributes: vec![
            RadiusAttribute::UserName(b"bob".to_vec()),
            RadiusAttribute::NasPort(1812),
            RadiusAttribute::NasIPAddress(Ipv4Address::new(192, 168, 0, 1)),
            RadiusAttribute::ServiceType(ServiceType(2)),
            RadiusAttribute::FramedMTU(1500),
            RadiusAttribute::FramedCompression(FramedCompression(1)),
            RadiusAttribute::ChapPassword(9, vec![0xAB; 16]),
            RadiusAttribute::Unknown(200, vec![1, 2, 3]),
        ],
    };
    let w = encode(&p).unwrap();
    let t = parse(&w).unwrap();
    let q = decode(t).unwrap();
    assert_eq!(q, p);
}

#[test]
fn round_trip_decoded_vendor_text() {
    let p = RadiusData {
        code: RadiusCode::AccessAccept,
        identifier: 1,
        authenticator: vec![0; 16],
        attributes: vec![RadiusAttribute::VendorSpecific(
            9,
            VendorSpecificData::Decoded(VendorSpecificDecoded {
                vendor_type: 5,
                text: "hello vendor".to_string(),
            }),
        )],
    };
    let w = encode(&p).unwrap();
    let q = decode(parse(&w).unwrap()).unwrap();
    assert_eq!(q, p);
}

#[test]
fn vendor_text_longer_than_247_truncates_deterministically() {
    let long_text = "x".repeat(300);
    let d = VendorSpecificDecoded { vendor_type: 1, text: long_text };
    let bytes = d.to_bytes();
    assert_eq!(bytes.len(), 2 + 247);
    assert_eq!(bytes[0], 1);
    assert_eq!(bytes[1], 247);
    assert!(bytes[2..].iter().all(|&b| b == b'x'));
}

#[test]
fn unknown_tag_preserved_byte_for_byte() {
    // code 2, id 9, length 27, authenticator, then one attribute with
    // tag 77 (not in the closed enumeration) and 5 payload bytes.
    let mut w: Vec<u8> = vec![2, 9, 0, 27];
    w.extend_from_slice(&[0xEE; 16]);
    w.extend_from_slice(&[77, 7, 10, 20, 30, 40, 50]);
    assert_eq!(w.len(), 27);
    let p = decode(parse(&w).unwrap()).unwrap();
    assert_eq!(
        p.attributes,
        vec![RadiusAttribute::Unknown(77, vec![10, 20, 30, 40, 50])]
    );
    let w2 = encode(&p).unwrap();
    assert_eq!(w2, w);
}

#[test]
fn filter_id_253_bytes_encodes_and_254_fails() {
    let mut p = header_only_packet();
    p.attributes = vec![RadiusAttribute::FilterId(vec![b'a'; 253])];
    let w = encode(&p).unwrap();
    // TLV is 255 bytes: tag, length byte 255, 253 payload bytes.
    assert_eq!(w.len(), 20 + 255);
    assert_eq!(w[21], 255);

    p.attributes = vec![RadiusAttribute::FilterId(vec![b'a'; 254])];
    assert_eq!(encode(&p), Err(EncodeError::AttributeTooLong));
}

#[test]
fn framed_mtu_range_is_enforced_at_encode() {
    let mut p = header_only_packet();
    for (mtu, ok) in [(63u32, false), (64, true), (65535, true), (65536, false)] {
        p.attributes = vec![RadiusAttribute::FramedMTU(mtu)];
        let r = encode(&p);
        if ok {
            let w = r.unwrap();
            let q = decode(parse(&w).unwrap()).unwrap();
            assert_eq!(q, p);
        } else {
            assert_eq!(r, Err(EncodeError::MtuOutOfRange));
        }
    }
}

#[test]
fn invalid_utf8_user_name_rejects_whole_packet() {
    let t = ParseTree {
        code: 1,
        identifier: 3,
        authenticator: auth16(),
        attributes: Some(vec![
            RawAttribute { tag: 5, value: vec![0, 0, 7, 13] },
            RawAttribute { tag: 1, value: vec![0xFF, 0xFE, b'a'] },
        ]),
    };
    assert_eq!(decode(t), Err(DecodeError::Encoding));
}

#[test]
fn valid_utf8_user_name_is_kept_as_bytes() {
    let t = ParseTree {
        code: 1,
        identifier: 3,
        authenticator: auth16(),
        attributes: Some(vec![RawAttribute { tag: 1, value: b"alice".to_vec() }]),
    };
    let p = decode(t).unwrap();
    assert_eq!(p.attributes, vec![RadiusAttribute::UserName(b"alice".to_vec())]);
}

#[test]
fn unknown_code_is_rejected() {
    let t = ParseTree {
        code: 99,
        identifier: 0,
        authenticator: auth16(),
        attributes: None,
    };
    assert_eq!(decode(t), Err(DecodeError::UnknownCode));
}

#[test]
fn short_authenticator_is_rejected() {
    let t = ParseTree {
        code: 1,
        identifier: 0,
        authenticator: vec![0; 15],
        attributes: None,
    };
    assert_eq!(decode(t), Err(DecodeError::Malformed));
}

#[test]
fn wrong_width_fixed_attribute_is_rejected() {
    let t = ParseTree {
        code: 1,
        identifier: 0,
        authenticator: auth16(),
        attributes: Some(vec![RawAttribute { tag: 5, value: vec![1, 2, 3] }]),
    };
    assert_eq!(decode(t), Err(DecodeError::Malformed));
}

#[test]
fn parse_rejects_short_and_bad_length() {
    assert_eq!(parse(&vec![1, 2, 3]), Err(ParseError::TooShort));

    // length field 19 is below the header minimum.
    let mut w: Vec<u8> = vec![1, 0, 0, 19];
    w.extend_from_slice(&[0; 16]);
    assert_eq!(parse(&w), Err(ParseError::BadLength));

    // length field 30 runs past the end of the 20-byte datagram.
    let mut w: Vec<u8> = vec![1, 0, 0, 30];
    w.extend_from_slice(&[0; 16]);
    assert_eq!(parse(&w), Err(ParseError::BadLength));
}

#[test]
fn parse_rejects_truncated_attribute() {
    // length 22, but the attribute claims 5 bytes with only 2 present.
    let mut w: Vec<u8> = vec![1, 0, 0, 22];
    w.extend_from_slice(&[0; 16]);
    w.extend_from_slice(&[1, 5]);
    assert_eq!(parse(&w), Err(ParseError::BadAttribute));

    // an attribute length byte below 2 is malformed.
    let mut w: Vec<u8> = vec![1, 0, 0, 22];
    w.extend_from_slice(&[0; 16]);
    w.extend_from_slice(&[1, 1]);
    assert_eq!(parse(&w), Err(ParseError::BadAttribute));
}

#[test]
fn parse_ignores_trailing_bytes() {
    let mut w: Vec<u8> = vec![2, 5, 0, 20];
    w.extend_from_slice(&[9; 16]);
    w.extend_from_slice(&[1, 2, 3]);
    let t = parse(&w).unwrap();
    assert_eq!(t.code, 2);
    assert_eq!(t.identifier, 5);
    assert_eq!(t.authenticator, vec![9; 16]);
    assert!(t.attributes.is_none());
}

#[test]
fn vendor_specific_wire_format() {
    // vendor id 0x00000102, nested TLV [3, 2, "ok"] (valid UTF-8).
    let mut p = header_only_packet();
    p.attributes = vec![RadiusAttribute::VendorSpecific(
        0x0102,
        VendorSpecificData::Decoded(VendorSpecificDecoded {
            vendor_type: 3,
            text: "ok".to_string(),
        }),
    )];
    let w = encode(&p).unwrap();
    // header, then tag 26, length 10, vendor id BE, 3, 2, 'o', 'k'.
    assert_eq!(&w[20..], &[26, 10, 0, 0, 1, 2, 3, 2, b'o', b'k']);
    let q = decode(parse(&w).unwrap()).unwrap();
    assert_eq!(q, p);
}

#[test]
fn undecodable_vendor_payload_stays_encoded() {
    // Nested length byte claims 9 but only 2 text bytes follow.
    let mut w: Vec<u8> = vec![1, 0, 0, 30];
    w.extend_from_slice(&[0; 16]);
    w.extend_from_slice(&[26, 10, 0, 0, 0, 9, 1, 9, 0xFF, 0xFE]);
    let p = decode(parse(&w).unwrap()).unwrap();
    assert_eq!(
        p.attributes,
        vec![RadiusAttribute::VendorSpecific(
            9,
            VendorSpecificData::Encoded(vec![1, 9, 0xFF, 0xFE])
        )]
    );
    // The undecodable payload also survives re-encoding untouched.
    assert_eq!(encode(&p).unwrap(), w);
}

#[test]
fn packet_too_long_is_rejected() {
    let mut p = header_only_packet();
    // 300 attributes of 255-byte TLVs exceed the 65535-byte ceiling.
    p.attributes = (0..300)
        .map(|_| RadiusAttribute::Unknown(250, vec![0; 253]))
        .collect();
    assert_eq!(encode(&p), Err(EncodeError::PacketTooLong));
}

#[test]
fn bad_authenticator_size_is_rejected_at_encode() {
    let p = RadiusData {
        code: RadiusCode::AccessAccept,
        identifier: 0,
        authenticator: vec![0; 8],
        attributes: vec![],
    };
    assert_eq!(encode(&p), Err(EncodeError::InvalidAuthenticator));
}

#[test]
fn canonicity_predicts_wire_fidelity() {
    let mut p = header_only_packet();
    p.attributes = vec![
        RadiusAttribute::UserName(b"bob".to_vec()),
        RadiusAttribute::Unknown(99, vec![1]),
    ];
    assert!(p.is_canonical());

    // Bytes that would decode back as a typed attribute are not
    // canonical under the Unknown escape.
    p.attributes = vec![RadiusAttribute::Unknown(1, vec![b'x'])];
    assert!(!p.is_canonical());

    // A CHAP hash must be 16 bytes to survive the wire.
    p.attributes = vec![RadiusAttribute::ChapPassword(1, vec![0; 5])];
    assert!(!p.is_canonical());

    // A raw vendor payload that happens to decode would come back
    // decoded, so it is not canonical either...
    p.attributes = vec![RadiusAttribute::VendorSpecific(
        9,
        VendorSpecificData::Encoded(vec![7, 2, b'h', b'i']),
    )];
    assert!(!p.is_canonical());
    let w = encode(&p).unwrap();
    let q = decode(parse(&w).unwrap()).unwrap();
    assert_ne!(q, p);
    // ...and the decoded form it comes back in is canonical.
    assert!(q.is_canonical());
}

#[test]
fn round_trip_every_typed_attribute() {
    let p = RadiusData {
        code: RadiusCode::AccountingRequest,
        identifier: 255,
        authenticator: vec![0xFF; 16],
        attributes: vec![
            RadiusAttribute::UserName(vec![]),
            RadiusAttribute::UserPassword(vec![0xFF, 0x00, 0x80]),
            RadiusAttribute::ChapPassword(0, vec![0; 16]),
            RadiusAttribute::NasIPAddress(Ipv4Address::new(0, 0, 0, 0)),
            RadiusAttribute::NasPort(u32::MAX),
            RadiusAttribute::ServiceType(ServiceType(10)),
            RadiusAttribute::FramedProtocol(FramedProtocol(6)),
            RadiusAttribute::FramedIPAddress(Ipv4Address::new(255, 255, 255, 255)),
            RadiusAttribute::FramedIPNetmask(Ipv4Address::new(255, 255, 0, 0)),
            RadiusAttribute::FramedRouting(FramedRouting(3)),
            RadiusAttribute::FilterId(b"filter.in".to_vec()),
            RadiusAttribute::FramedMTU(64),
            RadiusAttribute::FramedCompression(FramedCompression(0)),
            RadiusAttribute::VendorSpecific(
                u32::MAX,
                VendorSpecificData::Decoded(VendorSpecificDecoded {
                    vendor_type: 0,
                    text: String::new(),
                }),
            ),
            RadiusAttribute::CalledStationId(b"aa-bb-cc-dd-ee-ff".to_vec()),
            RadiusAttribute::CallingStationId(b"00-11-22-33-44-55".to_vec()),
            RadiusAttribute::Unknown(0, vec![]),
        ],
    };
    assert!(p.is_canonical());
    let w = encode(&p).unwrap();
    let q = decode(parse(&w).unwrap()).unwrap();
    assert_eq!(q, p);
}

#[test]
fn every_code_round_trips_and_others_are_unknown() {
    let codes = [
        (1u8, RadiusCode::AccessRequest),
        (2, RadiusCode::AccessAccept),
        (3, RadiusCode::AccessReject),
        (4, RadiusCode::AccountingRequest),
        (5, RadiusCode::AccountingResponse),
        (11, RadiusCode::AccessChallenge),
        (12, RadiusCode::StatusServer),
        (13, RadiusCode::StatusClient),
        (255, RadiusCode::Reserved),
    ];
    for (n, c) in codes {
        let t = ParseTree { code: n, identifier: 0, authenticator: auth16(), attributes: None };
        let p = decode(t).unwrap();
        assert_eq!(p.code, c);
        assert_eq!(encode(&p).unwrap()[0], n);
    }
    for n in [0u8, 6, 10, 14, 100, 254] {
        let t = ParseTree { code: n, identifier: 0, authenticator: auth16(), attributes: None };
        assert_eq!(decode(t), Err(DecodeError::UnknownCode));
    }
}

#[test]
fn chap_password_needs_exactly_17_payload_bytes() {
    let mut t = ParseTree {
        code: 1,
        identifier: 0,
        authenticator: auth16(),
        attributes: Some(vec![RawAttribute { tag: 3, value: vec![5; 17] }]),
    };
    let p = decode(t).unwrap();
    assert_eq!(p.attributes, vec![RadiusAttribute::ChapPassword(5, vec![5; 16])]);

    t = ParseTree {
        code: 1,
        identifier: 0,
        authenticator: auth16(),
        attributes: Some(vec![RawAttribute { tag: 3, value: vec![5; 16] }]),
    };
    assert_eq!(decode(t), Err(DecodeError::Malformed));
}

#[test]
fn vendor_specific_needs_id_and_payload() {
    // Four bytes are only the vendor id; at least one payload byte is
    // required.
    let t = ParseTree {
        code: 1,
        identifier: 0,
        authenticator: auth16(),
        attributes: Some(vec![RawAttribute { tag: 26, value: vec![0, 0, 0, 9] }]),
    };
    assert_eq!(decode(t), Err(DecodeError::Malformed));
}

#[test]
fn clone_preserves_packets() {
    let p = RadiusData {
        code: RadiusCode::StatusServer,
        identifier: 77,
        authenticator: auth16(),
        attributes: vec![
            RadiusAttribute::UserName(b"eve".to_vec()),
            RadiusAttribute::VendorSpecific(4, VendorSpecificData::Encoded(vec![1, 2, 3])),
        ],
    };
    assert_eq!(p.clone(), p);
}
