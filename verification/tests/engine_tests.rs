use semicircle::codec::encode;
use semicircle::pkt::Ipv4Address;
use semicircle::errors::DecodeError;
use semicircle::pkt::{RadiusAttribute, RadiusCode, RadiusData, VendorSpecificData,
    VendorSpecificDecoded};
use semicircle::{
    DummyErrorHandler, EngineState, ErrorHandler, LoopDecision, RadiusMessage, SendErrorOutcome,
    SocketAddress,
};

fn addr() -> SocketAddress {
    SocketAddress { ip: vec![127, 0, 0, 1], port: 1812 }
}

fn request(identifier: u8, authenticator: [u8; 16]) -> RadiusData {
    RadiusData {
        code: RadiusCode::AccessRequest,
        identifier,
        authenticator: authenticator.to_vec(),
        attributes: vec![RadiusAttribute::UserName(b"bob".to_vec())],
    }
}

/// A handler in the spirit of the engine's contract: it echoes the
/// identifier and authenticator of the request into an Access-Accept.
fn echo_handler(req: &RadiusMessage) -> Result<Vec<RadiusMessage>, String> {
    Ok(vec![RadiusMessage {
        addr: req.addr.clone(),
        data: RadiusData {
            code: RadiusCode::AccessAccept,
            identifier: req.data.identifier,
            authenticator: req.data.authenticator.clone(),
            attributes: vec![],
        },
    }])
}

#[test]
fn identifier_and_authenticator_echo() {
    let a = [0xC3u8; 16];
    let req = RadiusMessage { addr: addr(), data: request(7, a) };
    let replies = echo_handler(&req).unwrap();
    assert_eq!(replies.len(), 1);
    assert_eq!(replies[0].data.code, RadiusCode::AccessAccept);
    assert_eq!(replies[0].data.identifier, 7);
    assert_eq!(replies[0].data.authenticator, a.to_vec());
}

#[test]
fn process_datagram_decodes_valid_traffic() {
    let p = request(9, [1; 16]);
    let w = encode(&p).unwrap();
    let m = semicircle::engine::process_datagram(&w, addr()).unwrap();
    assert_eq!(m.data, p);
    assert_eq!(m.addr, addr());
}

#[test]
fn process_datagram_drops_garbage_silently() {
    assert!(semicircle::engine::process_datagram(&vec![1, 2, 3], addr()).is_none());
    // Structurally sound framing but an unknown code is dropped too.
    let mut w: Vec<u8> = vec![99, 0, 0, 20];
    w.extend_from_slice(&[0; 16]);
    assert!(semicircle::engine::process_datagram(&w, addr()).is_none());
}

#[test]
fn encode_reply_matches_encode() {
    let m = RadiusMessage { addr: addr(), data: request(1, [2; 16]) };
    assert_eq!(
        semicircle::engine::encode_reply(&m).unwrap(),
        encode(&m.data).unwrap()
    );
}

#[test]
fn in_flight_bound_gates_dispatch() {
    let mut s = EngineState::new(2);
    assert!(s.can_accept());
    s.start_request();
    assert!(s.can_accept());
    s.start_request();
    assert!(!s.can_accept());
    s.finish_request();
    assert!(s.can_accept());
}

#[test]
fn cancellation_is_permanent_and_blocks_new_work() {
    let mut s = EngineState::new(4);
    s.start_request();
    s.cancel();
    assert!(!s.can_accept());
    assert!(s.cancelled);
    // In-flight work may still finish after cancellation.
    s.finish_request();
    assert_eq!(s.in_flight, 0);
    assert!(!s.can_accept());
}

#[test]
fn send_error_policy_drop_continues() {
    let mut s = EngineState::new(1);
    let d = s.on_send_result(SendErrorOutcome::Drop);
    assert_eq!(d, LoopDecision::Continue);
    assert!(!s.stopped);
    assert!(s.can_accept());
}

#[test]
fn send_error_policy_stop_terminates() {
    let mut s = EngineState::new(1);
    let d = s.on_send_result(SendErrorOutcome::Stop);
    assert_eq!(d, LoopDecision::Stop);
    assert!(s.stopped);
    assert!(!s.can_accept());
}

#[test]
fn default_error_handler_drops() {
    let h = DummyErrorHandler;
    h.on_handler_error("ignored");
    let m = RadiusMessage { addr: addr(), data: request(0, [0; 16]) };
    assert!(matches!(h.on_send_error(m, None), SendErrorOutcome::Drop));
}

#[test]
fn vendor_data_try_decode_and_encode() {
    let raw = vec![7, 5, b'h', b'e', b'l', b'l', b'o'];
    let d = VendorSpecificData::from_bytes(raw.clone());
    assert_eq!(
        d,
        VendorSpecificData::Decoded(VendorSpecificDecoded {
            vendor_type: 7,
            text: "hello".to_string()
        })
    );
    // Encoding a decoded payload reproduces the raw bytes.
    assert_eq!(d.encode(), VendorSpecificData::Encoded(raw));

    // A length mismatch stays encoded.
    let bad = vec![7, 9, b'h', b'i'];
    assert_eq!(
        VendorSpecificData::from_bytes(bad.clone()),
        VendorSpecificData::Encoded(bad.clone())
    );
    assert_eq!(
        VendorSpecificData::Encoded(bad).try_decode(),
        Err(DecodeError::Malformed)
    );

    // Bad UTF-8 in the text body is an encoding error.
    let nontext = vec![7, 2, 0xFF, 0xFE];
    assert_eq!(
        VendorSpecificData::Encoded(nontext).try_decode(),
        Err(DecodeError::Encoding)
    );

    // try_decode on decoded data returns it unchanged.
    let dec = VendorSpecificData::Decoded(VendorSpecificDecoded {
        vendor_type: 1,
        text: "t".to_string(),
    });
    assert_eq!(dec.try_decode().unwrap(), dec);
}

#[test]
fn util_conversions_are_big_endian() {
    assert_eq!(semicircle::util::vec_from_u32(0x01020304), vec![1, 2, 3, 4]);
    assert_eq!(semicircle::util::vec_from_u32(1812), vec![0, 0, 7, 20]);
    assert_eq!(semicircle::util::vec_from_u16(0x0102), vec![1, 2]);
    assert_eq!(
        semicircle::util::vec_from_ipv4(Ipv4Address::new(10, 0, 0, 254)),
        vec![10, 0, 0, 254]
    );
}

#[test]
fn error_message_reports_cancellation_reason() {
    let e = semicircle::errors::Error::CancelledError { reason: "shutdown".to_string() };
    assert_eq!(e.message(), "shutdown");
}
