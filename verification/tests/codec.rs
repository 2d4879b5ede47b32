use codewire::protocol::{decode_frame, encode_frame, DecodeOutcome, Frame};

#[test]
fn frame_round_trip_control() {
    let payload = b"{\"type\":\"ListSessions\"}".to_vec();
    let encoded = encode_frame(&Frame::Control(payload.clone()));
    match decode_frame(&encoded) {
        DecodeOutcome::Decoded(Frame::Control(p), consumed) => {
            assert_eq!(p, payload);
            assert_eq!(consumed, encoded.len());
        }
        _ => panic!("expected a decoded control frame"),
    }
}

#[test]
fn frame_round_trip_data() {
    let payload = vec![0u8, 1, 2, 255, 254, 0];
    let encoded = encode_frame(&Frame::Data(payload.clone()));
    match decode_frame(&encoded) {
        DecodeOutcome::Decoded(Frame::Data(p), consumed) => {
            assert_eq!(p, payload);
            assert_eq!(consumed, 5 + 6);
        }
        _ => panic!("expected a decoded data frame"),
    }
}

#[test]
fn frame_round_trip_empty_payload() {
    let encoded = encode_frame(&Frame::Data(vec![]));
    assert_eq!(encoded, vec![1u8, 0, 0, 0, 0]);
    match decode_frame(&encoded) {
        DecodeOutcome::Decoded(Frame::Data(p), consumed) => {
            assert!(p.is_empty());
            assert_eq!(consumed, 5);
        }
        _ => panic!("expected a decoded data frame"),
    }
}

#[test]
fn wire_header_is_kind_then_big_endian_length() {
    let encoded = encode_frame(&Frame::Control(vec![7u8; 0x010203]));
    assert_eq!(&encoded[..5], &[0u8, 0x00, 0x01, 0x02, 0x03]);
}

#[test]
fn oversized_declared_length_is_a_protocol_error() {
    // 16 MiB + 1, declared big-endian: 0x01000001
    let buf = vec![0u8, 0x01, 0x00, 0x00, 0x01];
    match decode_frame(&buf) {
        DecodeOutcome::TooLarge(n) => assert_eq!(n, 16 * 1024 * 1024 + 1),
        _ => panic!("expected TooLarge"),
    }
}

#[test]
fn payload_at_the_cap_is_accepted() {
    let payload = vec![0xabu8; 16 * 1024 * 1024];
    let encoded = encode_frame(&Frame::Data(payload));
    match decode_frame(&encoded) {
        DecodeOutcome::Decoded(Frame::Data(p), _) => assert_eq!(p.len(), 16 * 1024 * 1024),
        _ => panic!("expected a decoded frame at the cap"),
    }
}

#[test]
fn unknown_kind_byte_is_a_protocol_error() {
    let buf = vec![9u8, 0, 0, 0, 0];
    match decode_frame(&buf) {
        DecodeOutcome::UnknownKind(k) => assert_eq!(k, 9),
        _ => panic!("expected UnknownKind"),
    }
}

#[test]
fn short_buffers_are_incomplete_not_errors() {
    assert!(matches!(decode_frame(&vec![]), DecodeOutcome::Incomplete));
    assert!(matches!(decode_frame(&vec![0u8, 0, 0]), DecodeOutcome::Incomplete));
    // Header present but payload still missing
    assert!(matches!(decode_frame(&vec![0u8, 0, 0, 0, 2, 42]), DecodeOutcome::Incomplete));
}
