use tab_hover::json::{parse_request, route, InboundRequest};
use tab_hover::relay::{
    decode_frame, encode_frame, error_reply, escape_json, format_u32, hover_reply, le_u32,
    parse_u32, reply_for_failure, reply_for_malformed, reply_for_unknown, FrameDecode,
};

fn framed(payload: &[u8]) -> Vec<u8> {
    let mut r = (payload.len() as u32).to_le_bytes().to_vec();
    r.extend_from_slice(payload);
    r
}

#[test]
fn le_u32_reads_little_endian() {
    assert_eq!(le_u32(0x78, 0x56, 0x34, 0x12), 0x12345678);
    assert_eq!(le_u32(0, 0, 0, 0), 0);
    assert_eq!(le_u32(255, 255, 255, 255), u32::MAX);
}

#[test]
fn encode_frame_prefixes_length() {
    assert_eq!(encode_frame(b"hello".to_vec()), framed(b"hello"));
    assert_eq!(encode_frame(Vec::new()), vec![0, 0, 0, 0]);
}

#[test]
fn decode_frame_round_trips() {
    let wire = encode_frame(b"hello".to_vec());
    match decode_frame(&wire) {
        FrameDecode::Frame { payload, consumed } => {
            assert_eq!(payload, b"hello".to_vec());
            assert_eq!(consumed, 9);
        },
        _ => panic!("expected a whole frame"),
    }
}

#[test]
fn decode_frame_empty_input_is_clean_end() {
    assert!(matches!(decode_frame(&Vec::new()), FrameDecode::End));
}

#[test]
fn truncated_declared_length_is_a_read_failure() {
    // Declares five bytes but only two follow.
    let wire = vec![5, 0, 0, 0, b'a', b'b'];
    assert!(matches!(decode_frame(&wire), FrameDecode::Truncated));
}

#[test]
fn truncated_prefix_is_a_read_failure() {
    assert!(matches!(decode_frame(&vec![1, 2]), FrameDecode::Truncated));
}

#[test]
fn format_u32_renders_decimal() {
    assert_eq!(format_u32(0), b"0".to_vec());
    assert_eq!(format_u32(7), b"7".to_vec());
    assert_eq!(format_u32(42), b"42".to_vec());
    assert_eq!(format_u32(4294967295), b"4294967295".to_vec());
}

#[test]
fn parse_u32_accepts_trimmed_decimal() {
    assert_eq!(parse_u32(&b"42".to_vec()), Some(42));
    assert_eq!(parse_u32(&b" 42\n".to_vec()), Some(42));
    assert_eq!(parse_u32(&b"0".to_vec()), Some(0));
    assert_eq!(parse_u32(&b"+7".to_vec()), Some(7));
    assert_eq!(parse_u32(&b"4294967295".to_vec()), Some(4294967295));
}

#[test]
fn parse_u32_rejects_junk_and_overflow() {
    assert_eq!(parse_u32(&b"".to_vec()), None);
    assert_eq!(parse_u32(&b"  ".to_vec()), None);
    assert_eq!(parse_u32(&b"abc".to_vec()), None);
    assert_eq!(parse_u32(&b"4 2".to_vec()), None);
    assert_eq!(parse_u32(&b"-1".to_vec()), None);
    assert_eq!(parse_u32(&b"+".to_vec()), None);
    assert_eq!(parse_u32(&b"4294967296".to_vec()), None);
    assert_eq!(parse_u32(&b"99999999999999999999".to_vec()), None);
}

#[test]
fn printed_ordinal_parses_back() {
    for n in [0u32, 1, 9, 10, 42, 4095, u32::MAX] {
        assert_eq!(parse_u32(&format_u32(n)), Some(n));
    }
}

#[test]
fn hover_reply_is_a_framed_result_envelope() {
    let expected = framed(br#"{"type":"hover_result","data":{"index":5}}"#);
    assert_eq!(hover_reply(5), expected);
    let expected = framed(br#"{"type":"hover_result","data":{"index":4294967295}}"#);
    assert_eq!(hover_reply(u32::MAX), expected);
}

#[test]
fn error_reply_escapes_the_message() {
    let msg = b"a\"b\\c\nd".to_vec();
    let expected = framed(br#"{"type":"error","data":{"message":"a\"b\\c\nd"}}"#);
    assert_eq!(error_reply(&msg), expected);
}

#[test]
fn escape_json_handles_control_bytes() {
    assert_eq!(escape_json(&b"plain".to_vec()), b"plain".to_vec());
    assert_eq!(escape_json(&vec![34, 92, 10, 13, 9, 1]), b"\\\"\\\\\\n\\r\\t\\u0001".to_vec());
    assert_eq!(escape_json(&vec![0x1f]), b"\\u001f".to_vec());
}

#[test]
fn malformed_reply_names_the_failure() {
    let expected = framed(br#"{"type":"error","data":{"message":"Malformed message"}}"#);
    assert_eq!(reply_for_malformed(), expected);
}

#[test]
fn unknown_type_reply_echoes_the_type() {
    let expected = framed(br#"{"type":"error","data":{"message":"Unknown message type: ping"}}"#);
    assert_eq!(reply_for_unknown(&b"ping".to_vec()), expected);
}

#[test]
fn failure_reply_names_the_cause() {
    let expected =
        framed(br#"{"type":"error","data":{"message":"Failed to check hover: No focused window found"}}"#);
    assert_eq!(reply_for_failure(&b"No focused window found".to_vec()), expected);
}

#[test]
fn hover_check_request_is_recognized() {
    let r = parse_request(&br#"{"type":"check_hover","data":{}}"#.to_vec());
    assert!(matches!(r, InboundRequest::HoverCheck));
}

#[test]
fn unknown_request_type_is_echoed() {
    let r = parse_request(&br#"{"type":"ping","data":{}}"#.to_vec());
    match r {
        InboundRequest::Unknown(t) => assert_eq!(t, b"ping".to_vec()),
        _ => panic!("expected an unknown request"),
    }
}

#[test]
fn missing_data_field_is_malformed() {
    let r = parse_request(&br#"{"type":"check_hover"}"#.to_vec());
    assert!(matches!(r, InboundRequest::Malformed));
}

#[test]
fn non_string_type_is_malformed() {
    let r = parse_request(&br#"{"type":5,"data":{}}"#.to_vec());
    assert!(matches!(r, InboundRequest::Malformed));
}

#[test]
fn non_object_payload_is_malformed() {
    let r = parse_request(&br#"[1,2,3]"#.to_vec());
    assert!(matches!(r, InboundRequest::Malformed));
}

#[test]
fn non_json_payload_is_malformed() {
    let r = parse_request(&b"not json at all".to_vec());
    assert!(matches!(r, InboundRequest::Malformed));
}

#[test]
fn route_compares_the_type_exactly() {
    assert!(matches!(route(b"check_hover".to_vec()), InboundRequest::HoverCheck));
    assert!(matches!(route(b"check_hove".to_vec()), InboundRequest::Unknown(_)));
    assert!(matches!(route(b"CHECK_HOVER".to_vec()), InboundRequest::Unknown(_)));
}
