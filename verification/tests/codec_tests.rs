use inspektor::codec::{
    decode_password, decode_startup, decode_startup_payload, encode_password, encode_ssl_request,
    encode_startup, read_cstring, read_exact_payload, read_frame_length, MAX_FRAME_PAYLOAD,
    VERSION_3, VERSION_SSL,
};
use inspektor::errors::{DecodeError, FramingError, ProtocolError};
use inspektor::message::{ParameterMap, StartupMessage};

fn startup_params(msg: StartupMessage) -> ParameterMap {
    match msg {
        StartupMessage::Startup { params, version } => {
            assert_eq!(version, VERSION_3);
            params
        }
        _ => panic!("expected a plaintext startup message"),
    }
}

#[test]
fn frame_length_reads_big_endian() {
    assert_eq!(read_frame_length(&[0, 0, 1, 0]), Ok(0x100 - 4));
    assert_eq!(read_frame_length(&[0, 0, 0, 4, 99]), Ok(0));
}

#[test]
fn frame_length_truncated() {
    assert_eq!(read_frame_length(&[]), Err(FramingError::Truncated));
    assert_eq!(read_frame_length(&[0, 0, 0]), Err(FramingError::Truncated));
}

#[test]
fn frame_length_below_four_is_invalid() {
    assert_eq!(read_frame_length(&[0, 0, 0, 0]), Err(FramingError::InvalidLength));
    assert_eq!(read_frame_length(&[0, 0, 0, 3]), Err(FramingError::InvalidLength));
}

#[test]
fn declared_length_below_four_fails_before_any_payload_read() {
    // The buffer even holds extra bytes; the invalid length wins first.
    let r = decode_startup(&[0, 0, 0, 3, 1, 2, 3, 4]);
    assert_eq!(r.unwrap_err(), DecodeError::Framing(FramingError::InvalidLength));
}

#[test]
fn exact_payload_taken_or_truncated() {
    assert_eq!(read_exact_payload(&[1, 2, 3, 4], 3), Ok(vec![1, 2, 3]));
    assert_eq!(read_exact_payload(&[1, 2], 3), Err(FramingError::Truncated));
}

#[test]
fn cstring_reads_up_to_terminator() {
    let (s, n) = read_cstring(&[b'a', b'b', 0, b'x']).unwrap();
    assert_eq!(s, "ab");
    assert_eq!(n, 3);
}

#[test]
fn cstring_without_terminator_fails() {
    assert_eq!(read_cstring(&[b'a', b'b']), Err(FramingError::UnterminatedString));
    assert_eq!(read_cstring(&[]), Err(FramingError::UnterminatedString));
}

#[test]
fn cstring_with_invalid_utf8_fails() {
    assert_eq!(read_cstring(&[0xff, 0xfe, 0]), Err(FramingError::InvalidUtf8));
}

#[test]
fn cstring_decodes_multibyte_utf8() {
    let mut bytes = "grüße".as_bytes().to_vec();
    bytes.push(0);
    bytes.push(b'x');
    let (s, n) = read_cstring(&bytes).unwrap();
    assert_eq!(s, "grüße");
    assert_eq!(n, bytes.len() - 1);
}

#[test]
fn ssl_request_bytes_decode_to_ssl_request() {
    // length = 8, version = (1234 << 16) + 5679 = 0x04D2162F
    let (msg, consumed) = decode_startup(&[0x00, 0x00, 0x00, 0x08, 0x04, 0xd2, 0x16, 0x2f]).unwrap();
    assert!(matches!(msg, StartupMessage::SslRequest));
    assert_eq!(consumed, 8);
}

#[test]
fn ssl_request_round_trip() {
    let frame = encode_ssl_request();
    assert_eq!(frame, vec![0x00, 0x00, 0x00, 0x08, 0x04, 0xd2, 0x16, 0x2f]);
    let (msg, consumed) = decode_startup(&frame).unwrap();
    assert!(matches!(msg, StartupMessage::SslRequest));
    assert_eq!(consumed, 8);
}

#[test]
fn ssl_request_ignores_trailing_garbage_in_buffer() {
    // Exactly 4 payload bytes belong to the frame; the rest of the buffer
    // is left alone and no parameter map is ever read.
    let bytes = [0x00, 0x00, 0x00, 0x08, 0x04, 0xd2, 0x16, 0x2f, 0xde, 0xad];
    let (msg, consumed) = decode_startup(&bytes).unwrap();
    assert!(matches!(msg, StartupMessage::SslRequest));
    assert_eq!(consumed, 8);
}

#[test]
fn unknown_version_is_unsupported() {
    let r = decode_startup(&[0, 0, 0, 8, 0, 2, 0, 0]);
    assert_eq!(r.unwrap_err(), DecodeError::Protocol(ProtocolError::UnsupportedVersion));
}

#[test]
fn unknown_version_with_trailing_bytes_does_not_panic() {
    let r = decode_startup(&[0, 0, 0, 12, 0xde, 0xad, 0xbe, 0xef, 1, 2, 3, 4]);
    assert_eq!(r.unwrap_err(), DecodeError::Protocol(ProtocolError::UnsupportedVersion));
}

#[test]
fn startup_with_terminator_yields_empty_map() {
    // length = 9: version 3.0 and the group terminator, nothing else.
    let (msg, consumed) = decode_startup(&[0, 0, 0, 9, 0, 3, 0, 0, 0]).unwrap();
    let params = startup_params(msg);
    assert!(params.is_empty());
    assert_eq!(consumed, 9);
}

#[test]
fn startup_without_terminator_fails_not_empty_map() {
    // length = 8: version 3.0 but no terminator byte inside the frame.
    let r = decode_startup(&[0, 0, 0, 8, 0, 3, 0, 0]);
    assert_eq!(r.unwrap_err(), DecodeError::Framing(FramingError::Truncated));
}

#[test]
fn startup_round_trip_keeps_pairs_and_order() {
    let mut params = ParameterMap::new();
    params.insert("user".to_string(), "alice".to_string());
    params.insert("database".to_string(), "app".to_string());
    let frame = encode_startup(&params).unwrap();
    let (msg, consumed) = decode_startup(&frame).unwrap();
    assert_eq!(consumed, frame.len());
    let decoded = startup_params(msg);
    assert_eq!(decoded.len(), 2);
    assert_eq!(decoded.key_at(0), "user");
    assert_eq!(decoded.value_at(0), "alice");
    assert_eq!(decoded.key_at(1), "database");
    assert_eq!(decoded.value_at(1), "app");
}

#[test]
fn startup_round_trip_multibyte_values() {
    let mut params = ParameterMap::new();
    params.insert("application_name".to_string(), "próba-øβ".to_string());
    let frame = encode_startup(&params).unwrap();
    let (msg, _) = decode_startup(&frame).unwrap();
    let decoded = startup_params(msg);
    assert_eq!(decoded.len(), 1);
    assert_eq!(decoded.value_at(0), "próba-øβ");
}

#[test]
fn startup_decode_is_chunking_independent() {
    let mut params = ParameterMap::new();
    params.insert("user".to_string(), "alice".to_string());
    let frame = encode_startup(&params).unwrap();
    // Feed the bytes one at a time: every proper prefix is Truncated, and
    // the first complete buffer gives the same answer as all-at-once.
    for cut in 0..frame.len() {
        let r = decode_startup(&frame[..cut]);
        assert_eq!(r.unwrap_err(), DecodeError::Framing(FramingError::Truncated));
    }
    let (msg, consumed) = decode_startup(&frame).unwrap();
    assert_eq!(consumed, frame.len());
    let decoded = startup_params(msg);
    assert_eq!(decoded.key_at(0), "user");
    assert_eq!(decoded.value_at(0), "alice");
}

#[test]
fn odd_string_count_is_malformed_parameters() {
    // body: "k\0" and then the section's last byte is the terminator,
    // standing where the value should start: the key dangles.
    let bytes = [0, 0, 0, 11, 0, 3, 0, 0, b'k', 0, 0];
    let r = decode_startup(&bytes);
    assert_eq!(r.unwrap_err(), DecodeError::Protocol(ProtocolError::MalformedParameters));
}

#[test]
fn odd_string_count_mid_section_is_malformed() {
    // body: "a\0b\0c\0" then the terminator; "c" has no value.
    let bytes = [0, 0, 0, 15, 0, 3, 0, 0, b'a', 0, b'b', 0, b'c', 0, 0];
    let r = decode_startup(&bytes);
    assert_eq!(r.unwrap_err(), DecodeError::Protocol(ProtocolError::MalformedParameters));
}

#[test]
fn empty_value_decodes_from_exact_bytes() {
    // body: "k\0" then an empty value "\0", then the group terminator.
    let bytes = [0, 0, 0, 12, 0, 3, 0, 0, b'k', 0, 0, 0];
    let (msg, consumed) = decode_startup(&bytes).unwrap();
    assert_eq!(consumed, 12);
    let params = startup_params(msg);
    assert_eq!(params.len(), 1);
    assert_eq!(params.key_at(0), "k");
    assert_eq!(params.value_at(0), "");
}

#[test]
fn empty_value_mid_section_decodes() {
    // body: "k\0" empty value "\0", then the pair "x" -> "y", terminator.
    let bytes = [0, 0, 0, 16, 0, 3, 0, 0, b'k', 0, 0, b'x', 0, b'y', 0, 0];
    let (msg, consumed) = decode_startup(&bytes).unwrap();
    assert_eq!(consumed, 16);
    let params = startup_params(msg);
    assert_eq!(params.len(), 2);
    assert_eq!(params.key_at(0), "k");
    assert_eq!(params.value_at(0), "");
    assert_eq!(params.key_at(1), "x");
    assert_eq!(params.value_at(1), "y");
}

#[test]
fn empty_value_round_trips() {
    let mut params = ParameterMap::new();
    params.insert("options".to_string(), "".to_string());
    params.insert("user".to_string(), "alice".to_string());
    let frame = encode_startup(&params).unwrap();
    let (msg, consumed) = decode_startup(&frame).unwrap();
    assert_eq!(consumed, frame.len());
    let decoded = startup_params(msg);
    assert_eq!(decoded.len(), 2);
    assert_eq!(decoded.key_at(0), "options");
    assert_eq!(decoded.value_at(0), "");
    assert_eq!(decoded.key_at(1), "user");
    assert_eq!(decoded.value_at(1), "alice");
}

#[test]
fn value_running_off_frame_end_is_unterminated() {
    // body: "k\0v" with no terminator for the value and no group end.
    let bytes = [0, 0, 0, 11, 0, 3, 0, 0, b'k', 0, b'v'];
    let r = decode_startup(&bytes);
    assert_eq!(r.unwrap_err(), DecodeError::Framing(FramingError::UnterminatedString));
}

#[test]
fn oversize_declared_frame_is_rejected() {
    // declared length 70004 -> payload 70000 > MAX_FRAME_PAYLOAD
    assert!(70000 > MAX_FRAME_PAYLOAD);
    let r = decode_startup(&[0x00, 0x01, 0x11, 0x74]);
    assert_eq!(r.unwrap_err(), DecodeError::Framing(FramingError::InvalidLength));
}

#[test]
fn startup_payload_shorter_than_version_is_truncated() {
    // declared length 6 -> 2 payload bytes, too short for a version tag.
    let r = decode_startup(&[0, 0, 0, 6, 0, 3]);
    assert_eq!(r.unwrap_err(), DecodeError::Framing(FramingError::Truncated));
    let r2 = decode_startup_payload(&[0, 3]);
    assert_eq!(r2.unwrap_err(), DecodeError::Framing(FramingError::Truncated));
}

#[test]
fn encode_startup_refuses_empty_key_and_nul_strings() {
    let mut empty_key = ParameterMap::new();
    empty_key.insert("".to_string(), "v".to_string());
    assert!(encode_startup(&empty_key).is_none());

    let mut nul_key = ParameterMap::new();
    nul_key.insert("a\0b".to_string(), "v".to_string());
    assert!(encode_startup(&nul_key).is_none());

    let mut nul_value = ParameterMap::new();
    nul_value.insert("k".to_string(), "a\0b".to_string());
    assert!(encode_startup(&nul_value).is_none());
}

#[test]
fn password_tag_other_than_p_is_rejected_from_one_byte() {
    // Only the single tag byte is in the buffer: the bad tag is decided
    // there, no frame is consumed.
    let r = decode_password(&[b'q']);
    assert_eq!(r.unwrap_err(), DecodeError::Protocol(ProtocolError::UnexpectedMessageType));
    let r2 = decode_password(&[b'x', 0, 0, 0, 5, 0]);
    assert_eq!(r2.unwrap_err(), DecodeError::Protocol(ProtocolError::UnexpectedMessageType));
}

#[test]
fn password_round_trip() {
    let frame = encode_password(&"s3cret".to_string()).unwrap();
    let (msg, consumed) = decode_password(&frame).unwrap();
    assert_eq!(consumed, frame.len());
    match msg {
        StartupMessage::PasswordMessage { password } => assert_eq!(password, "s3cret"),
        _ => panic!("expected a password message"),
    }
}

#[test]
fn empty_password_round_trip() {
    let frame = encode_password(&"".to_string()).unwrap();
    assert_eq!(frame, vec![b'p', 0, 0, 0, 5, 0]);
    let (msg, consumed) = decode_password(&frame).unwrap();
    assert_eq!(consumed, 6);
    match msg {
        StartupMessage::PasswordMessage { password } => assert_eq!(password, ""),
        _ => panic!("expected a password message"),
    }
}

#[test]
fn password_with_nul_cannot_be_encoded() {
    assert!(encode_password(&"a\0b".to_string()).is_none());
}

#[test]
fn password_frame_without_terminator_fails() {
    let r = decode_password(&[b'p', 0, 0, 0, 6, b'a', b'b']);
    assert_eq!(r.unwrap_err(), DecodeError::Framing(FramingError::UnterminatedString));
}

#[test]
fn version_constants_match_the_wire_protocol() {
    assert_eq!(VERSION_3, 0x0003_0000);
    assert_eq!(VERSION_SSL, (1234 << 16) + 5679);
}

#[test]
fn parameter_map_lookup_takes_latest_binding() {
    let mut params = ParameterMap::new();
    params.insert("user".to_string(), "alice".to_string());
    params.insert("user".to_string(), "bob".to_string());
    assert_eq!(params.len(), 2);
    assert_eq!(params.get(&"user".to_string()), Some(&"bob".to_string()));
    assert_eq!(params.get(&"missing".to_string()), None);
}
