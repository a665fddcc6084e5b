use redoxide::protocol::error::ProtocolError;
use redoxide::protocol::handshake::{encode_handshake, parse_handshake, parse_login_start};
use redoxide::protocol::packet::encode_string;
use redoxide::protocol::varint::encode_varint;

fn make_handshake_bytes(protocol: i32, addr: &str, port: u16, state: i32) -> Vec<u8> {
    let mut data = Vec::new();
    data.extend_from_slice(&encode_varint(protocol));
    data.extend_from_slice(&encode_string(addr));
    data.extend_from_slice(&port.to_be_bytes());
    data.extend_from_slice(&encode_varint(state));
    data
}

#[test]
fn test_parse_handshake_login() {
    let data = make_handshake_bytes(769, "forbidden.samlo.cloud", 25565, 2);
    let hs = parse_handshake(&data).unwrap();
    assert_eq!(hs.protocol_version, 769);
    assert_eq!(hs.server_address, "forbidden.samlo.cloud");
    assert_eq!(hs.server_port, 25565);
    assert_eq!(hs.next_state, 2);
}

#[test]
fn test_parse_handshake_strips_forge_marker_for_validation_only() {
    let data = make_handshake_bytes(769, "forbidden.samlo.cloud\0FML2\0", 25565, 1);
    let hs = parse_handshake(&data).unwrap();
    assert_eq!(hs.server_address, "forbidden.samlo.cloud");
}

#[test]
fn test_handshake_round_trip_still_used_for_validation_fields() {
    let data = make_handshake_bytes(769, "forbidden.samlo.cloud", 25565, 2);
    let hs = parse_handshake(&data).unwrap();
    assert_eq!(hs.protocol_version, 769);
    assert_eq!(hs.next_state, 2);
}

#[test]
fn test_parse_login_start_1_13_style_no_tail() {
    let data = encode_string("Notch");
    let username = parse_login_start(&data).unwrap();
    assert_eq!(username, "Notch");
}

#[test]
fn test_parse_login_start_1_20_2_style_with_uuid_tail() {
    let uuid = [1u8, 2, 3, 4, 5, 6, 7, 8, 9, 10, 11, 12, 13, 14, 15, 16];
    let mut data = encode_string("Notch");
    data.extend_from_slice(&uuid);
    let username = parse_login_start(&data).unwrap();
    assert_eq!(username, "Notch");
}

#[test]
fn test_parse_login_start_arbitrary_tail_length() {
    let mut data = encode_string("Notch");
    data.extend_from_slice(&[0xAB, 0xCD, 0xEF]);
    let username = parse_login_start(&data).unwrap();
    assert_eq!(username, "Notch");
}

#[test]
fn handshake_is_written_as_it_is_read() {
    let data = encode_handshake(-5, "h\u{e9}", 0xabcd, 300);
    assert_eq!(data, make_handshake_bytes(-5, "h\u{e9}", 0xabcd, 300));
    let hs = parse_handshake(&data).unwrap();
    assert_eq!(hs.protocol_version, -5);
    assert_eq!(hs.server_address, "h\u{e9}");
    assert_eq!(hs.server_port, 0xabcd);
    assert_eq!(hs.next_state, 300);
}

#[test]
fn address_may_be_nothing_but_a_marker() {
    let hs = parse_handshake(&make_handshake_bytes(1, "\0FML\0", 1, 1)).unwrap();
    assert_eq!(hs.server_address, "");
}

#[test]
fn handshake_that_breaks_off_is_rejected() {
    let data = make_handshake_bytes(769, "host", 25565, 2);
    for len in 0..data.len() {
        assert!(matches!(parse_handshake(&data[..len]), Err(ProtocolError::UnexpectedEof)));
    }
    assert!(parse_handshake(&data).is_ok());
}

#[test]
fn login_start_of_no_utf8_is_rejected() {
    assert!(matches!(parse_login_start(&[0x01, 0xff]), Err(ProtocolError::InvalidUtf8)));
}
