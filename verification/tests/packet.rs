use redoxide::protocol::cursor::Cursor;
use redoxide::protocol::error::ProtocolError;
use redoxide::protocol::packet::{
    encode_packet, encode_string, read_packet, read_string_sync, PacketProgress, PacketReader,
    MAX_PACKET_LEN, MAX_STRING_LEN,
};
use redoxide::protocol::varint::encode_varint;

#[test]
fn test_packet_round_trip() {
    let data = vec![0xaa, 0xbb, 0xcc];
    let encoded = encode_packet(0x00, &data);
    let mut cursor = Cursor::new(&encoded);
    let (packet, raw) = read_packet(&mut cursor).unwrap();
    assert_eq!(packet.id, 0x00);
    assert_eq!(packet.data, data);
    assert_eq!(raw, encoded);
}

#[test]
fn test_encode_string() {
    let encoded = encode_string("hello");
    assert_eq!(encoded[0], 5);
    assert_eq!(&encoded[1..], b"hello");
}

#[test]
fn test_string_round_trip() {
    let original = "forbidden.samlo.cloud";
    let encoded = encode_string(original);
    let mut cursor = Cursor::new(encoded.as_slice());
    let decoded = read_string_sync(&mut cursor).unwrap();
    assert_eq!(decoded, original);
}

#[test]
fn test_read_packet_rejects_negative_length() {
    let encoded = encode_varint(-1);
    let mut cursor = Cursor::new(&encoded);
    let result = read_packet(&mut cursor);
    assert!(result.is_err(), "negative packet length must be rejected");
    assert!(matches!(result, Err(ProtocolError::NegativeLength(-1))));
}

#[test]
fn test_read_packet_rejects_oversized_length() {
    let encoded = encode_varint((MAX_PACKET_LEN + 1) as i32);
    let mut cursor = Cursor::new(&encoded);
    let result = read_packet(&mut cursor);
    assert!(result.is_err(), "oversized packet length must be rejected");
    assert!(matches!(
        result,
        Err(ProtocolError::LengthExceedsMax { length: 2_097_152, max: 2_097_151 })
    ));
}

#[test]
fn test_read_string_rejects_oversized_length() {
    let encoded = encode_varint((MAX_STRING_LEN + 1) as i32);
    let mut cursor = Cursor::new(encoded.as_slice());
    let result = read_string_sync(&mut cursor);
    assert!(result.is_err(), "oversized string length must be rejected");
    assert!(matches!(
        result,
        Err(ProtocolError::LengthExceedsMax { length: 131_073, max: 131_072 })
    ));
}

#[test]
fn packet_frame_known_bytes() {
    assert_eq!(encode_packet(0x00, &[]), vec![0x01, 0x00]);
    assert_eq!(encode_packet(0x04, &[0xaa, 0xbb]), vec![0x03, 0x04, 0xaa, 0xbb]);
    assert_eq!(encode_packet(128, &[0x07]), vec![0x03, 0x80, 0x01, 0x07]);
}

#[test]
fn frame_is_kept_as_it_was_received() {
    let received = [0x82, 0x00, 0x05, 0x09, 0xee];
    let mut cursor = Cursor::new(&received);
    let (packet, raw) = read_packet(&mut cursor).unwrap();
    assert_eq!(packet.id, 5);
    assert_eq!(packet.data, vec![0x09]);
    assert_eq!(raw, vec![0x82, 0x00, 0x05, 0x09]);
    assert_eq!(cursor.position(), 4);
}

#[test]
fn packet_without_a_number_is_rejected() {
    let mut cursor = Cursor::new(&[0x00]);
    assert!(matches!(read_packet(&mut cursor), Err(ProtocolError::UnexpectedEof)));
}

#[test]
fn packet_that_breaks_off_is_rejected() {
    let mut cursor = Cursor::new(&[0x03, 0x00, 0x01]);
    assert!(matches!(read_packet(&mut cursor), Err(ProtocolError::UnexpectedEof)));
    let mut cursor = Cursor::new(&[0x80]);
    assert!(matches!(read_packet(&mut cursor), Err(ProtocolError::UnexpectedEof)));
}

#[test]
fn packet_in_pieces() {
    let reader = PacketReader::new();
    assert_eq!(reader.wanted(), 1);
    let reader = match reader.accept(&[0x81]).unwrap() {
        PacketProgress::More(reader) => reader,
        PacketProgress::Done(..) => panic!("the length goes on"),
    };
    assert_eq!(reader.wanted(), 1);
    let reader = match reader.accept(&[0x01]).unwrap() {
        PacketProgress::More(reader) => reader,
        PacketProgress::Done(..) => panic!("the body is still to come"),
    };
    assert_eq!(reader.wanted(), 129);
    let mut body = vec![0x07];
    body.extend_from_slice(&[0x55; 128]);
    match reader.accept(&body).unwrap() {
        PacketProgress::Done(packet, raw) => {
            assert_eq!(packet.id, 7);
            assert_eq!(packet.data, vec![0x55; 128]);
            assert_eq!(raw.len(), 131);
            assert_eq!(&raw[..3], &[0x81, 0x01, 0x07]);
        }
        PacketProgress::More(_) => panic!("the packet is complete"),
    }
}

#[test]
fn largest_packet_is_read() {
    let data = vec![0x11; MAX_PACKET_LEN - 1];
    let encoded = encode_packet(0x02, &data);
    let mut cursor = Cursor::new(&encoded);
    let (packet, raw) = read_packet(&mut cursor).unwrap();
    assert_eq!(packet.id, 2);
    assert_eq!(packet.data.len(), MAX_PACKET_LEN - 1);
    assert_eq!(raw, encoded);
}

#[test]
fn string_of_several_alphabets_round_trips() {
    for original in ["", "a", "\u{a7}c\u{1f389} x", "\u{e9}\u{4e2d}\u{0}z"] {
        let mut encoded = encode_string(original);
        encoded.extend_from_slice(&[0xde, 0xad]);
        let mut cursor = Cursor::new(&encoded);
        assert_eq!(read_string_sync(&mut cursor).unwrap(), original);
        assert_eq!(cursor.position(), encoded.len() - 2);
    }
}

#[test]
fn string_of_no_utf8_is_rejected() {
    let mut cursor = Cursor::new(&[0x02, 0xc3, 0x28]);
    assert!(matches!(read_string_sync(&mut cursor), Err(ProtocolError::InvalidUtf8)));
}

#[test]
fn string_with_negative_length_is_rejected() {
    let encoded = encode_varint(-7);
    let mut cursor = Cursor::new(&encoded);
    assert!(matches!(read_string_sync(&mut cursor), Err(ProtocolError::NegativeLength(-7))));
}

#[test]
fn string_that_breaks_off_is_rejected() {
    let mut cursor = Cursor::new(&[0x05, b'a', b'b']);
    assert!(matches!(read_string_sync(&mut cursor), Err(ProtocolError::UnexpectedEof)));
}

#[test]
fn refused_lengths_stop_the_reading_after_the_length() {
    for length in [-1, MAX_PACKET_LEN as i32 + 1] {
        let mut bytes = encode_varint(length);
        let prefix = bytes.len();
        bytes.extend_from_slice(&[0; 9]);
        let mut cursor = Cursor::new(&bytes);
        assert!(read_packet(&mut cursor).is_err());
        assert_eq!(cursor.position(), prefix);
    }
    for length in [-1, MAX_STRING_LEN as i32 + 1] {
        let mut bytes = encode_varint(length);
        let prefix = bytes.len();
        bytes.extend_from_slice(&[0; 9]);
        let mut cursor = Cursor::new(&bytes);
        assert!(read_string_sync(&mut cursor).is_err());
        assert_eq!(cursor.position(), prefix);
    }
}

#[test]
fn other_errors_use_up_what_was_read() {
    let mut cursor = Cursor::new(&[0x02, 0xc3, 0x28, 7, 7]);
    assert!(matches!(read_string_sync(&mut cursor), Err(ProtocolError::InvalidUtf8)));
    assert_eq!(cursor.position(), 3);
    let mut cursor = Cursor::new(&[0x05, b'a', b'b']);
    assert!(read_string_sync(&mut cursor).is_err());
    assert_eq!(cursor.position(), 3);
    let mut cursor = Cursor::new(&[0x01, 0x80, 7, 7]);
    assert!(matches!(read_packet(&mut cursor), Err(ProtocolError::UnexpectedEof)));
    assert_eq!(cursor.position(), 2);
    let mut cursor = Cursor::new(&[0x05, 0, 1]);
    assert!(read_packet(&mut cursor).is_err());
    assert_eq!(cursor.position(), 3);
    let mut cursor = Cursor::new(&[0x80, 0x80, 0x80, 0x80, 0x80, 0x00]);
    assert!(matches!(read_packet(&mut cursor), Err(ProtocolError::VarIntTooLong)));
    assert_eq!(cursor.position(), 5);
}
