use redoxide::protocol::cursor::Cursor;
use redoxide::protocol::error::ProtocolError;
use redoxide::protocol::varint::{encode_varint, read_varint_sync, VarintReader};

fn read(bytes: &[u8]) -> (Result<i32, ProtocolError>, usize) {
    let mut cursor = Cursor::new(bytes);
    let value = read_varint_sync(&mut cursor);
    (value, cursor.position())
}

#[test]
fn test_encode_varint_known_values() {
    assert_eq!(encode_varint(0), vec![0x00]);
    assert_eq!(encode_varint(1), vec![0x01]);
    assert_eq!(encode_varint(127), vec![0x7f]);
    assert_eq!(encode_varint(128), vec![0x80, 0x01]);
    assert_eq!(encode_varint(255), vec![0xff, 0x01]);
    assert_eq!(encode_varint(2097151), vec![0xff, 0xff, 0x7f]);
    assert_eq!(encode_varint(-1), vec![0xff, 0xff, 0xff, 0xff, 0x0f]);
}

#[test]
fn test_round_trip_async() {
    for val in [0, 1, 127, 128, 255, 769, 2097151, -1, i32::MAX] {
        let encoded = encode_varint(val);
        let mut reader = VarintReader::new();
        let mut decoded = None;
        for byte in encoded {
            assert!(decoded.is_none());
            decoded = reader.accept(byte).unwrap();
        }
        assert_eq!(decoded, Some(val), "round trip failed for {val}");
    }
}

#[test]
fn test_round_trip_sync() {
    for val in [0, 1, 128, 769, -1] {
        let encoded = encode_varint(val);
        let mut cursor = Cursor::new(&encoded);
        let decoded = read_varint_sync(&mut cursor).unwrap();
        assert_eq!(decoded, val);
    }
}

#[test]
fn smallest_and_largest_numbers_round_trip() {
    for val in [i32::MIN, i32::MIN + 1, i32::MAX, 16383, 16384, 268435455, 268435456] {
        let encoded = encode_varint(val);
        assert_eq!(read(&encoded), (Ok(val), encoded.len()));
    }
    assert_eq!(encode_varint(i32::MIN), vec![0x80, 0x80, 0x80, 0x80, 0x08]);
}

#[test]
fn bytes_after_a_varint_are_left_alone() {
    assert_eq!(read(&[0x80, 0x01, 0xff, 0xff]), (Ok(128), 2));
}

#[test]
fn padded_varint_is_read() {
    assert_eq!(read(&[0x83, 0x00]), (Ok(3), 2));
    assert_eq!(read(&[0x80, 0x80, 0x80, 0x80, 0x00]), (Ok(0), 5));
}

#[test]
fn bits_above_the_thirty_second_are_dropped() {
    assert_eq!(read(&[0xff, 0xff, 0xff, 0xff, 0x7f]), (Ok(-1), 5));
    assert_eq!(read(&[0x80, 0x80, 0x80, 0x80, 0x10]), (Ok(0), 5));
}

#[test]
fn varint_that_breaks_off_is_rejected() {
    assert_eq!(read(&[]), (Err(ProtocolError::UnexpectedEof), 0));
    assert_eq!(read(&[0xff, 0xff]), (Err(ProtocolError::UnexpectedEof), 2));
}

#[test]
fn varint_of_more_than_five_bytes_is_rejected() {
    assert_eq!(
        read(&[0x80, 0x80, 0x80, 0x80, 0x80, 0x00]),
        (Err(ProtocolError::VarIntTooLong), 5)
    );
}
