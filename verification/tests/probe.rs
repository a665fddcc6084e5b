use redoxide::config::target_address;
use redoxide::probe::{named_version, probe_request, read_document, read_version, ProbeError};
use redoxide::protocol::cursor::Cursor;
use redoxide::protocol::error::ProtocolError;
use redoxide::protocol::handshake::parse_handshake;
use redoxide::protocol::packet::{encode_string, read_packet, RawPacket};
use redoxide::protocol::varint::encode_varint;

fn asked(target: &str) -> (String, u16) {
    let request = probe_request(target);
    let mut cursor = Cursor::new(&request);
    let (hello, _) = read_packet(&mut cursor).unwrap();
    assert_eq!(hello.id, 0);
    let handshake = parse_handshake(&hello.data).unwrap();
    assert_eq!(handshake.protocol_version, 0);
    assert_eq!(handshake.next_state, 1);
    let (status, _) = read_packet(&mut cursor).unwrap();
    assert_eq!(status.id, 0);
    assert!(status.data.is_empty());
    assert_eq!(cursor.position(), request.len());
    (handshake.server_address, handshake.server_port)
}

fn reply(json: &str) -> RawPacket {
    RawPacket { id: 0, data: encode_string(json) }
}

#[test]
fn request_bytes() {
    assert_eq!(
        probe_request("mc:258"),
        vec![8, 0, 0, 2, b'm', b'c', 1, 2, 1, 1, 0]
    );
}

#[test]
fn request_names_host_and_port() {
    assert_eq!(asked("minecraft:25566"), ("minecraft".to_string(), 25566));
    assert_eq!(asked("minecraft:+7"), ("minecraft".to_string(), 7));
    assert_eq!(asked("minecraft:0"), ("minecraft".to_string(), 0));
    assert_eq!(asked("minecraft:65535"), ("minecraft".to_string(), 65535));
}

#[test]
fn request_falls_back_to_the_default_port() {
    assert_eq!(asked("minecraft"), ("minecraft".to_string(), 25565));
    assert_eq!(asked("minecraft:"), ("minecraft".to_string(), 25565));
    assert_eq!(asked("minecraft:x"), ("minecraft".to_string(), 25565));
    assert_eq!(asked("minecraft:65536"), ("minecraft".to_string(), 25565));
    assert_eq!(asked("minecraft:-1"), ("minecraft".to_string(), 25565));
    assert_eq!(asked(""), ("".to_string(), 25565));
}

#[test]
fn request_ends_the_port_at_the_next_colon() {
    assert_eq!(asked("a:1:2"), ("a".to_string(), 1));
    assert_eq!(asked("::1:25565"), ("".to_string(), 25565));
}

#[test]
fn target_round_trip() {
    for port in [0, 1, 9, 10, 255, 256, 25565, 65535] {
        let target = target_address("mc.example", port);
        assert_eq!(asked(&target), ("mc.example".to_string(), port));
    }
}

#[test]
fn version_of_a_reply() {
    let packet = reply("{\"version\": {\"name\": \"Paper 1.21.4\", \"protocol\": 769}}");
    assert_eq!(read_version(&packet).unwrap(), (769, "Paper 1.21.4".to_string()));
}

#[test]
fn reply_with_other_number() {
    let packet = RawPacket { id: 1, data: encode_string("{}") };
    assert_eq!(read_version(&packet).unwrap_err(), ProbeError::UnexpectedPacket(1));
}

#[test]
fn reply_without_a_length() {
    let packet = RawPacket { id: 0, data: vec![] };
    assert_eq!(
        read_version(&packet).unwrap_err(),
        ProbeError::Protocol(ProtocolError::UnexpectedEof)
    );
    let packet = RawPacket { id: 0, data: vec![0xff; 6] };
    assert_eq!(
        read_version(&packet).unwrap_err(),
        ProbeError::Protocol(ProtocolError::VarIntTooLong)
    );
}

#[test]
fn reply_that_is_cut_off() {
    let packet = RawPacket { id: 0, data: vec![3, b'{', b'}'] };
    assert_eq!(read_version(&packet).unwrap_err(), ProbeError::OutOfBounds);
    let packet = RawPacket { id: 0, data: encode_varint(-1) };
    assert_eq!(read_version(&packet).unwrap_err(), ProbeError::OutOfBounds);
}

#[test]
fn reply_that_is_no_json() {
    assert_eq!(read_version(&reply("{")).unwrap_err(), ProbeError::InvalidJson);
    assert_eq!(read_version(&reply("")).unwrap_err(), ProbeError::InvalidJson);
}

#[test]
fn reply_without_a_protocol() {
    for json in [
        "{}",
        "[]",
        "{\"version\": 3}",
        "{\"version\": {\"name\": \"x\"}}",
        "{\"version\": {\"name\": \"x\", \"protocol\": \"769\"}}",
        "{\"version\": {\"name\": \"x\", \"protocol\": 1.5}}",
        "{\"version\": {\"name\": \"x\", \"protocol\": 9223372036854775808}}",
    ] {
        assert_eq!(read_version(&reply(json)).unwrap_err(), ProbeError::NoProtocol);
    }
}

#[test]
fn reply_without_a_version() {
    for json in ["{\"version\": {\"protocol\": 769}}", "{\"version\": {\"protocol\": 1, \"name\": 2}}"]
    {
        assert_eq!(read_version(&reply(json)).unwrap_err(), ProbeError::NoVersion);
    }
}

#[test]
fn document_ends_where_its_length_says() {
    let mut data = encode_string("{}");
    data.extend_from_slice(b"tail");
    assert_eq!(read_document(&RawPacket { id: 0, data }).unwrap(), b"{}".to_vec());
}

#[test]
fn version_of_two_fields() {
    assert_eq!(named_version(Some(769), Some("x")).unwrap(), (769, "x".to_string()));
    assert_eq!(named_version(Some(-5), Some("")).unwrap(), (-5, "".to_string()));
    assert_eq!(named_version(Some(4294967297), Some("x")).unwrap().0, 1);
    assert_eq!(named_version(Some(2147483648), Some("x")).unwrap().0, i32::MIN);
    assert_eq!(named_version(None, Some("x")).unwrap_err(), ProbeError::NoProtocol);
    assert_eq!(named_version(None, None).unwrap_err(), ProbeError::NoProtocol);
    assert_eq!(named_version(Some(1), None).unwrap_err(), ProbeError::NoVersion);
}
