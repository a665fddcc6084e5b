use redoxide::config::StatusConfig;
use redoxide::probe::read_version;
use redoxide::protocol::cursor::Cursor;
use redoxide::protocol::packet::{encode_packet, encode_string, read_packet};
use redoxide::status::{
    build_status_json, encode_json_packet, encode_login_disconnect, encode_login_plugin_request,
    encode_status_response,
};

fn test_config() -> StatusConfig {
    StatusConfig {
        protocol_version: 769,
        max_players: 20,
        online_motd: "Online".to_string(),
        version_name: "1.21.4".to_string(),
        server_properties: None,
    }
}

#[test]
fn test_status_json_is_valid() {
    let json = build_status_json("Hello world", &test_config(), 0);
    let parsed: serde_json::Value = serde_json::from_str(&json).unwrap();
    assert_eq!(parsed["version"]["protocol"], 769);
    assert_eq!(parsed["players"]["max"], 20);
    assert_eq!(parsed["description"]["text"], "Hello world");
}

#[test]
fn test_login_disconnect_json() {
    let packet = encode_login_disconnect("Server offline");
    assert!(!packet.is_empty());
}

#[test]
fn test_login_plugin_request_packet_id() {
    let packet = encode_login_plugin_request(1, "redoxide:keepalive");
    assert!(packet.len() > 2);
}

#[test]
fn status_json_text() {
    assert_eq!(
        build_status_json("Hello world", &test_config(), 3),
        "{\"description\":{\"text\":\"Hello world\"},\
         \"players\":{\"max\":20,\"online\":3,\"sample\":[]},\
         \"version\":{\"name\":\"1.21.4\",\"protocol\":769}}"
    );
}

#[test]
fn status_json_of_negative_numbers() {
    let config = StatusConfig { protocol_version: -1, max_players: i32::MIN, ..test_config() };
    let json = build_status_json("", &config, i32::MAX);
    let parsed: serde_json::Value = serde_json::from_str(&json).unwrap();
    assert_eq!(parsed["version"]["protocol"], -1);
    assert_eq!(parsed["players"]["max"], i32::MIN);
    assert_eq!(parsed["players"]["online"], i32::MAX);
    assert_eq!(parsed["description"]["text"], "");
    assert_eq!(parsed["players"]["sample"].as_array().unwrap().len(), 0);
}

#[test]
fn status_json_keeps_any_text() {
    let motd = "a \"quote\" \\ and\n§7 \u{1f600} \u{0}";
    let json = build_status_json(motd, &test_config(), 0);
    let parsed: serde_json::Value = serde_json::from_str(&json).unwrap();
    assert_eq!(parsed["description"]["text"], motd);
}

#[test]
fn json_packet_bytes() {
    assert_eq!(encode_json_packet("{}"), vec![4, 0, 2, b'{', b'}']);
    assert_eq!(encode_json_packet("§"), vec![4, 0, 2, 0xc2, 0xa7]);
}

#[test]
fn status_response_is_the_json_in_a_packet() {
    let json = build_status_json("Hello", &test_config(), 1);
    assert_eq!(
        encode_status_response("Hello", &test_config(), 1),
        encode_packet(0, &encode_string(&json))
    );
}

#[test]
fn status_response_gives_its_version_back() {
    let frame = encode_status_response("Hello", &test_config(), 1);
    let (packet, raw) = read_packet(&mut Cursor::new(&frame)).unwrap();
    assert_eq!(raw, frame);
    assert_eq!(read_version(&packet).unwrap(), (769, "1.21.4".to_string()));
}

#[test]
fn disconnect_bytes() {
    let json = b"{\"text\":\"no \\\"x\\\"\"}";
    let mut expected = vec![json.len() as u8 + 2, 0, json.len() as u8];
    expected.extend_from_slice(json);
    assert_eq!(encode_login_disconnect("no \"x\""), expected);
}

#[test]
fn plugin_request_bytes() {
    let mut expected = vec![21, 4, 1, 18];
    expected.extend_from_slice(b"redoxide:keepalive");
    assert_eq!(encode_login_plugin_request(1, "redoxide:keepalive"), expected);
    assert_eq!(encode_login_plugin_request(300, ""), vec![4, 4, 0xac, 0x02, 0]);
}
