use redoxide::docker::{
    decode_rcon_body, encode_rcon, has_exited, rcon_body_length, rcon_login, rcon_stop_command,
    RconError, StopStep, MAX_RCON_PACKET_LEN, STOP_GRACE_SECS,
};

#[test]
fn test_rcon_send_recv_round_trip() {
    let packet = encode_rcon(7, 2, "stop");
    let length = rcon_body_length(&packet[..4]).unwrap();
    assert_eq!(length, packet.len() - 4);
    let (id, kind, payload) = decode_rcon_body(&packet[4..]);
    assert_eq!(id, 7);
    assert_eq!(kind, 2);
    assert_eq!(payload, "stop");
}

#[test]
fn test_rcon_recv_rejects_negative_length() {
    let result = rcon_body_length(&(-1i32).to_le_bytes());
    assert_eq!(result.unwrap_err(), RconError::NegativeLength(-1));
}

#[test]
fn test_rcon_recv_rejects_oversized_length() {
    let too_big = (MAX_RCON_PACKET_LEN + 1) as i32;
    let result = rcon_body_length(&too_big.to_le_bytes());
    assert_eq!(result.unwrap_err(), RconError::LengthExceedsMax(4107));
}

#[test]
fn rcon_longest_body_is_read() {
    assert_eq!(rcon_body_length(&4106i32.to_le_bytes()).unwrap(), 4106);
    assert_eq!(rcon_body_length(&0i32.to_le_bytes()).unwrap(), 0);
}

#[test]
fn rcon_packet_bytes() {
    assert_eq!(
        encode_rcon(-2, 0x01020304, "é"),
        vec![12, 0, 0, 0, 0xfe, 0xff, 0xff, 0xff, 4, 3, 2, 1, 0xc3, 0xa9, 0, 0]
    );
}

#[test]
fn rcon_login_bytes() {
    assert_eq!(
        rcon_login("pw"),
        vec![12, 0, 0, 0, 1, 0, 0, 0, 3, 0, 0, 0, b'p', b'w', 0, 0]
    );
}

#[test]
fn rcon_round_trips_any_number_and_text() {
    for (id, kind, payload) in [
        (i32::MIN, i32::MAX, ""),
        (-1, 0, "say §7hello \u{1f600}"),
        (0x12345678, -0x12345678, "with\0zero"),
    ] {
        let packet = encode_rcon(id, kind, payload);
        assert_eq!(rcon_body_length(&packet[..4]).unwrap(), packet.len() - 4);
        assert_eq!(decode_rcon_body(&packet[4..]), (id, kind, payload.to_string()));
    }
}

#[test]
fn rcon_text_that_is_no_utf8() {
    let body = [1, 0, 0, 0, 0, 0, 0, 0, b'a', 0xff, b'b', 0, 0];
    assert_eq!(decode_rcon_body(&body), (1, 0, "a\u{fffd}b".to_string()));
}

#[test]
fn rcon_shortest_body() {
    assert_eq!(decode_rcon_body(&[255; 10]), (-1, -1, String::new()));
}

#[test]
fn rcon_command_after_the_login() {
    assert_eq!(rcon_stop_command(-1).unwrap_err(), RconError::AuthenticationFailed);
    assert_eq!(rcon_stop_command(1).unwrap(), encode_rcon(2, 2, "stop"));
    assert_eq!(rcon_stop_command(0).unwrap(), encode_rcon(2, 2, "stop"));
}

#[test]
fn stop_without_rcon() {
    let step = StopStep::first(false);
    assert_eq!(step, StopStep::ForceStop);
    assert_eq!(step.next(true), StopStep::Stopped);
    assert_eq!(step.next(false), StopStep::Failed);
}

#[test]
fn stop_by_force_where_the_server_cannot_be_asked() {
    let step = StopStep::first(true);
    assert_eq!(step, StopStep::AskServer);
    assert_eq!(step.next(false), StopStep::ForceStop);
}

#[test]
fn stop_in_good_order() {
    let step = StopStep::first(true).next(true);
    assert_eq!(step, StopStep::AwaitExit { waited: 0 });
    assert_eq!(step.next(false), StopStep::AwaitExit { waited: 1 });
    assert_eq!(step.next(false).next(true), StopStep::Stopped);
}

#[test]
fn stop_by_force_after_the_grace_period() {
    let mut step = StopStep::first(true).next(true);
    let mut looks = 0;
    while let StopStep::AwaitExit { .. } = step {
        step = step.next(false);
        looks += 1;
    }
    assert_eq!(looks, STOP_GRACE_SECS);
    assert_eq!(step, StopStep::ForceStop);
}

#[test]
fn stop_comes_to_an_end() {
    let mut step = StopStep::first(true);
    for _ in 0..STOP_GRACE_SECS + 2 {
        let asking = step == StopStep::AskServer;
        step = step.next(asking);
    }
    assert_eq!(step, StopStep::Failed);
    assert_eq!(step.next(true), StopStep::Failed);
    assert_eq!(StopStep::Stopped.next(false), StopStep::Stopped);
}

#[test]
fn exit_must_be_seen() {
    assert!(has_exited(Some(false)));
    assert!(!has_exited(Some(true)));
    assert!(!has_exited(None));
}
