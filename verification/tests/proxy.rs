use redoxide::config::{Config, DockerConfig, ProxyConfig, StatusConfig, TargetConfig};
use redoxide::probe::{read_document, read_version};
use redoxide::protocol::cursor::Cursor;
use redoxide::protocol::error::ProtocolError;
use redoxide::protocol::handshake::encode_handshake;
use redoxide::protocol::packet::{encode_packet, encode_string, read_packet, RawPacket};
use redoxide::proxy::{
    route, status_response, Connection, Effects, Event, ProxyError, Route, KEEPALIVE_CHANNEL,
};
use redoxide::state::{IdleShutdown, ServerState, SharedState};
use redoxide::status::{
    encode_login_disconnect, encode_login_plugin_request, encode_status_response,
};

fn proxy_config() -> Config {
    Config {
        proxy: ProxyConfig {
            bind: "0.0.0.0:0".to_string(),
            server_address: "test".to_string(),
            handshake_timeout_secs: 10,
        },
        target: TargetConfig { host: "127.0.0.1".to_string(), port: 0 },
        docker: DockerConfig {
            container_name: "redoxide-test-nonexistent-container".to_string(),
            startup_timeout_secs: 120,
            idle_shutdown_secs: 0,
        },
        status: StatusConfig {
            protocol_version: 0,
            max_players: 20,
            online_motd: "test".to_string(),
            version_name: "test".to_string(),
            server_properties: None,
        },
        rcon: None,
    }
}

fn proxy_state(server: ServerState) -> SharedState {
    let mut state = SharedState::new(proxy_config(), None);
    state.set_state(server);
    state
}

/// The event that the frame `bytes` makes.
fn packet_event(bytes: &[u8]) -> Event {
    let (packet, raw) = read_packet(&mut Cursor::new(bytes)).unwrap();
    assert_eq!(raw, bytes);
    Event::Packet { packet, raw }
}

fn handshake_frame(address: &str, next_state: i32) -> Vec<u8> {
    encode_packet(0, &encode_handshake(769, address, 25565, next_state))
}

fn login_frame() -> Vec<u8> {
    encode_packet(0, &encode_string("Notch"))
}

fn greeted(state: &mut SharedState, address: &str, next_state: i32) -> (Connection, Effects) {
    Connection::new().step(state, packet_event(&handshake_frame(address, next_state)))
}

fn logged_in(state: &mut SharedState) -> (Connection, Effects) {
    let (connection, _) = greeted(state, "test", 2);
    connection.step(state, packet_event(&login_frame()))
}

fn is_quiet(effects: &Effects) -> bool {
    effects.to_client.is_none()
        && effects.to_server.is_none()
        && effects.username.is_none()
        && !effects.cancel_idle
        && !effects.start_container
        && !effects.probe_version
        && effects.idle_shutdown.is_none()
        && effects.outcome.is_none()
}

#[test]
fn test_wait_for_server_bails_immediately_when_state_goes_stopped() {
    let mut state = proxy_state(ServerState::Starting);
    let (connection, _) = logged_in(&mut state);
    assert!(matches!(connection, Connection::Waiting { .. }));

    state.start_finished(false);
    let current = state.current_state();
    let (connection, effects) =
        connection.step(&mut state, Event::StateChanged { state: current });

    assert!(matches!(connection, Connection::Closed));
    assert_eq!(
        effects.outcome,
        Some(Err(ProxyError::StartFailed)),
        "waiting must fail when the server start fails"
    );
    assert_eq!(
        effects.to_client.unwrap(),
        encode_login_disconnect("Server failed to start. Contact admin."),
        "client should receive a disconnect packet, not silence"
    );
}

#[test]
fn test_abandoned_session_schedules_idle_shutdown() {
    let mut state = proxy_state(ServerState::Starting);
    let (connection, _) = logged_in(&mut state);
    assert_eq!(state.player_count(), 1);

    let (_, effects) = connection.step(&mut state, Event::ReadFailed);
    assert_eq!(
        state.player_count(),
        0,
        "player count must drop even though the server was never reached"
    );
    assert_eq!(effects.idle_shutdown, Some(IdleShutdown { replaces: false, secs: 0 }));
    assert_eq!(effects.outcome, Some(Err(ProxyError::ReadFailed)));
    assert!(
        state.idle_timer,
        "an idle shutdown must have been scheduled for the abandoned session"
    );
}

#[test]
fn test_real_backend_forward_still_works_end_to_end() {
    let mut state = proxy_state(ServerState::Running);
    let connection = Connection::Connecting {
        session: state.begin_session(),
        handshake_raw: b"hello".to_vec(),
        login_raw: b"world".to_vec(),
    };
    let (connection, effects) = connection.step(&mut state, Event::Dialled { connected: true });
    assert_eq!(&effects.to_server.unwrap()[..5], b"hello");
    assert!(matches!(connection, Connection::Forwarding { .. }));

    let (connection, effects) = connection.step(&mut state, Event::StreamsEnded { cleanly: true });
    assert!(matches!(connection, Connection::Closed));
    assert_eq!(effects.outcome, Some(Ok(())));
    assert_eq!(state.player_count(), 0);
}

#[test]
fn server_gets_the_frames_as_they_were_received() {
    let mut state = proxy_state(ServerState::Running);
    // A marker in the address, a length with a needless byte, a tail after the name.
    let hello = handshake_frame("test\0FML2\0", 2);
    let mut padded = vec![hello[0] | 0x80, 0];
    padded.extend_from_slice(&hello[1..]);
    let mut name = encode_string("Notch");
    name.extend_from_slice(&[7; 16]);
    let login = encode_packet(0, &name);

    let (connection, _) = Connection::new().step(&mut state, packet_event(&padded));
    let (connection, effects) = connection.step(&mut state, packet_event(&login));
    assert_eq!(effects.username.unwrap(), "Notch");
    let (_, effects) = connection.step(&mut state, Event::Dialled { connected: true });
    assert_eq!(effects.to_server.unwrap(), [padded, login].concat());
}

#[test]
fn routes() {
    let a = "a".to_string();
    let b = "b".to_string();
    assert_eq!(route(&a, &a, 1), Route::Status);
    assert_eq!(route(&a, &a, 2), Route::Login);
    assert_eq!(route(&a, &a, 0), Route::Unknown(0));
    assert_eq!(route(&a, &a, -3), Route::Unknown(-3));
    assert_eq!(route(&a, &b, 1), Route::Ignore);
    assert_eq!(route(&b, &a, 7), Route::Ignore);
}

#[test]
fn other_addresses_are_not_answered() {
    let mut state = proxy_state(ServerState::Stopped);
    for address in ["other", "", "test.", "tes"] {
        let (connection, effects) = greeted(&mut state, address, 2);
        assert!(matches!(connection, Connection::Closed));
        assert_eq!(effects.outcome, Some(Ok(())));
        assert!(effects.to_client.is_none());
    }
}

#[test]
fn upper_and_lower_case_are_the_same_in_an_address() {
    let mut state = proxy_state(ServerState::Stopped);
    let (connection, _) = greeted(&mut state, "TeSt", 2);
    assert!(matches!(connection, Connection::LoginStart { .. }));

    state.config.proxy.server_address = "Größe.ÄÖ".to_string();
    let (connection, _) = greeted(&mut state, "GRÖßE.äö", 1);
    assert!(matches!(connection, Connection::StatusRequest));
}

#[test]
fn only_letters_have_a_case() {
    let mut state = proxy_state(ServerState::Stopped);
    for (expected, got, same) in [
        ("AbC.xYz-09", "aBc.XyZ-09", true),
        ("a@", "a`", false),
        ("a[", "a{", false),
        ("a0", "aP", false),
        ("AZ", "az", true),
    ] {
        state.config.proxy.server_address = expected.to_string();
        let (connection, _) = greeted(&mut state, got, 1);
        assert_eq!(matches!(connection, Connection::StatusRequest), same);
    }
}

#[test]
fn status_document_is_the_server_list_entry() {
    let mut state = proxy_state(ServerState::Starting);
    let session = state.begin_session();
    let frame = status_response(&state);
    session.end(&mut state);
    let (packet, _) = read_packet(&mut Cursor::new(&frame)).unwrap();
    let document: serde_json::Value =
        serde_json::from_slice(&read_document(&packet).unwrap()).unwrap();
    assert_eq!(document["version"]["name"], "test");
    assert_eq!(document["version"]["protocol"], 0);
    assert_eq!(document["players"]["max"], 20);
    assert_eq!(document["players"]["online"], 1);
    assert_eq!(document["players"]["sample"].as_array().unwrap().len(), 0);
    assert_eq!(document["description"]["text"], "test §7(starting...)");
}

#[test]
fn unknown_next_state() {
    let mut state = proxy_state(ServerState::Stopped);
    let (connection, effects) = greeted(&mut state, "test", 3);
    assert!(matches!(connection, Connection::Closed));
    assert_eq!(effects.outcome, Some(Err(ProxyError::UnknownNextState(3))));
}

#[test]
fn malformed_handshake() {
    let mut state = proxy_state(ServerState::Stopped);
    let event = packet_event(&encode_packet(0, &[0, 9]));
    let (_, effects) = Connection::new().step(&mut state, event);
    assert_eq!(
        effects.outcome,
        Some(Err(ProxyError::Malformed(ProtocolError::UnexpectedEof)))
    );
}

#[test]
fn handshake_of_any_number_is_read() {
    let mut state = proxy_state(ServerState::Stopped);
    let data = encode_handshake(769, "test", 25565, 1);
    let packet = RawPacket { id: 5, data };
    let (connection, _) = Connection::new().step(&mut state, Event::Packet { packet, raw: vec![] });
    assert!(matches!(connection, Connection::StatusRequest));
}

#[test]
fn status_and_ping() {
    let mut state = proxy_state(ServerState::Stopped);
    let (connection, effects) = greeted(&mut state, "test", 1);
    assert!(is_quiet(&effects));
    let (connection, effects) = connection.step(&mut state, packet_event(&[1, 0]));
    let status = state.config.status.clone();
    assert_eq!(effects.to_client.unwrap(), encode_status_response("test", &status, 0));
    let ping = [9, 1, 1, 2, 3, 4, 5, 6, 7, 8];
    let (connection, effects) = connection.step(&mut state, packet_event(&ping));
    assert!(matches!(connection, Connection::Pong));
    assert_eq!(effects.to_client.unwrap(), ping);
    assert_eq!(effects.outcome, None);
    let (connection, effects) = connection.step(&mut state, Event::Written);
    assert!(matches!(connection, Connection::Closed));
    assert_eq!(effects.outcome, Some(Ok(())));
    assert_eq!(state.current_state(), ServerState::Stopped);
    assert_eq!(state.player_count(), 0);
}

#[test]
fn ping_whose_answer_cannot_be_written() {
    let mut state = proxy_state(ServerState::Stopped);
    let ping = [9, 1, 1, 2, 3, 4, 5, 6, 7, 8];
    let (connection, _) = Connection::Ping.step(&mut state, packet_event(&ping));
    let (connection, effects) = connection.step(&mut state, Event::ReadFailed);
    assert!(matches!(connection, Connection::Pong));
    assert!(is_quiet(&effects));
    let (connection, effects) = connection.step(&mut state, Event::WriteFailed);
    assert!(matches!(connection, Connection::Closed));
    assert_eq!(effects.outcome, Some(Err(ProxyError::WriteFailed)));
}

#[test]
fn status_that_is_written_leaves_the_connection_open() {
    let mut state = proxy_state(ServerState::Stopped);
    let (connection, effects) = Connection::Ping.step(&mut state, Event::Written);
    assert!(matches!(connection, Connection::Ping));
    assert!(is_quiet(&effects));
}

#[test]
fn ping_may_be_left_out() {
    let mut state = proxy_state(ServerState::Running);
    let (_, effects) = Connection::Ping.step(&mut state, Event::ReadFailed);
    assert_eq!(effects.outcome, Some(Ok(())));
    let (_, effects) = Connection::Ping.step(&mut state, Event::WriteFailed);
    assert_eq!(effects.outcome, Some(Err(ProxyError::WriteFailed)));
}

#[test]
fn unexpected_packets() {
    let mut state = proxy_state(ServerState::Stopped);
    for (connection, id) in [
        (Connection::StatusRequest, 1),
        (Connection::Ping, 0),
        (Connection::LoginStart { handshake_raw: vec![] }, 3),
    ] {
        let event = packet_event(&encode_packet(id, &[]));
        let (connection, effects) = connection.step(&mut state, event);
        assert!(matches!(connection, Connection::Closed));
        assert_eq!(effects.outcome, Some(Err(ProxyError::UnexpectedPacket(id))));
    }
    assert_eq!(state.current_state(), ServerState::Stopped);
}

#[test]
fn status_shows_what_is_known() {
    let mut state = proxy_state(ServerState::Running);
    state.update_version_info(769, "1.21.4".to_string());
    let session = state.begin_session();
    let mut expected = state.config.status.clone();
    expected.protocol_version = 769;
    expected.version_name = "1.21.4".to_string();
    assert_eq!(status_response(&state), encode_status_response("test", &expected, 1));
    session.end(&mut state);
    state.set_state(ServerState::Starting);
    assert_eq!(
        status_response(&state),
        encode_status_response("test §7(starting...)", &expected, 0)
    );
    state.set_state(ServerState::Stopped);
    assert_eq!(status_response(&state), encode_status_response("test", &expected, 0));
}

#[test]
fn status_gives_the_shown_version_back() {
    let mut state = proxy_state(ServerState::Starting);
    state.update_version_info(770, "Paper 1.21.5".to_string());
    let frame = status_response(&state);
    let (packet, _) = read_packet(&mut Cursor::new(&frame)).unwrap();
    assert_eq!(read_version(&packet).unwrap(), (770, "Paper 1.21.5".to_string()));
}

#[test]
fn login_starts_a_stopped_server_once() {
    let mut state = proxy_state(ServerState::Stopped);
    let (first, effects) = logged_in(&mut state);
    assert!(effects.start_container);
    assert_eq!(effects.username.unwrap(), "Notch");
    assert!(matches!(first, Connection::Waiting { keepalive_id: 0, .. }));
    assert_eq!(state.current_state(), ServerState::Starting);
    let (second, effects) = logged_in(&mut state);
    assert!(!effects.start_container);
    assert!(matches!(second, Connection::Waiting { .. }));
    assert_eq!(state.player_count(), 2);
}

#[test]
fn login_cancels_the_idle_shutdown() {
    let mut state = proxy_state(ServerState::Running);
    state.schedule_idle_shutdown();
    let (connection, effects) = logged_in(&mut state);
    assert!(effects.cancel_idle);
    assert!(!state.idle_timer);
    assert!(matches!(connection, Connection::Connecting { .. }));
    let (_, effects) = logged_in(&mut state);
    assert!(!effects.cancel_idle);
}

#[test]
fn malformed_login_begins_no_session() {
    let mut state = proxy_state(ServerState::Stopped);
    let (connection, _) = greeted(&mut state, "test", 2);
    let event = packet_event(&encode_packet(0, &[2, 0xff, 0xff]));
    let (_, effects) = connection.step(&mut state, event);
    assert_eq!(
        effects.outcome,
        Some(Err(ProxyError::Malformed(ProtocolError::InvalidUtf8)))
    );
    assert_eq!(state.player_count(), 0);
    assert_eq!(state.current_state(), ServerState::Stopped);
}

#[test]
fn waiting_client_is_let_through_when_the_server_answers() {
    let mut state = proxy_state(ServerState::Stopped);
    let (connection, _) = logged_in(&mut state);
    let (connection, effects) = connection.step(&mut state, Event::Probed { reachable: false });
    assert!(is_quiet(&effects));
    let (connection, effects) = connection.step(&mut state, Event::Probed { reachable: true });
    assert!(effects.probe_version);
    assert!(matches!(connection, Connection::Connecting { .. }));
    assert_eq!(state.current_state(), ServerState::Running);
}

#[test]
fn waiting_client_is_let_through_when_another_saw_the_server() {
    let mut state = proxy_state(ServerState::Stopped);
    let (connection, _) = logged_in(&mut state);
    let starting = Event::StateChanged { state: ServerState::Starting };
    let (connection, effects) = connection.step(&mut state, starting);
    assert!(is_quiet(&effects));
    assert!(matches!(connection, Connection::Waiting { .. }));
    let running = Event::StateChanged { state: ServerState::Running };
    let (connection, effects) = connection.step(&mut state, running);
    assert!(is_quiet(&effects));
    assert!(matches!(connection, Connection::Connecting { .. }));
}

#[test]
fn keepalives_are_numbered() {
    let mut state = proxy_state(ServerState::Stopped);
    let (mut connection, _) = logged_in(&mut state);
    for id in 0..3 {
        let (next, effects) = connection.step(&mut state, Event::KeepaliveDue);
        assert_eq!(
            effects.to_client.unwrap(),
            encode_login_plugin_request(id, KEEPALIVE_CHANNEL)
        );
        let (next, effects) = next.step(&mut state, packet_event(&[2, 2, id as u8]));
        assert!(is_quiet(&effects));
        connection = next;
    }
    let (connection, _) = connection.step(&mut state, Event::Probed { reachable: true });
    let (_, effects) = connection.step(&mut state, Event::Dialled { connected: true });
    assert_eq!(
        effects.to_server.unwrap(),
        [handshake_frame("test", 2), login_frame()].concat()
    );
}

#[test]
fn server_that_takes_too_long() {
    let mut state = proxy_state(ServerState::Stopped);
    let (connection, _) = logged_in(&mut state);
    let (connection, effects) = connection.step(&mut state, Event::DeadlinePassed);
    assert!(matches!(connection, Connection::Closed));
    assert_eq!(effects.outcome, Some(Err(ProxyError::StartupTimeout)));
    assert_eq!(
        effects.to_client.unwrap(),
        encode_login_disconnect("Server failed to start. Contact admin.")
    );
    assert!(effects.idle_shutdown.is_some());
    assert_eq!(state.player_count(), 0);
}

#[test]
fn every_end_of_a_session_is_counted() {
    for (event, error) in [
        (Event::StateLost, ProxyError::StateLost),
        (Event::WriteFailed, ProxyError::WriteFailed),
        (Event::ReadFailed, ProxyError::ReadFailed),
        (Event::Interrupted, ProxyError::Interrupted),
    ] {
        let mut state = proxy_state(ServerState::Stopped);
        let (connection, _) = logged_in(&mut state);
        let (_, effects) = connection.step(&mut state, event);
        assert_eq!(effects.outcome, Some(Err(error)));
        assert!(effects.idle_shutdown.is_some());
        assert_eq!(state.player_count(), 0);
    }
}

#[test]
fn server_that_cannot_be_dialled() {
    let mut state = proxy_state(ServerState::Running);
    let (connection, _) = logged_in(&mut state);
    let (_, effects) = connection.step(&mut state, Event::Dialled { connected: false });
    assert_eq!(effects.outcome, Some(Err(ProxyError::TargetUnreachable)));
    assert!(effects.idle_shutdown.is_some());
    assert_eq!(state.player_count(), 0);
}

#[test]
fn streams_that_break_off() {
    let mut state = proxy_state(ServerState::Running);
    let (connection, _) = logged_in(&mut state);
    let (connection, _) = connection.step(&mut state, Event::Dialled { connected: true });
    let (_, effects) = connection.step(&mut state, Event::StreamsEnded { cleanly: false });
    assert_eq!(effects.outcome, Some(Err(ProxyError::StreamFailed)));
    assert_eq!(state.player_count(), 0);
}

#[test]
fn closed_connection_stays_closed() {
    let mut state = proxy_state(ServerState::Stopped);
    for event in [Event::ReadFailed, Event::Interrupted, Event::KeepaliveDue, Event::StateLost] {
        let (connection, effects) = Connection::Closed.step(&mut state, event);
        assert!(matches!(connection, Connection::Closed));
        assert!(is_quiet(&effects));
    }
}

#[test]
fn packets_before_a_login_are_awaited_for_a_while() {
    let mut state = proxy_state(ServerState::Stopped);
    assert_eq!(Connection::new().read_timeout_secs(&state), Some(10));
    assert_eq!(Connection::StatusRequest.read_timeout_secs(&state), Some(10));
    let login = Connection::LoginStart { handshake_raw: vec![] };
    assert_eq!(login.read_timeout_secs(&state), Some(10));
    assert_eq!(Connection::Ping.read_timeout_secs(&state), None);
    assert_eq!(Connection::Pong.read_timeout_secs(&state), None);
    let (waiting, _) = logged_in(&mut state);
    assert_eq!(waiting.read_timeout_secs(&state), None);
}
