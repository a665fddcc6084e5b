use redoxide::config::{Config, DockerConfig, ProxyConfig, StatusConfig, TargetConfig};
use redoxide::state::{initial_state, IdleShutdown, ServerState, SharedState};
use redoxide::version_cache::VersionCache;

fn test_config() -> Config {
    Config {
        proxy: ProxyConfig {
            bind: "0.0.0.0:0".to_string(),
            server_address: "test".to_string(),
            handshake_timeout_secs: 10,
        },
        target: TargetConfig { host: "127.0.0.1".to_string(), port: 0 },
        docker: DockerConfig {
            container_name: "redoxide-test-nonexistent-container".to_string(),
            startup_timeout_secs: 120,
            idle_shutdown_secs: 0,
        },
        status: StatusConfig {
            protocol_version: 0,
            max_players: 20,
            online_motd: "test".to_string(),
            version_name: "test".to_string(),
            server_properties: None,
        },
        rcon: None,
    }
}

fn test_state() -> SharedState {
    SharedState::new(test_config(), None)
}

#[test]
fn test_begin_session_increments_and_drop_decrements_player_count() {
    let mut state = test_state();
    assert_eq!(state.player_count(), 0);

    let guard = state.begin_session();
    assert_eq!(state.player_count(), 1);

    guard.end(&mut state);
    assert_eq!(state.player_count(), 0);
}

#[test]
fn test_stop_failure_does_not_publish_stopped_state() {
    let mut state = test_state();
    state.set_state(ServerState::Running);

    state.schedule_idle_shutdown();
    assert!(state.idle_shutdown_due());
    state.stop_finished(false);

    assert!(
        !matches!(state.current_state(), ServerState::Stopped),
        "state must not become Stopped when the container could not be stopped"
    );
}

#[test]
fn stop_success_publishes_stopped_state() {
    let mut state = test_state();
    state.set_state(ServerState::Running);
    state.stop_finished(true);
    assert_eq!(state.current_state(), ServerState::Stopped);
}

#[test]
fn start_failure_publishes_stopped_state() {
    let mut state = test_state();
    state.set_state(ServerState::Starting);
    state.start_finished(true);
    assert_eq!(state.current_state(), ServerState::Starting);
    state.start_finished(false);
    assert_eq!(state.current_state(), ServerState::Stopped);
}

#[test]
fn state_to_begin_with() {
    assert_eq!(initial_state(Some(true)), ServerState::Running);
    assert_eq!(initial_state(Some(false)), ServerState::Stopped);
    assert_eq!(initial_state(None), ServerState::Stopped);
    assert_eq!(test_state().current_state(), ServerState::Stopped);
}

#[test]
fn last_session_schedules_the_shutdown() {
    let mut config = test_config();
    config.docker.idle_shutdown_secs = 600;
    let mut state = SharedState::new(config, None);
    let first = state.begin_session();
    let second = state.begin_session();
    assert_eq!(state.player_count(), 2);
    assert_eq!(first.end(&mut state), None);
    assert!(!state.idle_timer);
    assert!(!state.idle_shutdown_due());
    assert_eq!(second.end(&mut state), Some(IdleShutdown { replaces: false, secs: 600 }));
    assert!(state.idle_timer);
    assert!(state.idle_shutdown_due());
}

#[test]
fn shutdown_replaces_the_one_before() {
    let mut state = test_state();
    assert_eq!(state.schedule_idle_shutdown(), IdleShutdown { replaces: false, secs: 0 });
    assert_eq!(state.schedule_idle_shutdown(), IdleShutdown { replaces: true, secs: 0 });
    assert!(state.cancel_idle_shutdown());
    assert!(!state.cancel_idle_shutdown());
    assert_eq!(state.schedule_idle_shutdown(), IdleShutdown { replaces: false, secs: 0 });
}

#[test]
fn session_end_never_counts_below_zero() {
    let mut state = test_state();
    let guard = state.begin_session();
    state.player_count = 0;
    assert!(guard.end(&mut state).is_some());
    assert_eq!(state.player_count(), 0);
}

#[test]
fn version_comes_from_the_settings_at_first() {
    let state = test_state();
    assert_eq!(state.protocol_version(), 0);
    assert_eq!(state.version_name(), "test");
}

#[test]
fn version_is_kept_when_it_changes() {
    let mut state = test_state();
    let kept = state.update_version_info(769, "1.21.4".to_string()).unwrap();
    assert_eq!((kept.protocol, kept.version.as_str()), (769, "1.21.4"));
    assert_eq!(state.protocol_version(), 769);
    assert_eq!(state.version_name(), "1.21.4");
    assert!(state.update_version_info(769, "1.21.4".to_string()).is_none());
    assert!(state.update_version_info(770, "1.21.4".to_string()).is_some());
    assert!(state.update_version_info(770, "1.21.5".to_string()).is_some());
}

#[test]
fn version_of_the_settings_is_kept_once_it_was_seen() {
    let mut state = test_state();
    assert!(state.update_version_info(0, "test".to_string()).is_some());
    assert!(state.update_version_info(0, "test".to_string()).is_none());
}

#[test]
fn version_survives_a_restart() {
    let mut state = test_state();
    let kept = state.update_version_info(769, "1.21.4".to_string());
    let restarted = SharedState::new(test_config(), kept);
    assert_eq!(restarted.protocol_version(), 769);
    assert_eq!(restarted.version_name(), "1.21.4");
}

#[test]
fn cached_version_goes_before_the_settings() {
    let cache = VersionCache { protocol: 5, version: "cached".to_string() };
    let state = SharedState::new(test_config(), Some(cache));
    assert_eq!(state.protocol_version(), 5);
    assert_eq!(state.version_name(), "cached");
}
