use redoxide::config::{
    apply_server_properties, default_handshake_timeout_secs, target_address, Config, DockerConfig,
    ProxyConfig, StatusConfig, TargetConfig,
};
use redoxide::text::white_space;

fn config() -> Config {
    Config {
        proxy: ProxyConfig {
            bind: "0.0.0.0:25565".to_string(),
            server_address: "mc.example".to_string(),
            handshake_timeout_secs: 10,
        },
        target: TargetConfig { host: "minecraft".to_string(), port: 25565 },
        docker: DockerConfig {
            container_name: "minecraft-1".to_string(),
            startup_timeout_secs: 120,
            idle_shutdown_secs: 600,
        },
        status: StatusConfig {
            protocol_version: 769,
            max_players: 20,
            online_motd: "Hello".to_string(),
            version_name: "1.21.4".to_string(),
            server_properties: None,
        },
        rcon: None,
    }
}

fn applied(contents: &str) -> (i32, String) {
    let mut config = config();
    apply_server_properties(&mut config, contents);
    assert_eq!(config.proxy.server_address, "mc.example");
    assert_eq!(config.status.protocol_version, 769);
    assert_eq!(config.status.version_name, "1.21.4");
    (config.status.max_players, config.status.online_motd)
}

#[test]
fn test_handshake_timeout_defaults_when_absent() {
    assert_eq!(default_handshake_timeout_secs(), 10);
}

#[test]
fn properties_override_limit_and_motd() {
    assert_eq!(
        applied("#Minecraft server properties\r\nmax-players=42\r\nmotd=A Server\r\n"),
        (42, "A Server".to_string())
    );
}

#[test]
fn properties_are_trimmed() {
    assert_eq!(
        applied("  max-players \t=  7  \n\u{a0}motd\u{2003}= a = b \u{3000}"),
        (7, "a = b".to_string())
    );
}

#[test]
fn other_lines_change_nothing() {
    let kept = (20, "Hello".to_string());
    assert_eq!(applied(""), kept);
    assert_eq!(applied("\n\n  \n"), kept);
    assert_eq!(applied("# motd=no"), kept);
    assert_eq!(applied("  #max-players=3"), kept);
    assert_eq!(applied("max-players"), kept);
    assert_eq!(applied("Max-Players=3"), kept);
    assert_eq!(applied("difficulty=easy"), kept);
    assert_eq!(applied("=max-players"), kept);
}

#[test]
fn numbers_are_read_as_the_standard_library_reads_them() {
    for text in [
        "0", "7", "-1", "+5", "007", "-0", "2147483647", "2147483648", "-2147483648",
        "-2147483649", "", "+", "-", "1.5", "1e3", " 12 ", "1 2", "--1", "99999999999999999999",
        "00000000000000000000012", "\u{661}", "0x10",
    ] {
        let expected = text.trim().parse::<i32>().unwrap_or(20);
        assert_eq!(applied(&format!("max-players={text}")).0, expected, "{text}");
    }
}

#[test]
fn later_lines_win() {
    assert_eq!(applied("max-players=1\nmax-players=2\nmax-players=x").0, 2);
    assert_eq!(applied("motd=one\nmotd=").1, "");
}

#[test]
fn properties_in_turn_do_what_both_files_do() {
    let mut twice = config();
    apply_server_properties(&mut twice, "max-players=5\nmotd=x");
    apply_server_properties(&mut twice, "motd=y");
    assert_eq!(
        (twice.status.max_players, twice.status.online_motd),
        applied("max-players=5\nmotd=x\nmotd=y")
    );
}

#[test]
fn white_space_is_unicode_white_space() {
    for n in 0..=0x10ffffu32 {
        if let Some(c) = char::from_u32(n) {
            assert_eq!(white_space(c), c.is_whitespace());
        }
    }
}

#[test]
fn target_addresses() {
    assert_eq!(target_address("minecraft", 25565), "minecraft:25565");
    assert_eq!(target_address("127.0.0.1", 0), "127.0.0.1:0");
    assert_eq!(target_address("h", 65535), "h:65535");
    assert_eq!(target_address("", 10), ":10");
}
