//! The settings, and what a `server.properties` file changes in them.

use vstd::prelude::*;

use crate::text::{
    after, before, chars_of, decimal_text, find, integer_in, is_blank, is_trimmed, is_white_space,
    law_decimal_round_trip, law_number_is_read, law_only_numbers_are_read, law_split_once,
    law_trimmed, lemma_position_bounds, lemma_position_is, lemma_trim_keeps_start,
    lemma_trimmed_part, parse_i32, position_of, push_decimal, string_of, trim, trimmed,
};

verus! {

#[derive(Debug, Clone)]
pub struct Config {
    pub proxy: ProxyConfig,
    pub target: TargetConfig,
    pub docker: DockerConfig,
    pub status: StatusConfig,
    /// How to ask the server itself to stop, where it can be asked.
    pub rcon: Option<RconConfig>,
}

#[derive(Debug, Clone)]
pub struct ProxyConfig {
    pub bind: String,
    pub server_address: String,
    /// How long to wait for the packets before a login, in seconds.
    pub handshake_timeout_secs: u64,
}

#[derive(Debug, Clone)]
pub struct TargetConfig {
    pub host: String,
    pub port: u16,
}

#[derive(Debug, Clone)]
pub struct DockerConfig {
    pub container_name: String,
    pub startup_timeout_secs: u64,
    pub idle_shutdown_secs: u64,
}

#[derive(Debug, Clone)]
pub struct StatusConfig {
    pub protocol_version: i32,
    pub max_players: i32,
    pub online_motd: String,
    pub version_name: String,
    /// Path of a `server.properties` file that overrides `max_players` and `online_motd`.
    pub server_properties: Option<String>,
}

#[derive(Debug, Clone)]
pub struct RconConfig {
    pub host: String,
    pub port: u16,
    pub password: String,
}

pub struct ConfigView {
    pub proxy: ProxyView,
    pub target: TargetView,
    pub docker: DockerView,
    pub status: StatusView,
    pub rcon: Option<RconView>,
}

pub struct ProxyView {
    pub bind: Seq<char>,
    pub server_address: Seq<char>,
    pub handshake_timeout_secs: int,
}

pub struct TargetView {
    pub host: Seq<char>,
    pub port: int,
}

pub struct DockerView {
    pub container_name: Seq<char>,
    pub startup_timeout_secs: int,
    pub idle_shutdown_secs: int,
}

pub struct StatusView {
    pub protocol_version: int,
    pub max_players: int,
    pub online_motd: Seq<char>,
    pub version_name: Seq<char>,
    pub server_properties: Option<Seq<char>>,
}

pub struct RconView {
    pub host: Seq<char>,
    pub port: int,
    pub password: Seq<char>,
}

impl View for Config {
    type V = ConfigView;

    open spec fn view(&self) -> ConfigView {
        ConfigView {
            proxy: self.proxy@,
            target: self.target@,
            docker: self.docker@,
            status: self.status@,
            rcon: match self.rcon {
                Some(rcon) => Some(rcon@),
                None => None,
            },
        }
    }
}

impl View for ProxyConfig {
    type V = ProxyView;

    open spec fn view(&self) -> ProxyView {
        ProxyView {
            bind: self.bind@,
            server_address: self.server_address@,
            handshake_timeout_secs: self.handshake_timeout_secs as int,
        }
    }
}

impl View for TargetConfig {
    type V = TargetView;

    open spec fn view(&self) -> TargetView {
        TargetView { host: self.host@, port: self.port as int }
    }
}

impl View for DockerConfig {
    type V = DockerView;

    open spec fn view(&self) -> DockerView {
        DockerView {
            container_name: self.container_name@,
            startup_timeout_secs: self.startup_timeout_secs as int,
            idle_shutdown_secs: self.idle_shutdown_secs as int,
        }
    }
}

impl View for StatusConfig {
    type V = StatusView;

    open spec fn view(&self) -> StatusView {
        StatusView {
            protocol_version: self.protocol_version as int,
            max_players: self.max_players as int,
            online_motd: self.online_motd@,
            version_name: self.version_name@,
            server_properties: match self.server_properties {
                Some(path) => Some(path@),
                None => None,
            },
        }
    }
}

impl View for RconConfig {
    type V = RconView;

    open spec fn view(&self) -> RconView {
        RconView { host: self.host@, port: self.port as int, password: self.password@ }
    }
}

/// The time to wait for the packets before a login where the settings do not say, in seconds.
pub fn default_handshake_timeout_secs() -> (secs: u64)
    ensures
        secs == 10,
{
    10
}

/// `status` after one line of a `server.properties` file. Blank lines, comments, lines without an
/// equals sign, other keys and numbers that do not fit change nothing.
pub open spec fn with_property(status: StatusView, line: Seq<char>) -> StatusView {
    let line = trimmed(line);
    let key = trimmed(before(line, '='));
    let value = trimmed(after(line, '='));
    if line.len() == 0 || line[0] == '#' || position_of(line, '=') == line.len() {
        status
    } else if key == "max-players"@ {
        match integer_in(value, i32::MIN as int, i32::MAX as int) {
            Some(n) => StatusView { max_players: n, ..status },
            None => status,
        }
    } else if key == "motd"@ {
        StatusView { online_motd: value, ..status }
    } else {
        status
    }
}

/// `status` after the lines of a `server.properties` file, one after the other.
pub open spec fn with_properties(status: StatusView, contents: Seq<char>) -> StatusView
    decreases contents.len(),
    via with_properties_decreases
{
    let first = with_property(status, before(contents, '\n'));
    if position_of(contents, '\n') < contents.len() {
        with_properties(first, after(contents, '\n'))
    } else {
        first
    }
}

#[via_fn]
proof fn with_properties_decreases(status: StatusView, contents: Seq<char>) {
    lemma_position_bounds(contents, '\n');
}

/// Applies the line `chars[from..to]` of a `server.properties` file.
fn apply_property(status: &mut StatusConfig, chars: &Vec<char>, from: usize, to: usize)
    requires
        from <= to <= chars@.len(),
    ensures
        final(status)@ == with_property(old(status)@, chars@.subrange(from as int, to as int)),
{
    let (start, end) = trim(chars, from, to);
    let ghost line = chars@.subrange(start as int, end as int);
    if start == end || chars[start] == '#' {
        return;
    }
    let equals: usize = find(chars, start, end, '=');
    if equals == end {
        return;
    }
    assert(before(line, '=') =~= chars@.subrange(start as int, equals as int));
    assert(after(line, '=') =~= chars@.subrange(equals + 1, end as int));
    let (key_start, key_end) = trim(chars, start, equals);
    let (value_start, value_end) = trim(chars, equals + 1, end);
    let key: String = string_of(chars, key_start, key_end);
    if key == "max-players".to_owned() {
        match parse_i32(chars, value_start, value_end) {
            Some(n) => {
                status.max_players = n;
            },
            None => {},
        }
    } else if key == "motd".to_owned() {
        status.online_motd = string_of(chars, value_start, value_end);
    }
}

/// Applies the contents of a `server.properties` file.
pub fn apply_server_properties(config: &mut Config, contents: &str)
    ensures
        final(config)@ == (ConfigView {
            status: with_properties(old(config)@.status, contents@),
            ..old(config)@
        }),
{
    let chars: Vec<char> = chars_of(contents);
    let mut from: usize = 0;
    assert(chars@.skip(0) =~= chars@);
    loop
        invariant
            from <= chars@.len(),
            with_properties(old(config)@.status, chars@) == with_properties(
                config@.status,
                chars@.skip(from as int),
            ),
            config@ == (ConfigView { status: config@.status, ..old(config)@ }),
        ensures
            config@ == (ConfigView {
                status: with_properties(old(config)@.status, chars@),
                ..old(config)@
            }),
        decreases chars@.len() - from,
    {
        let end: usize = find(&chars, from, chars.len(), '\n');
        let ghost left = chars@.skip(from as int);
        assert(chars@.subrange(from as int, chars@.len() as int) =~= left);
        apply_property(&mut config.status, &chars, from, end);
        assert(before(left, '\n') =~= chars@.subrange(from as int, end as int));
        if end == chars.len() {
            break;
        }
        assert(after(left, '\n') =~= chars@.skip(end + 1));
        from = end + 1;
    }
}

/// The address `host:port`.
pub open spec fn target_text(host: Seq<char>, port: int) -> Seq<char> {
    host.push(':') + crate::text::decimal_text(port)
}

/// Writes the address `host:port`.
pub fn target_address(host: &str, port: u16) -> (address: String)
    ensures
        address@ == target_text(host@, port as int),
{
    let mut address: String = host.to_owned();
    address.push(':');
    push_decimal(&mut address, port);
    address
}

/// Two files applied in turn do what one file with the lines of both does.
pub proof fn law_properties_in_turn(status: StatusView, first: Seq<char>, second: Seq<char>)
    ensures
        with_properties(status, first.push('\n') + second) == with_properties(
            with_properties(status, first),
            second,
        ),
    decreases first.len(),
{
    let both = first.push('\n') + second;
    let end = position_of(first, '\n');
    lemma_position_bounds(first, '\n');
    assert forall|i: int| 0 <= i < end implies both[i] != '\n' by {
        assert(both[i] == first[i]);
    }
    lemma_position_is(both, '\n', end);
    assert(before(both, '\n') =~= before(first, '\n'));
    let step = with_property(status, before(first, '\n'));
    if end < first.len() {
        assert(after(both, '\n') =~= after(first, '\n').push('\n') + second);
        law_properties_in_turn(step, after(first, '\n'), second);
    } else {
        assert(after(both, '\n') =~= second);
    }
}

/// A `server.properties` file changes the player limit and the message of the day at most.
pub proof fn law_properties_scope(status: StatusView, contents: Seq<char>)
    ensures
        with_properties(status, contents) == (StatusView {
            max_players: with_properties(status, contents).max_players,
            online_motd: with_properties(status, contents).online_motd,
            ..status
        }),
    decreases contents.len(),
{
    lemma_position_bounds(contents, '\n');
    if position_of(contents, '\n') < contents.len() {
        law_properties_scope(
            with_property(status, before(contents, '\n')),
            after(contents, '\n'),
        );
    }
}

/// A line sets what its key names to its value, wherever white space stands around the two: the
/// message of the day to exactly that text, the player limit to that number where it is one. Another
/// key sets nothing.
pub proof fn law_property_is_set(
    status: StatusView,
    key: Seq<char>,
    value: Seq<char>,
    blanks: (Seq<char>, Seq<char>, Seq<char>, Seq<char>),
)
    requires
        is_blank(blanks.0) && is_blank(blanks.1) && is_blank(blanks.2) && is_blank(blanks.3),
        is_trimmed(key) && is_trimmed(value),
        key.len() > 0 && key[0] != '#' && !key.contains('='),
    ensures
        with_property(
            status,
            blanks.0 + key + blanks.1 + seq!['='] + blanks.2 + value + blanks.3,
        ) == (if key == "motd"@ {
            StatusView { online_motd: value, ..status }
        } else if key == "max-players"@ && integer_in(
            value,
            i32::MIN as int,
            i32::MAX as int,
        ) is Some {
            StatusView {
                max_players: integer_in(value, i32::MIN as int, i32::MAX as int)->0,
                ..status
            }
        } else {
            status
        }),
{
    let (a, b, c, d) = blanks;
    let line = a + key + b + seq!['='] + c + value + d;
    let head = key + b;
    let none = Seq::<char>::empty();
    reveal_strlit("motd");
    reveal_strlit("max-players");
    assert(!head.contains('=')) by {
        if head.contains('=') {
            let i = choose|i: int| 0 <= i < head.len() && head[i] == '=';
            if i < key.len() {
                assert(key[i] == '=');
            } else {
                assert(b[i - key.len()] == '=');
            }
        }
    }
    let (inner, trail) = if value.len() > 0 {
        (head.push('=') + (c + value), d)
    } else {
        (head.push('=') + none, c + d)
    };
    if value.len() > 0 {
        assert(line =~= a + inner + trail);
        assert(inner.last() == value.last());
    } else {
        assert(line =~= a + inner + trail);
        assert(inner.last() == '=');
        assert forall|i: int| 0 <= i < trail.len() implies is_white_space(#[trigger] trail[i]) by {
            if i < c.len() {
                assert(trail[i] == c[i]);
            } else {
                assert(trail[i] == d[i - c.len()]);
            }
        }
    }
    assert(inner[0] == key[0]);
    law_trimmed(a, inner, trail);
    law_split_once(head, '=', if value.len() > 0 {
        c + value
    } else {
        none
    });
    lemma_position_bounds(inner, '=');
    assert(inner[head.len() as int] == '=');
    assert(none + key + b =~= head);
    law_trimmed(none, key, b);
    assert(c + value + none =~= c + value);
    if value.len() > 0 {
        law_trimmed(c, value, none);
    } else {
        law_trimmed(none, none, none);
        assert(none + none + none =~= none);
        assert(value =~= none);
    }
}

/// A file of one line does what that line does.
pub proof fn law_one_line(status: StatusView, line: Seq<char>)
    requires
        !line.contains('\n'),
    ensures
        with_properties(status, line) == with_property(status, line),
{
    assert forall|i: int| 0 <= i < line.len() implies line[i] != '\n' by {
        assert(line.contains(line[i]));
    }
    lemma_position_is(line, '\n', line.len() as int);
    assert(before(line, '\n') =~= line);
}

/// `motd=` and a text, without a line break and without white space at its ends, sets the message of
/// the day to exactly that text, and changes nothing else.
pub proof fn law_motd_line(status: StatusView, text: Seq<char>)
    requires
        !text.contains('\n'),
        is_trimmed(text),
    ensures
        with_properties(status, "motd="@ + text) == (StatusView { online_motd: text, ..status }),
{
    reveal_strlit("motd=");
    reveal_strlit("motd");
    lemma_plain_line(status, "motd"@, text);
    assert("motd="@ + text =~= "motd"@ + seq!['='] + text);
}

/// `max-players=` and the decimal form of a number sets the player limit to that number, and changes
/// nothing else; so it does with a sign before it. A number that does not fit changes nothing.
pub proof fn law_player_limit_line(status: StatusView, n: int)
    requires
        0 <= n,
    ensures
        ({
            let limited = if n <= i32::MAX {
                StatusView { max_players: n, ..status }
            } else {
                status
            };
            &&& with_properties(status, "max-players="@ + decimal_text(n)) == limited
            &&& with_properties(status, "max-players=+"@ + decimal_text(n)) == limited
            &&& with_properties(status, "max-players=-"@ + decimal_text(n)) == (if -n >= i32::MIN {
                StatusView { max_players: -n, ..status }
            } else {
                status
            })
        }),
{
    reveal_strlit("max-players=");
    reveal_strlit("max-players=+");
    reveal_strlit("max-players=-");
    reveal_strlit("max-players");
    reveal_strlit("motd");
    let digits = decimal_text(n);
    law_decimal_round_trip(n);
    law_number_is_read(digits, i32::MIN as int, i32::MAX as int);
    assert('0' <= digits[0] <= '9' && '0' <= digits[digits.len() - 1] <= '9');
    let plus = seq!['+'] + digits;
    let minus = seq!['-'] + digits;
    assert(plus.last() == digits.last() && minus.last() == digits.last());
    assert(!digits.contains('\n'));
    assert forall|i: int| 0 <= i < plus.len() implies plus[i] != '\n' && minus[i] != '\n' by {
        if i > 0 {
            assert(plus[i] == digits[i - 1] && minus[i] == digits[i - 1]);
        }
    }
    lemma_plain_line(status, "max-players"@, digits);
    lemma_plain_line(status, "max-players"@, plus);
    lemma_plain_line(status, "max-players"@, minus);
    assert("max-players="@ + digits =~= "max-players"@ + seq!['='] + digits);
    assert("max-players=+"@ + digits =~= "max-players"@ + seq!['='] + plus);
    assert("max-players=-"@ + digits =~= "max-players"@ + seq!['='] + minus);
    assert("max-players"@ != "motd"@) by {
        assert("max-players"@.len() != "motd"@.len());
    }
}

/// A player limit that is no number changes nothing.
pub proof fn law_bad_player_limit_line(status: StatusView, text: Seq<char>)
    requires
        !text.contains('\n'),
        is_trimmed(text),
        text.len() == 0 || exists|i: int|
            0 <= i < text.len() && !('0' <= #[trigger] text[i] <= '9') && (i > 0 || text.len() == 1
                || (text[0] != '+' && text[0] != '-')),
    ensures
        with_properties(status, "max-players="@ + text) == status,
{
    reveal_strlit("max-players=");
    reveal_strlit("max-players");
    reveal_strlit("motd");
    law_only_numbers_are_read(text, i32::MIN as int, i32::MAX as int);
    lemma_plain_line(status, "max-players"@, text);
    assert("max-players="@ + text =~= "max-players"@ + seq!['='] + text);
    assert("max-players"@.len() != "motd"@.len());
}

/// A line `key=value` without blanks.
proof fn lemma_plain_line(status: StatusView, key: Seq<char>, value: Seq<char>)
    requires
        key == "motd"@ || key == "max-players"@,
        is_trimmed(value),
        !value.contains('\n'),
    ensures
        with_properties(status, key + seq!['='] + value) == (if key == "motd"@ {
            StatusView { online_motd: value, ..status }
        } else if integer_in(value, i32::MIN as int, i32::MAX as int) is Some {
            StatusView {
                max_players: integer_in(value, i32::MIN as int, i32::MAX as int)->0,
                ..status
            }
        } else {
            status
        }),
{
    reveal_strlit("max-players");
    reveal_strlit("motd");
    let none = Seq::<char>::empty();
    let line = key + seq!['='] + value;
    law_property_is_set(status, key, value, (none, none, none, none));
    assert(line =~= none + key + none + seq!['='] + none + value + none);
    assert forall|i: int| 0 <= i < line.len() implies line[i] != '\n' by {
        if i > key.len() {
            assert(line[i] == value[i - key.len() - 1]);
            assert(value.contains(line[i]));
        }
    }
    law_one_line(status, line);
}

/// A comment, after white space or not, changes nothing, whatever it says.
pub proof fn law_comments_are_skipped(status: StatusView, lead: Seq<char>, comment: Seq<char>)
    requires
        is_blank(lead),
        !lead.contains('\n') && !comment.contains('\n'),
    ensures
        with_properties(status, lead + seq!['#'] + comment) == status,
{
    let line = lead + seq!['#'] + comment;
    lemma_trim_keeps_start(lead, seq!['#'] + comment);
    assert(line =~= lead + (seq!['#'] + comment));
    assert forall|i: int| 0 <= i < line.len() implies line[i] != '\n' by {
        if i < lead.len() {
            assert(lead.contains(line[i]));
        } else if i > lead.len() {
            assert(line[i] == comment[i - lead.len() - 1]);
            assert(comment.contains(line[i]));
        }
    }
    law_one_line(status, line);
}

/// A line without an equals sign changes nothing.
pub proof fn law_lines_without_value_are_skipped(status: StatusView, line: Seq<char>)
    requires
        !line.contains('\n') && !line.contains('='),
    ensures
        with_properties(status, line) == status,
{
    let inner = trimmed(line);
    lemma_trimmed_part(line);
    assert forall|i: int| 0 <= i < inner.len() implies inner[i] != '=' by {
        assert(inner.contains(inner[i]));
    }
    lemma_position_is(inner, '=', inner.len() as int);
    law_one_line(status, line);
}

/// The address of a host and a port is the host, a colon and the port's digits.
pub proof fn law_target_layout(host: Seq<char>, port: int)
    ensures
        target_text(host, port) == host + seq![':'] + decimal_text(port),
{
    assert(target_text(host, port) =~= host + seq![':'] + decimal_text(port));
}

/// What the contracts speak of is what the fields hold.
pub proof fn law_config_view(config: Config)
    ensures
        config@.proxy.bind == config.proxy.bind@,
        config@.proxy.server_address == config.proxy.server_address@,
        config@.proxy.handshake_timeout_secs == config.proxy.handshake_timeout_secs,
        config@.target.host == config.target.host@,
        config@.target.port == config.target.port,
        config@.docker.container_name == config.docker.container_name@,
        config@.docker.startup_timeout_secs == config.docker.startup_timeout_secs,
        config@.docker.idle_shutdown_secs == config.docker.idle_shutdown_secs,
        config@.status.protocol_version == config.status.protocol_version,
        config@.status.max_players == config.status.max_players,
        config@.status.online_motd == config.status.online_motd@,
        config@.status.version_name == config.status.version_name@,
        config@.rcon is Some <==> config.rcon is Some,
{
}

/// A line with nothing before its equals sign changes nothing.
pub proof fn law_nameless_lines_are_skipped(status: StatusView, lead: Seq<char>, rest: Seq<char>)
    requires
        is_blank(lead),
    ensures
        with_property(status, lead + seq!['='] + rest) == status,
{
    reveal_strlit("motd");
    reveal_strlit("max-players");
    let line = lead + seq!['='] + rest;
    assert(line =~= lead + (seq!['='] + rest));
    lemma_trim_keeps_start(lead, seq!['='] + rest);
    let inner = trimmed(line);
    lemma_position_is(inner, '=', 0);
    assert(before(inner, '=') =~= Seq::<char>::empty());
    assert(trimmed(Seq::<char>::empty()) =~= Seq::<char>::empty());
}

} // verus!
