//! The life of one connection, as a state machine. Whoever owns the sockets and the timers reports
//! what happened, and carries out what comes back.

use vstd::prelude::*;
use vstd::utf8::{encode_utf8, is_ascii_chars};

use crate::config::{StatusConfig, StatusView};
use crate::json::{json_document, json_text, member_of, JsonTree};
use crate::probe::{law_document_round_trip, reply_document, reply_version, ProbeError};
use crate::protocol::error::ProtocolError;
use crate::protocol::handshake::{handshake_outcome, parse_handshake, parse_login_start};
use crate::protocol::packet::{
    packet_bytes, packet_outcome, string_bytes, string_outcome, PacketView, RawPacket,
    MAX_PACKET_LEN,
};
use crate::protocol::varint::{low_i32, signed32, varint_bytes};
use crate::state::{IdleShutdown, ServerState, SessionGuard, SharedState, SharedView};
use crate::status::{
    disconnect_tree, encode_login_disconnect, encode_login_plugin_request, encode_status_response,
    json_packet_bytes, status_tree,
};
use crate::text::{ascii_lowercase, lowercase, lowercase_text};
use crate::transitions::law_shown_entry;

verus! {

/// What a player reads whose server did not come up.
pub const START_FAILED: &'static str = "Server failed to start. Contact admin.";

/// The channel of the packets that keep a waiting client from giving up.
pub const KEEPALIVE_CHANNEL: &'static str = "redoxide:keepalive";

/// What the server list shows after the message of the day while the server starts.
pub const STARTING_SUFFIX: &'static str = " §7(starting...)";

/// How often a starting server is dialled, in seconds.
pub const PROBE_INTERVAL_SECS: u64 = 2;

/// How often a waiting client is sent a keepalive, in seconds.
pub const KEEPALIVE_INTERVAL_SECS: u64 = 10;

/// Where a handshake leads.
#[derive(Clone, Copy, Debug, PartialEq, Eq, Structural)]
pub enum Route {
    /// It was meant for another server.
    Ignore,
    /// The client wants to know the status.
    Status,
    /// The client wants to play.
    Login,
    /// The client wants neither of the two, but this.
    Unknown(i32),
}

/// Where a handshake leads that named the address `got`, where `expected` was to be named.
pub open spec fn route_of(got: Seq<char>, expected: Seq<char>, next_state: int) -> Route {
    if got != expected {
        Route::Ignore
    } else if next_state == 1 {
        Route::Status
    } else if next_state == 2 {
        Route::Login
    } else {
        Route::Unknown(next_state as i32)
    }
}

/// Decides where a handshake leads. Both addresses are in lower case.
pub fn route(got: &String, expected: &String, next_state: i32) -> (route: Route)
    ensures
        route == route_of(got@, expected@, next_state as int),
{
    if *got != *expected {
        Route::Ignore
    } else if next_state == 1 {
        Route::Status
    } else if next_state == 2 {
        Route::Login
    } else {
        Route::Unknown(next_state)
    }
}

/// Where a connection stands.
pub enum Connection {
    /// The first packet is awaited.
    Handshake,
    /// The client wants to know the status and has to ask for it.
    StatusRequest,
    /// The client has the status and may measure the round trip.
    Ping,
    /// The answer to the ping is being written.
    Pong,
    /// The client wants to play and has to say who it is.
    LoginStart { handshake_raw: Vec<u8> },
    /// The client is kept waiting until the server is up.
    Waiting {
        session: SessionGuard,
        handshake_raw: Vec<u8>,
        login_raw: Vec<u8>,
        keepalive_id: i32,
    },
    /// The server is up and is being dialled.
    Connecting { session: SessionGuard, handshake_raw: Vec<u8>, login_raw: Vec<u8> },
    /// Client and server talk to each other.
    Forwarding { session: SessionGuard },
    Closed,
}

pub enum ConnectionView {
    Handshake,
    StatusRequest,
    Ping,
    Pong,
    LoginStart { handshake_raw: Seq<u8> },
    Waiting { handshake_raw: Seq<u8>, login_raw: Seq<u8>, keepalive_id: int },
    Connecting { handshake_raw: Seq<u8>, login_raw: Seq<u8> },
    Forwarding,
    Closed,
}

impl View for Connection {
    type V = ConnectionView;

    open spec fn view(&self) -> ConnectionView {
        match self {
            Connection::Handshake => ConnectionView::Handshake,
            Connection::StatusRequest => ConnectionView::StatusRequest,
            Connection::Ping => ConnectionView::Ping,
            Connection::Pong => ConnectionView::Pong,
            Connection::LoginStart { handshake_raw } => ConnectionView::LoginStart {
                handshake_raw: handshake_raw@,
            },
            Connection::Waiting { handshake_raw, login_raw, keepalive_id, .. } => {
                ConnectionView::Waiting {
                    handshake_raw: handshake_raw@,
                    login_raw: login_raw@,
                    keepalive_id: *keepalive_id as int,
                }
            },
            Connection::Connecting { handshake_raw, login_raw, .. } => {
                ConnectionView::Connecting {
                    handshake_raw: handshake_raw@,
                    login_raw: login_raw@,
                }
            },
            Connection::Forwarding { .. } => ConnectionView::Forwarding,
            Connection::Closed => ConnectionView::Closed,
        }
    }
}

/// What happened to a connection.
pub enum Event {
    /// The client sent a packet; `raw` is its frame as it was received.
    Packet { packet: RawPacket, raw: Vec<u8> },
    /// Nothing more can be read from the client, or it took too long, or it was no packet.
    ReadFailed,
    /// What was to be sent to the client has been written.
    Written,
    /// Nothing can be written to the client.
    WriteFailed,
    /// The server has had its time to start.
    DeadlinePassed,
    /// The server was dialled, to see whether it is up.
    Probed { reachable: bool },
    /// It is time for another keepalive.
    KeepaliveDue,
    /// The state of the server changed.
    StateChanged { state: ServerState },
    /// The state of the server cannot be followed any more.
    StateLost,
    /// The server was dialled, to join it with the client.
    Dialled { connected: bool },
    /// Client and server have stopped talking.
    StreamsEnded { cleanly: bool },
    /// The connection is given up from outside.
    Interrupted,
}

pub enum EventView {
    Packet { packet: PacketView, raw: Seq<u8> },
    ReadFailed,
    Written,
    WriteFailed,
    DeadlinePassed,
    Probed { reachable: bool },
    KeepaliveDue,
    StateChanged { state: ServerState },
    StateLost,
    Dialled { connected: bool },
    StreamsEnded { cleanly: bool },
    Interrupted,
}

impl View for Event {
    type V = EventView;

    open spec fn view(&self) -> EventView {
        match self {
            Event::Packet { packet, raw } => EventView::Packet { packet: packet@, raw: raw@ },
            Event::ReadFailed => EventView::ReadFailed,
            Event::Written => EventView::Written,
            Event::WriteFailed => EventView::WriteFailed,
            Event::DeadlinePassed => EventView::DeadlinePassed,
            Event::Probed { reachable } => EventView::Probed { reachable: *reachable },
            Event::KeepaliveDue => EventView::KeepaliveDue,
            Event::StateChanged { state } => EventView::StateChanged { state: *state },
            Event::StateLost => EventView::StateLost,
            Event::Dialled { connected } => EventView::Dialled { connected: *connected },
            Event::StreamsEnded { cleanly } => EventView::StreamsEnded { cleanly: *cleanly },
            Event::Interrupted => EventView::Interrupted,
        }
    }
}

/// Why a connection was closed.
#[derive(Clone, Copy, Debug, PartialEq, Eq, Structural)]
pub enum ProxyError {
    /// The handshake or the login start could not be read.
    Malformed(ProtocolError),
    /// The handshake asked for something else than the status or a login.
    UnknownNextState(i32),
    /// A packet came that has no place there.
    UnexpectedPacket(i32),
    /// The client is gone, or was too slow.
    ReadFailed,
    WriteFailed,
    StartupTimeout,
    StartFailed,
    StateLost,
    TargetUnreachable,
    StreamFailed,
    Interrupted,
}

/// What to do for a connection.
pub struct Effects {
    /// Bytes for the client.
    pub to_client: Option<Vec<u8>>,
    /// Bytes for the server.
    pub to_server: Option<Vec<u8>>,
    /// Who logged in.
    pub username: Option<String>,
    /// The idle shutdown that was scheduled is to be given up.
    pub cancel_idle: bool,
    /// The container is to be started.
    pub start_container: bool,
    /// The server is to be asked for its version.
    pub probe_version: bool,
    /// An idle shutdown is to be scheduled.
    pub idle_shutdown: Option<IdleShutdown>,
    /// The connection is closed, in good order or not.
    pub outcome: Option<Result<(), ProxyError>>,
}

pub struct EffectsView {
    pub to_client: Option<Seq<u8>>,
    pub to_server: Option<Seq<u8>>,
    pub username: Option<Seq<char>>,
    pub cancel_idle: bool,
    pub start_container: bool,
    pub probe_version: bool,
    pub idle_shutdown: Option<IdleShutdown>,
    pub outcome: Option<Result<(), ProxyError>>,
}

impl View for Effects {
    type V = EffectsView;

    open spec fn view(&self) -> EffectsView {
        EffectsView {
            to_client: match self.to_client {
                Some(bytes) => Some(bytes@),
                None => None,
            },
            to_server: match self.to_server {
                Some(bytes) => Some(bytes@),
                None => None,
            },
            username: match self.username {
                Some(name) => Some(name@),
                None => None,
            },
            cancel_idle: self.cancel_idle,
            start_container: self.start_container,
            probe_version: self.probe_version,
            idle_shutdown: self.idle_shutdown,
            outcome: self.outcome,
        }
    }
}

impl EffectsView {
    /// Nothing to do.
    pub open spec fn none() -> EffectsView {
        EffectsView {
            to_client: None,
            to_server: None,
            username: None,
            cancel_idle: false,
            start_container: false,
            probe_version: false,
            idle_shutdown: None,
            outcome: None,
        }
    }
}

impl Effects {
    pub fn none() -> (effects: Effects)
        ensures
            effects@ == EffectsView::none(),
    {
        Effects {
            to_client: None,
            to_server: None,
            username: None,
            cancel_idle: false,
            start_container: false,
            probe_version: false,
            idle_shutdown: None,
            outcome: None,
        }
    }
}

/// A step of a connection: where it stands afterwards, what all connections share afterwards, and
/// what to do.
pub struct Step {
    pub connection: ConnectionView,
    pub shared: SharedView,
    pub effects: EffectsView,
}

/// The message of the day that the server list shows.
pub open spec fn shown_motd(shared: SharedView) -> Seq<char> {
    if shared.server is Starting {
        shared.config.status.online_motd + STARTING_SUFFIX@
    } else {
        shared.config.status.online_motd
    }
}

/// The server list entry.
pub open spec fn shown_status(shared: SharedView) -> JsonTree {
    status_tree(
        shown_motd(shared),
        StatusView {
            protocol_version: shared.protocol,
            version_name: shared.shown_version(),
            ..shared.config.status
        },
        signed32(shared.players),
    )
}

/// The server list entry as JSON.
pub open spec fn status_json(shared: SharedView) -> Seq<char> {
    json_text(shown_status(shared))
}

/// The status response.
pub open spec fn status_response_bytes(shared: SharedView) -> Seq<u8> {
    json_packet_bytes(status_json(shared))
}

/// The packet that tells a player that the server did not come up.
pub open spec fn start_failed_bytes() -> Seq<u8> {
    json_packet_bytes(json_text(disconnect_tree(START_FAILED@)))
}

/// The keepalive number `id`.
pub open spec fn keepalive_bytes(id: int) -> Seq<u8> {
    packet_bytes(4, varint_bytes(id) + string_bytes(KEEPALIVE_CHANNEL@))
}

/// Nothing happens.
pub open spec fn stay(connection: ConnectionView, shared: SharedView) -> Step {
    Step { connection, shared, effects: EffectsView::none() }
}

/// The connection is closed before a session began.
pub open spec fn close(shared: SharedView, outcome: Result<(), ProxyError>) -> Step {
    Step {
        connection: ConnectionView::Closed,
        shared,
        effects: EffectsView { outcome: Some(outcome), ..EffectsView::none() },
    }
}

/// The connection is closed and its session ends. `farewell` goes to the client first.
pub open spec fn close_session(
    shared: SharedView,
    farewell: Option<Seq<u8>>,
    outcome: Result<(), ProxyError>,
) -> Step {
    Step {
        connection: ConnectionView::Closed,
        shared: shared.session_ended(),
        effects: EffectsView {
            to_client: farewell,
            idle_shutdown: shared.shutdown_after_session(),
            outcome: Some(outcome),
            ..EffectsView::none()
        },
    }
}

/// The handshake was read, and leads along `route`. One for another server is not answered.
pub open spec fn after_route(route: Route, raw: Seq<u8>, shared: SharedView) -> Step {
    match route {
        Route::Ignore => close(shared, Ok(())),
        Route::Status => stay(ConnectionView::StatusRequest, shared),
        Route::Login => stay(ConnectionView::LoginStart { handshake_raw: raw }, shared),
        Route::Unknown(state) => close(shared, Err(ProxyError::UnknownNextState(state))),
    }
}

/// The handshake came. Addresses are compared in lower case.
pub open spec fn after_handshake(packet: PacketView, raw: Seq<u8>, shared: SharedView) -> Step {
    match handshake_outcome(packet.data) {
        Err(error) => close(shared, Err(ProxyError::Malformed(error))),
        Ok(handshake) => after_route(
            route_of(
                lowercase_text(handshake.server_address),
                lowercase_text(shared.config.proxy.server_address),
                handshake.next_state,
            ),
            raw,
            shared,
        ),
    }
}

/// `next` is what comes of the handshake `packet` where it names an ASCII address and one is
/// expected: `A` to `Z` are the same as `a` to `z`, and other characters differ from each other.
pub open spec fn ascii_case_ignored(
    packet: PacketView,
    raw: Seq<u8>,
    shared: SharedView,
    next: Step,
) -> bool {
    handshake_outcome(packet.data) matches Ok(handshake) ==> is_ascii_chars(
        handshake.server_address,
    ) && is_ascii_chars(shared.config.proxy.server_address) ==> next == after_route(
        route_of(
            ascii_lowercase(handshake.server_address),
            ascii_lowercase(shared.config.proxy.server_address),
            handshake.next_state,
        ),
        raw,
        shared,
    )
}

/// The status request came. The status is sent.
pub open spec fn after_status_request(packet: PacketView, shared: SharedView) -> Step {
    if packet.id != 0 {
        close(shared, Err(ProxyError::UnexpectedPacket(packet.id as i32)))
    } else {
        Step {
            connection: ConnectionView::Ping,
            shared,
            effects: EffectsView {
                to_client: Some(status_response_bytes(shared)),
                ..EffectsView::none()
            },
        }
    }
}

/// The ping came. It is sent back as it is; how that goes decides how the connection ends.
pub open spec fn after_ping(packet: PacketView, raw: Seq<u8>, shared: SharedView) -> Step {
    if packet.id != 1 {
        close(shared, Err(ProxyError::UnexpectedPacket(packet.id as i32)))
    } else {
        Step {
            connection: ConnectionView::Pong,
            shared,
            effects: EffectsView { to_client: Some(raw), ..EffectsView::none() },
        }
    }
}

/// The login start came. A session begins; a server that is stopped is started, and a client waits
/// for a server that does not run.
pub open spec fn after_login_start(
    handshake_raw: Seq<u8>,
    packet: PacketView,
    raw: Seq<u8>,
    shared: SharedView,
) -> Step {
    if packet.id != 0 {
        close(shared, Err(ProxyError::UnexpectedPacket(packet.id as i32)))
    } else {
        match string_outcome(packet.data) {
            Err(error) => close(shared, Err(ProxyError::Malformed(error))),
            Ok((username, _)) => {
                let joined = shared.idle_cancelled().session_begun();
                let start = shared.server is Stopped;
                Step {
                    connection: if shared.server is Running {
                        ConnectionView::Connecting { handshake_raw, login_raw: raw }
                    } else {
                        ConnectionView::Waiting { handshake_raw, login_raw: raw, keepalive_id: 0 }
                    },
                    shared: if start {
                        joined.with_server(ServerState::Starting)
                    } else {
                        joined
                    },
                    effects: EffectsView {
                        username: Some(username),
                        cancel_idle: shared.idle_timer,
                        start_container: start,
                        ..EffectsView::none()
                    },
                }
            },
        }
    }
}

/// Something happened while the client waits for the server. The packets of the client are
/// dropped.
pub open spec fn while_waiting(
    handshake_raw: Seq<u8>,
    login_raw: Seq<u8>,
    keepalive_id: int,
    shared: SharedView,
    event: EventView,
) -> Step {
    let waiting = ConnectionView::Waiting { handshake_raw, login_raw, keepalive_id };
    let connecting = ConnectionView::Connecting { handshake_raw, login_raw };
    match event {
        EventView::DeadlinePassed => close_session(
            shared,
            Some(start_failed_bytes()),
            Err(ProxyError::StartupTimeout),
        ),
        EventView::Probed { reachable: true } => Step {
            connection: connecting,
            shared: shared.with_server(ServerState::Running),
            effects: EffectsView { probe_version: true, ..EffectsView::none() },
        },
        EventView::KeepaliveDue => Step {
            connection: ConnectionView::Waiting {
                handshake_raw,
                login_raw,
                keepalive_id: keepalive_id + 1,
            },
            shared,
            effects: EffectsView {
                to_client: Some(keepalive_bytes(keepalive_id)),
                ..EffectsView::none()
            },
        },
        EventView::StateChanged { state: ServerState::Running } => stay(connecting, shared),
        EventView::StateChanged { state: ServerState::Stopped } => close_session(
            shared,
            Some(start_failed_bytes()),
            Err(ProxyError::StartFailed),
        ),
        EventView::StateLost => close_session(shared, None, Err(ProxyError::StateLost)),
        _ => stay(waiting, shared),
    }
}

/// What an event leads to.
pub open spec fn step(connection: ConnectionView, shared: SharedView, event: EventView) -> Step {
    match (connection, event) {
        (ConnectionView::Closed, _) => stay(connection, shared),
        // A client that does not measure the round trip is done.
        (ConnectionView::Ping, EventView::ReadFailed) => close(shared, Ok(())),
        // Nothing is read any more while the answer to the ping is written.
        (ConnectionView::Pong, EventView::ReadFailed) => stay(connection, shared),
        (ConnectionView::Pong, EventView::Written) => close(shared, Ok(())),
        (_, EventView::ReadFailed) => give_up(connection, shared, ProxyError::ReadFailed),
        (_, EventView::WriteFailed) => give_up(connection, shared, ProxyError::WriteFailed),
        (_, EventView::Interrupted) => give_up(connection, shared, ProxyError::Interrupted),
        (ConnectionView::Handshake, EventView::Packet { packet, raw }) => after_handshake(
            packet,
            raw,
            shared,
        ),
        (ConnectionView::StatusRequest, EventView::Packet { packet, .. }) => after_status_request(
            packet,
            shared,
        ),
        (ConnectionView::Ping, EventView::Packet { packet, raw }) => after_ping(
            packet,
            raw,
            shared,
        ),
        (ConnectionView::LoginStart { handshake_raw }, EventView::Packet { packet, raw }) => {
            after_login_start(handshake_raw, packet, raw, shared)
        },
        (ConnectionView::Waiting { handshake_raw, login_raw, keepalive_id }, _) => while_waiting(
            handshake_raw,
            login_raw,
            keepalive_id,
            shared,
            event,
        ),
        (
            ConnectionView::Connecting { handshake_raw, login_raw },
            EventView::Dialled { connected },
        ) => if connected {
            Step {
                connection: ConnectionView::Forwarding,
                shared,
                effects: EffectsView {
                    to_server: Some(handshake_raw + login_raw),
                    ..EffectsView::none()
                },
            }
        } else {
            close_session(shared, None, Err(ProxyError::TargetUnreachable))
        },
        (ConnectionView::Forwarding, EventView::StreamsEnded { cleanly }) => close_session(
            shared,
            None,
            if cleanly {
                Ok(())
            } else {
                Err(ProxyError::StreamFailed)
            },
        ),
        _ => stay(connection, shared),
    }
}

/// The connection belongs to a session.
pub open spec fn in_session(connection: ConnectionView) -> bool {
    connection is Waiting || connection is Connecting || connection is Forwarding
}

/// The connection is closed over an error.
pub open spec fn give_up(
    connection: ConnectionView,
    shared: SharedView,
    error: ProxyError,
) -> Step {
    if in_session(connection) {
        close_session(shared, None, Err(error))
    } else {
        close(shared, Err(error))
    }
}

fn closed(outcome: Result<(), ProxyError>) -> (next: (Connection, Effects))
    ensures
        next.0@ is Closed,
        next.1@ == (EffectsView { outcome: Some(outcome), ..EffectsView::none() }),
{
    let mut effects = Effects::none();
    effects.outcome = Some(outcome);
    (Connection::Closed, effects)
}

fn closed_session(
    session: SessionGuard,
    shared: &mut SharedState,
    farewell: Option<Vec<u8>>,
    outcome: Result<(), ProxyError>,
) -> (next: (Connection, Effects))
    ensures
        close_session(
            old(shared)@,
            match farewell {
                Some(bytes) => Some(bytes@),
                None => None,
            },
            outcome,
        ) == (Step { connection: next.0@, shared: final(shared)@, effects: next.1@ }),
{
    let mut effects = Effects::none();
    effects.to_client = farewell;
    effects.idle_shutdown = session.end(shared);
    effects.outcome = Some(outcome);
    (Connection::Closed, effects)
}

/// Answers the handshake.
fn handle_handshake(packet: RawPacket, raw: Vec<u8>, shared: &SharedState) -> (next: (
    Connection,
    Effects,
))
    ensures
        after_handshake(packet@, raw@, shared@) == (Step {
            connection: next.0@,
            shared: shared@,
            effects: next.1@,
        }),
        ascii_case_ignored(
            packet@,
            raw@,
            shared@,
            Step { connection: next.0@, shared: shared@, effects: next.1@ },
        ),
{
    let handshake = match parse_handshake(packet.data.as_slice()) {
        Err(error) => return closed(Err(ProxyError::Malformed(error))),
        Ok(handshake) => handshake,
    };
    let got: String = lowercase(handshake.server_address.as_str());
    let expected: String = lowercase(shared.config.proxy.server_address.as_str());
    match route(&got, &expected, handshake.next_state) {
        Route::Ignore => closed(Ok(())),
        Route::Status => (Connection::StatusRequest, Effects::none()),
        Route::Login => (Connection::LoginStart { handshake_raw: raw }, Effects::none()),
        Route::Unknown(state) => closed(Err(ProxyError::UnknownNextState(state))),
    }
}

/// Writes the status response. The document in it reads back as the server list entry. Whoever asks
/// as the proxy asks the real server reads the version that is to be shown, where the packet is
/// short enough to be read at all.
pub fn status_response(shared: &SharedState) -> (frame: Vec<u8>)
    ensures
        frame@ == status_response_bytes(shared@),
        frame@ == packet_bytes(0, string_bytes(status_json(shared@))),
        json_document(encode_utf8(status_json(shared@))) == Some(shown_status(shared@)),
        json_document(encode_utf8(status_json(shared@))) matches Some(document) && ({
            let version = member_of(document, "version"@);
            let players = member_of(document, "players"@);
            let motd = member_of(member_of(document, "description"@), "text"@);
            let online = member_of(players, "online"@);
            &&& shared.player_count <= i32::MAX ==> online == JsonTree::Int(
                shared.player_count as int,
            )
            &&& online is Int && i32::MIN <= online->Int_0 <= i32::MAX && (shared.player_count
                - online->Int_0) % 0x1_0000_0000 == 0
            &&& member_of(players, "max"@) == JsonTree::Int(
                shared.config.status.max_players as int,
            )
            &&& member_of(players, "sample"@) == JsonTree::List(Seq::empty())
            &&& member_of(version, "protocol"@) == JsonTree::Int(shared.detected_protocol as int)
            &&& shared.detected_version matches Some(name) ==> member_of(version, "name"@)
                == JsonTree::Text(name@)
            &&& shared.detected_version is None ==> member_of(version, "name"@) == JsonTree::Text(
                shared.config.status.version_name@,
            )
            &&& shared.server is Starting ==> motd == JsonTree::Text(
                shared.config.status.online_motd@ + " §7(starting...)"@,
            )
            &&& !(shared.server is Starting) ==> motd == JsonTree::Text(
                shared.config.status.online_motd@,
            )
        }),
        1 + string_bytes(status_json(shared@)).len() <= MAX_PACKET_LEN ==> (packet_outcome(
            frame@,
        ) matches Ok((packet, used)) && used == frame@.len() && reply_document(packet) == Ok::<
            Seq<u8>,
            ProbeError,
        >(encode_utf8(status_json(shared@))) && reply_version(packet) == Ok::<
            (int, Seq<char>),
            ProbeError,
        >((shared@.protocol, shared@.shown_version()))),
{
    proof {
        law_shown_entry(shared@);
        if 1 + string_bytes(status_json(shared@)).len() <= MAX_PACKET_LEN {
            law_document_round_trip(status_json(shared@));
        }
    }
    let base: &String = &shared.config.status.online_motd;
    let mut motd: String = base.clone();
    match shared.current_state() {
        ServerState::Starting => {
            motd.append(STARTING_SUFFIX);
        },
        _ => {},
    }
    let status = StatusConfig {
        protocol_version: shared.protocol_version(),
        max_players: shared.config.status.max_players,
        online_motd: base.clone(),
        version_name: shared.version_name(),
        server_properties: None,
    };
    encode_status_response(motd.as_str(), &status, low_i32(shared.player_count() as u64))
}

/// Answers the status request.
fn handle_status_request(packet: RawPacket, shared: &SharedState) -> (next: (Connection, Effects))
    ensures
        after_status_request(packet@, shared@) == (Step {
            connection: next.0@,
            shared: shared@,
            effects: next.1@,
        }),
        packet.id == 0 ==> json_document(encode_utf8(status_json(shared@))) == Some(
            shown_status(shared@),
        ),
{
    if packet.id != 0x00 {
        return closed(Err(ProxyError::UnexpectedPacket(packet.id)));
    }
    let mut effects = Effects::none();
    effects.to_client = Some(status_response(shared));
    (Connection::Ping, effects)
}

/// Answers the ping.
fn handle_ping(packet: RawPacket, raw: Vec<u8>) -> (next: (Connection, Effects))
    ensures
        forall|shared: SharedView| #[trigger]
            after_ping(packet@, raw@, shared) == (Step {
                connection: next.0@,
                shared,
                effects: next.1@,
            }),
{
    if packet.id != 0x01 {
        return closed(Err(ProxyError::UnexpectedPacket(packet.id)));
    }
    let mut effects = Effects::none();
    effects.to_client = Some(raw);
    (Connection::Pong, effects)
}

/// Answers the login start.
fn handle_login(
    handshake_raw: Vec<u8>,
    packet: RawPacket,
    raw: Vec<u8>,
    shared: &mut SharedState,
) -> (next: (Connection, Effects))
    requires
        old(shared)@.players < usize::MAX,
    ensures
        after_login_start(handshake_raw@, packet@, raw@, old(shared)@) == (Step {
            connection: next.0@,
            shared: final(shared)@,
            effects: next.1@,
        }),
{
    if packet.id != 0x00 {
        return closed(Err(ProxyError::UnexpectedPacket(packet.id)));
    }
    let username: String = match parse_login_start(packet.data.as_slice()) {
        Err(error) => return closed(Err(ProxyError::Malformed(error))),
        Ok(username) => username,
    };
    let mut effects = Effects::none();
    effects.username = Some(username);
    effects.cancel_idle = shared.cancel_idle_shutdown();
    let session = shared.begin_session();
    match shared.current_state() {
        ServerState::Stopped => {
            shared.set_state(ServerState::Starting);
            effects.start_container = true;
        },
        _ => {},
    }
    match shared.current_state() {
        ServerState::Running => (
            Connection::Connecting { session, handshake_raw, login_raw: raw },
            effects,
        ),
        _ => (
            Connection::Waiting { session, handshake_raw, login_raw: raw, keepalive_id: 0 },
            effects,
        ),
    }
}

/// Deals with an event while the client waits for the server.
fn wait_for_server(
    session: SessionGuard,
    handshake_raw: Vec<u8>,
    login_raw: Vec<u8>,
    keepalive_id: i32,
    shared: &mut SharedState,
    event: Event,
) -> (next: (Connection, Effects))
    requires
        event is KeepaliveDue ==> keepalive_id < i32::MAX,
    ensures
        while_waiting(handshake_raw@, login_raw@, keepalive_id as int, old(shared)@, event@) == (
        Step { connection: next.0@, shared: final(shared)@, effects: next.1@ }),
        next.0@ is Closed && next.1@.to_client is Some ==> json_document(
            encode_utf8(json_text(disconnect_tree(START_FAILED@))),
        ) == Some(disconnect_tree(START_FAILED@)),
{
    match event {
        Event::DeadlinePassed => closed_session(
            session,
            shared,
            Some(encode_login_disconnect(START_FAILED)),
            Err(ProxyError::StartupTimeout),
        ),
        Event::Probed { reachable } => if reachable {
            shared.set_state(ServerState::Running);
            let mut effects = Effects::none();
            effects.probe_version = true;
            (Connection::Connecting { session, handshake_raw, login_raw }, effects)
        } else {
            (
                Connection::Waiting { session, handshake_raw, login_raw, keepalive_id },
                Effects::none(),
            )
        },
        Event::KeepaliveDue => {
            let mut effects = Effects::none();
            effects.to_client = Some(
                encode_login_plugin_request(keepalive_id, KEEPALIVE_CHANNEL),
            );
            (
                Connection::Waiting {
                    session,
                    handshake_raw,
                    login_raw,
                    keepalive_id: keepalive_id + 1,
                },
                effects,
            )
        },
        Event::StateChanged { state } => match state {
            ServerState::Running => (
                Connection::Connecting { session, handshake_raw, login_raw },
                Effects::none(),
            ),
            ServerState::Stopped => closed_session(
                session,
                shared,
                Some(encode_login_disconnect(START_FAILED)),
                Err(ProxyError::StartFailed),
            ),
            ServerState::Starting => (
                Connection::Waiting { session, handshake_raw, login_raw, keepalive_id },
                Effects::none(),
            ),
        },
        Event::StateLost => closed_session(session, shared, None, Err(ProxyError::StateLost)),
        _ => (
            Connection::Waiting { session, handshake_raw, login_raw, keepalive_id },
            Effects::none(),
        ),
    }
}

/// What the server is sent first: the packets of the client, as they were received.
fn forward(handshake_raw: Vec<u8>, login_raw: Vec<u8>) -> (bytes: Vec<u8>)
    ensures
        bytes@ == handshake_raw@ + login_raw@,
{
    let mut bytes: Vec<u8> = handshake_raw;
    bytes.extend_from_slice(login_raw.as_slice());
    bytes
}

impl Connection {
    /// A connection that was just accepted.
    pub fn new() -> (connection: Self)
        ensures
            connection@ is Handshake,
    {
        Connection::Handshake
    }

    /// How long to wait for the next packet, in seconds; without end where there is no number.
    pub fn read_timeout_secs(&self, shared: &SharedState) -> (secs: Option<u64>)
        ensures
            match self@ {
                ConnectionView::Handshake
                | ConnectionView::StatusRequest
                | ConnectionView::LoginStart { .. } => secs is Some && secs->0
                    == shared@.config.proxy.handshake_timeout_secs,
                _ => secs is None,
            },
    {
        match self {
            Connection::Handshake
            | Connection::StatusRequest
            | Connection::LoginStart { .. } => Some(shared.config.proxy.handshake_timeout_secs),
            _ => None,
        }
    }

    /// Takes an event. An ASCII address in a handshake may be in upper or lower case. The documents
    /// that are sent read back as what they are to say.
    pub fn step(self, shared: &mut SharedState, event: Event) -> (next: (Connection, Effects))
        requires
            self is LoginStart && event is Packet ==> old(shared)@.players < usize::MAX,
            event is KeepaliveDue ==> (self@ matches ConnectionView::Waiting { keepalive_id, .. }
                ==> keepalive_id < i32::MAX),
        ensures
            step(self@, old(shared)@, event@) == (Step {
                connection: next.0@,
                shared: final(shared)@,
                effects: next.1@,
            }),
            self@ is Handshake ==> (event@ matches EventView::Packet { packet, raw }
                ==> ascii_case_ignored(
                packet,
                raw,
                old(shared)@,
                Step { connection: next.0@, shared: final(shared)@, effects: next.1@ },
            )),
            self@ is StatusRequest && next.1@.to_client is Some ==> json_document(
                encode_utf8(status_json(old(shared)@)),
            ) == Some(shown_status(old(shared)@)),
            self@ is Waiting && next.0@ is Closed && next.1@.to_client is Some ==> json_document(
                encode_utf8(json_text(disconnect_tree(START_FAILED@))),
            ) == Some(disconnect_tree(START_FAILED@)),
    {
        match event {
            Event::ReadFailed => match self {
                Connection::Ping => closed(Ok(())),
                Connection::Pong => (Connection::Pong, Effects::none()),
                connection => connection.abandon(shared, ProxyError::ReadFailed),
            },
            Event::Written => match self {
                Connection::Pong => closed(Ok(())),
                connection => (connection, Effects::none()),
            },
            Event::WriteFailed => self.abandon(shared, ProxyError::WriteFailed),
            Event::Interrupted => self.abandon(shared, ProxyError::Interrupted),
            Event::Packet { packet, raw } => match self {
                Connection::Handshake => handle_handshake(packet, raw, shared),
                Connection::StatusRequest => handle_status_request(packet, shared),
                Connection::Ping => handle_ping(packet, raw),
                Connection::LoginStart { handshake_raw } => handle_login(
                    handshake_raw,
                    packet,
                    raw,
                    shared,
                ),
                connection => (connection, Effects::none()),
            },
            Event::Dialled { connected } => match self {
                Connection::Connecting { session, handshake_raw, login_raw } => if connected {
                    let mut effects = Effects::none();
                    effects.to_server = Some(forward(handshake_raw, login_raw));
                    (Connection::Forwarding { session }, effects)
                } else {
                    closed_session(session, shared, None, Err(ProxyError::TargetUnreachable))
                },
                connection => (connection, Effects::none()),
            },
            Event::StreamsEnded { cleanly } => match self {
                Connection::Forwarding { session } => closed_session(
                    session,
                    shared,
                    None,
                    if cleanly {
                        Ok(())
                    } else {
                        Err(ProxyError::StreamFailed)
                    },
                ),
                connection => (connection, Effects::none()),
            },
            event => match self {
                Connection::Waiting { session, handshake_raw, login_raw, keepalive_id } => {
                    wait_for_server(session, handshake_raw, login_raw, keepalive_id, shared, event)
                },
                connection => (connection, Effects::none()),
            },
        }
    }

    /// Closes the connection over an error.
    fn abandon(self, shared: &mut SharedState, error: ProxyError) -> (next: (Connection, Effects))
        ensures
            (if self@ is Closed {
                stay(self@, old(shared)@)
            } else {
                give_up(self@, old(shared)@, error)
            }) == (Step { connection: next.0@, shared: final(shared)@, effects: next.1@ }),
    {
        match self {
            Connection::Closed => (Connection::Closed, Effects::none()),
            Connection::Waiting { session, .. } => closed_session(
                session,
                shared,
                None,
                Err(error),
            ),
            Connection::Connecting { session, .. } => closed_session(
                session,
                shared,
                None,
                Err(error),
            ),
            Connection::Forwarding { session } => closed_session(
                session,
                shared,
                None,
                Err(error),
            ),
            _ => closed(Err(error)),
        }
    }
}

} // verus!
