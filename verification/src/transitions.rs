//! What each event does to a connection, one law for each.

use vstd::prelude::*;
use vstd::utf8::encode_utf8;

use crate::config::StatusView;
use crate::json::{json_text, member_of, JsonTree};
use crate::protocol::error::ProtocolError;
use crate::protocol::handshake::{handshake_outcome, HandshakeView};
use crate::protocol::packet::{
    law_string_round_trip, packet_bytes, string_bytes, string_outcome, PacketView, MAX_STRING_LEN,
};
use crate::protocol::varint::{law_signed32, signed32, varint_bytes};
use crate::proxy::{
    route_of, shown_motd, shown_status, status_json, step, Connection, ConnectionView, Effects,
    EffectsView, Event, EventView, ProxyError, Route, Step,
};
use crate::state::{IdleShutdown, ServerState, SharedView};
use crate::status::{disconnect_tree, law_status_entry};
use crate::text::lowercase_text;

verus! {

/// The effects of a step that asks for nothing.
pub proof fn law_nothing_to_do()
    ensures
        ({
            let none = EffectsView::none();
            &&& none.to_client is None && none.to_server is None && none.username is None
            &&& !none.cancel_idle && !none.start_container && !none.probe_version
            &&& none.idle_shutdown is None && none.outcome is None
        }),
{
}

/// A handshake that cannot be read closes the connection over that error.
pub proof fn law_malformed_handshake(
    packet: PacketView,
    raw: Seq<u8>,
    shared: SharedView,
    error: ProtocolError,
)
    requires
        handshake_outcome(packet.data) == Err::<HandshakeView, ProtocolError>(error),
    ensures
        step(ConnectionView::Handshake, shared, EventView::Packet { packet, raw }) == (Step {
            connection: ConnectionView::Closed,
            shared,
            effects: EffectsView {
                outcome: Some(Err(ProxyError::Malformed(error))),
                ..EffectsView::none()
            },
        }),
{
}

/// A handshake leads where it asks to be led, whatever the state of the server and whatever number
/// the packet has: 1 to the status, 2 to a login, and anything else to an error. One for another
/// address is dropped without an answer. Nothing that others see changes.
pub proof fn law_handshake_leads(
    packet: PacketView,
    raw: Seq<u8>,
    shared: SharedView,
    handshake: HandshakeView,
)
    requires
        handshake_outcome(packet.data) == Ok::<HandshakeView, ProtocolError>(handshake),
    ensures
        ({
            let next = step(ConnectionView::Handshake, shared, EventView::Packet { packet, raw });
            let known = lowercase_text(handshake.server_address) == lowercase_text(
                shared.config.proxy.server_address,
            );
            let wanted = handshake.next_state;
            &&& next.shared == shared
            &&& !known ==> next.connection is Closed && next.effects == (EffectsView {
                outcome: Some(Ok(())),
                ..EffectsView::none()
            })
            &&& known && wanted == 1 ==> next.connection is StatusRequest && next.effects
                == EffectsView::none()
            &&& known && wanted == 2 ==> next.connection == (ConnectionView::LoginStart {
                handshake_raw: raw,
            }) && next.effects == EffectsView::none()
            &&& known && wanted != 1 && wanted != 2 ==> next.connection is Closed && next.effects
                == (EffectsView {
                outcome: Some(Err(ProxyError::UnknownNextState(wanted as i32))),
                ..EffectsView::none()
            })
        }),
{
}

/// A packet of another number than the one that is due closes the connection, and nothing that
/// others see changes: a status request and a login start have the number 0, a ping has 1.
pub proof fn law_unexpected_packet(
    connection: ConnectionView,
    packet: PacketView,
    raw: Seq<u8>,
    shared: SharedView,
)
    requires
        connection is StatusRequest && packet.id != 0 || connection is Ping && packet.id != 1
            || connection is LoginStart && packet.id != 0,
    ensures
        step(connection, shared, EventView::Packet { packet, raw }) == (Step {
            connection: ConnectionView::Closed,
            shared,
            effects: EffectsView {
                outcome: Some(Err(ProxyError::UnexpectedPacket(packet.id as i32))),
                ..EffectsView::none()
            },
        }),
{
}

/// A status request is answered with the server list entry, in a packet of number 0, whatever the
/// state of the server, and the ping is awaited.
pub proof fn law_status_is_sent(packet: PacketView, raw: Seq<u8>, shared: SharedView)
    requires
        packet.id == 0,
    ensures
        step(ConnectionView::StatusRequest, shared, EventView::Packet { packet, raw }) == (Step {
            connection: ConnectionView::Ping,
            shared,
            effects: EffectsView {
                to_client: Some(packet_bytes(0, string_bytes(status_json(shared)))),
                ..EffectsView::none()
            },
        }),
        status_json(shared) == json_text(shown_status(shared)),
{
}

/// The server list entry shows how many players there are, the player limit in the settings, no
/// sample of players, the version that is known, and the message of the day, which says so while the
/// server starts. The number of players is shown as an `i32` with the same low bits.
pub proof fn law_shown_entry(shared: SharedView)
    ensures
        ({
            let entry = shown_status(shared);
            let version = member_of(entry, "version"@);
            let players = member_of(entry, "players"@);
            let motd = member_of(member_of(entry, "description"@), "text"@);
            let online = member_of(players, "online"@);
            &&& online is Int && i32::MIN <= online->Int_0 <= i32::MAX
            &&& (shared.players - online->Int_0) % 0x1_0000_0000 == 0
            &&& 0 <= shared.players <= i32::MAX ==> online == JsonTree::Int(shared.players)
            &&& member_of(players, "max"@) == JsonTree::Int(shared.config.status.max_players)
            &&& member_of(players, "sample"@) == JsonTree::List(Seq::empty())
            &&& member_of(version, "protocol"@) == JsonTree::Int(shared.protocol)
            &&& shared.version matches Some(name) ==> member_of(version, "name"@)
                == JsonTree::Text(name)
            &&& shared.version is None ==> member_of(version, "name"@) == JsonTree::Text(
                shared.config.status.version_name,
            )
            &&& shared.server is Starting ==> motd == JsonTree::Text(
                shared.config.status.online_motd + " §7(starting...)"@,
            )
            &&& !(shared.server is Starting) ==> motd == JsonTree::Text(
                shared.config.status.online_motd,
            )
            &&& entry is Object && entry->Object_0.dom() == set![
                "version"@,
                "players"@,
                "description"@,
            ]
        }),
{
    law_signed32(shared.players);
    law_status_entry(
        shown_motd(shared),
        StatusView {
            protocol_version: shared.protocol,
            version_name: shared.shown_version(),
            ..shared.config.status
        },
        signed32(shared.players),
    );
}

/// A client that goes after the status, without a ping, is done in good order.
pub proof fn law_ping_may_be_left_out(shared: SharedView)
    ensures
        step(ConnectionView::Ping, shared, EventView::ReadFailed) == (Step {
            connection: ConnectionView::Closed,
            shared,
            effects: EffectsView { outcome: Some(Ok(())), ..EffectsView::none() },
        }),
{
}

/// A login start with a readable name begins a session. It starts the container exactly when the
/// server is stopped, whatever else is the case, and the server then counts as starting. It takes
/// back an idle shutdown that was scheduled. The player goes through to a server that runs and waits
/// for one that does not, and both packets are kept as they came.
pub proof fn law_login_is_admitted(
    handshake_raw: Seq<u8>,
    packet: PacketView,
    raw: Seq<u8>,
    shared: SharedView,
    username: Seq<char>,
)
    requires
        packet.id == 0,
        string_outcome(packet.data) matches Ok((name, _)) && name == username,
    ensures
        ({
            let next = step(
                ConnectionView::LoginStart { handshake_raw },
                shared,
                EventView::Packet { packet, raw },
            );
            &&& next.effects.start_container <==> shared.server is Stopped
            &&& shared.server is Stopped ==> next.shared.server is Starting
            &&& !(shared.server is Stopped) ==> next.shared.server == shared.server
            &&& next.shared.players == shared.players + 1
            &&& !next.shared.idle_timer
            &&& next.effects.cancel_idle == shared.idle_timer
            &&& next.shared.config == shared.config
            &&& next.shared.protocol == shared.protocol && next.shared.version == shared.version
            &&& next.effects.username == Some(username)
            &&& shared.server is Running ==> next.connection == (ConnectionView::Connecting {
                handshake_raw,
                login_raw: raw,
            })
            &&& !(shared.server is Running) ==> next.connection == (ConnectionView::Waiting {
                handshake_raw,
                login_raw: raw,
                keepalive_id: 0,
            })
            &&& next.effects.to_client is None && next.effects.to_server is None
            &&& !next.effects.probe_version
            &&& next.effects.idle_shutdown is None && next.effects.outcome is None
        }),
{
}

/// Whoever logs in with a name, whatever follows it in the packet, wakes a server that is stopped.
pub proof fn law_login_wakes_server(
    handshake_raw: Seq<u8>,
    username: Seq<char>,
    tail: Seq<u8>,
    raw: Seq<u8>,
    shared: SharedView,
)
    requires
        encode_utf8(username).len() <= MAX_STRING_LEN,
        shared.server is Stopped,
    ensures
        ({
            let packet = PacketView { id: 0, data: string_bytes(username) + tail };
            let next = step(
                ConnectionView::LoginStart { handshake_raw },
                shared,
                EventView::Packet { packet, raw },
            );
            &&& next.effects.start_container
            &&& next.shared.server is Starting
            &&& next.connection is Waiting
            &&& next.effects.username == Some(username)
        }),
{
    law_string_round_trip(username, tail);
}

/// A login start without a readable name closes the connection over that error, begins no session
/// and wakes no server.
pub proof fn law_malformed_login(
    handshake_raw: Seq<u8>,
    packet: PacketView,
    raw: Seq<u8>,
    shared: SharedView,
    error: ProtocolError,
)
    requires
        packet.id == 0,
        string_outcome(packet.data) == Err::<(Seq<char>, int), ProtocolError>(error),
    ensures
        step(
            ConnectionView::LoginStart { handshake_raw },
            shared,
            EventView::Packet { packet, raw },
        ) == (Step {
            connection: ConnectionView::Closed,
            shared,
            effects: EffectsView {
                outcome: Some(Err(ProxyError::Malformed(error))),
                ..EffectsView::none()
            },
        }),
{
}

/// The connection that ends with `next` gives its place back: one player less, if there is one; the
/// last one leaves an idle shutdown behind, after the time in the settings. It sends `farewell`.
pub open spec fn leaves(
    shared: SharedView,
    farewell: Option<Seq<u8>>,
    outcome: Result<(), ProxyError>,
    next: Step,
) -> bool {
    &&& next.connection is Closed
    &&& next.shared == (SharedView {
        players: if shared.players > 0 {
            shared.players - 1
        } else {
            0
        },
        idle_timer: shared.players <= 1 || shared.idle_timer,
        ..shared
    })
    &&& next.effects == (EffectsView {
        to_client: farewell,
        idle_shutdown: if shared.players <= 1 {
            Some(
                IdleShutdown {
                    replaces: shared.idle_timer,
                    secs: shared.config.docker.idle_shutdown_secs as u64,
                },
            )
        } else {
            None
        },
        outcome: Some(outcome),
        ..EffectsView::none()
    })
}

/// The server is asked for its version each time a waiting connection finds it up, whatever version
/// is known, and at no other time.
pub proof fn law_version_is_asked(
    connection: ConnectionView,
    shared: SharedView,
    event: EventView,
)
    ensures
        step(connection, shared, event).effects.probe_version <==> connection is Waiting && event
            == (EventView::Probed { reachable: true }),
{
}

/// A waiting client is let through, with the packets that it sent, once the server answers, and the
/// server then counts as running; and once it is said to run, which changes nothing. Nothing is sent
/// then.
pub proof fn law_waiting_ends_well(
    handshake_raw: Seq<u8>,
    login_raw: Seq<u8>,
    keepalive_id: int,
    shared: SharedView,
)
    ensures
        ({
            let waiting = ConnectionView::Waiting { handshake_raw, login_raw, keepalive_id };
            let connecting = ConnectionView::Connecting { handshake_raw, login_raw };
            &&& step(waiting, shared, EventView::Probed { reachable: true }) == (Step {
                connection: connecting,
                shared: SharedView { server: ServerState::Running, ..shared },
                effects: EffectsView { probe_version: true, ..EffectsView::none() },
            })
            &&& step(waiting, shared, EventView::StateChanged { state: ServerState::Running }) == (
            Step { connection: connecting, shared, effects: EffectsView::none() })
        }),
{
}

/// A waiting client is sent a keepalive when one is due: a packet of number 4 with the number of the
/// keepalive and the name of its channel. The next one has the next number.
pub proof fn law_keepalive_is_sent(
    handshake_raw: Seq<u8>,
    login_raw: Seq<u8>,
    keepalive_id: int,
    shared: SharedView,
)
    ensures
        step(
            ConnectionView::Waiting { handshake_raw, login_raw, keepalive_id },
            shared,
            EventView::KeepaliveDue,
        ) == (Step {
            connection: ConnectionView::Waiting {
                handshake_raw,
                login_raw,
                keepalive_id: keepalive_id + 1,
            },
            shared,
            effects: EffectsView {
                to_client: Some(
                    packet_bytes(
                        4,
                        varint_bytes(keepalive_id) + string_bytes("redoxide:keepalive"@),
                    ),
                ),
                ..EffectsView::none()
            },
        }),
{
}

/// A client waits in vain when the time is up, the start failed or the state cannot be followed any
/// more. In the first two it is told that the server did not start.
pub proof fn law_waiting_ends_badly(
    handshake_raw: Seq<u8>,
    login_raw: Seq<u8>,
    keepalive_id: int,
    shared: SharedView,
)
    ensures
        ({
            let waiting = ConnectionView::Waiting { handshake_raw, login_raw, keepalive_id };
            let told = packet_bytes(
                0,
                string_bytes(
                    json_text(disconnect_tree("Server failed to start. Contact admin."@)),
                ),
            );
            &&& leaves(
                shared,
                Some(told),
                Err(ProxyError::StartupTimeout),
                step(waiting, shared, EventView::DeadlinePassed),
            )
            &&& leaves(
                shared,
                Some(told),
                Err(ProxyError::StartFailed),
                step(waiting, shared, EventView::StateChanged { state: ServerState::Stopped }),
            )
            &&& leaves(
                shared,
                None,
                Err(ProxyError::StateLost),
                step(waiting, shared, EventView::StateLost),
            )
        }),
{
}

/// A server that was dialled is sent the handshake and the login start, one after the other. One
/// that cannot be dialled ends the session.
pub proof fn law_dialled(handshake_raw: Seq<u8>, login_raw: Seq<u8>, shared: SharedView)
    ensures
        ({
            let connecting = ConnectionView::Connecting { handshake_raw, login_raw };
            &&& step(connecting, shared, EventView::Dialled { connected: true }) == (Step {
                connection: ConnectionView::Forwarding,
                shared,
                effects: EffectsView {
                    to_server: Some(handshake_raw + login_raw),
                    ..EffectsView::none()
                },
            })
            &&& leaves(
                shared,
                None,
                Err(ProxyError::TargetUnreachable),
                step(connecting, shared, EventView::Dialled { connected: false }),
            )
        }),
{
}

/// When client and server have stopped talking the session ends, in good order or not.
pub proof fn law_streams_ended(shared: SharedView, cleanly: bool)
    ensures
        leaves(
            shared,
            None,
            if cleanly {
                Ok(())
            } else {
                Err(ProxyError::StreamFailed)
            },
            step(ConnectionView::Forwarding, shared, EventView::StreamsEnded { cleanly }),
        ),
{
}

/// A connection that fails closes over that failure, and ends its session where it has one; without
/// one, nothing that others see changes. The end of the client is none while the ping is awaited or
/// answered.
pub proof fn law_failures(
    connection: ConnectionView,
    shared: SharedView,
    event: EventView,
    error: ProxyError,
)
    requires
        !(connection is Closed),
        event is ReadFailed && error == ProxyError::ReadFailed && !(connection is Ping)
            && !(connection is Pong) || event is WriteFailed && error == ProxyError::WriteFailed
            || event is Interrupted && error == ProxyError::Interrupted,
    ensures
        connection is Waiting || connection is Connecting || connection is Forwarding ==> leaves(
            shared,
            None,
            Err(error),
            step(connection, shared, event),
        ),
        connection is Handshake || connection is StatusRequest || connection is Ping
            || connection is Pong || connection is LoginStart ==> step(connection, shared, event)
            == (Step {
            connection: ConnectionView::Closed,
            shared,
            effects: EffectsView { outcome: Some(Err(error)), ..EffectsView::none() },
        }),
{
}

/// Every other event changes nothing.
pub proof fn law_other_events_change_nothing(
    connection: ConnectionView,
    shared: SharedView,
    event: EventView,
)
    requires
        connection is Closed || !(event is WriteFailed || event is Interrupted),
        connection is Closed || connection is Pong || !(event is ReadFailed),
        connection is Handshake || connection is StatusRequest || connection is Ping
            || connection is LoginStart ==> !(event is Packet),
        connection is Pong ==> !(event is Written),
        connection is Waiting ==> event is Packet || event is Written || event is Dialled
            || event is StreamsEnded || event == (EventView::Probed { reachable: false }) || event
            == (EventView::StateChanged { state: ServerState::Starting }),
        connection is Connecting ==> !(event is Dialled),
        connection is Forwarding ==> !(event is StreamsEnded),
    ensures
        step(connection, shared, event) == (Step {
            connection,
            shared,
            effects: EffectsView::none(),
        }),
{
}

/// The settings and the version are nothing that a connection changes.
pub proof fn law_settings_stay(connection: ConnectionView, shared: SharedView, event: EventView)
    ensures
        step(connection, shared, event).shared.config == shared.config,
        step(connection, shared, event).shared.protocol == shared.protocol,
        step(connection, shared, event).shared.version == shared.version,
{
}

/// A handshake for another address leads nowhere, and one for this address where it asks.
pub proof fn law_routes(got: Seq<char>, expected: Seq<char>, next_state: i32)
    ensures
        got != expected ==> route_of(got, expected, next_state as int) == Route::Ignore,
        got == expected && next_state == 1 ==> route_of(got, expected, next_state as int)
            == Route::Status,
        got == expected && next_state == 2 ==> route_of(got, expected, next_state as int)
            == Route::Login,
        got == expected && next_state != 1 && next_state != 2 ==> route_of(
            got,
            expected,
            next_state as int,
        ) == Route::Unknown(next_state),
{
}

/// What the contracts say of an event is what the event holds.
pub proof fn law_event_view(event: Event)
    ensures
        match event {
            Event::Packet { packet, raw } => event@ == (EventView::Packet {
                packet: PacketView { id: packet.id as int, data: packet.data@ },
                raw: raw@,
            }),
            Event::ReadFailed => event@ is ReadFailed,
            Event::Written => event@ is Written,
            Event::WriteFailed => event@ is WriteFailed,
            Event::DeadlinePassed => event@ is DeadlinePassed,
            Event::Probed { reachable } => event@ == (EventView::Probed { reachable }),
            Event::KeepaliveDue => event@ is KeepaliveDue,
            Event::StateChanged { state } => event@ == (EventView::StateChanged { state }),
            Event::StateLost => event@ is StateLost,
            Event::Dialled { connected } => event@ == (EventView::Dialled { connected }),
            Event::StreamsEnded { cleanly } => event@ == (EventView::StreamsEnded { cleanly }),
            Event::Interrupted => event@ is Interrupted,
        },
{
}

/// What the contracts say of a connection is where it stands and what it holds.
pub proof fn law_connection_view(connection: Connection)
    ensures
        match connection {
            Connection::Handshake => connection@ is Handshake,
            Connection::StatusRequest => connection@ is StatusRequest,
            Connection::Ping => connection@ is Ping,
            Connection::Pong => connection@ is Pong,
            Connection::LoginStart { handshake_raw } => connection@ == (
            ConnectionView::LoginStart { handshake_raw: handshake_raw@ }),
            Connection::Waiting { handshake_raw, login_raw, keepalive_id, .. } => connection@ == (
            ConnectionView::Waiting {
                handshake_raw: handshake_raw@,
                login_raw: login_raw@,
                keepalive_id: keepalive_id as int,
            }),
            Connection::Connecting { handshake_raw, login_raw, .. } => connection@ == (
            ConnectionView::Connecting { handshake_raw: handshake_raw@, login_raw: login_raw@ }),
            Connection::Forwarding { .. } => connection@ is Forwarding,
            Connection::Closed => connection@ is Closed,
        },
{
}

/// What the contracts say of effects is what the effects ask for.
pub proof fn law_effects_view(effects: Effects)
    ensures
        effects@.to_client is Some <==> effects.to_client is Some,
        effects.to_client matches Some(bytes) ==> effects@.to_client == Some(bytes@),
        effects@.to_server is Some <==> effects.to_server is Some,
        effects.to_server matches Some(bytes) ==> effects@.to_server == Some(bytes@),
        effects@.username is Some <==> effects.username is Some,
        effects.username matches Some(name) ==> effects@.username == Some(name@),
        effects@.cancel_idle == effects.cancel_idle,
        effects@.start_container == effects.start_container,
        effects@.probe_version == effects.probe_version,
        effects@.idle_shutdown == effects.idle_shutdown,
        effects@.outcome == effects.outcome,
{
}

} // verus!
