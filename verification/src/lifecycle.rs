//! What holds over the whole life of a connection, and of many connections side by side.

use vstd::prelude::*;

use crate::docker::{RCON_TIMEOUT_SECS, STOP_GRACE_SECS};
use crate::probe::PROBE_TIMEOUT_SECS;
use crate::protocol::packet::{packet_bytes, string_bytes, PacketView};
use crate::protocol::varint::varint_bytes;
use crate::proxy::{
    in_session, route_of, start_failed_bytes, step, ConnectionView, EffectsView, EventView,
    ProxyError, Route, Step, KEEPALIVE_INTERVAL_SECS, PROBE_INTERVAL_SECS,
};
use crate::state::{IdleShutdown, ServerState, SharedView};
use crate::text::ascii_lowercase;

verus! {

/// An event, and what all connections share when it comes: other connections may have changed it
/// since the event before.
pub struct Input {
    pub shared: SharedView,
    pub event: EventView,
}

/// Where a connection stands after `inputs`.
pub open spec fn reached(connection: ConnectionView, inputs: Seq<Input>) -> ConnectionView
    decreases inputs.len(),
{
    if inputs.len() == 0 {
        connection
    } else {
        step(
            reached(connection, inputs.drop_last()),
            inputs.last().shared,
            inputs.last().event,
        ).connection
    }
}

/// What input number `i` leads to.
pub open spec fn step_at(connection: ConnectionView, inputs: Seq<Input>, i: int) -> Step {
    step(reached(connection, inputs.take(i)), inputs[i].shared, inputs[i].event)
}

/// What all connections share after the connections in `moves` each took their event, in turn.
pub open spec fn shared_after(
    shared: SharedView,
    moves: Seq<(ConnectionView, EventView)>,
) -> SharedView
    decreases moves.len(),
{
    if moves.len() == 0 {
        shared
    } else {
        step(moves.last().0, shared_after(shared, moves.drop_last()), moves.last().1).shared
    }
}

/// What move number `i` leads to.
pub open spec fn move_at(
    shared: SharedView,
    moves: Seq<(ConnectionView, EventView)>,
    i: int,
) -> Step {
    step(moves[i].0, shared_after(shared, moves.take(i)), moves[i].1)
}

/// How many of `connections` belong to a session.
pub open spec fn sessions(connections: Seq<ConnectionView>) -> int
    decreases connections.len(),
{
    if connections.len() == 0 {
        0
    } else {
        sessions(connections.drop_last()) + (if in_session(connections.last()) {
            1int
        } else {
            0
        })
    }
}

/// An address leads where another one leads that differs from it in upper and lower case alone, and
/// an address that differs in more is taken to be for another server: two ASCII addresses are the
/// same exactly when, letter by letter, they are equal or one has the capital of the other.
pub proof fn law_address_case(got: Seq<char>, expected: Seq<char>, next_state: int)
    ensures
        (route_of(ascii_lowercase(got), ascii_lowercase(expected), next_state) != Route::Ignore)
            == (got.len() == expected.len() && forall|i: int|
            #![trigger got[i]]
            0 <= i < got.len() ==> same_letter(got[i], expected[i])),
{
    let (a, b) = (ascii_lowercase(got), ascii_lowercase(expected));
    if a == b {
        assert forall|i: int| 0 <= i < got.len() implies same_letter(
            #[trigger] got[i],
            expected[i],
        ) by {
            assert(a[i] == b[i]);
        }
    } else if got.len() == expected.len() && forall|i: int|
        #![trigger got[i]]
        0 <= i < got.len() ==> same_letter(got[i], expected[i]) {
        assert forall|i: int| 0 <= i < a.len() implies a[i] == b[i] by {
            assert(same_letter(got[i], expected[i]));
        }
        assert(a =~= b);
    }
}

/// `a` and `b` are the same character, or one is a letter `A` to `Z` and the other the small letter.
pub open spec fn same_letter(a: char, b: char) -> bool {
    ||| a == b
    ||| 'A' <= a <= 'Z' && b as int == a as int + 32
    ||| 'A' <= b <= 'Z' && a as int == b as int + 32
}

/// A starting server is dialled every 2 seconds and a waiting client hears of the proxy every 10; a
/// server has 8 seconds to answer a probe, 10 to take the request to stop, and 30 to exit then.
pub proof fn law_times()
    ensures
        PROBE_INTERVAL_SECS == 2,
        KEEPALIVE_INTERVAL_SECS == 10,
        PROBE_TIMEOUT_SECS == 8,
        RCON_TIMEOUT_SECS == 10,
        STOP_GRACE_SECS == 30,
{
}

/// A connection that asked for the status.
spec fn status_only(connection: ConnectionView) -> bool {
    connection is StatusRequest || connection is Ping || connection is Pong || connection is Closed
}

proof fn lemma_status_only(inputs: Seq<Input>)
    ensures
        status_only(reached(ConnectionView::StatusRequest, inputs)),
    decreases inputs.len(),
{
    if inputs.len() > 0 {
        lemma_status_only(inputs.drop_last());
    }
}

/// Asking for the status never wakes the server. A connection that announced a status request
/// changes nothing that others see, starts no container and schedules or cancels no shutdown,
/// whatever happens to it.
pub proof fn law_status_never_wakes(inputs: Seq<Input>, i: int)
    requires
        0 <= i < inputs.len(),
    ensures
        ({
            let next = step_at(ConnectionView::StatusRequest, inputs, i);
            &&& next.shared == inputs[i].shared
            &&& !next.effects.start_container
            &&& !next.effects.cancel_idle
            &&& next.effects.idle_shutdown is None
            &&& next.effects.to_server is None
        }),
{
    lemma_status_only(inputs.take(i));
}

/// The container is started for a login start packet alone, when the server is stopped; from then
/// on the server counts as starting.
pub proof fn law_start_needs_login(
    connection: ConnectionView,
    shared: SharedView,
    event: EventView,
)
    requires
        step(connection, shared, event).effects.start_container,
    ensures
        connection is LoginStart,
        event is Packet,
        shared.server is Stopped,
        step(connection, shared, event).shared.server is Starting,
        in_session(step(connection, shared, event).connection),
{
}

proof fn lemma_stays_up(shared: SharedView, moves: Seq<(ConnectionView, EventView)>, i: int)
    requires
        0 <= i <= moves.len(),
        !(shared_after(shared, moves.take(i)).server is Stopped),
    ensures
        !(shared_after(shared, moves).server is Stopped),
    decreases moves.len() - i,
{
    if i == moves.len() {
        assert(moves.take(i) =~= moves);
    } else {
        assert(moves.take(i + 1).drop_last() =~= moves.take(i));
        assert(moves.take(i + 1).last() == moves[i]);
        lemma_stays_up(shared, moves, i + 1);
    }
}

/// However many players log in while the server is stopped or starting, the container is started
/// once.
pub proof fn law_started_once(
    shared: SharedView,
    moves: Seq<(ConnectionView, EventView)>,
    i: int,
    j: int,
)
    requires
        0 <= i < j < moves.len(),
        move_at(shared, moves, i).effects.start_container,
    ensures
        !move_at(shared, moves, j).effects.start_container,
{
    law_start_needs_login(moves[i].0, shared_after(shared, moves.take(i)), moves[i].1);
    let before = moves.take(j);
    assert(before.take(i + 1).drop_last() =~= moves.take(i));
    assert(before.take(i + 1).last() == moves[i]);
    lemma_stays_up(shared, before, i + 1);
}

proof fn lemma_sessions_update(
    connections: Seq<ConnectionView>,
    who: int,
    connection: ConnectionView,
)
    requires
        0 <= who < connections.len(),
    ensures
        sessions(connections.update(who, connection)) == sessions(connections) - (if in_session(
            connections[who],
        ) {
            1int
        } else {
            0
        }) + (if in_session(connection) {
            1int
        } else {
            0
        }),
    decreases connections.len(),
{
    let updated = connections.update(who, connection);
    if who == connections.len() - 1 {
        assert(updated.drop_last() =~= connections.drop_last());
    } else {
        lemma_sessions_update(connections.drop_last(), who, connection);
        assert(updated.drop_last() =~= connections.drop_last().update(who, connection));
    }
}

proof fn lemma_sessions_bounds(connections: Seq<ConnectionView>, who: int)
    requires
        0 <= who < connections.len(),
    ensures
        sessions(connections) >= (if in_session(connections[who]) {
            1int
        } else {
            0
        }),
    decreases connections.len(),
{
    if who < connections.len() - 1 {
        lemma_sessions_bounds(connections.drop_last(), who);
    } else if connections.len() > 1 {
        lemma_sessions_bounds(connections.drop_last(), 0);
    } else {
        assert(sessions(connections.drop_last()) == 0);
    }
}

/// The number of players is the number of connections in a session, whichever connection takes
/// whichever event: a player who leaves while the server starts is not counted any longer.
pub proof fn law_players_are_sessions(
    connections: Seq<ConnectionView>,
    who: int,
    shared: SharedView,
    event: EventView,
)
    requires
        0 <= who < connections.len(),
        shared.players == sessions(connections),
    ensures
        ({
            let next = step(connections[who], shared, event);
            next.shared.players == sessions(connections.update(who, next.connection))
        }),
{
    lemma_sessions_bounds(connections, who);
    lemma_sessions_update(connections, who, step(connections[who], shared, event).connection);
}

/// When the last session ends, whichever way it ends, an idle shutdown is scheduled, and nothing
/// else schedules one.
pub proof fn law_last_session_arms_shutdown(
    connections: Seq<ConnectionView>,
    who: int,
    shared: SharedView,
    event: EventView,
)
    requires
        0 <= who < connections.len(),
        shared.players == sessions(connections),
    ensures
        ({
            let next = step(connections[who], shared, event);
            let left = sessions(connections.update(who, next.connection));
            &&& next.effects.idle_shutdown is Some <==> sessions(connections) > 0 && left == 0
            &&& next.effects.idle_shutdown is Some ==> next.shared.idle_timer
                && next.effects.idle_shutdown->0 == (IdleShutdown {
                replaces: shared.idle_timer,
                secs: shared.config.docker.idle_shutdown_secs as u64,
            })
        }),
{
    lemma_sessions_bounds(connections, who);
    lemma_sessions_update(connections, who, step(connections[who], shared, event).connection);
}

/// As long as somebody is there, or an idle shutdown has been scheduled and not been cancelled
/// since, that stays so, whatever happens to a connection.
pub proof fn law_never_left_running(
    connection: ConnectionView,
    shared: SharedView,
    event: EventView,
)
    requires
        shared.players >= 0,
        shared.players > 0 || shared.idle_timer,
    ensures
        step(connection, shared, event).shared.players > 0 || step(
            connection,
            shared,
            event,
        ).shared.idle_timer,
{
}

/// `first` came as the handshake and `second`, later, as the login start of a connection.
pub open spec fn came_in_turn(inputs: Seq<Input>, first: Seq<u8>, second: Seq<u8>) -> bool {
    exists|i: int, j: int| received_in_turn(inputs, i, first, j, second)
}

/// The packet of input number `i` was the handshake `first`, and that of input number `j` the login
/// start `second`.
pub open spec fn received_in_turn(
    inputs: Seq<Input>,
    i: int,
    first: Seq<u8>,
    j: int,
    second: Seq<u8>,
) -> bool {
    &&& handshake_at(inputs, i, first)
    &&& i < j < inputs.len()
    &&& is_packet(inputs[j].event, second)
    &&& reached(ConnectionView::Handshake, inputs.take(j)) is LoginStart
}

/// The packet of input number `i` was the handshake `raw`.
pub open spec fn handshake_at(inputs: Seq<Input>, i: int, raw: Seq<u8>) -> bool {
    &&& 0 <= i < inputs.len()
    &&& is_packet(inputs[i].event, raw)
    &&& reached(ConnectionView::Handshake, inputs.take(i)) is Handshake
}

/// A packet with the frame `raw` came.
pub open spec fn is_packet(event: EventView, raw: Seq<u8>) -> bool {
    event matches EventView::Packet { raw: received, .. } && received == raw
}

/// The packets that a connection holds on to: the handshake, and the login start once it came.
pub open spec fn held(connection: ConnectionView) -> (Option<Seq<u8>>, Option<Seq<u8>>) {
    match connection {
        ConnectionView::LoginStart { handshake_raw } => (Some(handshake_raw), None),
        ConnectionView::Waiting { handshake_raw, login_raw, .. } => (
            Some(handshake_raw),
            Some(login_raw),
        ),
        ConnectionView::Connecting { handshake_raw, login_raw } => (
            Some(handshake_raw),
            Some(login_raw),
        ),
        _ => (None, None),
    }
}

/// A step holds on to what was held, takes up the packet that just came, or lets go of both.
proof fn lemma_held_by_step(connection: ConnectionView, shared: SharedView, event: EventView)
    ensures
        ({
            let next = step(connection, shared, event);
            let (first, second) = held(next.connection);
            ||| first is None && second is None
            ||| (first, second) == held(connection)
            ||| second is None && first is Some && connection is Handshake && is_packet(
                event,
                first->0,
            )
            ||| first is Some && second is Some && connection is LoginStart && held(connection)
                == (first, None::<Seq<u8>>) && is_packet(event, second->0)
        }),
        step(connection, shared, event).effects.to_server matches Some(sent) ==> (held(
            connection,
        ) matches (Some(first), Some(second)) && sent == first + second),
        held(connection).0 is Some && held(connection).1 is None ==> connection is LoginStart,
{
}

/// Where the packets that a connection holds came from.
spec fn held_as_received(inputs: Seq<Input>, packets: (Option<Seq<u8>>, Option<Seq<u8>>)) -> bool {
    match packets {
        (Some(first), None) => exists|i: int| handshake_at(inputs, i, first),
        (Some(first), Some(second)) => came_in_turn(inputs, first, second),
        _ => true,
    }
}

proof fn lemma_held_extends(inputs: Seq<Input>, packets: (Option<Seq<u8>>, Option<Seq<u8>>))
    requires
        inputs.len() > 0,
        held_as_received(inputs.drop_last(), packets),
    ensures
        held_as_received(inputs, packets),
{
    let before = inputs.drop_last();
    match packets {
        (Some(first), None) => {
            let i = choose|i: int| handshake_at(before, i, first);
            assert(before.take(i) =~= inputs.take(i));
            assert(handshake_at(inputs, i, first));
        },
        (Some(first), Some(second)) => {
            let (i, j) = choose|i: int, j: int| received_in_turn(before, i, first, j, second);
            assert(before.take(i) =~= inputs.take(i));
            assert(before.take(j) =~= inputs.take(j));
            assert(handshake_at(inputs, i, first));
            assert(received_in_turn(inputs, i, first, j, second));
        },
        _ => {},
    }
}

proof fn lemma_held_as_received(inputs: Seq<Input>)
    ensures
        held_as_received(inputs, held(reached(ConnectionView::Handshake, inputs))),
    decreases inputs.len(),
{
    if inputs.len() > 0 {
        let before = inputs.drop_last();
        let last = inputs.len() - 1;
        let from = reached(ConnectionView::Handshake, before);
        let to = held(reached(ConnectionView::Handshake, inputs));
        lemma_held_as_received(before);
        lemma_held_by_step(from, inputs.last().shared, inputs.last().event);
        assert(inputs.take(last) =~= before);
        if to == held(from) {
            lemma_held_extends(inputs, to);
        } else if to.0 is Some && to.1 is None {
            assert(handshake_at(inputs, last, to.0->0));
        } else if to.0 is Some && to.1 is Some {
            let i = choose|i: int| handshake_at(before, i, to.0->0);
            assert(before.take(i) =~= inputs.take(i));
            assert(handshake_at(inputs, i, to.0->0));
            assert(received_in_turn(inputs, i, to.0->0, last, to.1->0));
        }
    }
}

/// What the server is sent first is the handshake and the login start, byte for byte as the client
/// sent them, however long the client had to wait in between.
pub proof fn law_forwards_as_received(inputs: Seq<Input>, n: int)
    requires
        0 <= n < inputs.len(),
        step_at(ConnectionView::Handshake, inputs, n).effects.to_server is Some,
    ensures
        exists|first: Seq<u8>, second: Seq<u8>| #[trigger]
            came_in_turn(inputs.take(n), first, second) && step_at(
                ConnectionView::Handshake,
                inputs,
                n,
            ).effects.to_server == Some(first + second),
{
    let before = inputs.take(n);
    let from = reached(ConnectionView::Handshake, before);
    lemma_held_as_received(before);
    lemma_held_by_step(from, inputs[n].shared, inputs[n].event);
    assert(came_in_turn(before, held(from).0->0, held(from).1->0));
}

/// A player whose server does not come up is told so and let go, at once when the start fails and
/// in any case when the time is up.
pub proof fn law_failed_start_is_told(
    connection: ConnectionView,
    shared: SharedView,
    event: EventView,
)
    requires
        connection is Waiting,
        event is DeadlinePassed || event == (EventView::StateChanged {
            state: ServerState::Stopped,
        }),
    ensures
        ({
            let next = step(connection, shared, event);
            &&& next.connection is Closed
            &&& next.effects.to_client == Some(start_failed_bytes())
            &&& next.effects.outcome matches Some(Err(_))
            &&& next.effects.to_server is None
        }),
{
}

/// A waiting client is let through as soon as the server is up, and holds its place, and what it
/// sent, until then: only the end of the wait, in one of the ways that there are, changes that.
pub proof fn law_waits_until_up(connection: ConnectionView, shared: SharedView, event: EventView)
    requires
        connection is Waiting,
    ensures
        ({
            let next = step(connection, shared, event);
            let up = event == (EventView::Probed { reachable: true }) || event == (
            EventView::StateChanged { state: ServerState::Running });
            let over = event is ReadFailed || event is WriteFailed || event is Interrupted
                || event is DeadlinePassed || event is StateLost || event == (
            EventView::StateChanged { state: ServerState::Stopped });
            &&& next.connection is Connecting <==> up
            &&& next.connection is Closed <==> over
            &&& next.connection is Waiting <==> !up && !over
            &&& !over ==> held(next.connection) == held(connection)
        }),
{
}

/// How many of `inputs` call for a keepalive.
pub open spec fn keepalives(inputs: Seq<Input>) -> int
    decreases inputs.len(),
{
    if inputs.len() == 0 {
        0
    } else {
        keepalives(inputs.drop_last()) + (if inputs.last().event is KeepaliveDue {
            1int
        } else {
            0
        })
    }
}

/// The keepalives of a client that has to wait are numbered from 0 without a gap, whatever happens
/// in between.
pub proof fn law_keepalives_numbered(
    handshake_raw: Seq<u8>,
    login_raw: Seq<u8>,
    inputs: Seq<Input>,
    shared: SharedView,
)
    ensures
        ({
            let start = ConnectionView::Waiting { handshake_raw, login_raw, keepalive_id: 0 };
            let now = reached(start, inputs);
            now is Waiting ==> step(now, shared, EventView::KeepaliveDue).effects.to_client == Some(
                packet_bytes(
                    4,
                    varint_bytes(keepalives(inputs)) + string_bytes("redoxide:keepalive"@),
                ),
            )
        }),
{
    lemma_keepalives_counted(handshake_raw, login_raw, inputs);
}

proof fn lemma_keepalives_counted(
    handshake_raw: Seq<u8>,
    login_raw: Seq<u8>,
    inputs: Seq<Input>,
)
    ensures
        reached(
            ConnectionView::Waiting { handshake_raw, login_raw, keepalive_id: 0 },
            inputs,
        ) matches ConnectionView::Waiting { keepalive_id, .. } ==> keepalive_id == keepalives(
            inputs,
        ),
    decreases inputs.len(),
{
    if inputs.len() > 0 {
        let start = ConnectionView::Waiting { handshake_raw, login_raw, keepalive_id: 0 };
        lemma_keepalives_counted(handshake_raw, login_raw, inputs.drop_last());
        lemma_waiting_comes_from(
            reached(start, inputs.drop_last()),
            inputs.last().shared,
            inputs.last().event,
        );
        lemma_never_back(start, inputs.drop_last());
    }
}

/// Only a login start leads to waiting, and a session goes on or ends for good.
proof fn lemma_waiting_comes_from(connection: ConnectionView, shared: SharedView, event: EventView)
    ensures
        step(connection, shared, event).connection is Waiting ==> connection is Waiting
            || connection is LoginStart,
        in_session(connection) || connection is Closed ==> in_session(
            step(connection, shared, event).connection,
        ) || step(connection, shared, event).connection is Closed,
{
}

proof fn lemma_never_back(connection: ConnectionView, inputs: Seq<Input>)
    requires
        in_session(connection),
    ensures
        in_session(reached(connection, inputs)) || reached(connection, inputs) is Closed,
    decreases inputs.len(),
{
    if inputs.len() > 0 {
        lemma_never_back(connection, inputs.drop_last());
        lemma_waiting_comes_from(
            reached(connection, inputs.drop_last()),
            inputs.last().shared,
            inputs.last().event,
        );
    }
}

/// What a client sends while it waits goes nowhere: not to the server, and not back.
pub proof fn law_waiting_drops_packets(
    connection: ConnectionView,
    shared: SharedView,
    packet: PacketView,
    raw: Seq<u8>,
)
    requires
        connection is Waiting,
    ensures
        step(connection, shared, EventView::Packet { packet, raw }) == (Step {
            connection,
            shared,
            effects: EffectsView::none(),
        }),
{
}

/// A ping is sent back as it came. The connection then stays open until the answer is written, and
/// ends in good order; where the answer cannot be written, it ends with that error.
pub proof fn law_ping_is_answered(
    packet: PacketView,
    raw: Seq<u8>,
    shared: SharedView,
    later: SharedView,
    event: EventView,
)
    requires
        packet.id == 1,
    ensures
        ({
            let answered = step(
                ConnectionView::Ping,
                shared,
                EventView::Packet { packet, raw },
            );
            let next = step(answered.connection, later, event);
            &&& answered.effects == (EffectsView { to_client: Some(raw), ..EffectsView::none() })
            &&& next.effects.outcome == (match event {
                EventView::Written => Some(Ok(())),
                EventView::WriteFailed => Some(Err(ProxyError::WriteFailed)),
                EventView::Interrupted => Some(Err(ProxyError::Interrupted)),
                _ => None,
            })
            &&& next.connection is Closed <==> next.effects.outcome is Some
            &&& next.effects.to_client is None
        }),
{
}

/// A connection is reported closed exactly when it closes, and a closed one does nothing more.
pub proof fn law_closed_once(connection: ConnectionView, shared: SharedView, event: EventView)
    ensures
        ({
            let next = step(connection, shared, event);
            &&& next.effects.outcome is Some <==> next.connection is Closed && !(
            connection is Closed)
            &&& connection is Closed ==> next == (Step {
                connection,
                shared,
                effects: EffectsView::none(),
            })
        }),
{
}

/// A connection says that the server runs when it reached the server, and that it starts when it
/// has it started; that the server has stopped, no connection says.
pub proof fn law_server_state_changes(
    connection: ConnectionView,
    shared: SharedView,
    event: EventView,
)
    ensures
        ({
            let next = step(connection, shared, event);
            next.shared.server == (if next.effects.start_container {
                ServerState::Starting
            } else if connection is Waiting && event == (EventView::Probed { reachable: true }) {
                ServerState::Running
            } else {
                shared.server
            })
        }),
{
}

} // verus!
