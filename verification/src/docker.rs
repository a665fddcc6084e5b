//! Stopping the container: first by asking the server over RCON, then by force.

use vstd::prelude::*;
use vstd::utf8::{decode_utf8, encode_utf8, valid_utf8};

use crate::protocol::varint::{low_i32, signed32};
use crate::text::{lossy_text, string_from_utf8_lossy};

verus! {

/// The longest RCON packet that is read, after its length: a body of 4096 bytes, and the ten bytes
/// around it.
pub const MAX_RCON_PACKET_LEN: usize = 4106;

/// How many seconds the server has to exit after it was asked to.
pub const STOP_GRACE_SECS: u32 = 30;

/// How long the exchange that asks the server to stop may take, in seconds.
pub const RCON_TIMEOUT_SECS: u64 = 10;

/// The number that asks to log in.
pub const RCON_AUTH: i32 = 3;

/// The number that carries a command.
pub const RCON_COMMAND: i32 = 2;

/// What to do next to stop the container.
#[derive(Clone, Copy, Debug, PartialEq, Eq, Structural)]
pub enum StopStep {
    /// Ask the server to stop.
    AskServer,
    /// Wait a second, then see whether the container has exited. `waited` is how often that has
    /// been done.
    AwaitExit { waited: u32 },
    /// Have the container stopped.
    ForceStop,
    /// The container has stopped.
    Stopped,
    /// The container could not be stopped.
    Failed,
}

/// The first step: the server is asked where there is a way to ask it.
pub open spec fn first_step(rcon_configured: bool) -> StopStep {
    if rcon_configured {
        StopStep::AskServer
    } else {
        StopStep::ForceStop
    }
}

/// The step after `step`, by whether that one did what it was for: whether the server was asked,
/// the container has exited, or the container was stopped.
pub open spec fn step_after(step: StopStep, succeeded: bool) -> StopStep {
    match step {
        StopStep::AskServer => if succeeded {
            StopStep::AwaitExit { waited: 0 }
        } else {
            StopStep::ForceStop
        },
        StopStep::AwaitExit { waited } => if succeeded {
            StopStep::Stopped
        } else if waited + 1 < STOP_GRACE_SECS {
            StopStep::AwaitExit { waited: (waited + 1) as u32 }
        } else {
            StopStep::ForceStop
        },
        StopStep::ForceStop => if succeeded {
            StopStep::Stopped
        } else {
            StopStep::Failed
        },
        StopStep::Stopped => StopStep::Stopped,
        StopStep::Failed => StopStep::Failed,
    }
}

/// The step that `outcomes`, one for each step carried out, lead to.
pub open spec fn step_reached(rcon_configured: bool, outcomes: Seq<bool>) -> StopStep
    decreases outcomes.len(),
{
    if outcomes.len() == 0 {
        first_step(rcon_configured)
    } else {
        step_after(step_reached(rcon_configured, outcomes.drop_last()), outcomes.last())
    }
}

impl StopStep {
    pub fn first(rcon_configured: bool) -> (step: StopStep)
        ensures
            step == first_step(rcon_configured),
    {
        if rcon_configured {
            StopStep::AskServer
        } else {
            StopStep::ForceStop
        }
    }

    pub fn next(self, succeeded: bool) -> (step: StopStep)
        ensures
            step == step_after(self, succeeded),
    {
        match self {
            StopStep::AskServer => if succeeded {
                StopStep::AwaitExit { waited: 0 }
            } else {
                StopStep::ForceStop
            },
            StopStep::AwaitExit { waited } => if succeeded {
                StopStep::Stopped
            } else if waited < STOP_GRACE_SECS - 1 {
                StopStep::AwaitExit { waited: waited + 1 }
            } else {
                StopStep::ForceStop
            },
            StopStep::ForceStop => if succeeded {
                StopStep::Stopped
            } else {
                StopStep::Failed
            },
            StopStep::Stopped => StopStep::Stopped,
            StopStep::Failed => StopStep::Failed,
        }
    }
}

/// Whether a container has exited, by what is known of it. One that cannot be asked about is taken
/// to run.
pub fn has_exited(running: Option<bool>) -> (exited: bool)
    ensures
        exited == (running == Some(false)),
{
    match running {
        Some(false) => true,
        _ => false,
    }
}

/// Why an RCON exchange failed.
#[derive(Clone, Copy, Debug, PartialEq, Eq, Structural)]
pub enum RconError {
    NegativeLength(i32),
    LengthExceedsMax(usize),
    AuthenticationFailed,
}

/// The four bytes of a number, the least significant first.
#[verifier::opaque]
pub open spec fn le_bytes(n: int) -> Seq<u8> {
    let bits = n % 0x1_0000_0000;
    seq![
        (bits % 256) as u8,
        (bits / 256 % 256) as u8,
        (bits / 65536 % 256) as u8,
        (bits / 16777216) as u8,
    ]
}

/// The number that four bytes write, the least significant first.
pub open spec fn le_value(bytes: Seq<u8>) -> int {
    signed32(
        bytes[0] as int + 256 * bytes[1] as int + 65536 * bytes[2] as int + 16777216
            * bytes[3] as int,
    )
}

/// How long an RCON packet with the text `payload` is after its length.
pub open spec fn rcon_length(payload: Seq<char>) -> int {
    10 + encode_utf8(payload).len() as int
}

/// An RCON packet: its length, its two numbers, its text and two zero bytes.
pub open spec fn rcon_bytes(id: int, kind: int, payload: Seq<char>) -> Seq<u8> {
    le_bytes(rcon_length(payload)) + le_bytes(id) + le_bytes(kind) + encode_utf8(payload)
        + seq![0u8, 0u8]
}

/// How long the body of an RCON packet is, by the four bytes before it.
pub open spec fn rcon_length_outcome(prefix: Seq<u8>) -> Result<int, RconError> {
    let length = le_value(prefix);
    if length < 0 {
        Err(RconError::NegativeLength(length as i32))
    } else if length > MAX_RCON_PACKET_LEN {
        Err(RconError::LengthExceedsMax(length as usize))
    } else {
        Ok(length)
    }
}

fn push_le(bytes: &mut Vec<u8>, n: i32)
    ensures
        final(bytes)@ == old(bytes)@ + le_bytes(n as int),
{
    reveal(le_bytes);
    let bits: u32 = crate::protocol::varint::to_u32(n);
    bytes.push((bits % 256) as u8);
    bytes.push((bits / 256 % 256) as u8);
    bytes.push((bits / 65536 % 256) as u8);
    bytes.push((bits / 16777216) as u8);
    assert(bytes@ =~= old(bytes)@ + le_bytes(n as int));
}

fn read_le(bytes: &[u8], at: usize) -> (n: i32)
    requires
        at + 4 <= bytes@.len(),
    ensures
        n == le_value(bytes@.subrange(at as int, at + 4)),
{
    let bits: u64 = bytes[at] as u64 + 256 * bytes[at + 1] as u64 + 65536 * bytes[at + 2] as u64
        + 16777216 * bytes[at + 3] as u64;
    low_i32(bits)
}

/// Writes an RCON packet. The text must not be so long that the four bytes of the length read as a
/// negative number.
pub fn encode_rcon(id: i32, kind: i32, payload: &str) -> (packet: Vec<u8>)
    requires
        signed32(rcon_length(payload@)) >= 0,
    ensures
        packet@ == rcon_bytes(id as int, kind as int, payload@),
{
    let text: &[u8] = payload.as_bytes();
    let mut packet: Vec<u8> = Vec::new();
    let length: i32 = low_i32((text.len() as u64).wrapping_add(10));
    push_le(&mut packet, length);
    push_le(&mut packet, id);
    push_le(&mut packet, kind);
    packet.extend_from_slice(text);
    packet.push(0);
    packet.push(0);
    assert(le_bytes(length as int) == le_bytes(rcon_length(payload@))) by {
        reveal(le_bytes);
    }
    assert(packet@ =~= rcon_bytes(id as int, kind as int, payload@));
    packet
}

/// How many bytes to read after the four bytes of a length.
pub fn rcon_body_length(prefix: &[u8]) -> (length: Result<usize, RconError>)
    requires
        prefix@.len() == 4,
    ensures
        match rcon_length_outcome(prefix@) {
            Ok(n) => length is Ok && length->Ok_0 == n,
            Err(error) => length is Err && length->Err_0 == error,
        },
{
    let length: i32 = read_le(prefix, 0);
    assert(prefix@.subrange(0, 4) =~= prefix@);
    if length < 0 {
        Err(RconError::NegativeLength(length))
    } else if length as usize > MAX_RCON_PACKET_LEN {
        Err(RconError::LengthExceedsMax(length as usize))
    } else {
        Ok(length as usize)
    }
}

/// Reads the body of an RCON packet: its two numbers and its text, without the two bytes at its
/// end. The body must be long enough to hold them. Bytes that are no UTF-8 are replaced in the text.
pub fn decode_rcon_body(body: &[u8]) -> (packet: (i32, i32, String))
    requires
        body@.len() >= 10,
    ensures
        packet.0 == le_value(body@.subrange(0, 4)),
        packet.1 == le_value(body@.subrange(4, 8)),
        packet.2@ == lossy_text(body@.subrange(8, body@.len() - 2)),
        valid_utf8(body@.subrange(8, body@.len() - 2)) ==> packet.2@ == decode_utf8(
            body@.subrange(8, body@.len() - 2),
        ),
{
    let id: i32 = read_le(body, 0);
    let kind: i32 = read_le(body, 4);
    let text: &[u8] = vstd::slice::slice_subrange(body, 8, body.len() - 2);
    (id, kind, string_from_utf8_lossy(text))
}

/// The packet that logs in.
pub fn rcon_login(password: &str) -> (packet: Vec<u8>)
    requires
        signed32(rcon_length(password@)) >= 0,
    ensures
        packet@ == rcon_bytes(1, RCON_AUTH as int, password@),
{
    encode_rcon(1, RCON_AUTH, password)
}

/// The packet that asks the server to stop, by the number of the answer to the login: -1 says that
/// it failed.
pub fn rcon_stop_command(login_answer: i32) -> (packet: Result<Vec<u8>, RconError>)
    ensures
        login_answer == -1 ==> packet is Err && packet->Err_0 == RconError::AuthenticationFailed,
        login_answer != -1 ==> packet is Ok && packet->Ok_0@ == rcon_bytes(
            2,
            RCON_COMMAND as int,
            "stop"@,
        ),
{
    if login_answer == -1 {
        return Err(RconError::AuthenticationFailed);
    }
    proof {
        reveal_strlit("stop");
        assert(vstd::utf8::is_ascii_chars("stop"@));
        vstd::utf8::is_ascii_chars_encode_utf8("stop"@);
    }
    Ok(encode_rcon(2, RCON_COMMAND, "stop"))
}

/// How many steps are left at most.
spec fn steps_left(step: StopStep) -> int {
    match step {
        StopStep::AskServer => STOP_GRACE_SECS + 2,
        StopStep::AwaitExit { waited } => if waited < STOP_GRACE_SECS {
            STOP_GRACE_SECS - waited + 1
        } else {
            2
        },
        StopStep::ForceStop => 1,
        StopStep::Stopped => 0,
        StopStep::Failed => 0,
    }
}

proof fn lemma_steps_left(rcon_configured: bool, outcomes: Seq<bool>)
    ensures
        ({
            let left = steps_left(step_reached(rcon_configured, outcomes));
            left == 0 || left <= STOP_GRACE_SECS + 2 - outcomes.len()
        }),
    decreases outcomes.len(),
{
    if outcomes.len() > 0 {
        lemma_steps_left(rcon_configured, outcomes.drop_last());
    }
}

/// Stopping the container comes to an end, one way or the other, whatever the outcomes are.
pub proof fn law_stop_ends(rcon_configured: bool, outcomes: Seq<bool>)
    requires
        outcomes.len() >= STOP_GRACE_SECS + 2,
    ensures
        step_reached(rcon_configured, outcomes) is Stopped || step_reached(
            rcon_configured,
            outcomes,
        ) is Failed,
{
    lemma_steps_left(rcon_configured, outcomes);
}

/// The server has the whole grace period: as long as it has been asked and has not exited, the
/// container is not stopped by force before that, and it is right after it.
pub proof fn law_grace_period(waited: nat)
    requires
        waited <= STOP_GRACE_SECS,
    ensures
        step_reached(true, seq![true] + Seq::new(waited, |i: int| false)) == (if waited
            < STOP_GRACE_SECS {
            StopStep::AwaitExit { waited: waited as u32 }
        } else {
            StopStep::ForceStop
        }),
    decreases waited,
{
    let outcomes = seq![true] + Seq::new(waited, |i: int| false);
    if waited == 0 {
        assert(outcomes.drop_last() =~= Seq::<bool>::empty());
        reveal_with_fuel(step_reached, 2);
    } else {
        law_grace_period((waited - 1) as nat);
        assert(outcomes.drop_last() =~= seq![true] + Seq::new(
            (waited - 1) as nat,
            |i: int| false,
        ));
    }
}

/// The container is taken to have stopped only after it was seen to have exited or was stopped by
/// force: the step before did what it was for, and that was not the asking.
pub proof fn law_stopped_is_seen(rcon_configured: bool, outcomes: Seq<bool>)
    requires
        step_reached(rcon_configured, outcomes) is Stopped,
    ensures
        exists|i: int|
            #![trigger outcomes[i]]
            0 <= i < outcomes.len() && outcomes[i] && (step_reached(
                rcon_configured,
                outcomes.take(i),
            ) is AwaitExit || step_reached(rcon_configured, outcomes.take(i)) is ForceStop),
    decreases outcomes.len(),
{
    let before = outcomes.drop_last();
    let last = outcomes.len() - 1;
    if step_reached(rcon_configured, before) is Stopped {
        law_stopped_is_seen(rcon_configured, before);
        let i = choose|i: int|
            #![trigger before[i]]
            0 <= i < before.len() && before[i] && (step_reached(
                rcon_configured,
                before.take(i),
            ) is AwaitExit || step_reached(rcon_configured, before.take(i)) is ForceStop);
        assert(before.take(i) =~= outcomes.take(i));
        assert(outcomes[i]);
    } else {
        assert(outcomes.take(last) =~= before);
        assert(outcomes[last]);
    }
}

/// An RCON packet that is short enough to be read reads back as it was written.
pub proof fn law_rcon_round_trip(id: i32, kind: i32, payload: Seq<char>)
    requires
        rcon_length(payload) <= MAX_RCON_PACKET_LEN,
    ensures
        ({
            let packet = rcon_bytes(id as int, kind as int, payload);
            let body = packet.skip(4);
            let text = body.subrange(8, body.len() - 2);
            &&& rcon_length_outcome(packet.take(4)) == Ok::<int, RconError>(body.len() as int)
            &&& le_value(body.subrange(0, 4)) == id
            &&& le_value(body.subrange(4, 8)) == kind
            &&& valid_utf8(text)
            &&& decode_utf8(text) == payload
        }),
{
    let packet = rcon_bytes(id as int, kind as int, payload);
    let body = packet.skip(4);
    lemma_le_round_trip(rcon_length(payload));
    lemma_le_round_trip(id as int);
    lemma_le_round_trip(kind as int);
    lemma_rcon_parts(
        le_bytes(rcon_length(payload)),
        le_bytes(id as int),
        le_bytes(kind as int),
        encode_utf8(payload),
    );
    vstd::utf8::encode_utf8_valid_utf8(payload);
    vstd::utf8::encode_utf8_decode_utf8(payload);
}

proof fn lemma_rcon_parts(length: Seq<u8>, id: Seq<u8>, kind: Seq<u8>, text: Seq<u8>)
    requires
        length.len() == 4,
        id.len() == 4,
        kind.len() == 4,
    ensures
        ({
            let packet = length + id + kind + text + seq![0u8, 0u8];
            let body = packet.skip(4);
            &&& packet.take(4) == length
            &&& body.len() == 10 + text.len()
            &&& body.subrange(0, 4) == id
            &&& body.subrange(4, 8) == kind
            &&& body.subrange(8, body.len() - 2) == text
        }),
{
    let packet = length + id + kind + text + seq![0u8, 0u8];
    let body = packet.skip(4);
    assert(packet.take(4) =~= length);
    assert(body.subrange(0, 4) =~= id);
    assert(body.subrange(4, 8) =~= kind);
    assert(body.subrange(8, body.len() - 2) =~= text);
}

proof fn lemma_le_round_trip(n: int)
    ensures
        le_bytes(n).len() == 4,
        le_value(le_bytes(n)) == signed32(n),
{
    reveal(le_bytes);
    let bits = n % 0x1_0000_0000;
    assert(bits / 16777216 < 256);
    assert(bits == bits % 256 + 256 * (bits / 256 % 256) + 65536 * (bits / 65536 % 256) + 16777216
        * (bits / 16777216));
}

/// Where the server can be asked, it is asked first, and the container is stopped by force only
/// where the server could not be asked or did not exit in time. A container that has exited or was
/// stopped has stopped, however long that took; one that force cannot stop has not.
pub proof fn law_stop_order(waited: u32)
    ensures
        first_step(true) is AskServer,
        first_step(false) is ForceStop,
        step_after(StopStep::AskServer, true) == (StopStep::AwaitExit { waited: 0 }),
        step_after(StopStep::AskServer, false) is ForceStop,
        step_after(StopStep::AwaitExit { waited }, true) is Stopped,
        waited < STOP_GRACE_SECS - 1 ==> step_after(StopStep::AwaitExit { waited }, false) == (
        StopStep::AwaitExit { waited: (waited + 1) as u32 }),
        waited >= STOP_GRACE_SECS - 1 ==> step_after(
            StopStep::AwaitExit { waited },
            false,
        ) is ForceStop,
        step_after(StopStep::ForceStop, true) is Stopped,
        step_after(StopStep::ForceStop, false) is Failed,
        forall|succeeded: bool| #[trigger] step_after(StopStep::Stopped, succeeded) is Stopped,
        forall|succeeded: bool| #[trigger] step_after(StopStep::Failed, succeeded) is Failed,
{
}

/// Four bytes write a number with the least significant first, and a number is written so that its
/// low 32 bits come back.
pub proof fn law_le_numbers(bytes: Seq<u8>, n: int)
    requires
        bytes.len() == 4,
    ensures
        i32::MIN <= le_value(bytes) <= i32::MAX,
        (bytes[0] + 256 * bytes[1] + 65536 * bytes[2] + 16777216 * bytes[3] - le_value(bytes))
            % 0x1_0000_0000 == 0,
        le_bytes(n).len() == 4,
        (n - (le_bytes(n)[0] + 256 * le_bytes(n)[1] + 65536 * le_bytes(n)[2] + 16777216 * le_bytes(
            n,
        )[3])) % 0x1_0000_0000 == 0,
{
    reveal(le_bytes);
    lemma_le_round_trip(n);
    let bits = n % 0x1_0000_0000;
    assert(bits / 16777216 < 256);
    assert(bits == bits % 256 + 256 * (bits / 256 % 256) + 65536 * (bits / 65536 % 256) + 16777216
        * (bits / 16777216));
}

/// An RCON packet is its length, its two numbers, its text and two zero bytes, however long the text
/// is; the length counts what follows it.
pub proof fn law_rcon_layout(id: int, kind: int, payload: Seq<char>)
    ensures
        ({
            let packet = rcon_bytes(id, kind, payload);
            let text = encode_utf8(payload);
            &&& packet.len() == 14 + text.len()
            &&& packet.take(4) == le_bytes(packet.len() - 4)
            &&& packet.subrange(4, 8) == le_bytes(id)
            &&& packet.subrange(8, 12) == le_bytes(kind)
            &&& packet.subrange(12, packet.len() - 2) == text
            &&& packet[packet.len() - 2] == 0 && packet[packet.len() - 1] == 0
        }),
{
    lemma_le_round_trip(rcon_length(payload));
    lemma_le_round_trip(id);
    lemma_le_round_trip(kind);
    let packet = rcon_bytes(id, kind, payload);
    assert(packet.take(4) =~= le_bytes(packet.len() - 4));
    assert(packet.subrange(4, 8) =~= le_bytes(id));
    assert(packet.subrange(8, 12) =~= le_bytes(kind));
    assert(packet.subrange(12, packet.len() - 2) =~= encode_utf8(payload));
}

/// The length before an RCON packet is taken as it is written, from 0 to the largest that is read;
/// a negative one and a larger one are rejected, each by its number.
pub proof fn law_rcon_length_bounds(n: i32)
    ensures
        0 <= n <= MAX_RCON_PACKET_LEN ==> rcon_length_outcome(le_bytes(n as int)) == Ok::<
            int,
            RconError,
        >(n as int),
        n < 0 ==> rcon_length_outcome(le_bytes(n as int)) == Err::<int, RconError>(
            RconError::NegativeLength(n),
        ),
        n > MAX_RCON_PACKET_LEN ==> rcon_length_outcome(le_bytes(n as int)) == Err::<
            int,
            RconError,
        >(RconError::LengthExceedsMax(n as usize)),
{
    lemma_le_round_trip(n as int);
}

} // verus!
