use vstd::prelude::*;
use vstd::utf8::encode_utf8;

use super::cursor::Cursor;
use super::error::ProtocolError;
use super::packet::{
    encode_string, law_string_round_trip, read_string_sync, string_bytes, string_outcome,
    MAX_STRING_LEN,
};
use super::varint::{
    encode_varint, law_varint_round_trip, law_varint_shortest, lemma_outcome_of_prefix,
    read_varint_sync, varint_bytes, varint_outcome,
};
use crate::text::{before, chars_of, find, string_of};

verus! {

/// The first packet of a connection.
#[derive(Debug)]
pub struct Handshake {
    pub protocol_version: i32,
    /// The address that the client dialled, without the marker that a modded client adds after a
    /// NUL character.
    pub server_address: String,
    pub server_port: u16,
    pub next_state: i32,
}

pub struct HandshakeView {
    pub protocol_version: int,
    pub server_address: Seq<char>,
    pub server_port: int,
    pub next_state: int,
}

impl View for Handshake {
    type V = HandshakeView;

    open spec fn view(&self) -> HandshakeView {
        HandshakeView {
            protocol_version: self.protocol_version as int,
            server_address: self.server_address@,
            server_port: self.server_port as int,
            next_state: self.next_state as int,
        }
    }
}

/// What the data of a handshake packet holds.
pub open spec fn handshake_outcome(data: Seq<u8>) -> Result<HandshakeView, ProtocolError> {
    match varint_outcome(data) {
        Err(error) => Err(error),
        Ok((protocol_version, version_len)) => match string_outcome(data.skip(version_len)) {
            Err(error) => Err(error),
            Ok((address, address_len)) => {
                let tail = data.skip(version_len + address_len);
                if tail.len() < 2 {
                    Err(ProtocolError::UnexpectedEof)
                } else {
                    match varint_outcome(tail.skip(2)) {
                        Err(error) => Err(error),
                        Ok((next_state, _)) => Ok(
                            HandshakeView {
                                protocol_version,
                                server_address: before(address, '\0'),
                                server_port: tail[0] as int * 256 + tail[1] as int,
                                next_state,
                            },
                        ),
                    }
                }
            },
        },
    }
}

/// The data of a handshake packet.
pub open spec fn handshake_bytes(
    protocol_version: int,
    address: Seq<char>,
    port: int,
    next_state: int,
) -> Seq<u8> {
    varint_bytes(protocol_version) + string_bytes(address) + seq![
        (port / 256) as u8,
        (port % 256) as u8,
    ] + varint_bytes(next_state)
}

/// Reads the data of a handshake packet. What follows the last field does not matter.
pub fn parse_handshake(data: &[u8]) -> (parsed: Result<Handshake, ProtocolError>)
    ensures
        match handshake_outcome(data@) {
            Ok(handshake) => parsed is Ok && parsed->Ok_0@ == handshake,
            Err(error) => parsed is Err && parsed->Err_0 == error,
        },
{
    let mut cursor = Cursor::new(data);
    let protocol_version: i32 = match read_varint_sync(&mut cursor) {
        Err(error) => return Err(error),
        Ok(value) => value,
    };
    let raw_address: String = match read_string_sync(&mut cursor) {
        Err(error) => return Err(error),
        Ok(text) => text,
    };
    assert(cursor.rest() =~= data@.skip(cursor.pos as int));
    let chars: Vec<char> = chars_of(raw_address.as_str());
    let end: usize = find(&chars, 0, chars.len(), '\0');
    let server_address: String = string_of(&chars, 0, end);
    assert(chars@.subrange(0, chars@.len() as int) =~= chars@);
    assert(server_address@ =~= before(raw_address@, '\0'));
    let port: Vec<u8> = match cursor.read_exact(2) {
        Err(error) => return Err(error),
        Ok(bytes) => bytes,
    };
    let server_port: u16 = port[0] as u16 * 256 + port[1] as u16;
    let next_state: i32 = match read_varint_sync(&mut cursor) {
        Err(error) => return Err(error),
        Ok(value) => value,
    };
    Ok(Handshake { protocol_version, server_address, server_port, next_state })
}

/// Reads the user name of a login start packet. The rest of the packet differs between protocol
/// versions and is not looked at: the packet is passed on as it came.
pub fn parse_login_start(data: &[u8]) -> (username: Result<String, ProtocolError>)
    ensures
        match string_outcome(data@) {
            Ok((text, _)) => username is Ok && username->Ok_0@ == text,
            Err(error) => username is Err && username->Err_0 == error,
        },
{
    let mut cursor = Cursor::new(data);
    read_string_sync(&mut cursor)
}

/// Writes the data of a handshake packet.
pub fn encode_handshake(
    protocol_version: i32,
    address: &str,
    port: u16,
    next_state: i32,
) -> (data: Vec<u8>)
    ensures
        data@ == handshake_bytes(
            protocol_version as int,
            address@,
            port as int,
            next_state as int,
        ),
{
    let mut data: Vec<u8> = encode_varint(protocol_version);
    data.extend_from_slice(encode_string(address).as_slice());
    data.push((port / 256) as u8);
    data.push((port % 256) as u8);
    data.extend_from_slice(encode_varint(next_state).as_slice());
    assert(data@ =~= handshake_bytes(
        protocol_version as int,
        address@,
        port as int,
        next_state as int,
    ));
    data
}

/// A handshake reads back as it was written, save that its address ends before the first NUL
/// character. What follows it does not matter. An address that is too long to be read is left out.
pub proof fn law_handshake_round_trip(
    protocol_version: i32,
    address: Seq<char>,
    port: u16,
    next_state: i32,
    rest: Seq<u8>,
)
    requires
        encode_utf8(address).len() <= MAX_STRING_LEN,
    ensures
        handshake_outcome(
            handshake_bytes(protocol_version as int, address, port as int, next_state as int)
                + rest,
        ) == Ok::<HandshakeView, ProtocolError>(
            HandshakeView {
                protocol_version: protocol_version as int,
                server_address: before(address, '\0'),
                server_port: port as int,
                next_state: next_state as int,
            },
        ),
{
    let version = varint_bytes(protocol_version as int);
    let name = string_bytes(address);
    let number = seq![(port as int / 256) as u8, (port as int % 256) as u8];
    let state = varint_bytes(next_state as int);
    let data = handshake_bytes(protocol_version as int, address, port as int, next_state as int)
        + rest;
    assert(data =~= version + (name + (number + (state + rest))));
    law_varint_round_trip(protocol_version, name + (number + (state + rest)));
    assert(data.skip(version.len() as int) =~= name + (number + (state + rest)));
    law_string_round_trip(address, number + (state + rest));
    let tail = data.skip((version.len() + name.len()) as int);
    assert(tail =~= number + (state + rest));
    assert(tail.skip(2) =~= state + rest);
    law_varint_round_trip(next_state, rest);
}

/// The user name of a login start packet comes out whatever stands after it.
pub proof fn law_login_start_ignores_tail(username: Seq<char>, tail: Seq<u8>)
    requires
        encode_utf8(username).len() <= MAX_STRING_LEN,
    ensures
        string_outcome(string_bytes(username) + tail) matches Ok((text, _)) && text == username,
{
    law_string_round_trip(username, tail);
}

/// A handshake is a version, an address, a port of two bytes, the first the more significant, and
/// what the client wants. The address ends before a NUL character, where it has one. Whatever
/// follows does not matter.
pub proof fn law_handshake_is_read(
    version: Seq<u8>,
    name: Seq<u8>,
    port: (u8, u8),
    state: Seq<u8>,
    rest: Seq<u8>,
    host: Seq<char>,
    marker: Seq<char>,
)
    requires
        varint_outcome(version) matches Ok((_, used)) && used == version.len(),
        string_outcome(name) matches Ok((text, used)) && used == name.len() && (text == host || text
            == host.push('\0') + marker),
        !host.contains('\0'),
        varint_outcome(state) matches Ok((_, used)) && used == state.len(),
    ensures
        handshake_outcome(version + name + seq![port.0, port.1] + state + rest) == Ok::<
            HandshakeView,
            ProtocolError,
        >(
            HandshakeView {
                protocol_version: varint_outcome(version)->Ok_0.0,
                server_address: host,
                server_port: 256 * port.0 + port.1,
                next_state: varint_outcome(state)->Ok_0.0,
            },
        ),
{
    let number = seq![port.0, port.1];
    let data = version + name + number + state + rest;
    assert(data.take(version.len() as int) =~= version);
    lemma_outcome_of_prefix(data, version.len() as int);
    let after_version = data.skip(version.len() as int);
    assert(after_version =~= name + (number + state + rest));
    lemma_string_of_prefix(name, number + state + rest);
    let tail = data.skip((version.len() + name.len()) as int);
    assert(tail =~= number + (state + rest));
    assert(tail.skip(2) =~= state + rest);
    assert((state + rest).take(state.len() as int) =~= state);
    lemma_outcome_of_prefix(state + rest, state.len() as int);
    crate::text::law_split_once(host, '\0', marker);
}

/// A handshake without its port, or with an unreadable part, is rejected for that part.
pub proof fn law_broken_handshake_rejected(version: Seq<u8>, name: Seq<u8>, tail: Seq<u8>)
    requires
        varint_outcome(version) matches Ok((_, used)) && used == version.len(),
        string_outcome(name) matches Ok((_, used)) && used == name.len(),
        tail.len() < 2 || varint_outcome(tail.skip(2)) is Err,
    ensures
        handshake_outcome(version + name + tail) == (if tail.len() < 2 {
            Err::<HandshakeView, ProtocolError>(ProtocolError::UnexpectedEof)
        } else {
            Err(varint_outcome(tail.skip(2))->Err_0)
        }),
{
    let data = version + name + tail;
    assert(data.take(version.len() as int) =~= version);
    lemma_outcome_of_prefix(data, version.len() as int);
    assert(data.skip(version.len() as int) =~= name + tail);
    lemma_string_of_prefix(name, tail);
    assert(data.skip((version.len() + name.len()) as int) =~= tail);
}

/// A handshake without a readable version is rejected for that, and one without a readable address
/// for that.
pub proof fn law_unreadable_handshake_rejected(version: Seq<u8>, tail: Seq<u8>)
    requires
        varint_outcome(version) matches Ok((_, used)) && used == version.len(),
    ensures
        varint_outcome(tail) matches Err(error) ==> handshake_outcome(tail) == Err::<
            HandshakeView,
            ProtocolError,
        >(error),
        string_outcome(tail) matches Err(error) ==> handshake_outcome(version + tail) == Err::<
            HandshakeView,
            ProtocolError,
        >(error),
{
    let data = version + tail;
    assert(data.take(version.len() as int) =~= version);
    lemma_outcome_of_prefix(data, version.len() as int);
    assert(data.skip(version.len() as int) =~= tail);
}

/// Bytes after a whole string do not matter.
proof fn lemma_string_of_prefix(name: Seq<u8>, rest: Seq<u8>)
    requires
        string_outcome(name) matches Ok((_, used)) && used == name.len(),
    ensures
        string_outcome(name + rest) == string_outcome(name),
{
    let all = name + rest;
    assert(all.take(name.len() as int) =~= name);
    lemma_outcome_of_prefix(all, name.len() as int);
    let (length, used) = varint_outcome(name)->Ok_0;
    law_varint_shortest(name);
    assert(all.subrange(used, used + length) =~= name.subrange(used, used + length));
}

/// The data of a handshake is its version, its address, the port with the more significant byte
/// first, and what is wanted.
pub proof fn law_handshake_layout(
    protocol_version: int,
    address: Seq<char>,
    port: u16,
    next_state: int,
)
    ensures
        exists|high: u8, low: u8| #[trigger]
            port_bytes(high, low) == port && handshake_bytes(
                protocol_version,
                address,
                port as int,
                next_state,
            ) == varint_bytes(protocol_version) + string_bytes(address) + seq![high, low]
                + varint_bytes(next_state),
{
    let high = (port as int / 256) as u8;
    let low = (port as int % 256) as u8;
    assert(port_bytes(high, low) == port);
}

/// The port that two bytes write.
pub open spec fn port_bytes(high: u8, low: u8) -> int {
    256 * high + low
}

} // verus!
