//! Asking the real server for its version: the packets that are sent, and what is read in the
//! reply.

use vstd::prelude::*;
use vstd::utf8::encode_utf8;

use crate::config::target_text;
use crate::json::{
    as_int, as_text, int_of, json_document, member, member_of, parse_document, text_of, JsonTree,
};
use crate::protocol::cursor::Cursor;
use crate::protocol::error::ProtocolError;
use crate::protocol::handshake::{
    encode_handshake, handshake_bytes, handshake_outcome, law_handshake_round_trip, HandshakeView,
};
use crate::protocol::packet::{
    encode_packet, law_packet_round_trip, packet_bytes, packet_outcome, string_bytes, PacketView,
    RawPacket, MAX_PACKET_LEN, MAX_STRING_LEN,
};
use crate::protocol::varint::{
    law_varint_length, law_varint_round_trip, lemma_outcome_of_prefix, low_i32_of_i64,
    read_varint_sync, signed32, varint_bytes, varint_outcome,
};
use crate::text::{
    after, before, chars_of, decimal_text, find, integer_in, law_decimal_round_trip, law_split_once,
    lemma_position_bounds, lemma_position_is, parse_u16, position_of, string_of,
};

verus! {

/// The port of a server whose address names none, or none that can be read.
pub const DEFAULT_PORT: u16 = 25565;

/// How long the server has to answer, in seconds.
pub const PROBE_TIMEOUT_SECS: u64 = 8;

/// Why a reply holds no version.
#[derive(Clone, Copy, Debug, PartialEq, Eq, Structural)]
pub enum ProbeError {
    /// The packet is not a status response.
    UnexpectedPacket(i32),
    /// The length of the document could not be read.
    Protocol(ProtocolError),
    /// The document is said to be longer than the packet.
    OutOfBounds,
    /// The document is not JSON.
    InvalidJson,
    /// The document has no protocol number.
    NoProtocol,
    /// The document has no version name.
    NoVersion,
}

/// The host that `target` names: what stands before the first colon.
pub open spec fn target_host(target: Seq<char>) -> Seq<char> {
    before(target, ':')
}

/// The port that `target` names between its first colon and the next.
pub open spec fn target_port(target: Seq<char>) -> int {
    match integer_in(before(after(target, ':'), ':'), 0, u16::MAX as int) {
        Some(port) if position_of(target, ':') < target.len() => port,
        _ => DEFAULT_PORT as int,
    }
}

/// What is sent to `target` to ask for its status: a handshake that announces a status request,
/// and the request.
pub open spec fn probe_bytes(target: Seq<char>) -> Seq<u8> {
    packet_bytes(0, handshake_bytes(0, target_host(target), target_port(target), 1))
        + packet_bytes(0, Seq::empty())
}

/// The JSON document in a status response.
pub open spec fn reply_document(packet: PacketView) -> Result<Seq<u8>, ProbeError> {
    if packet.id != 0 {
        Err(ProbeError::UnexpectedPacket(packet.id as i32))
    } else {
        match varint_outcome(packet.data) {
            Err(error) => Err(ProbeError::Protocol(error)),
            Ok((length, used)) => if length < 0 || used + length > packet.data.len() {
                Err(ProbeError::OutOfBounds)
            } else {
                Ok(packet.data.subrange(used, used + length))
            },
        }
    }
}

/// The version that a status response names, once its two fields have been looked up.
pub open spec fn version_outcome(protocol: Option<int>, name: Option<Seq<char>>) -> Result<
    (int, Seq<char>),
    ProbeError,
> {
    match (protocol, name) {
        (None, _) => Err(ProbeError::NoProtocol),
        (_, None) => Err(ProbeError::NoVersion),
        (Some(protocol), Some(name)) => Ok((signed32(protocol), name)),
    }
}

/// The version that a JSON document names.
pub open spec fn document_version(document: Option<JsonTree>) -> Result<
    (int, Seq<char>),
    ProbeError,
> {
    match document {
        None => Err(ProbeError::InvalidJson),
        Some(tree) => version_outcome(
            int_of(member_of(member_of(tree, "version"@), "protocol"@)),
            text_of(member_of(member_of(tree, "version"@), "name"@)),
        ),
    }
}

/// The version that a status response names.
pub open spec fn reply_version(packet: PacketView) -> Result<(int, Seq<char>), ProbeError> {
    match reply_document(packet) {
        Err(error) => Err(error),
        Ok(bytes) => document_version(json_document(bytes)),
    }
}

/// Writes what is sent to `target` to ask for its status.
pub fn probe_request(target: &str) -> (request: Vec<u8>)
    ensures
        request@ == probe_bytes(target@),
{
    let chars: Vec<char> = chars_of(target);
    let len: usize = chars.len();
    assert(chars@.subrange(0, len as int) =~= target@);
    let colon: usize = find(&chars, 0, len, ':');
    let host: String = string_of(&chars, 0, colon);
    assert(host@ =~= target_host(target@));
    let mut port: u16 = DEFAULT_PORT;
    if colon < len {
        let end: usize = find(&chars, colon + 1, len, ':');
        assert(chars@.subrange(colon + 1, len as int) =~= after(target@, ':'));
        assert(chars@.subrange(colon + 1, end as int) =~= before(after(target@, ':'), ':'));
        match parse_u16(&chars, colon + 1, end) {
            Some(named) => {
                port = named;
            },
            None => {},
        }
    }
    let hello: Vec<u8> = encode_handshake(0, host.as_str(), port, 1);
    let mut request: Vec<u8> = encode_packet(0x00, hello.as_slice());
    let nothing: Vec<u8> = Vec::new();
    request.extend_from_slice(encode_packet(0x00, nothing.as_slice()).as_slice());
    request
}

/// Makes the version of the two fields of a status response.
pub fn named_version(protocol: Option<i64>, name: Option<&str>) -> (version: Result<
    (i32, String),
    ProbeError,
>)
    ensures
        match version_outcome(
            match protocol {
                Some(n) => Some(n as int),
                None => None,
            },
            match name {
                Some(text) => Some(text@),
                None => None,
            },
        ) {
            Ok((number, text)) => version is Ok && version->Ok_0.0 == number && version->Ok_0.1@
                == text,
            Err(error) => version is Err && version->Err_0 == error,
        },
{
    match protocol {
        None => Err(ProbeError::NoProtocol),
        Some(protocol) => match name {
            None => Err(ProbeError::NoVersion),
            Some(name) => Ok((low_i32_of_i64(protocol), name.to_owned())),
        },
    }
}

/// Cuts the JSON document out of a status response.
pub fn read_document(packet: &RawPacket) -> (document: Result<Vec<u8>, ProbeError>)
    ensures
        match reply_document(packet@) {
            Ok(bytes) => document is Ok && document->Ok_0@ == bytes,
            Err(error) => document is Err && document->Err_0 == error,
        },
{
    if packet.id != 0x00 {
        return Err(ProbeError::UnexpectedPacket(packet.id));
    }
    let mut cursor = Cursor::new(packet.data.as_slice());
    let length: i32 = match read_varint_sync(&mut cursor) {
        Err(error) => return Err(ProbeError::Protocol(error)),
        Ok(length) => length,
    };
    if length < 0 {
        return Err(ProbeError::OutOfBounds);
    }
    let ghost used = cursor.pos as int;
    match cursor.read_exact(length as usize) {
        Err(_) => Err(ProbeError::OutOfBounds),
        Ok(bytes) => {
            assert(bytes@ =~= packet.data@.subrange(used, used + length));
            Ok(bytes)
        },
    }
}

/// Reads the version in a status response.
pub fn read_version(packet: &RawPacket) -> (version: Result<(i32, String), ProbeError>)
    ensures
        match reply_version(packet@) {
            Ok((number, text)) => version is Ok && version->Ok_0.0 == number && version->Ok_0.1@
                == text,
            Err(error) => version is Err && version->Err_0 == error,
        },
{
    let bytes: Vec<u8> = match read_document(packet) {
        Err(error) => return Err(error),
        Ok(bytes) => bytes,
    };
    match parse_document(bytes.as_slice()) {
        Err(_) => Err(ProbeError::InvalidJson),
        Ok(document) => {
            let version = member(&document, "version");
            named_version(as_int(member(version, "protocol")), as_text(member(version, "name")))
        },
    }
}

/// The address of a host and a port names that host and that port, where the host has no colon in
/// it.
pub proof fn law_target_round_trip(host: Seq<char>, port: u16)
    requires
        !host.contains(':'),
    ensures
        target_host(target_text(host, port as int)) == host,
        target_port(target_text(host, port as int)) == port,
{
    let target = target_text(host, port as int);
    let digits = decimal_text(port as int);
    law_decimal_round_trip(port as int);
    assert forall|i: int| 0 <= i < host.len() implies target[i] != ':' by {
        assert(target[i] == host[i]);
        assert(host.contains(host[i]));
    }
    lemma_position_is(target, ':', host.len() as int);
    assert(before(target, ':') =~= host);
    assert(after(target, ':') =~= digits);
    lemma_position_is(digits, ':', digits.len() as int);
    assert(before(digits, ':') =~= digits);
    assert(digits[0] != '-' && digits[0] != '+');
}

/// A packet with a JSON document in it gives that document back, where it is short enough to be
/// read at all.
pub proof fn law_document_round_trip(json: Seq<char>)
    requires
        1 + string_bytes(json).len() <= MAX_PACKET_LEN,
    ensures
        packet_outcome(packet_bytes(0, string_bytes(json))) matches Ok((packet, used)) && used
            == packet_bytes(0, string_bytes(json)).len() && reply_document(packet) == Ok::<
            Seq<u8>,
            ProbeError,
        >(encode_utf8(json)),
{
    let data = string_bytes(json);
    let frame = packet_bytes(0, data);
    law_packet_round_trip(0, data, Seq::empty());
    assert(frame + Seq::<u8>::empty() =~= frame);
    let bytes = encode_utf8(json);
    law_varint_round_trip(bytes.len() as i32, bytes);
    let header = varint_bytes(bytes.len() as int);
    assert(data.subrange(header.len() as int, (header.len() + bytes.len()) as int) =~= bytes);
}

/// An address is a host up to the first colon, and a port up to the next; a port that cannot be
/// read, or is not there, is the default one.
pub proof fn law_target_parts(host: Seq<char>, named: Seq<char>, rest: Seq<char>)
    requires
        !host.contains(':'),
        !named.contains(':'),
    ensures
        target_host(host) == host && target_port(host) == 25565,
        ({
            let target = host + seq![':'] + named;
            let longer = target + seq![':'] + rest;
            let port = match integer_in(named, 0, u16::MAX as int) {
                Some(port) => port,
                None => 25565,
            };
            &&& target_host(target) == host && target_port(target) == port
            &&& target_host(longer) == host && target_port(longer) == port
        }),
{
    let target = host + seq![':'] + named;
    let longer = target + seq![':'] + rest;
    law_split_once(host, ':', named);
    law_split_once(host, ':', named.push(':') + rest);
    law_split_once(named, ':', rest);
    assert(target =~= host.push(':') + named);
    assert(longer =~= host.push(':') + (named.push(':') + rest));
    lemma_position_bounds(host, ':');
    lemma_position_bounds(target, ':');
    lemma_position_bounds(longer, ':');
    assert(position_of(host, ':') == host.len()) by {
        if position_of(host, ':') < host.len() {
            assert(host.contains(host[position_of(host, ':')]));
        }
    }
    assert(target[host.len() as int] == ':');
    assert(longer[host.len() as int] == ':');
}

/// What is sent to ask a server for its status reads as a handshake that names that server and
/// announces a status request, and then the request, and nothing after it.
pub proof fn law_probe_request(target: Seq<char>)
    requires
        encode_utf8(target_host(target)).len() <= MAX_STRING_LEN,
    ensures
        ({
            let bytes = probe_bytes(target);
            &&& packet_outcome(bytes) matches Ok((hello, used)) && hello.id == 0
                && handshake_outcome(hello.data) == Ok::<HandshakeView, ProtocolError>(
                HandshakeView {
                    protocol_version: 0,
                    server_address: before(target_host(target), '\0'),
                    server_port: target_port(target),
                    next_state: 1,
                },
            ) && packet_outcome(bytes.skip(used)) == Ok::<(PacketView, int), ProtocolError>(
                (PacketView { id: 0, data: Seq::empty() }, bytes.len() - used),
            )
        }),
{
    let bytes = probe_bytes(target);
    let host = target_host(target);
    let port = target_port(target);
    let data = handshake_bytes(0, host, port, 1);
    let nothing = Seq::<u8>::empty();
    assert(0 <= port <= u16::MAX);
    law_handshake_round_trip(0, host, port as u16, 1, nothing);
    assert(data + nothing =~= data);
    law_varint_length(0);
    law_varint_length(1);
    law_varint_length(encode_utf8(host).len() as int);
    let hello = packet_bytes(0, data);
    let request = packet_bytes(0, nothing);
    law_packet_round_trip(0, data, request);
    assert(bytes.skip(hello.len() as int) =~= request);
    law_packet_round_trip(0, nothing, nothing);
    assert(request + nothing =~= request);
}

/// The document of a status response is what its length counts, whatever follows; a length that is
/// negative or counts more than there is, or is none, and a packet of another number, give none.
pub proof fn law_document_is_read(header: Seq<u8>, length: int, data: Seq<u8>, id: int)
    requires
        varint_outcome(header) == Ok::<(int, int), ProtocolError>((length, header.len() as int)),
        i32::MIN <= id <= i32::MAX,
    ensures
        id != 0 ==> reply_document(PacketView { id, data: header + data }) == Err::<
            Seq<u8>,
            ProbeError,
        >(ProbeError::UnexpectedPacket(id as i32)),
        reply_document(PacketView { id: 0, data: header + data }) == (if 0 <= length
            <= data.len() {
            Ok::<Seq<u8>, ProbeError>(data.take(length))
        } else {
            Err(ProbeError::OutOfBounds)
        }),
        varint_outcome(data) matches Err(error) ==> reply_document(PacketView { id: 0, data })
            == Err::<Seq<u8>, ProbeError>(ProbeError::Protocol(error)),
{
    let all = header + data;
    assert(all.take(header.len() as int) =~= header);
    lemma_outcome_of_prefix(all, header.len() as int);
    if 0 <= length <= data.len() {
        assert(all.subrange(header.len() as int, header.len() + length) =~= data.take(length));
    }
}

/// A version is made of a protocol number, of which the low 32 bits count, and a name as it is. The
/// number is missed first.
pub proof fn law_version_of_fields(protocol: Option<int>, name: Option<Seq<char>>)
    ensures
        protocol is None ==> version_outcome(protocol, name) == Err::<
            (int, Seq<char>),
            ProbeError,
        >(ProbeError::NoProtocol),
        protocol is Some && name is None ==> version_outcome(protocol, name) == Err::<
            (int, Seq<char>),
            ProbeError,
        >(ProbeError::NoVersion),
        protocol matches Some(n) ==> (name matches Some(text) ==> (version_outcome(
            protocol,
            name,
        ) matches Ok((number, shown)) && shown == text && i32::MIN <= number <= i32::MAX && (n
            - number) % 0x1_0000_0000 == 0)),
{
}

/// A document names a version by the members `protocol` and `name` of its member `version`, whatever
/// else it holds. Without a number there it names none, nor without a text.
pub proof fn law_document_version(
    members: Map<Seq<char>, JsonTree>,
    version: Map<Seq<char>, JsonTree>,
)
    requires
        members.dom().contains("version"@) && members["version"@] == JsonTree::Object(version),
    ensures
        ({
            let named = document_version(Some(JsonTree::Object(members)));
            let number = if version.dom().contains("protocol"@) {
                match version["protocol"@] {
                    JsonTree::Int(n) if i64::MIN <= n <= i64::MAX => Some(n),
                    _ => None,
                }
            } else {
                None
            };
            let name = if version.dom().contains("name"@) {
                match version["name"@] {
                    JsonTree::Text(text) => Some(text),
                    _ => None,
                }
            } else {
                None
            };
            &&& number is None ==> named == Err::<(int, Seq<char>), ProbeError>(
                ProbeError::NoProtocol,
            )
            &&& number is Some && name is None ==> named == Err::<(int, Seq<char>), ProbeError>(
                ProbeError::NoVersion,
            )
            &&& number is Some && name is Some ==> named == Ok::<(int, Seq<char>), ProbeError>(
                (signed32(number->0), name->0),
            )
        }),
{
}

/// What is no JSON document names no version, and neither does one without a member `version`.
pub proof fn law_no_version(tree: JsonTree)
    requires
        !(tree is Object) || !tree->Object_0.dom().contains("version"@),
    ensures
        document_version(None) == Err::<(int, Seq<char>), ProbeError>(ProbeError::InvalidJson),
        document_version(Some(tree)) == Err::<(int, Seq<char>), ProbeError>(ProbeError::NoProtocol),
{
}

/// The version in a status response is that of the document in it.
pub proof fn law_reply_version(packet: PacketView)
    ensures
        reply_document(packet) matches Err(error) ==> reply_version(packet) == Err::<
            (int, Seq<char>),
            ProbeError,
        >(error),
        reply_document(packet) matches Ok(bytes) ==> reply_version(packet) == document_version(
            json_document(bytes),
        ),
{
}

} // verus!
