use vstd::prelude::*;
use vstd::utf8::{decode_utf8, encode_utf8, valid_utf8};

use super::cursor::Cursor;
use super::error::ProtocolError;
use super::varint::{encode_varint, low_i32, read_varint_sync, VarintReader};
use crate::text::string_from_utf8;

verus! {

/// The largest packet that is read: 2^21 - 1 bytes after the length prefix.
pub const MAX_PACKET_LEN: usize = 2_097_151;

/// The longest string that is read, in bytes.
pub const MAX_STRING_LEN: usize = 131_072;

/// A packet without its frame.
pub struct RawPacket {
    pub id: i32,
    pub data: Vec<u8>,
}

pub struct PacketView {
    pub id: int,
    pub data: Seq<u8>,
}

impl View for RawPacket {
    type V = PacketView;

    open spec fn view(&self) -> PacketView {
        PacketView { id: self.id as int, data: self.data@ }
    }
}

/// What the body of a packet, the bytes that its length prefix counts, holds.
pub open spec fn body_outcome(body: Seq<u8>) -> Result<PacketView, ProtocolError> {
    match super::varint::varint_outcome(body) {
        Err(error) => Err(error),
        Ok((id, used)) => Ok(PacketView { id, data: body.skip(used) }),
    }
}

/// Whether a packet may be `length` bytes long.
pub open spec fn length_outcome(length: int, max: usize) -> Result<int, ProtocolError> {
    if length < 0 {
        Err(ProtocolError::NegativeLength(length as i32))
    } else if length > max {
        Err(ProtocolError::LengthExceedsMax { length: length as usize, max })
    } else {
        Ok(length)
    }
}

/// What reading a packet from the start of `bytes` gives: the packet and the number of bytes that
/// its frame takes.
pub open spec fn packet_outcome(bytes: Seq<u8>) -> Result<(PacketView, int), ProtocolError> {
    match super::varint::varint_outcome(bytes) {
        Err(error) => Err(error),
        Ok((length, used)) => match length_outcome(length, MAX_PACKET_LEN) {
            Err(error) => Err(error),
            Ok(length) => if bytes.len() < used + length {
                Err(ProtocolError::UnexpectedEof)
            } else {
                match body_outcome(bytes.subrange(used, used + length)) {
                    Err(error) => Err(error),
                    Ok(packet) => Ok((packet, used + length)),
                }
            },
        },
    }
}

/// How many bytes reading something of at most `max` bytes, with its length before it, uses up from
/// the start of `bytes`, whether it succeeds or not. After a length that is refused nothing more is
/// read, and where `bytes` break off they are used up.
pub open spec fn framed_taken(bytes: Seq<u8>, max: usize) -> int {
    match super::varint::varint_outcome(bytes) {
        Err(_) => super::varint::varint_taken(bytes),
        Ok((length, used)) => match length_outcome(length, max) {
            Err(_) => used,
            Ok(length) => if bytes.len() < used + length {
                bytes.len() as int
            } else {
                used + length
            },
        },
    }
}

/// The frame of a packet: the length of what follows, the packet's number and its data.
pub open spec fn packet_bytes(id: int, data: Seq<u8>) -> Seq<u8> {
    let body = super::varint::varint_bytes(id) + data;
    super::varint::varint_bytes(body.len() as int) + body
}

/// A string on the wire: the length of its UTF-8 form, and that form.
pub open spec fn string_bytes(text: Seq<char>) -> Seq<u8> {
    super::varint::varint_bytes(encode_utf8(text).len() as int) + encode_utf8(text)
}

/// What reading a string from the start of `bytes` gives: the string and the number of bytes that
/// it takes.
pub open spec fn string_outcome(bytes: Seq<u8>) -> Result<(Seq<char>, int), ProtocolError> {
    match super::varint::varint_outcome(bytes) {
        Err(error) => Err(error),
        Ok((length, used)) => match length_outcome(length, MAX_STRING_LEN) {
            Err(error) => Err(error),
            Ok(length) => if bytes.len() < used + length {
                Err(ProtocolError::UnexpectedEof)
            } else if !valid_utf8(bytes.subrange(used, used + length)) {
                Err(ProtocolError::InvalidUtf8)
            } else {
                Ok((decode_utf8(bytes.subrange(used, used + length)), used + length))
            },
        },
    }
}

/// Holds a length prefix to its limits.
fn checked_length(length: i32, max: usize) -> (checked: Result<usize, ProtocolError>)
    ensures
        match length_outcome(length as int, max) {
            Ok(length) => checked is Ok && checked->Ok_0 == length,
            Err(error) => checked is Err && checked->Err_0 == error,
        },
{
    if length < 0 {
        Err(ProtocolError::NegativeLength(length))
    } else if length as usize > max {
        Err(ProtocolError::LengthExceedsMax { length: length as usize, max })
    } else {
        Ok(length as usize)
    }
}

/// A packet that arrives in pieces. What to read next, `wanted` says; what was read, `accept`
/// takes.
pub enum PacketReader {
    /// The length prefix is not complete.
    Length(VarintReader),
    /// The length prefix was `header` and announced `length` bytes.
    Body { header: Vec<u8>, length: usize },
}

/// What a piece of a packet led to.
pub enum PacketProgress {
    /// The packet goes on.
    More(PacketReader),
    /// The packet is complete: the packet, and its frame as it was received.
    Done(RawPacket, Vec<u8>),
}

impl PacketReader {
    /// The bytes taken so far.
    pub open spec fn consumed(&self) -> Seq<u8> {
        match self {
            PacketReader::Length(reader) => reader.seen@,
            PacketReader::Body { header, .. } => header@,
        }
    }

    pub open spec fn wf(&self) -> bool {
        match self {
            PacketReader::Length(reader) => reader.wf(),
            PacketReader::Body { header, length } => {
                &&& *length <= MAX_PACKET_LEN
                &&& super::varint::varint_outcome(header@) == Ok::<(int, int), ProtocolError>(
                    (*length as int, header@.len() as int),
                )
            },
        }
    }

    /// How many bytes to read next.
    pub open spec fn wanted_len(&self) -> int {
        match self {
            PacketReader::Length(_) => 1,
            PacketReader::Body { length, .. } => *length as int,
        }
    }

    pub fn new() -> (reader: Self)
        ensures
            reader.wf(),
            reader.consumed() == Seq::<u8>::empty(),
    {
        PacketReader::Length(VarintReader::new())
    }

    pub fn wanted(&self) -> (count: usize)
        ensures
            count == self.wanted_len(),
    {
        match self {
            PacketReader::Length(_) => 1,
            PacketReader::Body { length, .. } => *length,
        }
    }

    /// Takes the bytes that were wanted. An error holds whatever else would have followed, and
    /// nothing of that is used up.
    pub fn accept(self, bytes: &[u8]) -> (progress: Result<PacketProgress, ProtocolError>)
        requires
            self.wf(),
            bytes@.len() == self.wanted_len(),
        ensures
            ({
                let all = self.consumed() + bytes@;
                match progress {
                    Ok(PacketProgress::More(next)) => {
                        &&& self is Length
                        &&& next.wf()
                        &&& next.consumed() == all
                    },
                    Ok(PacketProgress::Done(packet, raw)) => {
                        &&& self is Body
                        &&& raw@ == all
                        &&& packet_outcome(all) == Ok::<(PacketView, int), ProtocolError>(
                            (packet@, all.len() as int),
                        )
                    },
                    Err(error) => forall|later: Seq<u8>| #[trigger]
                        packet_outcome(all + later) == Err::<(PacketView, int), ProtocolError>(
                            error,
                        ) && framed_taken(all + later, MAX_PACKET_LEN) == all.len(),
                }
            }),
    {
        let ghost all = self.consumed() + bytes@;
        match self {
            PacketReader::Length(mut reader) => {
                let step = reader.accept(bytes[0]);
                assert(reader.seen@ =~= all);
                proof {
                    assert forall|later: Seq<u8>| #[trigger]
                        super::varint::varint_outcome(all + later)
                            == super::varint::varint_outcome(all) || super::varint::varint_outcome(
                            all,
                        ) == Err::<(int, int), ProtocolError>(ProtocolError::UnexpectedEof) by {
                        assert((all + later).take(all.len() as int) =~= all);
                        super::varint::lemma_outcome_of_prefix(all + later, all.len() as int);
                    }
                }
                match step {
                    Err(error) => Err(error),
                    Ok(None) => Ok(PacketProgress::More(PacketReader::Length(reader))),
                    Ok(Some(value)) => match checked_length(value, MAX_PACKET_LEN) {
                        Err(error) => Err(error),
                        Ok(length) => Ok(
                            PacketProgress::More(
                                PacketReader::Body { header: reader.seen, length },
                            ),
                        ),
                    },
                }
            },
            PacketReader::Body { header, length } => {
                let ghost used = header@.len() as int;
                proof {
                    assert forall|later: Seq<u8>| #[trigger]
                        packet_outcome(all + later) == (match body_outcome(bytes@) {
                            Err(error) => Err::<(PacketView, int), ProtocolError>(error),
                            Ok(packet) => Ok((packet, all.len() as int)),
                        }) && framed_taken(all + later, MAX_PACKET_LEN) == all.len() by {
                        let whole = all + later;
                        assert(whole.take(used) =~= header@);
                        super::varint::lemma_outcome_of_prefix(whole, used);
                        assert(whole.subrange(used, used + length) =~= bytes@);
                    }
                    assert(all + Seq::<u8>::empty() =~= all);
                    assert(packet_outcome(all + Seq::<u8>::empty()) == packet_outcome(all));
                }
                let mut cursor = Cursor::new(bytes);
                match read_varint_sync(&mut cursor) {
                    Err(error) => Err(error),
                    Ok(id) => {
                        let data: Vec<u8> = vstd::slice::slice_to_vec(
                            vstd::slice::slice_subrange(bytes, cursor.pos, bytes.len()),
                        );
                        assert(data@ =~= bytes@.skip(cursor.pos as int));
                        let mut raw: Vec<u8> = header;
                        raw.extend_from_slice(bytes);
                        assert(raw@ =~= all);
                        Ok(PacketProgress::Done(RawPacket { id, data }, raw))
                    },
                }
            },
        }
    }
}

/// Reads one packet. Beside the packet stands its frame, byte for byte as it was received.
pub fn read_packet(cursor: &mut Cursor) -> (read: Result<(RawPacket, Vec<u8>), ProtocolError>)
    requires
        old(cursor).wf(),
    ensures
        final(cursor).wf(),
        final(cursor).advanced(old(cursor), framed_taken(old(cursor).rest(), MAX_PACKET_LEN)),
        match packet_outcome(old(cursor).rest()) {
            Ok((packet, used)) => {
                &&& read is Ok
                &&& read->Ok_0.0@ == packet
                &&& read->Ok_0.1@ == old(cursor).rest().take(used)
                &&& final(cursor).advanced(old(cursor), used)
            },
            Err(error) => read is Err && read->Err_0 == error,
        },
{
    let ghost start = *cursor;
    let ghost input = cursor.rest();
    let mut reader = PacketReader::new();
    loop
        invariant
            cursor.wf(),
            cursor.data@ == start.data@,
            start == *old(cursor),
            start.wf(),
            input == start.rest(),
            reader.wf(),
            reader.consumed().len() <= input.len(),
            reader.consumed() == input.take(reader.consumed().len() as int),
            cursor.pos == start.pos + reader.consumed().len(),
        decreases (if reader is Length { 6 - reader.consumed().len() } else { 0 }),
    {
        let ghost count = reader.consumed().len() as int;
        assert(cursor.rest() =~= input.skip(count));
        let wanted: usize = reader.wanted();
        match cursor.read_exact(wanted) {
            Err(error) => {
                proof {
                    if reader is Length {
                        assert(input.take(count) =~= input);
                        super::varint::lemma_all_continuations(input);
                    } else {
                        super::varint::lemma_outcome_of_prefix(input, count);
                    }
                }
                return Err(error);
            },
            Ok(bytes) => {
                let ghost all = reader.consumed() + bytes@;
                proof {
                    assert(all =~= input.take(count + wanted));
                    assert(all + input.skip(count + wanted) =~= input);
                    assert(all + Seq::<u8>::empty() =~= all);
                }
                match reader.accept(bytes.as_slice()) {
                    Err(error) => return Err(error),
                    Ok(PacketProgress::Done(packet, raw)) => {
                        proof {
                            lemma_packet_of_prefix(input, all.len() as int);
                        }
                        return Ok((packet, raw));
                    },
                    Ok(PacketProgress::More(next)) => {
                        reader = next;
                    },
                }
            },
        }
    }
}

/// Frames a packet.
pub fn encode_packet(id: i32, data: &[u8]) -> (frame: Vec<u8>)
    ensures
        frame@ == packet_bytes(id as int, data@),
{
    let mut body: Vec<u8> = encode_varint(id);
    body.extend_from_slice(data);
    let mut frame: Vec<u8> = encode_varint(low_i32(body.len() as u64));
    frame.extend_from_slice(body.as_slice());
    proof {
        super::varint::lemma_low_bits(body@.len() as int);
    }
    frame
}

/// Writes a string with its length before it.
pub fn encode_string(s: &str) -> (bytes: Vec<u8>)
    ensures
        bytes@ == string_bytes(s@),
{
    let text: &[u8] = s.as_bytes();
    let mut bytes: Vec<u8> = encode_varint(low_i32(text.len() as u64));
    bytes.extend_from_slice(text);
    proof {
        super::varint::lemma_low_bits(text@.len() as int);
    }
    bytes
}

/// Reads a string with its length before it.
pub fn read_string_sync(cursor: &mut Cursor) -> (read: Result<String, ProtocolError>)
    requires
        old(cursor).wf(),
    ensures
        final(cursor).wf(),
        final(cursor).advanced(old(cursor), framed_taken(old(cursor).rest(), MAX_STRING_LEN)),
        match string_outcome(old(cursor).rest()) {
            Ok((text, used)) => {
                &&& read is Ok
                &&& read->Ok_0@ == text
                &&& final(cursor).advanced(old(cursor), used)
                &&& final(cursor).rest() == old(cursor).rest().skip(used)
            },
            Err(error) => read is Err && read->Err_0 == error,
        },
{
    let ghost input = cursor.rest();
    proof {
        super::varint::law_varint_shortest(input);
    }
    let length: i32 = match read_varint_sync(cursor) {
        Err(error) => return Err(error),
        Ok(length) => length,
    };
    let length: usize = match checked_length(length, MAX_STRING_LEN) {
        Err(error) => return Err(error),
        Ok(length) => length,
    };
    let ghost used = cursor.pos - old(cursor).pos;
    let bytes: Vec<u8> = match cursor.read_exact(length) {
        Err(error) => return Err(error),
        Ok(bytes) => bytes,
    };
    assert(bytes@ =~= input.subrange(used, used + length));
    assert(cursor.rest() =~= input.skip(used + length));
    match string_from_utf8(bytes) {
        None => Err(ProtocolError::InvalidUtf8),
        Some(text) => Ok(text),
    }
}

/// Where the first `count` bytes of `bytes` hold a whole packet, the bytes after them do not
/// matter.
pub proof fn lemma_packet_of_prefix(bytes: Seq<u8>, count: int)
    requires
        0 <= count <= bytes.len(),
        packet_outcome(bytes.take(count)) is Ok,
    ensures
        packet_outcome(bytes) == packet_outcome(bytes.take(count)),
{
    let prefix = bytes.take(count);
    super::varint::lemma_outcome_of_prefix(bytes, count);
    let (length, used) = super::varint::varint_outcome(prefix)->Ok_0;
    super::varint::law_varint_shortest(prefix);
    assert(prefix.subrange(used, used + length) =~= bytes.subrange(used, used + length));
}

/// A framed packet reads back as the packet, its frame is what was read, and what follows is left
/// alone. A packet that is too long to be read is left out.
pub proof fn law_packet_round_trip(id: i32, data: Seq<u8>, rest: Seq<u8>)
    requires
        super::varint::varint_bytes(id as int).len() + data.len() <= MAX_PACKET_LEN,
    ensures
        packet_outcome(packet_bytes(id as int, data) + rest) == Ok::<
            (PacketView, int),
            ProtocolError,
        >((PacketView { id: id as int, data }, packet_bytes(id as int, data).len() as int)),
        (packet_bytes(id as int, data) + rest).take(packet_bytes(id as int, data).len() as int)
            == packet_bytes(id as int, data),
{
    let number = super::varint::varint_bytes(id as int);
    let body = number + data;
    let header = super::varint::varint_bytes(body.len() as int);
    let all = packet_bytes(id as int, data) + rest;
    super::varint::law_varint_round_trip(body.len() as i32, body + rest);
    assert(all =~= header + (body + rest));
    assert(all.subrange(header.len() as int, (header.len() + body.len()) as int) =~= body);
    super::varint::law_varint_round_trip(id, data);
    assert(body.skip(number.len() as int) =~= data);
    assert(all.take(packet_bytes(id as int, data).len() as int) =~= packet_bytes(id as int, data));
}

/// A frame whose body is longer than the limit is rejected before the body is looked at.
pub proof fn law_oversized_packet_rejected(length: i32, rest: Seq<u8>)
    requires
        length > MAX_PACKET_LEN,
    ensures
        packet_outcome(super::varint::varint_bytes(length as int) + rest) == Err::<
            (PacketView, int),
            ProtocolError,
        >(ProtocolError::LengthExceedsMax { length: length as usize, max: MAX_PACKET_LEN }),
        framed_taken(super::varint::varint_bytes(length as int) + rest, MAX_PACKET_LEN)
            == super::varint::varint_bytes(length as int).len(),
{
    super::varint::law_varint_round_trip(length, rest);
}

/// A frame with a negative length is rejected before the body is looked at.
pub proof fn law_negative_packet_rejected(length: i32, rest: Seq<u8>)
    requires
        length < 0,
    ensures
        packet_outcome(super::varint::varint_bytes(length as int) + rest) == Err::<
            (PacketView, int),
            ProtocolError,
        >(ProtocolError::NegativeLength(length)),
        framed_taken(super::varint::varint_bytes(length as int) + rest, MAX_PACKET_LEN)
            == super::varint::varint_bytes(length as int).len(),
{
    super::varint::law_varint_round_trip(length, rest);
}

/// No packet that is read is longer than the limit, and none is longer than the input.
pub proof fn law_packet_bounded(bytes: Seq<u8>)
    ensures
        packet_outcome(bytes) matches Ok((packet, used)) ==> packet.data.len() < MAX_PACKET_LEN
            && 0 < used <= bytes.len() && used <= MAX_PACKET_LEN + 5,
{
    if let Ok((packet, used)) = packet_outcome(bytes) {
        let (length, header) = super::varint::varint_outcome(bytes)->Ok_0;
        super::varint::law_varint_shortest(bytes);
        super::varint::law_varint_length(length);
        let body = bytes.subrange(header, header + length);
        let (id, number) = super::varint::varint_outcome(body)->Ok_0;
        super::varint::law_varint_shortest(body);
        super::varint::law_varint_length(id);
    }
}

/// A string reads back as it was written, whatever follows it. A string that is too long to be
/// read is left out.
pub proof fn law_string_round_trip(text: Seq<char>, rest: Seq<u8>)
    requires
        encode_utf8(text).len() <= MAX_STRING_LEN,
    ensures
        string_outcome(string_bytes(text) + rest) == Ok::<(Seq<char>, int), ProtocolError>(
            (text, string_bytes(text).len() as int),
        ),
{
    let bytes = encode_utf8(text);
    let header = super::varint::varint_bytes(bytes.len() as int);
    let all = string_bytes(text) + rest;
    super::varint::law_varint_round_trip(bytes.len() as i32, bytes + rest);
    assert(all =~= header + (bytes + rest));
    assert(all.subrange(header.len() as int, (header.len() + bytes.len()) as int) =~= bytes);
    vstd::utf8::encode_utf8_valid_utf8(text);
    vstd::utf8::encode_utf8_decode_utf8(text);
}

/// A string whose length prefix is over the limit or negative is rejected before its bytes are
/// looked at.
pub proof fn law_string_length_rejected(length: i32, rest: Seq<u8>)
    requires
        length < 0 || length > MAX_STRING_LEN,
    ensures
        string_outcome(super::varint::varint_bytes(length as int) + rest) == (if length < 0 {
            Err::<(Seq<char>, int), ProtocolError>(ProtocolError::NegativeLength(length))
        } else {
            Err(
                ProtocolError::LengthExceedsMax { length: length as usize, max: MAX_STRING_LEN },
            )
        }),
        framed_taken(super::varint::varint_bytes(length as int) + rest, MAX_STRING_LEN)
            == super::varint::varint_bytes(length as int).len(),
{
    super::varint::law_varint_round_trip(length, rest);
}

/// A frame is a length, that many bytes, and nothing else: a packet's number, and its data to the
/// end. It reads so however long the length and the number are written, and whatever follows.
pub proof fn law_packet_is_read(header: Seq<u8>, number: Seq<u8>, data: Seq<u8>, rest: Seq<u8>)
    requires
        super::varint::varint_outcome(header) == Ok::<(int, int), ProtocolError>(
            ((number.len() + data.len()) as int, header.len() as int),
        ),
        number.len() + data.len() <= MAX_PACKET_LEN,
        super::varint::varint_outcome(number) matches Ok((_, used)) && used == number.len(),
    ensures
        packet_outcome(header + number + data + rest) == Ok::<(PacketView, int), ProtocolError>(
            (
                PacketView { id: super::varint::varint_outcome(number)->Ok_0.0, data },
                (header.len() + number.len() + data.len()) as int,
            ),
        ),
        framed_taken(header + number + data + rest, MAX_PACKET_LEN) == header.len() + number.len()
            + data.len(),
{
    let all = header + number + data + rest;
    let body = number + data;
    assert(all.take(header.len() as int) =~= header);
    super::varint::lemma_outcome_of_prefix(all, header.len() as int);
    assert(all.subrange(header.len() as int, (header.len() + body.len()) as int) =~= body);
    assert(body.take(number.len() as int) =~= number);
    super::varint::lemma_outcome_of_prefix(body, number.len() as int);
    assert(body.skip(number.len() as int) =~= data);
}

/// A frame that breaks off is not a packet, and is used up.
pub proof fn law_cut_packet_rejected(header: Seq<u8>, length: int, part: Seq<u8>)
    requires
        super::varint::varint_outcome(header) == Ok::<(int, int), ProtocolError>(
            (length, header.len() as int),
        ),
        part.len() < length <= MAX_PACKET_LEN,
    ensures
        packet_outcome(header + part) == Err::<(PacketView, int), ProtocolError>(
            ProtocolError::UnexpectedEof,
        ),
        framed_taken(header + part, MAX_PACKET_LEN) == header.len() + part.len(),
{
    assert((header + part).take(header.len() as int) =~= header);
    super::varint::lemma_outcome_of_prefix(header + part, header.len() as int);
}

/// The frame of a packet is the number of bytes after it, the packet's number and the data.
pub proof fn law_packet_layout(id: int, data: Seq<u8>)
    ensures
        ({
            let number = super::varint::varint_bytes(id);
            let header = super::varint::varint_bytes((number.len() + data.len()) as int);
            packet_bytes(id, data) == header + number + data
        }),
{
    let number = super::varint::varint_bytes(id);
    let header = super::varint::varint_bytes((number.len() + data.len()) as int);
    assert(packet_bytes(id, data) =~= header + number + data);
}

/// A string is a length and that many bytes of UTF-8. It reads so however long the length is
/// written, and whatever follows.
pub proof fn law_string_is_read(header: Seq<u8>, bytes: Seq<u8>, rest: Seq<u8>)
    requires
        super::varint::varint_outcome(header) == Ok::<(int, int), ProtocolError>(
            (bytes.len() as int, header.len() as int),
        ),
        bytes.len() <= MAX_STRING_LEN,
    ensures
        string_outcome(header + bytes + rest) == (if valid_utf8(bytes) {
            Ok::<(Seq<char>, int), ProtocolError>(
                (decode_utf8(bytes), (header.len() + bytes.len()) as int),
            )
        } else {
            Err(ProtocolError::InvalidUtf8)
        }),
        framed_taken(header + bytes + rest, MAX_STRING_LEN) == header.len() + bytes.len(),
{
    let all = header + bytes + rest;
    assert(all.take(header.len() as int) =~= header);
    super::varint::lemma_outcome_of_prefix(all, header.len() as int);
    assert(all.subrange(header.len() as int, (header.len() + bytes.len()) as int) =~= bytes);
}

/// A string that breaks off is rejected, and is used up.
pub proof fn law_cut_string_rejected(header: Seq<u8>, length: int, part: Seq<u8>)
    requires
        super::varint::varint_outcome(header) == Ok::<(int, int), ProtocolError>(
            (length, header.len() as int),
        ),
        part.len() < length <= MAX_STRING_LEN,
    ensures
        string_outcome(header + part) == Err::<(Seq<char>, int), ProtocolError>(
            ProtocolError::UnexpectedEof,
        ),
        framed_taken(header + part, MAX_STRING_LEN) == header.len() + part.len(),
{
    assert((header + part).take(header.len() as int) =~= header);
    super::varint::lemma_outcome_of_prefix(header + part, header.len() as int);
}

/// What cannot be read as a VarInt cannot be read as a packet or a string either.
pub proof fn law_bad_length_rejected(bytes: Seq<u8>, error: ProtocolError)
    requires
        super::varint::varint_outcome(bytes) == Err::<(int, int), ProtocolError>(error),
    ensures
        packet_outcome(bytes) == Err::<(PacketView, int), ProtocolError>(error),
        string_outcome(bytes) == Err::<(Seq<char>, int), ProtocolError>(error),
{
}

/// A packet without a readable number is rejected, for the reason that the number is.
pub proof fn law_bad_number_rejected(header: Seq<u8>, body: Seq<u8>, rest: Seq<u8>)
    requires
        super::varint::varint_outcome(header) == Ok::<(int, int), ProtocolError>(
            (body.len() as int, header.len() as int),
        ),
        body.len() <= MAX_PACKET_LEN,
        super::varint::varint_outcome(body) is Err,
    ensures
        packet_outcome(header + body + rest) == Err::<(PacketView, int), ProtocolError>(
            super::varint::varint_outcome(body)->Err_0,
        ),
        framed_taken(header + body + rest, MAX_PACKET_LEN) == header.len() + body.len(),
{
    let all = header + body + rest;
    assert(all.take(header.len() as int) =~= header);
    super::varint::lemma_outcome_of_prefix(all, header.len() as int);
    assert(all.subrange(header.len() as int, (header.len() + body.len()) as int) =~= body);
}

/// The string on the wire is the length of its UTF-8 form and that form.
pub proof fn law_string_layout(text: Seq<char>)
    ensures
        string_bytes(text) == super::varint::varint_bytes(encode_utf8(text).len() as int)
            + encode_utf8(text),
{
}

} // verus!
