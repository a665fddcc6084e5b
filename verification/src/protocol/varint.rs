use vstd::prelude::*;

use super::cursor::Cursor;
use super::error::ProtocolError;

verus! {

/// The two's complement reading of the low 32 bits of `n`.
pub open spec fn signed32(n: int) -> int {
    let low = n % 0x1_0000_0000;
    if low < 0x8000_0000 {
        low
    } else {
        low - 0x1_0000_0000
    }
}

/// The low 32 bits of the two's complement form of `n`.
pub open spec fn unsigned32(n: int) -> int {
    n % 0x1_0000_0000
}

/// The number that `bytes` write seven bits at a time, the least significant group first. The top
/// bit of each byte does not count.
pub open spec fn group_value(bytes: Seq<u8>) -> int
    decreases bytes.len(),
{
    if bytes.len() == 0 {
        0
    } else {
        bytes[0] as int % 128 + 128 * group_value(bytes.skip(1))
    }
}

/// How many bytes at the start of `bytes` have their top bit set, up to the first that has not.
pub open spec fn leading_continuations(bytes: Seq<u8>) -> int
    decreases bytes.len(),
{
    if bytes.len() == 0 || bytes[0] < 128 {
        0
    } else {
        1 + leading_continuations(bytes.skip(1))
    }
}

/// What reading a VarInt from the start of `bytes` gives: its value and the number of bytes that
/// it takes.
pub open spec fn varint_outcome(bytes: Seq<u8>) -> Result<(int, int), ProtocolError> {
    let lead = leading_continuations(bytes);
    if lead >= 5 {
        Err(ProtocolError::VarIntTooLong)
    } else if lead == bytes.len() {
        Err(ProtocolError::UnexpectedEof)
    } else {
        Ok((signed32(group_value(bytes.take(lead + 1))), lead + 1))
    }
}

/// How many bytes reading a VarInt from the start of `bytes` uses up, whether it succeeds or not.
pub open spec fn varint_taken(bytes: Seq<u8>) -> int {
    match varint_outcome(bytes) {
        Ok((_, used)) => used,
        Err(ProtocolError::UnexpectedEof) => bytes.len() as int,
        Err(_) => 5,
    }
}

/// The shortest way to write `n`, seven bits to a byte.
pub open spec fn group_bytes(n: int) -> Seq<u8>
    decreases n,
{
    if n < 128 {
        seq![n as u8]
    } else {
        seq![(n % 128 + 128) as u8] + group_bytes(n / 128)
    }
}

/// The VarInt that stands for `value`.
pub open spec fn varint_bytes(value: int) -> Seq<u8> {
    group_bytes(unsigned32(value))
}

/// 128 to the power `n`.
spec fn weight(n: int) -> int
    decreases n,
{
    if n <= 0 {
        1
    } else {
        128 * weight(n - 1)
    }
}

proof fn lemma_group_value_push(bytes: Seq<u8>, byte: u8)
    ensures
        group_value(bytes.push(byte)) == group_value(bytes) + (byte as int % 128) * weight(
            bytes.len() as int,
        ),
    decreases bytes.len(),
{
    let longer = bytes.push(byte);
    if bytes.len() == 0 {
        assert(longer.skip(1) =~= Seq::<u8>::empty());
        assert(group_value(longer.skip(1)) == 0);
    } else {
        assert(longer.skip(1) =~= bytes.skip(1).push(byte));
        lemma_group_value_push(bytes.skip(1), byte);
        let low = byte as int % 128;
        let w = weight(bytes.len() - 1);
        assert(128 * (low * w) == low * (128 * w)) by (nonlinear_arith);
    }
}

proof fn lemma_group_value_bounds(bytes: Seq<u8>)
    ensures
        0 <= group_value(bytes) < weight(bytes.len() as int),
    decreases bytes.len(),
{
    if bytes.len() > 0 {
        lemma_group_value_bounds(bytes.skip(1));
    }
}

proof fn lemma_weights()
    ensures
        weight(0) == 1,
        weight(1) == 128,
        weight(2) == 16384,
        weight(3) == 2097152,
        weight(4) == 268435456,
{
    reveal_with_fuel(weight, 5);
}

proof fn lemma_leading_continuations_bounds(bytes: Seq<u8>)
    ensures
        0 <= leading_continuations(bytes) <= bytes.len(),
        forall|i: int| 0 <= i < leading_continuations(bytes) ==> bytes[i] >= 128,
        leading_continuations(bytes) < bytes.len() ==> bytes[leading_continuations(bytes)] < 128,
    decreases bytes.len(),
{
    if bytes.len() > 0 && bytes[0] >= 128 {
        let tail = bytes.skip(1);
        lemma_leading_continuations_bounds(tail);
        assert forall|i: int| 0 <= i < leading_continuations(bytes) implies bytes[i] >= 128 by {
            if i > 0 {
                assert(bytes[i] == tail[i - 1]);
            }
        }
    }
}

proof fn lemma_leading_continuations_is(bytes: Seq<u8>, count: int)
    requires
        0 <= count <= bytes.len(),
        forall|i: int| 0 <= i < count ==> bytes[i] >= 128,
        count < bytes.len() ==> bytes[count] < 128,
    ensures
        leading_continuations(bytes) == count,
    decreases bytes.len(),
{
    if count > 0 {
        let tail = bytes.skip(1);
        assert forall|i: int| 0 <= i < count - 1 implies tail[i] >= 128 by {
            assert(tail[i] == bytes[i + 1]);
        }
        lemma_leading_continuations_is(tail, count - 1);
    }
}

/// A VarInt stands for the low 32 bits of a number.
pub proof fn lemma_low_bits(n: int)
    ensures
        varint_bytes(signed32(n)) == varint_bytes(n),
{
    assert(unsigned32(signed32(n)) == unsigned32(n));
}

/// Fewer than five bytes that all announce another one are the start of a VarInt.
pub proof fn lemma_all_continuations(bytes: Seq<u8>)
    requires
        bytes.len() < 5,
        forall|i: int| 0 <= i < bytes.len() ==> bytes[i] >= 128,
    ensures
        varint_outcome(bytes) == Err::<(int, int), ProtocolError>(ProtocolError::UnexpectedEof),
{
    lemma_leading_continuations_is(bytes, bytes.len() as int);
}

/// A VarInt that arrives one byte at a time. `seen` holds the bytes so far as they came.
pub struct VarintReader {
    pub seen: Vec<u8>,
    pub value: u64,
}

impl VarintReader {
    /// The VarInt is not complete yet: so far every byte announced another one.
    pub open spec fn wf(&self) -> bool {
        &&& self.seen@.len() < 5
        &&& forall|i: int| 0 <= i < self.seen@.len() ==> self.seen@[i] >= 128
        &&& self.value == group_value(self.seen@)
    }

    pub fn new() -> (reader: Self)
        ensures
            reader.wf(),
            reader.seen@ == Seq::<u8>::empty(),
    {
        VarintReader { seen: Vec::new(), value: 0 }
    }

    /// Takes the next byte. `Some` is the value of the VarInt that this byte completes.
    pub fn accept(&mut self, byte: u8) -> (step: Result<Option<i32>, ProtocolError>)
        requires
            old(self).wf(),
        ensures
            final(self).seen@ == old(self).seen@.push(byte),
            match varint_outcome(final(self).seen@) {
                Ok((value, used)) => step is Ok && step->Ok_0 is Some && step->Ok_0->0 == value
                    && used == final(self).seen@.len(),
                Err(ProtocolError::UnexpectedEof) => step is Ok && step->Ok_0 is None
                    && final(self).wf(),
                Err(error) => step is Err && step->Err_0 == error && final(self).seen@.len() == 5,
            },
    {
        let count: usize = self.seen.len();
        let low: u64 = (byte % 128) as u64;
        proof {
            lemma_weights();
            lemma_group_value_bounds(self.seen@);
            lemma_group_value_push(self.seen@, byte);
        }
        let weighted: u64 = if count == 0 {
            low
        } else if count == 1 {
            low * 128
        } else if count == 2 {
            low * 16384
        } else if count == 3 {
            low * 2097152
        } else {
            low * 268435456
        };
        assert(weighted == low * weight(count as int));
        self.seen.push(byte);
        let ghost all = self.seen@;
        let total: u64 = self.value + weighted;
        assert(total == group_value(all));
        if byte < 128 {
            proof {
                lemma_leading_continuations_is(all, count as int);
                assert(all.take(count + 1) =~= all);
            }
            Ok(Some(low_i32(total)))
        } else if count < 4 {
            self.value = total;
            proof {
                lemma_leading_continuations_is(all, count + 1);
            }
            Ok(None)
        } else {
            proof {
                lemma_leading_continuations_is(all, 5);
            }
            Err(ProtocolError::VarIntTooLong)
        }
    }
}

/// The low 32 bits of `n` as a signed number.
pub(crate) fn low_i32(n: u64) -> (value: i32)
    ensures
        value == signed32(n as int),
{
    let low: u32 = #[verifier::truncate] (n as u32);
    assert(n as u32 == n % 0x1_0000_0000) by (bit_vector);
    let value: i32 = #[verifier::truncate] (low as i32);
    assert(low < 0x8000_0000 ==> low as i32 == low) by (bit_vector);
    assert(low >= 0x8000_0000 ==> low as i32 == low - 0x1_0000_0000) by (bit_vector);
    value
}

/// The low 32 bits of `n` as a signed number.
pub(crate) fn low_i32_of_i64(n: i64) -> (value: i32)
    ensures
        value == signed32(n as int),
{
    let low: u32 = #[verifier::truncate] (n as u32);
    assert(n as u32 == (n % 0x1_0000_0000 + 0x1_0000_0000) % 0x1_0000_0000) by (bit_vector);
    low_i32(low as u64)
}

/// The bits of `value` as an unsigned number.
pub(crate) fn to_u32(value: i32) -> (bits: u32)
    ensures
        bits == unsigned32(value as int),
{
    let bits: u32 = #[verifier::truncate] (value as u32);
    assert(value >= 0 ==> value as u32 == value) by (bit_vector);
    assert(value < 0 ==> value as u32 == value + 0x1_0000_0000) by (bit_vector);
    bits
}

/// Reads one VarInt from the cursor.
pub fn read_varint_sync(cursor: &mut Cursor) -> (read: Result<i32, ProtocolError>)
    requires
        old(cursor).wf(),
    ensures
        final(cursor).wf(),
        final(cursor).advanced(old(cursor), varint_taken(old(cursor).rest())),
        match varint_outcome(old(cursor).rest()) {
            Ok((value, used)) => read is Ok && read->Ok_0 == value && final(cursor).rest() == old(
                cursor,
            ).rest().skip(used),
            Err(error) => read == Err::<i32, ProtocolError>(error),
        },
{
    let ghost start = *cursor;
    let ghost input = cursor.rest();
    let mut reader = VarintReader::new();
    loop
        invariant
            cursor.wf(),
            cursor.data@ == start.data@,
            start == *old(cursor),
            start.wf(),
            input == start.rest(),
            reader.wf(),
            reader.seen@.len() <= input.len(),
            reader.seen@ == input.take(reader.seen@.len() as int),
            cursor.pos == start.pos + reader.seen@.len(),
        decreases 5 - reader.seen@.len(),
    {
        let ghost count = reader.seen@.len() as int;
        assert(cursor.rest() =~= input.skip(count));
        match cursor.read_u8() {
            Err(error) => {
                proof {
                    assert(input.take(count) =~= input);
                    lemma_leading_continuations_is(input, count);
                }
                return Err(error);
            },
            Ok(byte) => {
                let step = reader.accept(byte);
                proof {
                    assert(reader.seen@ =~= input.take(count + 1));
                    lemma_outcome_of_prefix(input, count + 1);
                    lemma_leading_continuations_bounds(reader.seen@);
                    assert(cursor.rest() =~= input.skip(count + 1));
                }
                match step {
                    Err(error) => return Err(error),
                    Ok(Some(value)) => return Ok(value),
                    Ok(None) => {},
                }
            },
        }
    }
}

/// Writes `value` as a VarInt.
pub fn encode_varint(value: i32) -> (bytes: Vec<u8>)
    ensures
        bytes@ == varint_bytes(value as int),
        1 <= bytes@.len() <= 5,
{
    let mut bytes: Vec<u8> = Vec::new();
    let mut left: u32 = to_u32(value);
    let ghost whole = left as int;
    proof {
        law_varint_length(value as int);
    }
    while left >= 128
        invariant
            group_bytes(whole) == bytes@ + group_bytes(left as int),
        decreases left,
    {
        let low: u8 = (left % 128) as u8;
        bytes.push(low + 128);
        assert(group_bytes(left as int) == seq![(low + 128) as u8] + group_bytes(
            left as int / 128,
        ));
        left = left / 128;
        assert(group_bytes(whole) =~= bytes@ + group_bytes(left as int));
    }
    bytes.push(left as u8);
    assert(group_bytes(whole) =~= bytes@);
    bytes
}

proof fn lemma_group_bytes(n: int)
    requires
        0 <= n,
    ensures
        group_bytes(n).len() >= 1,
        group_value(group_bytes(n)) == n,
        leading_continuations(group_bytes(n)) == group_bytes(n).len() - 1,
        forall|k: int| #![auto] k >= 1 && n < weight(k) ==> group_bytes(n).len() <= k,
    decreases n,
{
    let bytes = group_bytes(n);
    if n < 128 {
        assert(bytes.skip(1) =~= Seq::<u8>::empty());
        assert(group_value(bytes.skip(1)) == 0);
    } else {
        lemma_group_bytes(n / 128);
        assert(bytes.skip(1) =~= group_bytes(n / 128));
        assert forall|k: int| #![auto] k >= 1 && n < weight(k) implies bytes.len() <= k by {
            assert(weight(k) == 128 * weight(k - 1));
            assert(weight(0) == 1);
            assert(n / 128 < weight(k - 1));
        }
    }
}

/// Where the first `count` bytes of `bytes` settle what a VarInt reader makes of them, the bytes
/// after them do not matter.
pub proof fn lemma_outcome_of_prefix(bytes: Seq<u8>, count: int)
    requires
        0 <= count <= bytes.len(),
    ensures
        varint_outcome(bytes.take(count)) != Err::<(int, int), ProtocolError>(
            ProtocolError::UnexpectedEof,
        ) ==> varint_outcome(bytes) == varint_outcome(bytes.take(count)),
{
    let prefix = bytes.take(count);
    lemma_leading_continuations_bounds(prefix);
    let lead = leading_continuations(prefix);
    if lead < count {
        assert forall|i: int| 0 <= i < lead implies bytes[i] >= 128 by {
            assert(bytes[i] == prefix[i]);
        }
        lemma_leading_continuations_is(bytes, lead);
        assert(bytes.take(lead + 1) =~= prefix.take(lead + 1));
    } else {
        lemma_leading_continuations_bounds(bytes);
        if lead >= 5 && leading_continuations(bytes) < 5 {
            assert(prefix[leading_continuations(bytes)] >= 128);
        }
    }
}

/// A VarInt read back is the number that was written, whatever follows it.
pub proof fn law_varint_round_trip(value: i32, rest: Seq<u8>)
    ensures
        varint_outcome(varint_bytes(value as int) + rest) == Ok::<(int, int), ProtocolError>(
            (value as int, varint_bytes(value as int).len() as int),
        ),
{
    let bytes = varint_bytes(value as int);
    let all = bytes + rest;
    law_varint_length(value as int);
    lemma_group_bytes(unsigned32(value as int));
    assert(bytes.take(bytes.len() as int) =~= bytes);
    assert(all.take(bytes.len() as int) =~= bytes);
    lemma_outcome_of_prefix(all, bytes.len() as int);
}

/// A VarInt takes one to five bytes.
pub proof fn law_varint_length(value: int)
    ensures
        1 <= varint_bytes(value).len() <= 5,
{
    lemma_group_bytes(unsigned32(value));
    lemma_weights();
    assert(weight(5) == 128 * weight(4));
    assert(unsigned32(value) < weight(5));
}

/// No bytes that read as a number are fewer than those that are written for it.
pub proof fn law_varint_shortest(bytes: Seq<u8>)
    ensures
        varint_outcome(bytes) matches Ok((value, used)) ==> 1 <= varint_bytes(value).len() <= used
            <= bytes.len(),
{
    lemma_leading_continuations_bounds(bytes);
    if let Ok((value, used)) = varint_outcome(bytes) {
        law_varint_length(value);
        let read = group_value(bytes.take(used));
        lemma_group_value_bounds(bytes.take(used));
        lemma_weights();
        if used < 5 {
            assert(weight(used) <= weight(4));
            assert(unsigned32(value) == read);
            lemma_group_bytes(read);
            assert(read < weight(used));
        }
    }
}

/// Different numbers are written differently, and neither is the start of the other.
pub proof fn law_varint_prefix_free(a: i32, b: i32, rest: Seq<u8>)
    requires
        varint_bytes(b as int) == varint_bytes(a as int) + rest,
    ensures
        a == b,
        rest.len() == 0,
{
    law_varint_round_trip(a, rest);
    law_varint_round_trip(b, Seq::empty());
    assert(varint_bytes(b as int) + Seq::<u8>::empty() =~= varint_bytes(b as int));
}

/// A number is read as the one with the same low 32 bits that fits an `i32`.
pub proof fn law_signed32(n: int)
    ensures
        i32::MIN <= signed32(n) <= i32::MAX,
        (n - signed32(n)) % 0x1_0000_0000 == 0,
        i32::MIN <= n <= i32::MAX ==> signed32(n) == n,
{
}

/// What up to five bytes write, seven bits at a time, the least significant first.
pub open spec fn five_groups(bytes: Seq<u8>) -> int {
    let group = |i: int|
        if i < bytes.len() {
            bytes[i] as int % 128
        } else {
            0
        };
    group(0) + 128 * group(1) + 16384 * group(2) + 2097152 * group(3) + 268435456 * group(4)
}

proof fn lemma_five_groups(bytes: Seq<u8>)
    requires
        bytes.len() <= 5,
    ensures
        group_value(bytes) == five_groups(bytes),
{
    reveal_with_fuel(group_value, 6);
    let b1 = bytes.skip(1);
    let b2 = b1.skip(1);
    let b3 = b2.skip(1);
    let b4 = b3.skip(1);
    if bytes.len() > 1 {
        assert(b1[0] == bytes[1]);
    }
    if bytes.len() > 2 {
        assert(b2[0] == bytes[2]);
    }
    if bytes.len() > 3 {
        assert(b3[0] == bytes[3]);
    }
    if bytes.len() > 4 {
        assert(b4[0] == bytes[4]);
    }
}

/// A VarInt ends with the first byte below 128, and its value is what its bytes write seven bits at
/// a time, as an `i32`. Five bytes without an end are too many, fewer are not enough.
pub proof fn law_varint_is_read(bytes: Seq<u8>, count: int)
    requires
        0 <= count <= bytes.len(),
        forall|i: int| 0 <= i < count ==> bytes[i] >= 128,
        count < bytes.len() ==> bytes[count] < 128,
    ensures
        varint_outcome(bytes) == (if count >= 5 {
            Err::<(int, int), ProtocolError>(ProtocolError::VarIntTooLong)
        } else if count == bytes.len() {
            Err(ProtocolError::UnexpectedEof)
        } else {
            Ok((signed32(five_groups(bytes.take(count + 1))), count + 1))
        }),
{
    lemma_leading_continuations_is(bytes, count);
    if count < 5 && count < bytes.len() {
        lemma_five_groups(bytes.take(count + 1));
    }
}

/// The bytes of a VarInt write the number itself, or a negative number plus 2^32; all but the last
/// are 128 or more, and the last is not 0 unless it is the only one.
pub proof fn law_varint_is_written(value: i32)
    ensures
        ({
            let bytes = varint_bytes(value as int);
            &&& 1 <= bytes.len() <= 5
            &&& five_groups(bytes) == (if value < 0 {
                value + 0x1_0000_0000
            } else {
                value as int
            })
            &&& forall|i: int| 0 <= i < bytes.len() - 1 ==> bytes[i] >= 128
            &&& bytes.last() < 128
            &&& bytes.len() > 1 ==> bytes.last() > 0
        }),
{
    let n = unsigned32(value as int);
    let bytes = varint_bytes(value as int);
    law_varint_length(value as int);
    lemma_group_bytes(n);
    lemma_five_groups(bytes);
    lemma_leading_continuations_bounds(bytes);
    lemma_last_group(n);
}

proof fn lemma_last_group(n: int)
    requires
        0 <= n,
    ensures
        group_bytes(n).len() > 0,
        group_bytes(n).last() < 128,
        n > 0 ==> group_bytes(n).last() > 0,
    decreases n,
{
    if n >= 128 {
        lemma_last_group(n / 128);
        assert(group_bytes(n).last() == group_bytes(n / 128).last());
    }
}

} // verus!
