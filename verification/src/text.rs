//! Small readers and writers of text: separators, white space and decimal numbers.

use vstd::prelude::*;
use vstd::utf8::{decode_utf8, is_ascii_chars, valid_utf8};

verus! {

/// Calls `String::from_utf8`, which gives the text back exactly where the bytes are UTF-8, and an
/// error everywhere else.
#[verifier::external_body]
pub(crate) fn string_from_utf8(bytes: Vec<u8>) -> (text: Option<String>)
    ensures
        text is Some <==> valid_utf8(bytes@),
        text is Some ==> text->0@ == decode_utf8(bytes@),
{
    String::from_utf8(bytes).ok()
}

/// What `String::from_utf8_lossy` makes of `bytes`.
pub uninterp spec fn lossy_text(bytes: Seq<u8>) -> Seq<char>;

/// Calls `String::from_utf8_lossy`. Bytes that are UTF-8 come out as the text they encode; what
/// stands for other bytes is named and not spelled out.
#[verifier::external_body]
pub(crate) fn string_from_utf8_lossy(bytes: &[u8]) -> (text: String)
    ensures
        text@ == lossy_text(bytes@),
        valid_utf8(bytes@) ==> text@ == decode_utf8(bytes@),
{
    String::from_utf8_lossy(bytes).into_owned()
}

/// What `str::to_lowercase` makes of `text`: its lowercase form by Unicode's rules.
pub uninterp spec fn lowercase_text(text: Seq<char>) -> Seq<char>;

/// `c`, or the small letter where it is one of the letters `A` to `Z`.
pub open spec fn small_letter(c: char) -> char {
    if 'A' <= c <= 'Z' {
        (c as u32 + 32) as char
    } else {
        c
    }
}

/// `text` with small letters for the letters `A` to `Z`.
pub open spec fn ascii_lowercase(text: Seq<char>) -> Seq<char> {
    text.map_values(|c: char| small_letter(c))
}

/// Calls `str::to_lowercase`; the result depends on the text alone. In a text of ASCII characters
/// the letters `A` to `Z` become small letters and all else stays; what becomes of other characters
/// is named and not spelled out.
#[verifier::external_body]
pub(crate) fn lowercase(text: &str) -> (lower: String)
    ensures
        lower@ == lowercase_text(text@),
        is_ascii_chars(text@) ==> lower@ == ascii_lowercase(text@),
{
    text.to_lowercase()
}

/// `String::push` adds one character at the end.
pub assume_specification[ String::push ](text: &mut String, c: char)
    ensures
        final(text)@ == old(text)@.push(c),
;

/// Where `c` first stands in `text`; its length where it does not occur.
pub open spec fn position_of(text: Seq<char>, c: char) -> int
    decreases text.len(),
{
    if text.len() == 0 || text[0] == c {
        0
    } else {
        1 + position_of(text.skip(1), c)
    }
}

/// The part of `text` before the first `c`; all of it where `c` does not occur.
pub open spec fn before(text: Seq<char>, c: char) -> Seq<char> {
    text.take(position_of(text, c))
}

/// The part of `text` after the first `c`; nothing where `c` does not occur.
pub open spec fn after(text: Seq<char>, c: char) -> Seq<char> {
    if position_of(text, c) < text.len() {
        text.skip(position_of(text, c) + 1)
    } else {
        Seq::empty()
    }
}

pub proof fn lemma_position_bounds(text: Seq<char>, c: char)
    ensures
        0 <= position_of(text, c) <= text.len(),
        position_of(text, c) < text.len() ==> text[position_of(text, c)] == c,
        forall|i: int| 0 <= i < position_of(text, c) ==> text[i] != c,
    decreases text.len(),
{
    if text.len() > 0 && text[0] != c {
        let tail = text.skip(1);
        lemma_position_bounds(tail, c);
        assert forall|i: int| 0 <= i < position_of(text, c) implies text[i] != c by {
            if i > 0 {
                assert(text[i] == tail[i - 1]);
            }
        }
    }
}

pub proof fn lemma_position_is(text: Seq<char>, c: char, at: int)
    requires
        0 <= at <= text.len(),
        at < text.len() ==> text[at] == c,
        forall|i: int| 0 <= i < at ==> text[i] != c,
    ensures
        position_of(text, c) == at,
    decreases text.len(),
{
    if at > 0 {
        let tail = text.skip(1);
        assert forall|i: int| 0 <= i < at - 1 implies tail[i] != c by {
            assert(tail[i] == text[i + 1]);
        }
        lemma_position_is(tail, c, at - 1);
    }
}

/// The characters of `text` in order.
pub(crate) fn chars_of(text: &str) -> (chars: Vec<char>)
    ensures
        chars@ == text@,
{
    let mut chars: Vec<char> = Vec::new();
    for c in it: text.chars()
        invariant
            it.seq() == text@,
            chars@ == text@.take(it.index()),
    {
        chars.push(c);
        assert(chars@ =~= text@.take(it.index() + 1));
    }
    assert(text@.take(text@.len() as int) =~= text@);
    chars
}

/// The text that `chars[from..to]` spell.
pub(crate) fn string_of(chars: &Vec<char>, from: usize, to: usize) -> (text: String)
    requires
        from <= to <= chars@.len(),
    ensures
        text@ == chars@.subrange(from as int, to as int),
{
    let mut text: String = String::new();
    let mut i: usize = from;
    while i < to
        invariant
            from <= i <= to <= chars@.len(),
            text@ == chars@.subrange(from as int, i as int),
        decreases to - i,
    {
        text.push(chars[i]);
        i = i + 1;
        assert(text@ =~= chars@.subrange(from as int, i as int));
    }
    text
}

/// The index of the first `c` in `chars[from..to]`; `to` where it does not occur.
pub(crate) fn find(chars: &Vec<char>, from: usize, to: usize, c: char) -> (at: usize)
    requires
        from <= to <= chars@.len(),
    ensures
        at == from + position_of(chars@.subrange(from as int, to as int), c),
        from <= at <= to,
{
    let ghost part = chars@.subrange(from as int, to as int);
    let mut i: usize = from;
    while i < to && chars[i] != c
        invariant
            from <= i <= to <= chars@.len(),
            part == chars@.subrange(from as int, to as int),
            forall|k: int| 0 <= k < i - from ==> part[k] != c,
        decreases to - i,
    {
        assert(part[i - from] == chars@[i as int]);
        i = i + 1;
    }
    proof {
        lemma_position_is(part, c, i - from);
    }
    i
}

/// Unicode's White_Space property.
pub open spec fn is_white_space(c: char) -> bool {
    ||| '\u{9}' <= c <= '\u{d}'
    ||| c == ' '
    ||| c == '\u{85}'
    ||| c == '\u{a0}'
    ||| c == '\u{1680}'
    ||| '\u{2000}' <= c <= '\u{200a}'
    ||| c == '\u{2028}'
    ||| c == '\u{2029}'
    ||| c == '\u{202f}'
    ||| c == '\u{205f}'
    ||| c == '\u{3000}'
}

/// Whether `c` is white space.
pub fn white_space(c: char) -> (is: bool)
    ensures
        is == is_white_space(c),
{
    ('\u{9}' <= c && c <= '\u{d}') || c == ' ' || c == '\u{85}' || c == '\u{a0}' || c == '\u{1680}'
        || ('\u{2000}' <= c && c <= '\u{200a}') || c == '\u{2028}' || c == '\u{2029}' || c
        == '\u{202f}' || c == '\u{205f}' || c == '\u{3000}'
}

pub open spec fn trim_start(text: Seq<char>) -> Seq<char>
    decreases text.len(),
{
    if text.len() > 0 && is_white_space(text[0]) {
        trim_start(text.skip(1))
    } else {
        text
    }
}

pub open spec fn trim_end(text: Seq<char>) -> Seq<char>
    decreases text.len(),
{
    if text.len() > 0 && is_white_space(text.last()) {
        trim_end(text.drop_last())
    } else {
        text
    }
}

/// `text` without the white space at both ends.
pub open spec fn trimmed(text: Seq<char>) -> Seq<char> {
    trim_end(trim_start(text))
}

/// The bounds of `chars[from..to]` without the white space at both ends.
pub(crate) fn trim(chars: &Vec<char>, from: usize, to: usize) -> (bounds: (usize, usize))
    requires
        from <= to <= chars@.len(),
    ensures
        from <= bounds.0 <= bounds.1 <= to,
        chars@.subrange(bounds.0 as int, bounds.1 as int) == trimmed(
            chars@.subrange(from as int, to as int),
        ),
{
    let ghost whole = chars@.subrange(from as int, to as int);
    let mut start: usize = from;
    while start < to && white_space(chars[start])
        invariant
            from <= start <= to <= chars@.len(),
            trim_start(whole) == trim_start(chars@.subrange(start as int, to as int)),
        decreases to - start,
    {
        assert(chars@.subrange(start as int, to as int).skip(1) =~= chars@.subrange(
            start + 1,
            to as int,
        ));
        start = start + 1;
    }
    let ghost inner = chars@.subrange(start as int, to as int);
    assert(trim_start(whole) == inner);
    let mut end: usize = to;
    while end > start && white_space(chars[end - 1])
        invariant
            from <= start <= end <= to <= chars@.len(),
            trim_end(inner) == trim_end(chars@.subrange(start as int, end as int)),
        decreases end,
    {
        assert(chars@.subrange(start as int, end as int).drop_last() =~= chars@.subrange(
            start as int,
            end - 1,
        ));
        end = end - 1;
    }
    (start, end)
}

/// `text` is one or more of the digits 0 to 9.
pub open spec fn is_digits(text: Seq<char>) -> bool {
    text.len() > 0 && forall|i: int| 0 <= i < text.len() ==> '0' <= #[trigger] text[i] <= '9'
}

/// The number that the digits `text` write.
pub open spec fn digits_value(text: Seq<char>) -> int
    decreases text.len(),
{
    if text.len() == 0 {
        0
    } else {
        digits_value(text.drop_last()) * 10 + (text.last() as int - '0' as int)
    }
}

/// The digits that write `n`, without leading zeros.
pub open spec fn decimal_text(n: int) -> Seq<char>
    decreases n,
{
    if n < 10 {
        seq![('0' as int + n) as char]
    } else {
        decimal_text(n / 10).push(('0' as int + n % 10) as char)
    }
}

/// `text` as a number in `low..=high`: digits, after at most one sign. A minus sign is a sign
/// only where `low` is negative.
pub open spec fn integer_in(text: Seq<char>, low: int, high: int) -> Option<int> {
    let value = if text.len() > 0 && text[0] == '-' && low < 0 && is_digits(text.skip(1)) {
        Some(-digits_value(text.skip(1)))
    } else if text.len() > 0 && text[0] == '+' && is_digits(text.skip(1)) {
        Some(digits_value(text.skip(1)))
    } else if is_digits(text) {
        Some(digits_value(text))
    } else {
        None
    };
    match value {
        Some(n) if low <= n <= high => Some(n),
        _ => None,
    }
}

proof fn lemma_digits_value_take(text: Seq<char>, count: int)
    requires
        0 <= count <= text.len(),
        is_digits(text),
    ensures
        0 <= digits_value(text.take(count)) <= digits_value(text),
    decreases text.len(),
{
    if count == text.len() {
        assert(text.take(count) =~= text);
        if count > 1 {
            assert(is_digits(text.drop_last()));
            lemma_digits_value_take(text.drop_last(), count - 1);
            assert(text.drop_last().take(count - 1) =~= text.drop_last());
        } else {
            assert(digits_value(text.drop_last()) == 0);
        }
    } else if text.len() == 1 {
        assert(digits_value(text.take(count)) == 0);
        assert(digits_value(text.drop_last()) == 0);
    } else {
        assert(is_digits(text.drop_last()));
        lemma_digits_value_take(text.drop_last(), count);
        assert(text.drop_last().take(count) =~= text.take(count));
    }
}

/// The number that the digits `chars[from..to]` write, where it is at most `high`.
fn parse_digits(chars: &Vec<char>, from: usize, to: usize, high: u32) -> (value: Option<u32>)
    requires
        from <= to <= chars@.len(),
    ensures
        ({
            let text = chars@.subrange(from as int, to as int);
            if is_digits(text) && digits_value(text) <= high {
                value is Some && value->0 == digits_value(text)
            } else {
                value is None
            }
        }),
{
    let ghost text = chars@.subrange(from as int, to as int);
    if from == to {
        return None;
    }
    let mut value: u64 = 0;
    let mut i: usize = from;
    assert(text.take(0) =~= Seq::<char>::empty());
    while i < to
        invariant
            from <= i <= to <= chars@.len(),
            from < to,
            text == chars@.subrange(from as int, to as int),
            value <= high,
            value == digits_value(text.take(i - from)),
            forall|k: int| 0 <= k < i - from ==> '0' <= #[trigger] text[k] <= '9',
        decreases to - i,
    {
        let c: char = chars[i];
        assert(c == text[i - from]);
        if c < '0' || '9' < c {
            return None;
        }
        let digit: u32 = c as u32 - '0' as u32;
        value = value * 10 + digit as u64;
        i = i + 1;
        proof {
            assert(text.take(i - from).drop_last() =~= text.take(i - from - 1));
            if is_digits(text) {
                lemma_digits_value_take(text, i - from);
            }
        }
        if value > high as u64 {
            return None;
        }
    }
    assert(text.take(to - from) =~= text);
    Some(value as u32)
}

/// Reads `chars[from..to]` as `str::parse` reads an `i32`.
pub(crate) fn parse_i32(chars: &Vec<char>, from: usize, to: usize) -> (value: Option<i32>)
    requires
        from <= to <= chars@.len(),
    ensures
        match integer_in(chars@.subrange(from as int, to as int), i32::MIN as int, i32::MAX as int) {
            Some(n) => value is Some && value->0 == n,
            None => value is None,
        },
{
    let ghost text = chars@.subrange(from as int, to as int);
    if from < to {
        assert(text.skip(1) =~= chars@.subrange(from + 1, to as int));
        assert(text[0] == chars@[from as int]);
        if chars[from] == '-' {
            assert(!is_digits(text));
            return match parse_digits(chars, from + 1, to, 0x8000_0000) {
                Some(n) => Some((-(n as i64)) as i32),
                None => None,
            };
        }
        if chars[from] == '+' {
            assert(!is_digits(text));
            return match parse_digits(chars, from + 1, to, 0x7fff_ffff) {
                Some(n) => Some(n as i32),
                None => None,
            };
        }
    }
    match parse_digits(chars, from, to, 0x7fff_ffff) {
        Some(n) => Some(n as i32),
        None => None,
    }
}

/// Reads `chars[from..to]` as `str::parse` reads a `u16`.
pub(crate) fn parse_u16(chars: &Vec<char>, from: usize, to: usize) -> (value: Option<u16>)
    requires
        from <= to <= chars@.len(),
    ensures
        match integer_in(chars@.subrange(from as int, to as int), 0, u16::MAX as int) {
            Some(n) => value is Some && value->0 == n,
            None => value is None,
        },
{
    let ghost text = chars@.subrange(from as int, to as int);
    let mut start: usize = from;
    if from < to {
        assert(text.skip(1) =~= chars@.subrange(from + 1, to as int));
        assert(text[0] == chars@[from as int]);
        if chars[from] == '+' {
            assert(!is_digits(text));
            start = from + 1;
        }
    }
    match parse_digits(chars, start, to, 0xffff) {
        Some(n) => Some(n as u16),
        None => None,
    }
}

/// Adds the decimal form of `n` to `text`.
pub(crate) fn push_decimal(text: &mut String, n: u16)
    ensures
        final(text)@ == old(text)@ + decimal_text(n as int),
    decreases n,
{
    if n >= 10 {
        push_decimal(text, n / 10);
    }
    let digit: u8 = 48 + (n % 10) as u8;
    text.push(digit as char);
    assert(text@ =~= old(text)@ + decimal_text(n as int));
}

/// The decimal form of a number reads back as the number.
pub proof fn law_decimal_round_trip(n: int)
    requires
        0 <= n,
    ensures
        is_digits(decimal_text(n)),
        digits_value(decimal_text(n)) == n,
    decreases n,
{
    let text = decimal_text(n);
    if n < 10 {
        assert(text.drop_last() =~= Seq::<char>::empty());
        assert(digits_value(text.drop_last()) == 0);
    } else {
        law_decimal_round_trip(n / 10);
        assert(text.drop_last() =~= decimal_text(n / 10));
        assert forall|i: int| 0 <= i < text.len() implies '0' <= #[trigger] text[i] <= '9' by {
            if i < text.len() - 1 {
                assert(text[i] == decimal_text(n / 10)[i]);
            }
        }
    }
}

/// `text` holds white space alone.
pub open spec fn is_blank(text: Seq<char>) -> bool {
    forall|i: int| 0 <= i < text.len() ==> is_white_space(#[trigger] text[i])
}

/// `text` has no white space at its ends.
pub open spec fn is_trimmed(text: Seq<char>) -> bool {
    text.len() > 0 ==> !is_white_space(text[0]) && !is_white_space(text.last())
}

/// White space around a text is taken off, and nothing else.
pub proof fn law_trimmed(lead: Seq<char>, text: Seq<char>, trail: Seq<char>)
    requires
        is_blank(lead),
        is_trimmed(text),
        is_blank(trail),
    ensures
        trimmed(lead + text + trail) == text,
{
    lemma_trim_start(lead, text + trail);
    assert(lead + text + trail =~= lead + (text + trail));
    if text.len() > 0 {
        assert((text + trail)[0] == text[0]);
        lemma_trim_end(text, trail);
    } else {
        assert(text + trail =~= trail);
        assert(trail =~= trail + Seq::<char>::empty());
        lemma_trim_start(trail, Seq::empty());
        assert(text =~= Seq::<char>::empty());
    }
}

proof fn lemma_trim_start(lead: Seq<char>, text: Seq<char>)
    requires
        is_blank(lead),
    ensures
        trim_start(lead + text) == trim_start(text),
    decreases lead.len(),
{
    if lead.len() == 0 {
        assert(lead + text =~= text);
    } else {
        let all = lead + text;
        assert(all[0] == lead[0]);
        assert(all.skip(1) =~= lead.skip(1) + text);
        assert forall|i: int| 0 <= i < lead.skip(1).len() implies is_white_space(
            #[trigger] lead.skip(1)[i],
        ) by {
            assert(lead.skip(1)[i] == lead[i + 1]);
        }
        lemma_trim_start(lead.skip(1), text);
    }
}

proof fn lemma_trim_end(text: Seq<char>, trail: Seq<char>)
    requires
        is_blank(trail),
    ensures
        trim_end(text + trail) == trim_end(text),
    decreases trail.len(),
{
    if trail.len() == 0 {
        assert(text + trail =~= text);
    } else {
        let all = text + trail;
        assert(all.last() == trail.last());
        assert(all.drop_last() =~= text + trail.drop_last());
        lemma_trim_end(text, trail.drop_last());
    }
}

/// A text that starts with no white space keeps its start when it is trimmed.
pub proof fn lemma_trim_keeps_start(lead: Seq<char>, text: Seq<char>)
    requires
        is_blank(lead),
        text.len() > 0,
        !is_white_space(text[0]),
    ensures
        trimmed(lead + text).len() > 0,
        trimmed(lead + text)[0] == text[0],
{
    lemma_trim_start(lead, text);
    lemma_trim_end_keeps_start(text);
}

proof fn lemma_trim_end_keeps_start(text: Seq<char>)
    requires
        text.len() > 0,
        !is_white_space(text[0]),
    ensures
        trim_end(text).len() > 0,
        trim_end(text)[0] == text[0],
    decreases text.len(),
{
    if is_white_space(text.last()) {
        lemma_trim_end_keeps_start(text.drop_last());
    }
}

/// Trimming adds no characters.
pub proof fn lemma_trimmed_part(text: Seq<char>)
    ensures
        forall|c: char| #[trigger] trimmed(text).contains(c) ==> text.contains(c),
{
    lemma_trim_start_part(text);
    lemma_trim_end_part(trim_start(text));
}

proof fn lemma_trim_start_part(text: Seq<char>)
    ensures
        forall|c: char| #[trigger] trim_start(text).contains(c) ==> text.contains(c),
    decreases text.len(),
{
    if text.len() > 0 && is_white_space(text[0]) {
        let tail = text.skip(1);
        lemma_trim_start_part(tail);
        assert forall|c: char| #[trigger] trim_start(text).contains(c) implies text.contains(c) by {
            assert(trim_start(tail).contains(c));
            let i = choose|i: int| 0 <= i < tail.len() && tail[i] == c;
            assert(text[i + 1] == c);
        }
    }
}

proof fn lemma_trim_end_part(text: Seq<char>)
    ensures
        forall|c: char| #[trigger] trim_end(text).contains(c) ==> text.contains(c),
    decreases text.len(),
{
    if text.len() > 0 && is_white_space(text.last()) {
        let head = text.drop_last();
        lemma_trim_end_part(head);
        assert forall|c: char| #[trigger] trim_end(text).contains(c) implies text.contains(c) by {
            assert(trim_end(head).contains(c));
            let i = choose|i: int| 0 <= i < head.len() && head[i] == c;
            assert(text[i] == c);
        }
    }
}

/// Each further digit makes a number ten times as large, and adds itself.
pub proof fn law_digits_in_turn(text: Seq<char>, digit: char)
    ensures
        digits_value(Seq::empty()) == 0,
        digits_value(text.push(digit)) == 10 * digits_value(text) + (digit as int - '0' as int),
{
    assert(text.push(digit).drop_last() =~= text);
}

/// Digits are read as the number that they write, with a plus sign before them or without, and with
/// a minus sign before them as its negative where there are negative numbers. A number out of range
/// is not read.
pub proof fn law_number_is_read(digits: Seq<char>, low: int, high: int)
    requires
        digits.len() > 0,
        forall|i: int| 0 <= i < digits.len() ==> '0' <= #[trigger] digits[i] <= '9',
    ensures
        ({
            let n = digits_value(digits);
            let read = if low <= n <= high {
                Some(n)
            } else {
                None
            };
            &&& integer_in(digits, low, high) == read
            &&& integer_in(seq!['+'] + digits, low, high) == read
            &&& integer_in(seq!['-'] + digits, low, high) == (if low < 0 && low <= -n <= high {
                Some(-n)
            } else {
                None
            })
        }),
{
    assert((seq!['+'] + digits).skip(1) =~= digits);
    assert((seq!['-'] + digits).skip(1) =~= digits);
    assert('0' <= digits[0] <= '9');
    assert((seq!['+'] + digits)[0] == '+');
    assert((seq!['-'] + digits)[0] == '-');
}

/// Only digits, after at most one sign, are read as a number.
pub proof fn law_only_numbers_are_read(text: Seq<char>, low: int, high: int)
    requires
        text.len() == 0 || exists|i: int|
            0 <= i < text.len() && !('0' <= #[trigger] text[i] <= '9') && (i > 0 || text.len() == 1
                || (text[0] != '+' && text[0] != '-')),
    ensures
        integer_in(text, low, high) is None,
{
    if text.len() > 0 {
        let i = choose|i: int|
            0 <= i < text.len() && !('0' <= #[trigger] text[i] <= '9') && (i > 0 || text.len() == 1
                || (text[0] != '+' && text[0] != '-'));
        assert(!is_digits(text));
        if i > 0 {
            assert(text.skip(1)[i - 1] == text[i]);
        }
    }
}

/// The decimal form of a number has no leading zeros.
pub proof fn law_decimal_shortest(n: int)
    requires
        0 <= n,
    ensures
        decimal_text(n).len() > 0,
        decimal_text(n)[0] == '0' ==> n == 0 && decimal_text(n).len() == 1,
    decreases n,
{
    if n >= 10 {
        law_decimal_shortest(n / 10);
        assert(decimal_text(n)[0] == decimal_text(n / 10)[0]);
    }
}

/// The parts before and after the first separator.
pub proof fn law_split_once(head: Seq<char>, separator: char, tail: Seq<char>)
    requires
        !head.contains(separator),
    ensures
        before(head, separator) == head,
        after(head, separator).len() == 0,
        before(head.push(separator) + tail, separator) == head,
        after(head.push(separator) + tail, separator) == tail,
{
    let all = head.push(separator) + tail;
    assert forall|i: int| 0 <= i < head.len() implies head[i] != separator by {
        assert(head.contains(head[i]));
    }
    lemma_position_is(head, separator, head.len() as int);
    assert(head.take(head.len() as int) =~= head);
    assert forall|i: int| 0 <= i < head.len() implies all[i] != separator by {
        assert(all[i] == head[i]);
    }
    lemma_position_is(all, separator, head.len() as int);
    assert(before(all, separator) =~= head);
    assert(after(all, separator) =~= tail);
}

} // verus!
