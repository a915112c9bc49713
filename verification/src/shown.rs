//! What a value reads as, held against the value.
//!
//! A cell and a line of the detail pane are all that is ever seen of a value.
//! What is proved here is that they tell it: each kind of value is read back
//! from its text in the way a person would read it.

use crate::clock::{
    date_words, days_of_month, digits, fraction, is_a_day, is_a_time, is_an_offset, magnitude,
    month_and_day, offset_words, stamp_words, time_words, zoned_words, Date, Time, UtcOffset,
};
use crate::grid::{
    bidi_control, bytes_text, cell_kind, cell_text, column_look, control, float_text, sampled,
    sanitised, sanitised_whole, tally, tamed, tamed_in_lines, widest, Align, CellKind,
    MAX_CELL_CHARS,
};
use crate::json::{written, Json};
use crate::json_reader::{a_document_comes_back, doc_of, json_read, proper};
use crate::model::{PagedResult, Value};
use crate::reading::{
    a_count_says_itself, a_number_says_itself, a_signed_number_says_itself, a_text_stops_at_a_mark,
    all_digits, bytes_say_themselves, count_in, is_digit, leading_digits, nibble, number_in, past,
    signed_in, unit_in, until,
};
use crate::text::{decimal, display_columns, hex_of};
use vstd::prelude::*;

verus! {

// ── characters ─────────────────────────────────────────────────────────────

/// What a terminal obeys rather than draws: the control characters, in the first
/// half of a table of 128 and in the second, and what turns the direction of
/// the text.
pub proof fn what_a_terminal_obeys(c: char)
    ensures
        control(c) <==> (c as u32) % 128 < 32 && (c as u32) < 256 || c as u32 == 127,
        bidi_control(c) <==> {
            let code = c as u32;
            ||| code == 0x202a || code == 0x202b || code == 0x202c || code == 0x202d || code
                == 0x202e
            ||| code == 0x2066 || code == 0x2067 || code == 0x2068 || code == 0x2069
        },
{
}

/// Whether a character of a cell stands for a character of a value: for itself,
/// where a terminal would draw it, and otherwise as one of three signs.
pub open spec fn stands_in_a_cell(shown: char, c: char) -> bool {
    if control(c) || bidi_control(c) {
        if c == '\n' || c == '\r' {
            shown == '␊'
        } else if c == '\t' {
            shown == '␉'
        } else {
            shown == '·'
        }
    } else {
        shown == c
    }
}

/// Whether a cell shows a text: every character of it in its place, and of a
/// long one as many as a cell keeps, with a mark that there are more.
pub open spec fn shows(cell: Seq<char>, s: Seq<char>) -> bool {
    if s.len() <= MAX_CELL_CHARS {
        cell.len() == s.len() && forall|i: int|
            0 <= i < s.len() ==> stands_in_a_cell(#[trigger] cell[i], s[i])
    } else {
        &&& cell.len() == MAX_CELL_CHARS + 1
        &&& cell[MAX_CELL_CHARS as int] == '…'
        &&& forall|i: int|
            0 <= i < MAX_CELL_CHARS ==> stands_in_a_cell(#[trigger] cell[i], s[i])
    }
}

/// A text in a cell is the text, character for character.
pub proof fn a_cell_shows_its_text(s: Seq<char>)
    ensures
        shows(sanitised(s), s),
{
    assert forall|c: char| stands_in_a_cell(#[trigger] tamed(c), c) by {}
    if s.len() <= MAX_CELL_CHARS {
        assert forall|i: int| 0 <= i < s.len() implies stands_in_a_cell(
            #[trigger] sanitised(s)[i],
            s[i],
        ) by {
            assert(sanitised(s)[i] == tamed(s[i]));
        }
    } else {
        assert forall|i: int| 0 <= i < MAX_CELL_CHARS implies stands_in_a_cell(
            #[trigger] sanitised(s)[i],
            s[i],
        ) by {
            assert(sanitised(s)[i] == tamed(s[i]));
        }
    }
}

/// Whether a text of the detail pane is another: every character of it in its
/// place, line breaks and tabs among them, and a dot for what else a terminal
/// obeys.
pub open spec fn shows_whole(line: Seq<char>, s: Seq<char>) -> bool {
    line.len() == s.len() && forall|i: int|
        0 <= i < s.len() ==> #[trigger] line[i] == if (control(s[i]) || bidi_control(s[i]))
            && s[i] != '\n' && s[i] != '\t' {
            '·'
        } else {
            s[i]
        }
}

/// A text in the detail pane is the text, character for character, however long.
pub proof fn a_pane_shows_its_text(s: Seq<char>)
    ensures
        shows_whole(sanitised_whole(s), s),
{
    assert forall|i: int| 0 <= i < s.len() implies #[trigger] sanitised_whole(s)[i] == if (control(
        s[i],
    ) || bidi_control(s[i])) && s[i] != '\n' && s[i] != '\t' {
        '·'
    } else {
        s[i]
    } by {
        assert(sanitised_whole(s)[i] == tamed_in_lines(s[i]));
    }
}

// ── counts ─────────────────────────────────────────────────────────────────

/// Whether a text says how many there are of something, between two brackets.
pub open spec fn counts(text: Seq<char>, open: char, n: int, word: Seq<char>) -> bool {
    &&& text.len() > 0 && text[0] == open
    &&& all_digits(leading_digits(text.drop_first()))
    &&& count_in(text.drop_first()) == n
    &&& unit_in(text.drop_first()) == word
}

proof fn a_tally_counts(before: Seq<char>, open: char, n: nat, word: Seq<char>)
    requires
        before == seq![open],
        word.len() > 0 && !is_digit(word[0]),
    ensures
        counts(tally(before, n, word), open, n as int, word),
{
    let text = tally(before, n, word);
    assert(text.drop_first() =~= decimal(n) + word);
    a_number_says_itself(n);
    a_count_says_itself(n, word);
}

proof fn the_words_around_a_count()
    ensures
        "{"@ == seq!['{'],
        "["@ == seq!['['],
        " keys}"@.len() == 6 && " keys}"@[0] == ' ',
        " items]"@.len() == 7 && " items]"@[0] == ' ',
        " fields}"@.len() == 8 && " fields}"@[0] == ' ',
{
    reveal_strlit("{");
    reveal_strlit("[");
    reveal_strlit(" keys}");
    reveal_strlit(" items]");
    reveal_strlit(" fields}");
    assert("{"@ =~= seq!['{']);
    assert("["@ =~= seq!['[']);
}

// ── bytes ──────────────────────────────────────────────────────────────────

/// Whether a text spells some bytes in hexadecimal from its third character on.
pub open spec fn spells(text: Seq<char>, bytes: Seq<u8>, n: int) -> bool {
    &&& text.len() >= 2 + 2 * n
    &&& text[0] == '0' && text[1] == 'x'
    &&& forall|i: int|
        0 <= i < n ==> 16 * nibble(text[2 + 2 * i]) + nibble(text[3 + 2 * i])
            == #[trigger] bytes[i] && nibble(text[2 + 2 * i]) < 16 && nibble(text[3 + 2 * i]) < 16
}

/// Whether a text tells some bytes: all of them where there are no more than
/// `shown`, and otherwise the first of them and how many there are.
pub open spec fn tells_bytes(text: Seq<char>, bytes: Seq<u8>, shown: int) -> bool {
    if bytes.len() <= shown {
        spells(text, bytes, bytes.len() as int) && text.len() == 2 + 2 * bytes.len()
    } else {
        &&& spells(text, bytes, shown)
        &&& text.subrange(2 + 2 * shown, 5 + 2 * shown) == "… ("@
        &&& count_in(text.skip(5 + 2 * shown)) == bytes.len()
        &&& unit_in(text.skip(5 + 2 * shown)) == " bytes)"@
    }
}

/// Bytes are told, as many as there is room for, and never a count in the place
/// of the bytes.
pub proof fn bytes_are_told(bytes: Seq<u8>, shown: nat)
    ensures
        tells_bytes(bytes_text(bytes, shown), bytes, shown as int),
{
    reveal_strlit("0x");
    reveal_strlit("… (");
    reveal_strlit(" bytes)");
    let text = bytes_text(bytes, shown);
    let n = if bytes.len() <= shown {
        bytes.len()
    } else {
        shown
    };
    let part = bytes.take(n as int);
    let hex = hex_of(part);
    bytes_say_themselves(part);
    if bytes.len() <= shown {
        assert(part =~= bytes);
    }
    assert forall|i: int| 0 <= i < n implies 16 * nibble(text[2 + 2 * i]) + nibble(text[3 + 2 * i])
        == #[trigger] bytes[i] && nibble(text[2 + 2 * i]) < 16 && nibble(text[3 + 2 * i]) < 16 by {
        assert(part[i] == bytes[i]);
        assert(text[2 + 2 * i] == hex[2 * i]);
        assert(text[3 + 2 * i] == hex[2 * i + 1]);
    }
    if bytes.len() > shown {
        a_count_says_itself(bytes.len(), " bytes)"@);
        assert(text.skip(5 + 2 * shown as int) =~= decimal(bytes.len()) + " bytes)"@);
        assert(text.subrange(2 + 2 * shown as int, 5 + 2 * shown as int) =~= "… ("@);
    }
}

// ── days and times ─────────────────────────────────────────────────────────

pub open spec fn pow10(n: int) -> int
    decreases n,
{
    if n <= 0 {
        1
    } else {
        10 * pow10(n - 1)
    }
}

proof fn digits_say_their_number(n: int, width: int)
    requires
        0 <= n < pow10(width),
        0 <= width,
    ensures
        number_in(digits(n, width)) == n,
        digits(n, width).len() == width,
        forall|i: int| 0 <= i < width ==> is_digit(#[trigger] digits(n, width)[i]),
    decreases width,
{
    if width > 0 {
        digits_say_their_number(n / 10, width - 1);
        assert(digits(n, width).drop_last() =~= digits(n / 10, width - 1));
    }
}

/// The days of a year before one of its months.
pub open spec fn days_before(year: int, month: int) -> int
    decreases month,
{
    if month <= 1 {
        0
    } else {
        days_before(year, month - 1) + days_of_month(year, month - 1)
    }
}

proof fn a_month_and_a_day_make_the_day(year: int, month: int, ordinal: int)
    requires
        1 <= month <= 12,
        1 <= ordinal <= days_before(year, 13) - days_before(year, month),
    ensures
        ({
            let (m, d) = month_and_day(year, month, ordinal);
            &&& month <= m <= 12
            &&& 1 <= d <= days_of_month(year, m)
            &&& days_before(year, m) + d == days_before(year, month) + ordinal
        }),
    decreases 12 - month,
{
    if month < 12 && ordinal > days_of_month(year, month) {
        a_month_and_a_day_make_the_day(year, month + 1, ordinal - days_of_month(year, month));
    }
}

/// The day a text such as `2024-02-29` names: the year, the month and the day of
/// the month.
pub open spec fn day_said(text: Seq<char>) -> (int, int, int) {
    let n = text.len() as int;
    (
        signed_in(text.take(n - 6)),
        number_in(text.subrange(n - 5, n - 3)),
        number_in(text.subrange(n - 2, n)),
    )
}

/// A day says itself: the year, and a month and a day in it that are there and
/// make up the day of the year it is.
pub proof fn a_day_says_itself(year: int, ordinal: int)
    requires
        is_a_day(year, ordinal),
    ensures
        ({
            let text = date_words(year, ordinal);
            let (said_year, month, day) = day_said(text);
            &&& said_year == year
            &&& 1 <= month <= 12
            &&& 1 <= day <= days_of_month(year, month)
            &&& days_before(year, month) + day == ordinal
            &&& text[text.len() - 3] == '-' && text[text.len() - 6] == '-'
            &&& text.len() == if year < 0 {
                11int
            } else {
                10int
            }
        }),
{
    reveal_with_fuel(days_before, 14);
    reveal_with_fuel(pow10, 5);
    a_month_and_a_day_make_the_day(year, 1, ordinal);
    let (month, day) = month_and_day(year, 1, ordinal);
    digits_say_their_number(magnitude(year), 4);
    digits_say_their_number(month, 2);
    digits_say_their_number(day, 2);
    let text = date_words(year, ordinal);
    let y = digits(magnitude(year), 4);
    let n = text.len() as int;
    assert(text.subrange(n - 2, n) =~= digits(day, 2));
    assert(text.subrange(n - 5, n - 3) =~= digits(month, 2));
    if year < 0 {
        assert(text.take(n - 6) =~= seq!['-'] + y);
        assert((seq!['-'] + y).drop_first() =~= y);
    } else {
        assert(text.take(n - 6) =~= y);
        assert(is_digit(y[0]));
    }
}

/// The parts of a time such as `7:05:09.25`: hour, minute, second and
/// nanosecond.
pub open spec fn time_said(text: Seq<char>) -> (int, int, int, int) {
    let hour = leading_digits(text);
    let rest = unit_in(text);
    let part = rest.skip(7);
    (
        number_in(hour),
        number_in(rest.subrange(1, 3)),
        number_in(rest.subrange(4, 6)),
        number_in(part) * pow10(9 - part.len()),
    )
}

proof fn a_fraction_says_its_part(part: int, width: int)
    requires
        0 <= part < pow10(width),
        1 <= width,
    ensures
        1 <= fraction(part, width).len() <= width,
        number_in(fraction(part, width)) * pow10(width - fraction(part, width).len()) == part,
    decreases width,
{
    if width > 1 && part % 10 == 0 {
        a_fraction_says_its_part(part / 10, width - 1);
        let said = fraction(part / 10, width - 1);
        let left = width - 1 - said.len();
        assert(number_in(said) * (10 * pow10(left)) == 10 * (number_in(said) * pow10(left)))
            by (nonlinear_arith);
        assert(pow10(left + 1) == 10 * pow10(left));
        assert(fraction(part, width) == said);
        assert(width - said.len() == left + 1);
    } else {
        digits_say_their_number(part, width);
        assert(pow10(0) == 1);
        assert(width - fraction(part, width).len() == 0);
    }
}

/// A time of day says itself: every one of its parts, to the nanosecond.
pub proof fn a_time_says_itself(hour: int, minute: int, second: int, nanosecond: int)
    requires
        is_a_time(hour, minute, second, nanosecond),
    ensures
        time_said(time_words(hour, minute, second, nanosecond)) == (
            hour,
            minute,
            second,
            nanosecond,
        ),
{
    reveal_with_fuel(pow10, 10);
    digits_say_their_number(minute, 2);
    digits_say_their_number(second, 2);
    a_fraction_says_its_part(nanosecond, 9);
    let part = fraction(nanosecond, 9);
    let tail = seq![':'] + digits(minute, 2) + seq![':'] + digits(second, 2) + seq!['.'] + part;
    let text = time_words(hour, minute, second, nanosecond);
    assert(text =~= decimal(hour as nat) + tail);
    a_number_says_itself(hour as nat);
    a_count_says_itself(hour as nat, tail);
    assert(tail.subrange(1, 3) =~= digits(minute, 2));
    assert(tail.subrange(4, 6) =~= digits(second, 2));
    assert(tail.skip(7) =~= part);
}

/// The seconds a text such as `-03:30:00` says a clock is ahead of UTC.
pub open spec fn offset_said(text: Seq<char>) -> int {
    let seconds = 3600 * number_in(text.subrange(1, 3)) + 60 * number_in(text.subrange(4, 6))
        + number_in(text.subrange(7, 9));
    if text[0] == '-' {
        -seconds
    } else {
        seconds
    }
}

/// How far a clock is ahead of UTC says itself: where hours, minutes and seconds
/// are all ahead or all behind, what is read off is what they come to.
pub proof fn an_offset_says_itself(hours: int, minutes: int, seconds: int)
    requires
        is_an_offset(hours, minutes, seconds),
        (hours >= 0 && minutes >= 0 && seconds >= 0) || (hours <= 0 && minutes <= 0 && seconds
            <= 0),
    ensures
        offset_said(offset_words(hours, minutes, seconds)) == 3600 * hours + 60 * minutes
            + seconds,
        offset_words(hours, minutes, seconds).len() == 9,
{
    reveal_with_fuel(pow10, 3);
    digits_say_their_number(magnitude(hours), 2);
    digits_say_their_number(magnitude(minutes), 2);
    digits_say_their_number(magnitude(seconds), 2);
    let text = offset_words(hours, minutes, seconds);
    assert(text.subrange(1, 3) =~= digits(magnitude(hours), 2));
    assert(text.subrange(4, 6) =~= digits(magnitude(minutes), 2));
    assert(text.subrange(7, 9) =~= digits(magnitude(seconds), 2));
}

/// Whether a text tells a day.
pub open spec fn tells_day(text: Seq<char>, date: Date) -> bool {
    let (year, month, day) = day_said(text);
    &&& year == date.of_year()
    &&& 1 <= month <= 12
    &&& 1 <= day <= days_of_month(year, month)
    &&& days_before(year, month) + day == date.day_of_year()
}

/// Whether a text tells a time of day.
pub open spec fn tells_time(text: Seq<char>, time: Time) -> bool {
    time_said(text) == time.parts()
}

/// Whether a text tells how far a clock is ahead of UTC.
pub open spec fn tells_offset(text: Seq<char>, offset: UtcOffset) -> bool {
    let (hours, minutes, seconds) = offset.parts();
    (hours >= 0 && minutes >= 0 && seconds >= 0) || (hours <= 0 && minutes <= 0 && seconds <= 0)
        ==> offset_said(text) == 3600 * hours + 60 * minutes + seconds
}

/// A day that is there, as every one is that was made.
pub open spec fn day_is_there(date: Date) -> bool {
    is_a_day(date.of_year(), date.day_of_year())
}

/// A time of day that is there, as every one is that was made.
pub open spec fn time_is_there(time: Time) -> bool {
    let (hour, minute, second, nanosecond) = time.parts();
    is_a_time(hour, minute, second, nanosecond)
}

/// An offset that is there, as every one is that was made.
pub open spec fn offset_is_there(offset: UtcOffset) -> bool {
    let (hours, minutes, seconds) = offset.parts();
    is_an_offset(hours, minutes, seconds)
}

/// A value whose days, times and numbers are there.
pub open spec fn is_there(value: Value) -> bool {
    match value {
        Value::Date(date) => day_is_there(date),
        Value::Time(time) => time_is_there(time),
        Value::Timestamp { date, time } => day_is_there(date) && time_is_there(time),
        Value::TimestampTz { date, time, offset } => day_is_there(date) && time_is_there(time)
            && offset_is_there(offset),
        Value::Json(json) => proper(json),
        _ => true,
    }
}

/// Nothing but digits and a few signs, none of them a space.
spec fn of_a_clock(s: Seq<char>) -> bool {
    forall|i: int|
        0 <= i < s.len() ==> is_digit(#[trigger] s[i]) || s[i] == '-' || s[i] == '+' || s[i] == ':'
            || s[i] == '.'
}

proof fn a_clock_has_no_spaces(s: Seq<char>)
    requires
        of_a_clock(s),
    ensures
        !s.contains(' '),
{
}

proof fn fractions_are_digits(part: int, width: int)
    requires
        0 <= part < pow10(width),
        1 <= width,
    ensures
        of_a_clock(fraction(part, width)),
    decreases width,
{
    if width > 1 && part % 10 == 0 {
        fractions_are_digits(part / 10, width - 1);
    } else {
        digits_say_their_number(part, width);
    }
}

proof fn a_day_is_told(date: Date)
    requires
        day_is_there(date),
    ensures
        tells_day(date.words(), date),
        of_a_clock(date.words()),
{
    let (year, ordinal) = (date.of_year(), date.day_of_year());
    a_day_says_itself(year, ordinal);
    reveal_with_fuel(days_before, 14);
    reveal_with_fuel(pow10, 5);
    a_month_and_a_day_make_the_day(year, 1, ordinal);
    let (month, day) = month_and_day(year, 1, ordinal);
    digits_say_their_number(magnitude(year), 4);
    digits_say_their_number(month, 2);
    digits_say_their_number(day, 2);
}

proof fn a_time_is_told(time: Time)
    requires
        time_is_there(time),
    ensures
        tells_time(time.words(), time),
        of_a_clock(time.words()),
{
    let (hour, minute, second, nanosecond) = time.parts();
    a_time_says_itself(hour, minute, second, nanosecond);
    reveal_with_fuel(pow10, 10);
    digits_say_their_number(minute, 2);
    digits_say_their_number(second, 2);
    fractions_are_digits(nanosecond, 9);
    a_number_says_itself(hour as nat);
}

proof fn a_stamp_is_told(date: Date, time: Time)
    requires
        is_there(Value::Timestamp { date, time }),
    ensures
        until(stamp_words(date, time), ' ') == date.words(),
        past(stamp_words(date, time), ' ') == time.words(),
        tells_day(date.words(), date),
        tells_time(time.words(), time),
        of_a_clock(time.words()),
        of_a_clock(date.words()),
{
    a_day_is_told(date);
    a_time_is_told(time);
    a_clock_has_no_spaces(date.words());
    a_text_stops_at_a_mark(date.words(), ' ', time.words());
}

proof fn a_zoned_stamp_is_told(date: Date, time: Time, offset: UtcOffset)
    requires
        is_there(Value::TimestampTz { date, time, offset }),
    ensures
        ({
            let text = zoned_words(date, time, offset);
            &&& tells_day(until(text, ' '), date)
            &&& tells_time(until(past(text, ' '), ' '), time)
            &&& tells_offset(past(past(text, ' '), ' '), offset)
        }),
{
    a_stamp_is_told(date, time);
    a_clock_has_no_spaces(date.words());
    a_clock_has_no_spaces(time.words());
    let rest = time.words() + seq![' '] + offset.words();
    assert(zoned_words(date, time, offset) =~= date.words() + seq![' '] + rest);
    a_text_stops_at_a_mark(date.words(), ' ', rest);
    a_text_stops_at_a_mark(time.words(), ' ', offset.words());
    let (hours, minutes, seconds) = offset.parts();
    if (hours >= 0 && minutes >= 0 && seconds >= 0) || (hours <= 0 && minutes <= 0 && seconds
        <= 0) {
        an_offset_says_itself(hours, minutes, seconds);
    }
}

// ── floating point ─────────────────────────────────────────────────────────

/// The exponent of a double, as its bits have it.
pub open spec fn exponent_bits(bits: u64) -> int {
    (bits as int / 4_503_599_627_370_496) % 2048
}

/// The fraction of a double, as its bits have it.
pub open spec fn fraction_bits(bits: u64) -> int {
    (bits % 4_503_599_627_370_496) as int
}

/// Whether a text is what a double reads as in a cell: a word for what is no
/// number, a sign for what is infinite, and otherwise one of the two ways it is
/// printed.
pub open spec fn tells_double(text: Seq<char>, bits: u64, plain: Seq<char>, scientific: Seq<char>) -> bool {
    let negative = bits / 0x8000_0000_0000_0000 == 1;
    if exponent_bits(bits) == 2047 {
        if fraction_bits(bits) != 0 {
            text == seq!['N', 'a', 'N']
        } else if negative {
            text == seq!['-', '∞']
        } else {
            text == seq!['∞']
        }
    } else if exponent_bits(bits) == 0 && fraction_bits(bits) == 0 {
        shows(text, plain)
    } else {
        shows(text, plain) || shows(text, scientific)
    }
}

/// The largest and the smallest magnitudes that are printed without an exponent:
/// every double from the one nearest to a hundred thousandth up to a thousand
/// million million is, and no other but zero.
pub proof fn a_double_is_printed_with_an_exponent_where_it_is_long(value: Value)
    requires
        value is Float,
        exponent_bits(value->Float_0.bits) != 2047,
    ensures
        ({
            let f = value->Float_0;
            let text = cell_text(Some(value));
            let e = exponent_bits(f.bits);
            let m = fraction_bits(f.bits);
            // 10 to the 15th is 8e15 eighths, and its exponent is 1072.
            let large = e > 1072 || e == 1072 && m + 4_503_599_627_370_496 >= 8_000_000_000_000_000;
            let zero = e == 0 && m == 0;
            // 2 to the 69th is 590295810358705651712, which a hundred
            // thousandth is to be multiplied by where the exponent is 1006.
            let small = !zero && (e < 1006 || e == 1006 && 200_000 * (m + 4_503_599_627_370_496)
                < 2 * 590_295_810_358_705_651_712 - 100_000);
            if large || small {
                shows(text, f.scientific@)
            } else {
                shows(text, f.plain@)
            }
        }),
{
    let f = value->Float_0;
    a_cell_shows_its_text(f.plain@);
    a_cell_shows_its_text(f.scientific@);
}

// ── cells ──────────────────────────────────────────────────────────────────

/// Whether a cell's text tells a value, read for what it is: a word or a sign
/// for what has one, a number in decimal, a text character for character, bytes
/// two digits each, days and times part by part, and of what holds others how
/// many it holds.
pub open spec fn cell_tells(text: Seq<char>, value: Value) -> bool {
    match value {
        Value::Null => text == seq!['∅'],
        Value::Bool(b) => if b {
            text == seq!['t', 'r', 'u', 'e']
        } else {
            text == seq!['f', 'a', 'l', 's', 'e']
        },
        Value::Int(n) => signed_in(text) == n && (text[0] == '-' <==> n < 0) && all_digits(
            if n < 0 {
                text.drop_first()
            } else {
                text
            },
        ),
        Value::Float(f) => tells_double(text, f.bits, f.plain@, f.scientific@),
        Value::Decimal(s) => shows(text, s@),
        Value::Text(s) => shows(text, s@),
        Value::Bytes(bytes) => tells_bytes(text, bytes@, 8),
        Value::Date(date) => tells_day(text, date),
        Value::Time(time) => tells_time(text, time),
        Value::Timestamp { date, time } => tells_day(until(text, ' '), date) && tells_time(
            past(text, ' '),
            time,
        ),
        Value::TimestampTz { date, time, offset } => tells_day(until(text, ' '), date)
            && tells_time(until(past(text, ' '), ' '), time) && tells_offset(
            past(past(text, ' '), ' '),
            offset,
        ),
        Value::Json(Json::Object(members)) => counts(
            text,
            '{',
            members@.len() as int,
            " keys}"@,
        ),
        Value::Json(Json::Array(items)) => counts(text, '[', items@.len() as int, " items]"@),
        Value::Json(json) => exists|document: Seq<char>| #[trigger]
            shows(text, document) && json_read(document) == Some(doc_of(json)),
        Value::Array(items) => counts(text, '[', items@.len() as int, " items]"@),
        Value::Struct(fields) => counts(text, '{', fields@.len() as int, " fields}"@),
        Value::Opaque { type_label, text: raw } => if raw@.len() == 0 {
            &&& text.len() >= 2 && text[0] == '<' && text.last() == '>'
            &&& shows(text.subrange(1, text.len() - 1), type_label@)
        } else {
            shows(text, raw@)
        },
    }
}

/// A cell tells its value, whatever kind of value it is.
#[verifier::spinoff_prover]
pub proof fn a_cell_tells_its_value(value: Value)
    requires
        is_there(value),
    ensures
        cell_tells(cell_text(Some(value)), value),
{
    let text = cell_text(Some(value));
    the_words_around_a_count();
    match value {
        Value::Null => {},
        Value::Bool(b) => {
            reveal_strlit("true");
            reveal_strlit("false");
            assert("true"@ =~= seq!['t', 'r', 'u', 'e']);
            assert("false"@ =~= seq!['f', 'a', 'l', 's', 'e']);
        },
        Value::Int(n) => a_signed_number_says_itself(n as int),
        Value::Float(f) => {
            reveal_strlit("NaN");
            reveal_strlit("∞");
            reveal_strlit("-∞");
            a_cell_shows_its_text(f.plain@);
            a_cell_shows_its_text(f.scientific@);
            a_short_harmless_text_is_itself(float_text(f));
            assert("NaN"@ =~= seq!['N', 'a', 'N']);
            assert("∞"@ =~= seq!['∞']);
            assert("-∞"@ =~= seq!['-', '∞']);
        },
        Value::Decimal(s) => a_cell_shows_its_text(s@),
        Value::Text(s) => a_cell_shows_its_text(s@),
        Value::Bytes(bytes) => bytes_are_told(bytes@, 8),
        Value::Date(date) => a_day_is_told(date),
        Value::Time(time) => a_time_is_told(time),
        Value::Timestamp { date, time } => a_stamp_is_told(date, time),
        Value::TimestampTz { date, time, offset } => a_zoned_stamp_is_told(date, time, offset),
        Value::Json(json) => match json {
            Json::Object(members) => a_tally_counts("{"@, '{', members@.len(), " keys}"@),
            Json::Array(items) => a_tally_counts("["@, '[', items@.len(), " items]"@),
            _ => {
                a_cell_shows_its_text(written(json));
                a_document_comes_back(json);
                assert(shows(text, written(json)));
            },
        },
        Value::Array(items) => a_tally_counts("["@, '[', items@.len(), " items]"@),
        Value::Struct(fields) => a_tally_counts("{"@, '{', fields@.len(), " fields}"@),
        Value::Opaque { type_label, text: raw } => {
            a_cell_shows_its_text(type_label@);
            a_cell_shows_its_text(raw@);
            reveal_strlit("<");
            reveal_strlit(">");
            assert(raw@.len() == 0 ==> text.subrange(1, text.len() - 1) =~= sanitised(
                type_label@,
            ));
        },
    }
}

proof fn a_short_harmless_text_is_itself(s: Seq<char>)
    ensures
        s == seq!['N', 'a', 'N'] || s == seq!['∞'] || s == seq!['-', '∞'] ==> sanitised(s) == s,
{
    assert(s.len() <= MAX_CELL_CHARS && (forall|i: int|
        0 <= i < s.len() ==> tamed(#[trigger] s[i]) == s[i]) ==> sanitised(s) =~= s);
}

/// Two integers never read alike.
pub proof fn integers_are_told_apart(a: i64, b: i64)
    ensures
        cell_text(Some(Value::Int(a))) == cell_text(Some(Value::Int(b))) ==> a == b,
{
    a_signed_number_says_itself(a as int);
    a_signed_number_says_itself(b as int);
}

/// What a cell is styled as is what its value is: a null and a cell that is not
/// there alike, the three kinds of numbers, what holds others, and what no
/// driver could decode.
pub proof fn a_cell_is_styled_by_its_value(value: Option<Value>)
    ensures
        ({
            let kind = cell_kind(value);
            &&& kind == CellKind::Null <==> (value is None || value == Some(Value::Null))
            &&& kind == CellKind::Number <==> (value matches Some(v) && (v is Int || v is Float
                || v is Decimal))
            &&& kind == CellKind::Complex <==> (value matches Some(v) && (v is Array || v is Struct
                || v is Json))
            &&& kind == CellKind::Opaque <==> (value matches Some(v) && v is Opaque)
        }),
{
}

// ── columns ────────────────────────────────────────────────────────────────

proof fn the_widest_is_one_of_them(rows: PagedResult, col: int, n: int)
    ensures
        forall|r: int|
            0 <= r < n ==> display_columns(cell_text(#[trigger] rows.value_at(r, col))) <= widest(
                rows,
                col,
                n,
            ),
        widest(rows, col, n) > 0 ==> exists|r: int|
            0 <= r < n && display_columns(cell_text(#[trigger] rows.value_at(r, col))) == widest(
                rows,
                col,
                n,
            ),
    decreases n,
{
    if n > 0 {
        the_widest_is_one_of_them(rows, col, n - 1);
        let here = rows.value_at(n - 1, col);
        if widest(rows, col, n) > 0 && widest(rows, col, n) == widest(rows, col, n - 1) {
            let r = choose|r: int|
                0 <= r < n - 1 && display_columns(cell_text(#[trigger] rows.value_at(r, col)))
                    == widest(rows, col, n - 1);
            assert(0 <= r < n);
        }
    }
}

/// How many rows a column is measured by: those of the first page that are
/// there, and two hundred at most.
pub open spec fn measured(rows: PagedResult, n: int) -> bool {
    &&& n <= 200 && n <= rows.first_page && n <= rows.rows@.len()
    &&& n == 200 || n == rows.first_page || n == rows.rows@.len()
}

/// A column is as wide as the widest of its cells that are measured, and of its
/// name, as far as a column may be: none of them is cut unless the column is at
/// its widest, and there is no column wider than it needs to be unless it is at
/// its narrowest.
pub proof fn a_column_is_as_wide_as_it_needs(rows: PagedResult, col: int, n: int)
    requires
        measured(rows, n),
    ensures
        ({
            let look = column_look(rows, col);
            let width = look.natural_width;
            let fits = |w: u16| w <= width || width == 60;
            &&& 3 <= width <= 60
            &&& fits(display_columns(look.name))
            &&& forall|r: int|
                0 <= r < n ==> fits(
                    display_columns(cell_text(#[trigger] rows.value_at(r, col))),
                )
            &&& width == 3 || display_columns(look.name) >= width || exists|r: int|
                0 <= r < n && display_columns(cell_text(#[trigger] rows.value_at(r, col))) >= width
        }),
{
    assert(n == sampled(rows));
    the_widest_is_one_of_them(rows, col, n);
}

/// A column is called what it is called, and typed as it is typed.
pub proof fn a_column_is_called_what_it_is(rows: PagedResult, col: int)
    ensures
        shows(column_look(rows, col).name, rows.columns@[col].name@),
        shows(column_look(rows, col).type_label, rows.columns@[col].type_label@),
{
    a_cell_shows_its_text(rows.columns@[col].name@);
    a_cell_shows_its_text(rows.columns@[col].type_label@);
}

/// A column of numbers is right-aligned, and no other: among the cells it is
/// measured by there is a number, and nothing that is neither a number nor a
/// null.
pub proof fn a_column_of_numbers_is_right_aligned(rows: PagedResult, col: int, n: int)
    requires
        measured(rows, n),
    ensures
        column_look(rows, col).align == Align::Right <==> {
            &&& exists|r: int|
                0 <= r < n && cell_kind(#[trigger] rows.value_at(r, col)) == CellKind::Number
            &&& forall|r: int|
                0 <= r < n ==> {
                    let kind = cell_kind(#[trigger] rows.value_at(r, col));
                    kind == CellKind::Number || kind == CellKind::Null
                }
        },
{
    assert(n == sampled(rows));
}

} // verus!
