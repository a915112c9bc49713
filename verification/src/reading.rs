//! What a person makes of the numbers on the screen.
//!
//! Nothing here runs. It says what a text means to whoever reads it, so that
//! what is written can be held to it: a number is written so that reading it
//! gives the number back.

use crate::text::{
    blank, decimal, hex_of, is_word, joined, lines_of, pieces, replaced, signed_decimal, trimmed,
    trimmed_end, trimmed_start, white_space, without_return, words_of,
};
use vstd::prelude::*;

verus! {

// ── parts of a text ────────────────────────────────────────────────────────

/// A text up to the first `mark`, or all of it where there is none.
pub open spec fn until(s: Seq<char>, mark: char) -> Seq<char>
    decreases s.len(),
{
    if s.len() == 0 || s[0] == mark {
        Seq::empty()
    } else {
        seq![s[0]] + until(s.drop_first(), mark)
    }
}

/// What comes behind the first `mark`.
pub open spec fn past(s: Seq<char>, mark: char) -> Seq<char> {
    s.skip(until(s, mark).len() as int + 1)
}

pub proof fn a_text_stops_at_a_mark(a: Seq<char>, mark: char, b: Seq<char>)
    requires
        !a.contains(mark),
    ensures
        until(a + seq![mark] + b, mark) == a,
        past(a + seq![mark] + b, mark) == b,
    decreases a.len(),
{
    let s = a + seq![mark] + b;
    if a.len() == 0 {
        assert(s[0] == mark);
        assert(until(s, mark) =~= a);
    } else {
        assert(a.contains(a[0]));
        assert forall|c: char| a.drop_first().contains(c) implies a.contains(c) by {
            let i = choose|i: int| 0 <= i < a.drop_first().len() && a.drop_first()[i] == c;
            assert(a[i + 1] == c);
        }
        a_text_stops_at_a_mark(a.drop_first(), mark, b);
        assert(s.drop_first() =~= a.drop_first() + seq![mark] + b);
        assert(s[0] == a[0]);
        assert(seq![a[0]] + a.drop_first() =~= a);
    }
    assert(s.skip(a.len() as int + 1) =~= b);
}

// ── whole numbers ──────────────────────────────────────────────────────────

pub open spec fn is_digit(c: char) -> bool {
    '0' <= c <= '9'
}

/// The number that digits make.
pub open spec fn number_in(s: Seq<char>) -> int
    decreases s.len(),
{
    if s.len() == 0 {
        0
    } else {
        10 * number_in(s.drop_last()) + (s.last() as u32 - '0' as u32)
    }
}

/// A digit at least, and nothing else.
pub open spec fn all_digits(s: Seq<char>) -> bool {
    s.len() > 0 && forall|i: int| 0 <= i < s.len() ==> is_digit(#[trigger] s[i])
}

/// A number says itself: what is written in decimal is digits, without a zero
/// that could be left out, and reading them gives the number.
pub proof fn a_number_says_itself(n: nat)
    ensures
        number_in(decimal(n)) == n,
        all_digits(decimal(n)),
        decimal(n).len() > 1 ==> decimal(n)[0] != '0',
        n > 0 ==> decimal(n)[0] != '0',
    decreases n,
{
    if n < 10 {
        assert(decimal(n).drop_last() =~= Seq::empty());
        assert(number_in(Seq::<char>::empty()) == 0);
    } else {
        a_number_says_itself(n / 10);
        assert(decimal(n).drop_last() =~= decimal(n / 10));
    }
}

/// The number a text says, with a `-` before a negative one.
pub open spec fn signed_in(s: Seq<char>) -> int {
    if s.len() > 0 && s[0] == '-' {
        -number_in(s.drop_first())
    } else {
        number_in(s)
    }
}

/// A signed number says itself: it begins with a `-` exactly when it is below
/// zero, the rest is digits, and reading it gives the number.
pub proof fn a_signed_number_says_itself(n: int)
    ensures
        signed_in(signed_decimal(n)) == n,
        signed_decimal(n).len() > 0,
        signed_decimal(n)[0] == '-' <==> n < 0,
        n >= 0 ==> all_digits(signed_decimal(n)),
        n < 0 ==> all_digits(signed_decimal(n).drop_first()),
{
    if n < 0 {
        a_number_says_itself((-n) as nat);
        assert(signed_decimal(n).drop_first() =~= decimal((-n) as nat));
    } else {
        a_number_says_itself(n as nat);
        assert(is_digit(decimal(n as nat)[0]));
    }
}

/// The digits a text begins with.
pub open spec fn leading_digits(s: Seq<char>) -> Seq<char>
    decreases s.len(),
{
    if s.len() > 0 && is_digit(s[0]) {
        seq![s[0]] + leading_digits(s.drop_first())
    } else {
        Seq::empty()
    }
}

/// The number a text begins with.
pub open spec fn count_in(s: Seq<char>) -> int {
    number_in(leading_digits(s))
}

/// What comes behind the number a text begins with.
pub open spec fn unit_in(s: Seq<char>) -> Seq<char> {
    s.skip(leading_digits(s).len() as int)
}

pub proof fn a_count_ends_where_its_unit_begins(digits: Seq<char>, unit: Seq<char>)
    requires
        forall|i: int| 0 <= i < digits.len() ==> is_digit(#[trigger] digits[i]),
        unit.len() == 0 || !is_digit(unit[0]),
    ensures
        leading_digits(digits + unit) == digits,
        count_in(digits + unit) == number_in(digits),
        unit_in(digits + unit) == unit,
    decreases digits.len(),
{
    let s = digits + unit;
    if digits.len() == 0 {
        assert(s =~= unit);
        assert(leading_digits(s) =~= digits);
    } else {
        assert(s[0] == digits[0]);
        let rest = digits.drop_first();
        assert forall|i: int| 0 <= i < rest.len() implies is_digit(#[trigger] rest[i]) by {
            assert(rest[i] == digits[i + 1]);
        }
        a_count_ends_where_its_unit_begins(rest, unit);
        assert(s.drop_first() =~= rest + unit);
        assert(seq![digits[0]] + rest =~= digits);
    }
    assert(s.skip(digits.len() as int) =~= unit);
}

/// A number with a unit behind it is read as that number of that unit.
pub proof fn a_count_says_itself(n: nat, unit: Seq<char>)
    requires
        unit.len() == 0 || !is_digit(unit[0]),
    ensures
        count_in(decimal(n) + unit) == n,
        unit_in(decimal(n) + unit) == unit,
        leading_digits(decimal(n) + unit) == decimal(n),
{
    a_number_says_itself(n);
    a_count_ends_where_its_unit_begins(decimal(n), unit);
}

// ── bytes ──────────────────────────────────────────────────────────────────

/// The number a hexadecimal digit stands for.
pub open spec fn nibble(c: char) -> int {
    if '0' <= c <= '9' {
        c as u32 - '0' as u32
    } else if 'a' <= c <= 'f' {
        c as u32 - 'a' as u32 + 10
    } else {
        16
    }
}

/// Bytes in hexadecimal say themselves: two digits for each, of which the first
/// counts sixteen times.
pub proof fn bytes_say_themselves(bytes: Seq<u8>)
    ensures
        hex_of(bytes).len() == 2 * bytes.len(),
        forall|i: int|
            0 <= i < bytes.len() ==> 16 * nibble(hex_of(bytes)[2 * i]) + nibble(
                hex_of(bytes)[2 * i + 1],
            ) == #[trigger] bytes[i] && nibble(hex_of(bytes)[2 * i]) < 16 && nibble(
                hex_of(bytes)[2 * i + 1],
            ) < 16,
    decreases bytes.len(),
{
    if bytes.len() > 0 {
        let before = bytes.drop_last();
        bytes_say_themselves(before);
        let text = hex_of(bytes);
        assert forall|i: int| 0 <= i < bytes.len() implies 16 * nibble(text[2 * i]) + nibble(
            text[2 * i + 1],
        ) == #[trigger] bytes[i] && nibble(text[2 * i]) < 16 && nibble(text[2 * i + 1]) < 16 by {
            if i < before.len() {
                assert(before[i] == bytes[i]);
                assert(text[2 * i] == hex_of(before)[2 * i]);
                assert(text[2 * i + 1] == hex_of(before)[2 * i + 1]);
            }
        }
    }
}

// ── white space, pieces and words ──────────────────────────────────────────

proof fn trimming_the_start_cuts_white_space(s: Seq<char>)
    ensures
        exists|i: int|
            0 <= i <= s.len() && trimmed_start(s) == #[trigger] s.skip(i) && blank(s.take(i)),
        trimmed_start(s).len() > 0 ==> !white_space(trimmed_start(s)[0]),
    decreases s.len(),
{
    if s.len() > 0 && white_space(s[0]) {
        let rest = s.drop_first();
        trimming_the_start_cuts_white_space(rest);
        let i = choose|i: int|
            0 <= i <= rest.len() && trimmed_start(rest) == #[trigger] rest.skip(i) && blank(
                rest.take(i),
            );
        assert(s.skip(i + 1) =~= rest.skip(i));
        assert forall|k: int| 0 <= k < i + 1 implies white_space(#[trigger] s.take(i + 1)[k]) by {
            if k > 0 {
                assert(rest.take(i)[k - 1] == s.take(i + 1)[k]);
            }
        }
        assert(trimmed_start(s) == s.skip(i + 1));
    } else {
        assert(s.skip(0) =~= s);
    }
}

proof fn trimming_the_end_cuts_white_space(s: Seq<char>)
    ensures
        exists|j: int|
            0 <= j <= s.len() && trimmed_end(s) == #[trigger] s.take(j) && blank(s.skip(j)),
        trimmed_end(s).len() > 0 ==> !white_space(trimmed_end(s).last()),
    decreases s.len(),
{
    if s.len() > 0 && white_space(s.last()) {
        let rest = s.drop_last();
        trimming_the_end_cuts_white_space(rest);
        let j = choose|j: int|
            0 <= j <= rest.len() && trimmed_end(rest) == #[trigger] rest.take(j) && blank(
                rest.skip(j),
            );
        assert(s.take(j) =~= rest.take(j));
        assert forall|k: int| 0 <= k < s.skip(j).len() implies white_space(
            #[trigger] s.skip(j)[k],
        ) by {
            if j + k < rest.len() {
                assert(rest.skip(j)[k] == s.skip(j)[k]);
            }
        }
        assert(trimmed_end(s) == s.take(j));
    } else {
        assert(s.take(s.len() as int) =~= s);
    }
}

/// Trimming cuts white space off both ends and nothing else: what is left is
/// part of the text, there is only white space before it and behind it, and it
/// neither begins nor ends with any.
pub proof fn trimming_cuts_white_space_only(s: Seq<char>)
    ensures
        exists|i: int, j: int|
            0 <= i <= j <= s.len() && trimmed(s) == #[trigger] s.subrange(i, j) && blank(s.take(i))
                && blank(s.skip(j)),
        trimmed(s).len() > 0 ==> !white_space(trimmed(s)[0]) && !white_space(trimmed(s).last()),
{
    trimming_the_start_cuts_white_space(s);
    let i = choose|i: int|
        0 <= i <= s.len() && trimmed_start(s) == #[trigger] s.skip(i) && blank(s.take(i));
    let rest = trimmed_start(s);
    trimming_the_end_cuts_white_space(rest);
    let j = choose|j: int|
        0 <= j <= rest.len() && trimmed_end(rest) == #[trigger] rest.take(j) && blank(rest.skip(j));
    assert(s.subrange(i, i + j) =~= rest.take(j));
    assert forall|k: int| 0 <= k < s.skip(i + j).len() implies white_space(
        #[trigger] s.skip(i + j)[k],
    ) by {
        assert(rest.skip(j)[k] == s.skip(i + j)[k]);
    }
    assert(trimmed(s) == s.subrange(i, i + j));
    if j > 0 {
        assert(rest.take(j)[0] == rest[0]);
    }
}

proof fn joining_one_more(parts: Seq<Seq<char>>, part: Seq<char>, sep: Seq<char>)
    requires
        parts.len() > 0,
    ensures
        joined(parts.push(part), sep) == joined(parts, sep) + sep + part,
{
    assert(parts.push(part).drop_last() =~= parts);
}

proof fn joining_a_longer_last(parts: Seq<Seq<char>>, c: char, sep: Seq<char>)
    requires
        parts.len() > 0,
    ensures
        joined(parts.drop_last().push(parts.last().push(c)), sep) == joined(parts, sep).push(c),
{
    let longer = parts.drop_last().push(parts.last().push(c));
    assert(longer.drop_last() =~= parts.drop_last());
    if parts.len() > 1 {
        assert(joined(longer, sep) =~= joined(parts, sep).push(c));
    }
}

/// A text cut at a character is its pieces with that character between them, and
/// no piece holds it; and the text with something else for that character is the
/// same pieces with that between them.
pub proof fn a_text_is_its_pieces(s: Seq<char>, sep: char, with: Seq<char>)
    ensures
        joined(pieces(s, sep), seq![sep]) == s,
        joined(pieces(s, sep), with) == replaced(s, sep, with),
        pieces(s, sep).len() > 0,
        forall|k: int| 0 <= k < pieces(s, sep).len() ==> !(#[trigger] pieces(s, sep)[k]).contains(sep),
    decreases s.len(),
{
    if s.len() == 0 {
        assert(joined(pieces(s, sep), seq![sep]) =~= s);
        assert(joined(pieces(s, sep), with) =~= s);
    } else {
        let start = s.drop_last();
        let before = pieces(start, sep);
        a_text_is_its_pieces(start, sep, with);
        let all = pieces(s, sep);
        if s.last() == sep {
            joining_one_more(before, Seq::empty(), seq![sep]);
            joining_one_more(before, Seq::empty(), with);
            assert(joined(all, seq![sep]) =~= s);
            assert(joined(all, with) =~= replaced(s, sep, with));
            assert forall|k: int| 0 <= k < all.len() implies !(#[trigger] all[k]).contains(sep) by {
                if k < before.len() {
                    assert(all[k] == before[k]);
                }
            }
        } else {
            joining_a_longer_last(before, s.last(), seq![sep]);
            joining_a_longer_last(before, s.last(), with);
            assert(joined(all, seq![sep]) =~= s);
            assert forall|k: int| 0 <= k < all.len() implies !(#[trigger] all[k]).contains(sep) by {
                if k < all.len() - 1 {
                    assert(all[k] == before[k]);
                } else {
                    let was = before[before.len() - 1];
                    if all[k].contains(sep) {
                        let i = choose|i: int| 0 <= i < all[k].len() && all[k][i] == sep;
                        assert(i < was.len());
                        assert(was[i] == sep);
                    }
                }
            }
        }
    }
}

/// The lines of a text are what stands between its newlines: a line that a
/// newline ended is without the carriage return before it, and what stands
/// behind the last newline is a line unless there is nothing.
pub proof fn a_text_is_its_lines(s: Seq<char>, k: int)
    requires
        0 <= k < pieces(s, '\n').len(),
    ensures
        ({
            let all = pieces(s, '\n');
            let lines = lines_of(s);
            &&& lines.len() == all.len() - if all.last().len() == 0 {
                1int
            } else {
                0
            }
            &&& k < all.len() - 1 ==> (lines[k] == all[k] && !(all[k].len() > 0 && all[k].last()
                == '\r') || all[k] == lines[k].push('\r'))
            &&& k == all.len() - 1 && all[k].len() > 0 ==> lines[k] == all[k]
        }),
{
    let all = pieces(s, '\n');
    if k < all.len() - 1 {
        assert(lines_of(s)[k] == without_return(all[k]));
        if all[k].len() > 0 && all[k].last() == '\r' {
            assert(all[k].drop_last().push('\r') =~= all[k]);
        }
    }
}

/// White space parts words, and nothing else does: the words of two texts with
/// white space between them are the words of the one and then those of the
/// other, a word is its own only word, and a text without a character has none.
pub proof fn white_space_parts_words(a: Seq<char>, c: char, b: Seq<char>, word: Seq<char>)
    requires
        white_space(c),
        is_word(word),
    ensures
        words_of(a.push(c) + b) == words_of(a) + words_of(b),
        words_of(word) == seq![word],
        words_of(Seq::<char>::empty()).len() == 0,
    decreases b.len(), word.len(),
{
    let all = a.push(c) + b;
    if b.len() == 0 {
        assert(all =~= a.push(c));
        assert(all.drop_last() =~= a);
        assert(words_of(a) + words_of(b) =~= words_of(a));
    } else {
        let start = b.drop_last();
        assert(all.drop_last() =~= a.push(c) + start);
        assert(all.last() == b.last());
        white_space_parts_words(a, c, start, word);
        if !white_space(b.last()) {
            let before = all.drop_last();
            if start.len() == 0 {
                assert(before.last() == c);
                assert(words_of(start).len() == 0);
                assert(words_of(all) =~= words_of(a) + words_of(b));
            } else {
                assert(before.last() == start.last());
                if white_space(start.last()) {
                    assert(words_of(all) =~= words_of(a) + words_of(b));
                } else {
                    crate::text::words_hold_no_white_space(start);
                    let had = words_of(a) + words_of(start);
                    assert(had.last() == words_of(start).last());
                    assert(words_of(all) =~= words_of(a) + words_of(b));
                }
            }
        }
    }
    if word.len() == 1 {
        assert(word.drop_last() =~= Seq::empty());
        assert(!white_space(word[0]));
        assert(words_of(word.drop_last()).len() == 0);
        assert(seq![word.last()] =~= word);
        assert(words_of(word) =~= seq![word]);
    } else if b.len() == 0 {
        let start = word.drop_last();
        assert forall|j: int| 0 <= j < start.len() implies !white_space(#[trigger] start[j]) by {
            assert(start[j] == word[j]);
        }
        white_space_parts_words(a, c, b, start);
        assert(!white_space(word[word.len() - 1]));
        assert(start.last() == word[word.len() - 2]);
        assert(start.push(word.last()) =~= word);
        assert(words_of(word) =~= seq![word]);
    }
}

} // verus!
