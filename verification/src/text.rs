//! Strings, as sequences of characters.
//!
//! Everything this crate writes on screen is text it built itself, and what is
//! promised of that text is promised of its characters. The functions here are
//! the ones the rest of the crate builds its strings with.

use unicode_width::UnicodeWidthStr;
use vstd::prelude::*;

verus! {

// ── what the standard library and `unicode-width` decide ───────────────────

/// `String::push` appends the character at the end and changes nothing else.
pub assume_specification[ String::push ](s: &mut String, c: char)
    ensures
        final(s)@ == old(s)@.push(c),
;

/// `String::pop` takes the last character off and hands it back; on an empty
/// string there is none, and nothing changes.
pub assume_specification[ String::pop ](s: &mut String) -> (c: Option<char>)
    ensures
        old(s)@.len() == 0 ==> c is None && final(s)@ == old(s)@,
        old(s)@.len() > 0 ==> c == Some(old(s)@.last()) && final(s)@ == old(s)@.drop_last(),
;

/// The lower-case form of a string, as `str::to_lowercase` has it.
pub uninterp spec fn lowercase(s: Seq<char>) -> Seq<char>;

/// `str::to_lowercase`, whose result depends on the characters alone.
pub assume_specification[ str::to_lowercase ](s: &str) -> (r: String)
    ensures
        r@ == lowercase(s@),
;

/// Whether a character has the Unicode property `White_Space`.
pub open spec fn white_space(c: char) -> bool {
    ||| '\u{9}' <= c <= '\u{d}'
    ||| c == ' '
    ||| c == '\u{85}'
    ||| c == '\u{a0}'
    ||| c == '\u{1680}'
    ||| '\u{2000}' <= c <= '\u{200a}'
    ||| c == '\u{2028}'
    ||| c == '\u{2029}'
    ||| c == '\u{202f}'
    ||| c == '\u{205f}'
    ||| c == '\u{3000}'
}

/// `char::is_whitespace`: true of exactly the characters with the property
/// `White_Space`.
pub assume_specification[ char::is_whitespace ](c: char) -> (b: bool)
    ensures
        b == white_space(c),
;

/// How many columns a terminal gives a string.
pub uninterp spec fn columns_of(s: Seq<char>) -> nat;

/// `UnicodeWidthStr::width`: the columns a string takes, by the tables of
/// `unicode-width`.
#[verifier::external_body]
fn unicode_columns(s: &str) -> (n: usize)
    ensures
        n == columns_of(s@),
{
    UnicodeWidthStr::width(s)
}

// ── the characters of a string ─────────────────────────────────────────────

/// The characters of each of a list of strings.
pub open spec fn texts(strings: Seq<String>) -> Seq<Seq<char>> {
    strings.map_values(|s: String| s@)
}

/// The characters of each of a list of pairs of strings.
pub open spec fn pairs(strings: Seq<(String, String)>) -> Seq<(Seq<char>, Seq<char>)> {
    strings.map_values(|s: (String, String)| (s.0@, s.1@))
}

/// The characters of a string that may not be there.
pub open spec fn some_text(s: Option<String>) -> Option<Seq<char>> {
    match s {
        Some(s) => Some(s@),
        None => None,
    }
}

/// The characters of a string, in order.
pub fn chars_of(s: &str) -> (r: Vec<char>)
    ensures
        r@ == s@,
{
    let mut out: Vec<char> = Vec::new();
    for c in it: s.chars()
        invariant
            out@ == s@.take(it.index()),
            it.seq() == s@,
    {
        out.push(c);
    }
    out
}

/// Part of a list of characters, as a string.
pub fn string_of(chars: &Vec<char>, from: usize, to: usize) -> (r: String)
    requires
        from <= to <= chars@.len(),
    ensures
        r@ == chars@.subrange(from as int, to as int),
{
    let mut out: String = String::new();
    let mut i: usize = from;
    while i < to
        invariant
            from <= i <= to <= chars@.len(),
            out@ == chars@.subrange(from as int, i as int),
        decreases to - i,
    {
        out.push(chars[i]);
        i += 1;
    }
    out
}

/// Add the characters of one string to the end of another.
pub fn push_all(out: &mut String, more: &str)
    ensures
        final(out)@ == old(out)@ + more@,
{
    out.append(more);
}

/// A copy of a string.
pub fn copy_of(s: &str) -> (r: String)
    ensures
        r@ == s@,
{
    s.to_owned()
}

/// The terminal columns a string takes, or the most a screen can count.
pub open spec fn display_columns(s: Seq<char>) -> u16 {
    if columns_of(s) <= u16::MAX {
        columns_of(s) as u16
    } else {
        u16::MAX
    }
}

/// Terminal columns occupied, which is not the character count.
pub fn display_width(s: &str) -> (n: u16)
    ensures
        n == display_columns(s@),
{
    let columns: usize = unicode_columns(s);
    if columns <= 65535 {
        columns as u16
    } else {
        u16::MAX
    }
}

// ── numbers ────────────────────────────────────────────────────────────────

pub open spec fn digit(n: nat) -> char {
    (('0' as u32) + n) as char
}

/// A number in decimal, without leading zeros.
pub open spec fn decimal(n: nat) -> Seq<char>
    decreases n,
{
    if n < 10 {
        seq![digit(n)]
    } else {
        decimal(n / 10).push(digit(n % 10))
    }
}

fn digit_char(n: u8) -> (c: char)
    requires
        n < 10,
    ensures
        c == digit(n as nat),
{
    match n {
        0 => '0',
        1 => '1',
        2 => '2',
        3 => '3',
        4 => '4',
        5 => '5',
        6 => '6',
        7 => '7',
        8 => '8',
        _ => '9',
    }
}

/// Add a number to a string, in decimal.
pub fn push_decimal(out: &mut String, n: u128)
    ensures
        final(out)@ == old(out)@ + decimal(n as nat),
    decreases n,
{
    let ghost before = out@;
    if n < 10 {
        out.push(digit_char(n as u8));
    } else {
        push_decimal(out, n / 10);
        out.push(digit_char((n % 10) as u8));
    }
    proof {
        assert(out@ =~= before + decimal(n as nat));
    }
}

/// A number in decimal.
pub fn decimal_of(n: u128) -> (r: String)
    ensures
        r@ == decimal(n as nat),
{
    let mut out: String = String::new();
    push_decimal(&mut out, n);
    proof {
        assert(out@ =~= decimal(n as nat));
    }
    out
}

/// Two numbers are never written alike.
pub proof fn numbers_are_told_apart(a: nat, b: nat)
    ensures
        decimal(a) == decimal(b) ==> a == b,
    decreases a,
{
    if decimal(a) == decimal(b) {
        a_number_has_a_digit(a / 10);
        a_number_has_a_digit(b / 10);
        assert(decimal(a).last() == decimal(b).last());
        assert(digit(a % 10) == digit(b % 10));
        if a >= 10 && b >= 10 {
            assert(decimal(a).drop_last() =~= decimal(a / 10));
            assert(decimal(b).drop_last() =~= decimal(b / 10));
            numbers_are_told_apart(a / 10, b / 10);
        } else if a >= 10 {
            assert(decimal(a).len() > 1);
        } else if b >= 10 {
            assert(decimal(b).len() > 1);
        }
    }
}

proof fn a_number_has_a_digit(n: nat)
    ensures
        decimal(n).len() >= 1,
    decreases n,
{
    if n >= 10 {
        a_number_has_a_digit(n / 10);
    }
}

/// A signed number in decimal, with a `-` before a negative one.
pub open spec fn signed_decimal(n: int) -> Seq<char> {
    if n < 0 {
        seq!['-'] + decimal((-n) as nat)
    } else {
        decimal(n as nat)
    }
}

/// A signed number in decimal.
pub fn signed_decimal_of(n: i64) -> (r: String)
    ensures
        r@ == signed_decimal(n as int),
{
    let mut out: String = String::new();
    let size: u64 = magnitude(n);
    if n < 0 {
        out.push('-');
    }
    push_decimal(&mut out, size as u128);
    proof {
        assert(out@ =~= signed_decimal(n as int));
    }
    out
}

fn magnitude(n: i64) -> (r: u64)
    ensures
        r == if n < 0 { -n } else { n as int },
{
    if n >= 0 {
        n as u64
    } else if n == i64::MIN {
        9_223_372_036_854_775_808u64
    } else {
        (-n) as u64
    }
}

// ── searching ──────────────────────────────────────────────────────────────

pub open spec fn found_at(hay: Seq<char>, needle: Seq<char>, at: int) -> bool {
    0 <= at && at + needle.len() <= hay.len() && hay.subrange(at, at + needle.len()) == needle
}

/// Whether `needle` stands somewhere in `hay`.
pub open spec fn holds(hay: Seq<char>, needle: Seq<char>) -> bool {
    exists|at: int| #[trigger] found_at(hay, needle, at)
}

fn matches_at(hay: &Vec<char>, needle: &Vec<char>, at: usize) -> (b: bool)
    requires
        at + needle@.len() <= hay@.len(),
    ensures
        b == found_at(hay@, needle@, at as int),
{
    let mut i: usize = 0;
    let n: usize = hay.len();
    while i < needle.len()
        invariant
            n == hay@.len(),
            at + needle@.len() <= hay@.len(),
            i <= needle@.len(),
            forall|j: int| 0 <= j < i ==> hay@[at + j] == needle@[j],
        decreases needle@.len() - i,
    {
        if hay[at + i] != needle[i] {
            proof {
                let part = hay@.subrange(at as int, at + needle@.len());
                assert(part[i as int] == hay@[at + i]);
            }
            return false;
        }
        i += 1;
    }
    proof {
        assert(hay@.subrange(at as int, at + needle@.len()) =~= needle@);
    }
    true
}

/// Whether `needle` stands somewhere in `hay`.
pub fn contains(hay: &str, needle: &str) -> (b: bool)
    ensures
        b == holds(hay@, needle@),
{
    let within: Vec<char> = chars_of(hay);
    let wanted: Vec<char> = chars_of(needle);
    if wanted.len() > within.len() {
        return false;
    }
    let last: usize = within.len() - wanted.len();
    let mut at: usize = 0;
    while at < last
        invariant
            within@ == hay@,
            wanted@ == needle@,
            last == hay@.len() - needle@.len(),
            at <= last,
            forall|j: int| 0 <= j < at ==> !found_at(hay@, needle@, j),
        decreases last - at,
    {
        if matches_at(&within, &wanted, at) {
            return true;
        }
        at += 1;
    }
    matches_at(&within, &wanted, last)
}

/// Whether two strings hold the same characters.
pub fn same_text(a: &str, b: &str) -> (r: bool)
    ensures
        r == (a@ == b@),
{
    let left: Vec<char> = chars_of(a);
    let right: Vec<char> = chars_of(b);
    if left.len() != right.len() {
        return false;
    }
    let same: bool = matches_at(&left, &right, 0);
    proof {
        assert(a@.subrange(0, a@.len() as int) =~= a@);
    }
    same
}

/// Whether two lists of strings hold the same characters.
pub fn same_texts(a: &Vec<String>, b: &Vec<String>) -> (r: bool)
    ensures
        r == (texts(a@) == texts(b@)),
{
    if a.len() != b.len() {
        proof {
            assert(texts(a@).len() != texts(b@).len());
        }
        return false;
    }
    let mut i: usize = 0;
    while i < a.len()
        invariant
            a@.len() == b@.len(),
            i <= a@.len(),
            forall|j: int| 0 <= j < i ==> texts(a@)[j] == texts(b@)[j],
        decreases a@.len() - i,
    {
        if !same_text(a[i].as_str(), b[i].as_str()) {
            proof {
                assert(texts(a@)[i as int] != texts(b@)[i as int]);
            }
            return false;
        }
        i += 1;
    }
    proof {
        assert(texts(a@) =~= texts(b@));
    }
    true
}

// ── the order of strings ───────────────────────────────────────────────────

/// Whether one string comes before another: at the first character in which
/// they differ it has the lower one, or it ends where the other goes on.
pub open spec fn precedes(a: Seq<char>, b: Seq<char>) -> bool
    decreases a.len(),
{
    b.len() > 0 && (a.len() == 0 || a[0] < b[0] || a[0] == b[0] && precedes(
        a.drop_first(),
        b.drop_first(),
    ))
}

/// Of two strings that differ exactly one comes before the other, and none
/// comes before itself.
pub proof fn one_of_two_strings_precedes(a: Seq<char>, b: Seq<char>)
    ensures
        !precedes(a, a),
        precedes(a, b) ==> !precedes(b, a),
        a != b ==> precedes(a, b) || precedes(b, a),
    decreases a.len(),
{
    if a.len() > 0 {
        one_of_two_strings_precedes(a.drop_first(), a.drop_first());
        if b.len() > 0 {
            one_of_two_strings_precedes(a.drop_first(), b.drop_first());
            if a[0] == b[0] && a.drop_first() == b.drop_first() {
                assert(a =~= seq![a[0]] + a.drop_first());
                assert(b =~= seq![b[0]] + b.drop_first());
            }
        }
    } else if b.len() == 0 {
        assert(a =~= b);
    }
}

/// What comes before a string comes before everything behind that.
pub proof fn preceding_goes_on(a: Seq<char>, b: Seq<char>, c: Seq<char>)
    requires
        precedes(a, b),
        precedes(b, c),
    ensures
        precedes(a, c),
    decreases a.len(),
{
    if a.len() > 0 && a[0] == b[0] && b[0] == c[0] {
        preceding_goes_on(a.drop_first(), b.drop_first(), c.drop_first());
    }
}

/// Whether one string comes before another.
pub fn comes_before(a: &str, b: &str) -> (r: bool)
    ensures
        r == precedes(a@, b@),
{
    let left: Vec<char> = chars_of(a);
    let right: Vec<char> = chars_of(b);
    let mut i: usize = 0;
    proof {
        assert(left@.skip(0) =~= left@);
        assert(right@.skip(0) =~= right@);
    }
    while i < left.len() && i < right.len() && left[i] == right[i]
        invariant
            left@ == a@,
            right@ == b@,
            i <= left@.len(),
            i <= right@.len(),
            precedes(a@, b@) == precedes(left@.skip(i as int), right@.skip(i as int)),
        decreases left@.len() - i,
    {
        proof {
            assert(left@.skip(i as int).drop_first() =~= left@.skip(i + 1));
            assert(right@.skip(i as int).drop_first() =~= right@.skip(i + 1));
        }
        i += 1;
    }
    i < right.len() && (i == left.len() || left[i] < right[i])
}

// ── white space ────────────────────────────────────────────────────────────

/// Nothing but white space.
pub open spec fn blank(s: Seq<char>) -> bool {
    forall|i: int| 0 <= i < s.len() ==> white_space(#[trigger] s[i])
}

/// A string without the white space at its end.
pub open spec fn trimmed_end(s: Seq<char>) -> Seq<char>
    decreases s.len(),
{
    if s.len() > 0 && white_space(s.last()) {
        trimmed_end(s.drop_last())
    } else {
        s
    }
}

/// A string without the white space at its start.
pub open spec fn trimmed_start(s: Seq<char>) -> Seq<char>
    decreases s.len(),
{
    if s.len() > 0 && white_space(s[0]) {
        trimmed_start(s.drop_first())
    } else {
        s
    }
}

/// A string without the white space at either end.
pub open spec fn trimmed(s: Seq<char>) -> Seq<char> {
    trimmed_end(trimmed_start(s))
}

/// Whether there is nothing but white space.
pub fn is_blank(s: &str) -> (b: bool)
    ensures
        b == blank(s@),
{
    let chars: Vec<char> = chars_of(s);
    let mut i: usize = 0;
    while i < chars.len()
        invariant
            chars@ == s@,
            i <= chars@.len(),
            forall|j: int| 0 <= j < i ==> white_space(#[trigger] chars@[j]),
        decreases chars@.len() - i,
    {
        if !chars[i].is_whitespace() {
            return false;
        }
        i += 1;
    }
    true
}

/// The string without the white space at either end.
pub fn trim(s: &str) -> (r: String)
    ensures
        r@ == trimmed(s@),
{
    let chars: Vec<char> = chars_of(s);
    let n: usize = chars.len();
    let mut from: usize = 0;
    proof {
        assert(chars@.subrange(0, n as int) =~= s@);
    }
    while from < n && chars[from].is_whitespace()
        invariant
            n == chars@.len(),
            from <= n,
            trimmed_start(s@) == trimmed_start(chars@.subrange(from as int, n as int)),
        decreases n - from,
    {
        proof {
            assert(chars@.subrange(from as int, n as int).drop_first()
                =~= chars@.subrange(from + 1, n as int));
        }
        from += 1;
    }
    proof {
        let rest = chars@.subrange(from as int, n as int);
        assert(rest.len() > 0 ==> rest[0] == chars@[from as int]);
        assert(trimmed_start(s@) == rest);
    }
    let mut to: usize = n;
    while to > from && chars[to - 1].is_whitespace()
        invariant
            n == chars@.len(),
            from <= to <= n,
            trimmed(s@) == trimmed_end(chars@.subrange(from as int, to as int)),
        decreases to,
    {
        proof {
            assert(chars@.subrange(from as int, to as int).drop_last()
                =~= chars@.subrange(from as int, to - 1));
        }
        to -= 1;
    }
    proof {
        let rest = chars@.subrange(from as int, to as int);
        assert(rest.len() > 0 ==> rest.last() == chars@[to - 1]);
    }
    string_of(&chars, from, to)
}

/// Trimming leaves nothing exactly when there was nothing but white space.
pub proof fn a_blank_string_trims_to_nothing(s: Seq<char>)
    ensures
        trimmed(s).len() == 0 <==> blank(s),
{
    start_of_a_trimmed_string(s);
    end_of_a_trimmed_string(trimmed_start(s));
}

proof fn start_of_a_trimmed_string(s: Seq<char>)
    ensures
        blank(trimmed_start(s)) <==> blank(s),
    decreases s.len(),
{
    if s.len() > 0 && white_space(s[0]) {
        start_of_a_trimmed_string(s.drop_first());
        let rest = s.drop_first();
        if blank(rest) {
            assert forall|i: int| 0 <= i < s.len() implies white_space(#[trigger] s[i]) by {
                if i > 0 {
                    assert(rest[i - 1] == s[i]);
                }
            }
        }
        if blank(s) {
            assert forall|i: int| 0 <= i < rest.len() implies white_space(#[trigger] rest[i]) by {
                assert(rest[i] == s[i + 1]);
            }
        }
    }
}

proof fn end_of_a_trimmed_string(s: Seq<char>)
    ensures
        trimmed_end(s).len() == 0 <==> blank(s),
    decreases s.len(),
{
    if s.len() > 0 {
        if white_space(s.last()) {
            let rest = s.drop_last();
            end_of_a_trimmed_string(rest);
            if blank(rest) {
                assert forall|i: int| 0 <= i < s.len() implies white_space(#[trigger] s[i]) by {
                    if i < rest.len() {
                        assert(rest[i] == s[i]);
                    }
                }
            }
            if blank(s) {
                assert forall|i: int| 0 <= i < rest.len() implies white_space(
                    #[trigger] rest[i],
                ) by {
                    assert(rest[i] == s[i]);
                }
            }
        } else {
            assert(!white_space(s[s.len() - 1]));
        }
    }
}

// ── pieces ─────────────────────────────────────────────────────────────────

/// The pieces of a string between the places where `sep` stands. There is
/// always one more piece than there are separators.
pub open spec fn pieces(s: Seq<char>, sep: char) -> Seq<Seq<char>>
    decreases s.len(),
{
    if s.len() == 0 {
        seq![Seq::empty()]
    } else {
        let before = pieces(s.drop_last(), sep);
        if s.last() == sep {
            before.push(Seq::empty())
        } else {
            before.drop_last().push(before.last().push(s.last()))
        }
    }
}

pub proof fn there_is_always_a_piece(s: Seq<char>, sep: char)
    ensures
        pieces(s, sep).len() >= 1,
    decreases s.len(),
{
    if s.len() > 0 {
        there_is_always_a_piece(s.drop_last(), sep);
    }
}

/// The pieces of a string between the places where `sep` stands.
pub fn split(s: &str, sep: char) -> (r: Vec<String>)
    ensures
        texts(r@) == pieces(s@, sep),
{
    let chars: Vec<char> = chars_of(s);
    let mut out: Vec<String> = Vec::new();
    let mut piece: String = String::new();
    let mut i: usize = 0;
    proof {
        assert(texts(out@).push(piece@) =~= pieces(chars@.take(0), sep));
    }
    while i < chars.len()
        invariant
            chars@ == s@,
            i <= chars@.len(),
            texts(out@).push(piece@) == pieces(chars@.take(i as int), sep),
        decreases chars@.len() - i,
    {
        let c: char = chars[i];
        let ghost done = texts(out@);
        let ghost was = piece@;
        proof {
            assert(chars@.take(i + 1).drop_last() =~= chars@.take(i as int));
            assert(done.push(was).drop_last() =~= done);
            assert(done.push(was).last() == was);
        }
        if c == sep {
            out.push(piece);
            piece = String::new();
            proof {
                assert(texts(out@) =~= done.push(was));
                assert(texts(out@).push(piece@) =~= done.push(was).push(Seq::empty()));
            }
        } else {
            piece.push(c);
            proof {
                assert(texts(out@).push(piece@) =~= done.push(was.push(c)));
            }
        }
        i += 1;
    }
    let ghost last = piece@;
    let ghost done = texts(out@);
    out.push(piece);
    proof {
        assert(chars@.take(i as int) =~= s@);
        assert(texts(out@) =~= done.push(last));
    }
    out
}

/// A line without the carriage return that ended it.
pub open spec fn without_return(s: Seq<char>) -> Seq<char> {
    if s.len() > 0 && s.last() == '\r' {
        s.drop_last()
    } else {
        s
    }
}

/// The lines of a string: what stands between the newlines, without a carriage
/// return before one, and without the empty line that a newline at the very
/// end would open.
pub open spec fn lines_of(s: Seq<char>) -> Seq<Seq<char>> {
    let all = pieces(s, '\n');
    let ended = all.drop_last().map_values(|l: Seq<char>| without_return(l));
    if all.last().len() == 0 {
        ended
    } else {
        ended.push(all.last())
    }
}

/// The lines of a string.
pub fn lines(s: &str) -> (r: Vec<String>)
    ensures
        texts(r@) == lines_of(s@),
{
    let all: Vec<String> = split(s, '\n');
    let ghost every = pieces(s@, '\n');
    proof {
        there_is_always_a_piece(s@, '\n');
        assert(texts(all@).len() == all@.len());
    }
    let n: usize = all.len();
    let mut out: Vec<String> = Vec::new();
    let mut i: usize = 0;
    while i < n - 1
        invariant
            n == all@.len() >= 1,
            texts(all@) == every,
            i <= n - 1,
            texts(out@) == every.take(i as int).map_values(|l: Seq<char>| without_return(l)),
        decreases n - i,
    {
        let mut line: String = copy_of(all[i].as_str());
        proof {
            assert(texts(all@)[i as int] == all@[i as int]@);
        }
        if ends_with_return(line.as_str()) {
            let _ = line.pop();
        }
        let ghost done = texts(out@);
        let ghost added = line@;
        out.push(line);
        proof {
            assert(texts(out@) =~= done.push(added));
            assert(texts(out@) =~= every.take(i + 1).map_values(|l: Seq<char>| without_return(l)));
        }
        i += 1;
    }
    let ghost ended = texts(out@);
    proof {
        assert(every.take(n - 1) =~= every.drop_last());
        assert(texts(all@)[n - 1] == all@[n - 1]@);
    }
    if !all[n - 1].as_str().is_empty() {
        let last: String = copy_of(all[n - 1].as_str());
        out.push(last);
        proof {
            assert(texts(out@) =~= ended.push(every.last()));
        }
    }
    out
}

fn ends_with_return(s: &str) -> (b: bool)
    ensures
        b == (s@.len() > 0 && s@.last() == '\r'),
{
    let chars: Vec<char> = chars_of(s);
    chars.len() > 0 && chars[chars.len() - 1] == '\r'
}

/// The words of a string: its longest runs without white space.
pub open spec fn words_of(s: Seq<char>) -> Seq<Seq<char>>
    decreases s.len(),
{
    if s.len() == 0 {
        Seq::empty()
    } else if white_space(s.last()) {
        words_of(s.drop_last())
    } else {
        let before = s.drop_last();
        if before.len() == 0 || white_space(before.last()) {
            words_of(before).push(seq![s.last()])
        } else {
            words_of(before).drop_last().push(words_of(before).last().push(s.last()))
        }
    }
}

/// The parts put after one another, with `sep` between each two.
pub open spec fn joined(parts: Seq<Seq<char>>, sep: Seq<char>) -> Seq<char>
    decreases parts.len(),
{
    if parts.len() == 0 {
        Seq::empty()
    } else if parts.len() == 1 {
        parts[0]
    } else {
        joined(parts.drop_last(), sep) + sep + parts.last()
    }
}

/// The parts put after one another, with `sep` between each two.
pub fn join(parts: &Vec<String>, sep: &str) -> (r: String)
    ensures
        r@ == joined(texts(parts@), sep@),
{
    let mut out: String = String::new();
    let mut i: usize = 0;
    proof {
        assert(texts(parts@).take(0) =~= Seq::empty());
    }
    while i < parts.len()
        invariant
            i <= parts@.len(),
            out@ == joined(texts(parts@).take(i as int), sep@),
        decreases parts@.len() - i,
    {
        let ghost before = out@;
        let ghost all = texts(parts@);
        proof {
            assert(all[i as int] == parts@[i as int]@);
            assert(all.take(i + 1).drop_last() =~= all.take(i as int));
            assert(all.take(i + 1).last() == parts@[i as int]@);
        }
        if i > 0 {
            push_all(&mut out, sep);
        }
        push_all(&mut out, parts[i].as_str());
        proof {
            if i == 0 {
                assert(out@ =~= parts@[0]@);
            } else {
                assert(out@ =~= before + sep@ + parts@[i as int]@);
            }
        }
        i += 1;
    }
    proof {
        assert(texts(parts@).take(parts@.len() as int) =~= texts(parts@));
    }
    out
}

/// The words of a string.
pub fn words(s: &str) -> (r: Vec<String>)
    ensures
        texts(r@) == words_of(s@),
{
    let chars: Vec<char> = chars_of(s);
    let mut out: Vec<String> = Vec::new();
    let mut word: String = String::new();
    let mut i: usize = 0;
    proof {
        assert(texts(out@) =~= words_of(chars@.take(0)));
    }
    while i < chars.len()
        invariant
            chars@ == s@,
            i <= chars@.len(),
            (word@.len() > 0) == (i > 0 && !white_space(chars@[i - 1])),
            word@.len() == 0 ==> texts(out@) == words_of(chars@.take(i as int)),
            word@.len() > 0 ==> texts(out@).push(word@) == words_of(chars@.take(i as int)),
        decreases chars@.len() - i,
    {
        let c: char = chars[i];
        let ghost done = texts(out@);
        let ghost was = word@;
        let ghost seen = chars@.take(i + 1);
        proof {
            assert(seen.drop_last() =~= chars@.take(i as int));
            assert(seen.last() == c);
            assert(i > 0 ==> chars@.take(i as int).last() == chars@[i - 1]);
            assert(done.push(was).drop_last() =~= done);
            assert(done.push(was).last() == was);
        }
        if c.is_whitespace() {
            if !word.as_str().is_empty() {
                out.push(word);
                word = String::new();
                proof {
                    assert(texts(out@) =~= done.push(was));
                }
            }
        } else {
            word.push(c);
            proof {
                assert(was.len() == 0 ==> word@ =~= seq![c]);
            }
        }
        i += 1;
    }
    proof {
        assert(chars@.take(i as int) =~= s@);
    }
    if !word.as_str().is_empty() {
        let ghost done = texts(out@);
        let ghost last = word@;
        out.push(word);
        proof {
            assert(texts(out@) =~= done.push(last));
        }
    }
    out
}

/// A word: something, and no white space in it.
pub open spec fn is_word(word: Seq<char>) -> bool {
    word.len() > 0 && forall|j: int| 0 <= j < word.len() ==> !white_space(#[trigger] word[j])
}

/// Nothing but words.
pub open spec fn all_words(words: Seq<Seq<char>>) -> bool {
    forall|i: int| 0 <= i < words.len() ==> is_word(#[trigger] words[i])
}

/// Every word is a run of characters that are not white space, and a string of
/// white space has no words.
pub proof fn words_hold_no_white_space(s: Seq<char>)
    ensures
        all_words(words_of(s)),
        s.len() > 0 && !white_space(s.last()) ==> words_of(s).len() > 0,
        blank(s) <==> words_of(s).len() == 0,
    decreases s.len(),
{
    if s.len() > 0 {
        let before = s.drop_last();
        words_hold_no_white_space(before);
        assert(s.last() == s[s.len() - 1]);
        assert(blank(s) <==> blank(before) && white_space(s.last())) by {
            if blank(s) {
                assert forall|i: int| 0 <= i < before.len() implies white_space(
                    #[trigger] before[i],
                ) by {
                    assert(before[i] == s[i]);
                }
            }
            if blank(before) && white_space(s.last()) {
                assert forall|i: int| 0 <= i < s.len() implies white_space(#[trigger] s[i]) by {
                    if i < before.len() {
                        assert(before[i] == s[i]);
                    }
                }
            }
        }
        if !white_space(s.last()) {
            let found = words_of(before);
            let all = words_of(s);
            assert forall|i: int| 0 <= i < all.len() implies is_word(#[trigger] all[i]) by {
                if i < all.len() - 1 {
                    assert(all[i] == found[i]);
                } else if before.len() == 0 || white_space(before.last()) {
                    assert(all[i] == seq![s.last()]);
                } else {
                    assert(is_word(found[found.len() - 1]));
                    assert(all[i] == found.last().push(s.last()));
                }
            }
        }
    }
}

proof fn a_word_after_white_space_is_one_more(s: Seq<char>, word: Seq<char>)
    requires
        s.len() == 0 || white_space(s.last()),
        is_word(word),
    ensures
        words_of(s + word) == words_of(s).push(word),
    decreases word.len(),
{
    let all = s + word;
    assert(all.drop_last() =~= s + word.drop_last());
    assert(all.last() == word[word.len() - 1]);
    if word.len() == 1 {
        assert(s + word.drop_last() =~= s);
        assert(word =~= seq![all.last()]);
    } else {
        let start = word.drop_last();
        assert forall|j: int| 0 <= j < start.len() implies !white_space(#[trigger] start[j]) by {
            assert(start[j] == word[j]);
        }
        a_word_after_white_space_is_one_more(s, start);
        assert(all.drop_last().last() == word[word.len() - 2]);
        assert(words_of(s).push(start).drop_last() =~= words_of(s));
        assert(start.push(all.last()) =~= word);
    }
}

/// What words read as on one line: with one space between each two of them, and
/// no other white space anywhere.
pub proof fn words_on_a_line_are_one_space_apart(words: Seq<Seq<char>>)
    requires
        all_words(words),
    ensures
        ({
            let line = joined(words, seq![' ']);
            &&& words_of(line) == words
            &&& line.len() == 0 <==> words.len() == 0
            &&& line.len() > 0 ==> !white_space(line[0]) && !white_space(line.last())
            &&& forall|i: int| 0 <= i < line.len() && white_space(#[trigger] line[i]) ==> line[i] == ' '
            &&& forall|i: int, j: int|
                0 <= i < line.len() && j == i + 1 && white_space(#[trigger] line[i]) ==> j < line.len()
                    && !white_space(#[trigger] line[j])
        }),
    decreases words.len(),
{
    if words.len() > 0 {
        let line = joined(words, seq![' ']);
        let word = words.last();
        assert(is_word(words[words.len() - 1]));
        if words.len() == 1 {
            a_word_after_white_space_is_one_more(Seq::empty(), word);
            assert(Seq::<char>::empty() + word =~= word);
            assert(words_of(line) =~= words);
        } else {
            let rest = words.drop_last();
            assert forall|i: int| 0 <= i < rest.len() implies is_word(#[trigger] rest[i]) by {
                assert(rest[i] == words[i]);
            }
            words_on_a_line_are_one_space_apart(rest);
            let start = joined(rest, seq![' ']);
            let spaced = start + seq![' '];
            assert(spaced.drop_last() =~= start);
            assert(spaced.last() == ' ');
            a_word_after_white_space_is_one_more(spaced, word);
            assert(line == spaced + word);
            assert(words_of(line) =~= words);
            assert(line[0] == start[0]);
            assert(line.last() == word[word.len() - 1]);
            assert forall|i: int| 0 <= i < line.len() && white_space(#[trigger] line[i]) implies line[i]
                == ' ' by {
                if i < start.len() {
                    assert(line[i] == start[i]);
                } else if i > start.len() {
                    assert(line[i] == word[i - start.len() - 1]);
                }
            }
            assert forall|i: int, j: int|
                0 <= i < line.len() && j == i + 1 && white_space(#[trigger] line[i]) implies j
                < line.len() && !white_space(#[trigger] line[j]) by {
                if i < start.len() {
                    assert(line[i] == start[i]);
                    if j < start.len() {
                        assert(line[j] == start[j]);
                    } else {
                        assert(start[i] == start.last());
                    }
                } else if i == start.len() {
                    assert(line[j] == word[0]);
                } else {
                    assert(line[i] == word[i - start.len() - 1]);
                }
            }
        }
    }
}

/// A string with every `what` replaced by `with`.
pub open spec fn replaced(s: Seq<char>, what: char, with: Seq<char>) -> Seq<char>
    decreases s.len(),
{
    if s.len() == 0 {
        s
    } else if s.last() == what {
        replaced(s.drop_last(), what, with) + with
    } else {
        replaced(s.drop_last(), what, with).push(s.last())
    }
}

/// The string with every `what` replaced by `with`.
pub fn replace(s: &str, what: char, with: &str) -> (r: String)
    ensures
        r@ == replaced(s@, what, with@),
{
    let chars: Vec<char> = chars_of(s);
    let mut out: String = String::new();
    let mut i: usize = 0;
    while i < chars.len()
        invariant
            chars@ == s@,
            i <= chars@.len(),
            out@ == replaced(chars@.take(i as int), what, with@),
        decreases chars@.len() - i,
    {
        proof {
            assert(chars@.take(i + 1).drop_last() =~= chars@.take(i as int));
        }
        if chars[i] == what {
            push_all(&mut out, with);
        } else {
            out.push(chars[i]);
        }
        i += 1;
    }
    proof {
        assert(chars@.take(i as int) =~= s@);
    }
    out
}

/// The same character `n` times.
pub open spec fn run_of(c: char, n: nat) -> Seq<char> {
    Seq::new(n, |i: int| c)
}

/// Add the same character `n` times.
pub fn push_run(out: &mut String, c: char, n: usize)
    ensures
        final(out)@ == old(out)@ + run_of(c, n as nat),
{
    let ghost before = out@;
    let mut i: usize = 0;
    proof {
        assert(before + run_of(c, 0) =~= before);
    }
    while i < n
        invariant
            i <= n,
            out@ == before + run_of(c, i as nat),
        decreases n - i,
    {
        out.push(c);
        proof {
            assert(out@ =~= before + run_of(c, (i + 1) as nat));
        }
        i += 1;
    }
}

// ── bytes ──────────────────────────────────────────────────────────────────

pub open spec fn hex_digit(n: nat) -> char {
    if n < 10 {
        (('0' as u32) + n) as char
    } else {
        (('a' as u32) + n - 10) as char
    }
}

/// Bytes as two lower-case hexadecimal digits each.
pub open spec fn hex_of(bytes: Seq<u8>) -> Seq<char>
    decreases bytes.len(),
{
    if bytes.len() == 0 {
        Seq::empty()
    } else {
        hex_of(bytes.drop_last()).push(hex_digit(bytes.last() as nat / 16)).push(
            hex_digit(bytes.last() as nat % 16),
        )
    }
}

fn hex_char(n: u8) -> (c: char)
    requires
        n < 16,
    ensures
        c == hex_digit(n as nat),
{
    match n {
        0 => '0',
        1 => '1',
        2 => '2',
        3 => '3',
        4 => '4',
        5 => '5',
        6 => '6',
        7 => '7',
        8 => '8',
        9 => '9',
        10 => 'a',
        11 => 'b',
        12 => 'c',
        13 => 'd',
        14 => 'e',
        _ => 'f',
    }
}

/// Add the first `n` bytes in hexadecimal.
pub fn push_hex(out: &mut String, bytes: &Vec<u8>, n: usize)
    requires
        n <= bytes@.len(),
    ensures
        final(out)@ == old(out)@ + hex_of(bytes@.take(n as int)),
{
    let ghost before = out@;
    let mut i: usize = 0;
    proof {
        assert(before + hex_of(bytes@.take(0)) =~= before);
    }
    while i < n
        invariant
            i <= n <= bytes@.len(),
            out@ == before + hex_of(bytes@.take(i as int)),
        decreases n - i,
    {
        let b: u8 = bytes[i];
        proof {
            assert(bytes@.take(i + 1).drop_last() =~= bytes@.take(i as int));
        }
        out.push(hex_char(b / 16));
        out.push(hex_char(b % 16));
        proof {
            assert(out@ =~= before + hex_of(bytes@.take(i + 1)));
        }
        i += 1;
    }
}

} // verus!
