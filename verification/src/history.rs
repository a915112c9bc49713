//! What this client has run, as a grid with a search box over it.
//!
//! The rows are shaped here because a screen wants "4m ago" and "12ms", where
//! an agent asking for its history wants a timestamp and a number.

use crate::clock::{seconds_between, seconds_since, Moment};
use crate::chrome::{fit, fitted};
use crate::geometry::Rect;
use crate::grid::{sanitise, sanitised};
use crate::ids::Edition;
use crate::json::Json;
use crate::model::{Column, Datum, HistoryEntry, PagedResult, Row, Value};
use crate::paint::{raw, styled, Canvas, CanvasView, Color, Span, SpanView, Style};
use crate::search::{first, first_is_the_first, views};
use crate::reading::{
    a_count_ends_where_its_unit_begins, a_count_says_itself, a_number_says_itself, all_digits,
    count_in, is_digit, leading_digits, number_in, unit_in,
};
use crate::text::{
    blank, copy_of, decimal, decimal_of, join, joined, push_all, push_decimal, some_text, white_space,
    words, words_hold_no_white_space, words_of, words_on_a_line_are_one_space_apart,
};
use crate::ui::{Filter, FilterView};
use vstd::prelude::*;
use vstd::utf8::encode_utf8;

verus! {

/// A statement on one line.
pub open spec fn on_one_line(sql: Seq<char>) -> Seq<char> {
    joined(words_of(sql), " "@)
}

/// A statement on one line.
///
/// A grid row is one line high, and a `\n` in a cell is a glyph the terminal
/// draws as a box — so the newlines go before the cell is built rather than
/// being elided into one by the renderer, which cannot know that the runs of
/// whitespace around them were an indented `FROM`.
pub fn one_line(sql: &str) -> (r: String)
    ensures
        r@ == on_one_line(sql@),
{
    join(&words(sql), " ")
}

/// A statement on one line has the same words in the same order, one space
/// apart and with no other white space, first or last or between; a statement
/// of nothing but white space has nothing on its line.
pub proof fn a_statement_keeps_its_words_on_one_line(sql: Seq<char>)
    ensures
        words_of(on_one_line(sql)) == words_of(sql),
        on_one_line(on_one_line(sql)) == on_one_line(sql),
        blank(sql) <==> on_one_line(sql).len() == 0,
        ({
            let line = on_one_line(sql);
            &&& line.len() > 0 ==> !white_space(line[0]) && !white_space(line.last())
            &&& forall|i: int| 0 <= i < line.len() && white_space(#[trigger] line[i]) ==> line[i] == ' '
            &&& forall|i: int, j: int|
                0 <= i < line.len() && j == i + 1 && white_space(#[trigger] line[i]) ==> j < line.len()
                    && !white_space(#[trigger] line[j])
        }),
{
    reveal_strlit(" ");
    assert(" "@ =~= seq![' ']);
    words_hold_no_white_space(sql);
    words_on_a_line_are_one_space_apart(words_of(sql));
}

/// How long ago, in the roughest unit that still says something.
pub open spec fn ago_text(at: Moment, now: Moment) -> Seq<char> {
    let seconds = seconds_between(at, now);
    if seconds < 0 {
        "just now"@
    } else if seconds < 60 {
        decimal(seconds as nat) + "s ago"@
    } else if seconds < 3600 {
        decimal((seconds / 60) as nat) + "m ago"@
    } else if seconds < 86_400 {
        decimal((seconds / 3600) as nat) + "h ago"@
    } else {
        decimal((seconds / 86_400) as nat) + "d ago"@
    }
}

/// How long ago, in the roughest unit that still says something.
///
/// Relative rather than a local time, and not because it reads better: a local
/// time needs the machine's UTC offset, which cannot be read safely in a
/// process with threads. UTC in a column called `when` would be a number
/// nobody can compare with their own clock.
pub fn ago(at: Moment, now: Moment) -> (r: String)
    ensures
        r@ == ago_text(at, now),
{
    let seconds: u128 = match seconds_since(at, now) {
        Some(seconds) => seconds,
        // A row from the future: the clock stepped back between the run and
        // the reading of it. "just now" is wrong by less than the step.
        None => return copy_of("just now"),
    };
    if seconds < 60 {
        counted(seconds, "s ago")
    } else if seconds < 3600 {
        counted(seconds / 60, "m ago")
    } else if seconds < 86_400 {
        counted(seconds / 3600, "h ago")
    } else {
        counted(seconds / 86_400, "d ago")
    }
}

fn counted(n: u128, unit: &str) -> (r: String)
    ensures
        r@ == decimal(n as nat) + unit@,
{
    let mut out: String = decimal_of(n);
    push_all(&mut out, unit);
    out
}

/// The nanoseconds that a word for a unit stands for, and none for any other
/// word.
pub open spec fn unit_nanos(word: Seq<char>) -> int {
    if word == "s ago"@ {
        1_000_000_000
    } else if word == "m ago"@ {
        60_000_000_000
    } else if word == "h ago"@ {
        3_600_000_000_000
    } else if word == "d ago"@ {
        86_400_000_000_000
    } else {
        0
    }
}

/// How many of a unit go into the next larger one, where there is a larger one.
pub open spec fn fewer_than(word: Seq<char>) -> Option<int> {
    if word == "d ago"@ {
        None
    } else if word == "h ago"@ {
        Some(24)
    } else {
        Some(60)
    }
}

/// The nanoseconds that have passed at least, for a reader of how long ago.
pub open spec fn age_said(text: Seq<char>) -> int {
    count_in(text) * unit_nanos(unit_in(text))
}

proof fn units_are_told_apart()
    ensures
        unit_nanos("s ago"@) == 1_000_000_000,
        unit_nanos("m ago"@) == 60_000_000_000,
        unit_nanos("h ago"@) == 3_600_000_000_000,
        unit_nanos("d ago"@) == 86_400_000_000_000,
        fewer_than("s ago"@) == Some(60int),
        fewer_than("m ago"@) == Some(60int),
        fewer_than("h ago"@) == Some(24int),
        fewer_than("d ago"@) is None,
        !is_digit("s ago"@[0]) && "s ago"@.len() == 5,
        !is_digit("m ago"@[0]) && "m ago"@.len() == 5,
        !is_digit("h ago"@[0]) && "h ago"@.len() == 5,
        !is_digit("d ago"@[0]) && "d ago"@.len() == 5,
        !is_digit("just now"@[0]) && "just now"@.len() == 8,
{
    reveal_strlit("s ago");
    reveal_strlit("m ago");
    reveal_strlit("h ago");
    reveal_strlit("d ago");
    reveal_strlit("just now");
    assert("s ago"@[0] == 's');
    assert("m ago"@[0] == 'm');
    assert("h ago"@[0] == 'h');
    assert("d ago"@[0] == 'd');
}

/// How long ago is said is how long ago it was. What is read off is a count of a
/// unit: that many of it have passed, and one more have not; there is at least
/// one of it, unless it is the smallest, and too few to make one of the next
/// larger. A run that is a second or more still to come was just now.
pub proof fn how_long_ago_is_so(at: Moment, now: Moment)
    ensures
        ({
            let text = ago_text(at, now);
            let passed = now.instant() - at.instant();
            let unit = unit_in(text);
            let count = count_in(text);
            &&& passed <= -1_000_000_000 <==> text == "just now"@
            &&& passed > -1_000_000_000 ==> {
                &&& unit_nanos(unit) > 0
                &&& all_digits(leading_digits(text))
                &&& passed < 0 ==> count == 0 && unit == "s ago"@
                &&& passed >= 0 ==> count * unit_nanos(unit) <= passed < (count + 1) * unit_nanos(
                    unit,
                )
                &&& unit != "s ago"@ ==> count >= 1
                &&& fewer_than(unit) matches Some(most) ==> count < most
            }
        }),
{
    units_are_told_apart();
    let seconds = seconds_between(at, now);
    let text = ago_text(at, now);
    if seconds < 0 {
    } else {
        let (n, unit) = if seconds < 60 {
            (seconds, "s ago"@)
        } else if seconds < 3600 {
            (seconds / 60, "m ago"@)
        } else if seconds < 86_400 {
            (seconds / 3600, "h ago"@)
        } else {
            (seconds / 86_400, "d ago"@)
        };
        a_number_says_itself(n as nat);
        a_count_says_itself(n as nat, unit);
        assert(is_digit(text[0])) by {
            assert(text[0] == decimal(n as nat)[0]);
        }
        assert(text != "just now"@);
    }
}

/// The whole units of a time, in the largest unit it has one of.
spec fn whole_units(passed: int) -> int {
    if passed < 0 {
        0
    } else if passed < 60_000_000_000 {
        passed / 1_000_000_000 * 1_000_000_000
    } else if passed < 3_600_000_000_000 {
        passed / 60_000_000_000 * 60_000_000_000
    } else if passed < 86_400_000_000_000 {
        passed / 3_600_000_000_000 * 3_600_000_000_000
    } else {
        passed / 86_400_000_000_000 * 86_400_000_000_000
    }
}

#[verifier::spinoff_prover]
proof fn more_time_is_no_fewer_whole_units(a: int, b: int)
    requires
        a <= b,
    ensures
        whole_units(a) <= whole_units(b),
{
}

proof fn an_age_is_cut_to_its_unit(at: Moment, now: Moment)
    ensures
        age_said(ago_text(at, now)) == whole_units(now.instant() - at.instant()),
{
    how_long_ago_is_so(at, now);
    units_are_told_apart();
    let text = ago_text(at, now);
    let unit = unit_in(text);
    let count = count_in(text);
    let passed = now.instant() - at.instant();
    if text == "just now"@ {
        a_count_ends_where_its_unit_begins(Seq::empty(), "just now"@);
        assert(Seq::<char>::empty() + "just now"@ =~= "just now"@);
        assert(count == 0);
    } else if passed >= 0 {
        assert(unit == "s ago"@ || unit == "m ago"@ || unit == "h ago"@ || unit == "d ago"@);
        let nanos = unit_nanos(unit);
        assert(count == passed / nanos && count * nanos == passed / nanos * nanos) by (
        nonlinear_arith)
            requires
                nanos > 0,
                count * nanos <= passed < (count + 1) * nanos,
        ;
        assert(nanos == 1_000_000_000 || nanos == 60_000_000_000 || nanos == 3_600_000_000_000
            || nanos == 86_400_000_000_000);
    }
}

/// Of two runs the one that started first never reads as the more recent.
pub proof fn an_older_run_never_reads_as_newer(older: Moment, newer: Moment, now: Moment)
    requires
        older.instant() <= newer.instant(),
    ensures
        age_said(ago_text(older, now)) >= age_said(ago_text(newer, now)),
{
    an_age_is_cut_to_its_unit(older, now);
    an_age_is_cut_to_its_unit(newer, now);
    more_time_is_no_fewer_whole_units(
        now.instant() - newer.instant(),
        now.instant() - older.instant(),
    );
}

// ── durations ──────────────────────────────────────────────────────────────

/// The whole number nearest to `a / b`, the even one of two as near.
pub open spec fn nearest(a: nat, b: nat) -> nat {
    let q = a / b;
    let r = a % b;
    if 2 * r < b {
        q
    } else if 2 * r > b {
        q + 1
    } else if q % 2 == 0 {
        q
    } else {
        q + 1
    }
}

/// The significand of a double has this many values twice over: 2 to the power
/// of 52.
pub const SPAN: u128 = 4_503_599_627_370_496;

/// `a` doubled until it reaches `limit`, and what it was multiplied by.
pub open spec fn widened(a: nat, p: nat, limit: nat) -> (nat, nat)
    decreases 2 * limit - a,
{
    if a == 0 || a >= limit {
        (a, p)
    } else {
        widened(2 * a, 2 * p, limit)
    }
}

/// The power of two `u` has to be multiplied by until `a` is below `u` times
/// what `limit` was to begin with.
pub open spec fn coarsened(a: nat, u: nat, limit: nat) -> nat
    decreases 2 * a - limit,
{
    if limit == 0 || a < limit {
        u
    } else {
        coarsened(a, 2 * u, 2 * limit)
    }
}

/// The double nearest to a whole number.
pub open spec fn as_double(n: nat) -> nat {
    let unit = coarsened(n, 1, (2 * SPAN) as nat);
    nearest(n, unit) * unit
}

/// The tenths of a second that a duration comes to, on the way through a
/// double: the milliseconds are rounded to one, then what a thousandth of it
/// is, and the tenth that is nearest to that is the one shown.
pub open spec fn tenths_of(ms: nat) -> nat {
    let n = as_double(ms);
    let unit = coarsened(n, 1, (2000 * SPAN) as nat);
    if unit > 1 {
        nearest(n, 1000 * unit) * unit * 10
    } else {
        let (a, p) = widened(n, 1, (1000 * SPAN) as nat);
        nearest(nearest(a, 1000) * 10, p)
    }
}

/// A duration in the unit it is worth reading in.
pub open spec fn took_text(ms: nat) -> Seq<char> {
    if ms < 1000 {
        decimal(ms) + "ms"@
    } else {
        let tenths = tenths_of(ms);
        decimal(tenths / 10) + "."@ + decimal(tenths % 10) + "s"@
    }
}

fn nearest_of(a: u128, b: u128) -> (r: u128)
    requires
        0 < b <= u128::MAX / 2,
        a < u128::MAX,
    ensures
        r == nearest(a as nat, b as nat),
{
    let q: u128 = a / b;
    let r: u128 = a % b;
    proof {
        assert(q <= a) by (nonlinear_arith)
            requires
                q == a / b,
                b > 0,
        ;
    }
    if 2 * r < b {
        q
    } else if 2 * r > b {
        q + 1
    } else if q % 2 == 0 {
        q
    } else {
        q + 1
    }
}

fn unit_of(a: u128, limit: u128) -> (r: u128)
    requires
        0 < limit,
        a < 0x1_0000_0000_0000_0000_0000,
        limit < 0x1_0000_0000_0000_0000_0000,
    ensures
        r == coarsened(a as nat, 1, limit as nat),
        1 <= r,
        r == 1 || r * limit <= 2 * a,
        r == 1 ==> a < limit,
{
    let mut u: u128 = 1;
    let mut w: u128 = limit;
    while a >= w
        invariant
            0 < w,
            w < 0x2_0000_0000_0000_0000_0000,
            a < 0x1_0000_0000_0000_0000_0000,
            1 <= u <= w,
            w == u * limit,
            u == 1 || w <= 2 * a,
            coarsened(a as nat, 1, limit as nat) == coarsened(a as nat, u as nat, w as nat),
        decreases 2 * a - w,
    {
        proof {
            assert((2 * u) * limit == 2 * (u * limit)) by (nonlinear_arith);
        }
        u = 2 * u;
        w = 2 * w;
    }
    u
}

proof fn near_enough(a: nat, b: nat)
    requires
        b > 0,
    ensures
        nearest(a, b) * b <= a + b,
        nearest(a, b) <= a + 1,
{
    let q = a / b;
    assert(q * b <= a && q <= a) by (nonlinear_arith)
        requires
            q == a / b,
            b > 0,
    ;
    assert((q + 1) * b == q * b + b) by (nonlinear_arith);
}

fn tenths(ms: u64) -> (r: u128)
    ensures
        r == tenths_of(ms as nat),
        r <= 10 * (u64::MAX as u128),
{
    let fine: u128 = unit_of(ms as u128, 2 * SPAN);
    proof {
        near_enough(ms as nat, fine as nat);
        assert(fine <= 4096) by (nonlinear_arith)
            requires
                fine == 1 || fine * 9_007_199_254_740_992 <= 2 * 18_446_744_073_709_551_615,
        ;
    }
    let whole: u128 = nearest_of(ms as u128, fine);
    proof {
        assert(whole * fine <= ms + fine);
    }
    let n: u128 = whole * fine;
    let coarse: u128 = unit_of(n, 2000 * SPAN);
    if coarse > 1 {
        proof {
            assert(coarse <= 8) by (nonlinear_arith)
                requires
                    coarse * 9_007_199_254_740_992_000 <= 2 * 18_446_744_073_709_555_711,
            ;
            near_enough(n as nat, (1000 * coarse) as nat);
        }
        let q: u128 = nearest_of(n, 1000 * coarse);
        proof {
            assert(q * coarse * 1000 == q * (1000 * coarse)) by (nonlinear_arith);
        }
        return q * coarse * 10;
    }
    let limit: u128 = 1000 * SPAN;
    let mut a: u128 = n;
    let mut p: u128 = 1;
    while 0 < a && a < limit
        invariant
            limit == 1000 * SPAN,
            a < 2 * limit,
            a < 0x1_0000_0000_0000_0000_0000,
            1 <= p,
            p <= 2 * limit,
            p <= a || p == 1,
            widened(n as nat, 1, limit as nat) == widened(a as nat, p as nat, limit as nat),
        decreases 2 * limit - a,
    {
        a = 2 * a;
        p = 2 * p;
    }
    proof {
        near_enough(a as nat, 1000);
    }
    let seconds: u128 = nearest_of(a, 1000);
    proof {
        near_enough((seconds * 10) as nat, p as nat);
    }
    nearest_of(seconds * 10, p)
}

/// A duration in the unit it is worth reading in.
pub fn took(ms: u64) -> (r: String)
    ensures
        r@ == took_text(ms as nat),
{
    if ms < 1000 {
        return counted(ms as u128, "ms");
    }
    let tenths: u128 = tenths(ms);
    let mut out: String = decimal_of(tenths / 10);
    push_all(&mut out, ".");
    push_decimal(&mut out, tenths % 10);
    push_all(&mut out, "s");
    out
}

proof fn the_nearest_is_near(a: nat, b: nat)
    requires
        b > 0,
    ensures
        -b <= 2 * (nearest(a, b) * b - a) <= b,
{
    let q = a / b;
    let r = a % b;
    assert(a == q * b + r && r < b) by (nonlinear_arith)
        requires
            q == a / b,
            r == a % b,
            b > 0,
    ;
    assert((q + 1) * b == q * b + b) by (nonlinear_arith);
}

proof fn a_unit_is_no_coarser_than_it_must_be(a: nat, u: nat, limit: nat)
    requires
        u > 0,
        limit > 0,
    ensures
        coarsened(a, u, limit) >= u,
        a < limit ==> coarsened(a, u, limit) == u,
        coarsened(a, u, limit) == u || coarsened(a, u, limit) * limit <= 2 * (a * u),
    decreases 2 * a - limit,
{
    if a >= limit {
        let r = coarsened(a, 2 * u, 2 * limit);
        a_unit_is_no_coarser_than_it_must_be(a, 2 * u, 2 * limit);
        assert(r * limit <= 2 * (a * u)) by (nonlinear_arith)
            requires
                a >= limit,
                r == 2 * u || r * (2 * limit) <= 2 * (a * (2 * u)),
        ;
    }
}

proof fn widening_keeps_the_ratio(a: nat, p: nat, limit: nat)
    requires
        p > 0,
        a > 0,
    ensures
        ({
            let (b, q) = widened(a, p, limit);
            b * p == a * q && q >= p && b >= limit && b > 0
        }),
    decreases 2 * limit - a,
{
    if a < limit {
        let (b, q) = widened(2 * a, 2 * p, limit);
        widening_keeps_the_ratio(2 * a, 2 * p, limit);
        assert(b * p == a * q) by (nonlinear_arith)
            requires
                b * (2 * p) == (2 * a) * q,
        ;
    }
}

proof fn a_double_is_near(ms: nat)
    ensures
        ({
            let off = as_double(ms) - ms;
            ms < 2 * SPAN ==> off == 0
        }),
        ({
            let off = as_double(ms) - ms;
            -ms <= 2 * SPAN * off <= ms
        }),
{
    let limit = (2 * SPAN) as nat;
    let unit = coarsened(ms, 1, limit);
    a_unit_is_no_coarser_than_it_must_be(ms, 1, limit);
    the_nearest_is_near(ms, unit);
    let near = nearest(ms, unit);
    let off = near * unit - ms;
    if unit == 1 {
        assert(near * unit == near) by (nonlinear_arith)
            requires
                unit == 1,
        ;
        assert(off == 0);
    } else {
        assert(unit * limit <= 2 * ms);
        assert(-ms <= limit * off <= ms) by (nonlinear_arith)
            requires
                -unit <= 2 * off <= unit,
                unit * limit <= 2 * ms,
                limit > 0,
        ;
    }
}

#[verifier::spinoff_prover]
proof fn the_tenths_of_a_double_are_near(n: nat)
    requires
        n > 0,
    ensures
        ({
            let unit = coarsened(n, 1, (2000 * SPAN) as nat);
            let tenths = if unit > 1 {
                nearest(n, 1000 * unit) * unit * 10
            } else {
                let (a, p) = widened(n, 1, (1000 * SPAN) as nat);
                nearest(nearest(a, 1000) * 10, p)
            };
            let off = 100 * tenths - n;
            -(100 * SPAN + n) <= 2 * SPAN * off <= 100 * SPAN + n
        }),
{
    let limit = (2000 * SPAN) as nat;
    let unit = coarsened(n, 1, limit);
    a_unit_is_no_coarser_than_it_must_be(n, 1, limit);
    if unit > 1 {
        let q = nearest(n, 1000 * unit);
        the_nearest_is_near(n, 1000 * unit);
        assert(q * (1000 * unit) == 100 * (q * unit * 10)) by (nonlinear_arith);
        let off = 100 * (q * unit * 10) - n;
        assert(-(1000 * unit) <= 2 * off <= 1000 * unit);
        assert(unit * (2000 * SPAN) <= 2 * n);
        assert(-(100 * SPAN + n) <= 2 * SPAN * off <= 100 * SPAN + n) by (nonlinear_arith)
            requires
                -(1000 * unit) <= 2 * off <= 1000 * unit,
                unit * (2000 * SPAN) <= 2 * n,
                SPAN == 4_503_599_627_370_496u128,
        ;
    } else {
        let (a, p) = widened(n, 1, (1000 * SPAN) as nat);
        widening_keeps_the_ratio(n, 1, (1000 * SPAN) as nat);
        let q = nearest(a, 1000);
        the_nearest_is_near(a, 1000);
        let t = nearest(q * 10, p);
        the_nearest_is_near(q * 10, p);
        let off = 100 * t - n;
        // The two roundings, one after the other, over what was widened by `p`.
        let first = q * 1000 - a;
        let second = t * p - q * 10;
        assert(p * off == 100 * second + first) by (nonlinear_arith)
            requires
                off == 100 * t - n,
                first == q * 1000 - a,
                second == t * p - q * 10,
                a == n * p,
        ;
        assert(-(100 * SPAN + n) <= 2 * SPAN * off <= 100 * SPAN + n) by (nonlinear_arith)
            requires
                p * off == 100 * second + first,
                -1000 <= 2 * first <= 1000,
                -p <= 2 * second <= p,
                n * p >= 1000 * SPAN,
                p > 0,
                SPAN == 4_503_599_627_370_496u128,
        {
            // `p * (2 * off) <= 100 * p + 1000`, and `1000 * SPAN <= n * p`.
            assert(p * (2 * SPAN * off) == SPAN * (2 * (p * off)));
            assert(2 * (p * off) <= 100 * p + 1000);
            assert(2 * (p * off) >= -(100 * p + 1000));
            assert(SPAN * (2 * (p * off)) <= SPAN * (100 * p + 1000));
            assert(SPAN * (2 * (p * off)) >= -(SPAN * (100 * p + 1000)));
            assert(SPAN * (100 * p + 1000) == 100 * SPAN * p + 1000 * SPAN);
            assert(p * (100 * SPAN + n) == 100 * SPAN * p + n * p);
            assert(p * (2 * SPAN * off) <= p * (100 * SPAN + n));
            assert(p * (2 * SPAN * off) >= -(p * (100 * SPAN + n)));
        }
    }
}

/// The tenths of a second that a text says, which names seconds with a point
/// before the last of its digits.
pub open spec fn tenths_said(text: Seq<char>) -> int {
    10 * count_in(text) + number_in(unit_in(text).subrange(1, unit_in(text).len() - 1))
}

/// How long it is said to have taken is how long it took: below a second every
/// millisecond is said, and from there on seconds and one tenth more, which is
/// the nearest there is — but for what a double cannot tell apart, which is
/// nothing below fifty thousand years.
pub proof fn how_long_it_took_is_so(ms: nat)
    ensures
        ({
            let text = took_text(ms);
            let unit = unit_in(text);
            &&& all_digits(leading_digits(text))
            &&& ms < 1000 ==> count_in(text) == ms && unit == "ms"@
            &&& ms >= 1000 ==> {
                let off = 100 * tenths_said(text) - ms;
                &&& unit.len() == 3 && unit[0] == '.' && is_digit(unit[1]) && unit[2] == 's'
                &&& 2 * ms < SPAN ==> -50 <= off <= 50
                &&& -(50 * SPAN + 2 * ms) <= SPAN * off <= 50 * SPAN + 2 * ms
            }
        }),
{
    reveal_strlit("ms");
    reveal_strlit(".");
    reveal_strlit("s");
    let text = took_text(ms);
    if ms < 1000 {
        a_count_says_itself(ms, "ms"@);
        a_number_says_itself(ms);
    } else {
        let tenths = tenths_of(ms);
        let tail = "."@ + decimal(tenths % 10) + "s"@;
        a_number_says_itself(tenths / 10);
        a_number_says_itself(tenths % 10);
        assert(decimal(tenths % 10).len() == 1);
        assert(text =~= decimal(tenths / 10) + tail);
        a_count_says_itself(tenths / 10, tail);
        assert(tail.subrange(1, tail.len() - 1) =~= decimal(tenths % 10));
        assert(is_digit(decimal(tenths % 10)[0]));
        assert(tenths_said(text) == tenths);
        let n = as_double(ms);
        a_double_is_near(ms);
        assert(n > 0);
        the_tenths_of_a_double_are_near(n);
        let off = 100 * tenths - ms;
        let rough = 100 * tenths - n;
        let fine = n - ms;
        assert(SPAN * off == SPAN * rough + SPAN * fine) by (nonlinear_arith)
            requires
                off == rough + fine,
        ;
        assert(2 * (SPAN * rough) <= 100 * SPAN + n && 2 * (SPAN * rough) >= -(100 * SPAN + n));
        assert(2 * (SPAN * fine) <= ms && 2 * (SPAN * fine) >= -ms);
        assert(n <= 2 * ms) by {
            assert(SPAN * fine <= ms);
            assert(fine <= ms);
        }
    }
}

// ── the rows ───────────────────────────────────────────────────────────────

/// What the columns are called, and which of them can have nothing in them. All
/// of them are text.
pub open spec fn headings() -> Seq<(Seq<char>, Seq<char>, bool)> {
    seq![
        ("when"@, "text"@, false),
        ("by"@, "text"@, true),
        ("status"@, "text"@, true),
        ("took"@, "text"@, true),
        ("rows"@, "text"@, true),
        ("statement"@, "text"@, false),
        ("error"@, "text"@, true),
    ]
}

/// What columns say: their names, their types, and whether they can be null.
pub open spec fn headed(columns: Seq<Column>) -> Seq<(Seq<char>, Seq<char>, bool)> {
    columns.map_values(|c: Column| (c.name@, c.type_label@, c.nullable))
}

pub open spec fn took_maybe(ms: Option<u64>) -> Option<Seq<char>> {
    match ms {
        Some(ms) => Some(took_text(ms as nat)),
        None => None,
    }
}

pub open spec fn count_maybe(n: Option<u64>) -> Option<Seq<char>> {
    match n {
        Some(n) => Some(decimal(n as nat)),
        None => None,
    }
}

/// Whether a row says of a run what the columns promise.
pub open spec fn tells(row: Row, entry: HistoryEntry, now: Moment) -> bool {
    &&& row.0@.len() == 7
    &&& row.0@[0].says(ago_text(entry.started_at, now))
    &&& row.0@[1].says_maybe(some_text(entry.issuer))
    &&& row.0@[2].says_maybe(some_text(entry.status))
    &&& row.0@[3].says_maybe(took_maybe(entry.duration_ms))
    &&& row.0@[4].says_maybe(count_maybe(entry.row_count))
    &&& row.0@[5].says(on_one_line(entry.sql@))
    &&& row.0@[6].says_maybe(some_text(entry.error))
}

fn row_of(entry: &HistoryEntry, now: Moment) -> (r: Row)
    ensures
        tells(r, *entry, now),
{
    let mut cells: Vec<Datum> = Vec::new();
    cells.push(Datum::text(ago(entry.started_at, now)));
    // Who asked for it, and empty for a row written before this client kept
    // the answer — which is not "a person", and saying so would be a guess
    // written as a fact.
    cells.push(Datum::maybe(entry.issuer.clone()));
    // Empty rather than "running": the `when` column already says it started,
    // and a word that appears only while somebody is looking is a row that
    // changes under them.
    cells.push(Datum::maybe(entry.status.clone()));
    cells.push(
        Datum::maybe(
            match entry.duration_ms {
                Some(ms) => Some(took(ms)),
                None => None,
            },
        ),
    );
    cells.push(
        Datum::maybe(
            match entry.row_count {
                Some(n) => Some(decimal_of(n as u128)),
                None => None,
            },
        ),
    );
    cells.push(Datum::text(one_line(entry.sql.as_str())));
    cells.push(Datum::maybe(entry.error.clone()));
    Row(cells)
}

/// The runs, in the shape the grid takes.
///
/// One statement per row and nothing wrapped: a history is scanned for the
/// query somebody half-remembers, and the pane that shows one in full is the
/// cell detail, which every grid already has.
pub fn rows(entries: &Vec<HistoryEntry>, now: Moment, edition: Edition) -> (r: PagedResult)
    ensures
        r.edition == edition,
        headed(r.columns@) == headings(),
        r.rows@.len() == entries@.len(),
        forall|i: int|
            0 <= i < entries@.len() ==> tells(#[trigger] r.rows@[i], entries@[i], now),
        r.first_page == entries@.len(),
        r.total == Some(entries@.len() as u64),
{
    let mut columns: Vec<Column> = Vec::new();
    columns.push(Column::new("when", "text", false));
    columns.push(Column::new("by", "text", true));
    columns.push(Column::new("status", "text", true));
    columns.push(Column::new("took", "text", true));
    columns.push(Column::new("rows", "text", true));
    columns.push(Column::new("statement", "text", false));
    columns.push(Column::new("error", "text", true));
    proof {
        assert(headed(columns@) =~= headings());
    }
    let mut rows: Vec<Row> = Vec::new();
    let mut i: usize = 0;
    while i < entries.len()
        invariant
            i <= entries@.len(),
            rows@.len() == i,
            forall|j: int| 0 <= j < i ==> tells(#[trigger] rows@[j], entries@[j], now),
        decreases entries@.len() - i,
    {
        rows.push(row_of(&entries[i], now));
        i += 1;
    }
    let total: Option<u64> = Some(entries.len() as u64);
    PagedResult::new(edition, columns, rows, total)
}

pub open spec fn called(heading: Seq<char>) -> spec_fn(Column) -> bool {
    |c: Column| c.name@ == heading
}

/// The cell of a row under a heading.
pub open spec fn under(result: PagedResult, row: int, heading: Seq<char>) -> Option<Datum> {
    match first(result.columns@, called(heading)) {
        Some(col) => Some(result.rows@[row].0@[col]),
        None => None,
    }
}

/// What a cell of text says, as a value and as an agent is sent it; nothing for
/// a null.
pub open spec fn text_said(cell: Option<Datum>) -> Option<Option<Seq<char>>> {
    match cell {
        Some(Datum { value: Value::Text(s), json: Json::Text(t) }) => if s@ == t@ {
            Some(Some(s@))
        } else {
            None
        },
        Some(Datum { value: Value::Null, json: Json::Null }) => Some(None),
        _ => None,
    }
}

proof fn headings_are_told_apart()
    ensures
        forall|i: int, j: int|
            0 <= i < j < headings().len() ==> (#[trigger] headings()[i]).0 != (
            #[trigger] headings()[j]).0,
{
    reveal_strlit("when");
    reveal_strlit("by");
    reveal_strlit("status");
    reveal_strlit("took");
    reveal_strlit("rows");
    reveal_strlit("statement");
    reveal_strlit("error");
    assert("when"@[0] == 'w');
    assert("by"@[0] == 'b');
    assert("status"@[0] == 's' && "status"@.len() == 6);
    assert("took"@[0] == 't');
    assert("rows"@[0] == 'r');
    assert("statement"@[0] == 's' && "statement"@.len() == 9);
    assert("error"@[0] == 'e');
}

proof fn the_cell_under_a_heading(result: PagedResult, row: int, col: int)
    requires
        headed(result.columns@) == headings(),
        0 <= col < headings().len(),
    ensures
        under(result, row, headings()[col].0) == Some(result.rows@[row].0@[col]),
{
    headings_are_told_apart();
    let name = headings()[col].0;
    first_is_the_first(result.columns@, called(name));
    assert forall|i: int| 0 <= i < headings().len() implies (#[trigger] result.columns@[i]).name@
        == headings()[i].0 by {
        assert(headed(result.columns@)[i] == headings()[i]);
    }
    assert(headed(result.columns@).len() == result.columns@.len());
    assert(called(name)(result.columns@[col]));
}

/// What stands under a heading is what the heading calls it: how long ago the
/// run began, who asked for it, what became of it, how long it took and how
/// many rows it gave, its words, and why it failed.
pub proof fn a_run_is_told_under_its_headings(
    result: PagedResult,
    row: int,
    entry: HistoryEntry,
    now: Moment,
)
    requires
        headed(result.columns@) == headings(),
        tells(result.rows@[row], entry, now),
    ensures
        text_said(under(result, row, "when"@)) matches Some(Some(age)) && {
            let passed = now.instant() - entry.started_at.instant();
            passed >= 0 ==> age_said(age) <= passed < age_said(age) + unit_nanos(unit_in(age))
        },
        text_said(under(result, row, "by"@)) == Some(some_text(entry.issuer)),
        text_said(under(result, row, "status"@)) == Some(some_text(entry.status)),
        match entry.duration_ms {
            None => text_said(under(result, row, "took"@)) == Some(None::<Seq<char>>),
            Some(ms) => text_said(under(result, row, "took"@)) matches Some(Some(time)) && if ms
                < 1000 {
                count_in(time) == ms && unit_in(time) == "ms"@
            } else {
                2 * ms < SPAN ==> -50 <= 100 * tenths_said(time) - ms <= 50
            },
        },
        match entry.row_count {
            None => text_said(under(result, row, "rows"@)) == Some(None::<Seq<char>>),
            Some(n) => text_said(under(result, row, "rows"@)) matches Some(Some(count)) && all_digits(
                count,
            ) && number_in(count) == n,
        },
        text_said(under(result, row, "statement"@)) matches Some(Some(line)) && words_of(line)
            == words_of(entry.sql@),
        text_said(under(result, row, "error"@)) == Some(some_text(entry.error)),
{
    assert(headings()[0].0 == "when"@);
    assert(headings()[1].0 == "by"@);
    assert(headings()[2].0 == "status"@);
    assert(headings()[3].0 == "took"@);
    assert(headings()[4].0 == "rows"@);
    assert(headings()[5].0 == "statement"@);
    assert(headings()[6].0 == "error"@);
    the_cell_under_a_heading(result, row, 0);
    the_cell_under_a_heading(result, row, 1);
    the_cell_under_a_heading(result, row, 2);
    the_cell_under_a_heading(result, row, 3);
    the_cell_under_a_heading(result, row, 4);
    the_cell_under_a_heading(result, row, 5);
    the_cell_under_a_heading(result, row, 6);
    how_long_ago_is_so(entry.started_at, now);
    let age = ago_text(entry.started_at, now);
    assert((count_in(age) + 1) * unit_nanos(unit_in(age)) == age_said(age) + unit_nanos(
        unit_in(age),
    )) by (nonlinear_arith)
        requires
            age_said(age) == count_in(age) * unit_nanos(unit_in(age)),
    ;
    if let Some(ms) = entry.duration_ms {
        how_long_it_took_is_so(ms as nat);
    }
    if let Some(n) = entry.row_count {
        a_number_says_itself(n as nat);
    }
    a_statement_keeps_its_words_on_one_line(entry.sql@);
}

// ── the search box ─────────────────────────────────────────────────────────

/// How many runs the search left, in words.
pub open spec fn runs_words(count: usize) -> Seq<char> {
    "  "@ + decimal(count as nat) + " runs"@
}

/// What the search box says.
pub open spec fn search_spans(width: u16, filter: FilterView, count: usize) -> Seq<SpanView> {
    let color = if filter.editing {
        Color::Cyan
    } else {
        Color::DarkGray
    };
    seq![styled("search "@, Style::colored(color)), raw(sanitised(filter.text))] + (
    if filter.editing {
        seq![styled("▏"@, Style::colored(Color::Cyan))]
    } else {
        Seq::empty()
    }) + (if encode_utf8(fitted(runs_words(count), width)).len() < width {
        seq![styled(runs_words(count), Style::colored(Color::DarkGray).dimmed())]
    } else {
        Seq::empty()
    })
}

/// A frame with the search box on it.
pub open spec fn search_drawn(
    c: CanvasView,
    area: Rect,
    filter: FilterView,
    count: usize,
) -> CanvasView {
    if area.height == 0 {
        c
    } else {
        c.lined(
            Rect { height: 1, ..area },
            search_spans(area.width, filter, count),
            Style::plain(),
        )
    }
}

/// What the search box leaves of an area.
pub open spec fn below_the_search(area: Rect) -> Rect {
    if area.height == 0 {
        area
    } else {
        Rect { y: (area.y + 1) as u16, height: (area.height - 1) as u16, ..area }
    }
}

/// Draw the search box, and answer with what is left for the grid.
pub fn search_box(canvas: &mut Canvas, area: Rect, filter: &Filter, count: usize) -> (r: Rect)
    requires
        area.fits(),
    ensures
        final(canvas)@ == search_drawn(old(canvas)@, area, filter@, count),
        r == below_the_search(area),
        r.fits(),
{
    if area.height == 0 {
        return area;
    }
    let line: Rect = Rect { x: area.x, y: area.y, width: area.width, height: 1 };
    let colour: Color = if filter.editing {
        Color::Cyan
    } else {
        Color::DarkGray
    };
    let word: Span = Span::styled(copy_of("search "), Style::of(colour));
    let typed: Span = Span::raw(sanitise(filter.text.as_str()));
    let ghost mut said = seq![word@, typed@];
    let mut spans: Vec<Span> = vec![word, typed];
    proof {
        assert(views(spans@) =~= said);
    }
    if filter.editing {
        // A block rather than the terminal's own cursor, which belongs to the
        // grid's selected cell and would be taken off it.
        let cursor: Span = Span::styled(copy_of("▏"), Style::of(Color::Cyan));
        let ghost cursor_view = cursor@;
        spans.push(cursor);
        proof {
            assert(views(spans@) =~= said.push(cursor_view));
            said = said.push(cursor_view);
        }
    }
    // Said on the same line as the box because it is the answer to what is in
    // it: a count somewhere else is one somebody has to look for.
    let mut tally: String = copy_of("  ");
    push_decimal(&mut tally, count as u128);
    push_all(&mut tally, " runs");
    let shown: String = fit(tally.as_str(), line.width);
    if shown.as_str().as_bytes().len() < line.width as usize {
        let runs: Span = Span::styled(tally, Style::of(Color::DarkGray).dim());
        let ghost runs_view = runs@;
        spans.push(runs);
        proof {
            assert(views(spans@) =~= said.push(runs_view));
            said = said.push(runs_view);
        }
    }
    proof {
        assert(said =~= search_spans(area.width, filter@, count));
    }
    canvas.line(line, spans, Style::new());
    Rect { x: area.x, y: area.y + 1, width: area.width, height: area.height - 1 }
}

} // verus!
