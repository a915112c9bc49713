//! Dates, times of day and moments.
//!
//! A value of a relation is shown as `time` prints it, so what is kept here is
//! what `time` builds its own types from.

use crate::text::{decimal, digit, push_all};
use vstd::prelude::*;

verus! {

pub open spec fn leap(year: int) -> bool {
    year % 4 == 0 && (year % 100 != 0 || year % 400 == 0)
}

/// The days a year has.
pub open spec fn days_in(year: int) -> int {
    if leap(year) {
        366
    } else {
        365
    }
}

/// The last `width` digits of a number, zeros among them.
pub open spec fn digits(n: int, width: int) -> Seq<char>
    decreases width,
{
    if width <= 0 {
        Seq::empty()
    } else {
        digits(n / 10, width - 1).push(digit((n % 10) as nat))
    }
}

/// How far a number is from zero.
pub open spec fn magnitude(n: int) -> int {
    if n < 0 {
        -n
    } else {
        n
    }
}

/// A day there is, of a year that can be written with four digits.
pub open spec fn is_a_day(year: int, ordinal: int) -> bool {
    -9999 <= year <= 9999 && 1 <= ordinal <= days_in(year)
}

/// A calendar day, by its year and its place in it.
#[derive(Debug, Clone, Copy, PartialEq, Eq)]
pub struct Date {
    year: i32,
    ordinal: u16,
}

impl Date {
    #[verifier::type_invariant]
    closed spec fn is_there(self) -> bool {
        is_a_day(self.year as int, self.ordinal as int)
    }

    pub closed spec fn of_year(self) -> int {
        self.year as int
    }

    pub closed spec fn day_of_year(self) -> int {
        self.ordinal as int
    }

    /// The `ordinal`th day of `year`, if there is one.
    pub fn new(year: i32, ordinal: u16) -> (r: Option<Date>)
        ensures
            r is Some <==> is_a_day(year as int, ordinal as int),
            r matches Some(d) ==> d.of_year() == year && d.day_of_year() == ordinal,
    {
        if year < -9999 || year > 9999 || ordinal < 1 {
            return None;
        }
        // Counted from a year that keeps the number positive: the calendar
        // repeats every four hundred years.
        let since: u32 = (year + 10000) as u32;
        proof {
            vstd::arithmetic::div_mod::lemma_mod_multiples_vanish(2500, year as int, 4);
            vstd::arithmetic::div_mod::lemma_mod_multiples_vanish(100, year as int, 100);
            vstd::arithmetic::div_mod::lemma_mod_multiples_vanish(25, year as int, 400);
        }
        let leap_year: bool = since % 4 == 0 && (since % 100 != 0 || since % 400 == 0);
        let days: u16 = if leap_year { 366 } else { 365 };
        if ordinal > days {
            return None;
        }
        Some(Date { year, ordinal })
    }

    /// What the day reads as.
    pub open spec fn words(self) -> Seq<char> {
        date_words(self.of_year(), self.day_of_year())
    }

    /// The day, as it is shown.
    pub fn text(&self) -> (r: String)
        ensures
            r@ == self.words(),
    {
        proof {
            use_type_invariant(self);
        }
        date_text(self.year, self.ordinal)
    }
}

/// The days a month has.
pub open spec fn days_of_month(year: int, month: int) -> int {
    if month == 2 {
        if leap(year) {
            29
        } else {
            28
        }
    } else if month == 4 || month == 6 || month == 9 || month == 11 {
        30
    } else {
        31
    }
}

/// The month and the day of it that is the `ordinal`th day from the start of
/// `month`.
pub open spec fn month_and_day(year: int, month: int, ordinal: int) -> (int, int)
    decreases 12 - month,
{
    let days = days_of_month(year, month);
    if month >= 12 || ordinal <= days {
        (month, ordinal)
    } else {
        month_and_day(year, month + 1, ordinal - days)
    }
}

/// The `ordinal`th day of a year: four digits for the year with a sign before
/// the common era, two for the month and two for the day.
pub open spec fn date_words(year: int, ordinal: int) -> Seq<char> {
    let (month, day) = month_and_day(year, 1, ordinal);
    let sign = if year < 0 {
        seq!['-']
    } else {
        Seq::empty()
    };
    sign + digits(magnitude(year), 4) + seq!['-'] + digits(month, 2) + seq!['-'] + digits(day, 2)
}

/// `Display` of `time::Date`, for a day that is there:
/// `Date::from_ordinal_date` refuses every other. It prints year, month and day
/// with hyphens between, the year in four digits.
#[verifier::external_body]
fn date_text(year: i32, ordinal: u16) -> (r: String)
    requires
        is_a_day(year as int, ordinal as int),
    ensures
        r@ == date_words(year as int, ordinal as int),
{
    time::Date::from_ordinal_date(year, ordinal).unwrap().to_string()
}

pub open spec fn is_a_time(hour: int, minute: int, second: int, nanosecond: int) -> bool {
    0 <= hour < 24 && 0 <= minute < 60 && 0 <= second < 60 && 0 <= nanosecond < 1_000_000_000
}

/// A time of day.
#[derive(Debug, Clone, Copy, PartialEq, Eq)]
pub struct Time {
    hour: u8,
    minute: u8,
    second: u8,
    nanosecond: u32,
}

impl Time {
    #[verifier::type_invariant]
    closed spec fn is_there(self) -> bool {
        is_a_time(
            self.hour as int,
            self.minute as int,
            self.second as int,
            self.nanosecond as int,
        )
    }

    /// Hour, minute, second and nanosecond.
    pub closed spec fn parts(self) -> (int, int, int, int) {
        (self.hour as int, self.minute as int, self.second as int, self.nanosecond as int)
    }

    /// The time of day with these parts, if there is one.
    pub fn new(hour: u8, minute: u8, second: u8, nanosecond: u32) -> (r: Option<Time>)
        ensures
            r is Some <==> is_a_time(hour as int, minute as int, second as int, nanosecond as int),
            r matches Some(t) ==> t.parts() == (
                hour as int,
                minute as int,
                second as int,
                nanosecond as int,
            ),
    {
        if hour < 24 && minute < 60 && second < 60 && nanosecond < 1_000_000_000 {
            Some(Time { hour, minute, second, nanosecond })
        } else {
            None
        }
    }

    /// What the time reads as.
    pub open spec fn words(self) -> Seq<char> {
        let (hour, minute, second, nanosecond) = self.parts();
        time_words(hour, minute, second, nanosecond)
    }

    /// The time, as it is shown.
    pub fn text(&self) -> (r: String)
        ensures
            r@ == self.words(),
    {
        proof {
            use_type_invariant(self);
        }
        time_text(self.hour, self.minute, self.second, self.nanosecond)
    }
}

/// A part of a second given in `width` digits, without the zeros at its end but
/// for one digit.
pub open spec fn fraction(part: int, width: int) -> Seq<char>
    decreases width,
{
    if width > 1 && part % 10 == 0 {
        fraction(part / 10, width - 1)
    } else {
        digits(part, width)
    }
}

/// A time of day: the hour as it is, minutes and seconds in two digits each,
/// and the part of a second behind a point.
pub open spec fn time_words(hour: int, minute: int, second: int, nanosecond: int) -> Seq<char> {
    decimal(hour as nat) + seq![':'] + digits(minute, 2) + seq![':'] + digits(second, 2) + seq!['.']
        + fraction(nanosecond, 9)
}

/// `Display` of `time::Time`, for parts that make a time of day:
/// `Time::from_hms_nano` refuses every other. It prints the hour without a
/// leading zero and always at least one digit of the part of a second.
#[verifier::external_body]
fn time_text(hour: u8, minute: u8, second: u8, nanosecond: u32) -> (r: String)
    requires
        is_a_time(hour as int, minute as int, second as int, nanosecond as int),
    ensures
        r@ == time_words(hour as int, minute as int, second as int, nanosecond as int),
{
    time::Time::from_hms_nano(hour, minute, second, nanosecond).unwrap().to_string()
}

pub open spec fn is_an_offset(hours: int, minutes: int, seconds: int) -> bool {
    -25 <= hours <= 25 && -59 <= minutes <= 59 && -59 <= seconds <= 59
}

/// How far a clock is ahead of UTC.
#[derive(Debug, Clone, Copy, PartialEq, Eq)]
pub struct UtcOffset {
    hours: i8,
    minutes: i8,
    seconds: i8,
}

impl UtcOffset {
    #[verifier::type_invariant]
    closed spec fn is_there(self) -> bool {
        is_an_offset(self.hours as int, self.minutes as int, self.seconds as int)
    }

    /// Hours, minutes and seconds.
    pub closed spec fn parts(self) -> (int, int, int) {
        (self.hours as int, self.minutes as int, self.seconds as int)
    }

    /// The offset with these parts, if there is one.
    pub fn new(hours: i8, minutes: i8, seconds: i8) -> (r: Option<UtcOffset>)
        ensures
            r is Some <==> is_an_offset(hours as int, minutes as int, seconds as int),
            r matches Some(o) ==> o.parts() == (hours as int, minutes as int, seconds as int),
    {
        if -25 <= hours && hours <= 25 && -59 <= minutes && minutes <= 59 && -59 <= seconds
            && seconds <= 59 {
            Some(UtcOffset { hours, minutes, seconds })
        } else {
            None
        }
    }

    /// What the offset reads as.
    pub open spec fn words(self) -> Seq<char> {
        let (hours, minutes, seconds) = self.parts();
        offset_words(hours, minutes, seconds)
    }

    /// The offset, as it is shown.
    pub fn text(&self) -> (r: String)
        ensures
            r@ == self.words(),
    {
        proof {
            use_type_invariant(self);
        }
        offset_text(self.hours, self.minutes, self.seconds)
    }
}

/// An offset: its sign, which is that of the largest part that is not zero, and
/// two digits for each part.
pub open spec fn offset_words(hours: int, minutes: int, seconds: int) -> Seq<char> {
    let behind = hours < 0 || hours == 0 && (minutes < 0 || minutes == 0 && seconds < 0);
    let sign = if behind {
        seq!['-']
    } else {
        seq!['+']
    };
    sign + digits(magnitude(hours), 2) + seq![':'] + digits(magnitude(minutes), 2) + seq![':']
        + digits(magnitude(seconds), 2)
}

/// `Display` of `time::UtcOffset`, for parts in range:
/// `UtcOffset::from_hms` refuses every other. Where the parts differ in sign it
/// gives the smaller ones the sign of the larger, and it always prints one.
#[verifier::external_body]
fn offset_text(hours: i8, minutes: i8, seconds: i8) -> (r: String)
    requires
        is_an_offset(hours as int, minutes as int, seconds as int),
    ensures
        r@ == offset_words(hours as int, minutes as int, seconds as int),
{
    time::UtcOffset::from_hms(hours, minutes, seconds).unwrap().to_string()
}

/// A day and a time of day, with a space between.
pub open spec fn stamp_words(date: Date, time: Time) -> Seq<char> {
    date.words() + seq![' '] + time.words()
}

/// A day and a time of day, as they are shown.
pub fn stamp_text(date: &Date, time: &Time) -> (r: String)
    ensures
        r@ == stamp_words(*date, *time),
{
    let mut out: String = date.text();
    out.push(' ');
    push_all(&mut out, time.text().as_str());
    proof {
        assert(out@ =~= stamp_words(*date, *time));
    }
    out
}

/// The same with the clock's offset behind it.
pub open spec fn zoned_words(date: Date, time: Time, offset: UtcOffset) -> Seq<char> {
    stamp_words(date, time) + seq![' '] + offset.words()
}

/// A day, a time of day and an offset, as they are shown.
pub fn zoned_text(date: &Date, time: &Time, offset: &UtcOffset) -> (r: String)
    ensures
        r@ == zoned_words(*date, *time, *offset),
{
    let mut out: String = stamp_text(date, time);
    out.push(' ');
    push_all(&mut out, offset.text().as_str());
    proof {
        assert(out@ =~= zoned_words(*date, *time, *offset));
    }
    out
}

/// A point in time: seconds since 1970 in UTC, and nanoseconds on top of them.
#[derive(Debug, Clone, Copy, PartialEq, Eq, Structural)]
pub struct Moment {
    pub seconds: i64,
    pub nanos: u32,
}

impl Moment {
    /// In nanoseconds.
    pub open spec fn instant(self) -> int {
        self.seconds * 1_000_000_000 + self.nanos
    }
}

/// The whole seconds from `at` to `now`, cut towards zero.
pub open spec fn seconds_between(at: Moment, now: Moment) -> int {
    let passed = now.instant() - at.instant();
    if passed < 0 {
        -((-passed) / 1_000_000_000)
    } else {
        passed / 1_000_000_000
    }
}

/// The whole seconds that have passed, or `None` when `at` is a second or more
/// still to come.
pub fn seconds_since(at: Moment, now: Moment) -> (r: Option<u128>)
    ensures
        r is None <==> seconds_between(at, now) < 0,
        r matches Some(n) ==> n == seconds_between(at, now),
{
    let passed: i128 = (now.seconds as i128 - at.seconds as i128) * 1_000_000_000 + (
    now.nanos as i128 - at.nanos as i128);
    if passed < 0 {
        if passed <= -1_000_000_000 {
            proof {
                assert((-passed) / 1_000_000_000 >= 1);
            }
            None
        } else {
            proof {
                assert((-passed) / 1_000_000_000 == 0);
            }
            Some(0)
        }
    } else {
        Some(passed as u128 / 1_000_000_000)
    }
}

} // verus!
