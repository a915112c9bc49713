//! Turning fetched rows into something a grid can draw.
//!
//! Drawing code never sees a [`Value`]. It sees [`RenderedGrid`], which holds
//! the rows and formats cells on demand.
//!
//! Every decision here is a terminal decision: widths in character cells,
//! control characters replaced with glyphs, long values elided, JSON collapsed
//! to a summary.
//!
//! The obvious implementation materialises every cell. At 200k rows by 60
//! columns that allocates twelve million strings in order to display thirty of
//! them, so cells are formatted on access instead and only column widths are
//! computed eagerly, from a sample.

use crate::clock::{
    digits, fraction, magnitude, month_and_day, stamp_text, stamp_words, zoned_text, zoned_words, Date,
    Time, UtcOffset,
};
use crate::detail::{value_lines, DetailView, RenderedDetail};
use crate::geometry::{least, max_u16, min_u16, min_usize, most};
use crate::json::{written, Json};
use crate::model::{Float, PagedResult, Value};
use crate::text::{
    chars_of, copy_of, decimal, display_columns, display_width, hex_of, push_all, push_decimal,
    push_hex, signed_decimal, signed_decimal_of,
};
use std::sync::Arc;
use vstd::prelude::*;

verus! {

/// Rows sampled to decide a column's natural width. Enough to be representative
/// of a page, cheap enough to do on every load.
pub const WIDTH_SAMPLE_ROWS: usize = 200;

/// Columns narrower than this are unreadable even when the data is narrow.
pub const MIN_WIDTH: u16 = 3;

/// Columns wider than this crowd out every other column. The user can still
/// widen one by dragging.
pub const MAX_WIDTH: u16 = 60;

/// Longest cell text kept before truncating. Guards against a single 1MB text
/// value being measured character by character on every frame.
pub const MAX_CELL_CHARS: usize = 512;

#[derive(Debug, Clone, Copy, PartialEq, Eq, Structural)]
pub enum Align {
    Left,
    Right,
}

/// What a cell is, for styling. Classification happens here so that colours
/// can be chosen where colours are.
#[derive(Debug, Clone, Copy, PartialEq, Eq, Structural)]
pub enum CellKind {
    Null,
    Number,
    Text,
    /// JSON, arrays and structs: shown collapsed, opened in a detail view.
    Complex,
    /// A type the driver could not decode.
    Opaque,
}

/// Alignment is deliberately absent: it is a property of the *column*, not of
/// the value, and lives on [`RenderedColumn`].
///
/// Deciding it per value looks harmless and is not. A nullable integer column
/// would right-align its numbers and left-align its `∅`, because a null is not
/// numeric — so a perfectly ordinary column comes out ragged.
#[derive(Debug, PartialEq, Eq)]
pub struct Cell {
    pub text: String,
    pub kind: CellKind,
}

#[derive(Debug, PartialEq, Eq)]
pub struct RenderedColumn {
    pub name: String,
    pub type_label: String,
    /// Sampled from the data. The view may override it; see `GridUi`.
    pub natural_width: u16,
    pub align: Align,
}

/// What a column looks like.
pub struct ColumnView {
    pub name: Seq<char>,
    pub type_label: Seq<char>,
    pub natural_width: u16,
    pub align: Align,
}

impl View for RenderedColumn {
    type V = ColumnView;

    open spec fn view(&self) -> ColumnView {
        ColumnView {
            name: self.name@,
            type_label: self.type_label@,
            natural_width: self.natural_width,
            align: self.align,
        }
    }
}

/// Rows prepared for display.
///
/// Cheap to build and cheap to hold: the rows stay behind the `Arc` they
/// arrived in, and only the column widths are computed up front.
#[derive(Debug)]
pub struct RenderedGrid {
    columns: Vec<RenderedColumn>,
    rows: Arc<PagedResult>,
    /// A cell of these rows, laid out to be read, and which cell that was.
    ///
    /// Kept for the same reason the grid is: a snapshot is republished for
    /// reasons that have nothing to do with this tab, and rebuilding here means
    /// sanitising the whole value again. Kept *here* so that it goes when the
    /// rows do: a document of rows that are no longer shown names a value that
    /// is not on the screen.
    document: Option<((usize, usize), Arc<RenderedDetail>)>,
}

// ── what a value reads as ──────────────────────────────────────────────────

/// The glyph for a null. A blank cell is indistinguishable from an empty
/// string, which matters more often than it sounds.
pub const NULL_GLYPH: char = '∅';

/// The general category `Cc`: what a terminal obeys rather than draws.
pub open spec fn control(c: char) -> bool {
    c < ' ' || '\u{7f}' <= c <= '\u{9f}'
}

/// Whether a character rewrites the direction of the text that follows it.
///
/// These are the bidirectional overrides and isolates. Left in place, an
/// unterminated one — and a one-line grid cell never terminates anything —
/// reorders the rest of the line, so a value can paint itself over the column
/// beside it. They take no columns, so they do not even show up in the width
/// calculation.
///
/// Deliberately **not** every invisible character: a zero-width joiner is one
/// too, and replacing it would take every emoji sequence apart. The
/// directional *marks* U+200E/U+200F are left alone as well — they nudge the
/// ordering of the run they sit in rather than overriding everything after
/// them, and mixed-script text uses them legitimately.
pub open spec fn bidi_control(c: char) -> bool {
    '\u{202a}' <= c <= '\u{202e}' || '\u{2066}' <= c <= '\u{2069}'
}

pub fn is_control(c: char) -> (b: bool)
    ensures
        b == control(c),
{
    c < ' ' || ('\u{7f}' <= c && c <= '\u{9f}')
}

pub fn is_bidi_control(c: char) -> (b: bool)
    ensures
        b == bidi_control(c),
{
    ('\u{202a}' <= c && c <= '\u{202e}') || ('\u{2066}' <= c && c <= '\u{2069}')
}

/// What a character is shown as in a cell.
pub open spec fn tamed(c: char) -> char {
    if c == '\n' || c == '\r' {
        '␊'
    } else if c == '\t' {
        '␉'
    } else if control(c) || bidi_control(c) {
        '·'
    } else {
        c
    }
}

/// What a character is shown as where a value may take several lines.
pub open spec fn tamed_in_lines(c: char) -> char {
    if c == '\n' || c == '\t' {
        c
    } else if control(c) || bidi_control(c) {
        '·'
    } else {
        c
    }
}

/// A string with everything replaced that would rewrite the terminal, cut to
/// the length a cell keeps.
pub open spec fn sanitised(s: Seq<char>) -> Seq<char> {
    if s.len() > MAX_CELL_CHARS {
        s.take(MAX_CELL_CHARS as int).map_values(|c: char| tamed(c)).push('…')
    } else {
        s.map_values(|c: char| tamed(c))
    }
}

/// The same for a pane that shows a value whole.
pub open spec fn sanitised_whole(s: Seq<char>) -> Seq<char> {
    s.map_values(|c: char| tamed_in_lines(c))
}

fn tame(c: char) -> (r: char)
    ensures
        r == tamed(c),
{
    if c == '\n' || c == '\r' {
        '␊'
    } else if c == '\t' {
        '␉'
    } else if is_control(c) || is_bidi_control(c) {
        // `is_control` is category Cc only, which is why the bidi test is
        // separate: U+202E sails straight through it.
        '·'
    } else {
        c
    }
}

/// Replace anything that would rewrite the terminal, and clamp the length.
///
/// A raw newline or tab breaks the grid apart, an escape sequence repaints it,
/// a bidi override reorders it, and a megabyte-long value must not be measured
/// in full on every frame.
pub fn sanitise(s: &str) -> (r: String)
    ensures
        r@ == sanitised(s@),
{
    let chars: Vec<char> = chars_of(s);
    let n: usize = min_usize(chars.len(), MAX_CELL_CHARS);
    let mut out: String = String::new();
    let mut i: usize = 0;
    while i < n
        invariant
            chars@ == s@,
            n <= chars@.len(),
            i <= n,
            out@ == s@.take(i as int).map_values(|c: char| tamed(c)),
        decreases n - i,
    {
        let c: char = tame(chars[i]);
        out.push(c);
        proof {
            assert(out@ =~= s@.take(i + 1).map_values(|c: char| tamed(c)));
        }
        i += 1;
    }
    if chars.len() > MAX_CELL_CHARS {
        out.push('…');
    } else {
        proof {
            assert(s@.take(n as int) =~= s@);
        }
    }
    out
}

/// Replace anything that would rewrite the terminal, and keep the rest whole:
/// every character, and the line breaks and tabs between them.
pub fn sanitise_unbounded(s: &str) -> (r: String)
    ensures
        r@ == sanitised_whole(s@),
{
    let chars: Vec<char> = chars_of(s);
    let mut out: String = String::new();
    let mut i: usize = 0;
    while i < chars.len()
        invariant
            chars@ == s@,
            i <= chars@.len(),
            out@ == sanitised_whole(s@.take(i as int)),
        decreases chars@.len() - i,
    {
        let c: char = chars[i];
        let shown: char = if c == '\n' || c == '\t' {
            c
        } else if is_control(c) || is_bidi_control(c) {
            '·'
        } else {
            c
        };
        out.push(shown);
        proof {
            assert(out@ =~= sanitised_whole(s@.take(i + 1)));
        }
        i += 1;
    }
    proof {
        assert(s@.take(i as int) =~= s@);
    }
    out
}

/// What the sign bit adds to the bits of a double.
pub const SIGN: u64 = 0x8000_0000_0000_0000;

/// The bits of positive infinity; above them come the numbers that are none.
pub const INFINITE: u64 = 0x7ff0_0000_0000_0000;

/// Magnitudes from here on are shown in exponent form: the bits of `1e15`.
///
/// Printed without one, `1e300` is 301 digits and `1e-300` is 302 — a cell
/// wider than the terminal, carrying no information a reader can use.
pub const EXPONENT_FROM: u64 = 0x430c_6bf5_2634_0000;

/// Magnitudes below this, the bits of `1e-5`, are shown in exponent form too.
pub const EXPONENT_BELOW: u64 = 0x3ee4_f8b5_88e3_68f1;

/// The bits without the sign. Doubles of one sign are ordered as these are.
pub open spec fn magnitude_of(bits: u64) -> u64 {
    if bits >= SIGN {
        (bits - SIGN) as u64
    } else {
        bits
    }
}

/// What a floating point number reads as in a cell.
pub open spec fn float_text(f: Float) -> Seq<char> {
    let size = magnitude_of(f.bits);
    if size > INFINITE {
        "NaN"@
    } else if size == INFINITE {
        if f.bits >= SIGN {
            "-∞"@
        } else {
            "∞"@
        }
    } else if size != 0 && !(EXPONENT_BELOW <= size < EXPONENT_FROM) {
        f.scientific@
    } else {
        f.plain@
    }
}

fn format_float(f: &Float) -> (r: String)
    ensures
        r@ == float_text(*f),
{
    let negative: bool = f.bits >= SIGN;
    let size: u64 = if negative { f.bits - SIGN } else { f.bits };
    if size > INFINITE {
        copy_of("NaN")
    } else if size == INFINITE {
        if negative {
            copy_of("-∞")
        } else {
            copy_of("∞")
        }
    } else if size != 0 && !(EXPONENT_BELOW <= size && size < EXPONENT_FROM) {
        copy_of(f.scientific.as_str())
    } else {
        copy_of(f.plain.as_str())
    }
}

/// How many of something there are, between the words around it.
pub open spec fn tally(before: Seq<char>, n: nat, after: Seq<char>) -> Seq<char> {
    before + decimal(n) + after
}

pub fn tally_of(before: &str, n: usize, after: &str) -> (r: String)
    ensures
        r@ == tally(before@, n as nat, after@),
{
    let mut out: String = copy_of(before);
    push_decimal(&mut out, n as u128);
    push_all(&mut out, after);
    out
}

/// What a JSON document reads as in a cell: objects and arrays collapse to a
/// count.
pub open spec fn json_text(json: Json) -> Seq<char> {
    match json {
        Json::Object(members) => tally("{"@, members@.len(), " keys}"@),
        Json::Array(items) => tally("["@, items@.len(), " items]"@),
        _ => sanitised(written(json)),
    }
}

/// Objects and arrays collapse to a count, which is what [`CellKind::Complex`]
/// promises and what the detail view is for.
///
/// Collapsing is not only about width: writing out a megabyte of JSON
/// allocates the whole document, and doing that for every visible cell on
/// every frame is exactly the cost this module exists to avoid.
fn format_json(json: &Json) -> (r: String)
    ensures
        r@ == json_text(*json),
{
    match json {
        Json::Object(members) => tally_of("{", members.len(), " keys}"),
        Json::Array(items) => tally_of("[", items.len(), " items]"),
        _ => sanitise(json.text().as_str()),
    }
}

/// Bytes as hexadecimal, the first `shown` of them, with a count behind when
/// there are more.
pub open spec fn bytes_text(bytes: Seq<u8>, shown: nat) -> Seq<char> {
    if bytes.len() > shown {
        tally("0x"@ + hex_of(bytes.take(shown as int)) + "… ("@, bytes.len(), " bytes)"@)
    } else {
        "0x"@ + hex_of(bytes)
    }
}

pub fn format_bytes(bytes: &Vec<u8>, shown: usize) -> (r: String)
    ensures
        r@ == bytes_text(bytes@, shown as nat),
{
    let n: usize = min_usize(bytes.len(), shown);
    let mut out: String = copy_of("0x");
    push_hex(&mut out, bytes, n);
    if bytes.len() > shown {
        push_all(&mut out, "… (");
        push_decimal(&mut out, bytes.len() as u128);
        push_all(&mut out, " bytes)");
    } else {
        proof {
            assert(bytes@.take(n as int) =~= bytes@);
        }
    }
    out
}

/// Bytes a cell spells out before it only counts them.
pub const BYTES_SHOWN: usize = 8;

pub open spec fn bool_text(b: bool) -> Seq<char> {
    if b {
        "true"@
    } else {
        "false"@
    }
}

pub fn format_bool(b: bool) -> (r: String)
    ensures
        r@ == bool_text(b),
{
    if b {
        copy_of("true")
    } else {
        copy_of("false")
    }
}

/// What a value reads as in a cell.
pub open spec fn cell_text(value: Option<Value>) -> Seq<char> {
    match value {
        None => seq![NULL_GLYPH],
        Some(value) => match value {
            Value::Null => seq![NULL_GLYPH],
            Value::Bool(b) => bool_text(b),
            Value::Int(n) => signed_decimal(n as int),
            Value::Float(f) => sanitised(float_text(f)),
            Value::Decimal(s) => sanitised(s@),
            Value::Text(s) => sanitised(s@),
            Value::Bytes(b) => bytes_text(b@, BYTES_SHOWN as nat),
            Value::Date(d) => d.words(),
            Value::Time(t) => t.words(),
            Value::Timestamp { date, time } => stamp_words(date, time),
            Value::TimestampTz { date, time, offset } => zoned_words(date, time, offset),
            Value::Json(j) => json_text(j),
            Value::Array(items) => tally("["@, items@.len(), " items]"@),
            Value::Struct(fields) => tally("{"@, fields@.len(), " fields}"@),
            Value::Opaque { type_label, text } => if text@.len() == 0 {
                "<"@ + sanitised(type_label@) + ">"@
            } else {
                sanitised(text@)
            },
        },
    }
}

pub fn null_glyph() -> (r: String)
    ensures
        r@ == seq![NULL_GLYPH],
{
    let mut out: String = String::new();
    out.push(NULL_GLYPH);
    proof {
        assert(out@ =~= seq![NULL_GLYPH]);
    }
    out
}

fn format_value(value: Option<&Value>) -> (r: String)
    ensures
        r@ == cell_text(
            match value {
                Some(v) => Some(*v),
                None => None,
            },
        ),
{
    let value: &Value = match value {
        Some(value) => value,
        None => return null_glyph(),
    };
    match value {
        Value::Null => null_glyph(),
        Value::Bool(b) => format_bool(*b),
        Value::Int(n) => signed_decimal_of(*n),
        // Its digits were printed elsewhere, and are text like any other.
        Value::Float(f) => sanitise(format_float(f).as_str()),
        // A decimal can have a hundred thousand digits. `raw` still hands the
        // whole thing to the detail view and to copying; the *cell* is clamped
        // like every other long value.
        Value::Decimal(s) => sanitise(s.as_str()),
        Value::Text(s) => sanitise(s.as_str()),
        Value::Bytes(b) => format_bytes(b, BYTES_SHOWN),
        Value::Date(d) => d.text(),
        Value::Time(t) => t.text(),
        Value::Timestamp { date, time } => stamp_text(date, time),
        Value::TimestampTz { date, time, offset } => zoned_text(date, time, offset),
        Value::Json(j) => format_json(j),
        Value::Array(items) => tally_of("[", items.len(), " items]"),
        Value::Struct(fields) => tally_of("{", fields.len(), " fields}"),
        Value::Opaque { type_label, text } => {
            if text.as_str().is_empty() {
                let mut out: String = copy_of("<");
                // A driver's type name is data as much as a value is.
                push_all(&mut out, sanitise(type_label.as_str()).as_str());
                push_all(&mut out, ">");
                out
            } else {
                sanitise(text.as_str())
            }
        },
    }
}

/// What a value is, for styling.
pub open spec fn cell_kind(value: Option<Value>) -> CellKind {
    match value {
        None => CellKind::Null,
        Some(value) => if value is Null {
            CellKind::Null
        } else if value is Opaque {
            CellKind::Opaque
        } else if value.numeric() {
            CellKind::Number
        } else if value.composite() {
            CellKind::Complex
        } else {
            CellKind::Text
        },
    }
}

pub fn kind_of(value: &Value) -> (r: CellKind)
    ensures
        r == cell_kind(Some(*value)),
{
    match value {
        Value::Null => CellKind::Null,
        Value::Opaque { .. } => CellKind::Opaque,
        _ => if value.is_numeric() {
            CellKind::Number
        } else if value.is_composite() {
            CellKind::Complex
        } else {
            CellKind::Text
        },
    }
}

// ── what a column looks like ───────────────────────────────────────────────

/// How many of the rows decide what a column looks like: the first page only,
/// and not all of a long one.
pub open spec fn sampled(rows: PagedResult) -> int {
    least(least(WIDTH_SAMPLE_ROWS as int, rows.first_page as int), rows.rows@.len() as int)
}

/// The widest of the first `n` cells of a column.
pub open spec fn widest(rows: PagedResult, col: int, n: int) -> u16
    decreases n,
{
    if n <= 0 {
        0
    } else {
        most(
            widest(rows, col, n - 1) as int,
            display_columns(cell_text(rows.value_at(n - 1, col))) as int,
        ) as u16
    }
}

/// Whether one of the first `n` cells of a column is not a number.
pub open spec fn has_words(rows: PagedResult, col: int, n: int) -> bool {
    exists|r: int|
        0 <= r < n && ((#[trigger] rows.value_at(r, col)) matches Some(v) && !(v is Null)
            && !v.numeric())
}

/// Whether one of the first `n` cells of a column is a number.
pub open spec fn has_numbers(rows: PagedResult, col: int, n: int) -> bool {
    exists|r: int|
        0 <= r < n && ((#[trigger] rows.value_at(r, col)) matches Some(v) && v.numeric())
}

pub open spec fn column_alignment(rows: PagedResult, col: int, n: int) -> Align {
    if !has_words(rows, col, n) && has_numbers(rows, col, n) {
        Align::Right
    } else {
        Align::Left
    }
}

pub open spec fn clamped_width(n: int) -> u16 {
    most(least(n, MAX_WIDTH as int), MIN_WIDTH as int) as u16
}

/// What a column looks like.
pub open spec fn column_look(rows: PagedResult, col: int) -> ColumnView {
    let column = rows.columns@[col];
    let name = sanitised(column.name@);
    ColumnView {
        name,
        type_label: sanitised(column.type_label@),
        natural_width: clamped_width(
            most(widest(rows, col, sampled(rows)) as int, display_columns(name) as int),
        ),
        align: column_alignment(rows, col, sampled(rows)),
    }
}

/// What every column looks like.
pub open spec fn column_looks(rows: PagedResult) -> Seq<ColumnView> {
    Seq::new(rows.columns@.len(), |col: int| column_look(rows, col))
}

/// The looks of a list of columns.
pub open spec fn looks(columns: Seq<RenderedColumn>) -> Seq<ColumnView> {
    columns.map_values(|c: RenderedColumn| c@)
}

fn widest_cell(rows: &PagedResult, col: usize, n: usize) -> (r: u16)
    ensures
        r == widest(*rows, col as int, n as int),
{
    let mut best: u16 = 0;
    let mut i: usize = 0;
    while i < n
        invariant
            i <= n,
            best == widest(*rows, col as int, i as int),
        decreases n - i,
    {
        let text: String = format_value(rows.value(i, col));
        best = max_u16(best, display_width(text.as_str()));
        i += 1;
    }
    best
}

/// A column is right-aligned when its values are numbers. Decided from the
/// data rather than the declared type, because a driver's type names are its
/// own business.
fn column_align(rows: &PagedResult, col: usize, n: usize) -> (r: Align)
    ensures
        r == column_alignment(*rows, col as int, n as int),
{
    let mut saw_value: bool = false;
    let mut i: usize = 0;
    while i < n
        invariant
            i <= n,
            saw_value == has_numbers(*rows, col as int, i as int),
            !has_words(*rows, col as int, i as int),
        decreases n - i,
    {
        let ghost here = rows.value_at(i as int, col as int);
        match rows.value(i, col) {
            None => {},
            Some(Value::Null) => {},
            Some(v) => {
                if !v.is_numeric() {
                    proof {
                        assert(rows.value_at(i as int, col as int) == Some(*v));
                        assert(has_words(*rows, col as int, n as int));
                    }
                    return Align::Left;
                }
                saw_value = true;
                proof {
                    assert(rows.value_at(i as int, col as int) == Some(*v));
                    assert(has_numbers(*rows, col as int, i + 1));
                }
            },
        }
        proof {
            assert(!has_words(*rows, col as int, i + 1)) by {
                if has_words(*rows, col as int, i + 1) {
                    let r = choose|r: int|
                        0 <= r < i + 1 && ((#[trigger] rows.value_at(r, col as int)) matches Some(v)
                            && !(v is Null) && !v.numeric());
                    assert(r < i);
                    assert(has_words(*rows, col as int, i as int));
                }
            }
            if has_numbers(*rows, col as int, i + 1) && !saw_value {
                let r = choose|r: int|
                    0 <= r < i + 1 && ((#[trigger] rows.value_at(r, col as int)) matches Some(v)
                        && v.numeric());
                assert(r < i);
                assert(has_numbers(*rows, col as int, i as int));
            }
            if saw_value && !has_numbers(*rows, col as int, i + 1) {
                let r = choose|r: int|
                    0 <= r < i && ((#[trigger] rows.value_at(r, col as int)) matches Some(v)
                        && v.numeric());
                assert(0 <= r < i + 1);
                assert(false);
            }
        }
        i += 1;
    }
    if saw_value {
        Align::Right
    } else {
        Align::Left
    }
}

/// A cell of some rows as a document, unless it is not there.
pub open spec fn document_of(rows: PagedResult, row: int, col: int) -> Option<DetailView> {
    match rows.value_at(row, col) {
        Some(value) => if col < rows.columns@.len() {
            let column = column_looks(rows)[col];
            Some(
                DetailView {
                    column: column.name,
                    type_label: column.type_label,
                    lines: value_lines(value, 0, None),
                },
            )
        } else {
            None
        },
        None => None,
    }
}

impl RenderedGrid {
    pub closed spec fn shown_rows(self) -> PagedResult {
        *self.rows
    }

    pub closed spec fn shown_columns(self) -> Seq<ColumnView> {
        looks(self.columns@)
    }

    /// A grid holds the columns its own rows ask for, and the document it keeps
    /// is of a cell of those rows.
    #[verifier::type_invariant]
    closed spec fn is_laid_out(self) -> bool {
        &&& looks(self.columns@) == column_looks(*self.rows)
        &&& self.document matches Some((at, document)) ==> document_of(
            *self.rows,
            at.0 as int,
            at.1 as int,
        ) == Some(document@)
    }

    pub fn new(rows: Arc<PagedResult>) -> (r: Self)
        ensures
            r.shown_rows() == *rows,
            r.shown_columns() == column_looks(*rows),
    {
        // The first page only, never the accumulated result: widths and
        // alignment are decided once, so that a page arriving later cannot
        // re-lay out the grid under the reader.
        let n: usize = min_usize(
            min_usize(WIDTH_SAMPLE_ROWS, rows.first_page),
            rows.row_count(),
        );
        let mut columns: Vec<RenderedColumn> = Vec::new();
        let mut i: usize = 0;
        while i < rows.columns.len()
            invariant
                n == sampled(*rows),
                i <= rows.columns@.len(),
                looks(columns@) == column_looks(*rows).take(i as int),
            decreases rows.columns@.len() - i,
        {
            let wide: u16 = widest_cell(&rows, i, n);
            // Headers go through the same treatment as values. A driver's
            // column name is data too: a quoted identifier can carry a
            // newline, and one in a header splits the grid apart exactly as
            // one in a cell does.
            let name: String = sanitise(rows.columns[i].name.as_str());
            let header: u16 = display_width(name.as_str());
            let wanted: u16 = max_u16(wide, header);
            let column: RenderedColumn = RenderedColumn {
                type_label: sanitise(rows.columns[i].type_label.as_str()),
                name,
                natural_width: max_u16(min_u16(wanted, MAX_WIDTH), MIN_WIDTH),
                align: column_align(&rows, i, n),
            };
            let ghost before = looks(columns@);
            let ghost added = column@;
            columns.push(column);
            proof {
                assert(added == column_look(*rows, i as int));
                assert(looks(columns@) =~= before.push(added));
                assert(looks(columns@) =~= column_looks(*rows).take(i + 1));
            }
            i += 1;
        }
        proof {
            assert(column_looks(*rows).take(i as int) =~= column_looks(*rows));
        }
        RenderedGrid { columns, rows, document: None }
    }

    /// Whether this grid was built from `rows`.
    ///
    /// Snapshots arrive for unrelated reasons — a spinner tick republishes
    /// everything — so the view keeps its grid and rebuilds only when the rows
    /// themselves change. Re-sampling widths on every frame would also make
    /// columns twitch as pages arrive.
    pub fn is_for(&self, rows: &PagedResult) -> (b: bool)
        ensures
            b == (self.shown_rows().edition == rows.edition),
    {
        self.rows.edition == rows.edition
    }

    pub fn columns(&self) -> (r: &Vec<RenderedColumn>)
        ensures
            looks(r@) == self.shown_columns(),
            looks(r@) == column_looks(self.shown_rows()),
            r@.len() == self.shown_rows().columns@.len(),
    {
        proof {
            use_type_invariant(self);
            assert(looks(self.columns@).len() == column_looks(*self.rows).len());
        }
        &self.columns
    }

    pub fn row_count(&self) -> (n: usize)
        ensures
            n == self.shown_rows().rows@.len(),
    {
        self.rows.row_count()
    }

    /// Rows in the underlying relation, when the driver knew.
    pub fn total_rows(&self) -> (r: Option<u64>)
        ensures
            r == self.shown_rows().total,
    {
        self.rows.total
    }

    pub fn is_empty(&self) -> (b: bool)
        ensures
            b == (self.shown_rows().rows@.len() == 0),
    {
        self.rows.row_count() == 0
    }

    /// Formatted on demand. Only cells that are actually drawn are ever built.
    pub fn cell(&self, row: usize, col: usize) -> (r: Cell)
        ensures
            r.text@ == cell_text(self.shown_rows().value_at(row as int, col as int)),
            r.kind == cell_kind(self.shown_rows().value_at(row as int, col as int)),
    {
        let value: Option<&Value> = self.rows.value(row, col);
        let kind: CellKind = match value {
            Some(v) => kind_of(v),
            None => CellKind::Null,
        };
        Cell { text: format_value(value), kind }
    }

    /// The underlying value, for the detail view and for copying. Deliberately
    /// separate from [`RenderedGrid::cell`] so that drawing code has no reason
    /// to reach for it.
    pub fn raw(&self, row: usize, col: usize) -> (r: Option<&Value>)
        ensures
            match r {
                Some(v) => self.shown_rows().value_at(row as int, col as int) == Some(*v),
                None => self.shown_rows().value_at(row as int, col as int) is None,
            },
    {
        self.rows.value(row, col)
    }

    /// A cell laid out to be read, built once per cell rather than once per
    /// frame.
    pub fn document(&mut self, row: usize, col: usize) -> (r: Option<Arc<RenderedDetail>>)
        ensures
            final(self).shown_rows() == old(self).shown_rows(),
            final(self).shown_columns() == old(self).shown_columns(),
            match r {
                Some(document) => document_of(old(self).shown_rows(), row as int, col as int)
                    == Some(document@),
                None => document_of(old(self).shown_rows(), row as int, col as int) is None,
            },
    {
        proof {
            use_type_invariant(&*self);
            assert(looks(self.columns@).len() == column_looks(*self.rows).len());
        }
        if let Some((at, document)) = &self.document {
            if at.0 == row && at.1 == col {
                return Some(Arc::clone(document));
            }
        }
        let built: RenderedDetail = match self.rows.value(row, col) {
            Some(value) => if col < self.columns.len() {
                proof {
                    assert(looks(self.columns@)[col as int] == self.columns@[col as int]@);
                }
                RenderedDetail::of(
                    self.columns[col].name.as_str(),
                    self.columns[col].type_label.as_str(),
                    value,
                )
            } else {
                return None;
            },
            None => return None,
        };
        let document: Arc<RenderedDetail> = Arc::new(built);
        self.document = Some(((row, col), Arc::clone(&document)));
        Some(document)
    }
}

// ── what every grid keeps to ───────────────────────────────────────────────

/// Nothing that a terminal obeys.
pub open spec fn harmless(s: Seq<char>) -> bool {
    forall|i: int| 0 <= i < s.len() ==> !control(#[trigger] s[i]) && !bidi_control(s[i])
}

/// Nothing that a terminal obeys is left in a sanitised string, and it is never
/// longer than a cell keeps and one mark more.
pub proof fn nothing_sanitised_rewrites_the_terminal(s: Seq<char>)
    ensures
        harmless(sanitised(s)),
        sanitised(s).len() <= MAX_CELL_CHARS + 1,
        s.len() <= MAX_CELL_CHARS ==> sanitised(s).len() == s.len(),
{
}

/// No cell rewrites the terminal, whatever its value: what it shows holds no
/// control character and nothing that turns the direction of the text.
pub proof fn no_cell_rewrites_the_terminal(value: Option<Value>)
    ensures
        harmless(cell_text(value)),
        value is None ==> cell_text(value) == seq![NULL_GLYPH] && cell_kind(value) == CellKind::Null,
{
    if let Some(value) = value {
        match value {
            Value::Null => {},
            Value::Bool(_) => {
                reveal_strlit("true");
                reveal_strlit("false");
            },
            Value::Int(n) => {
                if n < 0 {
                    decimals_are_harmless((-n) as nat);
                } else {
                    decimals_are_harmless(n as nat);
                }
            },
            Value::Float(f) => nothing_sanitised_rewrites_the_terminal(float_text(f)),
            Value::Decimal(s) => nothing_sanitised_rewrites_the_terminal(s@),
            Value::Text(s) => nothing_sanitised_rewrites_the_terminal(s@),
            Value::Bytes(b) => bytes_are_harmless(b@, BYTES_SHOWN as nat),
            Value::Date(d) => dates_are_harmless(d),
            Value::Time(t) => times_are_harmless(t),
            Value::Timestamp { date, time } => {
                dates_are_harmless(date);
                times_are_harmless(time);
            },
            Value::TimestampTz { date, time, offset } => {
                dates_are_harmless(date);
                times_are_harmless(time);
                offsets_are_harmless(offset);
            },
            Value::Json(j) => {
                nothing_sanitised_rewrites_the_terminal(written(j));
                if let Json::Object(members) = j {
                    decimals_are_harmless(members@.len());
                    reveal_strlit("{");
                    reveal_strlit(" keys}");
                } else if let Json::Array(items) = j {
                    decimals_are_harmless(items@.len());
                    reveal_strlit("[");
                    reveal_strlit(" items]");
                }
            },
            Value::Array(items) => {
                decimals_are_harmless(items@.len());
                reveal_strlit("[");
                reveal_strlit(" items]");
            },
            Value::Struct(fields) => {
                decimals_are_harmless(fields@.len());
                reveal_strlit("{");
                reveal_strlit(" fields}");
            },
            Value::Opaque { type_label, text } => {
                nothing_sanitised_rewrites_the_terminal(type_label@);
                nothing_sanitised_rewrites_the_terminal(text@);
                reveal_strlit("<");
                reveal_strlit(">");
            },
        }
    }
}

pub(crate) proof fn decimals_are_harmless(n: nat)
    ensures
        harmless(decimal(n)),
    decreases n,
{
    if n >= 10 {
        decimals_are_harmless(n / 10);
    }
}

proof fn digits_are_harmless(n: int, width: int)
    ensures
        harmless(digits(n, width)),
    decreases width,
{
    if width > 0 {
        digits_are_harmless(n / 10, width - 1);
    }
}

proof fn fractions_are_harmless(part: int, width: int)
    ensures
        harmless(fraction(part, width)),
    decreases width,
{
    digits_are_harmless(part, width);
    if width > 1 {
        fractions_are_harmless(part / 10, width - 1);
    }
}

pub(crate) proof fn dates_are_harmless(date: Date)
    ensures
        harmless(date.words()),
{
    let (month, day) = month_and_day(date.of_year(), 1, date.day_of_year());
    digits_are_harmless(magnitude(date.of_year()), 4);
    digits_are_harmless(month, 2);
    digits_are_harmless(day, 2);
}

pub(crate) proof fn times_are_harmless(time: Time)
    ensures
        harmless(time.words()),
{
    let (hour, minute, second, nanosecond) = time.parts();
    decimals_are_harmless(hour as nat);
    digits_are_harmless(minute, 2);
    digits_are_harmless(second, 2);
    fractions_are_harmless(nanosecond, 9);
}

pub(crate) proof fn offsets_are_harmless(offset: UtcOffset)
    ensures
        harmless(offset.words()),
{
    let (hours, minutes, seconds) = offset.parts();
    digits_are_harmless(magnitude(hours), 2);
    digits_are_harmless(magnitude(minutes), 2);
    digits_are_harmless(magnitude(seconds), 2);
}

pub(crate) proof fn bytes_are_harmless(bytes: Seq<u8>, shown: nat)
    ensures
        harmless(bytes_text(bytes, shown)),
{
    reveal_strlit("0x");
    reveal_strlit("… (");
    reveal_strlit(" bytes)");
    decimals_are_harmless(bytes.len());
    hex_is_harmless(bytes);
    hex_is_harmless(bytes.take(shown as int));
}

proof fn hex_is_harmless(bytes: Seq<u8>)
    ensures
        harmless(hex_of(bytes)),
    decreases bytes.len(),
{
    if bytes.len() > 0 {
        hex_is_harmless(bytes.drop_last());
    }
}

/// A value of one line is left as it is by sanitising it when it holds nothing
/// a terminal obeys and is no longer than a cell keeps.
pub proof fn sanitising_keeps_what_is_harmless(s: Seq<char>)
    requires
        s.len() <= MAX_CELL_CHARS,
        harmless(s),
    ensures
        sanitised(s) == s,
{
    assert(sanitised(s) =~= s);
}

/// What a pane that shows a value whole leaves of it: every character, and of
/// what a terminal obeys only the line breaks and the tabs.
pub proof fn a_value_shown_whole_keeps_every_character(s: Seq<char>)
    ensures
        sanitised_whole(s).len() == s.len(),
        forall|i: int|
            0 <= i < s.len() ==> {
                let c = #[trigger] sanitised_whole(s)[i];
                (c == '\n' || c == '\t' || !control(c)) && !bidi_control(c)
            },
{
}

/// Every column is at least as wide as is readable and no wider than leaves
/// room for others.
pub proof fn widths_are_clamped(rows: PagedResult, col: int)
    ensures
        MIN_WIDTH <= column_look(rows, col).natural_width <= MAX_WIDTH,
{
}

/// Two results whose first pages agree look the same: a page that arrives later
/// can neither widen a column nor turn it to the other side.
pub proof fn a_later_page_changes_no_column(before: PagedResult, after: PagedResult)
    requires
        before.columns@ == after.columns@,
        before.first_page == after.first_page,
        before.first_page <= before.rows@.len(),
        before.first_page <= after.rows@.len(),
        forall|r: int|
            0 <= r < before.first_page ==> #[trigger] before.rows@[r] == after.rows@[r],
    ensures
        column_looks(before) == column_looks(after),
{
    let n = sampled(before);
    assert(n == sampled(after));
    assert forall|col: int| 0 <= col < before.columns@.len() implies #[trigger] column_look(
        before,
        col,
    ) == column_look(after, col) by {
        assert forall|r: int| 0 <= r < n implies #[trigger] before.value_at(r, col)
            == after.value_at(r, col) by {
            assert(before.rows@[r] == after.rows@[r]);
        }
        same_cells_are_as_wide(before, after, col, n);
        assert forall|r: int| 0 <= r < n implies #[trigger] after.value_at(r, col)
            == before.value_at(r, col) by {
            assert(before.value_at(r, col) == after.value_at(r, col));
        }
        same_cells_align_alike(before, after, col, n);
    }
    assert(column_looks(before) =~= column_looks(after));
}

proof fn same_cells_are_as_wide(a: PagedResult, b: PagedResult, col: int, n: int)
    requires
        forall|r: int| 0 <= r < n ==> #[trigger] a.value_at(r, col) == b.value_at(r, col),
    ensures
        widest(a, col, n) == widest(b, col, n),
    decreases n,
{
    if n > 0 {
        assert(a.value_at(n - 1, col) == b.value_at(n - 1, col));
        same_cells_are_as_wide(a, b, col, n - 1);
    }
}

proof fn same_cells_align_alike(a: PagedResult, b: PagedResult, col: int, n: int)
    requires
        forall|r: int| 0 <= r < n ==> #[trigger] a.value_at(r, col) == b.value_at(r, col),
        forall|r: int| 0 <= r < n ==> #[trigger] b.value_at(r, col) == a.value_at(r, col),
    ensures
        column_alignment(a, col, n) == column_alignment(b, col, n),
{
}

} // verus!
