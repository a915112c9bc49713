//! One value, laid out to be read rather than to fit a column.
//!
//! Built beside [`crate::grid::RenderedGrid`] rather than from it. The grid
//! clamps a cell and collapses a document to `{2 keys}`, which is right in a
//! column a few cells wide and is exactly what somebody opening the detail
//! pane is trying to get past.
//!
//! Drawing code still never sees a `Value`: the escaping and how far to indent
//! a nested field are terminal decisions, so they are made here and the widget
//! receives lines.

use crate::clock::{stamp_text, stamp_words, zoned_text, zoned_words};
use crate::grid::{
    a_value_shown_whole_keeps_every_character, bidi_control, bool_text, bytes_are_harmless,
    bytes_text, cell_kind, control, dates_are_harmless, decimals_are_harmless, format_bool,
    format_bytes, kind_of, null_glyph, offsets_are_harmless, sanitise_unbounded, sanitised_whole,
    tally, tally_of, times_are_harmless, CellKind, NULL_GLYPH,
};
use crate::geometry::Rect;
use crate::json::{written, Json};
use crate::model::Value;
use crate::paint::{
    raw, styled, BorderKind, Canvas, CanvasView, Color, Line, Overflow, Paint, PaintView, Span,
    SpanView, Style,
};
use crate::search::views;
use crate::text::{
    copy_of, pieces, push_all, push_run, replace, replaced, run_of, signed_decimal,
    signed_decimal_of, some_text, split, texts,
};
use vstd::prelude::*;

verus! {

/// One line of the document, and how deep it sits.
#[derive(Debug, PartialEq, Eq)]
pub struct DetailLine {
    pub depth: u8,
    /// Present on a struct field and on nothing else — an array's elements are
    /// positional, and numbering them here would invent names the value does
    /// not have.
    pub label: Option<String>,
    pub text: String,
    pub kind: CellKind,
}

/// What a line of the document says.
pub struct LineView {
    pub depth: int,
    pub label: Option<Seq<char>>,
    pub text: Seq<char>,
    pub kind: CellKind,
}

impl View for DetailLine {
    type V = LineView;

    open spec fn view(&self) -> LineView {
        LineView {
            depth: self.depth as int,
            label: some_text(self.label),
            text: self.text@,
            kind: self.kind,
        }
    }
}

/// A value, ready to draw.
#[derive(Debug, PartialEq, Eq)]
pub struct RenderedDetail {
    pub column: String,
    pub type_label: String,
    pub lines: Vec<DetailLine>,
}

/// What a laid-out value says.
#[verifier::ext_equal]
pub struct DetailView {
    pub column: Seq<char>,
    pub type_label: Seq<char>,
    pub lines: Seq<LineView>,
}

impl View for RenderedDetail {
    type V = DetailView;

    open spec fn view(&self) -> DetailView {
        DetailView {
            column: self.column@,
            type_label: self.type_label@,
            lines: line_views(self.lines@),
        }
    }
}

/// How deep a document is followed before it is left as one line.
///
/// A guard against a value that nests further than anybody will read, not a
/// display choice. Twelve is past every shape a record or a composite takes in
/// practice, and a value deeper than that is still shown — on one line, which
/// is what it would have looked like anyway.
pub const MAX_DEPTH: u8 = 12;

/// Levels that one line follows before it falls back to a count.
pub const MAX_COMPACT_DEPTH: u8 = 8;

/// Bytes shown before a blob is described rather than spelled out.
///
/// Larger than the grid's eight, because reading the value is what this pane
/// is for; not unbounded, because a megabyte of hex is not read either.
pub const MAX_HEX_BYTES: usize = 1024;

// ── what the lines say ─────────────────────────────────────────────────────

pub open spec fn line_views(lines: Seq<DetailLine>) -> Seq<LineView> {
    lines.map_values(|l: DetailLine| l@)
}

/// The line above a document's own lines.
pub open spec fn heading(depth: int, label: Option<Seq<char>>) -> LineView {
    LineView { depth, label, text: Seq::empty(), kind: CellKind::Complex }
}

/// The lines of a value at some depth, under a label.
pub open spec fn value_lines(value: Value, depth: int, label: Option<Seq<char>>) -> Seq<LineView>
    decreases value,
{
    match value {
        Value::Struct(fields) => if depth < MAX_DEPTH && fields@.len() > 0 {
            seq![heading(depth, label)] + field_lines(fields@, depth + 1)
        } else {
            seq![
                LineView {
                    depth,
                    label,
                    text: compacted(value, MAX_COMPACT_DEPTH as int),
                    kind: CellKind::Complex,
                },
            ]
        },
        Value::Array(items) => if depth < MAX_DEPTH && items@.len() > 0 {
            seq![heading(depth, label)] + item_lines(items@, depth + 1)
        } else {
            seq![
                LineView {
                    depth,
                    label,
                    text: compacted(value, MAX_COMPACT_DEPTH as int),
                    kind: CellKind::Complex,
                },
            ]
        },
        Value::Json(json) => json_lines(json, depth, label),
        _ => seq![
            LineView { depth, label, text: scalar_text(value), kind: cell_kind(Some(value)) },
        ],
    }
}

pub open spec fn field_lines(fields: Seq<(String, Value)>, depth: int) -> Seq<LineView>
    decreases fields,
{
    if fields.len() == 0 {
        Seq::empty()
    } else {
        field_lines(fields.drop_last(), depth) + value_lines(
            fields.last().1,
            depth,
            Some(sanitised_whole(fields.last().0@)),
        )
    }
}

pub open spec fn item_lines(items: Seq<Value>, depth: int) -> Seq<LineView>
    decreases items,
{
    if items.len() == 0 {
        Seq::empty()
    } else {
        item_lines(items.drop_last(), depth) + value_lines(items.last(), depth, None)
    }
}

/// The lines of a JSON document at some depth, under a label.
pub open spec fn json_lines(json: Json, depth: int, label: Option<Seq<char>>) -> Seq<LineView>
    decreases json,
{
    match json {
        Json::Object(members) => if depth < MAX_DEPTH && members@.len() > 0 {
            seq![heading(depth, label)] + member_lines(members@, depth + 1)
        } else {
            seq![
                LineView {
                    depth,
                    label,
                    text: sanitised_whole(written(json)),
                    kind: CellKind::Complex,
                },
            ]
        },
        Json::Array(items) => if depth < MAX_DEPTH && items@.len() > 0 {
            seq![heading(depth, label)] + element_lines(items@, depth + 1)
        } else {
            seq![
                LineView {
                    depth,
                    label,
                    text: sanitised_whole(written(json)),
                    kind: CellKind::Complex,
                },
            ]
        },
        Json::Null => seq![LineView { depth, label, text: "null"@, kind: CellKind::Null }],
        Json::Text(s) => seq![
            LineView { depth, label, text: sanitised_whole(s@), kind: CellKind::Text },
        ],
        Json::Bool(b) => seq![LineView { depth, label, text: bool_text(b), kind: CellKind::Text }],
        Json::Number(digits) => seq![
            LineView { depth, label, text: sanitised_whole(digits@), kind: CellKind::Number },
        ],
    }
}

pub open spec fn member_lines(members: Seq<(String, Json)>, depth: int) -> Seq<LineView>
    decreases members,
{
    if members.len() == 0 {
        Seq::empty()
    } else {
        member_lines(members.drop_last(), depth) + json_lines(
            members.last().1,
            depth,
            Some(sanitised_whole(members.last().0@)),
        )
    }
}

pub open spec fn element_lines(items: Seq<Json>, depth: int) -> Seq<LineView>
    decreases items,
{
    if items.len() == 0 {
        Seq::empty()
    } else {
        element_lines(items.drop_last(), depth) + json_lines(items.last(), depth, None)
    }
}

/// A value on one line, following it at most `budget` levels down.
pub open spec fn compacted(value: Value, budget: int) -> Seq<char>
    decreases value,
{
    match value {
        Value::Struct(fields) => if budget <= 0 {
            tally("{"@, fields@.len(), " fields}"@)
        } else {
            seq!['{'] + compacted_fields(fields@, budget - 1) + seq!['}']
        },
        Value::Array(items) => if budget <= 0 {
            tally("["@, items@.len(), " items]"@)
        } else {
            seq!['['] + compacted_items(items@, budget - 1) + seq![']']
        },
        _ => scalar_text(value),
    }
}

pub open spec fn compacted_fields(fields: Seq<(String, Value)>, budget: int) -> Seq<char>
    decreases fields,
{
    if fields.len() == 0 {
        Seq::empty()
    } else {
        let last = sanitised_whole(fields.last().0@) + ": "@ + compacted(fields.last().1, budget);
        if fields.len() == 1 {
            last
        } else {
            compacted_fields(fields.drop_last(), budget) + ", "@ + last
        }
    }
}

pub open spec fn compacted_items(items: Seq<Value>, budget: int) -> Seq<char>
    decreases items,
{
    if items.len() == 0 {
        Seq::empty()
    } else {
        let last = compacted(items.last(), budget);
        if items.len() == 1 {
            last
        } else {
            compacted_items(items.drop_last(), budget) + ", "@ + last
        }
    }
}

/// A value that is not made of others, as text and with no length limit.
pub open spec fn scalar_text(value: Value) -> Seq<char> {
    match value {
        Value::Null => seq![NULL_GLYPH],
        Value::Bool(b) => bool_text(b),
        Value::Int(n) => signed_decimal(n as int),
        Value::Float(f) => sanitised_whole(f.plain@),
        Value::Decimal(s) => sanitised_whole(s@),
        Value::Text(s) => sanitised_whole(s@),
        Value::Bytes(b) => bytes_text(b@, MAX_HEX_BYTES as nat),
        Value::Date(d) => d.words(),
        Value::Time(t) => t.words(),
        Value::Timestamp { date, time } => stamp_words(date, time),
        Value::TimestampTz { date, time, offset } => zoned_words(date, time, offset),
        Value::Json(json) => sanitised_whole(written(json)),
        Value::Opaque { type_label, text } => sanitised_whole(type_label@) + ": "@
            + sanitised_whole(text@),
        // Both are made of others, and never come here.
        Value::Struct(_) | Value::Array(_) => Seq::empty(),
    }
}

// ── laying one out ─────────────────────────────────────────────────────────

impl RenderedDetail {
    pub fn of(column: &str, type_label: &str, value: &Value) -> (r: Self)
        ensures
            r@ == (DetailView {
                column: column@,
                type_label: type_label@,
                lines: value_lines(*value, 0, None),
            }),
    {
        let mut lines: Vec<DetailLine> = Vec::new();
        push(&mut lines, 0, None, value);
        proof {
            assert(line_views(lines@) =~= value_lines(*value, 0, None));
        }
        RenderedDetail { column: copy_of(column), type_label: copy_of(type_label), lines }
    }
}

fn push_line(
    lines: &mut Vec<DetailLine>,
    depth: u8,
    label: Option<String>,
    text: String,
    kind: CellKind,
)
    ensures
        line_views(final(lines)@) == line_views(old(lines)@) + seq![
            (LineView { depth: depth as int, label: some_text(label), text: text@, kind }),
        ],
{
    let ghost before = lines@;
    let line: DetailLine = DetailLine { depth, label, text, kind };
    let ghost added = line@;
    lines.push(line);
    proof {
        assert(line_views(lines@) =~= line_views(before) + seq![added]);
    }
}

fn push(lines: &mut Vec<DetailLine>, depth: u8, label: Option<String>, value: &Value)
    requires
        depth <= MAX_DEPTH,
    ensures
        line_views(final(lines)@) == line_views(old(lines)@) + value_lines(
            *value,
            depth as int,
            some_text(label),
        ),
    decreases value,
{
    let ghost before = line_views(lines@);
    let ghost named = some_text(label);
    match value {
        Value::Struct(fields) => {
            if depth < MAX_DEPTH && fields.len() > 0 {
                push_line(lines, depth, label, String::new(), CellKind::Complex);
                let ghost opened = line_views(lines@);
                let mut i: usize = 0;
                proof {
                    assert(opened =~= before + seq![heading(depth as int, named)]);
                    assert(opened + field_lines(fields@.take(0), depth + 1) =~= opened);
                }
                while i < fields.len()
                    invariant
                        depth < MAX_DEPTH,
                        i <= fields@.len(),
                        decreases_to!(value => fields),
                        line_views(lines@) == opened + field_lines(
                            fields@.take(i as int),
                            depth + 1,
                        ),
                    decreases fields@.len() - i,
                {
                    proof {
                        assert(fields@.take(i + 1).drop_last() =~= fields@.take(i as int));
                    }
                    // A name is a string from a driver like any other.
                    let name: String = sanitise_unbounded(fields[i].0.as_str());
                    push(lines, depth + 1, Some(name), &fields[i].1);
                    proof {
                        assert(line_views(lines@) =~= opened + field_lines(
                            fields@.take(i + 1),
                            depth + 1,
                        ));
                    }
                    i += 1;
                }
                proof {
                    assert(fields@.take(i as int) =~= fields@);
                    assert(line_views(lines@) =~= before + value_lines(
                        *value,
                        depth as int,
                        named,
                    ));
                }
            } else {
                // Empty, or nested past the depth limit. Either way it goes on
                // one line — but with its contents on it, because a struct
                // printed as `{}` says the row is empty when it is not.
                push_line(lines, depth, label, compact(value), CellKind::Complex);
            }
        },
        Value::Array(items) => {
            if depth < MAX_DEPTH && items.len() > 0 {
                push_line(lines, depth, label, String::new(), CellKind::Complex);
                let ghost opened = line_views(lines@);
                let mut i: usize = 0;
                proof {
                    assert(opened =~= before + seq![heading(depth as int, named)]);
                    assert(opened + item_lines(items@.take(0), depth + 1) =~= opened);
                }
                while i < items.len()
                    invariant
                        depth < MAX_DEPTH,
                        i <= items@.len(),
                        decreases_to!(value => items),
                        line_views(lines@) == opened + item_lines(items@.take(i as int), depth + 1),
                    decreases items@.len() - i,
                {
                    proof {
                        assert(items@.take(i + 1).drop_last() =~= items@.take(i as int));
                    }
                    push(lines, depth + 1, None, &items[i]);
                    proof {
                        assert(line_views(lines@) =~= opened + item_lines(
                            items@.take(i + 1),
                            depth + 1,
                        ));
                    }
                    i += 1;
                }
                proof {
                    assert(items@.take(i as int) =~= items@);
                    assert(line_views(lines@) =~= before + value_lines(
                        *value,
                        depth as int,
                        named,
                    ));
                }
            } else {
                push_line(lines, depth, label, compact(value), CellKind::Complex);
            }
        },
        // A JSON document is followed the same way, because whoever opened
        // this pane asked for the document.
        Value::Json(json) => push_json(lines, depth, label, json),
        _ => push_line(lines, depth, label, scalar(value), kind_of(value)),
    }
}

fn push_json(lines: &mut Vec<DetailLine>, depth: u8, label: Option<String>, json: &Json)
    requires
        depth <= MAX_DEPTH,
    ensures
        line_views(final(lines)@) == line_views(old(lines)@) + json_lines(
            *json,
            depth as int,
            some_text(label),
        ),
    decreases json,
{
    let ghost before = line_views(lines@);
    let ghost named = some_text(label);
    match json {
        Json::Object(members) => {
            if depth < MAX_DEPTH && members.len() > 0 {
                push_line(lines, depth, label, String::new(), CellKind::Complex);
                let ghost opened = line_views(lines@);
                let mut i: usize = 0;
                proof {
                    assert(opened =~= before + seq![heading(depth as int, named)]);
                    assert(opened + member_lines(members@.take(0), depth + 1) =~= opened);
                }
                while i < members.len()
                    invariant
                        depth < MAX_DEPTH,
                        i <= members@.len(),
                        decreases_to!(json => members),
                        line_views(lines@) == opened + member_lines(
                            members@.take(i as int),
                            depth + 1,
                        ),
                    decreases members@.len() - i,
                {
                    proof {
                        assert(members@.take(i + 1).drop_last() =~= members@.take(i as int));
                    }
                    let name: String = sanitise_unbounded(members[i].0.as_str());
                    push_json(lines, depth + 1, Some(name), &members[i].1);
                    proof {
                        assert(line_views(lines@) =~= opened + member_lines(
                            members@.take(i + 1),
                            depth + 1,
                        ));
                    }
                    i += 1;
                }
                proof {
                    assert(members@.take(i as int) =~= members@);
                    assert(line_views(lines@) =~= before + json_lines(*json, depth as int, named));
                }
            } else {
                // One line, and sanitised: escaping a string leaves a bidi
                // override in it, which reorders every line drawn after it.
                push_line(
                    lines,
                    depth,
                    label,
                    sanitise_unbounded(json.text().as_str()),
                    CellKind::Complex,
                );
            }
        },
        Json::Array(items) => {
            if depth < MAX_DEPTH && items.len() > 0 {
                push_line(lines, depth, label, String::new(), CellKind::Complex);
                let ghost opened = line_views(lines@);
                let mut i: usize = 0;
                proof {
                    assert(opened =~= before + seq![heading(depth as int, named)]);
                    assert(opened + element_lines(items@.take(0), depth + 1) =~= opened);
                }
                while i < items.len()
                    invariant
                        depth < MAX_DEPTH,
                        i <= items@.len(),
                        decreases_to!(json => items),
                        line_views(lines@) == opened + element_lines(
                            items@.take(i as int),
                            depth + 1,
                        ),
                    decreases items@.len() - i,
                {
                    proof {
                        assert(items@.take(i + 1).drop_last() =~= items@.take(i as int));
                    }
                    push_json(lines, depth + 1, None, &items[i]);
                    proof {
                        assert(line_views(lines@) =~= opened + element_lines(
                            items@.take(i + 1),
                            depth + 1,
                        ));
                    }
                    i += 1;
                }
                proof {
                    assert(items@.take(i as int) =~= items@);
                    assert(line_views(lines@) =~= before + json_lines(*json, depth as int, named));
                }
            } else {
                push_line(
                    lines,
                    depth,
                    label,
                    sanitise_unbounded(json.text().as_str()),
                    CellKind::Complex,
                );
            }
        },
        Json::Null => push_line(lines, depth, label, copy_of("null"), CellKind::Null),
        Json::Text(s) => push_line(
            lines,
            depth,
            label,
            sanitise_unbounded(s.as_str()),
            CellKind::Text,
        ),
        Json::Bool(b) => push_line(lines, depth, label, format_bool(*b), CellKind::Text),
        Json::Number(digits) => push_line(
            lines,
            depth,
            label,
            sanitise_unbounded(digits.as_str()),
            CellKind::Number,
        ),
    }
}

/// A composite on one line, for a value nested past [`MAX_DEPTH`].
fn compact(value: &Value) -> (r: String)
    ensures
        r@ == compacted(*value, MAX_COMPACT_DEPTH as int),
{
    let mut out: String = String::new();
    write_compact(&mut out, value, MAX_COMPACT_DEPTH);
    proof {
        assert(out@ =~= compacted(*value, MAX_COMPACT_DEPTH as int));
    }
    out
}

fn write_compact(out: &mut String, value: &Value, budget: u8)
    ensures
        final(out)@ == old(out)@ + compacted(*value, budget as int),
    decreases value,
{
    let ghost before = out@;
    match value {
        Value::Struct(fields) => {
            if budget == 0 {
                push_all(out, tally_of("{", fields.len(), " fields}").as_str());
                return;
            }
            out.push('{');
            let ghost opened = out@;
            let mut i: usize = 0;
            proof {
                assert(opened + compacted_fields(fields@.take(0), budget - 1) =~= opened);
            }
            while i < fields.len()
                invariant
                    budget > 0,
                    i <= fields@.len(),
                    decreases_to!(value => fields),
                    out@ == opened + compacted_fields(fields@.take(i as int), budget - 1),
                decreases fields@.len() - i,
            {
                proof {
                    assert(fields@.take(i + 1).drop_last() =~= fields@.take(i as int));
                }
                let ghost so_far = compacted_fields(fields@.take(i as int), budget - 1);
                if i > 0 {
                    push_all(out, ", ");
                }
                push_all(out, sanitise_unbounded(fields[i].0.as_str()).as_str());
                push_all(out, ": ");
                write_compact(out, &fields[i].1, budget - 1);
                proof {
                    let last = sanitised_whole(fields@[i as int].0@) + ": "@ + compacted(
                        fields@[i as int].1,
                        budget - 1,
                    );
                    if i == 0 {
                        assert(out@ =~= opened + last);
                    } else {
                        assert(out@ =~= opened + (so_far + ", "@ + last));
                    }
                }
                i += 1;
            }
            out.push('}');
            proof {
                assert(fields@.take(i as int) =~= fields@);
                assert(out@ =~= before + compacted(*value, budget as int));
            }
        },
        Value::Array(items) => {
            if budget == 0 {
                push_all(out, tally_of("[", items.len(), " items]").as_str());
                return;
            }
            out.push('[');
            let ghost opened = out@;
            let mut i: usize = 0;
            proof {
                assert(opened + compacted_items(items@.take(0), budget - 1) =~= opened);
            }
            while i < items.len()
                invariant
                    budget > 0,
                    i <= items@.len(),
                    decreases_to!(value => items),
                    out@ == opened + compacted_items(items@.take(i as int), budget - 1),
                decreases items@.len() - i,
            {
                proof {
                    assert(items@.take(i + 1).drop_last() =~= items@.take(i as int));
                }
                let ghost so_far = compacted_items(items@.take(i as int), budget - 1);
                if i > 0 {
                    push_all(out, ", ");
                }
                write_compact(out, &items[i], budget - 1);
                proof {
                    let last = compacted(items@[i as int], budget - 1);
                    if i == 0 {
                        assert(out@ =~= opened + last);
                    } else {
                        assert(out@ =~= opened + (so_far + ", "@ + last));
                    }
                }
                i += 1;
            }
            out.push(']');
            proof {
                assert(items@.take(i as int) =~= items@);
                assert(out@ =~= before + compacted(*value, budget as int));
            }
        },
        _ => push_all(out, scalar(value).as_str()),
    }
}

/// The whole value as text, with no length limit.
///
/// The limit is the difference between this pane and the grid: a cell is
/// clamped because a column is a few characters wide, and a value that was
/// clamped is the reason somebody is looking here.
fn scalar(value: &Value) -> (r: String)
    ensures
        r@ == scalar_text(*value),
{
    match value {
        Value::Null => null_glyph(),
        Value::Bool(b) => format_bool(*b),
        Value::Int(n) => signed_decimal_of(*n),
        Value::Float(f) => sanitise_unbounded(f.plain.as_str()),
        // Sanitised like any other string from a driver: a decimal is digits
        // in every database anyone has, and "in every database anyone has" is
        // not the guarantee this pane draws into a terminal on.
        Value::Decimal(s) => sanitise_unbounded(s.as_str()),
        Value::Text(s) => sanitise_unbounded(s.as_str()),
        Value::Bytes(b) => format_bytes(b, MAX_HEX_BYTES),
        Value::Date(d) => d.text(),
        Value::Time(t) => t.text(),
        Value::Timestamp { date, time } => stamp_text(date, time),
        Value::TimestampTz { date, time, offset } => zoned_text(date, time, offset),
        Value::Json(json) => sanitise_unbounded(json.text().as_str()),
        Value::Opaque { type_label, text } => {
            let mut out: String = sanitise_unbounded(type_label.as_str());
            push_all(&mut out, ": ");
            push_all(&mut out, sanitise_unbounded(text.as_str()).as_str());
            out
        },
        Value::Struct(_) | Value::Array(_) => String::new(),
    }
}

// ── what every document keeps to ───────────────────────────────────────────

/// No line sits deeper than the limit, however deep the value nests; there is
/// always a line, and the first carries the value's own label.
pub proof fn no_line_is_past_the_limit(value: Value, depth: int, label: Option<Seq<char>>)
    requires
        0 <= depth <= MAX_DEPTH,
    ensures
        value_lines(value, depth, label).len() >= 1,
        value_lines(value, depth, label)[0].label == label,
        forall|i: int|
            0 <= i < value_lines(value, depth, label).len() ==> depth <= (#[trigger] value_lines(
                value,
                depth,
                label,
            )[i]).depth <= MAX_DEPTH,
    decreases value,
{
    match value {
        Value::Struct(fields) => if depth < MAX_DEPTH && fields@.len() > 0 {
            fields_stay_within_the_limit(fields@, depth + 1);
        },
        Value::Array(items) => if depth < MAX_DEPTH && items@.len() > 0 {
            items_stay_within_the_limit(items@, depth + 1);
        },
        Value::Json(json) => json_stays_within_the_limit(json, depth, label),
        _ => {},
    }
}

proof fn fields_stay_within_the_limit(fields: Seq<(String, Value)>, depth: int)
    requires
        0 <= depth <= MAX_DEPTH,
    ensures
        forall|i: int|
            0 <= i < field_lines(fields, depth).len() ==> depth <= (#[trigger] field_lines(
                fields,
                depth,
            )[i]).depth <= MAX_DEPTH,
    decreases fields,
{
    if fields.len() > 0 {
        fields_stay_within_the_limit(fields.drop_last(), depth);
        no_line_is_past_the_limit(
            fields.last().1,
            depth,
            Some(sanitised_whole(fields.last().0@)),
        );
    }
}

proof fn items_stay_within_the_limit(items: Seq<Value>, depth: int)
    requires
        0 <= depth <= MAX_DEPTH,
    ensures
        forall|i: int|
            0 <= i < item_lines(items, depth).len() ==> depth <= (#[trigger] item_lines(
                items,
                depth,
            )[i]).depth <= MAX_DEPTH,
    decreases items,
{
    if items.len() > 0 {
        items_stay_within_the_limit(items.drop_last(), depth);
        no_line_is_past_the_limit(items.last(), depth, None);
    }
}

proof fn json_stays_within_the_limit(json: Json, depth: int, label: Option<Seq<char>>)
    requires
        0 <= depth <= MAX_DEPTH,
    ensures
        json_lines(json, depth, label).len() >= 1,
        json_lines(json, depth, label)[0].label == label,
        forall|i: int|
            0 <= i < json_lines(json, depth, label).len() ==> depth <= (#[trigger] json_lines(
                json,
                depth,
                label,
            )[i]).depth <= MAX_DEPTH,
    decreases json,
{
    match json {
        Json::Object(members) => if depth < MAX_DEPTH && members@.len() > 0 {
            members_stay_within_the_limit(members@, depth + 1);
        },
        Json::Array(items) => if depth < MAX_DEPTH && items@.len() > 0 {
            elements_stay_within_the_limit(items@, depth + 1);
        },
        _ => {},
    }
}

proof fn members_stay_within_the_limit(members: Seq<(String, Json)>, depth: int)
    requires
        0 <= depth <= MAX_DEPTH,
    ensures
        forall|i: int|
            0 <= i < member_lines(members, depth).len() ==> depth <= (#[trigger] member_lines(
                members,
                depth,
            )[i]).depth <= MAX_DEPTH,
    decreases members,
{
    if members.len() > 0 {
        members_stay_within_the_limit(members.drop_last(), depth);
        json_stays_within_the_limit(
            members.last().1,
            depth,
            Some(sanitised_whole(members.last().0@)),
        );
    }
}

proof fn elements_stay_within_the_limit(items: Seq<Json>, depth: int)
    requires
        0 <= depth <= MAX_DEPTH,
    ensures
        forall|i: int|
            0 <= i < element_lines(items, depth).len() ==> depth <= (#[trigger] element_lines(
                items,
                depth,
            )[i]).depth <= MAX_DEPTH,
    decreases items,
{
    if items.len() > 0 {
        elements_stay_within_the_limit(items.drop_last(), depth);
        json_stays_within_the_limit(items.last(), depth, None);
    }
}

/// Nothing that a terminal obeys but line breaks and tabs, which are spent when
/// a line is drawn.
pub open spec fn readable(s: Seq<char>) -> bool {
    forall|i: int|
        0 <= i < s.len() ==> (#[trigger] s[i] == '\n' || s[i] == '\t' || !control(s[i]))
            && !bidi_control(s[i])
}

/// Lines whose texts and labels hold nothing that a terminal obeys.
pub open spec fn all_readable(lines: Seq<LineView>) -> bool {
    forall|i: int|
        0 <= i < lines.len() ==> readable((#[trigger] lines[i]).text) && (lines[i].label matches Some(
            label,
        ) ==> readable(label))
}

/// No document rewrites the terminal, whatever its value: neither what a line
/// says nor what it is called holds a control character other than a line break
/// or a tab, or anything that turns the direction of the text.
pub proof fn no_document_rewrites_the_terminal(value: Value, depth: int, label: Option<Seq<char>>)
    requires
        label matches Some(label) ==> readable(label),
    ensures
        all_readable(value_lines(value, depth, label)),
    decreases value,
{
    match value {
        Value::Struct(fields) => if depth < MAX_DEPTH && fields@.len() > 0 {
            fields_are_readable(fields@, depth + 1);
        } else {
            one_line_is_readable(value, MAX_COMPACT_DEPTH as int);
        },
        Value::Array(items) => if depth < MAX_DEPTH && items@.len() > 0 {
            items_are_readable(items@, depth + 1);
        } else {
            one_line_is_readable(value, MAX_COMPACT_DEPTH as int);
        },
        Value::Json(json) => json_is_readable(json, depth, label),
        _ => scalars_are_readable(value),
    }
}

proof fn fields_are_readable(fields: Seq<(String, Value)>, depth: int)
    ensures
        all_readable(field_lines(fields, depth)),
    decreases fields,
{
    if fields.len() > 0 {
        fields_are_readable(fields.drop_last(), depth);
        a_value_shown_whole_keeps_every_character(fields.last().0@);
        no_document_rewrites_the_terminal(
            fields.last().1,
            depth,
            Some(sanitised_whole(fields.last().0@)),
        );
    }
}

proof fn items_are_readable(items: Seq<Value>, depth: int)
    ensures
        all_readable(item_lines(items, depth)),
    decreases items,
{
    if items.len() > 0 {
        items_are_readable(items.drop_last(), depth);
        no_document_rewrites_the_terminal(items.last(), depth, None);
    }
}

proof fn json_is_readable(json: Json, depth: int, label: Option<Seq<char>>)
    requires
        label matches Some(label) ==> readable(label),
    ensures
        all_readable(json_lines(json, depth, label)),
    decreases json,
{
    a_value_shown_whole_keeps_every_character(written(json));
    match json {
        Json::Object(members) => if depth < MAX_DEPTH && members@.len() > 0 {
            members_are_readable(members@, depth + 1);
        },
        Json::Array(items) => if depth < MAX_DEPTH && items@.len() > 0 {
            elements_are_readable(items@, depth + 1);
        },
        Json::Null => {
            reveal_strlit("null");
        },
        Json::Text(s) => a_value_shown_whole_keeps_every_character(s@),
        Json::Number(digits) => a_value_shown_whole_keeps_every_character(digits@),
        Json::Bool(_) => {
            reveal_strlit("true");
            reveal_strlit("false");
        },
    }
}

proof fn members_are_readable(members: Seq<(String, Json)>, depth: int)
    ensures
        all_readable(member_lines(members, depth)),
    decreases members,
{
    if members.len() > 0 {
        members_are_readable(members.drop_last(), depth);
        a_value_shown_whole_keeps_every_character(members.last().0@);
        json_is_readable(members.last().1, depth, Some(sanitised_whole(members.last().0@)));
    }
}

proof fn elements_are_readable(items: Seq<Json>, depth: int)
    ensures
        all_readable(element_lines(items, depth)),
    decreases items,
{
    if items.len() > 0 {
        elements_are_readable(items.drop_last(), depth);
        json_is_readable(items.last(), depth, None);
    }
}

proof fn one_line_is_readable(value: Value, budget: int)
    ensures
        readable(compacted(value, budget)),
    decreases value,
{
    match value {
        Value::Struct(fields) => {
            reveal_strlit("{");
            reveal_strlit(" fields}");
            decimals_are_harmless(fields@.len());
            one_line_of_fields_is_readable(fields@, budget - 1);
        },
        Value::Array(items) => {
            reveal_strlit("[");
            reveal_strlit(" items]");
            decimals_are_harmless(items@.len());
            one_line_of_items_is_readable(items@, budget - 1);
        },
        _ => scalars_are_readable(value),
    }
}

proof fn one_line_of_fields_is_readable(fields: Seq<(String, Value)>, budget: int)
    ensures
        readable(compacted_fields(fields, budget)),
    decreases fields,
{
    if fields.len() > 0 {
        one_line_of_fields_is_readable(fields.drop_last(), budget);
        one_line_is_readable(fields.last().1, budget);
        a_value_shown_whole_keeps_every_character(fields.last().0@);
        reveal_strlit(": ");
        reveal_strlit(", ");
    }
}

proof fn one_line_of_items_is_readable(items: Seq<Value>, budget: int)
    ensures
        readable(compacted_items(items, budget)),
    decreases items,
{
    if items.len() > 0 {
        one_line_of_items_is_readable(items.drop_last(), budget);
        one_line_is_readable(items.last(), budget);
        reveal_strlit(", ");
    }
}

proof fn scalars_are_readable(value: Value)
    ensures
        readable(scalar_text(value)),
{
    match value {
        Value::Bool(_) => {
            reveal_strlit("true");
            reveal_strlit("false");
        },
        Value::Int(n) => {
            if n < 0 {
                decimals_are_harmless((-n) as nat);
            } else {
                decimals_are_harmless(n as nat);
            }
        },
        Value::Float(f) => a_value_shown_whole_keeps_every_character(f.plain@),
        Value::Decimal(s) => a_value_shown_whole_keeps_every_character(s@),
        Value::Text(s) => a_value_shown_whole_keeps_every_character(s@),
        Value::Bytes(b) => bytes_are_harmless(b@, MAX_HEX_BYTES as nat),
        Value::Date(d) => dates_are_harmless(d),
        Value::Time(t) => times_are_harmless(t),
        Value::Timestamp { date, time } => {
            dates_are_harmless(date);
            times_are_harmless(time);
        },
        Value::TimestampTz { date, time, offset } => {
            dates_are_harmless(date);
            times_are_harmless(time);
            offsets_are_harmless(offset);
        },
        Value::Json(json) => a_value_shown_whole_keeps_every_character(written(json)),
        Value::Opaque { type_label, text } => {
            a_value_shown_whole_keeps_every_character(type_label@);
            a_value_shown_whole_keeps_every_character(text@);
            reveal_strlit(": ");
        },
        Value::Null | Value::Struct(_) | Value::Array(_) => {},
    }
}

/// A struct or an array with something in it never reads as an empty one, at
/// whatever depth it comes to stand on one line — unless all there is in an
/// array is one text without a character in it.
pub proof fn nothing_is_reported_empty_that_is_not(value: Value, budget: int)
    requires
        value is Struct || value is Array,
        value matches Value::Struct(fields) ==> fields@.len() > 0,
        value matches Value::Array(items) ==> items@.len() > 0 && (items@.len() == 1
            ==> compacted(items@[0], budget - 1).len() > 0),
    ensures
        compacted(value, budget) != seq!['{', '}'],
        compacted(value, budget) != seq!['[', ']'],
{
    reveal_strlit("{");
    reveal_strlit("[");
    reveal_strlit(" fields}");
    reveal_strlit(" items]");
    reveal_strlit(", ");
    reveal_strlit(": ");
    match value {
        Value::Struct(fields) => {
            if budget <= 0 {
                assert(compacted(value, budget).len() >= 9);
            } else {
                assert(compacted_fields(fields@, budget - 1).len() >= 2);
                assert(compacted(value, budget).len() >= 4);
            }
        },
        Value::Array(items) => {
            if budget <= 0 {
                assert(compacted(value, budget).len() >= 8);
            } else {
                assert(compacted_items(items@, budget - 1).len() >= 1);
                assert(compacted(value, budget).len() >= 3);
            }
        },
        _ => {},
    }
}

// ── drawing ────────────────────────────────────────────────────────────────

/// The grid's palette, so one value does not change colour on the way here.
pub open spec fn reading_style(kind: CellKind) -> Style {
    match kind {
        CellKind::Null => Style::colored(Color::DarkGray),
        CellKind::Number => Style::colored(Color::Cyan),
        CellKind::Text => Style::colored(Color::White),
        CellKind::Complex => Style::colored(Color::Magenta),
        CellKind::Opaque => Style::colored(Color::Yellow),
    }
}

fn style_for(kind: CellKind) -> (r: Style)
    ensures
        r == reading_style(kind),
{
    match kind {
        CellKind::Null => Style::of(Color::DarkGray),
        CellKind::Number => Style::of(Color::Cyan),
        CellKind::Text => Style::of(Color::White),
        CellKind::Complex => Style::of(Color::Magenta),
        CellKind::Opaque => Style::of(Color::Yellow),
    }
}

/// What a label is drawn as, before the first piece of what it labels.
pub open spec fn label_spans(label: Option<Seq<char>>, first: bool) -> Seq<SpanView> {
    match label {
        Some(label) if first => seq![styled(label + ": "@, Style::colored(Color::Gray))],
        _ => Seq::empty(),
    }
}

/// One of the lines that a line of the document is drawn as.
///
/// A newline in the value becomes a line here rather than being carried inside
/// one: a control character takes no columns and is dropped, so `a` and `b`
/// with one between them would be drawn as `ab`, which is a different value. A
/// tab goes the same way, and is spent as spaces for the same reason.
pub open spec fn piece_drawn(line: LineView, piece: Seq<char>, first: bool) -> Seq<SpanView> {
    seq![raw(run_of(' ', (2 * line.depth) as nat))] + label_spans(line.label, first) + seq![
        styled(replaced(piece, '\t', "    "@), reading_style(line.kind)),
    ]
}

/// The lines that the first `n` pieces of a line of the document are drawn as.
pub open spec fn pieces_drawn(line: LineView, n: int) -> Seq<Seq<SpanView>>
    decreases n,
{
    if n <= 0 {
        Seq::empty()
    } else {
        pieces_drawn(line, n - 1).push(
            piece_drawn(line, pieces(line.text, '\n')[n - 1], n == 1),
        )
    }
}

/// The lines that the first `n` lines of the document are drawn as.
pub open spec fn document_drawn(lines: Seq<LineView>, n: int) -> Seq<Seq<SpanView>>
    decreases n,
{
    if n <= 0 {
        Seq::empty()
    } else {
        document_drawn(lines, n - 1) + pieces_drawn(
            lines[n - 1],
            pieces(lines[n - 1].text, '\n').len() as int,
        )
    }
}

/// What the pane is called.
pub open spec fn pane_title(detail: Option<DetailView>) -> Seq<char> {
    match detail {
        Some(detail) => " "@ + detail.column + " · "@ + detail.type_label + " "@,
        None => " cell "@,
    }
}

/// How far down a document is drawn from.
pub open spec fn scrolled_lines(offset: usize) -> u16 {
    if offset <= u16::MAX {
        offset as u16
    } else {
        u16::MAX
    }
}

/// A frame with a document on it, or with the words that there is none.
pub open spec fn detail_drawn(
    c: CanvasView,
    area: Rect,
    detail: Option<DetailView>,
    offset: usize,
) -> CanvasView {
    if area.empty() {
        c
    } else {
        let boxed = c.boxed(
            area,
            BorderKind::Plain,
            Style::colored(Color::DarkGray),
            Some(raw(pane_title(detail))),
        );
        let inside = area.bordered();
        match detail {
            None => boxed.said(inside, "no cell selected"@, Style::colored(Color::DarkGray)),
            Some(detail) => boxed.painted(
                PaintView::Text {
                    area: inside,
                    lines: document_drawn(detail.lines, detail.lines.len() as int),
                    style: Style::plain(),
                    overflow: Overflow::Wrap,
                    scroll: scrolled_lines(offset),
                },
            ),
        }
    }
}

/// The spans of one piece of a line.
fn piece_spans(line: &DetailLine, piece: &str, first: bool) -> (r: Line)
    ensures
        r@ == piece_drawn(line@, piece@, first),
{
    let mut indent: String = String::new();
    push_run(&mut indent, ' ', 2 * line.depth as usize);
    let margin: Span = Span::raw(indent);
    let ghost mut said = seq![margin@];
    let mut spans: Vec<Span> = vec![margin];
    proof {
        assert(run_of(' ', (2 * line@.depth) as nat) =~= said[0].text);
        assert(views(spans@) =~= said);
    }
    if first {
        if let Some(label) = &line.label {
            let mut text: String = copy_of(label.as_str());
            push_all(&mut text, ": ");
            let span: Span = Span::styled(text, Style::of(Color::Gray));
            let ghost label_view = span@;
            spans.push(span);
            proof {
                said = said.push(label_view);
                assert(views(spans@) =~= said);
            }
        }
    }
    proof {
        assert(said =~= seq![raw(run_of(' ', (2 * line@.depth) as nat))] + label_spans(
            line@.label,
            first,
        ));
    }
    let text: Span = Span::styled(replace(piece, '\t', "    "), style_for(line.kind));
    let ghost text_view = text@;
    spans.push(text);
    proof {
        assert(views(spans@) =~= said.push(text_view));
        assert(said.push(text_view) =~= piece_drawn(line@, piece@, first));
    }
    Line::of(spans)
}

/// The lines a document is drawn as.
fn document_lines(lines: &Vec<DetailLine>) -> (r: Vec<Line>)
    ensures
        views(r@) == document_drawn(line_views(lines@), lines@.len() as int),
{
    let mut out: Vec<Line> = Vec::new();
    let ghost all = line_views(lines@);
    proof {
        assert(views(out@) =~= document_drawn(all, 0));
    }
    let mut i: usize = 0;
    while i < lines.len()
        invariant
            i <= lines@.len(),
            all == line_views(lines@),
            views(out@) == document_drawn(all, i as int),
        decreases lines@.len() - i,
    {
        let line: &DetailLine = &lines[i];
        let cut: Vec<String> = split(line.text.as_str(), '\n');
        let ghost before = views(out@);
        proof {
            assert(all[i as int] == line@);
            assert(texts(cut@).len() == cut@.len());
            assert(before + pieces_drawn(line@, 0) =~= before);
        }
        let mut j: usize = 0;
        while j < cut.len()
            invariant
                j <= cut@.len(),
                texts(cut@) == pieces(line@.text, '\n'),
                views(out@) == before + pieces_drawn(line@, j as int),
            decreases cut@.len() - j,
        {
            proof {
                assert(texts(cut@)[j as int] == cut@[j as int]@);
            }
            let drawn: Line = piece_spans(line, cut[j].as_str(), j == 0);
            let ghost added = drawn@;
            let ghost was = views(out@);
            out.push(drawn);
            proof {
                assert(views(out@) =~= was.push(added));
                assert(was.push(added) =~= before + pieces_drawn(line@, j + 1));
            }
            j += 1;
        }
        i += 1;
    }
    out
}

/// Draw the document into `area`.
///
/// The pane takes what a value needs and no more: a line longer than the pane
/// wraps rather than being cut, because a value cut here has not been read —
/// which is the one thing this pane exists to prevent.
pub fn render(canvas: &mut Canvas, area: Rect, detail: Option<&RenderedDetail>, offset: usize)
    ensures
        final(canvas)@ == detail_drawn(
            old(canvas)@,
            area,
            match detail {
                Some(detail) => Some(detail@),
                None => None,
            },
            offset,
        ),
{
    if area.height == 0 || area.width == 0 {
        return ;
    }
    let mut title: String = String::new();
    match detail {
        Some(detail) => {
            push_all(&mut title, " ");
            push_all(&mut title, detail.column.as_str());
            push_all(&mut title, " · ");
            push_all(&mut title, detail.type_label.as_str());
            push_all(&mut title, " ");
            proof {
                assert(title@ =~= pane_title(Some(detail@)));
            }
        },
        None => {
            push_all(&mut title, " cell ");
            proof {
                assert(title@ =~= pane_title(None));
            }
        },
    }
    canvas.border(
        area,
        BorderKind::Plain,
        Style::of(Color::DarkGray),
        Some(Span::raw(title)),
    );
    let inside: Rect = area.inner();
    match detail {
        None => canvas.say(inside, "no cell selected", Style::of(Color::DarkGray)),
        Some(detail) => {
            let scroll: u16 = if offset <= 65535 {
                offset as u16
            } else {
                u16::MAX
            };
            canvas.paint(
                Paint::Text {
                    area: inside,
                    lines: document_lines(&detail.lines),
                    style: Style::new(),
                    overflow: Overflow::Wrap,
                    scroll,
                },
            );
        },
    }
}

} // verus!
