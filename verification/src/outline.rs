//! What a document laid out in lines says, held against the value.
//!
//! A line says how deep it sits, and that is all there is to tell what belongs
//! to what. What is proved here is that it is enough: read by its depths, the
//! document has the parts of the value, in their order and under their names,
//! and every part that has none of its own says what it is.

use crate::detail::{
    compacted, compacted_fields, compacted_items, document_drawn, element_lines, field_lines,
    item_lines, json_lines, member_lines, pane_title, piece_drawn, pieces_drawn, scalar_text,
    value_lines, DetailView, LineView, MAX_DEPTH,
};
use crate::grid::{cell_kind, cell_text, column_look, column_looks, sanitised_whole, CellKind};
use crate::json::{written, Json};
use crate::json_reader::{a_document_comes_back, doc_of, json_read, of_a_number, proper};
use crate::model::{PagedResult, Value};
use crate::shown::{
    a_cell_shows_its_text, a_cell_tells_its_value, a_pane_shows_its_text, bytes_are_told,
    cell_tells, is_there, shows, shows_whole, tells_bytes,
};
use crate::state::GridView;
use crate::text::{joined, pieces, replaced, run_of};
use vstd::prelude::*;

verus! {

// ── one line ───────────────────────────────────────────────────────────────

/// Whether a line's text tells a value that is not made of others, read for what
/// it is. Nothing is cut short here: a text is all its characters, and bytes are
/// spelled out by the thousand.
pub open spec fn line_tells(text: Seq<char>, value: Value) -> bool {
    match value {
        Value::Float(f) => shows_whole(text, f.plain@),
        Value::Decimal(s) => shows_whole(text, s@),
        Value::Text(s) => shows_whole(text, s@),
        Value::Bytes(bytes) => tells_bytes(text, bytes@, 1024),
        Value::Json(json) => exists|document: Seq<char>| #[trigger]
            shows_whole(text, document) && json_read(document) == Some(doc_of(json)),
        Value::Opaque { type_label, text: raw } => {
            let n = type_label@.len() as int;
            &&& text.len() == n + 2 + raw@.len()
            &&& shows_whole(text.take(n), type_label@)
            &&& text[n] == ':' && text[n + 1] == ' '
            &&& shows_whole(text.skip(n + 2), raw@)
        },
        // What is short enough for a cell reads alike in both.
        _ => cell_tells(text, value),
    }
}

/// A line tells its value.
pub proof fn a_line_tells_its_value(value: Value)
    requires
        is_there(value),
        !(value is Struct || value is Array),
    ensures
        line_tells(scalar_text(value), value),
{
    let text = scalar_text(value);
    match value {
        Value::Float(f) => a_pane_shows_its_text(f.plain@),
        Value::Decimal(s) => a_pane_shows_its_text(s@),
        Value::Text(s) => a_pane_shows_its_text(s@),
        Value::Bytes(bytes) => bytes_are_told(bytes@, 1024),
        Value::Json(json) => {
            a_pane_shows_its_text(written(json));
            a_document_comes_back(json);
            assert(shows_whole(text, written(json)));
        },
        Value::Opaque { type_label, text: raw } => {
            reveal_strlit(": ");
            a_pane_shows_its_text(type_label@);
            a_pane_shows_its_text(raw@);
            let n = type_label@.len() as int;
            assert(text.take(n) =~= sanitised_whole(type_label@));
            assert(text.skip(n + 2) =~= sanitised_whole(raw@));
        },
        _ => {
            a_cell_tells_its_value(value);
            assert(scalar_text(value) == cell_text(Some(value)));
        },
    }
}

/// A value that is not made of others takes one line, at its depth and under its
/// name, which tells it and is styled as its cell is.
pub proof fn a_plain_value_takes_one_line(value: Value, depth: int, label: Option<Seq<char>>)
    requires
        is_there(value),
        !(value is Struct || value is Array || value is Json),
    ensures
        ({
            let lines = value_lines(value, depth, label);
            &&& lines.len() == 1
            &&& lines[0].depth == depth && lines[0].label == label
            &&& line_tells(lines[0].text, value)
            &&& lines[0].kind == cell_kind(Some(value))
        }),
{
    a_line_tells_its_value(value);
}

/// A JSON value that is not made of others takes one line, at its depth and
/// under its name: a string says its characters, and every other says the
/// document it is — `true` is true, `false` is false, a null is a null and a
/// number has its digits.
pub proof fn a_plain_document_takes_one_line(json: Json, depth: int, label: Option<Seq<char>>)
    requires
        !(json is Object || json is Array),
        proper(json),
    ensures
        ({
            let lines = json_lines(json, depth, label);
            &&& lines.len() == 1
            &&& lines[0].depth == depth && lines[0].label == label
            &&& match json {
                Json::Text(s) => shows_whole(lines[0].text, s@) && lines[0].kind == CellKind::Text,
                _ => {
                    &&& lines[0].text == written(json)
                    &&& json_read(lines[0].text) == Some(doc_of(json))
                    &&& lines[0].kind == match json {
                        Json::Null => CellKind::Null,
                        Json::Number(_) => CellKind::Number,
                        _ => CellKind::Text,
                    }
                },
            }
        }),
{
    match json {
        Json::Text(s) => a_pane_shows_its_text(s@),
        Json::Number(digits) => {
            a_document_comes_back(json);
            a_pane_shows_its_text(digits@);
            assert(sanitised_whole(digits@) =~= digits@) by {
                assert forall|i: int| 0 <= i < digits@.len() implies sanitised_whole(digits@)[i]
                    == digits@[i] by {
                    assert(of_a_number(digits@[i]));
                }
            }
        },
        _ => a_document_comes_back(json),
    }
}

/// A document that is not followed — an empty one, or one at the depth where
/// following ends — takes one line, which says all of it.
pub proof fn a_document_that_is_not_followed_is_said_whole(
    json: Json,
    depth: int,
    label: Option<Seq<char>>,
)
    requires
        proper(json),
        json matches Json::Object(members) ==> depth >= 12 || members@.len() == 0,
        json matches Json::Array(items) ==> depth >= 12 || items@.len() == 0,
        json is Object || json is Array,
    ensures
        ({
            let lines = json_lines(json, depth, label);
            &&& lines.len() == 1
            &&& lines[0].depth == depth && lines[0].label == label
            &&& lines[0].kind == CellKind::Complex
            &&& line_tells(lines[0].text, Value::Json(json))
        }),
{
    a_line_tells_its_value(Value::Json(json));
}

// ── what belongs to what ───────────────────────────────────────────────────

/// Lines cut into blocks, each beginning with a line no deeper than `depth` and
/// going on with the deeper ones behind it.
pub open spec fn blocks(lines: Seq<LineView>, depth: int) -> Seq<Seq<LineView>>
    decreases lines.len(),
{
    if lines.len() == 0 {
        Seq::empty()
    } else {
        let before = blocks(lines.drop_last(), depth);
        if lines.last().depth <= depth || before.len() == 0 {
            before.push(seq![lines.last()])
        } else {
            before.drop_last().push(before.last().push(lines.last()))
        }
    }
}

/// One block: a line at `depth`, and only deeper ones behind it.
spec fn one_block(lines: Seq<LineView>, depth: int) -> bool {
    lines.len() > 0 && lines[0].depth == depth && forall|i: int|
        1 <= i < lines.len() ==> (#[trigger] lines[i]).depth > depth
}

proof fn a_block_more(a: Seq<LineView>, b: Seq<LineView>, depth: int)
    requires
        one_block(b, depth),
    ensures
        blocks(a + b, depth) == blocks(a, depth).push(b),
    decreases b.len(),
{
    let all = a + b;
    assert(all.drop_last() =~= a + b.drop_last());
    assert(all.last() == b.last());
    if b.len() == 1 {
        assert(a + b.drop_last() =~= a);
        assert(b =~= seq![b[0]]);
    } else {
        let start = b.drop_last();
        assert forall|i: int| 1 <= i < start.len() implies (#[trigger] start[i]).depth > depth by {
            assert(start[i] == b[i]);
        }
        assert(start[0] == b[0]);
        a_block_more(a, start, depth);
        assert(b.last() == b[b.len() - 1]);
        let before = blocks(a, depth).push(start);
        assert(before.drop_last() =~= blocks(a, depth));
        assert(start.push(b.last()) =~= b);
    }
}

proof fn a_document_is_one_block(json: Json, depth: int, label: Option<Seq<char>>)
    ensures
        one_block(json_lines(json, depth, label), depth),
        json_lines(json, depth, label)[0].label == label,
    decreases json,
{
    match json {
        Json::Object(members) => if depth < MAX_DEPTH && members@.len() > 0 {
            members_sit_deeper(members@, depth + 1);
        },
        Json::Array(items) => if depth < MAX_DEPTH && items@.len() > 0 {
            elements_sit_deeper(items@, depth + 1);
        },
        _ => {},
    }
}

/// Lines none of which sits above a depth.
spec fn none_above(lines: Seq<LineView>, depth: int) -> bool {
    forall|i: int| 0 <= i < lines.len() ==> (#[trigger] lines[i]).depth >= depth
}

proof fn members_sit_deeper(members: Seq<(String, Json)>, depth: int)
    ensures
        none_above(member_lines(members, depth), depth),
    decreases members,
{
    if members.len() > 0 {
        members_sit_deeper(members.drop_last(), depth);
        a_document_is_one_block(
            members.last().1,
            depth,
            Some(sanitised_whole(members.last().0@)),
        );
    }
}

proof fn elements_sit_deeper(items: Seq<Json>, depth: int)
    ensures
        none_above(element_lines(items, depth), depth),
    decreases items,
{
    if items.len() > 0 {
        elements_sit_deeper(items.drop_last(), depth);
        a_document_is_one_block(items.last(), depth, None);
    }
}

proof fn a_value_is_one_block(value: Value, depth: int, label: Option<Seq<char>>)
    ensures
        one_block(value_lines(value, depth, label), depth),
        value_lines(value, depth, label)[0].label == label,
    decreases value,
{
    match value {
        Value::Struct(fields) => if depth < MAX_DEPTH && fields@.len() > 0 {
            fields_sit_deeper(fields@, depth + 1);
        },
        Value::Array(items) => if depth < MAX_DEPTH && items@.len() > 0 {
            items_sit_deeper(items@, depth + 1);
        },
        Value::Json(json) => a_document_is_one_block(json, depth, label),
        _ => {},
    }
}

proof fn fields_sit_deeper(fields: Seq<(String, Value)>, depth: int)
    ensures
        none_above(field_lines(fields, depth), depth),
    decreases fields,
{
    if fields.len() > 0 {
        fields_sit_deeper(fields.drop_last(), depth);
        a_value_is_one_block(fields.last().1, depth, Some(sanitised_whole(fields.last().0@)));
    }
}

proof fn items_sit_deeper(items: Seq<Value>, depth: int)
    ensures
        none_above(item_lines(items, depth), depth),
    decreases items,
{
    if items.len() > 0 {
        items_sit_deeper(items.drop_last(), depth);
        a_value_is_one_block(items.last(), depth, None);
    }
}

/// Whether a block of lines is a member of an object: under its name, and with
/// the lines of its value.
pub open spec fn is_member(block: Seq<LineView>, name: Seq<char>, json: Json, depth: int) -> bool {
    &&& block.len() > 0
    &&& block[0].label matches Some(label) && shows_whole(label, name)
    &&& block == json_lines(json, depth, block[0].label)
}

/// The same for a field of a struct.
pub open spec fn is_field(block: Seq<LineView>, name: Seq<char>, value: Value, depth: int) -> bool {
    &&& block.len() > 0
    &&& block[0].label matches Some(label) && shows_whole(label, name)
    &&& block == value_lines(value, depth, block[0].label)
}

/// The line above what a value is made of: at its depth and under its name, with
/// nothing else on it.
pub open spec fn opens(line: LineView, depth: int, label: Option<Seq<char>>) -> bool {
    line.depth == depth && line.label == label && line.text.len() == 0 && line.kind
        == CellKind::Complex
}

proof fn members_are_blocks(members: Seq<(String, Json)>, depth: int)
    ensures
        blocks(member_lines(members, depth), depth).len() == members.len(),
        forall|k: int|
            0 <= k < members.len() ==> is_member(
                #[trigger] blocks(member_lines(members, depth), depth)[k],
                members[k].0@,
                members[k].1,
                depth,
            ),
    decreases members,
{
    if members.len() > 0 {
        let before = members.drop_last();
        let (name, json) = members.last();
        let label = Some(sanitised_whole(name@));
        let block = json_lines(json, depth, label);
        members_are_blocks(before, depth);
        a_document_is_one_block(json, depth, label);
        a_pane_shows_its_text(name@);
        a_block_more(member_lines(before, depth), block, depth);
        let all = blocks(member_lines(members, depth), depth);
        assert forall|k: int| 0 <= k < members.len() implies is_member(
            #[trigger] all[k],
            members[k].0@,
            members[k].1,
            depth,
        ) by {
            if k < before.len() {
                assert(all[k] == blocks(member_lines(before, depth), depth)[k]);
                assert(before[k] == members[k]);
            } else {
                assert(all[k] == block);
            }
        }
    }
}

proof fn elements_are_blocks(items: Seq<Json>, depth: int)
    ensures
        blocks(element_lines(items, depth), depth).len() == items.len(),
        forall|k: int|
            0 <= k < items.len() ==> #[trigger] blocks(element_lines(items, depth), depth)[k]
                == json_lines(items[k], depth, None),
    decreases items,
{
    if items.len() > 0 {
        let before = items.drop_last();
        let block = json_lines(items.last(), depth, None);
        elements_are_blocks(before, depth);
        a_document_is_one_block(items.last(), depth, None);
        a_block_more(element_lines(before, depth), block, depth);
        let all = blocks(element_lines(items, depth), depth);
        assert forall|k: int| 0 <= k < items.len() implies #[trigger] all[k] == json_lines(
            items[k],
            depth,
            None,
        ) by {
            if k < before.len() {
                assert(all[k] == blocks(element_lines(before, depth), depth)[k]);
                assert(before[k] == items[k]);
            }
        }
    }
}

proof fn fields_are_blocks(fields: Seq<(String, Value)>, depth: int)
    ensures
        blocks(field_lines(fields, depth), depth).len() == fields.len(),
        forall|k: int|
            0 <= k < fields.len() ==> is_field(
                #[trigger] blocks(field_lines(fields, depth), depth)[k],
                fields[k].0@,
                fields[k].1,
                depth,
            ),
    decreases fields,
{
    if fields.len() > 0 {
        let before = fields.drop_last();
        let (name, value) = fields.last();
        let label = Some(sanitised_whole(name@));
        let block = value_lines(value, depth, label);
        fields_are_blocks(before, depth);
        a_value_is_one_block(value, depth, label);
        a_pane_shows_its_text(name@);
        a_block_more(field_lines(before, depth), block, depth);
        let all = blocks(field_lines(fields, depth), depth);
        assert forall|k: int| 0 <= k < fields.len() implies is_field(
            #[trigger] all[k],
            fields[k].0@,
            fields[k].1,
            depth,
        ) by {
            if k < before.len() {
                assert(all[k] == blocks(field_lines(before, depth), depth)[k]);
                assert(before[k] == fields[k]);
            } else {
                assert(all[k] == block);
            }
        }
    }
}

proof fn items_are_blocks(items: Seq<Value>, depth: int)
    ensures
        blocks(item_lines(items, depth), depth).len() == items.len(),
        forall|k: int|
            0 <= k < items.len() ==> #[trigger] blocks(item_lines(items, depth), depth)[k]
                == value_lines(items[k], depth, None),
    decreases items,
{
    if items.len() > 0 {
        let before = items.drop_last();
        let block = value_lines(items.last(), depth, None);
        items_are_blocks(before, depth);
        a_value_is_one_block(items.last(), depth, None);
        a_block_more(item_lines(before, depth), block, depth);
        let all = blocks(item_lines(items, depth), depth);
        assert forall|k: int| 0 <= k < items.len() implies #[trigger] all[k] == value_lines(
            items[k],
            depth,
            None,
        ) by {
            if k < before.len() {
                assert(all[k] == blocks(item_lines(before, depth), depth)[k]);
                assert(before[k] == items[k]);
            }
        }
    }
}

/// A document above the depth where following ends is followed: below the line
/// that opens it stand its members, or its elements, each once and in their
/// order, one level deeper, a member under its name and an element under none.
pub proof fn a_document_is_followed(json: Json, depth: int, label: Option<Seq<char>>)
    requires
        depth < 12,
    ensures
        json matches Json::Object(members) ==> members@.len() > 0 ==> {
            let lines = json_lines(json, depth, label);
            let parts = blocks(lines.drop_first(), depth + 1);
            &&& opens(lines[0], depth, label)
            &&& parts.len() == members@.len()
            &&& forall|k: int|
                0 <= k < parts.len() ==> is_member(
                    #[trigger] parts[k],
                    members@[k].0@,
                    members@[k].1,
                    depth + 1,
                )
        },
        json matches Json::Array(items) ==> items@.len() > 0 ==> {
            let lines = json_lines(json, depth, label);
            let parts = blocks(lines.drop_first(), depth + 1);
            &&& opens(lines[0], depth, label)
            &&& parts.len() == items@.len()
            &&& forall|k: int|
                0 <= k < parts.len() ==> #[trigger] parts[k] == json_lines(
                    items@[k],
                    depth + 1,
                    None,
                )
        },
{
    let lines = json_lines(json, depth, label);
    match json {
        Json::Object(members) => if members@.len() > 0 {
            members_are_blocks(members@, depth + 1);
            assert(lines.drop_first() =~= member_lines(members@, depth + 1));
        },
        Json::Array(items) => if items@.len() > 0 {
            elements_are_blocks(items@, depth + 1);
            assert(lines.drop_first() =~= element_lines(items@, depth + 1));
        },
        _ => {},
    }
}

/// A struct or an array above the depth where following ends is followed in the
/// same way; and a document in a value is followed as a document.
pub proof fn a_value_is_followed(value: Value, depth: int, label: Option<Seq<char>>)
    requires
        depth < 12,
    ensures
        value matches Value::Struct(fields) ==> fields@.len() > 0 ==> {
            let lines = value_lines(value, depth, label);
            let parts = blocks(lines.drop_first(), depth + 1);
            &&& opens(lines[0], depth, label)
            &&& parts.len() == fields@.len()
            &&& forall|k: int|
                0 <= k < parts.len() ==> is_field(
                    #[trigger] parts[k],
                    fields@[k].0@,
                    fields@[k].1,
                    depth + 1,
                )
        },
        value matches Value::Array(items) ==> items@.len() > 0 ==> {
            let lines = value_lines(value, depth, label);
            let parts = blocks(lines.drop_first(), depth + 1);
            &&& opens(lines[0], depth, label)
            &&& parts.len() == items@.len()
            &&& forall|k: int|
                0 <= k < parts.len() ==> #[trigger] parts[k] == value_lines(
                    items@[k],
                    depth + 1,
                    None,
                )
        },
        value matches Value::Json(json) ==> value_lines(value, depth, label) == json_lines(
            json,
            depth,
            label,
        ),
{
    let lines = value_lines(value, depth, label);
    match value {
        Value::Struct(fields) => if fields@.len() > 0 {
            fields_are_blocks(fields@, depth + 1);
            assert(lines.drop_first() =~= field_lines(fields@, depth + 1));
        },
        Value::Array(items) => if items@.len() > 0 {
            items_are_blocks(items@, depth + 1);
            assert(lines.drop_first() =~= item_lines(items@, depth + 1));
        },
        _ => {},
    }
}

// ── on one line ────────────────────────────────────────────────────────────

proof fn one_more_is_joined(parts: Seq<Seq<char>>, part: Seq<char>, sep: Seq<char>)
    ensures
        joined(parts.push(part), sep) == if parts.len() == 0 {
            part
        } else {
            joined(parts, sep) + sep + part
        },
{
    assert(parts.push(part).drop_last() =~= parts);
}

/// Whether a part of a line is a field of a struct: its name, a colon, and its
/// value on the same line.
pub open spec fn names(part: Seq<char>, name: Seq<char>, said: Seq<char>) -> bool {
    let n = name.len() as int;
    &&& part.len() == n + 2 + said.len()
    &&& shows_whole(part.take(n), name)
    &&& part[n] == ':' && part[n + 1] == ' '
    &&& part.skip(n + 2) == said
}

/// Parts one after the other, with a comma and a space between each two.
pub open spec fn listed(parts: Seq<Seq<char>>) -> Seq<char> {
    joined(parts, seq![',', ' '])
}

spec fn field_parts(fields: Seq<(String, Value)>, budget: int) -> Seq<Seq<char>> {
    Seq::new(
        fields.len(),
        |k: int| sanitised_whole(fields[k].0@) + ": "@ + compacted(fields[k].1, budget),
    )
}

proof fn fields_are_joined(fields: Seq<(String, Value)>, budget: int)
    ensures
        compacted_fields(fields, budget) == joined(field_parts(fields, budget), ", "@),
    decreases fields.len(),
{
    if fields.len() > 0 {
        let before = fields.drop_last();
        fields_are_joined(before, budget);
        let part = sanitised_whole(fields.last().0@) + ": "@ + compacted(fields.last().1, budget);
        assert(field_parts(fields, budget) =~= field_parts(before, budget).push(part));
        one_more_is_joined(field_parts(before, budget), part, ", "@);
    }
}

spec fn item_parts(items: Seq<Value>, budget: int) -> Seq<Seq<char>> {
    Seq::new(items.len(), |k: int| compacted(items[k], budget))
}

proof fn items_are_joined(items: Seq<Value>, budget: int)
    ensures
        compacted_items(items, budget) == joined(item_parts(items, budget), ", "@),
    decreases items.len(),
{
    if items.len() > 0 {
        let before = items.drop_last();
        items_are_joined(before, budget);
        let part = compacted(items.last(), budget);
        assert(item_parts(items, budget) =~= item_parts(before, budget).push(part));
        one_more_is_joined(item_parts(before, budget), part, ", "@);
    }
}

/// On one line too a value has its parts, each once and in their order: a struct
/// its fields under their names, an array its elements; a count stands for them
/// where the line has followed as many levels as it does, and every other value
/// says what it is.
pub proof fn a_value_on_one_line_has_its_parts(value: Value, budget: int)
    requires
        is_there(value),
    ensures
        match value {
            Value::Struct(fields) => if budget > 0 {
                exists|parts: Seq<Seq<char>>|
                    {
                        &&& compacted(value, budget) == seq!['{'] + #[trigger] listed(parts) + seq!['}']
                        &&& parts.len() == fields@.len()
                        &&& forall|k: int|
                            0 <= k < parts.len() ==> names(
                                #[trigger] parts[k],
                                fields@[k].0@,
                                compacted(fields@[k].1, budget - 1),
                            )
                    }
            } else {
                cell_tells(compacted(value, budget), value)
            },
            Value::Array(items) => if budget > 0 {
                exists|parts: Seq<Seq<char>>|
                    {
                        &&& compacted(value, budget) == seq!['['] + #[trigger] listed(parts) + seq![']']
                        &&& parts.len() == items@.len()
                        &&& forall|k: int|
                            0 <= k < parts.len() ==> #[trigger] parts[k] == compacted(
                                items@[k],
                                budget - 1,
                            )
                    }
            } else {
                cell_tells(compacted(value, budget), value)
            },
            _ => line_tells(compacted(value, budget), value),
        },
{
    reveal_strlit(", ");
    reveal_strlit(": ");
    assert(", "@ =~= seq![',', ' ']);
    match value {
        Value::Struct(fields) => if budget > 0 {
            fields_are_joined(fields@, budget - 1);
            let parts = field_parts(fields@, budget - 1);
            assert forall|k: int| 0 <= k < parts.len() implies names(
                #[trigger] parts[k],
                fields@[k].0@,
                compacted(fields@[k].1, budget - 1),
            ) by {
                let n = fields@[k].0@.len() as int;
                a_pane_shows_its_text(fields@[k].0@);
                assert(parts[k].take(n) =~= sanitised_whole(fields@[k].0@));
                assert(parts[k].skip(n + 2) =~= compacted(fields@[k].1, budget - 1));
            }
            assert(compacted(value, budget) == seq!['{'] + listed(parts) + seq![
                '}',
            ]);
        } else {
            a_cell_tells_its_value(value);
        },
        Value::Array(items) => if budget > 0 {
            items_are_joined(items@, budget - 1);
            let parts = item_parts(items@, budget - 1);
            assert(compacted(value, budget) == seq!['['] + listed(parts) + seq![
                ']',
            ]);
        } else {
            a_cell_tells_its_value(value);
        },
        _ => a_line_tells_its_value(value),
    }
}

/// A struct or an array that is not followed — an empty one, or one at the depth
/// where following ends — takes one line, with what it holds on it eight levels
/// down.
pub proof fn a_value_that_is_not_followed_takes_one_line(
    value: Value,
    depth: int,
    label: Option<Seq<char>>,
)
    requires
        value is Struct || value is Array,
        value matches Value::Struct(fields) ==> depth >= 12 || fields@.len() == 0,
        value matches Value::Array(items) ==> depth >= 12 || items@.len() == 0,
    ensures
        ({
            let lines = value_lines(value, depth, label);
            &&& lines.len() == 1
            &&& lines[0].depth == depth && lines[0].label == label
            &&& lines[0].kind == CellKind::Complex
            &&& lines[0].text == compacted(value, 8)
        }),
{
}

// ── on the screen ──────────────────────────────────────────────────────────

proof fn a_line_takes_a_line_for_each_of_its_own(line: LineView, n: int, j: int)
    requires
        0 <= n <= pieces(line.text, '\n').len(),
    ensures
        pieces_drawn(line, n).len() == n,
        0 <= j < n ==> pieces_drawn(line, n)[j] == piece_drawn(
            line,
            pieces(line.text, '\n')[j],
            j == 0,
        ),
    decreases n,
{
    if n > 0 {
        a_line_takes_a_line_for_each_of_its_own(line, n - 1, j);
    }
}

/// Where the first line of the `n`th line of a document is drawn.
pub open spec fn drawn_from(lines: Seq<LineView>, n: int) -> int
    decreases n,
{
    if n <= 0 {
        0
    } else {
        drawn_from(lines, n - 1) + pieces(lines[n - 1].text, '\n').len()
    }
}

proof fn a_document_takes_as_many_lines(lines: Seq<LineView>, n: int)
    requires
        0 <= n <= lines.len(),
    ensures
        document_drawn(lines, n).len() == drawn_from(lines, n),
    decreases n,
{
    if n > 0 {
        a_document_takes_as_many_lines(lines, n - 1);
        let all = pieces(lines[n - 1].text, '\n').len() as int;
        a_line_takes_a_line_for_each_of_its_own(lines[n - 1], all, 0);
    }
}

/// Every line of a document is on the screen in its order, two columns further in
/// for every level it is deep: its name before the first line of it and on no
/// other, and its text line by line, with tabs spent as spaces.
pub proof fn a_document_is_on_the_screen(lines: Seq<LineView>, n: int, k: int, j: int)
    requires
        0 <= k < n <= lines.len(),
        0 <= j < pieces(lines[k].text, '\n').len(),
        0 <= lines[k].depth,
    ensures
        ({
            let line = lines[k];
            let at = drawn_from(lines, k) + j;
            let spans = document_drawn(lines, n)[at];
            &&& 0 <= at < document_drawn(lines, n).len()
            &&& spans[0].text.len() == 2 * line.depth
            &&& forall|i: int| 0 <= i < spans[0].text.len() ==> #[trigger] spans[0].text[i] == ' '
            &&& spans.last().text == replaced(pieces(line.text, '\n')[j], '\t', "    "@)
            &&& match line.label {
                Some(name) if j == 0 => spans.len() == 3 && spans[1].text == name + ": "@,
                _ => spans.len() == 2,
            }
        }),
    decreases n,
{
    let line = lines[n - 1];
    let count = pieces(line.text, '\n').len() as int;
    a_document_takes_as_many_lines(lines, n - 1);
    a_document_takes_as_many_lines(lines, n);
    if k == n - 1 {
        a_line_takes_a_line_for_each_of_its_own(line, count, j);
        assert(document_drawn(lines, n)[drawn_from(lines, k) + j] == pieces_drawn(line, count)[j]);
        let spans = pieces_drawn(line, count)[j];
        assert(spans == piece_drawn(line, pieces(line.text, '\n')[j], j == 0));
        assert(spans[0].text == run_of(' ', (2 * line.depth) as nat));
    } else {
        a_document_is_on_the_screen(lines, n - 1, k, j);
        a_line_takes_a_line_for_each_of_its_own(line, count, 0);
        assert(document_drawn(lines, n)[drawn_from(lines, k) + j] == document_drawn(
            lines,
            n - 1,
        )[drawn_from(lines, k) + j]);
    }
}

/// What the pane of a document is called is the column the value is in and the
/// type it is of.
pub proof fn a_document_is_called_by_its_column(detail: DetailView)
    ensures
        ({
            let title = pane_title(Some(detail));
            let n = detail.column.len() as int;
            &&& title.subrange(1, n + 1) == detail.column
            &&& title.subrange(n + 4, title.len() - 1) == detail.type_label
        }),
{
    reveal_strlit(" ");
    reveal_strlit(" · ");
    let title = pane_title(Some(detail));
    let n = detail.column.len() as int;
    assert(title.subrange(1, n + 1) =~= detail.column);
    assert(title.subrange(n + 4, title.len() - 1) =~= detail.type_label);
}

/// The document that is read closely is of the selected cell: its column's name
/// and type, and the lines of its value.
pub proof fn the_selected_cell_is_read_closely(grid: GridView, rows: PagedResult, value: Value)
    requires
        grid.shown == Some(rows),
        grid.col < rows.columns@.len(),
        rows.value_at(grid.row as int, grid.col as int) == Some(value),
    ensures
        grid.read_closely() matches Some(detail) && {
            &&& shows(detail.column, rows.columns@[grid.col as int].name@)
            &&& shows(detail.type_label, rows.columns@[grid.col as int].type_label@)
            &&& detail.lines == value_lines(value, 0, None)
        },
{
    a_cell_shows_its_text(rows.columns@[grid.col as int].name@);
    a_cell_shows_its_text(rows.columns@[grid.col as int].type_label@);
    assert(column_looks(rows)[grid.col as int] == column_look(rows, grid.col as int));
}

} // verus!
