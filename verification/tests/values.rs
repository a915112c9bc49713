//! How values read: in a grid, in a copy, in a definition and in the history.

use std::sync::atomic::{AtomicU64, Ordering};
use std::sync::Arc;

use sqlake_tui::clock::{Date, Moment, Time, UtcOffset};
use sqlake_tui::copy::{render as copied_as, sequence, Format, Refused, MAX_PAYLOAD_BYTES};
use sqlake_tui::definition::{is_statement, section_count, summary, Laid};
use sqlake_tui::grid::{
    is_bidi_control, Align, CellKind, RenderedGrid, MAX_CELL_CHARS, MAX_WIDTH, MIN_WIDTH,
    NULL_GLYPH, WIDTH_SAMPLE_ROWS,
};
use sqlake_tui::history::{ago, one_line, rows as history_rows, took};
use sqlake_tui::ids::{Edition, RunId};
use sqlake_tui::json::Json;
use sqlake_tui::model::{
    Column, ColumnDetail, Datum, Float, HistoryEntry, PagedResult, Row, Section, TableDetail, Value,
};
use sqlake_tui::sql::line_count;
use sqlake_tui::ui::bytes;

static EDITIONS: AtomicU64 = AtomicU64::new(1);

/// Rows are told apart by when they were fetched, so no two results here share
/// an edition.
fn edition() -> Edition {
    Edition(EDITIONS.fetch_add(1, Ordering::Relaxed))
}

fn number(digits: &str) -> Json {
    Json::Number(digits.to_owned())
}

fn float(x: f64) -> Value {
    Value::Float(Float {
        bits: x.to_bits(),
        plain: format!("{x}"),
        scientific: format!("{x:e}"),
    })
}

fn json_of(value: &Value) -> Json {
    match value {
        Value::Null => Json::Null,
        Value::Bool(b) => Json::Bool(*b),
        Value::Int(i) => Json::Number(i.to_string()),
        Value::Decimal(s) | Value::Text(s) => Json::Text(s.clone()),
        Value::Array(items) => Json::Array(items.iter().map(json_of).collect()),
        Value::Struct(fields) => {
            Json::Object(fields.iter().map(|(n, v)| (n.clone(), json_of(v))).collect())
        }
        _ => Json::Text(String::new()),
    }
}

fn datum(value: Value) -> Datum {
    let json = json_of(&value);
    Datum { value, json }
}

fn row(values: Vec<Value>) -> Row {
    Row(values.into_iter().map(datum).collect())
}

fn result(columns: Vec<Column>, rows: Vec<Row>) -> PagedResult {
    PagedResult::new(edition(), columns, rows, None)
}

fn grid(columns: Vec<Column>, rows: Vec<Row>) -> RenderedGrid {
    RenderedGrid::new(Arc::new(result(columns, rows)))
}

fn one(value: Value) -> RenderedGrid {
    grid(vec![Column::new("v", "any", true)], vec![row(vec![value])])
}

fn text_of(value: Value) -> String {
    one(value).cell(0, 0).text
}

// ── cells ──────────────────────────────────────────────────────────────────

#[test]
fn null_is_visible_and_distinct_from_an_empty_string() {
    assert_eq!(text_of(Value::Null), NULL_GLYPH.to_string());
    assert_eq!(text_of(Value::Text(String::new())), "");
}

#[test]
fn a_missing_cell_reads_as_null_rather_than_panicking() {
    // Ragged rows should never take the process down.
    let g = grid(
        vec![
            Column::new("a", "int", false),
            Column::new("b", "int", true),
        ],
        vec![row(vec![Value::Int(1)])],
    );
    assert_eq!(g.cell(0, 1).text, NULL_GLYPH.to_string());
    assert_eq!(g.cell(99, 0).text, NULL_GLYPH.to_string());
}

#[test]
fn control_characters_never_reach_the_terminal() {
    let out = text_of(Value::Text("line one\nline two\tafter".into()));
    assert!(!out.contains('\n'), "{out:?}");
    assert!(!out.contains('\t'), "{out:?}");
    assert_eq!(out, "line one␊line two␉after");
}

#[test]
fn very_long_text_is_truncated() {
    let out = text_of(Value::Text("x".repeat(10_000)));
    assert_eq!(out.chars().count(), MAX_CELL_CHARS + 1);
    assert!(out.ends_with('…'));
}

#[test]
fn width_is_measured_in_display_columns_not_characters() {
    // Seven CJK characters occupy fourteen terminal columns.
    let g = grid(
        vec![Column::new("s", "text", false)],
        vec![row(vec![Value::Text("こんにちは世界".into())])],
    );
    assert_eq!(g.columns()[0].natural_width, 14);
}

#[test]
fn fullwidth_latin_is_also_double_width() {
    let g = grid(
        vec![Column::new("s", "text", false)],
        vec![row(vec![Value::Text("ＡＢＣ".into())])],
    );
    assert_eq!(g.columns()[0].natural_width, 6);
}

#[test]
fn the_header_sets_a_floor_on_the_width() {
    let g = grid(
        vec![Column::new("a_very_long_column_name", "int", false)],
        vec![row(vec![Value::Int(1)])],
    );
    assert_eq!(g.columns()[0].natural_width, 23);
}

#[test]
fn widths_are_clamped_at_both_ends() {
    let narrow = grid(
        vec![Column::new("a", "int", false)],
        vec![row(vec![Value::Int(1)])],
    );
    assert_eq!(narrow.columns()[0].natural_width, MIN_WIDTH);

    let huge = grid(
        vec![Column::new("a", "text", false)],
        vec![row(vec![Value::Text("x".repeat(500))])],
    );
    assert_eq!(huge.columns()[0].natural_width, MAX_WIDTH);
}

#[test]
fn only_sampled_rows_influence_the_width() {
    let mut rows: Vec<Row> = (0..WIDTH_SAMPLE_ROWS)
        .map(|_| row(vec![Value::Text("short".into())]))
        .collect();
    rows.push(row(vec![Value::Text("x".repeat(50))]));
    let g = grid(vec![Column::new("a", "text", false)], rows);
    assert_eq!(g.columns()[0].natural_width, 5);
}

#[test]
fn numeric_columns_are_right_aligned() {
    let nums = grid(
        vec![Column::new("n", "int", true)],
        vec![row(vec![Value::Int(1)]), row(vec![Value::Null])],
    );
    assert_eq!(nums.columns()[0].align, Align::Right);

    // One non-numeric value is enough to make the column textual.
    let mixed = grid(
        vec![Column::new("n", "any", true)],
        vec![row(vec![Value::Int(1)]), row(vec![Value::Text("x".into())])],
    );
    assert_eq!(mixed.columns()[0].align, Align::Left);
}

#[test]
fn an_all_null_column_is_left_aligned() {
    let g = grid(
        vec![Column::new("n", "int", true)],
        vec![row(vec![Value::Null])],
    );
    assert_eq!(g.columns()[0].align, Align::Left);
}

#[test]
fn composite_values_collapse_to_a_summary() {
    assert_eq!(
        text_of(Value::Array(vec![Value::Int(1), Value::Int(2)])),
        "[2 items]"
    );
    assert_eq!(
        text_of(Value::Struct(vec![("a".into(), Value::Int(1))])),
        "{1 fields}"
    );
    assert_eq!(one(Value::Array(vec![])).cell(0, 0).kind, CellKind::Complex);
}

#[test]
fn unknown_types_show_their_text_or_their_name() {
    assert_eq!(
        text_of(Value::Opaque {
            type_label: "geometry".into(),
            text: "POINT(0 0)".into(),
        }),
        "POINT(0 0)"
    );
    assert_eq!(
        text_of(Value::Opaque {
            type_label: "unknown_oid_1".into(),
            text: String::new(),
        }),
        "<unknown_oid_1>"
    );
}

#[test]
fn non_finite_floats_are_readable() {
    assert_eq!(text_of(float(f64::NAN)), "NaN");
    assert_eq!(text_of(float(f64::INFINITY)), "∞");
    assert_eq!(text_of(float(f64::NEG_INFINITY)), "-∞");
}

#[test]
fn huge_decimals_keep_every_digit() {
    let s = "-99999999999999999999999999999999.99999999";
    assert_eq!(text_of(Value::Decimal(s.into())), s);
}

#[test]
fn bytes_are_shown_as_a_prefix_with_a_length() {
    assert_eq!(text_of(Value::Bytes(vec![0x00, 0xff])), "0x00ff");
    let long = text_of(Value::Bytes((0..32).collect()));
    assert!(long.starts_with("0x0001"), "{long}");
    assert!(long.ends_with("(32 bytes)"), "{long}");
}

#[test]
fn temporal_values_render_without_panicking() {
    assert_eq!(text_of(Value::Date(Date::new(2026, 2).unwrap())), "2026-01-02");
    assert_eq!(text_of(Value::Time(Time::new(10, 30, 0, 0).unwrap())), "10:30:00.0");
    assert!(text_of(Value::Timestamp { date: Date::new(2026, 2).unwrap(), time: Time::new(10, 30, 0, 0).unwrap() }).starts_with("2026-01-02"));
    assert!(
        text_of(Value::TimestampTz {
            date: Date::new(2026, 2).unwrap(),
            time: Time::new(10, 30, 0, 0).unwrap(),
            offset: UtcOffset::new(0, 0, 0).unwrap(),
        }).starts_with("2026-01-02")
    );
}

#[test]
fn a_grid_is_recognised_as_belonging_to_its_rows() {
    let rows = Arc::new(result(
        vec![Column::new("v", "any", true)],
        vec![row(vec![Value::Int(1)])],
    ));
    let g = RenderedGrid::new(Arc::clone(&rows));
    assert!(g.is_for(&rows));

    // A snapshot arriving for an unrelated reason must not cost a rebuild,
    // and rebuilding would make the columns twitch as pages land.
    let other = Arc::new(result(
        vec![Column::new("v", "any", true)],
        vec![row(vec![Value::Int(1)])],
    ));
    assert!(!g.is_for(&other));
}

#[test]
fn widths_survive_a_page_arriving() {
    let width = grid(
        vec![Column::new("v", "text", false)],
        vec![row(vec![Value::Text("short".into())])],
    )
    .columns()[0]
        .natural_width;

    let mut both = result(
        vec![Column::new("v", "text", false)],
        vec![
            row(vec![Value::Text("short".into())]),
            row(vec![Value::Text("a much longer value".into())]),
        ],
    );
    both.first_page = 1;
    let grown = RenderedGrid::new(Arc::new(both));
    // A column that resized itself every time a page landed would be
    // unusable, so the sample is the first page and nothing else — even
    // though the second page is wider and the first is far short of
    // `WIDTH_SAMPLE_ROWS`.
    assert_eq!(grown.row_count(), 2);
    assert_eq!(grown.columns()[0].natural_width, width);
}

#[test]
fn alignment_survives_a_page_arriving() {
    assert_eq!(
        grid(
            vec![Column::new("v", "any", true)],
            vec![row(vec![Value::Int(1)])],
        )
        .columns()[0]
            .align,
        Align::Right
    );

    // A text value on page two must not flip the whole column to the left
    // under a reader who is looking at page one.
    let mut both = result(
        vec![Column::new("v", "any", true)],
        vec![
            row(vec![Value::Int(1)]),
            row(vec![Value::Text("x".into())]),
        ],
    );
    both.first_page = 1;
    let grown = RenderedGrid::new(Arc::new(both));
    assert_eq!(grown.columns()[0].align, Align::Right);
}

#[test]
fn raw_values_stay_reachable_for_copying() {
    let g = one(Value::Int(7));
    assert_eq!(g.raw(0, 0), Some(&Value::Int(7)));
    assert_eq!(g.raw(1, 0), None);
}

#[test]
fn bidi_overrides_are_replaced_but_zero_width_joiners_survive() {
    // U+202E is category Cf, so `char::is_control` is false for it and it
    // sails through any check built on that alone.
    assert!(!'\u{202e}'.is_control());
    let reordered = text_of(Value::Text("total\u{202e}drawkcab".into()));
    assert!(!reordered.contains('\u{202e}'), "{reordered:?}");

    // The same category holds ZWJ, and replacing that would take every
    // emoji sequence apart.
    let family = text_of(Value::Text("👨\u{200d}👩\u{200d}👧".into()));
    assert!(family.contains('\u{200d}'), "{family:?}");
}

#[test]
fn headers_are_sanitised_like_cells() {
    let g = grid(
        vec![Column::new("a\nb", "te\u{202e}xt", false)],
        vec![row(vec![Value::Int(1)])],
    );
    let col = &g.columns()[0];
    assert_eq!(col.name, "a␊b");
    assert!(!col.type_label.contains('\u{202e}'), "{:?}", col.type_label);
}

#[test]
fn extreme_magnitudes_use_an_exponent() {
    // Rust's Display for f64 never does, so these are 301 and 302
    // characters wide without the exponent form.
    assert_eq!(text_of(float(1e300)), "1e300");
    assert_eq!(text_of(float(1e-300)), "1e-300");
    // Ordinary numbers are left alone.
    assert_eq!(text_of(float(1.5)), "1.5");
    assert_eq!(text_of(float(0.0)), "0");
}

#[test]
fn json_objects_and_arrays_collapse() {
    assert_eq!(
        text_of(Value::Json(Json::Object(vec![("a".to_owned(), number("1")), ("b".to_owned(), number("2"))]))),
        "{2 keys}"
    );
    assert_eq!(
        text_of(Value::Json(Json::Array(vec![number("1"), number("2"), number("3")]))),
        "[3 items]"
    );
    // A scalar is small and worth reading in place.
    assert_eq!(text_of(Value::Json(number("42"))), "42");
}


// ── awkward relations ──────────────────────────────────────────────────────

/// Text that breaks naive formatting: controls, overrides, double-width
/// letters, combining marks and joined emoji.
fn unicode() -> RenderedGrid {
    let samples = [
        "plain",
        "こんにちは世界、全角文字",
        "tab\there\nand a line",
        "\u{1b}[31mred",
        "total\u{202e}drawkcab",
        "e\u{301}clair",
        "👨\u{200d}👩\u{200d}👧",
    ];
    grid(
        vec![
            Column::new("id", "int8", false),
            Column::new("sample", "text", false),
        ],
        samples
            .iter()
            .enumerate()
            .map(|(i, s)| row(vec![Value::Int(i as i64), Value::Text((*s).to_owned())]))
            .collect(),
    )
}

#[test]
fn nothing_in_the_unicode_table_reaches_the_terminal_raw() {
    let g = unicode();
    for row in 0..g.row_count() {
        for col in 0..g.columns().len() {
            let text = g.cell(row, col).text;
            assert!(
                !text.chars().any(|c| c.is_control() || is_bidi_control(c)),
                "row {row} col {col}: {text:?}"
            );
        }
    }
}

#[test]
fn column_widths_come_from_display_width_not_character_count() {
    let g = unicode();
    let sample = &g.columns()[1];
    // The widest row on screen is fullwidth text that is not the longest in
    // `char`s, so a sampler counting characters lands on a narrower answer.
    let by_chars: usize = (0..g.row_count())
        .map(|r| g.cell(r, 1).text.chars().count())
        .max()
        .unwrap();
    assert!(
        usize::from(sample.natural_width) > by_chars,
        "width {} is not wider than the longest char count {by_chars}",
        sample.natural_width
    );
}

#[test]
fn the_wide_table_asks_for_unequal_columns() {
    let g = grid(
        vec![
            Column::new("a", "int8", false),
            Column::new("a_column_with_a_long_name", "text", false),
        ],
        vec![row(vec![Value::Int(1), Value::Text("x".into())])],
    );
    let widths: Vec<u16> = g.columns().iter().map(|c| c.natural_width).collect();
    assert!(widths.iter().max() > widths.iter().min());
}

#[test]
fn a_relation_without_a_total_renders() {
    let g = one(Value::Int(1));
    assert_eq!(g.total_rows(), None);
    assert!(g.row_count() > 0);
}

#[test]
fn awkward_identifiers_survive_becoming_headers() {
    let g = grid(
        vec![
            Column::new("Column With Spaces", "text", false),
            Column::new("列名", "text", false),
        ],
        Vec::new(),
    );
    let names: Vec<&str> = g.columns().iter().map(|c| c.name.as_str()).collect();
    assert!(names.contains(&"Column With Spaces"), "{names:?}");
    assert!(names.contains(&"列名"), "{names:?}");
}

#[test]
fn every_value_variant_formats_without_panicking() {
    let date = || Date::new(2026, 2).unwrap();
    let time = || Time::new(10, 30, 0, 0).unwrap();
    let values = vec![
        Value::Null,
        Value::Bool(true),
        Value::Int(-1),
        float(0.5),
        Value::Decimal("1.10".into()),
        Value::Text("t".into()),
        Value::Bytes(vec![1]),
        Value::Date(date()),
        Value::Time(time()),
        Value::Timestamp { date: date(), time: time() },
        Value::TimestampTz {
            date: date(),
            time: time(),
            offset: UtcOffset::new(9, 0, 0).unwrap(),
        },
        Value::Json(Json::Null),
        Value::Array(vec![Value::Int(1)]),
        Value::Struct(vec![("a".into(), Value::Null)]),
        Value::Opaque { type_label: "geometry".into(), text: String::new() },
    ];
    let columns = values.iter().map(|_| Column::new("v", "any", true)).collect();
    let g = grid(columns, vec![row(values)]);
    for row in 0..g.row_count() {
        for col in 0..g.columns().len() {
            assert!(!g.cell(row, col).text.is_empty(), "row {row} col {col}");
        }
    }
}

#[test]
fn truth_is_a_word() {
    assert_eq!(text_of(Value::Bool(true)), "true");
    assert_eq!(text_of(Value::Bool(false)), "false");
}

#[test]
fn a_moment_keeps_its_zone() {
    let zoned = Value::TimestampTz {
        date: Date::new(2026, 60).unwrap(),
        time: Time::new(23, 5, 9, 120_000_000).unwrap(),
        offset: UtcOffset::new(-3, -30, 0).unwrap(),
    };
    assert_eq!(text_of(zoned), "2026-03-01 23:05:09.12 -03:30:00");
}

#[test]
fn a_day_that_is_not_in_the_year_is_refused() {
    assert!(Date::new(2025, 366).is_none());
    assert!(Date::new(2024, 366).is_some());
    assert!(Date::new(2024, 0).is_none());
    assert!(Time::new(24, 0, 0, 0).is_none());
    assert!(UtcOffset::new(26, 0, 0).is_none());
}

#[test]
fn a_json_string_is_quoted_in_a_cell() {
    assert_eq!(
        text_of(Value::Json(Json::Text("say \"hi\"".into()))),
        "\"say \\\"hi\\\"\""
    );
    assert_eq!(text_of(Value::Json(Json::Bool(true))), "true");
}

// ── copying ────────────────────────────────────────────────────────────────

fn rows() -> PagedResult {
    result(
        vec![
            Column::new("id", "int8", false),
            Column::new("name", "text", true),
            Column::new("note", "text", true),
        ],
        vec![
            row(vec![
                Value::Int(1),
                Value::Text("ada".into()),
                Value::Text("a,b".into()),
            ]),
            row(vec![
                Value::Int(2),
                Value::Null,
                Value::Text("say \"hi\"".into()),
            ]),
        ],
    )
}

#[test]
fn a_cell_is_a_rectangle_of_one() {
    assert_eq!(copied_as(&rows(), Format::Csv, (0, 1, 0, 1)), "ada\n");
}

#[test]
fn a_field_with_a_comma_or_a_quote_is_quoted() {
    assert_eq!(copied_as(&rows(), Format::Csv, (0, 2, 0, 2)), "\"a,b\"\n");
    assert_eq!(
        copied_as(&rows(), Format::Csv, (1, 2, 1, 2)),
        "\"say \"\"hi\"\"\"\n"
    );
}

#[test]
fn a_null_is_an_empty_field_rather_than_the_word() {
    // `NULL` is indistinguishable from a string that says NULL, which a
    // column of names can contain.
    assert_eq!(copied_as(&rows(), Format::Csv, (1, 1, 1, 1)), "\n");
}

#[test]
fn json_keeps_the_difference_csv_cannot() {
    // The reason JSON is worth having: a null and an empty string are the
    // same CSV field and different JSON values.
    let json = copied_as(&rows(), Format::Json, (1, 1, 1, 1));
    assert_eq!(json, "[[null]]");
}

#[test]
fn a_rectangle_is_the_rows_cut_to_the_columns() {
    assert_eq!(copied_as(&rows(), Format::Csv, (0, 0, 1, 1)), "1,ada\n2,\n");
}

#[test]
fn what_is_copied_is_the_value_and_not_the_cell() {
    // The grid writes `∅` for a null and clamps a long value; both are
    // wrong in a paste, and both would appear here if this read the grid.
    let long = "x".repeat(MAX_CELL_CHARS * 2);
    let rows = result(
        vec![Column::new("c", "text", false)],
        vec![row(vec![Value::Text(long.clone())])],
    );
    let copied = copied_as(&rows, Format::Csv, (0, 0, 0, 0));
    assert_eq!(copied.trim_end(), long);
    assert!(!copied.contains('…'));
}

#[test]
fn a_range_past_the_end_is_cut_to_what_is_there() {
    // A selection outlives a page that shrank under it, and asking for row
    // 99 of a two-row result must not panic or write blank rows.
    assert_eq!(
        copied_as(&rows(), Format::Csv, (0, 0, 99, 99)),
        "1,ada,\"a,b\"\n2,,\"say \"\"hi\"\"\"\n"
    );
}

#[test]
fn a_result_with_no_rows_copies_nothing_rather_than_a_row_of_commas() {
    // The rectangle for "everything" is built from `row_count() - 1`, which
    // is row zero when there are no rows at all. Rendering it wrote a row
    // of empty fields — a paste of `,,` and a message saying cells were
    // sent, for a table that has none.
    let empty = result(
        vec![
            Column::new("a", "text", true),
            Column::new("b", "text", true),
        ],
        Vec::new(),
    );
    assert_eq!(copied_as(&empty, Format::Csv, (0, 0, 0, 1)), "");
    assert_eq!(copied_as(&empty, Format::Json, (0, 0, 0, 1)), "");
}

#[test]
fn a_rectangle_entirely_past_the_end_is_nothing_in_either_format() {
    assert_eq!(copied_as(&rows(), Format::Csv, (9, 0, 9, 0)), "");
    // JSON went through the empty range and wrote `[]`, which is a
    // sequence sent and a clipboard replaced for a selection that named
    // nothing.
    assert_eq!(copied_as(&rows(), Format::Json, (9, 0, 9, 0)), "");
}

#[test]
fn the_sequence_is_osc_52_and_base64() {
    let seq = sequence("hi").expect("it encodes");
    assert!(seq.starts_with("\u{1b}]52;c;"), "{seq:?}");
    assert!(seq.ends_with('\u{7}'), "{seq:?}");
    assert!(seq.contains(&"aGk="));
}

#[test]
fn nothing_to_copy_is_refused_rather_than_sent() {
    assert_eq!(sequence(""), Err(Refused::Empty));
}

#[test]
fn a_payload_past_what_a_terminal_takes_is_refused() {
    // A sequence over the limit is dropped in full by the terminal, so
    // sending it and saying "copied" is the one outcome to avoid: nothing
    // arrives and nothing says so.
    let huge = "x".repeat(MAX_PAYLOAD_BYTES);
    // Reported as the text it came from: base64 is a third larger, and the
    // person deciding how much to select cannot act on the encoded number.
    assert_eq!(
        sequence(&huge),
        Err(Refused::TooLarge {
            bytes: MAX_PAYLOAD_BYTES
        })
    );
}

#[test]
fn a_line_break_in_a_field_is_quoted_whole() {
    let rows = result(
        vec![Column::new("c", "text", false)],
        vec![row(vec![Value::Text("a\r\nb".into())])],
    );
    assert_eq!(copied_as(&rows, Format::Csv, (0, 0, 0, 0)), "\"a\r\nb\"\n");
}

#[test]
fn json_is_the_rows_as_they_are() {
    assert_eq!(
        copied_as(&rows(), Format::Json, (0, 0, 1, 2)),
        "[[1,\"ada\",\"a,b\"],[2,null,\"say \\\"hi\\\"\"]]"
    );
}

#[test]
fn the_whole_sequence_is_as_a_terminal_reads_it() {
    assert_eq!(sequence("hello").unwrap(), "\u{1b}]52;c;aGVsbG8=\u{7}");
}

// ── definitions ────────────────────────────────────────────────────────────

fn empty_table() -> Arc<PagedResult> {
    Arc::new(result(vec![Column::new("name", "text", false)], Vec::new()))
}

fn detail_of(section_titles: &[&str], ddl: bool) -> TableDetail {
    TableDetail {
        edition: edition(),
        kind: "table".to_owned(),
        comment: None,
        columns: Vec::new(),
        sections: section_titles
            .iter()
            .map(|title| Section { title: (*title).to_owned(), table: empty_table() })
            .collect(),
        ddl: if ddl { Some("CREATE TABLE users ()".to_owned()) } else { None },
        stats: Vec::new(),
    }
}

#[test]
fn the_cheap_answers_are_the_same_answers() {
    // `is_statement` and `section_count` exist so the input path need not
    // lay a definition out to ask about it. Two answers to one question is
    // two answers that can disagree, so this is what says they do not.
    for titles in [&[][..], &["Indexes"][..], &["Indexes", "Triggers"][..]] {
        for ddl in [false, true] {
            let detail = detail_of(titles, ddl);
            let laid = Laid::out(&detail);
            assert_eq!(laid.titles().len(), section_count(&detail), "{titles:?}");
            for index in 0..=section_count(&detail) {
                assert_eq!(
                    laid.statement(index).is_some(),
                    is_statement(&detail, index),
                    "section {index} of {titles:?} with ddl {ddl}"
                );
            }
        }
    }
}

#[test]
fn the_summary_says_what_it_is_before_what_is_in_it() {
    let mut detail = detail_of(&[], false);
    detail.stats = vec![("Rows".to_owned(), "12".to_owned())];
    let mut definition = Laid::out(&detail);
    definition.comment = Some("everyone who signed up".to_owned());
    let summary = summary(&definition);
    assert!(summary.starts_with("table"), "{summary}");
    assert!(summary.contains("rows: 12"), "{summary}");
    assert!(summary.contains("everyone who signed up"), "{summary}");
    assert_eq!(summary, "table · rows: 12 · everyone who signed up");
}

#[test]
fn a_column_that_may_not_be_null_says_so() {
    let mut detail = detail_of(&[], false);
    detail.columns = vec![
        ColumnDetail {
            name: "id".to_owned(),
            type_label: "integer".to_owned(),
            nullable: false,
            default: Some("0".to_owned()),
            comment: None,
        },
        ColumnDetail {
            name: "note".to_owned(),
            type_label: "text".to_owned(),
            nullable: true,
            default: None,
            comment: Some("free".to_owned()),
        },
    ];
    let laid = Laid::out(&detail);
    let rows = laid.rows(0).expect("columns lead");
    let said = |r: usize, c: usize| match rows.value(r, c) {
        Some(Value::Text(s)) => s.clone(),
        other => format!("{other:?}"),
    };
    assert_eq!(said(0, 0), "id");
    assert_eq!(said(0, 2), "not null");
    assert_eq!(said(0, 3), "0");
    assert_eq!(rows.value(0, 4), Some(&Value::Null));
    assert_eq!(said(1, 2), "");
    assert_eq!(said(1, 4), "free");
    assert!(laid.rows(1).is_none());
}

// ── the history ────────────────────────────────────────────────────────────

const DAY: i64 = 86_400;

fn moment(seconds: i64) -> Moment {
    Moment { seconds, nanos: 0 }
}

fn entry(sql: &str, at: Moment) -> HistoryEntry {
    HistoryEntry {
        id: RunId(1),
        issuer: Some("human".to_owned()),
        sql: sql.to_owned(),
        started_at: at,
        status: Some("ok".to_owned()),
        duration_ms: Some(12),
        row_count: Some(3),
        error: None,
    }
}

#[test]
fn a_statement_is_one_line_however_it_was_written() {
    // A `\n` in a cell is a glyph the terminal draws as a box, and the
    // renderer cannot know that the run of whitespace around it was an
    // indented `FROM`.
    let now = moment(0);
    let rows = history_rows(&vec![entry("select *\n  from users", now)], now, edition());
    assert_eq!(
        rows.value(0, 5),
        Some(&Value::Text("select * from users".to_owned()))
    );
    assert_eq!(one_line("  a \n\t b "), "a b");
}

#[test]
fn how_long_ago_is_said_in_one_unit() {
    let now = 400 * DAY;
    let at = |d: i64| ago(moment(now - d), moment(now));
    assert_eq!(at(3), "3s ago");
    assert_eq!(at(90), "1m ago");
    assert_eq!(at(5 * 3_600), "5h ago");
    assert_eq!(at(2 * DAY), "2d ago");
}

#[test]
fn a_clock_that_stepped_back_does_not_make_a_run_negative() {
    assert_eq!(ago(moment(3_600), moment(0)), "just now");
}

#[test]
fn a_duration_is_read_in_the_unit_that_suits_it() {
    assert_eq!(took(12), "12ms");
    assert_eq!(took(999), "999ms");
    assert_eq!(took(1500), "1.5s");
}

#[test]
fn a_tenth_of_a_second_is_rounded_as_a_double_is_printed() {
    for ms in [1_000_u64, 1_049, 1_050, 1_149, 1_250, 1_350, 9_949, 59_999, 123_456_789] {
        assert_eq!(took(ms), format!("{:.1}s", ms as f64 / 1000.0), "{ms}");
    }
}

#[test]
fn a_run_that_has_not_ended_leaves_its_columns_empty() {
    // Rather than saying "running": the row would change under somebody
    // reading it, and `when` already says it started.
    let now = moment(0);
    let mut running = entry("select 1", now);
    running.status = None;
    running.duration_ms = None;
    running.row_count = None;
    let rows = history_rows(&vec![running], now, edition());
    assert_eq!(rows.value(0, 2), Some(&Value::Null));
    assert_eq!(rows.value(0, 3), Some(&Value::Null));
}

// ── small counts ───────────────────────────────────────────────────────────

#[test]
fn an_empty_buffer_has_no_lines_to_scroll() {
    // `"".lines()` yields nothing, but `"\n".lines()` yields one — the
    // clamp needs the first answer, not `1`.
    assert_eq!(line_count(""), 0);
    assert_eq!(line_count("one"), 1);
    assert_eq!(line_count("one\ntwo\n"), 2);
}

#[test]
fn a_byte_count_reads_in_the_units_somebody_prices_in() {
    assert_eq!(bytes(0), "0 B");
    assert_eq!(bytes(999), "999 B");
    assert_eq!(bytes(1_000_000), "1.0 MB");
    // The units the budget is written in: `max_bytes_billed = "20GB"` is
    // this number, and the dialog has to say 20 back.
    assert_eq!(bytes(20_000_000_000), "20.0 GB");
    // Truncating rather than rounding: shown next to a limit, a number
    // that rounded up to the limit would read as being at it.
    assert_eq!(bytes(1_999_999_999), "1.9 GB");
    assert_eq!(bytes(999_999_999), "999.9 MB");
}
/// A reader of lines and fields, as a spreadsheet reads them.
fn pasted(text: &str) -> Vec<Vec<String>> {
    let mut lines = Vec::new();
    let mut fields = Vec::new();
    let mut field = String::new();
    let mut chars = text.chars().peekable();
    let mut quoted = false;
    while let Some(c) = chars.next() {
        match c {
            '"' if quoted && chars.peek() == Some(&'"') => {
                chars.next();
                field.push('"');
            }
            '"' => quoted = !quoted,
            ',' if !quoted => fields.push(std::mem::take(&mut field)),
            '\n' if !quoted => {
                fields.push(std::mem::take(&mut field));
                lines.push(std::mem::take(&mut fields));
            }
            c => field.push(c),
        }
    }
    assert!(!quoted && field.is_empty() && fields.is_empty(), "{text:?}");
    lines
}

#[test]
fn what_is_copied_as_lines_reads_back_as_it_was() {
    let texts = [
        ["plain", "a,b", "say \"hi\""],
        ["two\nlines", "\"", ",\"\r\n,"],
        ["", "\"\"", "trailing,"],
    ];
    let rows = result(
        vec![
            Column::new("a", "text", false),
            Column::new("b", "text", false),
            Column::new("c", "text", false),
        ],
        texts
            .iter()
            .map(|line| row(line.iter().map(|s| Value::Text((*s).to_owned())).collect()))
            .collect(),
    );
    assert_eq!(pasted(&copied_as(&rows, Format::Csv, (0, 0, 2, 2))), texts);
    assert_eq!(
        pasted(&copied_as(&rows, Format::Csv, (1, 1, 9, 9))),
        [["\"", ",\"\r\n,"], ["\"\"", "trailing,"]]
    );
}

#[test]
fn a_day_reads_year_month_and_day() {
    let day = |year, ordinal| Date::new(year, ordinal).unwrap().text();
    assert_eq!(day(2026, 1), "2026-01-01");
    assert_eq!(day(2026, 60), "2026-03-01");
    assert_eq!(day(2024, 60), "2024-02-29");
    assert_eq!(day(2024, 366), "2024-12-31");
    assert_eq!(day(1999, 365), "1999-12-31");
    assert_eq!(day(7, 213), "0007-08-01");
    assert_eq!(day(-44, 75), "-0044-03-15");
    assert_eq!(Date::new(2026, 366), None);
}

#[test]
fn a_time_of_day_keeps_every_digit_it_has() {
    let time = |h, m, s, n| Time::new(h, m, s, n).unwrap().text();
    assert_eq!(time(0, 0, 0, 0), "0:00:00.0");
    assert_eq!(time(9, 5, 7, 120_000_000), "9:05:07.12");
    assert_eq!(time(23, 59, 59, 5), "23:59:59.000000005");
    assert_eq!(time(10, 30, 0, 999_999_999), "10:30:00.999999999");
    assert_eq!(Time::new(24, 0, 0, 0), None);
}

#[test]
fn an_offset_always_has_a_sign() {
    let offset = |h, m, s| UtcOffset::new(h, m, s).unwrap().text();
    assert_eq!(offset(0, 0, 0), "+00:00:00");
    assert_eq!(offset(5, 30, 0), "+05:30:00");
    assert_eq!(offset(-9, -30, 0), "-09:30:00");
    assert_eq!(offset(0, -15, 0), "-00:15:00");
    // The smaller parts take the sign of the larger.
    assert_eq!(offset(1, -2, -3), "+01:02:03");
    assert_eq!(offset(0, 0, -1), "-00:00:01");
    assert_eq!(UtcOffset::new(26, 0, 0), None);
}

#[test]
fn a_string_in_json_is_escaped_where_it_has_to_be() {
    let written = |s: &str| Json::Text(s.to_owned()).text();
    assert_eq!(written("plain é 字"), "\"plain é 字\"");
    assert_eq!(written("say \"hi\" \\ /"), "\"say \\\"hi\\\" \\\\ /\"");
    assert_eq!(written("\u{8}\t\n\u{c}\r"), "\"\\b\\t\\n\\f\\r\"");
    assert_eq!(written("\u{0}\u{1b}\u{1f}\u{7f}"), "\"\\u0000\\u001b\\u001f\u{7f}\"");
    assert_eq!(
        Json::Array(vec![Json::Null, Json::Bool(true), number("1.50")]).text(),
        "[null,true,1.50]"
    );
    assert_eq!(
        Json::Object(vec![("a\"".to_owned(), Json::Object(Vec::new())), ("b".to_owned(), Json::Null)])
            .text(),
        "{\"a\\\"\":{},\"b\":null}"
    );
}

#[test]
fn a_payload_is_base64_of_the_text() {
    let payload = |s: &str| {
        let whole = sequence(s).unwrap();
        whole.strip_prefix("\u{1b}]52;c;").unwrap().strip_suffix('\u{7}').unwrap().to_owned()
    };
    assert_eq!(payload("M"), "TQ==");
    assert_eq!(payload("Ma"), "TWE=");
    assert_eq!(payload("Man"), "TWFu");
    assert_eq!(payload("字"), "5a2X");
    assert_eq!(payload("???>>>~~~"), "Pz8/Pj4+fn5+");
    assert_eq!(sequence(""), Err(Refused::Empty));
}

#[test]
fn a_type_name_is_sanitised_like_a_value() {
    assert_eq!(
        text_of(Value::Opaque {
            type_label: "a\nb\u{202e}c\u{1b}".into(),
            text: String::new(),
        }),
        "<a␊b·c·>"
    );
    let cell = one(Value::Null).cell(0, 0);
    assert_eq!((cell.text.as_str(), cell.kind), ("∅", CellKind::Null));
}

#[test]
fn a_statement_keeps_its_words_and_nothing_else() {
    assert_eq!(one_line("\u{a0}select\u{2003}1\u{85}\n from\tx\u{3000}"), "select 1 from x");
    assert_eq!(one_line(&one_line(" a\n b ")), "a b");
    assert_eq!(one_line(" \n\t\u{2029}"), "");
    // A zero-width space separates nothing.
    assert_eq!(one_line("a\u{200b}b"), "a\u{200b}b");
}

#[test]
fn a_document_is_written_without_white_space() {
    let document = Json::Object(vec![
        (
            "b".to_owned(),
            Json::Array(vec![Json::Null, Json::Bool(true), Json::Bool(false), number("1.50")]),
        ),
        ("a\"".to_owned(), Json::Object(Vec::new())),
        ("c".to_owned(), Json::Array(Vec::new())),
        ("b".to_owned(), Json::Text("x\ny".to_owned())),
    ]);
    assert_eq!(
        document.text(),
        r#"{"b":[null,true,false,1.50],"a\"":{},"c":[],"b":"x\ny"}"#
    );
}
