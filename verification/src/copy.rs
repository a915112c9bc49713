//! Putting cells on the clipboard, through the terminal.
//!
//! OSC 52 and never a clipboard crate. The terminal may be at the far end of an
//! SSH connection, and a crate would put the text on the clipboard of the
//! machine the database is near rather than the one the person is at. The
//! terminal is the thing that knows where the person is.
//!
//! What is copied is the *value*, not the cell. The grid shortens, escapes
//! control characters and writes `∅` for null, and every one of those is wrong
//! in a paste — so this reads [`PagedResult`] directly, and the JSON an agent
//! is sent for a value rather than answering the same question a second time.

use crate::geometry::{least, min_usize};
use crate::json::{array_end, array_gap, array_start, gap, push_json, written, Json};
use crate::model::{PagedResult, Value};
use crate::text::{chars_of, copy_of, push_all, replace, replaced};
use base64::engine::general_purpose::STANDARD;
use base64::Engine;
use vstd::prelude::*;
use vstd::string::StringSliceAdditionalSpecFns;
use vstd::utf8::encode_utf8;

verus! {

/// How the cells are written out.
#[derive(Debug, Clone, Copy, PartialEq, Eq, Structural)]
pub enum Format {
    /// One row per line, fields separated by commas.
    Csv,
    /// An array of arrays, matching what the agent surface sends.
    Json,
}

/// What most terminals will accept in one OSC 52 sequence.
///
/// The limit is real and varies, and a sequence past whatever the terminal
/// allows is dropped in full rather than cut short. So the payload is measured
/// before it is sent and refused if it is over, because "nothing arrived" is
/// the failure mode this is avoiding and it is silent.
pub const MAX_PAYLOAD_BYTES: usize = 524_288;

/// Why nothing was copied.
#[derive(Debug, Clone, Copy, PartialEq, Eq, Structural)]
pub enum Refused {
    /// There were no rows to take.
    Empty,
    /// The encoded payload is past what a terminal will take in one sequence.
    ///
    /// `bytes` is the *text*, not the base64 of it. The limit applies to the
    /// encoded form, but a third larger is not a number the person choosing
    /// how much to select can act on.
    TooLarge { bytes: usize },
}

/// A rectangle of cells: top, left, bottom and right, all of them in it.
pub type Area = (usize, usize, usize, usize);

/// The part of `area` that is actually there.
pub open spec fn part_there(rows: PagedResult, area: Area) -> Option<Area> {
    let (top, left, bottom, right) = area;
    if rows.rows@.len() == 0 || rows.columns@.len() == 0 {
        None
    } else {
        let bottom = least(bottom as int, rows.rows@.len() - 1) as usize;
        let right = least(right as int, rows.columns@.len() - 1) as usize;
        if top <= bottom && left <= right {
            Some((top, left, bottom, right))
        } else {
            None
        }
    }
}

/// The part of `area` that is actually there, or `None` when none of it is.
///
/// A selection is indexes into a result the store is free to replace with a
/// shorter one, so a rectangle can name rows or columns that have gone — and an
/// empty result names none at all. Clamping without this last part is how a
/// result with no rows still writes one row of empty fields onto the clipboard.
pub fn clamped(rows: &PagedResult, area: Area) -> (r: Option<Area>)
    ensures
        r == part_there(*rows, area),
{
    let (top, left, bottom, right) = area;
    if rows.row_count() == 0 || rows.column_count() == 0 {
        return None;
    }
    let last_row: usize = min_usize(bottom, rows.row_count() - 1);
    let last_col: usize = min_usize(right, rows.column_count() - 1);
    if top <= last_row && left <= last_col {
        Some((top, left, last_row, last_col))
    } else {
        None
    }
}

/// Whether a field has to be put in quotes.
pub open spec fn needs_quotes(s: Seq<char>) -> bool {
    s.contains(',') || s.contains('"') || s.contains('\n') || s.contains('\r')
}

/// A field as it stands in a line: in quotes where it needs them, with every
/// quote in it doubled.
pub open spec fn field(s: Seq<char>) -> Seq<char> {
    if needs_quotes(s) {
        "\""@ + replaced(s, '"', "\"\""@) + "\""@
    } else {
        s
    }
}

/// What a value says in a line, before it is quoted.
pub open spec fn bare(json: Json) -> Seq<char> {
    match json {
        Json::Text(s) => s@,
        _ => written(json),
    }
}

/// The field for one cell.
pub open spec fn csv_cell(rows: PagedResult, row: int, col: int) -> Seq<char> {
    match rows.datum_at(row, col) {
        Some(datum) => if datum.value is Null {
            Seq::empty()
        } else {
            field(bare(datum.json))
        },
        None => Seq::empty(),
    }
}

/// The fields of a row from `left` up to and without `end`.
pub open spec fn csv_row(rows: PagedResult, row: int, left: int, end: int) -> Seq<char>
    decreases end - left,
{
    if end <= left {
        Seq::empty()
    } else if end == left + 1 {
        csv_cell(rows, row, left)
    } else {
        csv_row(rows, row, left, end - 1) + seq![','] + csv_cell(rows, row, end - 1)
    }
}

/// The lines of the rows from `top` up to and without `end`.
pub open spec fn csv_rows(rows: PagedResult, top: int, end: int, left: int, right: int) -> Seq<char>
    decreases end - top,
{
    if end <= top {
        Seq::empty()
    } else {
        csv_rows(rows, top, end - 1, left, right) + csv_row(rows, end - 1, left, right).push('\n')
    }
}

/// The JSON of one cell.
pub open spec fn json_cell(rows: PagedResult, row: int, col: int) -> Seq<char> {
    match rows.json_at(row, col) {
        Some(json) => written(json),
        None => "null"@,
    }
}

/// The cells of a row from `left` up to and without `end`.
pub open spec fn json_row(rows: PagedResult, row: int, left: int, end: int) -> Seq<char>
    decreases end - left,
{
    if end <= left {
        Seq::empty()
    } else {
        json_row(rows, row, left, end - 1) + gap(end == left + 1) + json_cell(rows, row, end - 1)
    }
}

/// The rows from `top` up to and without `end`.
pub open spec fn json_rows(
    rows: PagedResult,
    top: int,
    end: int,
    left: int,
    right: int,
) -> Seq<char>
    decreases end - top,
{
    if end <= top {
        Seq::empty()
    } else {
        json_rows(rows, top, end - 1, left, right) + gap(end == top + 1) + seq!['['] + json_row(
            rows,
            end - 1,
            left,
            right,
        ) + seq![']']
    }
}

/// The text for a rectangle of cells.
pub open spec fn rendered(rows: PagedResult, format: Format, area: Area) -> Seq<char> {
    match part_there(rows, area) {
        None => Seq::empty(),
        Some((top, left, bottom, right)) => match format {
            Format::Csv => csv_rows(rows, top as int, bottom + 1, left as int, right + 1),
            Format::Json => seq!['['] + json_rows(
                rows,
                top as int,
                bottom + 1,
                left as int,
                right + 1,
            ) + seq![']'],
        },
    }
}

fn has_any(chars: &Vec<char>) -> (b: bool)
    ensures
        b == needs_quotes(chars@),
{
    let mut i: usize = 0;
    while i < chars.len()
        invariant
            i <= chars@.len(),
            forall|j: int|
                0 <= j < i ==> (#[trigger] chars@[j]) != ',' && chars@[j] != '"' && chars@[j]
                    != '\n' && chars@[j] != '\r',
        decreases chars@.len() - i,
    {
        let c: char = chars[i];
        if c == ',' || c == '"' || c == '\n' || c == '\r' {
            proof {
                assert(chars@.contains(c));
            }
            return true;
        }
        i += 1;
    }
    false
}

/// One CSV field.
///
/// A null is an empty field, which is the only way CSV has to say "no value" —
/// the alternative, the four characters `NULL`, is indistinguishable from a
/// string that says NULL, and a column of names containing one would come back
/// wrong. It is indistinguishable from an empty string instead, which is the
/// same trade every CSV export makes and the reason JSON is the format to reach
/// for when the difference matters.
fn csv_field(rows: &PagedResult, row: usize, col: usize) -> (r: String)
    ensures
        r@ == csv_cell(*rows, row as int, col as int),
{
    match rows.value(row, col) {
        None => return String::new(),
        Some(Value::Null) => return String::new(),
        Some(_) => {},
    }
    let text: String = match rows.json(row, col) {
        None => return String::new(),
        Some(Json::Text(s)) => copy_of(s.as_str()),
        // Everything else is written as its JSON: a number as a number, and a
        // document as the document rather than as a count of its keys.
        Some(other) => other.text(),
    };
    let chars: Vec<char> = chars_of(text.as_str());
    if has_any(&chars) {
        let mut out: String = copy_of("\"");
        push_all(&mut out, replace(text.as_str(), '"', "\"\"").as_str());
        push_all(&mut out, "\"");
        out
    } else {
        text
    }
}

/// The text for a rectangle of cells, in `format`.
///
/// `(top, left, bottom, right)` inclusive, which is what `GridUi::selection`
/// produces — one cell is a rectangle of one.
pub fn render(rows: &PagedResult, format: Format, area: Area) -> (r: String)
    ensures
        r@ == rendered(*rows, format, area),
{
    let (top, left, bottom, right): Area = match clamped(rows, area) {
        Some(area) => area,
        None => return String::new(),
    };
    match format {
        Format::Csv => csv(rows, top, left, bottom, right),
        Format::Json => json(rows, top, left, bottom, right),
    }
}

fn csv(rows: &PagedResult, top: usize, left: usize, bottom: usize, right: usize) -> (out: String)
    requires
        top <= bottom < rows.rows@.len(),
        left <= right < rows.columns@.len(),
    ensures
        out@ == csv_rows(*rows, top as int, bottom + 1, left as int, right + 1),
{
    let mut out: String = String::new();
    let rows_there: usize = rows.row_count();
    let cols_there: usize = rows.column_count();
    let mut row: usize = top;
    while row <= bottom
        invariant
            rows_there == rows.rows@.len(),
            cols_there == rows.columns@.len(),
            top <= row <= bottom + 1 <= rows_there,
            left <= right < cols_there,
            out@ == csv_rows(*rows, top as int, row as int, left as int, right + 1),
        decreases bottom + 1 - row,
    {
        let ghost before = out@;
        let mut col: usize = left;
        while col <= right
            invariant
                cols_there == rows.columns@.len(),
                left <= col <= right + 1 <= cols_there,
                out@ == before + csv_row(*rows, row as int, left as int, col as int),
            decreases right + 1 - col,
        {
            let ghost so_far = csv_row(*rows, row as int, left as int, col as int);
            if col > left {
                out.push(',');
            }
            push_all(&mut out, csv_field(rows, row, col).as_str());
            proof {
                let cell = csv_cell(*rows, row as int, col as int);
                if col == left {
                    assert(out@ =~= before + cell);
                } else {
                    assert(out@ =~= before + (so_far + seq![','] + cell));
                }
            }
            col += 1;
        }
        out.push('\n');
        proof {
            assert(out@ =~= before + csv_row(*rows, row as int, left as int, right + 1).push('\n'));
        }
        row += 1;
    }
    out
}

fn json(rows: &PagedResult, top: usize, left: usize, bottom: usize, right: usize) -> (out: String)
    requires
        top <= bottom < rows.rows@.len(),
        left <= right < rows.columns@.len(),
    ensures
        out@ == seq!['['] + json_rows(*rows, top as int, bottom + 1, left as int, right + 1) + seq![
            ']',
        ],
{
    let mut out: String = array_start();
    let ghost opened = out@;
    let rows_there: usize = rows.row_count();
    let cols_there: usize = rows.column_count();
    let mut row: usize = top;
    proof {
        assert(opened + json_rows(*rows, top as int, top as int, left as int, right + 1)
            =~= opened);
    }
    while row <= bottom
        invariant
            rows_there == rows.rows@.len(),
            cols_there == rows.columns@.len(),
            top <= row <= bottom + 1 <= rows_there,
            left <= right < cols_there,
            out@ == opened + json_rows(*rows, top as int, row as int, left as int, right + 1),
        decreases bottom + 1 - row,
    {
        let ghost earlier = json_rows(*rows, top as int, row as int, left as int, right + 1);
        push_all(&mut out, array_gap(row == top).as_str());
        push_all(&mut out, array_start().as_str());
        let ghost before = out@;
        let mut col: usize = left;
        proof {
            assert(before + json_row(*rows, row as int, left as int, left as int) =~= before);
        }
        while col <= right
            invariant
                cols_there == rows.columns@.len(),
                left <= col <= right + 1 <= cols_there,
                out@ == before + json_row(*rows, row as int, left as int, col as int),
            decreases right + 1 - col,
        {
            let ghost so_far = json_row(*rows, row as int, left as int, col as int);
            push_all(&mut out, array_gap(col == left).as_str());
            match rows.json(row, col) {
                Some(json) => push_json(&mut out, json),
                None => push_json(&mut out, &Json::Null),
            }
            proof {
                let cell = json_cell(*rows, row as int, col as int);
                assert(out@ =~= before + (so_far + gap(col == left) + cell));
            }
            col += 1;
        }
        push_all(&mut out, array_end().as_str());
        proof {
            let line = json_row(*rows, row as int, left as int, right + 1);
            assert(out@ =~= opened + (earlier + gap(row == top) + seq!['['] + line + seq![']']));
        }
        row += 1;
    }
    push_all(&mut out, array_end().as_str());
    proof {
        assert(out@ =~= seq!['['] + json_rows(
            *rows,
            top as int,
            bottom + 1,
            left as int,
            right + 1,
        ) + seq![']']);
    }
    out
}

/// How long `n` bytes are in base64: four characters for every three bytes
/// begun.
pub open spec fn base64_len(n: int) -> int {
    4 * ((n + 2) / 3)
}

/// A byte, and zero past the last one.
pub open spec fn byte_or_zero(bytes: Seq<u8>, i: int) -> int {
    if i < bytes.len() {
        bytes[i] as int
    } else {
        0
    }
}

/// Three bytes from the `i`th on, as one number.
pub open spec fn three_bytes(bytes: Seq<u8>, i: int) -> int {
    byte_or_zero(bytes, i) * 65536 + byte_or_zero(bytes, i + 1) * 256 + byte_or_zero(bytes, i + 2)
}

/// The `k`th six bits of some bytes.
pub open spec fn six_bits(bytes: Seq<u8>, k: int) -> int {
    let n = three_bytes(bytes, k / 4 * 3);
    if k % 4 == 0 {
        n / 262144
    } else if k % 4 == 1 {
        n / 4096 % 64
    } else if k % 4 == 2 {
        n / 64 % 64
    } else {
        n % 64
    }
}

/// The character that stands for six bits in the standard alphabet.
pub open spec fn base64_char(n: int) -> char {
    if n < 26 {
        (('A' as u32) + n) as char
    } else if n < 52 {
        (('a' as u32) + n - 26) as char
    } else if n < 62 {
        (('0' as u32) + n - 52) as char
    } else if n == 62 {
        '+'
    } else {
        '/'
    }
}

/// Bytes in base64, with the standard alphabet: a character for every six bits,
/// and padding where there is no bit left to stand for.
pub open spec fn base64_bytes(bytes: Seq<u8>) -> Seq<char> {
    Seq::new(
        base64_len(bytes.len() as int) as nat,
        |k: int|
            if 6 * k < 8 * bytes.len() {
                base64_char(six_bits(bytes, k))
            } else {
                '='
            },
    )
}

/// A text in base64.
pub open spec fn base64_of(s: Seq<char>) -> Seq<char> {
    base64_bytes(encode_utf8(s))
}

/// `base64`'s `STANDARD.encode`, of the bytes of a text: the alphabet of RFC
/// 4648 with `+` and `/`, padded to a whole number of groups of four. It panics
/// only on a text whose encoding could not be counted.
#[verifier::external_body]
fn encode(text: &str) -> (r: String)
    requires
        text.spec_bytes().len() <= 0x0fff_ffff,
    ensures
        r@ == base64_of(text@),
{
    STANDARD.encode(text)
}

/// The OSC 52 sequence around a payload.
pub open spec fn osc52(payload: Seq<char>) -> Seq<char> {
    "\u{1b}]52;c;"@ + payload + "\u{7}"@
}

/// The OSC 52 sequence that puts `text` on the clipboard.
///
/// # Errors
///
/// If there is nothing to copy, or the payload is past what a terminal takes.
pub fn sequence(text: &str) -> (r: Result<String, Refused>)
    ensures
        r == Err::<String, Refused>(Refused::Empty) <==> text@.len() == 0,
        r matches Err(Refused::TooLarge { bytes }) ==> bytes == text.spec_bytes().len(),
        r matches Err(Refused::TooLarge { .. }) <==> text@.len() > 0 && base64_len(
            text.spec_bytes().len() as int,
        ) > MAX_PAYLOAD_BYTES,
        r matches Ok(s) ==> s@ == osc52(base64_of(text@)),
{
    if text.is_empty() {
        return Err(Refused::Empty);
    }
    let bytes: usize = text.as_bytes().len();
    // Encoding only ever makes it longer.
    if bytes > MAX_PAYLOAD_BYTES {
        return Err(Refused::TooLarge { bytes });
    }
    let payload: String = encode(text);
    if chars_of(payload.as_str()).len() > MAX_PAYLOAD_BYTES {
        return Err(Refused::TooLarge { bytes });
    }
    // `c` is the clipboard proper rather than the primary selection, and the
    // terminating BEL is what most terminals want; ST works in some but not
    // everywhere.
    let mut out: String = copy_of("\u{1b}]52;c;");
    push_all(&mut out, payload.as_str());
    push_all(&mut out, "\u{7}");
    Ok(out)
}

// ── what every copy keeps to ───────────────────────────────────────────────

/// A cell is in the part that is there exactly when it is asked for and is
/// there.
pub proof fn a_cell_is_copied_when_it_is_there(rows: PagedResult, area: Area, row: int, col: int)
    ensures
        (area.0 <= row <= area.2 && area.1 <= col <= area.3 && row < rows.rows@.len() && col
            < rows.columns@.len()) <==> (part_there(rows, area) matches Some(
            (top, left, bottom, right),
        ) && top <= row <= bottom && left <= col <= right),
{
}

/// The part that is there lies within what was asked for and within the rows.
pub proof fn what_is_copied_is_there(rows: PagedResult, area: Area)
    ensures
        part_there(rows, area) matches Some((top, left, bottom, right)) ==> {
            &&& top == area.0 && left == area.1
            &&& top <= bottom <= area.2 && bottom < rows.rows@.len()
            &&& left <= right <= area.3 && right < rows.columns@.len()
        },
        part_there(rows, area) is None <==> (rows.rows@.len() == 0 || rows.columns@.len() == 0
            || area.0 > area.2 || area.1 > area.3 || area.0 >= rows.rows@.len() || area.1
            >= rows.columns@.len()),
{
}

/// A rectangle that names nothing copies nothing, in either format.
pub proof fn a_rectangle_of_nothing_copies_nothing(rows: PagedResult, format: Format, area: Area)
    requires
        part_there(rows, area) is None,
    ensures
        rendered(rows, format, area).len() == 0,
{
}

/// A null is an empty field, and no other value says less than its JSON does.
pub proof fn a_null_is_an_empty_field(rows: PagedResult, row: int, col: int)
    requires
        rows.value_at(row, col) == Some(Value::Null),
    ensures
        csv_cell(rows, row, col).len() == 0,
{
}

/// In JSON a null and a text are told apart, an empty one and one that says
/// `null` among them: it is the format to reach for when the difference matters.
pub proof fn json_tells_a_null_from_a_text(rows: PagedResult, row: int, col: int, other: int)
    requires
        rows.json_at(row, col) == Some(Json::Null),
        rows.json_at(row, other) matches Some(json) && json is Text,
    ensures
        json_cell(rows, row, col) != json_cell(rows, row, other),
{
    reveal_strlit("null");
    assert(json_cell(rows, row, col)[0] == 'n');
    assert(json_cell(rows, row, other)[0] == '"');
}

/// The six bits a character stands for, and zero for padding.
pub open spec fn base64_value(c: char) -> int {
    let n = c as u32;
    if 'A' as u32 <= n <= 'Z' as u32 {
        n - 'A' as u32
    } else if 'a' as u32 <= n <= 'z' as u32 {
        n - 'a' as u32 + 26
    } else if '0' as u32 <= n <= '9' as u32 {
        n - '0' as u32 + 52
    } else if c == '+' {
        62
    } else if c == '/' {
        63
    } else {
        0
    }
}

/// The `i`th byte that a reader of base64 takes from a payload.
pub open spec fn decoded_byte(payload: Seq<char>, i: int) -> int {
    let k = i / 3 * 4;
    let n = base64_value(payload[k]) * 262144 + base64_value(payload[k + 1]) * 4096 + base64_value(
        payload[k + 2],
    ) * 64 + base64_value(payload[k + 3]);
    if i % 3 == 0 {
        n / 65536
    } else if i % 3 == 1 {
        n / 256 % 256
    } else {
        n % 256
    }
}

proof fn a_character_says_its_six_bits(n: int)
    requires
        0 <= n < 64,
    ensures
        base64_value(base64_char(n)) == n,
{
}

proof fn a_place_in_base64_says_its_six_bits(bytes: Seq<u8>, k: int)
    requires
        0 <= k < base64_len(bytes.len() as int),
    ensures
        base64_value(base64_bytes(bytes)[k]) == six_bits(bytes, k),
        0 <= six_bits(bytes, k) < 64,
{
    let i = k / 4 * 3;
    let n = three_bytes(bytes, i);
    assert(0 <= n < 16777216);
    if 6 * k < 8 * bytes.len() {
        a_character_says_its_six_bits(six_bits(bytes, k));
    } else {
        // Padding begins where the bytes have ended, and zeros stand there.
        assert(k % 4 >= 2);
        assert(byte_or_zero(bytes, i + 2) == 0);
        if k % 4 == 2 {
            assert(byte_or_zero(bytes, i + 1) == 0);
        }
    }
}

proof fn four_parts_make_the_number(n: int)
    requires
        0 <= n < 16777216,
    ensures
        n == n / 262144 * 262144 + n / 4096 % 64 * 4096 + n / 64 % 64 * 64 + n % 64,
{
    assert(n == n / 64 * 64 + n % 64);
    let m = n / 64;
    assert(m == m / 64 * 64 + m % 64);
    assert(m / 64 == n / 4096);
    let l = n / 4096;
    assert(l == l / 64 * 64 + l % 64);
    assert(l / 64 == n / 262144);
}

proof fn three_bytes_are_the_number(a: int, b: int, c: int)
    requires
        0 <= a < 256,
        0 <= b < 256,
        0 <= c < 256,
    ensures
        ({
            let n = a * 65536 + b * 256 + c;
            0 <= n < 16777216 && n / 65536 == a && n / 256 % 256 == b && n % 256 == c
        }),
{
}

proof fn a_group_says_its_three_bytes(bytes: Seq<u8>, g: int)
    requires
        0 <= g,
        3 * g < bytes.len(),
    ensures
        ({
            let payload = base64_bytes(bytes);
            let n = three_bytes(bytes, 3 * g);
            &&& base64_value(payload[4 * g]) == n / 262144
            &&& base64_value(payload[4 * g + 1]) == n / 4096 % 64
            &&& base64_value(payload[4 * g + 2]) == n / 64 % 64
            &&& base64_value(payload[4 * g + 3]) == n % 64
        }),
{
    a_place_in_base64_says_its_six_bits(bytes, 4 * g);
    a_place_in_base64_says_its_six_bits(bytes, 4 * g + 1);
    a_place_in_base64_says_its_six_bits(bytes, 4 * g + 2);
    a_place_in_base64_says_its_six_bits(bytes, 4 * g + 3);
    assert((4 * g) / 4 == g && (4 * g + 1) / 4 == g && (4 * g + 2) / 4 == g && (4 * g + 3) / 4
        == g);
}

/// What a terminal takes from the payload is what was copied: byte for byte,
/// reading base64 gives back what was written in it.
pub proof fn a_payload_holds_what_was_copied(bytes: Seq<u8>, i: int)
    requires
        0 <= i < bytes.len(),
    ensures
        decoded_byte(base64_bytes(bytes), i) == bytes[i],
{
    let g = i / 3;
    a_group_says_its_three_bytes(bytes, g);
    let n = three_bytes(bytes, 3 * g);
    three_bytes_are_the_number(
        byte_or_zero(bytes, 3 * g),
        byte_or_zero(bytes, 3 * g + 1),
        byte_or_zero(bytes, 3 * g + 2),
    );
    four_parts_make_the_number(n);
    assert(i / 3 * 4 == 4 * g);
    assert(i == 3 * g + i % 3);
}

} // verus!
