//! What a reader makes of cells that were copied as lines.
//!
//! Nothing here runs: the reader is whatever the text is pasted into. It is
//! written down so that copying can be held to it — a field comes back as the
//! text it was, whatever commas, quotes and line ends are in it.

use crate::copy::{
    bare, csv_cell, csv_row, csv_rows, field, needs_quotes, part_there, rendered, Area, Format,
};
use crate::model::PagedResult;
use crate::text::replaced;
use vstd::prelude::*;

verus! {

/// Where in a field a reader is.
pub enum Place {
    /// Before its first character.
    Fresh,
    /// In one that is not in quotes.
    Bare,
    /// Inside quotes.
    Quoted,
    /// After a quote inside quotes, which ends the field or is one of two.
    Closing,
}

/// What has been read so far.
#[verifier::ext_equal]
pub struct Reader {
    /// The lines that have ended.
    pub lines: Seq<Seq<Seq<char>>>,
    /// The fields of this line that have ended.
    pub fields: Seq<Seq<char>>,
    /// This field.
    pub text: Seq<char>,
    pub place: Place,
}

impl Reader {
    /// At the start of a line, after some others.
    pub open spec fn at_line(lines: Seq<Seq<Seq<char>>>) -> Reader {
        Reader { lines, fields: Seq::empty(), text: Seq::empty(), place: Place::Fresh }
    }

    pub open spec fn field_ended(self) -> Reader {
        Reader {
            fields: self.fields.push(self.text),
            text: Seq::empty(),
            place: Place::Fresh,
            ..self
        }
    }

    pub open spec fn line_ended(self) -> Reader {
        Reader::at_line(self.lines.push(self.fields.push(self.text)))
    }

    /// After one more character. A comma or a line end inside quotes is a
    /// character like another, and two quotes inside quotes are one.
    pub open spec fn reading(self, c: char) -> Reader {
        match self.place {
            Place::Quoted => if c == '"' {
                Reader { place: Place::Closing, ..self }
            } else {
                Reader { text: self.text.push(c), ..self }
            },
            place => if c == ',' {
                self.field_ended()
            } else if c == '\n' {
                self.line_ended()
            } else if c == '"' && !(place is Bare) {
                Reader {
                    text: if place is Closing {
                        self.text.push('"')
                    } else {
                        self.text
                    },
                    place: Place::Quoted,
                    ..self
                }
            } else {
                Reader { text: self.text.push(c), place: Place::Bare, ..self }
            },
        }
    }

    /// After some characters more.
    pub open spec fn after(self, s: Seq<char>) -> Reader
        decreases s.len(),
    {
        if s.len() == 0 {
            self
        } else {
            self.after(s.drop_last()).reading(s.last())
        }
    }
}

/// What a text says to a reader: its lines, each with its fields.
pub open spec fn read(s: Seq<char>) -> Reader {
    Reader::at_line(Seq::empty()).after(s)
}

proof fn reading_one_then_the_other(r: Reader, a: Seq<char>, b: Seq<char>)
    ensures
        r.after(a + b) == r.after(a).after(b),
    decreases b.len(),
{
    if b.len() == 0 {
        assert(a + b =~= a);
    } else {
        assert((a + b).drop_last() =~= a + b.drop_last());
        assert((a + b).last() == b.last());
        reading_one_then_the_other(r, a, b.drop_last());
    }
}

proof fn reading_one_character(r: Reader, c: char)
    ensures
        r.after(seq![c]) == r.reading(c),
{
    assert(seq![c].drop_last() =~= Seq::empty());
    assert(r.after(seq![c].drop_last()) == r);
}

proof fn a_plain_field_is_itself(r: Reader, s: Seq<char>)
    requires
        r.place is Fresh,
        r.text.len() == 0,
        !needs_quotes(s),
    ensures
        r.after(s) == (Reader {
            text: s,
            place: if s.len() == 0 {
                Place::Fresh
            } else {
                Place::Bare
            },
            ..r
        }),
    decreases s.len(),
{
    if s.len() == 0 {
        assert(r.text =~= s);
    } else {
        let before = s.drop_last();
        assert forall|c: char| before.contains(c) implies s.contains(c) by {
            let i = choose|i: int| 0 <= i < before.len() && before[i] == c;
            assert(s[i] == c);
        }
        a_plain_field_is_itself(r, before);
        assert(s.contains(s.last())) by {
            assert(s[s.len() - 1] == s.last());
        }
        assert(before.push(s.last()) =~= s);
    }
}

proof fn doubled_quotes_are_one(r: Reader, s: Seq<char>)
    requires
        r.place is Quoted,
    ensures
        r.after(replaced(s, '"', seq!['"', '"'])) == (Reader { text: r.text + s, ..r }),
    decreases s.len(),
{
    let two = seq!['"', '"'];
    if s.len() == 0 {
        assert(r.text + s =~= r.text);
        assert(replaced(s, '"', two) =~= Seq::empty());
    } else {
        let before = s.drop_last();
        let said = replaced(before, '"', two);
        doubled_quotes_are_one(r, before);
        let there = r.after(said);
        assert((r.text + before).push(s.last()) =~= r.text + s);
        if s.last() == '"' {
            reading_one_then_the_other(r, said, two);
            assert(two =~= seq!['"'] + seq!['"']);
            reading_one_then_the_other(there, seq!['"'], seq!['"']);
            reading_one_character(there, '"');
            reading_one_character(there.reading('"'), '"');
        } else {
            assert(said.push(s.last()) =~= said + seq![s.last()]);
            reading_one_then_the_other(r, said, seq![s.last()]);
            reading_one_character(there, s.last());
        }
    }
}

/// A field comes back as the text it was: after it, the next comma or line end
/// ends it there and nowhere before.
pub proof fn a_field_comes_back(r: Reader, s: Seq<char>)
    requires
        r.place is Fresh,
        r.text.len() == 0,
    ensures
        r.after(field(s)).text == s,
        !(r.after(field(s)).place is Quoted),
        r.after(field(s)).fields == r.fields,
        r.after(field(s)).lines == r.lines,
{
    if needs_quotes(s) {
        reveal_strlit("\"");
        reveal_strlit("\"\"");
        assert("\""@ =~= seq!['"']);
        assert("\"\""@ =~= seq!['"', '"']);
        let inner = replaced(s, '"', seq!['"', '"']);
        let opened = r.reading('"');
        reading_one_character(r, '"');
        reading_one_then_the_other(r, seq!['"'], inner);
        doubled_quotes_are_one(opened, s);
        assert(opened.text + s =~= s);
        reading_one_then_the_other(r, seq!['"'] + inner, seq!['"']);
        reading_one_character(opened.after(inner), '"');
    } else {
        a_plain_field_is_itself(r, s);
    }
}

/// What a cell says, before it is put in a line: nothing for a null.
pub open spec fn said(rows: PagedResult, row: int, col: int) -> Seq<char> {
    match rows.datum_at(row, col) {
        Some(datum) => if datum.value is Null {
            Seq::empty()
        } else {
            bare(datum.json)
        },
        None => Seq::empty(),
    }
}

/// What the cells of a row say, from `left` up to and without `end`.
pub open spec fn said_in_row(rows: PagedResult, row: int, left: int, end: int) -> Seq<Seq<char>> {
    Seq::new((end - left) as nat, |j: int| said(rows, row, left + j))
}

/// What the cells of a rectangle say, row by row.
pub open spec fn said_in(
    rows: PagedResult,
    top: int,
    end: int,
    left: int,
    right: int,
) -> Seq<Seq<Seq<char>>> {
    Seq::new((end - top) as nat, |i: int| said_in_row(rows, top + i, left, right))
}

proof fn a_cell_comes_back(r: Reader, rows: PagedResult, row: int, col: int)
    requires
        r.place is Fresh,
        r.text.len() == 0,
    ensures
        r.after(csv_cell(rows, row, col)).text == said(rows, row, col),
        !(r.after(csv_cell(rows, row, col)).place is Quoted),
        r.after(csv_cell(rows, row, col)).fields == r.fields,
        r.after(csv_cell(rows, row, col)).lines == r.lines,
{
    match rows.datum_at(row, col) {
        Some(datum) => if datum.value is Null {
            assert(r.text =~= Seq::empty());
        } else {
            a_field_comes_back(r, bare(datum.json));
        },
        None => {
            assert(r.text =~= Seq::empty());
        },
    }
}

proof fn a_row_comes_back(r: Reader, rows: PagedResult, row: int, left: int, end: int)
    requires
        r == Reader::at_line(r.lines),
        left < end,
    ensures
        ({
            let there = r.after(csv_row(rows, row, left, end));
            &&& there.fields.push(there.text) == said_in_row(rows, row, left, end)
            &&& there.lines == r.lines
            &&& !(there.place is Quoted)
        }),
    decreases end - left,
{
    if end == left + 1 {
        a_cell_comes_back(r, rows, row, left);
        let there = r.after(csv_row(rows, row, left, end));
        assert(there.fields.push(there.text) =~= said_in_row(rows, row, left, end));
    } else {
        a_row_comes_back(r, rows, row, left, end - 1);
        let earlier = csv_row(rows, row, left, end - 1);
        let cell = csv_cell(rows, row, end - 1);
        let before = r.after(earlier);
        let next = before.reading(',');
        reading_one_then_the_other(r, earlier, seq![',']);
        reading_one_character(before, ',');
        reading_one_then_the_other(r, earlier + seq![','], cell);
        a_cell_comes_back(next, rows, row, end - 1);
        let there = next.after(cell);
        assert(there.fields.push(there.text) =~= said_in_row(rows, row, left, end));
    }
}

proof fn the_rows_come_back(rows: PagedResult, top: int, end: int, left: int, right: int)
    requires
        top <= end,
        left < right,
    ensures
        read(csv_rows(rows, top, end, left, right)) == Reader::at_line(
            said_in(rows, top, end, left, right),
        ),
    decreases end - top,
{
    if end == top {
        assert(said_in(rows, top, end, left, right) =~= Seq::empty());
    } else {
        the_rows_come_back(rows, top, end - 1, left, right);
        let earlier = csv_rows(rows, top, end - 1, left, right);
        let line = csv_row(rows, end - 1, left, right);
        let start = Reader::at_line(said_in(rows, top, end - 1, left, right));
        a_row_comes_back(start, rows, end - 1, left, right);
        assert(line.push('\n') =~= line + seq!['\n']);
        reading_one_then_the_other(start, line, seq!['\n']);
        reading_one_character(start.after(line), '\n');
        reading_one_then_the_other(Reader::at_line(Seq::empty()), earlier, line.push('\n'));
        assert(said_in(rows, top, end - 1, left, right).push(
            said_in_row(rows, end - 1, left, right),
        ) =~= said_in(rows, top, end, left, right));
    }
}

/// Cells copied as lines come back as they were: read again, the text of a
/// rectangle is that rectangle, a line for each of its rows and a field for each
/// of its cells, with nothing left over.
pub proof fn what_is_copied_comes_back(rows: PagedResult, area: Area)
    requires
        part_there(rows, area) is Some,
    ensures
        part_there(rows, area) matches Some((top, left, bottom, right)) && read(
            rendered(rows, Format::Csv, area),
        ) == Reader::at_line(
            said_in(rows, top as int, bottom + 1, left as int, right + 1),
        ),
{
    if let Some((top, left, bottom, right)) = part_there(rows, area) {
        the_rows_come_back(rows, top as int, bottom + 1, left as int, right + 1);
    }
}

} // verus!
