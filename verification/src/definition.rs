//! The definition pane: a list of sections, and one of them in the grid.
//!
//! One at a time rather than five stacked, because five grids in one pane give
//! each of them four rows. A list on the left and a grid beside it is the
//! arrangement the explorer and the preview already have, and it means the
//! grid, its scrolling, its selection and its copy are the ones that exist.

use crate::chrome::{fit, fitted, padded, spaced};
use crate::geometry::{least, Rect};
use crate::grid::{sanitise, sanitised};
use crate::history::headed;
use crate::hit::{Target, Z_CHROME};
use crate::model::{Column, ColumnDetail, Datum, PagedResult, Row, Section, TableDetail};
use crate::paint::{styled, Canvas, CanvasView, Color, Span, Style};
use crate::search::views;
use crate::text::{copy_of, join, joined, lowercase, pairs, push_all, some_text, texts};
use std::sync::Arc;
use vstd::prelude::*;

verus! {

/// A definition laid out for this screen.
///
/// Turning `nullable: false` into the words `not null` is a display decision,
/// and this is where it is made: an agent that asks for the same definition is
/// sent the boolean.
#[derive(Debug)]
pub struct Laid {
    pub kind: String,
    pub comment: Option<String>,
    pub columns: Arc<PagedResult>,
    pub sections: Vec<(String, Arc<PagedResult>)>,
    pub ddl: Option<String>,
    pub stats: Vec<(String, String)>,
}

// ── what is in it ──────────────────────────────────────────────────────────

/// What the columns of a definition's own columns are called, and which of them
/// can have nothing in them. All of them are text.
pub open spec fn headings() -> Seq<(Seq<char>, Seq<char>, bool)> {
    seq![
        ("column"@, "text"@, false),
        ("type"@, "text"@, false),
        ("null"@, "text"@, false),
        ("default"@, "text"@, true),
        ("comment"@, "text"@, true),
    ]
}

/// The word for whether a column may be null. A word rather than a boolean:
/// `false` under a column headed `null` is two negatives to hold at once.
pub open spec fn null_word(nullable: bool) -> Seq<char> {
    if nullable {
        ""@
    } else {
        "not null"@
    }
}

/// Whether a row says of a column what the headings promise.
pub open spec fn describes(row: Row, column: ColumnDetail) -> bool {
    &&& row.0@.len() == 5
    &&& row.0@[0].says(column.name@)
    &&& row.0@[1].says(column.type_label@)
    &&& row.0@[2].says(null_word(column.nullable))
    &&& row.0@[3].says_maybe(some_text(column.default))
    &&& row.0@[4].says_maybe(some_text(column.comment))
}

/// Whether these rows are a definition's columns.
pub open spec fn lists_columns(rows: PagedResult, detail: TableDetail) -> bool {
    &&& rows.edition == detail.edition
    &&& headed(rows.columns@) == headings()
    &&& rows.rows@.len() == detail.columns@.len()
    &&& forall|i: int|
        0 <= i < detail.columns@.len() ==> describes(#[trigger] rows.rows@[i], detail.columns@[i])
    &&& rows.first_page == rows.rows@.len()
    &&& rows.total == Some(detail.columns@.len() as u64)
}

pub open spec fn section_titles(sections: Seq<(String, Arc<PagedResult>)>) -> Seq<Seq<char>> {
    sections.map_values(|s: (String, Arc<PagedResult>)| s.0@)
}

pub open spec fn detail_titles(sections: Seq<Section>) -> Seq<Seq<char>> {
    sections.map_values(|s: Section| s.title@)
}

/// Whether this is how a definition is laid out.
pub open spec fn lays_out(laid: Laid, detail: TableDetail) -> bool {
    &&& laid.kind@ == detail.kind@
    &&& some_text(laid.comment) == some_text(detail.comment)
    &&& lists_columns(*laid.columns, detail)
    &&& laid.sections@.len() == detail.sections@.len()
    &&& section_titles(laid.sections@) == detail_titles(detail.sections@)
    &&& forall|i: int|
        0 <= i < detail.sections@.len() ==> (#[trigger] laid.sections@[i]).1
            == detail.sections@[i].table
    &&& some_text(laid.ddl) == some_text(detail.ddl)
    &&& pairs(laid.stats@) == pairs(detail.stats@)
}

/// How many sections the list has: the columns, the driver's own, and the
/// statement last if there is one.
pub open spec fn sections_of(detail: TableDetail) -> int {
    1 + detail.sections@.len() + if detail.ddl is Some {
        1int
    } else {
        0
    }
}

/// Whether the section at `index` is the statement.
pub open spec fn statement_at(detail: TableDetail, index: int) -> bool {
    detail.ddl is Some && index == detail.sections@.len() + 1
}

fn row_of(column: &ColumnDetail) -> (r: Row)
    ensures
        describes(r, *column),
{
    let mut cells: Vec<Datum> = Vec::new();
    cells.push(Datum::text(column.name.clone()));
    cells.push(Datum::text(column.type_label.clone()));
    cells.push(
        Datum::text(
            if column.nullable {
                copy_of("")
            } else {
                copy_of("not null")
            },
        ),
    );
    cells.push(Datum::maybe(column.default.clone()));
    cells.push(Datum::maybe(column.comment.clone()));
    Row(cells)
}

fn columns_of(detail: &TableDetail) -> (r: PagedResult)
    ensures
        lists_columns(r, *detail),
{
    let mut columns: Vec<Column> = Vec::new();
    columns.push(Column::new("column", "text", false));
    columns.push(Column::new("type", "text", false));
    columns.push(Column::new("null", "text", false));
    columns.push(Column::new("default", "text", true));
    columns.push(Column::new("comment", "text", true));
    proof {
        assert(headed(columns@) =~= headings());
    }
    let mut rows: Vec<Row> = Vec::new();
    let mut i: usize = 0;
    while i < detail.columns.len()
        invariant
            i <= detail.columns@.len(),
            rows@.len() == i,
            forall|j: int| 0 <= j < i ==> describes(#[trigger] rows@[j], detail.columns@[j]),
        decreases detail.columns@.len() - i,
    {
        rows.push(row_of(&detail.columns[i]));
        i += 1;
    }
    let total: Option<u64> = Some(detail.columns.len() as u64);
    PagedResult::new(detail.edition, columns, rows, total)
}

impl Laid {
    /// The columns as a grid, and every other section beside them.
    ///
    /// Columns become a section like the rest here, which is what lets the
    /// pane draw one list and one grid rather than a special case in front of
    /// a loop.
    pub fn out(detail: &TableDetail) -> (r: Self)
        ensures
            lays_out(r, *detail),
    {
        let mut sections: Vec<(String, Arc<PagedResult>)> = Vec::new();
        let mut i: usize = 0;
        while i < detail.sections.len()
            invariant
                i <= detail.sections@.len(),
                sections@.len() == i,
                forall|j: int|
                    0 <= j < i ==> (#[trigger] sections@[j]).0@ == detail.sections@[j].title@
                        && sections@[j].1 == detail.sections@[j].table,
            decreases detail.sections@.len() - i,
        {
            sections.push(
                (detail.sections[i].title.clone(), Arc::clone(&detail.sections[i].table)),
            );
            i += 1;
        }
        let mut stats: Vec<(String, String)> = Vec::new();
        let mut k: usize = 0;
        while k < detail.stats.len()
            invariant
                k <= detail.stats@.len(),
                stats@.len() == k,
                forall|j: int|
                    0 <= j < k ==> (#[trigger] stats@[j]).0@ == detail.stats@[j].0@ && stats@[j].1@
                        == detail.stats@[j].1@,
            decreases detail.stats@.len() - k,
        {
            stats.push((detail.stats[k].0.clone(), detail.stats[k].1.clone()));
            k += 1;
        }
        let laid: Laid = Laid {
            kind: detail.kind.clone(),
            comment: detail.comment.clone(),
            columns: Arc::new(columns_of(detail)),
            sections,
            ddl: detail.ddl.clone(),
            stats,
        };
        proof {
            assert(section_titles(laid.sections@) =~= detail_titles(detail.sections@));
            assert(pairs(laid.stats@) =~= pairs(detail.stats@));
        }
        laid
    }

    /// What the list says.
    pub open spec fn title_list(self) -> Seq<Seq<char>> {
        seq!["Columns"@] + section_titles(self.sections@) + if self.ddl is Some {
            seq!["DDL"@]
        } else {
            Seq::empty()
        }
    }

    /// Every section this pane can show: columns, the driver's own, and the
    /// DDL last if there is one.
    ///
    /// Columns lead because they are what somebody opened the pane for. The
    /// DDL is last because it is the longest and the one most often skipped.
    pub fn titles(&self) -> (r: Vec<String>)
        ensures
            texts(r@) == self.title_list(),
    {
        let mut out: Vec<String> = Vec::new();
        out.push(copy_of("Columns"));
        let mut i: usize = 0;
        while i < self.sections.len()
            invariant
                i <= self.sections@.len(),
                out@.len() == i + 1,
                out@[0]@ == "Columns"@,
                forall|j: int| 0 <= j < i ==> (#[trigger] out@[j + 1])@ == self.sections@[j].0@,
            decreases self.sections@.len() - i,
        {
            out.push(self.sections[i].0.clone());
            i += 1;
        }
        let ghost so_far = out@;
        if self.ddl.is_some() {
            out.push(copy_of("DDL"));
        }
        proof {
            assert forall|k: int| 0 <= k < self.title_list().len() implies texts(out@)[k]
                == self.title_list()[k] by {
                if 0 < k <= self.sections@.len() {
                    assert(so_far[(k - 1) + 1]@ == self.sections@[k - 1].0@);
                }
            }
            assert(texts(out@) =~= self.title_list());
        }
        out
    }

    /// The rows under the section at `index`.
    pub open spec fn rows_at(self, index: int) -> Option<PagedResult> {
        if index == 0 {
            Some(*self.columns)
        } else if 0 < index <= self.sections@.len() {
            Some(*self.sections@[index - 1].1)
        } else {
            None
        }
    }

    /// The rows under the section at `index`, or `None` for the DDL — which is
    /// text. A caller drawing whichever of the two is there cannot show the
    /// wrong one.
    pub fn rows(&self, index: usize) -> (r: Option<&Arc<PagedResult>>)
        ensures
            match r {
                Some(rows) => self.rows_at(index as int) == Some(**rows),
                None => self.rows_at(index as int) is None,
            },
    {
        if index == 0 {
            Some(&self.columns)
        } else if index - 1 < self.sections.len() {
            Some(&self.sections[index - 1].1)
        } else {
            None
        }
    }

    /// The statement, when `index` is the DDL section.
    pub fn statement(&self, index: usize) -> (r: Option<&String>)
        ensures
            r is Some <==> self.ddl is Some && index == self.sections@.len() + 1,
            r matches Some(text) ==> self.ddl == Some(*text),
    {
        match &self.ddl {
            Some(ddl) => if index > 0 && index - 1 == self.sections.len() {
                Some(ddl)
            } else {
                None
            },
            None => None,
        }
    }
}

/// Whether the section at `index` is the DDL, without laying anything out.
///
/// Asked of the detail rather than of a [`Laid`], because the questions on the
/// input path (is this section scrolled by line or by row?) would otherwise
/// build every section's grid to answer one boolean.
pub fn is_statement(detail: &TableDetail, index: usize) -> (b: bool)
    ensures
        b == statement_at(*detail, index as int),
{
    detail.ddl.is_some() && index > 0 && index - 1 == detail.sections.len()
}

/// How many sections the list has, which is the clamp every section index
/// wants and the one thing [`Laid::titles`] is otherwise built for.
pub fn section_count(detail: &TableDetail) -> (n: usize)
    ensures
        n == least(sections_of(*detail), usize::MAX as int),
{
    let with_columns: usize = detail.sections.len().saturating_add(1);
    if detail.ddl.is_some() {
        with_columns.saturating_add(1)
    } else {
        with_columns
    }
}

// ── the line above the grid ────────────────────────────────────────────────

pub open spec fn stat_text(stat: (String, String)) -> Seq<char> {
    lowercase(stat.0@) + ": "@ + stat.1@
}

pub open spec fn comment_part(comment: Option<String>) -> Seq<Seq<char>> {
    match comment {
        Some(comment) => seq![sanitised(comment@)],
        None => Seq::empty(),
    }
}

/// What the pane says above the grid.
pub open spec fn summed_up(laid: Laid) -> Seq<char> {
    joined(
        seq![laid.kind@] + laid.stats@.map_values(|s: (String, String)| stat_text(s))
            + comment_part(laid.comment),
        " · "@,
    )
}

/// What the pane says above the grid: what this relation is, and its numbers.
///
/// One line, because the sections below it are the content and a header that
/// grows pushes them off the screen.
pub fn summary(definition: &Laid) -> (r: String)
    ensures
        r@ == summed_up(*definition),
{
    let ghost wanted = seq![definition.kind@] + definition.stats@.map_values(
        |s: (String, String)| stat_text(s),
    ) + comment_part(definition.comment);
    let mut parts: Vec<String> = Vec::new();
    parts.push(definition.kind.clone());
    let mut i: usize = 0;
    while i < definition.stats.len()
        invariant
            i <= definition.stats@.len(),
            parts@.len() == i + 1,
            parts@[0]@ == definition.kind@,
            forall|j: int| 0 <= j < i ==> (#[trigger] parts@[j + 1])@ == stat_text(definition.stats@[j]),
        decreases definition.stats@.len() - i,
    {
        let mut part: String = definition.stats[i].0.as_str().to_lowercase();
        push_all(&mut part, ": ");
        push_all(&mut part, definition.stats[i].1.as_str());
        parts.push(part);
        i += 1;
    }
    let ghost so_far = parts@;
    if let Some(comment) = &definition.comment {
        parts.push(sanitise(comment.as_str()));
    }
    proof {
        assert forall|k: int| 0 <= k < wanted.len() implies texts(parts@)[k] == wanted[k] by {
            if 0 < k <= definition.stats@.len() {
                assert(so_far[(k - 1) + 1]@ == stat_text(definition.stats@[k - 1]));
            }
        }
        assert(texts(parts@) =~= wanted);
    }
    join(&parts, " · ")
}

// ── what every definition keeps to ─────────────────────────────────────────

/// The cheap answers are the same answers: what can be asked of a definition
/// without laying it out agrees with the layout, section by section. Every
/// section of the list is rows or the statement, and never both.
pub proof fn the_cheap_answers_are_the_same_answers(laid: Laid, detail: TableDetail, index: int)
    requires
        lays_out(laid, detail),
    ensures
        laid.title_list().len() == sections_of(detail),
        statement_at(detail, index) <==> laid.ddl is Some && index == laid.sections@.len() + 1,
        0 <= index < sections_of(detail) ==> (laid.rows_at(index) is Some) != statement_at(
            detail,
            index,
        ),
{
}

// ── the list of sections ───────────────────────────────────────────────────

/// How wide the section list gets.
///
/// Fixed, and wide enough for the longest title any driver produces —
/// "Partitioning" — plus its marker. A splitter for it would be a third
/// draggable edge on a screen that has two, for a list nobody resizes.
pub const LIST_WIDTH: u16 = 16;

/// What a line of the list is painted in.
pub open spec fn section_style(selected: bool) -> Style {
    if selected {
        Style::colored(Color::Black).on(Color::Cyan).in_bold()
    } else {
        Style::colored(Color::Gray)
    }
}

/// A frame with the lines of the list from one of them on, as far as there are
/// rows for them.
pub open spec fn list_drawn(
    c: CanvasView,
    area: Rect,
    titles: Seq<Seq<char>>,
    selected: usize,
    from: int,
) -> CanvasView
    decreases titles.len() - from,
{
    if from < 0 || from >= titles.len() || from >= area.height {
        c
    } else {
        let row = Rect::cut(area.x, (area.y + from) as u16, LIST_WIDTH as int, 1);
        list_drawn(
            c.hit(row, Z_CHROME, Target::Section { index: from as usize }).lined(
                row,
                seq![
                    styled(
                        spaced(fitted(titles[from], (LIST_WIDTH - 2) as u16)),
                        section_style(from == selected),
                    ),
                ],
                Style::plain(),
            ),
            area,
            titles,
            selected,
            from + 1,
        )
    }
}

/// Whether a list and a grid both fit.
pub open spec fn lists_sections(area: Rect) -> bool {
    area.width > LIST_WIDTH * 2
}

/// A frame with the list on it, where there is room for one.
pub open spec fn sections_drawn(
    c: CanvasView,
    area: Rect,
    titles: Seq<Seq<char>>,
    selected: usize,
) -> CanvasView {
    if lists_sections(area) {
        list_drawn(c, area, titles, selected, 0)
    } else {
        c
    }
}

/// What the list leaves of an area.
pub open spec fn beside_the_list(area: Rect) -> Rect {
    if lists_sections(area) {
        Rect {
            x: (area.x + LIST_WIDTH) as u16,
            width: (area.width - LIST_WIDTH) as u16,
            ..area
        }
    } else {
        area
    }
}

/// The list, and the area left for the grid.
///
/// Returns the grid's rectangle so the caller draws into what is left rather
/// than working the arithmetic out a second time and disagreeing about it.
pub fn sections(canvas: &mut Canvas, area: Rect, definition: &Laid, selected: usize) -> (r: Rect)
    requires
        area.fits(),
    ensures
        final(canvas)@ == sections_drawn(
            old(canvas)@,
            area,
            definition.title_list(),
            selected,
        ),
        r == beside_the_list(area),
        r.fits(),
{
    // Below the width where a list and a grid both fit, the grid wins: the
    // list names what you could look at and the grid is what you are looking
    // at.
    if area.width <= LIST_WIDTH * 2 {
        return area;
    }
    let titles: Vec<String> = definition.titles();
    let ghost all = definition.title_list();
    let ghost start = canvas@;
    let mut index: usize = 0;
    while index < titles.len() && index < area.height as usize
        invariant
            area.fits(),
            texts(titles@) == all,
            titles@.len() == all.len(),
            list_drawn(start, area, all, selected, 0) == list_drawn(
                canvas@,
                area,
                all,
                selected,
                index as int,
            ),
        decreases titles@.len() - index,
    {
        proof {
            assert(texts(titles@)[index as int] == titles@[index as int]@);
        }
        let row: Rect = Rect::new(area.x, area.y + index as u16, LIST_WIDTH, 1);
        canvas.hit(row, Z_CHROME, Target::Section { index });
        let style: Style = if index == selected {
            Style::of(Color::Black).bg(Color::Cyan).bold()
        } else {
            Style::of(Color::Gray)
        };
        let text: String = fit(titles[index].as_str(), LIST_WIDTH - 2);
        let span: Span = Span::styled(padded(text.as_str()), style);
        let ghost said = span@;
        let spans: Vec<Span> = vec![span];
        proof {
            assert(views(spans@) =~= seq![said]);
        }
        canvas.line(row, spans, Style::new());
        index += 1;
    }
    Rect {
        x: area.x + LIST_WIDTH,
        y: area.y,
        width: area.width - LIST_WIDTH,
        height: area.height,
    }
}

} // verus!
