//! The result grid.
//!
//! Only the cells on screen are ever formatted. [`RenderedGrid`] formats on
//! access for exactly this reason: a long relation is drawn by asking for the
//! thirty rows that fit, and the others cost nothing.
//!
//! Three kinds of hit target share the header row — the header itself sorts,
//! the seam between two headers resizes, and neither is the cell below. Getting
//! that layering wrong is how a drag to widen a column becomes a sort.

use crate::chrome::{fit, fitted, padded, scrollbar, scrollbar_drawn, spaced};
use crate::geometry::{least, less, min_u16, min_usize, Position, Rect};
use crate::grid::{
    cell_kind, cell_text, column_looks, looks, sanitise, sanitised, Align, Cell, CellKind,
    ColumnView, RenderedColumn, RenderedGrid,
};
use crate::hit::{
    grab_area, grabbed, nothing_above, target_at, what_is_elsewhere_changes_nothing,
    what_is_recorded_on_top_is_found, PaneId, Target, Z_CHROME, Z_CONTENT,
};
use crate::model::{LoadState, PagedResult, PreviewView, Sort, SortDir};
use crate::paint::{raw, styled, Canvas, CanvasView, Color, Span, Style};
use crate::search::views;
use crate::state::GridView;
use crate::text::{copy_of, display_columns, display_width, push_all, push_run, run_of};
use crate::ui::GridUi;
use std::sync::Arc;
use vstd::prelude::*;

verus! {

/// One blank column between neighbours, so values do not touch.
pub const GAP: u16 = 1;

/// The rows of a grid's place: without the header row or the column the
/// scrollbar keeps.
pub open spec fn body_place(area: Rect) -> Rect {
    Rect::cut(
        area.x,
        least(area.y + 1, u16::MAX as int) as u16,
        less(area.width as int, 1),
        less(area.height as int, 1),
    )
}

/// The rows of the grid: the pane's inside without the header row or the
/// column the scrollbar keeps.
///
/// The caller records *this* as the pane's viewport. Measured against the pane
/// instead, a page is one row too tall and `ScrollToEnd` stops a row short of
/// the end, so the last row of a relation can never be reached.
pub fn body_area(area: Rect) -> (r: Rect)
    ensures
        r == body_place(area),
        r.fits(),
{
    Rect::new(
        area.x,
        area.y.saturating_add(1),
        area.width.saturating_sub(1),
        area.height.saturating_sub(1),
    )
}

// ── words in place of a grid ───────────────────────────────────────────────

/// A frame with words where a grid would be.
pub open spec fn message_drawn(c: CanvasView, area: Rect, text: Seq<char>, color: Color) -> CanvasView {
    c.said(area, spaced(sanitised(text)), Style::colored(color))
}

pub fn message(canvas: &mut Canvas, area: Rect, text: &str, colour: Color)
    ensures
        final(canvas)@ == message_drawn(old(canvas)@, area, text@, colour),
{
    canvas.say(area, padded(sanitise(text).as_str()).as_str(), Style::of(colour));
}

// ── columns ────────────────────────────────────────────────────────────────

/// The columns that fit from one of them on, by index, left edge and width.
///
/// The last is cut to the edge rather than dropped: a column that is
/// half-visible can still be scrolled to, and dropping it leaves a band of
/// empty pane beside the data.
pub open spec fn columns_shown(
    columns: Seq<ColumnView>,
    grid: GridView,
    x: int,
    right: int,
    from: int,
) -> Seq<(usize, u16, u16)>
    decreases columns.len() - from,
{
    if from < 0 || from >= columns.len() || x >= right {
        Seq::empty()
    } else {
        let width = least(
            grid.width(from as usize, columns[from].natural_width) as int,
            right - x,
        );
        seq![(from as usize, x as u16, width as u16)] + columns_shown(
            columns,
            grid,
            least(x + width + GAP, u16::MAX as int),
            right,
            from + 1,
        )
    }
}

/// The columns an area has room for, from the horizontal offset.
pub open spec fn columns_in(area: Rect, rows: PagedResult, grid: GridView) -> Seq<(usize, u16, u16)> {
    columns_shown(
        column_looks(rows),
        grid,
        area.x as int,
        area.right_edge(),
        grid.col_offset as int,
    )
}

/// Columns that fit, as `(index, x, width)`, starting from the horizontal
/// offset.
pub fn visible_columns(area: Rect, grid: &RenderedGrid, ui: &GridUi) -> (r: Vec<(usize, u16, u16)>)
    ensures
        r@ == columns_in(area, grid.shown_rows(), ui@),
{
    let columns: &Vec<RenderedColumn> = grid.columns();
    let ghost all = column_looks(grid.shown_rows());
    let right: u16 = area.right();
    let mut out: Vec<(usize, u16, u16)> = Vec::new();
    let mut x: u16 = area.x;
    let mut index: usize = ui.col_offset;
    while index < columns.len() && x < right
        invariant
            looks(columns@) == all,
            columns@.len() == all.len(),
            right == area.right_edge(),
            columns_shown(all, ui@, area.x as int, right as int, ui.col_offset as int) == out@
                + columns_shown(all, ui@, x as int, right as int, index as int),
        decreases columns@.len() - index,
    {
        proof {
            assert(looks(columns@)[index as int] == columns@[index as int]@);
        }
        let wanted: u16 = ui.width(index, columns[index].natural_width);
        let width: u16 = min_u16(wanted, right - x);
        let ghost before = out@;
        out.push((index, x, width));
        let next: u16 = x.saturating_add(width).saturating_add(GAP);
        proof {
            let rest = columns_shown(all, ui@, next as int, right as int, index + 1);
            assert(before + (seq![(index, x, width)] + rest) =~= out@ + rest);
        }
        x = next;
        index += 1;
    }
    proof {
        assert(out@ + Seq::<(usize, u16, u16)>::empty() =~= out@);
    }
    out
}

/// The glyph drawn in a sorted column's header.
pub open spec fn arrow_of(sort: Option<Sort>, col: usize) -> Seq<char> {
    match sort {
        Some(sort) if sort.column == col => match sort.dir {
            SortDir::Asc => "▲"@,
            SortDir::Desc => "▼"@,
        },
        _ => ""@,
    }
}

fn arrow(sort: Option<Sort>, col: usize) -> (r: String)
    ensures
        r@ == arrow_of(sort, col),
{
    match sort {
        Some(sort) => if sort.column == col {
            match sort.dir {
                SortDir::Asc => copy_of("▲"),
                SortDir::Desc => copy_of("▼"),
            }
        } else {
            copy_of("")
        },
        None => copy_of(""),
    }
}

/// A frame with one column's header on it.
///
/// The seam belongs to the drag, and it is recorded after the header so it wins
/// where they overlap: a drag that started on the edge must not be read as a
/// click on the header and reorder the whole relation.
pub open spec fn heading_drawn(
    c: CanvasView,
    area: Rect,
    column: ColumnView,
    at: (usize, u16, u16),
    sortable: bool,
    sort: Option<Sort>,
) -> CanvasView {
    let (col, x, width) = at;
    let sorted = sort matches Some(sort) && sort.column == col;
    let marker = arrow_of(sort, col);
    let rect = Rect::cut(x, area.y, width as int, 1);
    let control = if sortable {
        c.hit(rect, Z_CONTENT, Target::GridHeader { col })
    } else {
        c
    };
    let named = control.lined(
        rect,
        seq![
            raw(
                fitted(
                    column.name,
                    less(width as int, display_columns(marker) as int) as u16,
                ),
            ),
            styled(marker, Style::colored(Color::Cyan)),
        ],
        Style::colored(
            if sorted {
                Color::Cyan
            } else {
                Color::Gray
            },
        ).in_bold(),
    );
    let seam = Rect::cut(least(x + width, u16::MAX as int) as u16, area.y, GAP as int, 1);
    if seam.right_edge() <= area.right_edge() {
        named.hit(grabbed(seam), Z_CHROME, Target::GridColEdge { col })
    } else {
        named
    }
}

/// A frame with the headers from one of them on.
pub open spec fn headings_drawn(
    c: CanvasView,
    area: Rect,
    rows: PagedResult,
    shown: Seq<(usize, u16, u16)>,
    sortable: bool,
    sort: Option<Sort>,
    from: int,
) -> CanvasView
    decreases shown.len() - from,
{
    if from < 0 || from >= shown.len() {
        c
    } else {
        headings_drawn(
            heading_drawn(
                c,
                area,
                column_looks(rows)[shown[from].0 as int],
                shown[from],
                sortable,
                sort,
            ),
            area,
            rows,
            shown,
            sortable,
            sort,
            from + 1,
        )
    }
}

/// A frame with the header row on it.
pub open spec fn header_drawn(
    c: CanvasView,
    area: Rect,
    rows: PagedResult,
    grid: GridView,
    sortable: bool,
    sort: Option<Sort>,
) -> CanvasView {
    headings_drawn(
        c.said(Rect::cut(area.x, area.y, area.width as int, 1), ""@, Style::plain().on(Color::Black)),
        area,
        rows,
        columns_in(area, rows, grid),
        sortable,
        sort,
        0,
    )
}

/// Every column that is shown is a column of the rows.
proof fn a_shown_column_is_there(
    columns: Seq<ColumnView>,
    grid: GridView,
    x: int,
    right: int,
    from: int,
)
    requires
        columns.len() <= usize::MAX,
    ensures
        forall|k: int|
            0 <= k < columns_shown(columns, grid, x, right, from).len() ==> (#[trigger] columns_shown(
                columns,
                grid,
                x,
                right,
                from,
            )[k]).0 < columns.len(),
    decreases columns.len() - from,
{
    if !(from < 0 || from >= columns.len() || x >= right) {
        let width = least(
            grid.width(from as usize, columns[from].natural_width) as int,
            right - x,
        );
        let next = least(x + width + GAP, u16::MAX as int);
        a_shown_column_is_there(columns, grid, next, right, from + 1);
        let rest = columns_shown(columns, grid, next, right, from + 1);
        let all = columns_shown(columns, grid, x, right, from);
        assert forall|k: int| 0 <= k < all.len() implies (#[trigger] all[k]).0 < columns.len() by {
            if k > 0 {
                assert(all[k] == rest[k - 1]);
            }
        }
    }
}

fn header(
    canvas: &mut Canvas,
    area: Rect,
    grid: &RenderedGrid,
    ui: &GridUi,
    sortable: bool,
    sort: Option<Sort>,
)
    ensures
        final(canvas)@ == header_drawn(
            old(canvas)@,
            area,
            grid.shown_rows(),
            ui@,
            sortable,
            sort,
        ),
{
    let row: Rect = Rect::new(area.x, area.y, area.width, 1);
    canvas.say(row, "", Style::new().bg(Color::Black));

    let columns: &Vec<RenderedColumn> = grid.columns();
    let n: usize = columns.len();
    let shown: Vec<(usize, u16, u16)> = visible_columns(area, grid, ui);
    let ghost rows = grid.shown_rows();
    let ghost start = canvas@;
    proof {
        assert(looks(columns@).len() == column_looks(rows).len());
        a_shown_column_is_there(
            column_looks(rows),
            ui@,
            area.x as int,
            area.right_edge(),
            ui.col_offset as int,
        );
    }
    let mut k: usize = 0;
    while k < shown.len()
        invariant
            k <= shown@.len(),
            n == columns@.len(),
            looks(columns@) == column_looks(rows),
            columns@.len() == column_looks(rows).len(),
            forall|k: int| 0 <= k < shown@.len() ==> (#[trigger] shown@[k]).0 < n,
            headings_drawn(start, area, rows, shown@, sortable, sort, 0) == headings_drawn(
                canvas@,
                area,
                rows,
                shown@,
                sortable,
                sort,
                k as int,
            ),
        decreases shown@.len() - k,
    {
        let at: (usize, u16, u16) = shown[k];
        proof {
            assert(shown@[k as int].0 < n);
            assert(looks(columns@)[at.0 as int] == columns@[at.0 as int]@);
        }
        heading(canvas, area, &columns[at.0], at, sortable, sort);
        k += 1;
    }
}

fn heading(
    canvas: &mut Canvas,
    area: Rect,
    column: &RenderedColumn,
    at: (usize, u16, u16),
    sortable: bool,
    sort: Option<Sort>,
)
    ensures
        final(canvas)@ == heading_drawn(old(canvas)@, area, column@, at, sortable, sort),
{
    let (col, x, width) = at;
    let sorted: bool = match sort {
        Some(sort) => sort.column == col,
        None => false,
    };
    let marker: String = arrow(sort, col);
    let rect: Rect = Rect::new(x, area.y, width, 1);
    if sortable {
        canvas.hit(rect, Z_CONTENT, Target::GridHeader { col });
    }
    // Terminal columns, not bytes: the arrow is three bytes and one cell, and
    // measuring it in bytes eats two cells of the name — enough to cut a
    // five-cell header down to `a…`.
    let text: String = fit(
        column.name.as_str(),
        width.saturating_sub(display_width(marker.as_str())),
    );
    let name: Span = Span::raw(text);
    let mark: Span = Span::styled(marker, Style::of(Color::Cyan));
    let ghost said = seq![name@, mark@];
    let spans: Vec<Span> = vec![name, mark];
    proof {
        assert(views(spans@) =~= said);
    }
    let style: Style = if sorted {
        Style::of(Color::Cyan).bold()
    } else {
        Style::of(Color::Gray).bold()
    };
    canvas.line(rect, spans, style);

    let seam: Rect = Rect::new(x.saturating_add(width), area.y, GAP, 1);
    if seam.right() <= area.right() {
        canvas.hit(grab_area(seam), Z_CHROME, Target::GridColEdge { col });
    }
}

// ── cells ──────────────────────────────────────────────────────────────────

/// A text in its place: numbers against the right of it.
pub open spec fn aligned(text: Seq<char>, width: u16, align: Align) -> Seq<char> {
    let room = run_of(' ', less(width as int, display_columns(text) as int) as nat);
    match align {
        Align::Left => text + room,
        Align::Right => room + text,
    }
}

/// Right-aligned columns line their digits up, which is the only way a column
/// of numbers can be compared by eye.
pub fn pad(text: &str, width: u16, align: Align) -> (r: String)
    ensures
        r@ == aligned(text@, width, align),
{
    let room: usize = width.saturating_sub(display_width(text)) as usize;
    let mut out: String = String::new();
    match align {
        Align::Left => {
            push_all(&mut out, text);
            push_run(&mut out, ' ', room);
        },
        Align::Right => {
            push_run(&mut out, ' ', room);
            push_all(&mut out, text);
        },
    }
    proof {
        assert(out@ =~= aligned(text@, width, align));
    }
    out
}

/// How a kind of cell is painted.
pub open spec fn cell_style(kind: CellKind, selected: bool) -> Style {
    let base = match kind {
        CellKind::Null => if selected {
            Style::colored(Color::Gray)
        } else {
            Style::colored(Color::DarkGray).dimmed()
        },
        CellKind::Number => Style::colored(Color::LightBlue),
        CellKind::Text => Style::plain(),
        CellKind::Complex => Style::colored(Color::Magenta),
        CellKind::Opaque => Style::colored(Color::Yellow),
    };
    if selected {
        base.on(Color::DarkGray).in_bold()
    } else {
        base
    }
}

pub fn style_for(kind: CellKind, selected: bool) -> (r: Style)
    ensures
        r == cell_style(kind, selected),
{
    let base: Style = match kind {
        // A null is dimmed against the pane, but the selection's background is
        // that same dark grey: left alone, moving the cursor onto a null makes
        // the ∅ vanish and the cell reads as an empty string instead.
        CellKind::Null => if selected {
            Style::of(Color::Gray)
        } else {
            Style::of(Color::DarkGray).dim()
        },
        CellKind::Number => Style::of(Color::LightBlue),
        CellKind::Text => Style::new(),
        CellKind::Complex => Style::of(Color::Magenta),
        CellKind::Opaque => Style::of(Color::Yellow),
    };
    if selected {
        base.bg(Color::DarkGray).bold()
    } else {
        base
    }
}

/// A frame with one cell on it.
pub open spec fn cell_drawn(
    c: CanvasView,
    y: u16,
    rows: PagedResult,
    grid: GridView,
    row: usize,
    at: (usize, u16, u16),
) -> CanvasView {
    let (col, x, width) = at;
    let rect = Rect::cut(x, y, width as int, 1);
    let value = rows.value_at(row as int, col as int);
    c.hit(rect, Z_CONTENT, Target::GridCell { row, col }).said(
        rect,
        aligned(fitted(cell_text(value), width), width, column_looks(rows)[col as int].align),
        cell_style(cell_kind(value), grid.row == row && grid.col == col),
    )
}

/// A frame with the cells of a row from one of them on.
pub open spec fn cells_drawn(
    c: CanvasView,
    y: u16,
    rows: PagedResult,
    grid: GridView,
    row: usize,
    shown: Seq<(usize, u16, u16)>,
    from: int,
) -> CanvasView
    decreases shown.len() - from,
{
    if from < 0 || from >= shown.len() {
        c
    } else {
        cells_drawn(
            cell_drawn(c, y, rows, grid, row, shown[from]),
            y,
            rows,
            grid,
            row,
            shown,
            from + 1,
        )
    }
}

/// A frame with the rows from one of them on, up to another.
pub open spec fn lines_drawn(
    c: CanvasView,
    area: Rect,
    rows: PagedResult,
    grid: GridView,
    shown: Seq<(usize, u16, u16)>,
    from: int,
    to: int,
) -> CanvasView
    decreases to - from,
{
    if from >= to {
        c
    } else {
        lines_drawn(
            cells_drawn(
                c,
                (area.y + (from - grid.row_offset)) as u16,
                rows,
                grid,
                from as usize,
                shown,
                0,
            ),
            area,
            rows,
            grid,
            shown,
            from + 1,
            to,
        )
    }
}

/// An area without the column the scrollbar keeps.
pub open spec fn content_place(area: Rect) -> Rect {
    if area.width > 1 {
        Rect { width: (area.width - 1) as u16, ..area }
    } else {
        area
    }
}

/// An area without its first row.
pub open spec fn under_header(area: Rect) -> Rect {
    Rect::cut(
        area.x,
        least(area.y + 1, u16::MAX as int) as u16,
        area.width as int,
        less(area.height as int, 1),
    )
}

/// A frame with a header, rows and a scrollbar on it.
pub open spec fn body_drawn(
    c: CanvasView,
    area: Rect,
    rows: PagedResult,
    grid: GridView,
    sortable: bool,
    sort: Option<Sort>,
) -> CanvasView {
    let content = content_place(area);
    let place = under_header(content);
    let drawn = lines_drawn(
        header_drawn(c, content, rows, grid, sortable, sort),
        place,
        rows,
        grid,
        columns_in(place, rows, grid),
        grid.row_offset as int,
        least(rows.rows@.len() as int, grid.row_offset + place.height),
    );
    if area.width > 1 {
        scrollbar_drawn(
            drawn,
            under_header(area),
            PaneId::Grid,
            grid.row_offset as int,
            rows.rows@.len() as int,
        )
    } else {
        drawn
    }
}

fn cells(
    canvas: &mut Canvas,
    y: u16,
    grid: &RenderedGrid,
    ui: &GridUi,
    row: usize,
    shown: &Vec<(usize, u16, u16)>,
)
    requires
        forall|k: int|
            0 <= k < shown@.len() ==> (#[trigger] shown@[k]).0
                < grid.shown_rows().columns@.len(),
    ensures
        final(canvas)@ == cells_drawn(
            old(canvas)@,
            y,
            grid.shown_rows(),
            ui@,
            row,
            shown@,
            0,
        ),
{
    let columns: &Vec<RenderedColumn> = grid.columns();
    let ghost rows = grid.shown_rows();
    let ghost start = canvas@;
    let mut k: usize = 0;
    while k < shown.len()
        invariant
            k <= shown@.len(),
            rows == grid.shown_rows(),
            looks(columns@) == column_looks(rows),
            columns@.len() == rows.columns@.len(),
            forall|k: int|
                0 <= k < shown@.len() ==> (#[trigger] shown@[k]).0 < rows.columns@.len(),
            cells_drawn(start, y, rows, ui@, row, shown@, 0) == cells_drawn(
                canvas@,
                y,
                rows,
                ui@,
                row,
                shown@,
                k as int,
            ),
        decreases shown@.len() - k,
    {
        let (col, x, width) = shown[k];
        proof {
            assert(shown@[k as int].0 < rows.columns@.len());
            assert(looks(columns@)[col as int] == columns@[col as int]@);
        }
        let rect: Rect = Rect::new(x, y, width, 1);
        canvas.hit(rect, Z_CONTENT, Target::GridCell { row, col });
        // Formatted here and nowhere else: this is the call the whole lazy
        // arrangement exists to keep down to what is on screen.
        let cell: Cell = grid.cell(row, col);
        let selected: bool = ui.row == row && ui.col == col;
        let text: String = pad(fit(cell.text.as_str(), width).as_str(), width, columns[col].align);
        canvas.say(rect, text.as_str(), style_for(cell.kind, selected));
        k += 1;
    }
}

fn body(
    canvas: &mut Canvas,
    area: Rect,
    grid: &RenderedGrid,
    ui: &GridUi,
    sortable: bool,
    sort: Option<Sort>,
)
    requires
        area.fits(),
        area.height > 0,
    ensures
        final(canvas)@ == body_drawn(old(canvas)@, area, grid.shown_rows(), ui@, sortable, sort),
{
    // One column is left for the scrollbar so a wide value is cut rather than
    // hidden behind the thumb.
    let bar: bool = area.width > 1;
    let content: Rect = if bar {
        Rect { x: area.x, y: area.y, width: area.width - 1, height: area.height }
    } else {
        area
    };
    header(canvas, content, grid, ui, sortable, sort);

    let place: Rect = Rect::new(
        content.x,
        content.y.saturating_add(1),
        content.width,
        content.height.saturating_sub(1),
    );
    let shown: Vec<(usize, u16, u16)> = visible_columns(place, grid, ui);
    let ghost rows = grid.shown_rows();
    proof {
        assert(column_looks(rows).len() == rows.columns@.len());
        let n: usize = rows.columns.len();
        a_shown_column_is_there(
            column_looks(rows),
            ui@,
            place.x as int,
            place.right_edge(),
            ui.col_offset as int,
        );
    }
    let last: usize = min_usize(
        grid.row_count(),
        ui.row_offset.saturating_add(place.height as usize),
    );
    let ghost start = canvas@;
    let mut index: usize = ui.row_offset;
    while index < last
        invariant
            place.fits(),
            rows == grid.shown_rows(),
            ui.row_offset <= index,
            last <= ui.row_offset + place.height,
            forall|k: int|
                0 <= k < shown@.len() ==> (#[trigger] shown@[k]).0 < rows.columns@.len(),
            lines_drawn(start, place, rows, ui@, shown@, ui.row_offset as int, last as int)
                == lines_drawn(canvas@, place, rows, ui@, shown@, index as int, last as int),
        decreases last - index,
    {
        let y: u16 = place.y + (index - ui.row_offset) as u16;
        cells(canvas, y, grid, ui, index, &shown);
        index += 1;
    }
    if bar {
        // The full width of the pane, not the content's: the column held back
        // above is the one at the right edge, and handing the scrollbar the
        // narrowed rectangle draws the thumb one cell to its left — over the
        // value the reserved column existed to keep clear, leaving a dead
        // stripe down the edge.
        scrollbar(
            canvas,
            Rect::new(
                area.x,
                area.y.saturating_add(1),
                area.width,
                area.height.saturating_sub(1),
            ),
            PaneId::Grid,
            ui.row_offset,
            grid.row_count(),
        );
    }
}

// ── the grid ───────────────────────────────────────────────────────────────

/// A frame with the rows that a grid shows on it.
///
/// The columns of an empty relation are still worth drawing: with its headers
/// it reads as "nothing here", and without them as "nothing happened".
pub open spec fn grid_drawn(
    c: CanvasView,
    area: Rect,
    rows: PagedResult,
    grid: GridView,
    sortable: bool,
    sort: Option<Sort>,
) -> CanvasView {
    if rows.rows@.len() == 0 {
        let headed = header_drawn(c, area, rows, grid, sortable, sort);
        if area.height > 1 {
            message_drawn(headed, under_header(area), "no rows"@, Color::DarkGray)
        } else {
            headed
        }
    } else {
        body_drawn(c, area, rows, grid, sortable, sort)
    }
}

/// A frame with these rows on it, laid out once for them.
pub open spec fn result_drawn(
    c: CanvasView,
    area: Rect,
    rows: PagedResult,
    grid: GridView,
    sortable: bool,
    sort: Option<Sort>,
) -> CanvasView {
    if area.empty() {
        c
    } else {
        let laid = grid.showing(rows);
        grid_drawn(c, area, laid.shown->0, laid, sortable, sort)
    }
}

/// Draw rows into `area`, the inside of the grid pane.
///
/// `ui` is taken mutably because the rendered grid is built here, from the rows
/// in the snapshot, and cached for the frames that follow.
pub fn render_rows(
    canvas: &mut Canvas,
    area: Rect,
    rows: &Arc<PagedResult>,
    ui: &mut GridUi,
    sortable: bool,
    sort: Option<Sort>,
)
    requires
        area.fits(),
    ensures
        final(canvas)@ == result_drawn(old(canvas)@, area, **rows, old(ui)@, sortable, sort),
        final(ui)@ == (if area.empty() {
            old(ui)@
        } else {
            old(ui)@.showing(**rows)
        }),
{
    if area.height == 0 || area.width == 0 {
        return ;
    }
    let _ = ui.grid(rows);
    draw_grid(canvas, area, ui, sortable, sort);
}

fn draw_grid(canvas: &mut Canvas, area: Rect, ui: &GridUi, sortable: bool, sort: Option<Sort>)
    requires
        area.fits(),
        area.height > 0,
        ui@.shown is Some,
    ensures
        final(canvas)@ == grid_drawn(old(canvas)@, area, ui@.shown->0, ui@, sortable, sort),
{
    match ui.rendered() {
        Some(grid) => {
            if grid.is_empty() {
                // The header goes down first so the message lands under it
                // rather than being painted over.
                header(canvas, area, grid, ui, sortable, sort);
                if area.height > 1 {
                    let below: Rect = Rect::new(
                        area.x,
                        area.y.saturating_add(1),
                        area.width,
                        area.height - 1,
                    );
                    message(canvas, below, "no rows", Color::DarkGray);
                }
            } else {
                body(canvas, area, grid, ui, sortable, sort);
            }
        },
        None => {},
    }
}

/// A frame with a preview on it.
pub open spec fn preview_drawn(
    c: CanvasView,
    area: Rect,
    preview: PreviewView,
    grid: GridView,
    sortable: bool,
) -> CanvasView {
    if area.empty() {
        c
    } else {
        match preview.data {
            LoadState::Idle => message_drawn(c, area, "select a table"@, Color::DarkGray),
            LoadState::Loading => message_drawn(c, area, "loading…"@, Color::Yellow),
            LoadState::Failed(why) => message_drawn(c, area, why@, Color::Red),
            LoadState::Ready(rows) => result_drawn(c, area, *rows, grid, sortable, preview.sort),
        }
    }
}

/// What drawing a preview leaves its grid as.
pub open spec fn preview_laid(area: Rect, preview: PreviewView, grid: GridView) -> GridView {
    match preview.data {
        LoadState::Ready(rows) => if area.empty() {
            grid
        } else {
            grid.showing(*rows)
        },
        _ => grid,
    }
}

/// Draw a preview into `area`, the inside of the grid pane.
pub fn render(
    canvas: &mut Canvas,
    area: Rect,
    preview: &PreviewView,
    ui: &mut GridUi,
    sortable: bool,
)
    requires
        area.fits(),
    ensures
        final(canvas)@ == preview_drawn(old(canvas)@, area, *preview, old(ui)@, sortable),
        final(ui)@ == preview_laid(area, *preview, old(ui)@),
{
    if area.height == 0 || area.width == 0 {
        return ;
    }
    match &preview.data {
        LoadState::Idle => message(canvas, area, "select a table", Color::DarkGray),
        LoadState::Loading => message(canvas, area, "loading…", Color::Yellow),
        LoadState::Failed(why) => message(canvas, area, why.as_str(), Color::Red),
        LoadState::Ready(rows) => render_rows(canvas, area, rows, ui, sortable, preview.sort),
    }
}

// ── what a click on a grid finds ───────────────────────────────────────────

/// A drag that starts on the edge of a column is about the edge, and not about
/// the header it belongs to.
pub proof fn the_seam_is_not_the_header(
    c: CanvasView,
    area: Rect,
    column: ColumnView,
    shown: (usize, u16, u16),
    sortable: bool,
    sort: Option<Sort>,
    at: Position,
)
    requires
        area.fits(),
        shown.1 + shown.2 + GAP <= area.right_edge(),
        grabbed(Rect::cut((shown.1 + shown.2) as u16, area.y, GAP as int, 1)).covers(at),
        nothing_above(c.hits, at, Z_CHROME),
    ensures
        target_at(heading_drawn(c, area, column, shown, sortable, sort).hits, at) == Some(
            Target::GridColEdge { col: shown.0 },
        ),
{
    let (col, x, width) = shown;
    let rect = Rect::cut(x, area.y, width as int, 1);
    let control = if sortable {
        c.hit(rect, Z_CONTENT, Target::GridHeader { col })
    } else {
        c
    };
    let seam = Rect::cut((x + width) as u16, area.y, GAP as int, 1);
    what_is_recorded_on_top_is_found(
        control.hits,
        grabbed(seam),
        Z_CHROME,
        Target::GridColEdge { col },
        at,
    );
}

/// The header of a grid that cannot be put in another order is not a control.
pub proof fn a_header_that_sorts_nothing_is_no_target(
    c: CanvasView,
    area: Rect,
    column: ColumnView,
    shown: (usize, u16, u16),
    sort: Option<Sort>,
    j: int,
)
    requires
        c.hits.len() <= j < heading_drawn(c, area, column, shown, false, sort).hits.len(),
    ensures
        !(heading_drawn(c, area, column, shown, false, sort).hits[j].target is GridHeader),
{
}

/// The columns that are shown stand beside each other, with a gap between them.
proof fn shown_columns_are_apart(
    columns: Seq<ColumnView>,
    grid: GridView,
    x: int,
    right: int,
    from: int,
)
    requires
        0 <= x,
        right <= u16::MAX,
    ensures
        ({
            let shown = columns_shown(columns, grid, x, right, from);
            &&& forall|k: int|
                0 <= k < shown.len() ==> x <= (#[trigger] shown[k]).1 && shown[k].1 + shown[k].2
                    <= right
            &&& forall|j: int, k: int|
                0 <= j < k < shown.len() ==> (#[trigger] shown[j]).1 + shown[j].2 < (
                #[trigger] shown[k]).1
        }),
    decreases columns.len() - from,
{
    if !(from < 0 || from >= columns.len() || x >= right) {
        let width = least(
            grid.width(from as usize, columns[from].natural_width) as int,
            right - x,
        );
        let next = least(x + width + GAP, u16::MAX as int);
        shown_columns_are_apart(columns, grid, next, right, from + 1);
        let rest = columns_shown(columns, grid, next, right, from + 1);
        let shown = columns_shown(columns, grid, x, right, from);
        assert forall|k: int| 0 <= k < shown.len() implies x <= (#[trigger] shown[k]).1
            && shown[k].1 + shown[k].2 <= right by {
            if k > 0 {
                assert(shown[k] == rest[k - 1]);
            }
        }
        assert forall|j: int, k: int| 0 <= j < k < shown.len() implies (#[trigger] shown[j]).1
            + shown[j].2 < (#[trigger] shown[k]).1 by {
            assert(shown[k] == rest[k - 1]);
            if j > 0 {
                assert(shown[j] == rest[j - 1]);
            } else if next == u16::MAX {
                assert(next >= right);
            }
        }
    }
}

proof fn a_cell_elsewhere_changes_nothing(
    c: CanvasView,
    y: u16,
    rows: PagedResult,
    grid: GridView,
    row: usize,
    shown: (usize, u16, u16),
    at: Position,
)
    requires
        !Rect::cut(shown.1, y, shown.2 as int, 1).covers(at),
    ensures
        target_at(cell_drawn(c, y, rows, grid, row, shown).hits, at) == target_at(c.hits, at),
        nothing_above(c.hits, at, Z_CONTENT) ==> nothing_above(
            cell_drawn(c, y, rows, grid, row, shown).hits,
            at,
            Z_CONTENT,
        ),
{
    what_is_elsewhere_changes_nothing(
        c.hits,
        Rect::cut(shown.1, y, shown.2 as int, 1),
        Z_CONTENT,
        Target::GridCell { row, col: shown.0 },
        at,
    );
}

proof fn cells_elsewhere_change_nothing(
    c: CanvasView,
    y: u16,
    rows: PagedResult,
    grid: GridView,
    row: usize,
    shown: Seq<(usize, u16, u16)>,
    from: int,
    at: Position,
)
    requires
        0 <= from,
        forall|k: int|
            from <= k < shown.len() ==> !Rect::cut(
                (#[trigger] shown[k]).1,
                y,
                shown[k].2 as int,
                1,
            ).covers(at),
    ensures
        target_at(cells_drawn(c, y, rows, grid, row, shown, from).hits, at) == target_at(
            c.hits,
            at,
        ),
        nothing_above(c.hits, at, Z_CONTENT) ==> nothing_above(
            cells_drawn(c, y, rows, grid, row, shown, from).hits,
            at,
            Z_CONTENT,
        ),
    decreases shown.len() - from,
{
    if from < shown.len() {
        a_cell_elsewhere_changes_nothing(c, y, rows, grid, row, shown[from], at);
        cells_elsewhere_change_nothing(
            cell_drawn(c, y, rows, grid, row, shown[from]),
            y,
            rows,
            grid,
            row,
            shown,
            from + 1,
            at,
        );
    }
}

proof fn a_click_finds_its_cell_in_the_row(
    c: CanvasView,
    y: u16,
    rows: PagedResult,
    grid: GridView,
    row: usize,
    shown: Seq<(usize, u16, u16)>,
    from: int,
    k: int,
    at: Position,
)
    requires
        0 <= from <= k < shown.len(),
        forall|i: int, j: int|
            0 <= i < j < shown.len() ==> (#[trigger] shown[i]).1 + shown[i].2 < (
            #[trigger] shown[j]).1,
        Rect::cut(shown[k].1, y, shown[k].2 as int, 1).covers(at),
        nothing_above(c.hits, at, Z_CONTENT),
    ensures
        target_at(cells_drawn(c, y, rows, grid, row, shown, from).hits, at) == Some(
            Target::GridCell { row, col: shown[k].0 },
        ),
    decreases shown.len() - from,
{
    let next = cell_drawn(c, y, rows, grid, row, shown[from]);
    if from == k {
        what_is_recorded_on_top_is_found(
            c.hits,
            Rect::cut(shown[k].1, y, shown[k].2 as int, 1),
            Z_CONTENT,
            Target::GridCell { row, col: shown[k].0 },
            at,
        );
        assert forall|j: int| from < j < shown.len() implies !Rect::cut(
            (#[trigger] shown[j]).1,
            y,
            shown[j].2 as int,
            1,
        ).covers(at) by {
            assert(shown[k].1 + shown[k].2 < shown[j].1);
        }
        cells_elsewhere_change_nothing(next, y, rows, grid, row, shown, from + 1, at);
    } else {
        assert(shown[from].1 + shown[from].2 < shown[k].1);
        a_cell_elsewhere_changes_nothing(c, y, rows, grid, row, shown[from], at);
        a_click_finds_its_cell_in_the_row(next, y, rows, grid, row, shown, from + 1, k, at);
    }
}

proof fn lines_elsewhere_change_nothing(
    c: CanvasView,
    area: Rect,
    rows: PagedResult,
    grid: GridView,
    shown: Seq<(usize, u16, u16)>,
    from: int,
    to: int,
    at: Position,
)
    requires
        area.fits(),
        grid.row_offset <= from,
        to <= grid.row_offset + area.height,
        at.y < area.y + (from - grid.row_offset),
    ensures
        target_at(lines_drawn(c, area, rows, grid, shown, from, to).hits, at) == target_at(
            c.hits,
            at,
        ),
    decreases to - from,
{
    if from < to {
        let y = (area.y + (from - grid.row_offset)) as u16;
        cells_elsewhere_change_nothing(c, y, rows, grid, from as usize, shown, 0, at);
        lines_elsewhere_change_nothing(
            cells_drawn(c, y, rows, grid, from as usize, shown, 0),
            area,
            rows,
            grid,
            shown,
            from + 1,
            to,
            at,
        );
    }
}

proof fn a_click_finds_its_cell_from(
    c: CanvasView,
    area: Rect,
    rows: PagedResult,
    grid: GridView,
    shown: Seq<(usize, u16, u16)>,
    from: int,
    to: int,
    row: int,
    k: int,
    at: Position,
)
    requires
        area.fits(),
        grid.row_offset <= from <= row < to <= grid.row_offset + area.height,
        to <= usize::MAX,
        0 <= k < shown.len(),
        forall|i: int, j: int|
            0 <= i < j < shown.len() ==> (#[trigger] shown[i]).1 + shown[i].2 < (
            #[trigger] shown[j]).1,
        Rect::cut(
            shown[k].1,
            (area.y + (row - grid.row_offset)) as u16,
            shown[k].2 as int,
            1,
        ).covers(at),
        nothing_above(c.hits, at, Z_CONTENT),
    ensures
        target_at(lines_drawn(c, area, rows, grid, shown, from, to).hits, at) == Some(
            Target::GridCell { row: row as usize, col: shown[k].0 },
        ),
    decreases to - from,
{
    let y = (area.y + (from - grid.row_offset)) as u16;
    let next = cells_drawn(c, y, rows, grid, from as usize, shown, 0);
    if from == row {
        a_click_finds_its_cell_in_the_row(c, y, rows, grid, from as usize, shown, 0, k, at);
        lines_elsewhere_change_nothing(next, area, rows, grid, shown, from + 1, to, at);
    } else {
        cells_elsewhere_change_nothing(c, y, rows, grid, from as usize, shown, 0, at);
        a_click_finds_its_cell_from(next, area, rows, grid, shown, from + 1, to, row, k, at);
    }
}

/// Every cell on screen can be clicked, and a click on one finds its own row
/// and column.
pub proof fn every_cell_on_screen_can_be_clicked(
    c: CanvasView,
    area: Rect,
    rows: PagedResult,
    grid: GridView,
    to: int,
    row: int,
    k: int,
    at: Position,
)
    requires
        area.fits(),
        grid.row_offset <= row < to <= grid.row_offset + area.height,
        to <= usize::MAX,
        0 <= k < columns_in(area, rows, grid).len(),
        ({
            let shown = columns_in(area, rows, grid)[k];
            Rect::cut(
                shown.1,
                (area.y + (row - grid.row_offset)) as u16,
                shown.2 as int,
                1,
            ).covers(at)
        }),
        nothing_above(c.hits, at, Z_CONTENT),
    ensures
        ({
            let shown = columns_in(area, rows, grid);
            target_at(
                lines_drawn(c, area, rows, grid, shown, grid.row_offset as int, to).hits,
                at,
            ) == Some(Target::GridCell { row: row as usize, col: shown[k].0 })
        }),
{
    let shown = columns_in(area, rows, grid);
    shown_columns_are_apart(
        column_looks(rows),
        grid,
        area.x as int,
        area.right_edge(),
        grid.col_offset as int,
    );
    a_click_finds_its_cell_from(
        c,
        area,
        rows,
        grid,
        shown,
        grid.row_offset as int,
        to,
        row,
        k,
        at,
    );
}

} // verus!
