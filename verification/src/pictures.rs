//! What is on the screen, line by line.
//!
//! A frame is a list of what was painted where. What is proved here is that the
//! lines are there, each in its place, and say what they are about.

use crate::chrome::{
    fitted, fitting, selected_words, spaced, tab_drawn, tab_style, thumb_length, thumb_place,
    too_small_words,
};
use crate::copy::Format;
use crate::datagrid::{
    aligned, cell_drawn, cell_style, cells_drawn, columns_shown, heading_drawn, lines_drawn,
};
use crate::definition::{describes, headings, lists_columns, section_titles, Laid};
use crate::editor::file_of;
use crate::geometry::{least, less, Rect};
use crate::grid::{
    cell_kind, cell_text, column_look, column_looks, sanitised, Align, CellKind, ColumnView,
};
use crate::history::{called, headed, text_said, under};
use crate::hit::{Target, Z_MENU};
use crate::ids::TabId;
use crate::intent::{CmdView, IntentView, ViewCmd};
use crate::menu::{entries_drawn, grid_menu, widest_label, EntryView, MenuView};
use crate::model::{
    NodeState, PagedResult, RelationKind, Snapshot, Sort, SortDir, TableDetail, Template,
    VisibleNode,
};
use crate::overlay::{badge_of, stack_drawn, toast_drawn, toast_spans};
use crate::paint::{raw, styled, CanvasView, Color, Overflow, PaintView, SpanView, Style};
use crate::palette::{field_spans, listed_as, listing, FieldView, FormView, Kind, PaletteView};
use crate::reading::{
    a_count_says_itself, a_number_says_itself, all_digits, count_in, number_in, unit_in,
};
use crate::search::{first, first_is_the_first};
use crate::shown::{a_cell_shows_its_text, shows};
use crate::sql::buffer_drawn;
use crate::state::{ContentView, GridView, TabView, ToastView};
use crate::text::{decimal, display_columns, holds, lowercase, run_of, some_text};
use crate::tree::{row_drawn, row_spans, rows_drawn};
use crate::ui::{Severity, TreeUi};
use vstd::prelude::*;

verus! {

// ── frames ─────────────────────────────────────────────────────────────────

/// One line, as it is painted.
pub open spec fn one_line(area: Rect, spans: Seq<SpanView>, style: Style) -> PaintView {
    PaintView::Text { area, lines: seq![spans], style, overflow: Overflow::Cut, scroll: 0 }
}

/// Whether a line is on a frame.
pub open spec fn on(c: CanvasView, area: Rect, spans: Seq<SpanView>, style: Style) -> bool {
    c.paints.contains(one_line(area, spans, style))
}

/// Whether one frame is another with more painted over it.
pub open spec fn over(before: CanvasView, after: CanvasView) -> bool {
    before.paints.len() <= after.paints.len() && forall|i: int|
        0 <= i < before.paints.len() ==> #[trigger] after.paints[i] == before.paints[i]
}

/// What is on a frame is on it still when more is painted over it.
pub proof fn what_is_painted_stays(before: CanvasView, after: CanvasView, paint: PaintView)
    requires
        over(before, after),
        before.paints.contains(paint),
    ensures
        after.paints.contains(paint),
{
    let i = choose|i: int| 0 <= i < before.paints.len() && before.paints[i] == paint;
    assert(after.paints[i] == paint);
}

/// A line that is put on a frame is on it, and what was there is there.
pub proof fn a_line_is_painted(c: CanvasView, area: Rect, spans: Seq<SpanView>, style: Style)
    ensures
        on(c.lined(area, spans, style), area, spans, style),
        over(c, c.lined(area, spans, style)),
{
    let after = c.lined(area, spans, style);
    assert(after.paints[after.paints.len() - 1] == one_line(area, spans, style));
}

/// Painting over what was painted over is painting over.
pub proof fn a_frame_under_another_stays(a: CanvasView, b: CanvasView, c: CanvasView)
    requires
        over(a, b),
        over(b, c),
    ensures
        over(a, c),
{
    assert forall|i: int| 0 <= i < a.paints.len() implies #[trigger] c.paints[i] == a.paints[i] by {
        assert(b.paints[i] == a.paints[i]);
    }
}

// ── text that has to fit ───────────────────────────────────────────────────

proof fn as_much_as_fits(text: Seq<char>, room: int, from: int)
    requires
        0 <= from <= text.len(),
        from == 0 || display_columns(text.take(from)) <= room,
    ensures
        ({
            let n = fitting(text, room, from);
            &&& from <= n <= text.len()
            &&& n == 0 || display_columns(text.take(n)) <= room
            &&& n < text.len() ==> display_columns(text.take(n + 1)) > room
        }),
    decreases text.len() - from,
{
    if from < text.len() && display_columns(text.take(from + 1)) <= room {
        as_much_as_fits(text, room, from + 1);
    }
}

/// A text that fits is left as it is; one that does not is cut to its first
/// characters and a mark, as many of them as leave a column for the mark, and
/// one character more would not.
pub proof fn a_text_is_cut_only_where_it_does_not_fit(text: Seq<char>, width: u16)
    ensures
        ({
            let cut = fitted(text, width);
            &&& display_columns(text) <= width ==> cut == text
            &&& display_columns(text) > width && width == 0 ==> cut.len() == 0
            &&& display_columns(text) > width && width > 0 ==> {
                let n = cut.len() - 1;
                &&& 0 <= n <= text.len()
                &&& cut[n] == '…'
                &&& forall|i: int| 0 <= i < n ==> #[trigger] cut[i] == text[i]
                &&& n == 0 || display_columns(text.take(n)) <= width - 1
                &&& n < text.len() ==> display_columns(text.take(n + 1)) > width - 1
            }
        }),
{
    if display_columns(text) > width && width > 0 {
        as_much_as_fits(text, width - 1, 0);
    }
}

/// A title is between two spaces, and otherwise as it is.
pub proof fn a_title_is_between_two_spaces(title: Seq<char>)
    ensures
        spaced(title).len() == title.len() + 2,
        spaced(title)[0] == ' ',
        spaced(title).last() == ' ',
        spaced(title).subrange(1, title.len() as int + 1) == title,
{
    reveal_strlit(" ");
    assert(spaced(title).subrange(1, title.len() as int + 1) =~= title);
}

/// A text in its place keeps every character; what is left of the place is
/// filled with spaces, behind a text that begins on the left and before one that
/// ends on the right.
pub proof fn a_text_is_aligned(text: Seq<char>, width: u16, align: Align)
    requires
        display_columns(text) <= width,
    ensures
        ({
            let n = width - display_columns(text);
            let line = aligned(text, width, align);
            &&& line.len() == text.len() + n
            &&& align == Align::Left ==> line.take(text.len() as int) == text && forall|i: int|
                text.len() <= i < line.len() ==> #[trigger] line[i] == ' '
            &&& align == Align::Right ==> line.skip(n) == text && forall|i: int|
                0 <= i < n ==> #[trigger] line[i] == ' '
        }),
{
    let n = width - display_columns(text);
    let line = aligned(text, width, align);
    if align == Align::Left {
        assert(line.take(text.len() as int) =~= text);
    } else {
        assert(line.skip(n) =~= text);
    }
}

/// What is said of a screen that is too small says how big it is, and how big it
/// would have to be.
pub proof fn a_small_screen_is_told_its_size(area: Rect)
    ensures
        ({
            let words = too_small_words(area);
            let have = words.skip(12);
            let need = unit_in(unit_in(have).drop_first()).skip(15);
            &&& words.take(12) == "terminal is "@
            &&& count_in(have) == area.width
            &&& unit_in(have)[0] == '×'
            &&& count_in(unit_in(have).drop_first()) == area.height
            &&& count_in(need) == 60
            &&& unit_in(need)[0] == '×'
            &&& count_in(unit_in(need).drop_first()) == 20
        }),
{
    reveal_strlit("terminal is ");
    reveal_strlit("×");
    reveal_strlit("; sqlake needs ");
    let words = too_small_words(area);
    let (w, h) = (area.width as nat, area.height as nat);
    let need = decimal(60) + ("×"@ + decimal(20));
    let rest = decimal(h) + ("; sqlake needs "@ + need);
    let have = decimal(w) + ("×"@ + rest);
    assert(words =~= "terminal is "@ + have);
    assert(words.take(12) =~= "terminal is "@);
    assert(words.skip(12) =~= have);
    a_count_says_itself(w, "×"@ + rest);
    assert(("×"@ + rest).drop_first() =~= rest);
    a_count_says_itself(h, "; sqlake needs "@ + need);
    assert(("; sqlake needs "@ + need).skip(15) =~= need);
    a_count_says_itself(60, "×"@ + decimal(20));
    assert(("×"@ + decimal(20)).drop_first() =~= decimal(20));
    a_count_says_itself(20, Seq::empty());
    assert(decimal(20) + Seq::<char>::empty() =~= decimal(20));
}

// ── scrollbars ─────────────────────────────────────────────────────────────

/// The thumb is to the track as the track is to the content, cut to a cell and
/// never less than one; and it is the further down the further the content is.
pub proof fn the_thumb_is_in_proportion(track: int, content: int, offset: int, further: int)
    requires
        0 < track < content,
        0 <= offset <= further,
    ensures
        ({
            let n = thumb_length(track, content);
            &&& n == 1 || n * content <= track * track
            &&& track * track < (n + 1) * content
            &&& thumb_place(track, offset, content) <= thumb_place(track, further, content)
        }),
{
    let q = track * track / content;
    assert(q * content <= track * track < (q + 1) * content && 0 <= q && q < track)
        by (nonlinear_arith)
        requires
            q == track * track / content,
            0 < track < content,
    ;
    let n = thumb_length(track, content);
    if q < 1 {
        assert(track * track < (n + 1) * content) by (nonlinear_arith)
            requires
                track * track < (q + 1) * content,
                q <= n,
                content > 0,
        ;
    }
    let span = content - track;
    let travel = track - n;
    let (a, b) = (least(offset, span), least(further, span));
    assert(a * travel <= b * travel) by (nonlinear_arith)
        requires
            a <= b,
            0 <= travel,
    ;
    vstd::arithmetic::div_mod::lemma_div_is_ordered(a * travel, b * travel, span);
}

// ── the explorer ───────────────────────────────────────────────────────────

/// A row of the explorer begins two columns further in for every level it is
/// deep, has a mark that tells its state, a sign that tells what kind of
/// relation it is, and its name; and a node that failed says why where there is
/// room for it.
pub proof fn a_row_of_the_explorer_tells_its_node(
    width: u16,
    node: VisibleNode,
    selected: bool,
    color: Option<Color>,
)
    ensures
        ({
            let spans = row_spans(width, node, selected, color);
            let label = sanitised(node.label@);
            let used = spans[0].text.len() + 2 + display_columns(spans[2].text);
            let left = width - used - display_columns(label);
            &&& spans[0].text == run_of(' ', least(2 * node.depth, width as int) as nat)
            &&& spans[1].text == match node.state {
                NodeState::Leaf => seq![' ', ' '],
                NodeState::Collapsed => seq!['▸', ' '],
                NodeState::Expanded => seq!['▾', ' '],
                NodeState::Loading => seq!['⋯', ' '],
                NodeState::Failed(_) => seq!['!', ' '],
            }
            &&& spans[2].text == match node.relation_kind {
                None => Seq::empty(),
                Some(RelationKind::Table) => seq!['▦', ' '],
                Some(RelationKind::View) => seq!['◫', ' '],
                Some(RelationKind::MaterializedView) => seq!['▩', ' '],
                Some(RelationKind::Routine) => seq!['ƒ', ' '],
                Some(RelationKind::External) => seq!['↗', ' '],
            }
            &&& shows(label, node.label@)
            &&& used + display_columns(label) <= width ==> spans[3].text == label
            &&& (node.state matches NodeState::Failed(why) ==> shows(sanitised(why@), why@) && (left
                > 3 ==> spans.len() == 5 && spans[4].text == fitted(
                "  "@ + sanitised(why@),
                left as u16,
            )))
            &&& !(node.state is Failed) || left <= 3 ==> spans.len() == 4
        }),
{
    reveal_strlit("");
    reveal_strlit("  ");
    reveal_strlit("▸ ");
    reveal_strlit("▾ ");
    reveal_strlit("⋯ ");
    reveal_strlit("! ");
    reveal_strlit("▦ ");
    reveal_strlit("◫ ");
    reveal_strlit("▩ ");
    reveal_strlit("ƒ ");
    reveal_strlit("↗ ");
    assert(""@ =~= Seq::<char>::empty());
    assert("  "@ =~= seq![' ', ' ']);
    assert("▸ "@ =~= seq!['▸', ' ']);
    assert("▾ "@ =~= seq!['▾', ' ']);
    assert("⋯ "@ =~= seq!['⋯', ' ']);
    assert("! "@ =~= seq!['!', ' ']);
    assert("▦ "@ =~= seq!['▦', ' ']);
    assert("◫ "@ =~= seq!['◫', ' ']);
    assert("▩ "@ =~= seq!['▩', ' ']);
    assert("ƒ "@ =~= seq!['ƒ', ' ']);
    assert("↗ "@ =~= seq!['↗', ' ']);
    a_cell_shows_its_text(node.label@);
    if let NodeState::Failed(why) = node.state {
        a_cell_shows_its_text(why@);
    }
}

proof fn a_tree_row_is_painted(
    c: CanvasView,
    row: Rect,
    node: VisibleNode,
    index: usize,
    selected: bool,
    color: Option<Color>,
)
    ensures
        ({
            let after = row_drawn(c, row, node, index, selected, color);
            &&& over(c, after)
            &&& after.paints.len() > 0
            &&& after.paints.last() == one_line(
                row,
                row_spans(row.width, node, selected, color),
                crate::tree::row_style(selected),
            )
        }),
{
}

/// The rows of the explorer are on the screen one under the other from the one
/// it is scrolled to, each with its own node, and the selected one alone is
/// painted as selected.
pub proof fn the_rows_of_the_explorer_are_on_the_screen(
    c: CanvasView,
    area: Rect,
    snapshot: Snapshot,
    rows: Seq<usize>,
    ui: TreeUi,
    from: int,
    to: int,
    k: int,
)
    requires
        from <= k < to,
    ensures
        ({
            let after = rows_drawn(c, area, snapshot, rows, ui, from, to);
            let node = snapshot.explorer@[rows[k] as int];
            let place = Rect::cut(area.x, (area.y + (k - ui.offset)) as u16, area.width as int, 1);
            let selected = ui.selected == Some(k as usize);
            &&& over(c, after)
            &&& on(
                after,
                place,
                row_spans(
                    place.width,
                    node,
                    selected,
                    crate::tree::asked_color(snapshot, node),
                ),
                crate::tree::row_style(selected),
            )
        }),
    decreases to - from,
{
    let node = snapshot.explorer@[rows[from] as int];
    let place = Rect::cut(area.x, (area.y + (from - ui.offset)) as u16, area.width as int, 1);
    let selected = ui.selected == Some(from as usize);
    let color = crate::tree::asked_color(snapshot, node);
    let next = row_drawn(c, place, node, from as usize, selected, color);
    a_tree_row_is_painted(c, place, node, from as usize, selected, color);
    more_rows_stay_over(next, area, snapshot, rows, ui, from + 1, to);
    let after = rows_drawn(c, area, snapshot, rows, ui, from, to);
    a_frame_under_another_stays(c, next, after);
    if k == from {
        let paint = one_line(
            place,
            row_spans(place.width, node, selected, color),
            crate::tree::row_style(selected),
        );
        assert(next.paints[next.paints.len() - 1] == paint);
        what_is_painted_stays(next, after, paint);
    } else {
        the_rows_of_the_explorer_are_on_the_screen(
            next,
            area,
            snapshot,
            rows,
            ui,
            from + 1,
            to,
            k,
        );
    }
}

proof fn more_rows_stay_over(
    c: CanvasView,
    area: Rect,
    snapshot: Snapshot,
    rows: Seq<usize>,
    ui: TreeUi,
    from: int,
    to: int,
)
    ensures
        over(c, rows_drawn(c, area, snapshot, rows, ui, from, to)),
    decreases to - from,
{
    if from < to {
        let node = snapshot.explorer@[rows[from] as int];
        let place = Rect::cut(area.x, (area.y + (from - ui.offset)) as u16, area.width as int, 1);
        let selected = ui.selected == Some(from as usize);
        let color = crate::tree::asked_color(snapshot, node);
        let next = row_drawn(c, place, node, from as usize, selected, color);
        more_rows_stay_over(next, area, snapshot, rows, ui, from + 1, to);
        a_frame_under_another_stays(
            c,
            next,
            rows_drawn(next, area, snapshot, rows, ui, from + 1, to),
        );
    }
}

// ── the grid ───────────────────────────────────────────────────────────────

/// The columns that are shown are those from the one the grid is scrolled to on,
/// side by side with a column of the screen between each two: each as wide as it
/// is to be drawn, and only the last one cut where the place ends.
pub proof fn the_columns_shown_are_side_by_side(
    columns: Seq<ColumnView>,
    grid: GridView,
    x: int,
    right: int,
    from: int,
    k: int,
)
    requires
        columns.len() <= usize::MAX,
        0 <= x,
        right < u16::MAX,
        0 <= from,
        0 <= k < columns_shown(columns, grid, x, right, from).len(),
    ensures
        ({
            let shown = columns_shown(columns, grid, x, right, from);
            let (col, left, width) = shown[k];
            let whole = grid.width(col, columns[col as int].natural_width);
            &&& col == from + k
            &&& x <= left < right
            &&& if left + whole <= right {
                width == whole
            } else {
                left + width == right
            }
            &&& k == 0 ==> left == x
            &&& k + 1 < shown.len() ==> shown[k + 1].1 == left + width + 1
            &&& k + 1 == shown.len() ==> from + shown.len() == columns.len() || left + width + 1
                >= right
        }),
    decreases columns.len() - from,
{
    let width = least(grid.width(from as usize, columns[from].natural_width) as int, right - x);
    let next = least(x + width + 1, u16::MAX as int);
    let rest = columns_shown(columns, grid, next, right, from + 1);
    let shown = columns_shown(columns, grid, x, right, from);
    assert(shown =~= seq![(from as usize, x as u16, width as u16)] + rest);
    if rest.len() > 0 {
        the_columns_shown_are_side_by_side(columns, grid, next, right, from + 1, 0);
    }
    if k > 0 {
        the_columns_shown_are_side_by_side(columns, grid, next, right, from + 1, k - 1);
        assert(shown[k] == rest[k - 1]);
        if k + 1 < shown.len() {
            assert(shown[k + 1] == rest[k]);
        }
    } else if shown.len() > 1 {
        assert(shown[1] == rest[0]);
    }
}

/// A column's heading has its name, and an arrow up where the rows are ordered by
/// it upwards, down where downwards, and none where they are ordered by another.
pub proof fn a_heading_says_how_the_rows_are_ordered(
    c: CanvasView,
    area: Rect,
    column: ColumnView,
    at: (usize, u16, u16),
    sortable: bool,
    sort: Option<Sort>,
)
    ensures
        ({
            let after = heading_drawn(c, area, column, at, sortable, sort);
            let (col, x, width) = at;
            let arrow = match sort {
                Some(Sort { column, dir: SortDir::Asc }) if column == col => seq!['▲'],
                Some(Sort { column, dir: SortDir::Desc }) if column == col => seq!['▼'],
                _ => Seq::empty(),
            };
            &&& after.paints.len() == c.paints.len() + 1 && over(c, after)
            &&& after.paints.last() matches PaintView::Text { area: place, lines, .. } && {
                &&& place == Rect::cut(x, area.y, width as int, 1)
                &&& lines.len() == 1 && lines[0].len() == 2
                &&& lines[0][1].text == arrow
                &&& display_columns(column.name) + display_columns(arrow) <= width
                    ==> lines[0][0].text == column.name
            }
        }),
{
    reveal_strlit("▲");
    reveal_strlit("▼");
    reveal_strlit("");
    assert("▲"@ =~= seq!['▲']);
    assert("▼"@ =~= seq!['▼']);
    assert(""@ =~= Seq::<char>::empty());
}

/// What a cell of the grid is painted as.
pub open spec fn cell_paint(
    y: u16,
    rows: PagedResult,
    grid: GridView,
    row: usize,
    at: (usize, u16, u16),
) -> PaintView {
    let (col, x, width) = at;
    let value = rows.value_at(row as int, col as int);
    one_line(
        Rect::cut(x, y, width as int, 1),
        seq![
            raw(
                aligned(
                    fitted(cell_text(value), width),
                    width,
                    column_look(rows, col as int).align,
                ),
            ),
        ],
        cell_style(cell_kind(value), grid.row == row && grid.col == col),
    )
}

proof fn more_cells_stay_over(
    c: CanvasView,
    y: u16,
    rows: PagedResult,
    grid: GridView,
    row: usize,
    shown: Seq<(usize, u16, u16)>,
    from: int,
)
    ensures
        over(c, cells_drawn(c, y, rows, grid, row, shown, from)),
    decreases shown.len() - from,
{
    if 0 <= from < shown.len() {
        let next = cell_drawn(c, y, rows, grid, row, shown[from]);
        more_cells_stay_over(next, y, rows, grid, row, shown, from + 1);
        a_frame_under_another_stays(
            c,
            next,
            cells_drawn(next, y, rows, grid, row, shown, from + 1),
        );
    }
}

proof fn the_cells_of_a_row_are_painted(
    c: CanvasView,
    y: u16,
    rows: PagedResult,
    grid: GridView,
    row: usize,
    shown: Seq<(usize, u16, u16)>,
    from: int,
    k: int,
)
    requires
        0 <= from <= k < shown.len(),
        shown[k].0 < rows.columns@.len(),
    ensures
        cells_drawn(c, y, rows, grid, row, shown, from).paints.contains(
            cell_paint(y, rows, grid, row, shown[k]),
        ),
    decreases shown.len() - from,
{
    let next = cell_drawn(c, y, rows, grid, row, shown[from]);
    let after = cells_drawn(next, y, rows, grid, row, shown, from + 1);
    more_cells_stay_over(next, y, rows, grid, row, shown, from + 1);
    if k == from {
        let paint = cell_paint(y, rows, grid, row, shown[k]);
        assert(column_looks(rows)[shown[k].0 as int] == column_look(rows, shown[k].0 as int));
        assert(next.paints[next.paints.len() - 1] == paint);
        what_is_painted_stays(next, after, paint);
    } else {
        the_cells_of_a_row_are_painted(next, y, rows, grid, row, shown, from + 1, k);
    }
}

proof fn more_lines_stay_over(
    c: CanvasView,
    area: Rect,
    rows: PagedResult,
    grid: GridView,
    shown: Seq<(usize, u16, u16)>,
    from: int,
    to: int,
)
    ensures
        over(c, lines_drawn(c, area, rows, grid, shown, from, to)),
    decreases to - from,
{
    if from < to {
        let y = (area.y + (from - grid.row_offset)) as u16;
        let next = cells_drawn(c, y, rows, grid, from as usize, shown, 0);
        more_cells_stay_over(c, y, rows, grid, from as usize, shown, 0);
        more_lines_stay_over(next, area, rows, grid, shown, from + 1, to);
        a_frame_under_another_stays(
            c,
            next,
            lines_drawn(next, area, rows, grid, shown, from + 1, to),
        );
    }
}

/// Every cell that is shown is on the screen in the row and the column that are
/// its own: its value's text, as far as the column is wide, against the side
/// the column is aligned to, in the style of its value — and of the cursor
/// where that is on it and nowhere else.
pub proof fn the_cells_are_on_the_screen(
    c: CanvasView,
    area: Rect,
    rows: PagedResult,
    grid: GridView,
    shown: Seq<(usize, u16, u16)>,
    from: int,
    to: int,
    row: int,
    k: int,
)
    requires
        from <= row < to,
        0 <= k < shown.len(),
        shown[k].0 < rows.columns@.len(),
    ensures
        lines_drawn(c, area, rows, grid, shown, from, to).paints.contains(
            cell_paint(
                (area.y + (row - grid.row_offset)) as u16,
                rows,
                grid,
                row as usize,
                shown[k],
            ),
        ),
    decreases to - from,
{
    let y = (area.y + (from - grid.row_offset)) as u16;
    let next = cells_drawn(c, y, rows, grid, from as usize, shown, 0);
    let after = lines_drawn(next, area, rows, grid, shown, from + 1, to);
    more_lines_stay_over(next, area, rows, grid, shown, from + 1, to);
    if row == from {
        the_cells_of_a_row_are_painted(c, y, rows, grid, row as usize, shown, 0, k);
        what_is_painted_stays(next, after, cell_paint(y, rows, grid, row as usize, shown[k]));
    } else {
        the_cells_are_on_the_screen(next, area, rows, grid, shown, from + 1, to, row, k);
    }
}

/// The cell under the cursor can be told from every other, whatever is in it; and
/// cells of different kinds can be told from each other.
pub proof fn the_cursor_can_be_seen(a: CellKind, b: CellKind, selected: bool)
    ensures
        cell_style(a, true) != cell_style(b, false),
        a != b ==> cell_style(a, selected) != cell_style(b, selected),
{
}

// ── notices ────────────────────────────────────────────────────────────────

/// A notice says what it was raised with, as far as there is room, and has a
/// badge that tells how grave it is.
pub proof fn a_notice_is_told(width: int, toast: ToastView)
    ensures
        ({
            let spans = toast_spans(width, toast);
            &&& spans.len() == 2
            &&& spans[0].text.subrange(1, spans[0].text.len() - 1) == match toast.severity {
                Severity::Info => seq!['i'],
                Severity::Warning => seq!['!'],
                Severity::Error => seq!['✕'],
            }
            &&& shows(sanitised(toast.text), toast.text)
            &&& display_columns(sanitised(toast.text)) + display_columns(badge_of(toast.severity).1)
                + 3 <= width <= u16::MAX ==> spans[1].text.drop_first() == sanitised(toast.text)
        }),
{
    reveal_strlit("i");
    reveal_strlit("!");
    reveal_strlit("✕");
    reveal_strlit(" ");
    assert("i"@ =~= seq!['i']);
    assert("!"@ =~= seq!['!']);
    assert("✕"@ =~= seq!['✕']);
    a_cell_shows_its_text(toast.text);
    let (color, mark) = badge_of(toast.severity);
    a_title_is_between_two_spaces(mark);
    let room = less(width, display_columns(mark) + 3) as u16;
    let spans = toast_spans(width, toast);
    assert(spans[1].text.drop_first() =~= fitted(sanitised(toast.text), room));
}

proof fn more_notices_stay_over(
    c: CanvasView,
    area: Rect,
    toasts: Seq<ToastView>,
    y: int,
    n: int,
)
    ensures
        over(c, stack_drawn(c, area, toasts, y, n)),
    decreases n,
{
    if n > 0 && y > area.y {
        let width = least(60, area.width as int);
        let rect = Rect::cut(less(area.right_edge(), width) as u16, (y - 1) as u16, width, 1);
        let next = toast_drawn(c, rect, width, toasts[n - 1]);
        more_notices_stay_over(next, area, toasts, y - 1, n - 1);
        a_frame_under_another_stays(c, next, stack_drawn(next, area, toasts, y - 1, n - 1));
    }
}

/// The last of the notices is on the line above `y`, and each above the one after
/// it, as many as there are lines for.
pub proof fn the_notices_are_stacked(
    c: CanvasView,
    area: Rect,
    toasts: Seq<ToastView>,
    y: int,
    n: int,
    k: int,
)
    requires
        0 < k <= n,
        y - k >= area.y,
        y <= u16::MAX,
    ensures
        ({
            let width = least(60, area.width as int);
            let place = Rect::cut(less(area.right_edge(), width) as u16, (y - k) as u16, width, 1);
            on(
                stack_drawn(c, area, toasts, y, n),
                place,
                toast_spans(width, toasts[n - k]),
                Style::plain(),
            )
        }),
    decreases n,
{
    let width = least(60, area.width as int);
    let rect = Rect::cut(less(area.right_edge(), width) as u16, (y - 1) as u16, width, 1);
    let next = toast_drawn(c, rect, width, toasts[n - 1]);
    let after = stack_drawn(next, area, toasts, y - 1, n - 1);
    more_notices_stay_over(next, area, toasts, y - 1, n - 1);
    if k == 1 {
        let paint = one_line(rect, toast_spans(width, toasts[n - 1]), Style::plain());
        assert(next.paints[next.paints.len() - 1] == paint);
        what_is_painted_stays(next, after, paint);
    } else {
        the_notices_are_stacked(next, area, toasts, y - 1, n - 1, k - 1);
    }
}

// ── the status bar and the tabs ────────────────────────────────────────────

/// What is said of a selection is how many rows and columns it has.
pub proof fn a_selection_is_counted(cells: (usize, usize))
    ensures
        ({
            let words = selected_words(cells);
            let rest = words.drop_first();
            &&& words[0] == ' '
            &&& count_in(rest) == cells.0
            &&& unit_in(rest)[0] == '×'
            &&& count_in(unit_in(rest).drop_first()) == cells.1
            &&& unit_in(unit_in(rest).drop_first()) == " selected "@
        }),
{
    reveal_strlit(" ");
    reveal_strlit("×");
    reveal_strlit(" selected ");
    let (high, wide) = (cells.0 as nat, cells.1 as nat);
    let second = decimal(wide) + " selected "@;
    let first = decimal(high) + ("×"@ + second);
    assert(selected_words(cells) =~= " "@ + first);
    assert(selected_words(cells).drop_first() =~= first);
    a_count_says_itself(high, "×"@ + second);
    assert(("×"@ + second).drop_first() =~= second);
    a_count_says_itself(wide, " selected "@);
}

/// A tab is called what it shows: a relation by its own name, its definition by
/// that and a mark, a statement by its number, and the history by its name.
pub proof fn a_tab_is_called_what_it_shows(content: ContentView)
    ensures
        match content {
            ContentView::Preview(table) => table@.len() > 0 ==> content.title() == table@[table@.len()
                - 1],
            ContentView::Sql { number, .. } => content.title().take(4) == "SQL#"@ && number_in(
                content.title().skip(4),
            ) == number && all_digits(content.title().skip(4)),
            ContentView::Definition { table, .. } => table@.len() > 0 ==> content.title()
                == table@[table@.len() - 1] + ": def"@,
            ContentView::History { .. } => content.title() == "History"@,
        },
{
    reveal_strlit("SQL#");
    if let ContentView::Sql { number, .. } = content {
        a_number_says_itself(number as nat);
        assert(content.title().take(4) =~= "SQL#"@);
        assert(content.title().skip(4) =~= decimal(number as nat));
    }
}

/// A tab on the bar has its title between two spaces where it begins, its close
/// box behind that, and the tab in front is painted unlike every other.
pub proof fn a_tab_is_on_the_bar(
    c: CanvasView,
    area: Rect,
    x: int,
    tab: TabView,
    active: Option<TabId>,
)
    ensures
        ({
            let after = tab_drawn(c, area, x, tab, active);
            let title = tab.content.title();
            let style = tab_style(active == Some(tab.id));
            &&& over(c, after)
            &&& on(
                after,
                Rect::cut(x as u16, area.y, title.len() as int + 2, 1),
                seq![raw(spaced(title))],
                style,
            )
            &&& on(
                after,
                Rect::cut((x + title.len() + 2) as u16, area.y, 2, 1),
                seq![raw(seq!['×', ' '])],
                style,
            )
            &&& tab_style(true) != tab_style(false)
        }),
{
    reveal_strlit("× ");
    assert("× "@ =~= seq!['×', ' ']);
    let title = tab.content.title();
    let style = tab_style(active == Some(tab.id));
    a_title_is_between_two_spaces(title);
    let after = tab_drawn(c, area, x, tab, active);
    let n = c.paints.len() as int;
    assert(after.paints[n] == one_line(
        Rect::cut(x as u16, area.y, title.len() as int + 2, 1),
        seq![raw(spaced(title))],
        style,
    ));
    assert(after.paints[n + 1] == one_line(
        Rect::cut((x + title.len() + 2) as u16, area.y, 2, 1),
        seq![raw(seq!['×', ' '])],
        style,
    ));
}

// ── a buffer ───────────────────────────────────────────────────────────────

/// The lines of a buffer are drawn from the one it is scrolled to on, each as it
/// is written; the one that the server pointed at is drawn unlike the others,
/// counting from one.
pub proof fn the_lines_of_a_buffer_are_drawn(
    lines: Seq<Seq<char>>,
    at: Option<usize>,
    from: int,
    to: int,
    k: int,
)
    requires
        0 <= k < to - from,
    ensures
        ({
            let drawn = buffer_drawn(lines, at, from, to);
            &&& drawn.len() == to - from
            &&& drawn[k].len() == 1
            &&& shows(drawn[k][0].text, lines[from + k])
            &&& drawn[k][0].style != Style::plain() <==> (at matches Some(n) && n == from + k + 1)
        }),
{
    a_cell_shows_its_text(lines[from + k]);
}

// ── definitions ────────────────────────────────────────────────────────────

proof fn definition_headings_are_told_apart()
    ensures
        forall|i: int, j: int|
            0 <= i < j < headings().len() ==> (#[trigger] headings()[i]).0 != (
            #[trigger] headings()[j]).0,
{
    reveal_strlit("column");
    reveal_strlit("type");
    reveal_strlit("null");
    reveal_strlit("default");
    reveal_strlit("comment");
    assert("column"@[2] == 'l' && "column"@.len() == 6);
    assert("type"@[0] == 't');
    assert("null"@[0] == 'n');
    assert("default"@[0] == 'd');
    assert("comment"@.len() == 7 && "comment"@[0] == 'c');
}

proof fn the_cell_under_a_definition_heading(rows: PagedResult, row: int, col: int)
    requires
        headed(rows.columns@) == headings(),
        0 <= col < headings().len(),
    ensures
        under(rows, row, headings()[col].0) == Some(rows.rows@[row].0@[col]),
{
    definition_headings_are_told_apart();
    let name = headings()[col].0;
    first_is_the_first(rows.columns@, called(name));
    assert forall|i: int| 0 <= i < headings().len() implies (#[trigger] rows.columns@[i]).name@
        == headings()[i].0 by {
        assert(headed(rows.columns@)[i] == headings()[i]);
    }
    assert(headed(rows.columns@).len() == rows.columns@.len());
    assert(called(name)(rows.columns@[col]));
}

/// A column of a definition is told under the headings that call it so: its
/// name, its type, that it may not be null where it may not, its default and
/// its comment.
pub proof fn a_column_is_told_under_its_headings(rows: PagedResult, detail: TableDetail, i: int)
    requires
        lists_columns(rows, detail),
        0 <= i < detail.columns@.len(),
    ensures
        ({
            let column = detail.columns@[i];
            &&& text_said(under(rows, i, "column"@)) == Some(Some(column.name@))
            &&& text_said(under(rows, i, "type"@)) == Some(Some(column.type_label@))
            &&& text_said(under(rows, i, "null"@)) == Some(
                Some(
                    if column.nullable {
                        Seq::empty()
                    } else {
                        "not null"@
                    },
                ),
            )
            &&& text_said(under(rows, i, "default"@)) == Some(some_text(column.default))
            &&& text_said(under(rows, i, "comment"@)) == Some(some_text(column.comment))
        }),
{
    reveal_strlit("");
    assert(""@ =~= Seq::<char>::empty());
    assert(describes(rows.rows@[i], detail.columns@[i]));
    assert(headings()[0].0 == "column"@);
    assert(headings()[1].0 == "type"@);
    assert(headings()[2].0 == "null"@);
    assert(headings()[3].0 == "default"@);
    assert(headings()[4].0 == "comment"@);
    the_cell_under_a_definition_heading(rows, i, 0);
    the_cell_under_a_definition_heading(rows, i, 1);
    the_cell_under_a_definition_heading(rows, i, 2);
    the_cell_under_a_definition_heading(rows, i, 3);
    the_cell_under_a_definition_heading(rows, i, 4);
}

/// The sections of a definition are its columns, the driver's own in their order,
/// and its statement last, if it has one; each title stands for its own rows,
/// and only the statement has none.
pub proof fn a_title_stands_for_its_section(laid: Laid, k: int)
    requires
        0 <= k < laid.title_list().len(),
    ensures
        ({
            let n = laid.sections@.len();
            &&& laid.title_list().len() == n + if laid.ddl is Some {
                2int
            } else {
                1
            }
            &&& k == 0 ==> laid.title_list()[k] == "Columns"@ && laid.rows_at(k) == Some(
                *laid.columns,
            )
            &&& 0 < k <= n ==> laid.title_list()[k] == laid.sections@[k - 1].0@ && laid.rows_at(k)
                == Some(*laid.sections@[k - 1].1)
            &&& k == n + 1 ==> laid.title_list()[k] == "DDL"@ && laid.rows_at(k) is None
                && laid.ddl is Some
        }),
{
    assert(section_titles(laid.sections@).len() == laid.sections@.len());
}

// ── files ──────────────────────────────────────────────────────────────────

/// The file a tab is edited through is called by the tab's number, and is one
/// that an editor takes for SQL.
pub proof fn a_file_is_called_by_its_tab(tab: TabId)
    ensures
        count_in(file_of(tab)) == tab.0,
        unit_in(file_of(tab)) == ".sql"@,
{
    reveal_strlit(".sql");
    a_count_says_itself(tab.0 as nat, ".sql"@);
}

// ── menus ──────────────────────────────────────────────────────────────────

/// Every entry of the menu that copies does what it is called: all there is or
/// what is selected, and in the format it names. The first shows the cell in
/// full.
pub proof fn an_entry_does_what_it_is_called(at: (u16, u16), ranged: bool, i: int)
    requires
        0 <= i < grid_menu(at, ranged).entries.len(),
    ensures
        ({
            let entry = grid_menu(at, ranged).entries[i];
            let n = entry.label.len() as int;
            &&& entry.enabled
            &&& grid_menu(at, ranged).at == at
            &&& match entry.intent {
                IntentView::View(CmdView::Plain(ViewCmd::Copy { format, all })) => {
                    &&& entry.label.take(4) == seq!['C', 'o', 'p', 'y']
                    &&& format == Format::Csv <==> entry.label.skip(n - 3) == seq!['C', 'S', 'V']
                    &&& format == Format::Json <==> entry.label.skip(n - 4) == seq![
                        'J',
                        'S',
                        'O',
                        'N',
                    ]
                    &&& all <==> entry.label[5] == 'e'
                    &&& !all ==> (entry.label[5] == 's' <==> ranged)
                },
                IntentView::View(CmdView::Plain(ViewCmd::ToggleDetail)) => i == 0 && entry.label
                    == "Show in full"@,
                _ => false,
            }
        }),
{
    reveal_strlit("Show in full");
    reveal_strlit("Copy selection as CSV");
    reveal_strlit("Copy cell as CSV");
    reveal_strlit("Copy selection as JSON");
    reveal_strlit("Copy cell as JSON");
    reveal_strlit("Copy everything as CSV");
    reveal_strlit("Copy everything as JSON");
    let entry = grid_menu(at, ranged).entries[i];
    let n = entry.label.len() as int;
    if i > 0 {
        assert(entry.label.take(4) =~= seq!['C', 'o', 'p', 'y']);
        if i == 1 || i == 3 {
            assert(entry.label.skip(n - 3) =~= seq!['C', 'S', 'V']);
            assert(entry.label.skip(n - 4)[0] == ' ');
        } else {
            assert(entry.label.skip(n - 4) =~= seq!['J', 'S', 'O', 'N']);
            assert(entry.label.skip(n - 3)[0] == 'S');
        }
    }
}

proof fn the_widest_label_is_one_of_them(entries: Seq<EntryView>, n: int)
    requires
        0 <= n <= entries.len(),
    ensures
        forall|i: int|
            0 <= i < n ==> display_columns((#[trigger] entries[i]).label) <= widest_label(
                entries,
                n,
            ),
        widest_label(entries, n) == 0 || exists|i: int|
            0 <= i < n && display_columns((#[trigger] entries[i]).label) == widest_label(entries, n),
        0 <= widest_label(entries, n) <= u16::MAX,
    decreases n,
{
    if n > 0 {
        the_widest_label_is_one_of_them(entries, n - 1);
        if widest_label(entries, n) == display_columns(entries[n - 1].label) {
            assert(display_columns(entries[n - 1].label) == widest_label(entries, n));
        } else if widest_label(entries, n - 1) != 0 {
            let i = choose|i: int|
                0 <= i < n - 1 && display_columns((#[trigger] entries[i]).label) == widest_label(
                    entries,
                    n - 1,
                );
            assert(0 <= i < n);
        }
    }
}

/// A menu opens where it was asked to wherever it fits there, and otherwise as
/// near as the screen lets it; it is as high as it has entries and as wide as
/// the widest of them, and its border.
pub proof fn a_menu_opens_where_it_was_asked_to(menu: MenuView, screen: Rect, i: int)
    requires
        screen.fits(),
        screen.x <= menu.at.0,
        screen.y <= menu.at.1,
        0 <= i < menu.entries.len(),
        menu.entries.len() < 60_000,
    ensures
        ({
            let place = menu.fitted(screen);
            &&& menu.at.0 + place.width <= screen.x + screen.width ==> place.x == menu.at.0
            &&& menu.at.0 + place.width > screen.x + screen.width ==> place.x + place.width
                == screen.x + screen.width
            &&& menu.at.1 + place.height <= screen.y + screen.height ==> place.y == menu.at.1
            &&& menu.at.1 + place.height > screen.y + screen.height ==> place.y + place.height
                == screen.y + screen.height
            &&& place.height == screen.height || place.height == menu.entries.len() + 2
            &&& place.width == screen.width || place.width >= display_columns(
                menu.entries[i].label,
            ) + 2 || place.width == u16::MAX
        }),
{
    the_widest_label_is_one_of_them(menu.entries, menu.entries.len() as int);
}

proof fn more_entries_stay_over(c: CanvasView, inside: Rect, entries: Seq<EntryView>, from: int)
    ensures
        over(c, entries_drawn(c, inside, entries, from)),
    decreases entries.len() - from,
{
    if !(from < 0 || from >= entries.len() || from >= inside.height) {
        let row = Rect::cut(inside.x, (inside.y + from) as u16, inside.width as int, 1);
        let clickable = if entries[from].enabled {
            c.hit(row, Z_MENU, Target::MenuItem { index: from as usize })
        } else {
            c
        };
        let style = if entries[from].enabled {
            Style::colored(Color::White)
        } else {
            Style::colored(Color::DarkGray).dimmed()
        };
        let next = clickable.lined(row, seq![styled(entries[from].label, style)], Style::plain());
        more_entries_stay_over(next, inside, entries, from + 1);
        a_frame_under_another_stays(c, next, entries_drawn(next, inside, entries, from + 1));
    }
}

/// The entries of a menu stand one under the other in their order, each under its
/// own name, as many as there are rows for; one that cannot be chosen is dimmed.
pub proof fn the_entries_are_on_the_menu(
    c: CanvasView,
    inside: Rect,
    entries: Seq<EntryView>,
    from: int,
    k: int,
)
    requires
        0 <= from <= k < entries.len(),
        k < inside.height,
    ensures
        on(
            entries_drawn(c, inside, entries, from),
            Rect::cut(inside.x, (inside.y + k) as u16, inside.width as int, 1),
            seq![
                styled(
                    entries[k].label,
                    if entries[k].enabled {
                        Style::colored(Color::White)
                    } else {
                        Style::colored(Color::DarkGray).dimmed()
                    },
                ),
            ],
            Style::plain(),
        ),
    decreases entries.len() - from,
{
    let row = Rect::cut(inside.x, (inside.y + from) as u16, inside.width as int, 1);
    let clickable = if entries[from].enabled {
        c.hit(row, Z_MENU, Target::MenuItem { index: from as usize })
    } else {
        c
    };
    let style = if entries[from].enabled {
        Style::colored(Color::White)
    } else {
        Style::colored(Color::DarkGray).dimmed()
    };
    let next = clickable.lined(row, seq![styled(entries[from].label, style)], Style::plain());
    let after = entries_drawn(next, inside, entries, from + 1);
    more_entries_stay_over(next, inside, entries, from + 1);
    if k == from {
        let paint = one_line(row, seq![styled(entries[from].label, style)], Style::plain());
        assert(next.paints[next.paints.len() - 1] == paint);
        what_is_painted_stays(next, after, paint);
    } else {
        the_entries_are_on_the_menu(next, inside, entries, from + 1, k);
    }
}

// ── saved statements ───────────────────────────────────────────────────────

/// The list of saved statements has every one whose name holds what was typed,
/// whatever the case of either, and no other, in the order they are saved in.
pub proof fn the_list_is_of_what_matches(templates: Seq<Template>, filter: Seq<char>, n: int)
    requires
        0 <= n <= templates.len() <= usize::MAX,
    ensures
        ({
            let list = listing(templates, filter, n);
            &&& forall|a: int, b: int|
                0 <= a < b < list.len() ==> #[trigger] list[a] < #[trigger] list[b]
            &&& forall|a: int|
                0 <= a < list.len() ==> (#[trigger] list[a]) < n && (lowercase(filter).len() == 0
                    || holds(lowercase(templates[list[a] as int].name@), lowercase(filter)))
            &&& forall|i: int|
                0 <= i < n && (lowercase(filter).len() == 0 || holds(
                    lowercase((#[trigger] templates[i]).name@),
                    lowercase(filter),
                )) ==> list.contains(i as usize)
        }),
    decreases n,
{
    if n > 0 {
        the_list_is_of_what_matches(templates, filter, n - 1);
        let before = listing(templates, filter, n - 1);
        let list = listing(templates, filter, n);
        assert forall|i: int|
            0 <= i < n && (lowercase(filter).len() == 0 || holds(
                lowercase((#[trigger] templates[i]).name@),
                lowercase(filter),
            )) implies list.contains(i as usize) by {
            if i == n - 1 {
                assert(list[list.len() - 1] == (n - 1) as usize);
            } else {
                assert(before.contains(i as usize));
                let at = choose|at: int| 0 <= at < before.len() && before[at] == i as usize;
                assert(list[at] == i as usize);
            }
        }
    }
}

/// The selection of a list moves by as many lines as it was asked to, and stops
/// at either end; and so does the keyboard from field to field of a form.
pub proof fn a_selection_moves_by_what_was_asked(
    palette: PaletteView,
    form: FormView,
    delta: int,
    matches: int,
)
    requires
        0 <= matches <= usize::MAX,
        form.fields.len() <= usize::MAX,
        palette.selected + delta <= usize::MAX,
        form.at + delta <= usize::MAX,
    ensures
        ({
            let wanted = palette.selected + delta;
            let next = palette.selecting(delta, matches);
            &&& next == (PaletteView { selected: next.selected, ..palette })
            &&& next.selected == if wanted < 0 || matches == 0 {
                0
            } else if wanted < matches {
                wanted
            } else {
                matches - 1
            }
        }),
        ({
            let wanted = form.at + delta;
            let next = form.moved(delta);
            &&& next == (FormView { at: next.at, ..form })
            &&& next.at == if wanted < 0 || form.fields.len() == 0 {
                0
            } else if wanted < form.fields.len() {
                wanted
            } else {
                form.fields.len() - 1
            }
        }),
{
}

/// What is typed into a form goes into the field the keyboard is in, and into no
/// other.
pub proof fn typing_goes_into_one_field(form: FormView, value: Seq<char>, i: int)
    requires
        0 <= i < form.fields.len(),
        form.at < form.fields.len(),
    ensures
        ({
            let next = form.edited(value);
            &&& next.fields.len() == form.fields.len()
            &&& next.fields[i] == if i == form.at {
                FieldView { value, ..form.fields[i] }
            } else {
                form.fields[i]
            }
            &&& next == (FormView { fields: next.fields, ..form })
            &&& next.current() == value
        }),
{
}

/// A field of a form is asked for by its name, which says so where a name is
/// wanted and not a value; it has what was typed into it, and a mark where the
/// keyboard is.
pub proof fn a_field_is_asked_for_by_its_name(field: FieldView, here: bool)
    ensures
        ({
            let spans = field_spans(field, here);
            let label = spans[0].text;
            let n = field.name.len() as int;
            &&& spans.len() == 3
            &&& label[0] == if here {
                '>'
            } else {
                ' '
            }
            &&& label.subrange(2, n + 2) == field.name
            &&& label.skip(n + 2) == match field.kind {
                Kind::Ident => " (name): "@,
                Kind::Value => ": "@,
            }
            &&& shows(spans[1].text, field.value)
            &&& spans[2].text.len() > 0 <==> here
        }),
{
    reveal_strlit("> ");
    reveal_strlit("  ");
    reveal_strlit(" (name)");
    reveal_strlit(" (name): ");
    reveal_strlit(": ");
    reveal_strlit("▏");
    reveal_strlit("");
    a_cell_shows_its_text(field.value);
    let label = field_spans(field, here)[0].text;
    let n = field.name.len() as int;
    assert(label.subrange(2, n + 2) =~= field.name);
    assert(" (name): "@ =~= " (name)"@ + ": "@);
    assert(label.skip(n + 2) =~= match field.kind {
        Kind::Ident => " (name): "@,
        Kind::Value => ": "@,
    });
}

/// A saved statement is listed by its name, and by the driver it is for where it
/// is for one.
pub proof fn a_statement_is_listed_by_its_name(template: Template)
    ensures
        ({
            let said = listed_as(template);
            let n = template.name@.len() as int;
            &&& said.take(n) == template.name@
            &&& match template.driver {
                Some(driver) => said.skip(n + 2) == driver@ && said[n] == ' ' && said[n + 1] == ' ',
                None => said.len() == n,
            }
        }),
{
    reveal_strlit("  ");
    let said = listed_as(template);
    let n = template.name@.len() as int;
    assert(said.take(n) =~= template.name@);
    if let Some(driver) = template.driver {
        assert(said.skip(n + 2) =~= driver@);
    }
}

} // verus!
