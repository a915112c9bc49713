//! What a command does, told by what is there before it and after it.

use crate::geometry::{least, less, most, stepped};
use crate::hit::PaneId;
use crate::intent::{Action, ActionView, CmdView, ViewCmd};
use crate::model::{PagedResult, Snapshot, Sort};
use crate::state::{drawn_width, leftmost, natural_width, GridView, UiView};
use crate::tree::a_shown_row_is_there;
use vstd::prelude::*;

verus! {

/// The screen after a command.
pub open spec fn ran(
    ui: UiView,
    cmd: ViewCmd,
    snapshot: Snapshot,
    rows: Option<PagedResult>,
) -> UiView {
    ui.applied(CmdView::Plain(cmd), snapshot, rows).0
}

/// What a command asks of the store.
pub open spec fn asks(
    ui: UiView,
    cmd: ViewCmd,
    snapshot: Snapshot,
    rows: Option<PagedResult>,
) -> Option<ActionView> {
    ui.applied(CmdView::Plain(cmd), snapshot, rows).1
}

/// Whether two screens differ in nothing but where they are scrolled to and
/// what is selected in them.
pub open spec fn only_moved(a: UiView, b: UiView) -> bool {
    b == (UiView { tree: b.tree, grids: b.grids, detail_offset: b.detail_offset, ..a })
}

// ── scrolling ──────────────────────────────────────────────────────────────

/// How many lines a pane has to show.
pub open spec fn lines_in(
    ui: UiView,
    pane: PaneId,
    snapshot: Snapshot,
    rows: Option<PagedResult>,
) -> int {
    match pane {
        PaneId::Explorer => ui.visible(snapshot).len() as int,
        PaneId::Detail => ui.detail_rows as int,
        PaneId::Grid => if ui.statement_shown(snapshot) || (ui.current() matches Some(tab)
            && tab.content is Sql) {
            ui.sql_lines as int
        } else if let Some(rows) = rows {
            rows.rows@.len() as int
        } else {
            0
        },
        _ => 0,
    }
}

/// How many lines of a pane are on the screen at once.
pub open spec fn lines_on_screen(ui: UiView, pane: PaneId) -> int {
    match pane {
        PaneId::Explorer => ui.viewports.explorer.height as int,
        PaneId::Detail => ui.viewports.detail.height as int,
        PaneId::Grid => ui.viewports.grid.height as int,
        PaneId::TabBar => ui.viewports.tab_bar.height as int,
        PaneId::StatusBar => ui.viewports.status_bar.height as int,
    }
}

/// The line a pane begins with.
pub open spec fn scrolled_to(ui: UiView, pane: PaneId) -> int {
    match pane {
        PaneId::Explorer => ui.tree.offset as int,
        PaneId::Detail => ui.detail_offset as int,
        PaneId::Grid => if let Some(id) = ui.active_tab {
            if ui.grids.contains_key(id.0) {
                ui.grids[id.0].row_offset as int
            } else {
                0
            }
        } else {
            0
        },
        _ => 0,
    }
}

/// Whether `at` is the line nearest to `wanted` that a pane with `lines` lines,
/// `page` of them on the screen, can begin with: one that leaves no room empty
/// below the last line, unless they all fit.
pub open spec fn nearest_line(at: int, wanted: int, lines: int, page: int) -> bool {
    if wanted <= 0 || lines <= page {
        at == 0
    } else if wanted + page <= lines {
        at == wanted
    } else {
        at + page == lines
    }
}

/// Whether a pane scrolls, and every number that has to be counted can be.
pub open spec fn scrolls(
    ui: UiView,
    pane: PaneId,
    snapshot: Snapshot,
    rows: Option<PagedResult>,
) -> bool {
    &&& pane == PaneId::Explorer || pane == PaneId::Detail || pane == PaneId::Grid
        && ui.active_tab is Some
    &&& lines_in(ui, pane, snapshot, rows) <= usize::MAX
}

proof fn paging_scrolls_nothing(ui: UiView, pane: PaneId, snapshot: Snapshot)
    ensures
        forall|p: PaneId|
            #[trigger] scrolled_to(ui.paged(pane, snapshot).0, p) == scrolled_to(ui, p),
        only_moved(ui, ui.paged(pane, snapshot).0),
        ui.paged(pane, snapshot).0.cursor() == ui.cursor(),
{
    reveal(UiView::paged);
    let next = ui.paged(pane, snapshot).0;
    assert forall|p: PaneId| #[trigger] scrolled_to(next, p) == scrolled_to(ui, p) by {}
}

proof fn a_scroll_goes_to_the_nearest_line(
    ui: UiView,
    pane: PaneId,
    to: int,
    snapshot: Snapshot,
    rows: Option<PagedResult>,
)
    requires
        scrolls(ui, pane, snapshot, rows),
        0 <= to,
    ensures
        ({
            let next = ui.scrolled(pane, to, snapshot, rows);
            &&& nearest_line(
                scrolled_to(next, pane),
                to,
                lines_in(ui, pane, snapshot, rows),
                lines_on_screen(ui, pane),
            )
            &&& forall|p: PaneId|
                p != pane ==> #[trigger] scrolled_to(next, p) == scrolled_to(ui, p)
            &&& only_moved(ui, next)
        }),
{
    let next = ui.scrolled(pane, to, snapshot, rows);
    assert forall|p: PaneId| p != pane implies #[trigger] scrolled_to(next, p) == scrolled_to(
        ui,
        p,
    ) by {}
}

/// A scroll by some lines goes that many lines on or back, as far as there are
/// lines: the other panes stay where they are, and so does everything else.
pub proof fn a_scroll_goes_as_far_as_it_says(
    ui: UiView,
    pane: PaneId,
    delta: i32,
    snapshot: Snapshot,
    rows: Option<PagedResult>,
)
    requires
        scrolls(ui, pane, snapshot, rows),
        scrolled_to(ui, pane) + delta <= usize::MAX,
    ensures
        ({
            let next = ran(ui, ViewCmd::ScrollBy { pane, delta }, snapshot, rows);
            &&& nearest_line(
                scrolled_to(next, pane),
                scrolled_to(ui, pane) + delta,
                lines_in(ui, pane, snapshot, rows),
                lines_on_screen(ui, pane),
            )
            &&& forall|p: PaneId|
                p != pane ==> #[trigger] scrolled_to(next, p) == scrolled_to(ui, p)
            &&& only_moved(ui, next)
        }),
{
    let to = stepped(ui.offset(pane), delta as int);
    a_scroll_goes_to_the_nearest_line(ui, pane, to, snapshot, rows);
    paging_scrolls_nothing(ui.scrolled(pane, to, snapshot, rows), pane, snapshot);
}

/// A jump to the start begins with the first line, one to the end ends with the
/// last, and one to a part of the way goes that part of what can be scrolled,
/// cut to a line.
pub proof fn a_jump_goes_where_it_says(
    ui: UiView,
    pane: PaneId,
    permille: u16,
    snapshot: Snapshot,
    rows: Option<PagedResult>,
)
    requires
        scrolls(ui, pane, snapshot, rows),
    ensures
        ({
            let lines = lines_in(ui, pane, snapshot, rows);
            let page = lines_on_screen(ui, pane);
            let start = ran(ui, ViewCmd::ScrollToStart(pane), snapshot, rows);
            let end = ran(ui, ViewCmd::ScrollToEnd(pane), snapshot, rows);
            let part = ran(ui, ViewCmd::ScrollToRatio { pane, permille }, snapshot, rows);
            &&& scrolled_to(start, pane) == 0
            &&& nearest_line(scrolled_to(end, pane), lines, lines, page)
            &&& permille >= 1000 ==> scrolled_to(part, pane) == scrolled_to(end, pane)
            &&& permille < 1000 && lines > page ==> 1000 * scrolled_to(part, pane) <= (lines - page)
                * permille < 1000 * (scrolled_to(part, pane) + 1)
            &&& lines <= page ==> scrolled_to(part, pane) == 0
            &&& only_moved(ui, start) && only_moved(ui, end) && only_moved(ui, part)
        }),
{
    let lines = lines_in(ui, pane, snapshot, rows);
    let page = lines_on_screen(ui, pane);
    a_scroll_goes_to_the_nearest_line(ui, pane, 0, snapshot, rows);
    let most = usize::MAX as int;
    a_scroll_goes_to_the_nearest_line(ui, pane, most, snapshot, rows);
    paging_scrolls_nothing(ui.scrolled(pane, most, snapshot, rows), pane, snapshot);
    let room = ui.scrollable(pane, snapshot, rows);
    let part = least(permille as int, 1000);
    let to = room * part / 1000;
    assert(0 <= to <= room && 1000 * to <= room * part < 1000 * (to + 1)) by (nonlinear_arith)
        requires
            to == room * part / 1000,
            0 <= room,
            0 <= part <= 1000,
    ;
    assert(part == 1000 ==> to == room) by (nonlinear_arith)
        requires
            to == room * part / 1000,
    ;
    assert(room == less(lines, page));
    a_scroll_goes_to_the_nearest_line(ui, pane, to, snapshot, rows);
    paging_scrolls_nothing(ui.scrolled(pane, to, snapshot, rows), pane, snapshot);
}

/// A scroll sideways goes that many columns on or back, and no further than the
/// last.
pub proof fn a_scroll_sideways_goes_as_far_as_it_says(
    ui: UiView,
    delta: i32,
    snapshot: Snapshot,
    rows: PagedResult,
)
    requires
        ui.active_tab is Some,
        rows.columns@.len() <= usize::MAX,
        ui.own_grid().col_offset + delta <= usize::MAX,
    ensures
        ({
            let next = ran(ui, ViewCmd::ScrollXBy { delta }, snapshot, Some(rows));
            let wanted = ui.own_grid().col_offset + delta;
            &&& next.own_grid() == (GridView {
                col_offset: next.own_grid().col_offset,
                ..ui.own_grid()
            })
            &&& next.own_grid().col_offset == if wanted < 0 || rows.columns@.len() == 0 {
                0
            } else if wanted < rows.columns@.len() {
                wanted
            } else {
                rows.columns@.len() - 1
            }
            &&& only_moved(ui, next)
        }),
{
}

/// The next page is asked for exactly when the end of what was fetched is near:
/// the last line on the screen is within twenty of the last row there is, there
/// are more to be had, and they have not been asked for since the last answer.
pub proof fn the_next_page_is_asked_for_near_the_end(
    ui: UiView,
    delta: i32,
    snapshot: Snapshot,
    rows: Option<PagedResult>,
)
    requires
        scrolls(ui, PaneId::Grid, snapshot, rows),
        scrolled_to(ui, PaneId::Grid) + delta <= usize::MAX,
    ensures
        ({
            let cmd = ViewCmd::ScrollBy { pane: PaneId::Grid, delta };
            let next = ran(ui, cmd, snapshot, rows);
            let last = scrolled_to(next, PaneId::Grid) + ui.viewports.grid.height;
            asks(ui, cmd, snapshot, rows) == match ui.active_preview(snapshot) {
                Some(preview) => if preview.data is Ready && !preview.exhausted && preview.loaded_rows
                    <= last + 20 && ui.own_grid().asked_after != Some(preview.attempts) {
                    Some(
                        ActionView::Plain(
                            Action::LoadMore {
                                conn: ui.current()->0.conn,
                                table: ui.current()->0.table()->0,
                            },
                        ),
                    )
                } else {
                    None
                },
                None => None,
            }
        }),
{
    reveal(UiView::paged);
    let to = stepped(ui.offset(PaneId::Grid), delta as int);
    let moved = ui.scrolled(PaneId::Grid, to, snapshot, rows);
    a_scroll_goes_to_the_nearest_line(ui, PaneId::Grid, to, snapshot, rows);
    paging_scrolls_nothing(moved, PaneId::Grid, snapshot);
    let id = ui.active_tab->0;
    assert(moved.tab(id) == ui.tab(id));
    assert(moved.active_preview(snapshot) == ui.active_preview(snapshot));
    assert(moved.own_grid().asked_after == ui.own_grid().asked_after);
    assert(moved.offset(PaneId::Grid) == scrolled_to(moved, PaneId::Grid));
}

/// Scrolling in any other pane asks for nothing.
pub proof fn only_the_grid_asks_for_more(
    ui: UiView,
    pane: PaneId,
    delta: i32,
    snapshot: Snapshot,
    rows: Option<PagedResult>,
)
    requires
        pane != PaneId::Grid,
    ensures
        asks(ui, ViewCmd::ScrollBy { pane, delta }, snapshot, rows) is None,
        asks(ui, ViewCmd::ScrollToEnd(pane), snapshot, rows) is None,
{
    reveal(UiView::paged);
}

// ── the explorer's selection ───────────────────────────────────────────────

/// Selecting a row of the explorer selects that row, or the last where there is
/// none so far down; and moving the selection moves it by as many rows, from the
/// first where nothing was selected.
pub proof fn a_row_of_the_explorer_is_selected(
    ui: UiView,
    index: usize,
    delta: i32,
    snapshot: Snapshot,
    rows: Option<PagedResult>,
)
    requires
        snapshot.explorer@.len() <= usize::MAX,
        ui.tree.selected matches Some(from) ==> from + delta <= usize::MAX,
    ensures
        ({
            let shown = ui.visible(snapshot).len();
            let picked = ran(ui, ViewCmd::SelectTreeRow(index), snapshot, rows);
            let moved = ran(ui, ViewCmd::MoveTreeSelection(delta), snapshot, rows);
            let wanted = match ui.tree.selected {
                Some(from) => from + delta,
                None => 0,
            };
            &&& shown == 0 ==> picked.tree.selected is None && moved.tree.selected is None
            &&& shown > 0 ==> {
                &&& picked.tree.selected matches Some(row) && if index < shown {
                    row == index
                } else {
                    row == shown - 1
                }
                &&& moved.tree.selected matches Some(row) && if wanted < 0 {
                    row == 0
                } else if wanted < shown {
                    row == wanted
                } else {
                    row == shown - 1
                }
            }
            &&& picked == (UiView { tree: picked.tree, ..ui })
            &&& moved == (UiView { tree: moved.tree, ..ui })
        }),
{
    if ui.visible(snapshot).len() > 0 {
        a_shown_row_is_there(snapshot.explorer@, ui.filter_text(), 0);
    }
}

// ── the cursor ─────────────────────────────────────────────────────────────

/// Whether `at` is `wanted`, or the nearest to it of the first `n`.
pub open spec fn nearest_of(at: int, wanted: int, n: int) -> bool {
    at == if wanted < 0 {
        0
    } else if wanted < n {
        wanted
    } else {
        n - 1
    }
}

proof fn selecting_moves_the_cursor(
    ui: UiView,
    row: int,
    col: int,
    snapshot: Snapshot,
    rows: PagedResult,
)
    requires
        ui.active_tab is Some,
        0 <= row,
        0 <= col,
        0 < rows.rows@.len() <= usize::MAX,
        0 < rows.columns@.len() <= usize::MAX,
    ensures
        ({
            let next = ui.cell_selected(row, col, Some(rows)).paged(PaneId::Grid, snapshot).0;
            &&& nearest_of(next.cursor().0, row, rows.rows@.len() as int)
            &&& nearest_of(next.cursor().1, col, rows.columns@.len() as int)
            &&& only_moved(ui, next)
            &&& next.own_grid().anchor == ui.own_grid().anchor
            &&& next.own_grid().widths == ui.own_grid().widths
        }),
{
    reveal(UiView::cell_selected);
    reveal(UiView::paged);
    let next = ui.cell_selected(row, col, Some(rows));
    paging_scrolls_nothing(next, PaneId::Grid, snapshot);
}

/// Selecting a cell puts the cursor on that cell, or on the nearest there is;
/// moving puts it as many cells away, or on the last on the way; and both leave
/// nothing else selected.
pub proof fn the_cursor_goes_where_it_is_sent(
    ui: UiView,
    row: usize,
    col: usize,
    drow: i32,
    dcol: i32,
    snapshot: Snapshot,
    rows: PagedResult,
)
    requires
        ui.active_tab is Some,
        0 < rows.rows@.len() <= usize::MAX,
        0 < rows.columns@.len() <= usize::MAX,
        ui.cursor().0 + drow <= usize::MAX,
        ui.cursor().1 + dcol <= usize::MAX,
    ensures
        ({
            let put = ran(ui, ViewCmd::SelectCell { row, col }, snapshot, Some(rows));
            let moved = ran(ui, ViewCmd::MoveCellSelection { drow, dcol }, snapshot, Some(rows));
            &&& nearest_of(put.cursor().0, row as int, rows.rows@.len() as int)
            &&& nearest_of(put.cursor().1, col as int, rows.columns@.len() as int)
            &&& nearest_of(moved.cursor().0, ui.cursor().0 + drow, rows.rows@.len() as int)
            &&& nearest_of(moved.cursor().1, ui.cursor().1 + dcol, rows.columns@.len() as int)
            &&& put.own_grid().anchor is None && moved.own_grid().anchor is None
            &&& only_moved(ui, put) && only_moved(ui, moved)
        }),
{
    let free = ui.unanchored();
    assert(free.cursor() == ui.cursor());
    selecting_moves_the_cursor(free, row as int, col as int, snapshot, rows);
    selecting_moves_the_cursor(
        free,
        stepped(ui.cursor().0, drow as int),
        stepped(ui.cursor().1, dcol as int),
        snapshot,
        rows,
    );
}

/// Extending a selection moves the cursor in the same way and keeps the corner
/// it began at, which is where the cursor was when there was none.
pub proof fn extending_moves_the_other_corner(
    ui: UiView,
    row: usize,
    col: usize,
    drow: i32,
    dcol: i32,
    snapshot: Snapshot,
    rows: PagedResult,
)
    requires
        ui.active_tab is Some,
        0 < rows.rows@.len() <= usize::MAX,
        0 < rows.columns@.len() <= usize::MAX,
        ui.cursor().0 + drow <= usize::MAX,
        ui.cursor().1 + dcol <= usize::MAX,
    ensures
        ({
            let sort = ui.active_sort(snapshot);
            let corner = match ui.own_grid().anchor {
                Some((at, under)) if under == sort => at,
                _ => (ui.own_grid().row, ui.own_grid().col),
            };
            let put = ran(ui, ViewCmd::ExtendCellSelectionTo { row, col }, snapshot, Some(rows));
            let moved = ran(ui, ViewCmd::ExtendCellSelection { drow, dcol }, snapshot, Some(rows));
            &&& nearest_of(put.cursor().0, row as int, rows.rows@.len() as int)
            &&& nearest_of(put.cursor().1, col as int, rows.columns@.len() as int)
            &&& nearest_of(moved.cursor().0, ui.cursor().0 + drow, rows.rows@.len() as int)
            &&& nearest_of(moved.cursor().1, ui.cursor().1 + dcol, rows.columns@.len() as int)
            &&& put.own_grid().anchor == Some((corner, sort))
            &&& moved.own_grid().anchor == Some((corner, sort))
            &&& only_moved(ui, put) && only_moved(ui, moved)
        }),
{
    let held = ui.anchored(snapshot);
    assert(held.cursor() == ui.cursor());
    selecting_moves_the_cursor(held, row as int, col as int, snapshot, rows);
    selecting_moves_the_cursor(
        held,
        stepped(ui.cursor().0, drow as int),
        stepped(ui.cursor().1, dcol as int),
        snapshot,
        rows,
    );
}

/// A selection is every cell between its two corners and no other: a cell is in
/// it exactly when its row and its column are neither before both corners nor
/// behind both; and it is counted as that many rows and columns.
pub proof fn a_selection_is_what_lies_between_its_corners(
    grid: GridView,
    corner: (usize, usize),
    sort: Option<Sort>,
    row: usize,
    col: usize,
)
    requires
        grid.anchor == Some((corner, sort)),
    ensures
        ({
            let (top, left, bottom, right) = grid.selection(sort);
            &&& top <= row <= bottom <==> !(row < corner.0 && row < grid.row) && !(row > corner.0
                && row > grid.row)
            &&& left <= col <= right <==> !(col < corner.1 && col < grid.col) && !(col > corner.1
                && col > grid.col)
            &&& bottom - top < usize::MAX && right - left < usize::MAX ==> match grid.selected_cells(
                sort,
            ) {
                Some((high, wide)) => high == bottom - top + 1 && wide == right - left + 1 && high
                    * wide != 1,
                None => top == bottom && left == right,
            }
        }),
{
    let (top, left, bottom, right) = grid.selection(sort);
    let (high, wide) = (bottom - top + 1, right - left + 1);
    assert(high >= 1 && wide >= 1 && high * wide == 1 ==> high == 1 && wide == 1)
        by (nonlinear_arith);
}

/// The columns from one up to another, drawn.
pub open spec fn columns_drawn(grid: GridView, from: int, to: int) -> int
    decreases to - from + 1,
{
    if from > to {
        0
    } else {
        columns_drawn(grid, from, to - 1) + drawn_width(grid, to)
    }
}

proof fn one_more_on_the_left(grid: GridView, from: int, to: int)
    requires
        from <= to,
    ensures
        columns_drawn(grid, from, to) == drawn_width(grid, from) + columns_drawn(
            grid,
            from + 1,
            to,
        ),
    decreases to - from,
{
    if from < to {
        one_more_on_the_left(grid, from, to - 1);
    } else {
        assert(columns_drawn(grid, from, to - 1) == 0);
        assert(columns_drawn(grid, from + 1, to) == 0);
    }
}

proof fn leftmost_fits(grid: GridView, c: int, col: int, available: int)
    requires
        -1 <= c <= col,
        0 <= col,
        c < col ==> c + 1 == col || columns_drawn(grid, c + 1, col) <= available,
    ensures
        ({
            let left = leftmost(grid, c, col, columns_drawn(grid, c + 1, col), available);
            &&& left == col || columns_drawn(grid, left, col) <= available
            &&& left == 0 || left == c + 1 && c < col || left <= c
            &&& 0 < left ==> columns_drawn(grid, left - 1, col) > available
        }),
    decreases c + 1,
{
    if c >= 0 {
        one_more_on_the_left(grid, c, col);
        let taken = columns_drawn(grid, c, col);
        if !(taken > available && c != col) {
            leftmost_fits(grid, c - 1, col, available);
        }
    }
}

/// Whether the columns from where the grid is scrolled to up to the cursor's fit
/// on the screen, or only that one is begun.
pub open spec fn cursor_column_fits(ui: UiView) -> bool {
    let grid = ui.own_grid();
    &&& grid.col_offset <= grid.col
    &&& grid.col_offset == grid.col || columns_drawn(
        grid,
        grid.col_offset as int,
        grid.col as int,
    ) <= ui.viewports.grid.width
}

/// The cursor's column is drawn whole wherever there is room for it, and the
/// grid is scrolled sideways only as far as that takes: to the cursor's column
/// where that is further left, and otherwise by no column that would still fit.
pub proof fn the_cursor_column_is_on_the_screen(
    ui: UiView,
    row: int,
    col: int,
    rows: PagedResult,
)
    requires
        ui.active_tab is Some,
        0 <= row,
        0 <= col,
        0 < rows.rows@.len() <= usize::MAX,
        0 < rows.columns@.len() <= usize::MAX,
        ui.viewports.grid.width > 0,
    ensures
        ({
            let next = ui.cell_selected(row, col, Some(rows));
            let was = ui.own_grid().col_offset;
            let is = next.own_grid().col_offset;
            &&& cursor_column_fits(next)
            &&& is < was ==> is == next.own_grid().col
            &&& is > was ==> columns_drawn(
                next.own_grid(),
                is - 1,
                next.own_grid().col as int,
            ) > ui.viewports.grid.width
        }),
{
    reveal(UiView::cell_selected);
    let next = ui.cell_selected(row, col, Some(rows));
    let at = least(col, rows.columns@.len() - 1);
    let available = ui.viewports.grid.width as int;
    let laid = ui.laid_grid(Some(rows)).own_grid();
    assert(columns_drawn(laid, at + 1, at) == 0);
    leftmost_fits(laid, at, at, available);
    let left = leftmost(laid, at, at, 0, available);
    let grid = next.own_grid();
    same_widths_are_drawn_alike(laid, grid, left, at);
    same_widths_are_drawn_alike(laid, grid, left - 1, at);
    same_widths_are_drawn_alike(laid, grid, grid.col_offset as int, at);
    if left < grid.col_offset <= at {
        fewer_columns_are_no_wider(laid, left, grid.col_offset as int, at);
    }
}

proof fn same_widths_are_drawn_alike(a: GridView, b: GridView, from: int, to: int)
    requires
        a.widths == b.widths,
        a.shown == b.shown,
    ensures
        columns_drawn(a, from, to) == columns_drawn(b, from, to),
    decreases to - from + 1,
{
    if from <= to {
        same_widths_are_drawn_alike(a, b, from, to - 1);
    }
}

proof fn fewer_columns_are_no_wider(grid: GridView, from: int, later: int, to: int)
    requires
        from <= later <= to,
    ensures
        columns_drawn(grid, later, to) <= columns_drawn(grid, from, to),
    decreases later - from,
{
    if from < later {
        one_more_on_the_left(grid, from, to);
        fewer_columns_are_no_wider(grid, from + 1, later, to);
    }
}

/// A column is made wider or narrower by as many cells as were asked for, as
/// long as one is left; the others keep their widths.
pub proof fn a_column_is_resized_by_what_was_asked(
    ui: UiView,
    col: usize,
    delta: i16,
    snapshot: Snapshot,
    rows: PagedResult,
    other: usize,
    natural: u16,
)
    requires
        ui.active_tab is Some,
        col < rows.columns@.len(),
        other != col,
    ensures
        ({
            let next = ran(ui, ViewCmd::ResizeColumn { col, delta }, snapshot, Some(rows));
            let before = ui.own_grid().showing(rows);
            let own = natural_width(before, col as int);
            let wanted = before.width(col, own) + delta;
            let is = next.own_grid().width(col, own);
            &&& 1 <= wanted <= u16::MAX ==> is == wanted
            &&& wanted < 1 ==> is == 1
            &&& next.own_grid().width(other, natural) == before.width(other, natural)
            &&& next.cursor() == ui.cursor()
            &&& only_moved(ui, next)
        }),
{
}

} // verus!
