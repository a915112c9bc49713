//! How high each part of a frame lies.
//!
//! A dialog blocks what is behind it by lying above it, so everything else that
//! is on the screen while one is up has to lie below its backdrop.

use crate::chrome::{
    bars_drawn, busy_label, cramped, fitted, jobs_said, pane_drawn, scrollbar_drawn, spaced,
    status_bar_drawn, tab_bar_drawn, tab_drawn, tabs_drawn, thumb_length, thumb_place, track_drawn,
    track_of, Frames, Saying,
};
use crate::datagrid::{
    body_place, cell_drawn, cells_drawn, columns_in, content_place, grid_drawn, header_drawn,
    heading_drawn, headings_drawn, lines_drawn, preview_drawn, result_drawn, under_header,
};
use crate::definition::{lays_out, list_drawn, section_style, sections_drawn, Laid, LIST_WIDTH};
use crate::geometry::{least, less, Position, Rect};
use crate::grid::column_looks;
use crate::history::{below_the_search, search_drawn};
use crate::hit::{all_below, target_at, ButtonId, PaneId, Target, Z_BACKDROP, Z_CHROME};
use crate::ids::{ConnId, TabId};
use crate::model::{
    preview_of, query_is, BusyItem, LoadState, PagedResult, PreviewView, Snapshot,
    Sort, TableDetail,
};
use crate::overlay::{
    nothing_behind_a_dialog_is_reached, of_a_dialog, stack_drawn, toast_drawn, toasts_drawn,
    MODAL_WIDTH,
};
use crate::paint::{styled, CanvasView, Color, Style};
use crate::palette::{nothing_behind_the_palette_is_reached, of_the_palette};
use crate::screen::{
    any_live, between_the_bars, closely_drawn, definition_front, described_front, describes_front,
    framed, fronted, history_front, left_drawn, rows_front, saved, screen_drawn,
    selected_in_front, with_viewport, Front,
};
use crate::search::first_item;
use crate::state::{arrived, tell_of, ContentView, GridView, TabView, ToastView, UiView};
use crate::text::some_text;
use crate::tree::{asked_color, explorer_drawn, row_drawn, rows_drawn, shown, tree_drawn};
use crate::ui::{FilterView, TreeUi};
use vstd::prelude::*;

verus! {

/// Everything that has been recorded of a frame lies below the backdrop of a
/// dialog.
pub open spec fn low(c: CanvasView) -> bool {
    all_below(c.hits, Z_BACKDROP)
}

// ── the frame around the content ───────────────────────────────────────────

proof fn bars_are_low(c: CanvasView, x: u16, from: int, to: int, mark: Seq<char>, style: Style)
    requires
        low(c),
    ensures
        low(bars_drawn(c, x, from, to, mark, style)),
    decreases to - from,
{
    if from < to {
        bars_are_low(
            c.said(Rect::cut(x, from as u16, 1, 1), mark, style),
            x,
            from + 1,
            to,
            mark,
            style,
        );
    }
}

proof fn a_track_is_low(c: CanvasView, area: Rect, from: int, thumb_at: int, thumb_len: int)
    requires
        low(c),
    ensures
        low(track_drawn(c, area, from, thumb_at, thumb_len)),
    decreases area.height - from,
{
    if from < area.height {
        let place = track_of(area, from, 1);
        a_track_is_low(
            c.said(place, "█"@, Style::colored(Color::Gray)),
            area,
            from + 1,
            thumb_at,
            thumb_len,
        );
        a_track_is_low(
            c.said(place, "│"@, Style::colored(Color::DarkGray)),
            area,
            from + 1,
            thumb_at,
            thumb_len,
        );
    }
}

proof fn a_scrollbar_is_low(
    c: CanvasView,
    area: Rect,
    pane: PaneId,
    offset: int,
    content: int,
)
    requires
        low(c),
    ensures
        low(scrollbar_drawn(c, area, pane, offset, content)),
{
    let track = area.height as int;
    let len = thumb_length(track, content);
    let at = thumb_place(track, offset, content);
    assert forall|drawn: CanvasView| low(drawn) implies low(
        #[trigger] track_drawn(drawn, area, 0, at, len),
    ) by {
        a_track_is_low(drawn, area, 0, at, len);
    }
}

proof fn tabs_are_low(
    c: CanvasView,
    area: Rect,
    x: int,
    tabs: Seq<TabView>,
    active: Option<TabId>,
    from: int,
)
    requires
        low(c),
    ensures
        low(tabs_drawn(c, area, x, tabs, active, from).0),
    decreases tabs.len() - from,
{
    if 0 <= from < tabs.len() {
        let width = spaced(tabs[from].content.title()).len();
        if x + width + 2 <= area.right_edge() {
            let drawn = tab_drawn(c, area, x, tabs[from], active);
            assert(low(drawn));
            tabs_are_low(drawn, area, x + width + 2, tabs, active, from + 1);
        }
    }
}

proof fn a_tab_bar_is_low(
    c: CanvasView,
    area: Rect,
    tabs: Seq<TabView>,
    active: Option<TabId>,
    live: bool,
)
    requires
        low(c),
    ensures
        low(tab_bar_drawn(c, area, tabs, active, live)),
{
    assert forall|drawn: CanvasView| low(drawn) implies low(
        #[trigger] tabs_drawn(drawn, area, area.x as int, tabs, active, 0).0,
    ) by {
        tabs_are_low(drawn, area, area.x as int, tabs, active, 0);
    }
}

proof fn jobs_are_low(s: Saying, area: Rect, busy: Seq<BusyItem>, from: int)
    requires
        low(s.canvas),
    ensures
        low(jobs_said(s, area, busy, from).canvas),
    decreases busy.len() - from,
{
    if 0 <= from < busy.len() {
        let label = busy_label(busy[from]);
        if s.x + label.len() + 3 <= area.right_edge() {
            let said = Saying {
                canvas: s.canvas.hit(
                    Rect::cut((s.x + label.len()) as u16, area.y, 3, 1),
                    Z_CHROME,
                    Target::Button(ButtonId::Cancel(busy[from].id)),
                ),
                spans: s.spans.push(styled(label, Style::colored(Color::Yellow))).push(
                    styled("[×]"@, Style::colored(Color::Red).in_bold()),
                ),
                x: s.x + label.len() + 3,
            };
            jobs_are_low(said, area, busy, from + 1);
        }
    }
}

proof fn a_status_bar_is_low(
    c: CanvasView,
    area: Rect,
    busy: Seq<BusyItem>,
    selected: Option<(usize, usize)>,
    can_run: bool,
)
    requires
        low(c),
    ensures
        low(status_bar_drawn(c, area, busy, selected, can_run)),
{
    assert forall|said: Saying| low(said.canvas) implies low(
        (#[trigger] jobs_said(said, area, busy, 0)).canvas,
    ) by {
        jobs_are_low(said, area, busy, 0);
    }
}

// ── the explorer ───────────────────────────────────────────────────────────

proof fn rows_are_low(
    c: CanvasView,
    area: Rect,
    snapshot: Snapshot,
    rows: Seq<usize>,
    ui: TreeUi,
    from: int,
    to: int,
)
    requires
        low(c),
    ensures
        low(rows_drawn(c, area, snapshot, rows, ui, from, to)),
    decreases to - from,
{
    if from < to {
        let node = snapshot.explorer@[rows[from] as int];
        let drawn = row_drawn(
            c,
            Rect::cut(area.x, (area.y + (from - ui.offset)) as u16, area.width as int, 1),
            node,
            from as usize,
            ui.selected == Some(from as usize),
            asked_color(snapshot, node),
        );
        assert(low(drawn));
        rows_are_low(drawn, area, snapshot, rows, ui, from + 1, to);
    }
}

proof fn a_tree_is_low(
    c: CanvasView,
    area: Rect,
    snapshot: Snapshot,
    ui: TreeUi,
    filter: Option<Seq<char>>,
)
    requires
        low(c),
    ensures
        low(tree_drawn(c, area, snapshot, ui, filter)),
{
    let place = if area.width > 1 {
        Rect { width: (area.width - 1) as u16, ..area }
    } else {
        area
    };
    let rows = shown(snapshot.explorer@, filter);
    let to = least(rows.len() as int, ui.offset + place.height);
    rows_are_low(c, place, snapshot, rows, ui, ui.offset as int, to);
    a_scrollbar_is_low(
        rows_drawn(c, place, snapshot, rows, ui, ui.offset as int, to),
        area,
        PaneId::Explorer,
        ui.offset as int,
        rows.len() as int,
    );
}

proof fn an_explorer_is_low(
    c: CanvasView,
    area: Rect,
    snapshot: Snapshot,
    ui: TreeUi,
    filter: Option<Seq<char>>,
)
    requires
        low(c),
    ensures
        low(explorer_drawn(c, area, snapshot, ui, filter)),
{
    assert forall|drawn: CanvasView, place: Rect| low(drawn) implies low(
        #[trigger] tree_drawn(drawn, place, snapshot, ui, filter),
    ) by {
        a_tree_is_low(drawn, place, snapshot, ui, filter);
    }
}

proof fn the_left_is_low(c: CanvasView, ui: UiView, frames: Frames, snapshot: Snapshot)
    requires
        low(c),
    ensures
        low(left_drawn(c, ui, frames, snapshot)),
{
    let bar = tab_bar_drawn(c, frames.tab_bar, ui.tabs, ui.active_tab, any_live(snapshot));
    a_tab_bar_is_low(c, frames.tab_bar, ui.tabs, ui.active_tab, any_live(snapshot));
    let pane = pane_drawn(
        bar,
        frames.explorer,
        PaneId::Explorer,
        "Explorer"@,
        ui.focus == PaneId::Explorer,
    );
    assert(low(pane));
    let inside = frames.explorer.bordered();
    an_explorer_is_low(pane, inside, snapshot, ui.tree, ui.filter_text());
    assert forall|drawn: CanvasView, x: u16, from: int, to: int, mark: Seq<char>, style: Style|
        low(drawn) implies low(#[trigger] bars_drawn(drawn, x, from, to, mark, style)) by {
        bars_are_low(drawn, x, from, to, mark, style);
    }
}

// ── a grid ─────────────────────────────────────────────────────────────────

proof fn headings_are_low(
    c: CanvasView,
    area: Rect,
    rows: PagedResult,
    columns: Seq<(usize, u16, u16)>,
    sortable: bool,
    sort: Option<Sort>,
    from: int,
)
    requires
        low(c),
    ensures
        low(headings_drawn(c, area, rows, columns, sortable, sort, from)),
    decreases columns.len() - from,
{
    if 0 <= from < columns.len() {
        let drawn = heading_drawn(
            c,
            area,
            column_looks(rows)[columns[from].0 as int],
            columns[from],
            sortable,
            sort,
        );
        assert(low(drawn));
        headings_are_low(drawn, area, rows, columns, sortable, sort, from + 1);
    }
}

proof fn cells_are_low(
    c: CanvasView,
    y: u16,
    rows: PagedResult,
    grid: GridView,
    row: usize,
    columns: Seq<(usize, u16, u16)>,
    from: int,
)
    requires
        low(c),
    ensures
        low(cells_drawn(c, y, rows, grid, row, columns, from)),
    decreases columns.len() - from,
{
    if 0 <= from < columns.len() {
        let drawn = cell_drawn(c, y, rows, grid, row, columns[from]);
        assert(low(drawn));
        cells_are_low(drawn, y, rows, grid, row, columns, from + 1);
    }
}

proof fn lines_are_low(
    c: CanvasView,
    area: Rect,
    rows: PagedResult,
    grid: GridView,
    columns: Seq<(usize, u16, u16)>,
    from: int,
    to: int,
)
    requires
        low(c),
    ensures
        low(lines_drawn(c, area, rows, grid, columns, from, to)),
    decreases to - from,
{
    if from < to {
        let y = (area.y + (from - grid.row_offset)) as u16;
        cells_are_low(c, y, rows, grid, from as usize, columns, 0);
        lines_are_low(
            cells_drawn(c, y, rows, grid, from as usize, columns, 0),
            area,
            rows,
            grid,
            columns,
            from + 1,
            to,
        );
    }
}

proof fn a_header_is_low(
    c: CanvasView,
    area: Rect,
    rows: PagedResult,
    grid: GridView,
    sortable: bool,
    sort: Option<Sort>,
)
    requires
        low(c),
    ensures
        low(header_drawn(c, area, rows, grid, sortable, sort)),
{
    let columns = columns_in(area, rows, grid);
    assert forall|drawn: CanvasView| low(drawn) implies low(
        #[trigger] headings_drawn(drawn, area, rows, columns, sortable, sort, 0),
    ) by {
        headings_are_low(drawn, area, rows, columns, sortable, sort, 0);
    }
}

proof fn a_grid_is_low(
    c: CanvasView,
    area: Rect,
    rows: PagedResult,
    grid: GridView,
    sortable: bool,
    sort: Option<Sort>,
)
    requires
        low(c),
    ensures
        low(grid_drawn(c, area, rows, grid, sortable, sort)),
{
    a_header_is_low(c, area, rows, grid, sortable, sort);
    let content = content_place(area);
    let place = under_header(content);
    let headed = header_drawn(c, content, rows, grid, sortable, sort);
    a_header_is_low(c, content, rows, grid, sortable, sort);
    let columns = columns_in(place, rows, grid);
    let from = grid.row_offset as int;
    let to = least(rows.rows@.len() as int, grid.row_offset + place.height);
    lines_are_low(headed, place, rows, grid, columns, from, to);
    a_scrollbar_is_low(
        lines_drawn(headed, place, rows, grid, columns, from, to),
        under_header(area),
        PaneId::Grid,
        from,
        rows.rows@.len() as int,
    );
}

proof fn a_result_is_low(
    c: CanvasView,
    area: Rect,
    rows: PagedResult,
    grid: GridView,
    sortable: bool,
    sort: Option<Sort>,
)
    requires
        low(c),
    ensures
        low(result_drawn(c, area, rows, grid, sortable, sort)),
{
    let laid = grid.showing(rows);
    a_grid_is_low(c, area, laid.shown->0, laid, sortable, sort);
}

// ── the tab in front ───────────────────────────────────────────────────────

/// What drawing the tab in front leaves of a screen: nothing recorded as high
/// as a dialog, and whatever lies over the content as it was.
pub open spec fn stays_under(ui: UiView, front: Front) -> bool {
    &&& low(front.canvas)
    &&& front.ui.modal == ui.modal
    &&& front.ui.menu == ui.menu
    &&& front.ui.palette == ui.palette
}

proof fn rows_stay_under(
    c: CanvasView,
    ui: UiView,
    id: TabId,
    area: Rect,
    rows: PagedResult,
    wanted: bool,
)
    requires
        low(c),
    ensures
        stays_under(ui, rows_front(c, ui, id, area, rows, wanted)),
{
    a_result_is_low(c, area, rows, ui.grid_or_fresh(id), false, None);
}

proof fn a_list_is_low(
    c: CanvasView,
    area: Rect,
    titles: Seq<Seq<char>>,
    selected: usize,
    from: int,
)
    requires
        low(c),
    ensures
        low(list_drawn(c, area, titles, selected, from)),
    decreases titles.len() - from,
{
    if 0 <= from < titles.len() && from < area.height {
        let row = Rect::cut(area.x, (area.y + from) as u16, LIST_WIDTH as int, 1);
        let drawn = c.hit(row, Z_CHROME, Target::Section { index: from as usize }).lined(
            row,
            seq![
                styled(
                    spaced(fitted(titles[from], (LIST_WIDTH - 2) as u16)),
                    section_style(from == selected),
                ),
            ],
            Style::plain(),
        );
        a_list_is_low(drawn, area, titles, selected, from + 1);
    }
}

proof fn a_description_stays_under(
    c: CanvasView,
    ui: UiView,
    id: TabId,
    section: usize,
    area: Rect,
    laid: Laid,
    wanted: bool,
)
    requires
        low(c),
    ensures
        stays_under(ui, described_front(c, ui, id, section, area, laid, wanted)),
{
    assert forall|selected: usize| low(
        #[trigger] sections_drawn(c, area, laid.title_list(), selected),
    ) by {
        a_list_is_low(c, area, laid.title_list(), selected, 0);
    }
    assert forall|drawn: CanvasView, seen: UiView, place: Rect, rows: PagedResult| low(
        drawn,
    ) implies stays_under(seen, #[trigger] rows_front(drawn, seen, id, place, rows, wanted)) by {
        rows_stay_under(drawn, seen, id, place, rows, wanted);
    }
}

proof fn a_preview_stays_under(
    c: CanvasView,
    ui: UiView,
    id: TabId,
    area: Rect,
    preview: PreviewView,
    sortable: bool,
)
    requires
        low(c),
    ensures
        low(preview_drawn(c, area, preview, ui.grid_or_fresh(id), sortable)),
{
    if let Some(rows) = arrived(preview.data) {
        a_result_is_low(c, area, rows, ui.grid_or_fresh(id), sortable, preview.sort);
    }
}

proof fn a_definition_stays_under(
    c: CanvasView,
    ui: UiView,
    id: TabId,
    conn: ConnId,
    table: Seq<Seq<char>>,
    section: usize,
    area: Rect,
    snapshot: Snapshot,
    wanted: bool,
    front: Front,
)
    requires
        low(c),
        definition_front(c, ui, id, conn, table, section, area, snapshot, wanted, front),
    ensures
        stays_under(ui, front),
{
    assert forall|detail: TableDetail| #[trigger]
        describes_front(c, ui, id, section, area, detail, wanted, front) implies stays_under(
        ui,
        front,
    ) by {
        let held = ui.laid_definition(id, detail);
        let seen = UiView { laid: ui.laid.insert(id.0, held), ..ui };
        let laid = choose|laid: Laid| #[trigger]
            lays_out(laid, held) && front == described_front(
                c,
                seen,
                id,
                section,
                area,
                laid,
                wanted,
            );
        a_description_stays_under(c, seen, id, section, area, laid, wanted);
    }
}

proof fn a_history_stays_under(
    c: CanvasView,
    ui: UiView,
    id: TabId,
    filter: FilterView,
    area: Rect,
    snapshot: Snapshot,
    wanted: bool,
    front: Front,
)
    requires
        low(c),
        history_front(c, ui, id, filter, area, snapshot, wanted, front),
    ensures
        stays_under(ui, front),
{
    if let LoadState::Ready(entries) = snapshot.history.data {
        let body = below_the_search(area);
        let searched = search_drawn(c, area, filter, entries@.len() as usize);
        let seen = with_viewport(ui, PaneId::Grid, body_place(body));
        let rows = choose|rows: PagedResult| #[trigger]
            tell_of(rows, entries@, ui.clock, snapshot.history.edition) && front == rows_front(
                searched,
                seen,
                id,
                body,
                rows,
                wanted,
            );
        rows_stay_under(searched, seen, id, body, rows, wanted);
    }
}

proof fn the_front_stays_under(
    c: CanvasView,
    ui: UiView,
    tab: Option<TabView>,
    area: Rect,
    snapshot: Snapshot,
    wanted: bool,
    front: Front,
)
    requires
        low(c),
        fronted(c, ui, tab, area, snapshot, wanted, front),
    ensures
        stays_under(ui, front),
{
    if let Some(tab) = tab {
        match tab.content {
            ContentView::Preview(table) => {
                if let Some(preview) = first_item(
                    snapshot.previews@,
                    preview_of(tab.conn, table@),
                ) {
                    a_preview_stays_under(c, ui, tab.id, area, preview, true);
                    a_preview_stays_under(c, ui, tab.id, area, preview, false);
                }
            },
            ContentView::Sql { text, query, .. } => {
                if let Some(query) = query {
                    if let Some(run) = first_item(snapshot.queries@, query_is(query)) {
                        if let Some(rows) = arrived(run.data) {
                            rows_stay_under(c, ui, tab.id, area, rows, wanted);
                        }
                    }
                }
            },
            ContentView::Definition { table, section } => a_definition_stays_under(
                c,
                ui,
                tab.id,
                tab.conn,
                table@,
                section,
                area,
                snapshot,
                wanted,
                front,
            ),
            ContentView::History { filter } => a_history_stays_under(
                c,
                ui,
                tab.id,
                filter,
                area,
                snapshot,
                wanted,
                front,
            ),
        }
    }
}

// ── the whole of it ────────────────────────────────────────────────────────

proof fn messages_are_low(c: CanvasView, area: Rect, toasts: Seq<ToastView>, y: int, n: int)
    requires
        low(c),
    ensures
        low(stack_drawn(c, area, toasts, y, n)),
    decreases n,
{
    if n > 0 && y > area.y {
        let width = least(MODAL_WIDTH as int, area.width as int);
        let rect = Rect::cut(
            less(area.right_edge(), width) as u16,
            (y - 1) as u16,
            width,
            1,
        );
        let drawn = toast_drawn(c, rect, width, toasts[n - 1]);
        assert(low(drawn));
        messages_are_low(drawn, area, toasts, y - 1, n - 1);
    }
}

/// A frame before what lies over it goes down: the content, the bars and the
/// messages.
pub open spec fn under_drawn(
    frames: Frames,
    snapshot: Snapshot,
    front: Front,
) -> CanvasView {
    let (read, after) = closely_drawn(front.canvas, front.ui, frames.detail, front.detail);
    toasts_drawn(
        status_bar_drawn(
            read,
            frames.status_bar,
            snapshot.busy@,
            selected_in_front(after, snapshot),
            after.can_run(snapshot),
        ),
        between_the_bars(frames),
        after.toasts,
    )
}

proof fn what_is_under_is_low(
    c: CanvasView,
    ui: UiView,
    area: Rect,
    snapshot: Snapshot,
    canvas: CanvasView,
    next: UiView,
    front: Front,
)
    requires
        screen_drawn(c, ui, area, snapshot, canvas, next, front),
        low(c),
    ensures
        low(under_drawn(Frames::roomy(area, ui), snapshot, front)),
        next.modal == ui.modal,
        next.menu == ui.menu,
        next.palette == ui.palette,
{
    let frames = Frames::roomy(area, ui);
    let began = UiView { screen: area, ..ui };
    the_left_is_low(c, began, frames, snapshot);
    let (around, seen) = framed(c, began, frames, snapshot);
    assert(low(around));
    the_front_stays_under(
        around,
        seen,
        seen.current(),
        frames.grid.bordered(),
        snapshot,
        frames.detail.height > 0,
        front,
    );
    let (read, after) = closely_drawn(front.canvas, front.ui, frames.detail, front.detail);
    assert(low(read));
    let selected = selected_in_front(after, snapshot);
    let can_run = after.can_run(snapshot);
    let barred = status_bar_drawn(read, frames.status_bar, snapshot.busy@, selected, can_run);
    a_status_bar_is_low(read, frames.status_bar, snapshot.busy@, selected, can_run);
    let body = between_the_bars(frames);
    messages_are_low(barred, body, after.toasts, body.bottom_edge(), after.toasts.len() as int);
}

/// With a dialog up and no menu, whatever else a frame holds, a position on the
/// screen finds the dialog, one of its answers, or the backdrop that dismisses
/// it: no message, no cell, no row, no tab, no scrollbar and no splitter.
pub proof fn a_dialog_is_all_there_is_to_reach(
    c: CanvasView,
    ui: UiView,
    area: Rect,
    snapshot: Snapshot,
    canvas: CanvasView,
    next: UiView,
    front: Front,
    at: Position,
)
    requires
        screen_drawn(c, ui, area, snapshot, canvas, next, front),
        low(c),
        ui.modal is Some,
        ui.menu is None,
        area.covers(at),
    ensures
        target_at(canvas.hits, at) matches Some(found) && of_a_dialog()(found),
{
    what_is_under_is_low(c, ui, area, snapshot, canvas, next, front);
    let told = under_drawn(Frames::roomy(area, ui), snapshot, front);
    nothing_behind_a_dialog_is_reached(told, area, ui.modal->0, at);
}

/// With the palette up, and neither a dialog nor a menu over it, a position on
/// the screen finds the palette, one of its lines, or the backdrop that
/// dismisses it.
pub proof fn the_palette_is_all_there_is_to_reach(
    c: CanvasView,
    ui: UiView,
    area: Rect,
    snapshot: Snapshot,
    canvas: CanvasView,
    next: UiView,
    front: Front,
    at: Position,
)
    requires
        screen_drawn(c, ui, area, snapshot, canvas, next, front),
        !cramped(area),
        low(c),
        ui.palette is Some,
        ui.modal is None,
        ui.menu is None,
        area.covers(at),
    ensures
        target_at(canvas.hits, at) matches Some(found) && of_the_palette()(found),
{
    what_is_under_is_low(c, ui, area, snapshot, canvas, next, front);
    let told = under_drawn(Frames::roomy(area, ui), snapshot, front);
    nothing_behind_the_palette_is_reached(
        told,
        area,
        ui.palette->0,
        saved(snapshot),
        some_text(snapshot.templates.failed),
        at,
    );
}

/// Whether a position on a screen finds nothing but these.
pub open spec fn only_finds(canvas: CanvasView, area: Rect, sort: spec_fn(Target) -> bool) -> bool {
    forall|at: Position| #[trigger]
        area.covers(at) ==> (target_at(canvas.hits, at) matches Some(found) && sort(found))
}

/// What lies over a screen that was drawn on nothing is all there is to reach:
/// the dialog if there is one, and else the palette if there is.
pub proof fn what_lies_over_is_all_there_is_to_reach(
    c: CanvasView,
    ui: UiView,
    area: Rect,
    snapshot: Snapshot,
    canvas: CanvasView,
    next: UiView,
    front: Front,
)
    requires
        screen_drawn(c, ui, area, snapshot, canvas, next, front),
        !cramped(area),
        c.hits.len() == 0,
        ui.menu is None,
    ensures
        ui.modal is Some ==> only_finds(canvas, area, of_a_dialog()),
        ui.modal is None && ui.palette is Some ==> only_finds(canvas, area, of_the_palette()),
{
    if ui.modal is Some {
        assert forall|at: Position| #[trigger] area.covers(at) implies (target_at(
            canvas.hits,
            at,
        ) matches Some(found) && of_a_dialog()(found)) by {
            a_dialog_is_all_there_is_to_reach(c, ui, area, snapshot, canvas, next, front, at);
        }
    } else if ui.palette is Some {
        assert forall|at: Position| #[trigger] area.covers(at) implies (target_at(
            canvas.hits,
            at,
        ) matches Some(found) && of_the_palette()(found)) by {
            the_palette_is_all_there_is_to_reach(c, ui, area, snapshot, canvas, next, front, at);
        }
    }
}

} // verus!
