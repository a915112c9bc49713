//! A frame, from one end of the screen to the other.

use crate::chrome::{
    below, caption, captioned, cramped, layout, pane, pane_drawn, render_too_small, splitter,
    splitter_drawn, status_bar, status_bar_drawn, tab_bar, tab_bar_drawn, too_small,
    too_small_words, Frames,
};
use crate::datagrid::{
    body_area, body_place, message, message_drawn, preview_drawn, preview_laid, render_rows,
    result_drawn,
};
use crate::definition::{
    beside_the_list, lays_out, sections, sections_drawn, summary, summed_up, Laid,
};
use crate::detail::{detail_drawn, DetailView, RenderedDetail};
use crate::geometry::{least, less, min_usize, Rect};
use crate::history::{below_the_search, search_box, search_drawn};
use crate::hit::{PaneId, Target, Z_BASE};
use crate::ids::{ConnId, QueryId, TabId};
use crate::model::{
    conn_is, definition_of, preview_of, query_is, LoadState, PagedResult, PreviewView, Snapshot,
    TableDetail, TableRef, Template,
};
use crate::layers::{only_finds, what_lies_over_is_all_there_is_to_reach};
use crate::overlay::{modal_drawn, of_a_dialog, toasts, toasts_drawn};
use crate::paint::{Canvas, CanvasView, Color, Style};
use crate::palette::{of_the_palette, palette_drawn};
use crate::search::first_item;
use crate::sql::{line_count, statement_drawn};
use crate::state::{arrived, tell_of, ContentView, GridView, TabView, UiView};
use crate::text::{copy_of, lines_of, some_text, texts};
use crate::tree::{explorer_drawn, row_place, rows_area};
use crate::ui::{Filter, FilterView, OpenTab, TabContent, UiState};
use std::sync::Arc;
use vstd::prelude::*;

verus! {

/// A screen with a pane's place recorded.
pub open spec fn with_viewport(ui: UiView, pane: PaneId, rect: Rect) -> UiView {
    UiView { viewports: ui.viewports.with(pane, rect), ..ui }
}

/// What drawing the tab in front leaves: the frame, the screen, and the cell
/// that is to be read closely.
pub struct Front {
    pub canvas: CanvasView,
    pub ui: UiView,
    pub detail: Option<DetailView>,
}

// ── the tab in front ───────────────────────────────────────────────────────

/// A tab's grid drawn, and its selected cell read closely if it is wanted.
pub open spec fn read_front(canvas: CanvasView, ui: UiView, id: TabId, wanted: bool) -> Front {
    if wanted {
        let grid = ui.grid_or_fresh(id);
        Front {
            canvas,
            ui: ui.with_grid(id, grid),
            detail: grid.read_closely(),
        }
    } else {
        Front { canvas, ui, detail: None }
    }
}

/// Rows that cannot be put in another order.
pub open spec fn rows_front(
    c: CanvasView,
    ui: UiView,
    id: TabId,
    area: Rect,
    rows: PagedResult,
    wanted: bool,
) -> Front {
    let grid = ui.grid_or_fresh(id);
    read_front(
        result_drawn(c, area, rows, grid, false, None),
        ui.with_grid(
            id,
            if area.empty() {
                grid
            } else {
                grid.showing(rows)
            },
        ),
        id,
        wanted,
    )
}

fn draw_rows(
    canvas: &mut Canvas,
    ui: &mut UiState,
    id: TabId,
    area: Rect,
    rows: &Arc<PagedResult>,
    wanted: bool,
) -> (r: Option<Arc<RenderedDetail>>)
    requires
        area.fits(),
    ensures
        (Front { canvas: final(canvas)@, ui: final(ui)@, detail: some_read(r) }) == rows_front(
            old(canvas)@,
            old(ui)@,
            id,
            area,
            **rows,
            wanted,
        ),
{
    // Sorting a result is not paging a relation: there is no column to fetch
    // again under a different order, so the header is not a control here and
    // says so by not being one.
    render_rows(canvas, area, rows, ui.grid_mut(id), false, None);
    read_cell(ui, id, wanted)
}

/// The document a tab is to be read from, as what it says.
pub open spec fn some_read(detail: Option<Arc<RenderedDetail>>) -> Option<DetailView> {
    match detail {
        Some(detail) => Some(detail@),
        None => None,
    }
}

/// The selected cell, if it is to be read closely.
///
/// Built from the value rather than from the cell the grid drew: the grid
/// clamps a cell and writes a count for a document, which is what somebody
/// opening the pane is trying to see past.
fn read_cell(ui: &mut UiState, id: TabId, wanted: bool) -> (r: Option<Arc<RenderedDetail>>)
    ensures
        forall|canvas: CanvasView|
            (Front { canvas, ui: final(ui)@, detail: some_read(r) }) == #[trigger] read_front(
                canvas,
                old(ui)@,
                id,
                wanted,
            ),
{
    if wanted {
        ui.grid_mut(id).detail()
    } else {
        None
    }
}

/// A preview.
pub open spec fn preview_front(
    c: CanvasView,
    ui: UiView,
    id: TabId,
    conn: ConnId,
    table: Seq<Seq<char>>,
    area: Rect,
    snapshot: Snapshot,
    wanted: bool,
) -> Front {
    match first_item(snapshot.previews@, preview_of(conn, table)) {
        Some(preview) => {
            let grid = ui.grid_or_fresh(id);
            let sortable = first_item(snapshot.connections@, conn_is(conn)) matches Some(view)
                && view.sorts();
            read_front(
                preview_drawn(c, area, preview, grid, sortable),
                ui.with_grid(id, preview_laid(area, preview, grid)),
                id,
                wanted,
            )
        },
        None => Front { canvas: c, ui, detail: None },
    }
}

fn draw_preview(
    canvas: &mut Canvas,
    ui: &mut UiState,
    id: TabId,
    conn: ConnId,
    table: &TableRef,
    area: Rect,
    snapshot: &Snapshot,
    wanted: bool,
) -> (r: Option<Arc<RenderedDetail>>)
    requires
        area.fits(),
    ensures
        (Front { canvas: final(canvas)@, ui: final(ui)@, detail: some_read(r) }) == preview_front(
            old(canvas)@,
            old(ui)@,
            id,
            conn,
            table@,
            area,
            *snapshot,
            wanted,
        ),
{
    let preview: &PreviewView = match snapshot.preview(conn, table) {
        Some(preview) => preview,
        None => return None,
    };
    // A driver that cannot order a preview makes the header not a control, and
    // that is this screen's rendering of a capability rather than a branch on
    // which driver it is.
    let sortable: bool = match snapshot.connection(conn) {
        Some(view) => view.can_sort_preview(),
        None => false,
    };
    crate::datagrid::render(canvas, area, preview, ui.grid_mut(id), sortable);
    read_cell(ui, id, wanted)
}

/// A screen that has counted the lines of the text in front.
pub open spec fn counted(ui: UiView, lines: int) -> UiView {
    UiView { sql_lines: lines as usize, ..ui }.regrid(
        GridView {
            row_offset: least(ui.own_grid().row_offset as int, less(lines, 1)) as usize,
            ..ui.own_grid()
        },
    )
}

/// A text in the whole of a pane: there is no header row and no scrollbar
/// column to leave out, because there is no grid.
pub open spec fn text_front(
    c: CanvasView,
    ui: UiView,
    area: Rect,
    text: Seq<char>,
    at: Option<usize>,
) -> Front {
    let seen = counted(
        with_viewport(ui, PaneId::Grid, area),
        lines_of(text).len() as int,
    );
    Front {
        canvas: statement_drawn(c, area, text, seen.offset(PaneId::Grid) as usize, at),
        ui: seen,
        detail: None,
    }
}

fn draw_text(canvas: &mut Canvas, ui: &mut UiState, area: Rect, text: &str, at: Option<usize>)
    ensures
        (Front { canvas: final(canvas)@, ui: final(ui)@, detail: None }) == text_front(
            old(canvas)@,
            old(ui)@,
            area,
            text@,
            at,
        ),
{
    ui.set_viewport(PaneId::Grid, area);
    ui.set_sql_lines(line_count(text));
    crate::sql::render(canvas, area, text, ui.sql_offset(), at);
}

/// A SQL tab: its rows once it has some, and its buffer until then.
///
/// Not both: the buffer is one key press away in `$EDITOR`, and splitting the
/// pane costs the grid rows it needs more.
pub open spec fn sql_front(
    c: CanvasView,
    ui: UiView,
    id: TabId,
    text: Seq<char>,
    query: Option<QueryId>,
    area: Rect,
    snapshot: Snapshot,
    wanted: bool,
) -> Front {
    let run = match query {
        Some(query) => first_item(snapshot.queries@, query_is(query)),
        None => None,
    };
    match run {
        Some(run) => match arrived(run.data) {
            Some(rows) => rows_front(c, ui, id, area, rows, wanted),
            None => text_front(c, ui, area, text, run.failed_at),
        },
        None => text_front(c, ui, area, text, None),
    }
}

fn draw_sql(
    canvas: &mut Canvas,
    ui: &mut UiState,
    id: TabId,
    text: &str,
    query: Option<QueryId>,
    area: Rect,
    snapshot: &Snapshot,
    wanted: bool,
) -> (r: Option<Arc<RenderedDetail>>)
    requires
        area.fits(),
    ensures
        (Front { canvas: final(canvas)@, ui: final(ui)@, detail: some_read(r) }) == sql_front(
            old(canvas)@,
            old(ui)@,
            id,
            text@,
            query,
            area,
            *snapshot,
            wanted,
        ),
{
    // Where the *server* said, which is why nothing here works it out: the
    // driver converted its own dialect's answer, and this crate names no
    // driver.
    let mut at: Option<usize> = None;
    if let Some(query) = query {
        if let Some(run) = snapshot.query(query) {
            if let Some(rows) = run.data.ready() {
                return draw_rows(canvas, ui, id, area, rows, wanted);
            }
            at = run.failed_at;
        }
    }
    draw_text(canvas, ui, area, text, at);
    None
}

/// The section of a layout that is drawn: the one asked for, or the last. A
/// refresh can come back with fewer sections than the tab was on, and an index
/// past the end draws an empty pane with nothing in it saying why.
pub open spec fn section_shown(section: usize, laid: Laid) -> int {
    least(section as int, laid.title_list().len() - 1)
}

/// A definition that has arrived, as a layout of it draws.
pub open spec fn described_front(
    c: CanvasView,
    ui: UiView,
    id: TabId,
    section: usize,
    area: Rect,
    laid: Laid,
    wanted: bool,
) -> Front {
    let at = section_shown(section, laid);
    let beside = beside_the_list(area);
    let body = below(beside);
    let headed = captioned(
        sections_drawn(c, area, laid.title_list(), at as usize),
        beside,
        summed_up(laid),
    );
    let seen = with_viewport(ui, PaneId::Grid, body_place(body));
    match laid.rows_at(at) {
        Some(rows) => rows_front(headed, seen, id, body, rows, wanted),
        None => match laid.ddl {
            Some(ddl) => text_front(headed, seen, body, ddl@, None),
            None => Front { canvas: headed, ui: seen, detail: None },
        },
    }
}

/// Whether this is a definition that has arrived, drawn.
pub open spec fn describes_front(
    c: CanvasView,
    ui: UiView,
    id: TabId,
    section: usize,
    area: Rect,
    detail: TableDetail,
    wanted: bool,
    front: Front,
) -> bool {
    let held = ui.laid_definition(id, detail);
    exists|laid: Laid| #[trigger]
        lays_out(laid, held) && front == described_front(
            c,
            (UiView { laid: ui.laid.insert(id.0, held), ..ui }),
            id,
            section,
            area,
            laid,
            wanted,
        )
}

fn draw_described(
    canvas: &mut Canvas,
    ui: &mut UiState,
    id: TabId,
    section: usize,
    area: Rect,
    detail: &Arc<TableDetail>,
    wanted: bool,
) -> (r: Option<Arc<RenderedDetail>>)
    requires
        area.fits(),
    ensures
        describes_front(
            old(canvas)@,
            old(ui)@,
            id,
            section,
            area,
            **detail,
            wanted,
            (Front { canvas: final(canvas)@, ui: final(ui)@, detail: some_read(r) }),
        ),
{
    let ghost before = ui@;
    let ghost began = canvas@;
    ui.lay_out(id, detail);
    let ghost held = ui@;
    let laid: &Laid = match ui.laid(id) {
        Some(laid) => laid,
        None => return None,
    };
    let ghost layout = *laid;
    // The list first, because what is left of the pane is what the grid gets —
    // and working that out twice is how the two come to disagree.
    let titles: Vec<String> = laid.titles();
    proof {
        assert(texts(titles@).len() == titles@.len());
        assert(layout.title_list().len() > 0);
    }
    let at: usize = min_usize(section, titles.len() - 1);
    let beside: Rect = sections(canvas, area, laid, at);
    let words: String = summary(laid);
    let rows: Option<Arc<PagedResult>> = match laid.rows(at) {
        Some(rows) => Some(Arc::clone(rows)),
        None => None,
    };
    let statement: Option<String> = match laid.statement(at) {
        Some(text) => Some(text.clone()),
        None => None,
    };
    let body: Rect = caption(canvas, beside, words.as_str());
    ui.set_viewport(PaneId::Grid, body_area(body));
    let r: Option<Arc<RenderedDetail>> = match rows {
        Some(rows) => draw_rows(canvas, ui, id, body, &rows, wanted),
        None => match statement {
            Some(text) => {
                draw_text(canvas, ui, body, text.as_str(), None);
                None
            },
            None => None,
        },
    };
    proof {
        assert(lays_out(layout, before.laid_definition(id, **detail)));
    }
    r
}

/// Words in place of a grid.
pub open spec fn words_front(
    c: CanvasView,
    ui: UiView,
    area: Rect,
    text: Seq<char>,
    color: Color,
) -> Front {
    Front {
        canvas: message_drawn(c, area, text, color),
        ui: with_viewport(ui, PaneId::Grid, area),
        detail: None,
    }
}

fn draw_words(canvas: &mut Canvas, ui: &mut UiState, area: Rect, text: &str, color: Color)
    ensures
        (Front { canvas: final(canvas)@, ui: final(ui)@, detail: None }) == words_front(
            old(canvas)@,
            old(ui)@,
            area,
            text@,
            color,
        ),
{
    ui.set_viewport(PaneId::Grid, area);
    message(canvas, area, text, color);
}

/// Whether this is a definition, drawn.
///
/// Nothing held for it can mean two things, and only one of them is worth
/// waiting for: the store has not seen the fetch yet, or the connection closed
/// and took the definition with it. Saying "describing…" for the second is a
/// wait that never ends, because nothing is going to answer.
pub open spec fn definition_front(
    c: CanvasView,
    ui: UiView,
    id: TabId,
    conn: ConnId,
    table: Seq<Seq<char>>,
    section: usize,
    area: Rect,
    snapshot: Snapshot,
    wanted: bool,
    front: Front,
) -> bool {
    match first_item(snapshot.definitions@, definition_of(conn, table)) {
        Some(view) => match view.data {
            LoadState::Ready(detail) => describes_front(
                c,
                ui,
                id,
                section,
                area,
                *detail,
                wanted,
                front,
            ),
            LoadState::Failed(why) => front == words_front(c, ui, area, why@, Color::Red),
            _ => front == words_front(c, ui, area, "describing…"@, Color::Yellow),
        },
        None => front == if snapshot.has_live(conn) {
            words_front(c, ui, area, "describing…"@, Color::Yellow)
        } else {
            words_front(c, ui, area, "the connection is closed"@, Color::DarkGray)
        },
    }
}

fn draw_definition(
    canvas: &mut Canvas,
    ui: &mut UiState,
    id: TabId,
    conn: ConnId,
    table: &TableRef,
    section: usize,
    area: Rect,
    snapshot: &Snapshot,
    wanted: bool,
) -> (r: Option<Arc<RenderedDetail>>)
    requires
        area.fits(),
    ensures
        definition_front(
            old(canvas)@,
            old(ui)@,
            id,
            conn,
            table@,
            section,
            area,
            *snapshot,
            wanted,
            (Front { canvas: final(canvas)@, ui: final(ui)@, detail: some_read(r) }),
        ),
{
    match snapshot.definition(conn, table) {
        Some(view) => match &view.data {
            LoadState::Ready(detail) => {
                return draw_described(canvas, ui, id, section, area, detail, wanted);
            },
            LoadState::Failed(why) => draw_words(canvas, ui, area, why.as_str(), Color::Red),
            _ => draw_words(canvas, ui, area, "describing…", Color::Yellow),
        },
        None => {
            if snapshot.is_live(conn) {
                draw_words(canvas, ui, area, "describing…", Color::Yellow);
            } else {
                draw_words(canvas, ui, area, "the connection is closed", Color::DarkGray);
            }
        },
    }
    None
}

/// Whether this is the history, drawn: its search box, and under it the runs.
pub open spec fn history_front(
    c: CanvasView,
    ui: UiView,
    id: TabId,
    filter: FilterView,
    area: Rect,
    snapshot: Snapshot,
    wanted: bool,
    front: Front,
) -> bool {
    let body = below_the_search(area);
    match snapshot.history.data {
        LoadState::Ready(entries) => exists|rows: PagedResult| #[trigger]
            tell_of(rows, entries@, ui.clock, snapshot.history.edition) && front == rows_front(
                search_drawn(c, area, filter, entries@.len() as usize),
                with_viewport(ui, PaneId::Grid, body_place(body)),
                id,
                body,
                rows,
                wanted,
            ),
        LoadState::Failed(why) => front == words_front(
            search_drawn(c, area, filter, 0),
            ui,
            body,
            why@,
            Color::Red,
        ),
        _ => front == words_front(
            search_drawn(c, area, filter, 0),
            ui,
            body,
            "loading…"@,
            Color::Yellow,
        ),
    }
}

fn draw_history(
    canvas: &mut Canvas,
    ui: &mut UiState,
    id: TabId,
    filter: &Filter,
    area: Rect,
    snapshot: &Snapshot,
    wanted: bool,
) -> (r: Option<Arc<RenderedDetail>>)
    requires
        area.fits(),
    ensures
        history_front(
            old(canvas)@,
            old(ui)@,
            id,
            filter@,
            area,
            *snapshot,
            wanted,
            (Front { canvas: final(canvas)@, ui: final(ui)@, detail: some_read(r) }),
        ),
{
    match &snapshot.history.data {
        LoadState::Ready(entries) => {
            let body: Rect = search_box(canvas, area, filter, entries.len());
            let rows: Arc<PagedResult> = Arc::new(
                crate::history::rows(entries, ui.clock, snapshot.history.edition),
            );
            proof {
                assert(tell_of(*rows, entries@, ui@.clock, snapshot.history.edition));
            }
            ui.set_viewport(PaneId::Grid, body_area(body));
            draw_rows(canvas, ui, id, body, &rows, wanted)
        },
        LoadState::Failed(why) => {
            let body: Rect = search_box(canvas, area, filter, 0);
            draw_words(canvas, ui, body, why.as_str(), Color::Red);
            None
        },
        _ => {
            let body: Rect = search_box(canvas, area, filter, 0);
            draw_words(canvas, ui, body, "loading…", Color::Yellow);
            None
        },
    }
}

/// Whether this is the tab in front, drawn.
pub open spec fn fronted(
    c: CanvasView,
    ui: UiView,
    tab: Option<TabView>,
    area: Rect,
    snapshot: Snapshot,
    wanted: bool,
    front: Front,
) -> bool {
    match tab {
        None => front == (Front { canvas: c, ui, detail: None }),
        Some(tab) => match tab.content {
            ContentView::Preview(table) => front == preview_front(
                c,
                ui,
                tab.id,
                tab.conn,
                table@,
                area,
                snapshot,
                wanted,
            ),
            ContentView::Sql { text, query, .. } => front == sql_front(
                c,
                ui,
                tab.id,
                text,
                query,
                area,
                snapshot,
                wanted,
            ),
            ContentView::Definition { table, section } => definition_front(
                c,
                ui,
                tab.id,
                tab.conn,
                table@,
                section,
                area,
                snapshot,
                wanted,
                front,
            ),
            ContentView::History { filter } => history_front(
                c,
                ui,
                tab.id,
                filter,
                area,
                snapshot,
                wanted,
                front,
            ),
        },
    }
}

/// A tab, apart from the screen it is on.
fn tab_in_front(ui: &UiState) -> (r: Option<OpenTab>)
    ensures
        match r {
            Some(tab) => ui@.current() == Some(tab@),
            None => ui@.current() is None,
        },
{
    match ui.current() {
        Some(tab) => Some(
            OpenTab { id: tab.id, conn: tab.conn, content: tab.content.clone() },
        ),
        None => None,
    }
}

fn draw_front(
    canvas: &mut Canvas,
    ui: &mut UiState,
    tab: &Option<OpenTab>,
    area: Rect,
    snapshot: &Snapshot,
    wanted: bool,
) -> (r: Option<Arc<RenderedDetail>>)
    requires
        area.fits(),
    ensures
        fronted(
            old(canvas)@,
            old(ui)@,
            match *tab {
                Some(tab) => Some(tab@),
                None => None,
            },
            area,
            *snapshot,
            wanted,
            (Front { canvas: final(canvas)@, ui: final(ui)@, detail: some_read(r) }),
        ),
{
    match tab {
        None => None,
        Some(tab) => match &tab.content {
            TabContent::Preview(table) => draw_preview(
                canvas,
                ui,
                tab.id,
                tab.conn,
                table,
                area,
                snapshot,
                wanted,
            ),
            TabContent::Sql { text, query, .. } => draw_sql(
                canvas,
                ui,
                tab.id,
                text.as_str(),
                *query,
                area,
                snapshot,
                wanted,
            ),
            TabContent::Definition { table, section } => draw_definition(
                canvas,
                ui,
                tab.id,
                tab.conn,
                table,
                *section,
                area,
                snapshot,
                wanted,
            ),
            TabContent::History { filter } => draw_history(
                canvas,
                ui,
                tab.id,
                filter,
                area,
                snapshot,
                wanted,
            ),
        },
    }
}

// ── around it ──────────────────────────────────────────────────────────────

/// Whether there is a connection to open a tab on.
pub open spec fn any_live(snapshot: Snapshot) -> bool {
    snapshot.first_live() is Some
}

/// A frame with the tab bar, the explorer and the splitter on it.
pub open spec fn left_drawn(
    c: CanvasView,
    ui: UiView,
    frames: Frames,
    snapshot: Snapshot,
) -> CanvasView {
    splitter_drawn(
        explorer_drawn(
            pane_drawn(
                tab_bar_drawn(c, frames.tab_bar, ui.tabs, ui.active_tab, any_live(snapshot)),
                frames.explorer,
                PaneId::Explorer,
                "Explorer"@,
                ui.focus == PaneId::Explorer,
            ),
            frames.explorer.bordered(),
            snapshot,
            ui.tree,
            ui.filter_text(),
        ),
        frames.splitter,
        ui.hover matches Some(target) && target is Splitter,
    )
}

fn draw_left(canvas: &mut Canvas, ui: &mut UiState, frames: Frames, snapshot: &Snapshot)
    requires
        frames.fit(),
    ensures
        final(canvas)@ == left_drawn(old(canvas)@, old(ui)@, frames, *snapshot),
        final(ui)@ == with_viewport(
            old(ui)@,
            PaneId::Explorer,
            row_place(frames.explorer.bordered(), old(ui)@.filter is Some),
        ),
{
    tab_bar(canvas, frames.tab_bar, ui, snapshot.live_connection().is_some());
    let explorer: Rect = pane(
        canvas,
        frames.explorer,
        PaneId::Explorer,
        "Explorer",
        ui.focus == PaneId::Explorer,
    );
    let filter: Option<&str> = match &ui.filter {
        Some(filter) => Some(filter.text.as_str()),
        None => None,
    };
    // The rows, not the pane: the search box takes the top line, and a
    // viewport measured with it in leaves the last row unscrollable-to.
    let rows: Rect = rows_area(explorer, filter);
    crate::tree::render(canvas, explorer, snapshot, &ui.tree, filter);
    ui.set_viewport(PaneId::Explorer, rows);
    let hovered: bool = match ui.hover {
        Some(Target::Splitter(_)) => true,
        _ => false,
    };
    splitter(canvas, frames.splitter, hovered);
}

/// What the pane in front is called.
pub open spec fn front_title(ui: UiView) -> Seq<char> {
    match ui.current() {
        Some(tab) => tab.content.title(),
        None => "Preview"@,
    }
}

/// The area between the bars, which is where a toast belongs: over the content
/// rather than over the status bar it would hide.
pub open spec fn between_the_bars(frames: Frames) -> Rect {
    Rect::cut(
        frames.explorer.x,
        frames.explorer.y,
        frames.explorer.width + frames.splitter.width + frames.grid.width,
        frames.explorer.height as int,
    )
}

pub fn body_of(frames: Frames) -> (r: Rect)
    ensures
        r == between_the_bars(frames),
        r.fits(),
{
    Rect::new(
        frames.explorer.x,
        frames.explorer.y,
        frames.explorer.width.saturating_add(frames.splitter.width).saturating_add(
            frames.grid.width,
        ),
        frames.explorer.height,
    )
}

/// The pane under the grid, drawn: the frame, and the screen.
pub open spec fn closely_drawn(
    c: CanvasView,
    ui: UiView,
    area: Rect,
    detail: Option<DetailView>,
) -> (CanvasView, UiView) {
    if area.height > 0 {
        let lines = match detail {
            Some(detail) => detail.lines.len() as int,
            None => 0,
        };
        let seen = with_viewport(ui, PaneId::Detail, area);
        let offset = least(seen.detail_offset as int, less(lines, 1)) as usize;
        (
            detail_drawn(
                c.hit(area, Z_BASE, Target::Pane(PaneId::Detail)),
                area,
                detail,
                offset,
            ),
            UiView { detail_rows: lines as usize, detail_offset: offset, ..seen },
        )
    } else {
        (c, ui)
    }
}

fn draw_closely(
    canvas: &mut Canvas,
    ui: &mut UiState,
    area: Rect,
    detail: &Option<Arc<RenderedDetail>>,
)
    ensures
        (final(canvas)@, final(ui)@) == closely_drawn(
            old(canvas)@,
            old(ui)@,
            area,
            some_read(*detail),
        ),
{
    // Outside the preview: the pane has already taken its rows from the grid,
    // and drawing nothing into them when the tab it was opened over has gone
    // leaves a band of screen that belongs to no pane at all.
    if area.height > 0 {
        // The pane is a hit target and a scroll position of its own: the
        // values it exists for are longer than any pane, so showing the first
        // few rows of one and no way to reach the rest would be worse than not
        // opening it.
        canvas.hit(area, Z_BASE, Target::Pane(PaneId::Detail));
        ui.set_viewport(PaneId::Detail, area);
        let (lines, read): (usize, Option<&RenderedDetail>) = match detail {
            Some(detail) => (detail.lines.len(), Some(&**detail)),
            None => (0, None),
        };
        ui.set_detail_rows(lines);
        crate::detail::render(canvas, area, read, ui.detail_offset());
    }
}

/// What is held of the saved statements.
pub open spec fn saved(snapshot: Snapshot) -> Seq<Template> {
    match snapshot.held() {
        Some(held) => held,
        None => Seq::empty(),
    }
}

/// A frame with everything on it that lies over the rest: messages under the
/// palette or a dialog, and the menu over all of them.
///
/// A message drawn over the thing waiting for an answer hides the answer, and a
/// click on a menu must not fall through to the cell underneath. The palette
/// waits while a dialog is up: its lines lie as high as the dialog's answers, so
/// one that was still there could be chosen past the question.
pub open spec fn over_drawn(
    c: CanvasView,
    ui: UiView,
    area: Rect,
    frames: Frames,
    snapshot: Snapshot,
) -> CanvasView {
    let told = toasts_drawn(c, between_the_bars(frames), ui.toasts);
    let asking = match ui.modal {
        Some(dialog) => modal_drawn(told, area, dialog),
        None => match ui.palette {
            Some(palette) => palette_drawn(
                told,
                area,
                palette,
                saved(snapshot),
                some_text(snapshot.templates.failed),
            ),
            None => told,
        },
    };
    match ui.menu {
        Some(menu) => crate::menu::menu_drawn(asking, area, menu),
        None => asking,
    }
}

fn draw_over(canvas: &mut Canvas, ui: &UiState, area: Rect, frames: Frames, snapshot: &Snapshot)
    requires
        area.fits(),
    ensures
        final(canvas)@ == over_drawn(old(canvas)@, ui@, area, frames, *snapshot),
{
    toasts(canvas, body_of(frames), &ui.toasts);
    if let Some(dialog) = &ui.modal {
        crate::overlay::modal(canvas, area, dialog);
    } else if let Some(palette) = &ui.palette {
        let unavailable: Option<&str> = match &snapshot.templates.failed {
            Some(why) => Some(why.as_str()),
            None => None,
        };
        match &snapshot.templates.data {
            LoadState::Ready(held) => crate::palette::render(
                canvas,
                area,
                palette,
                held,
                unavailable,
            ),
            _ => {
                let none: Vec<Template> = Vec::new();
                crate::palette::render(canvas, area, palette, &none, unavailable);
            },
        }
    }
    if let Some(menu) = &ui.menu {
        crate::menu::render(canvas, area, menu);
    }
}

// ── a frame ────────────────────────────────────────────────────────────────

/// How many cells are selected in the tab in front.
pub open spec fn selected_in_front(ui: UiView, snapshot: Snapshot) -> Option<(usize, usize)> {
    match ui.active_grid() {
        Some(grid) => grid.selected_cells(ui.active_sort(snapshot)),
        None => None,
    }
}

/// A frame with the grid's pane on it, and the screen that has recorded its
/// place.
pub open spec fn framed(
    c: CanvasView,
    ui: UiView,
    frames: Frames,
    snapshot: Snapshot,
) -> (CanvasView, UiView) {
    let seen = with_viewport(
        ui,
        PaneId::Explorer,
        row_place(frames.explorer.bordered(), ui.filter is Some),
    );
    (
        pane_drawn(
            left_drawn(c, ui, frames, snapshot),
            frames.grid,
            PaneId::Grid,
            front_title(seen),
            seen.focus == PaneId::Grid,
        ),
        with_viewport(seen, PaneId::Grid, body_place(frames.grid.bordered())),
    )
}

/// Whether this is a screen, drawn from one end to the other.
pub open spec fn screen_drawn(
    c: CanvasView,
    ui: UiView,
    area: Rect,
    snapshot: Snapshot,
    canvas: CanvasView,
    next: UiView,
    front: Front,
) -> bool {
    let frames = Frames::roomy(area, ui);
    let (around, seen) = framed(c, (UiView { screen: area, ..ui }), frames, snapshot);
    let (read, after) = closely_drawn(front.canvas, front.ui, frames.detail, front.detail);
    &&& fronted(
        around,
        seen,
        seen.current(),
        frames.grid.bordered(),
        snapshot,
        frames.detail.height > 0,
        front,
    )
    &&& next == after
    &&& canvas == over_drawn(
        status_bar_drawn(
            read,
            frames.status_bar,
            snapshot.busy@,
            selected_in_front(after, snapshot),
            after.can_run(snapshot),
        ),
        after,
        area,
        frames,
        snapshot,
    )
}

/// Draw a frame on a screen that has room for one.
#[verifier::spinoff_prover]
fn draw_screen(canvas: &mut Canvas, ui: &mut UiState, snapshot: &Snapshot, area: Rect)
    requires
        area.fits(),
        !cramped(area),
    ensures
        exists|front: Front| #[trigger]
            screen_drawn(
                old(canvas)@,
                old(ui)@,
                area,
                *snapshot,
                final(canvas)@,
                final(ui)@,
                front,
            ),
{
    let ghost began = canvas@;
    let ghost before = ui@;
    let frames: Frames = layout(area, ui);
    draw_left(canvas, ui, frames, snapshot);

    let tab: Option<OpenTab> = tab_in_front(ui);
    let title: String = match &tab {
        Some(tab) => tab.title(),
        None => copy_of("Preview"),
    };
    let grid: Rect = pane(
        canvas,
        frames.grid,
        PaneId::Grid,
        title.as_str(),
        ui.focus == PaneId::Grid,
    );
    // The *rows*, not the pane: the header takes a row and the scrollbar a
    // column, and a viewport measured without them makes `ScrollToEnd` stop a
    // row short of the end.
    ui.set_viewport(PaneId::Grid, body_area(grid));
    let detail: Option<Arc<RenderedDetail>> = draw_front(
        canvas,
        ui,
        &tab,
        grid,
        snapshot,
        frames.detail.height > 0,
    );
    let ghost front = Front { canvas: canvas@, ui: ui@, detail: some_read(detail) };
    draw_closely(canvas, ui, frames.detail, &detail);

    let selected: Option<(usize, usize)> = match ui.active_tab {
        Some(id) => match ui.grid(id) {
            Some(grid) => grid.selected_cells(ui.active_sort(snapshot)),
            None => None,
        },
        None => None,
    };
    status_bar(canvas, frames.status_bar, snapshot, selected, ui.can_run(snapshot));
    draw_over(canvas, ui, area, frames, snapshot);
    proof {
        assert(screen_drawn(began, before, area, *snapshot, canvas@, ui@, front));
    }
}

/// Draw a frame.
pub fn draw(canvas: &mut Canvas, ui: &mut UiState, snapshot: &Snapshot, area: Rect)
    requires
        area.fits(),
    ensures
        cramped(area) ==> final(ui)@ == old(ui)@ && final(canvas)@ == old(canvas)@.said(
            area,
            too_small_words(area),
            Style::colored(Color::Yellow),
        ),
        !cramped(area) ==> exists|front: Front| #[trigger]
            screen_drawn(
                old(canvas)@,
                old(ui)@,
                area,
                *snapshot,
                final(canvas)@,
                final(ui)@,
                front,
            ),
        // What lies over everything else is all there is to reach.
        !cramped(area) && old(canvas)@.hits.len() == 0 && old(ui)@.menu is None ==> {
            &&& old(ui)@.modal is Some ==> only_finds(final(canvas)@, area, of_a_dialog())
            &&& old(ui)@.modal is None && old(ui)@.palette is Some ==> only_finds(
                final(canvas)@,
                area,
                of_the_palette(),
            )
        },
{
    if too_small(area) {
        render_too_small(canvas, area);
        return ;
    }
    let ghost began = canvas@;
    let ghost before = ui@;
    draw_screen(canvas, ui, snapshot, area);
    proof {
        if began.hits.len() == 0 && before.menu is None {
            let front = choose|front: Front| #[trigger]
                screen_drawn(began, before, area, *snapshot, canvas@, ui@, front);
            what_lies_over_is_all_there_is_to_reach(
                began,
                before,
                area,
                *snapshot,
                canvas@,
                ui@,
                front,
            );
        }
    }
}

} // verus!
