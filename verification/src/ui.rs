//! Everything about appearance, which the store must not own.
//!
//! Scroll offsets, the selected row and cell, column widths and the split
//! position live here and are changed synchronously by [`UiState::apply`].
//! Routing a wheel tick through an async task would put a round trip in front
//! of every notch, and mixing appearance into the snapshot makes the scroll
//! position jump whenever an unrelated update arrives.
//!
//! Clamping needs to know how tall a pane is, which is a fact about the frame
//! the user is looking at. That frame's rectangles are recorded during drawing,
//! the same as [`crate::hit::HitMap`] — an event is always answered against the
//! layout that produced the pixels it was aimed at.
//!
//! [`OpenTab`] and [`Toast`] are here for the same reason: the store holds the
//! data a preview is, and this screen decides what to call a tab of it and
//! which failures are worth a passing note.
//!
//! What each command does to the screen is said in `state`.

use crate::clock::Moment;
use crate::copy::{clamped, render, sequence, Area, Format, Refused};
use crate::definition::{is_statement, lays_out, section_count, Laid};
use crate::detail::RenderedDetail;
use crate::geometry::{least, less, max_usize, min_u16, min_usize, most, step, stepped, Rect};
use crate::grid::{looks, RenderedColumn, RenderedGrid};
use crate::chrome::MIN_GRID_HEIGHT;
use crate::history;
use crate::hit::{PaneId, SplitId, Target, ToastId};
use crate::ids::{ConnId, QueryId, RunId, TabId, TemplateId};
use crate::intent::{
    some_action, Action, ActionView, Dialect, Intent, IntentView, NewTemplate, SectionPick, ViewCmd,
};
use crate::menu::{grid_menu, some_menu, Menu};
use crate::model::{
    ConnStatus, HistoryEntry, LoadState, OverBudget, PagedResult, PreviewView, QueryView, Snapshot,
    Sort, TableDetail, TableRef, Template, VisibleNode,
};
use crate::overlay::{some_modal, Modal, ModalView};
use crate::palette::{field_views, some_palette, Form, Kind, Palette, Placeholder};
use crate::search::{find, first, first_from, position_by_view, retain, views};
use crate::state::{
    byte_words, column_total, form_fields, guess, in_units, into_view, leftmost, natural_width, report_not_of,
    report_of, run_is, tab_defines, tab_is, tab_is_not, tab_previews, tab_searches, toast_is_not,
    ContentView, GridView, ReportView, TabView, ToastView, UiView, Viewports,
};
use crate::text::{copy_of, is_blank, push_all, push_decimal, same_text, some_text, texts, trim};
use crate::tree::{a_shown_row_is_there, shown, visible};
use std::collections::{HashMap, HashSet};
use std::sync::Arc;
use vstd::prelude::*;

verus! {

broadcast use vstd::std_specs::hash::group_hash_axioms;

// ── the parts of a screen ──────────────────────────────────────────────────

/// A search over the explorer.
///
/// `editing` is separate from the text because the two ends of a search are
/// different things: while it is being typed the box holds the keyboard, and
/// once it is not, the *filtered tree* does — which is the only way a
/// keyboard can reach what was searched for: nothing is reachable by mouse
/// only.
#[derive(Debug, PartialEq, Eq)]
pub struct Filter {
    pub text: String,
    pub editing: bool,
}

/// What is in a search box.
pub struct FilterView {
    pub text: Seq<char>,
    pub editing: bool,
}

impl View for Filter {
    type V = FilterView;

    open spec fn view(&self) -> FilterView {
        FilterView { text: self.text@, editing: self.editing }
    }
}

impl Clone for Filter {
    fn clone(&self) -> (r: Self)
        ensures
            r == *self,
    {
        Filter { text: self.text.clone(), editing: self.editing }
    }
}

/// What is in a search box that may not be there.
pub open spec fn some_filter(f: Option<Filter>) -> Option<FilterView> {
    match f {
        Some(f) => Some(f@),
        None => None,
    }
}

impl FilterView {
    /// Open, with nothing typed into it.
    pub open spec fn opening() -> FilterView {
        FilterView { text: Seq::empty(), editing: true }
    }
}

impl Filter {
    /// The box, open and empty, as `/` leaves it.
    pub fn opening() -> (r: Self)
        ensures
            r@ == FilterView::opening(),
    {
        Filter { text: String::new(), editing: true }
    }
}

/// What a tab is showing.
///
/// The connection is on [`OpenTab`] rather than in here: every kind belongs to
/// one, and a SQL tab with no connection is a query with nowhere to run.
#[allow(inconsistent_fields)]
#[derive(Debug, PartialEq, Eq)]
pub enum TabContent {
    Preview(TableRef),
    /// A SQL buffer, numbered so that two of them can be told apart in a bar
    /// where neither has a relation's name to wear.
    ///
    /// The text is this screen's, not the store's: what is being typed is one
    /// person's half-finished sentence, and what crosses into the store is the
    /// text of a query somebody asked to run.
    ///
    /// `query` is the run this tab last started, once it has started one. The
    /// id rather than the result: the result is the store's, and a copy here
    /// would be a second answer to go stale.
    Sql { number: u32, text: String, query: Option<QueryId> },
    /// What a relation is, rather than what is in it.
    ///
    /// Its own kind rather than a mode on `Preview`: a relation can have both
    /// open at once, and they are different questions about it — which is also
    /// why the tab bar has to be able to tell them apart by name.
    Definition {
        table: TableRef,
        /// Which of the definition's sections is drawn, by position in its own
        /// list. Kept per tab, because two definitions open at once are two
        /// people's places in two lists.
        section: usize,
    },
    /// What has been run, and the search over it.
    History { filter: Filter },
}

impl View for TabContent {
    type V = ContentView;

    open spec fn view(&self) -> ContentView {
        match *self {
            TabContent::Preview(table) => ContentView::Preview(table),
            TabContent::Sql { number, text, query } => ContentView::Sql {
                number,
                text: text@,
                query,
            },
            TabContent::Definition { table, section } => ContentView::Definition {
                table,
                section,
            },
            TabContent::History { filter } => ContentView::History { filter: filter@ },
        }
    }
}

impl Clone for TabContent {
    fn clone(&self) -> (r: Self)
        ensures
            r@ == self@,
    {
        match self {
            TabContent::Preview(table) => TabContent::Preview(table.clone()),
            TabContent::Sql { number, text, query } => TabContent::Sql {
                number: *number,
                text: text.clone(),
                query: *query,
            },
            TabContent::Definition { table, section } => TabContent::Definition {
                table: table.clone(),
                section: *section,
            },
            TabContent::History { filter } => TabContent::History { filter: filter.clone() },
        }
    }
}

impl TabContent {
    /// What the tab bar and the pane border call it.
    pub fn title(&self) -> (r: String)
        ensures
            r@ == self@.title(),
    {
        match self {
            TabContent::Preview(table) => copy_of(table.name()),
            TabContent::Sql { number, .. } => {
                let mut out: String = copy_of("SQL#");
                push_decimal(&mut out, *number as u128);
                out
            },
            // Named apart from the preview of the same relation, because two
            // tabs reading `users` would otherwise be two tabs called `users`.
            TabContent::Definition { table, .. } => {
                let mut out: String = copy_of(table.name());
                push_all(&mut out, ": def");
                out
            },
            TabContent::History { .. } => copy_of("History"),
        }
    }
}

/// A tab this screen has open on one connection.
///
/// At most one per `(conn, table)` for a preview: opening a relation already
/// open selects that tab rather than minting a second, and closing one depends
/// on it to know when the store's copy can go. SQL tabs have no such rule — two
/// of them are two different questions, and nothing in the store is keyed by
/// either.
#[derive(Debug, PartialEq, Eq)]
pub struct OpenTab {
    pub id: TabId,
    pub conn: ConnId,
    pub content: TabContent,
}

impl View for OpenTab {
    type V = TabView;

    open spec fn view(&self) -> TabView {
        TabView { id: self.id, conn: self.conn, content: self.content@ }
    }
}

impl OpenTab {
    /// The relation this tab is a preview of, or `None` for any other tab.
    ///
    /// Deliberately not a definition's. Everything that reads this wants the
    /// relation a *preview* is of — sorting it, paging it, forgetting the
    /// store's copy of it — and a definition shares none of that: it is fetched
    /// once, never paged and never sorted.
    pub fn table(&self) -> (r: Option<&TableRef>)
        ensures
            match r {
                Some(table) => self@.table() == Some(*table),
                None => self@.table() is None,
            },
    {
        match &self.content {
            TabContent::Preview(table) => Some(table),
            _ => None,
        }
    }

    /// The statement in this tab's buffer, or `None` when it is not a SQL tab.
    pub fn sql(&self) -> (r: Option<&str>)
        ensures
            match r {
                Some(text) => self@.sql() == Some(text@),
                None => self@.sql() is None,
            },
    {
        match &self.content {
            TabContent::Sql { text, .. } => Some(text.as_str()),
            _ => None,
        }
    }

    /// The relation this tab is a definition of.
    pub fn defines(&self) -> (r: Option<&TableRef>)
        ensures
            match r {
                Some(table) => self@.defines() == Some(*table),
                None => self@.defines() is None,
            },
    {
        match &self.content {
            TabContent::Definition { table, .. } => Some(table),
            _ => None,
        }
    }

    /// The history's search box, when this is the history.
    pub fn searches(&self) -> (r: Option<&Filter>)
        ensures
            match r {
                Some(filter) => self@.searches() == Some(filter@),
                None => self@.searches() is None,
            },
    {
        match &self.content {
            TabContent::History { filter } => Some(filter),
            _ => None,
        }
    }

    /// What the tab bar and the pane border call it.
    pub fn title(&self) -> (r: String)
        ensures
            r@ == self@.content.title(),
    {
        self.content.title()
    }
}

#[derive(Debug, Clone, Copy, PartialEq, Eq, Structural)]
pub enum Severity {
    Info,
    Warning,
    Error,
}

/// A transient notice. "Show this briefly and let it go" rather than "attach
/// it to the row it is about" is a rendering choice, not a fact about the data.
#[derive(Debug, PartialEq, Eq)]
pub struct Toast {
    pub id: ToastId,
    pub text: String,
    pub severity: Severity,
    pub created_at: Moment,
}

impl View for Toast {
    type V = ToastView;

    open spec fn view(&self) -> ToastView {
        ToastView {
            id: self.id,
            text: self.text@,
            severity: self.severity,
            created_at: self.created_at,
        }
    }
}

/// Where the explorer is scrolled to, and the row in it that is selected.
#[derive(Debug, Clone, Copy, PartialEq, Eq, Structural)]
pub struct TreeUi {
    pub offset: usize,
    pub selected: Option<usize>,
}

impl Default for TreeUi {
    fn default() -> (r: Self)
        ensures
            r == (TreeUi { offset: 0, selected: None }),
    {
        TreeUi { offset: 0, selected: None }
    }
}

// ── a tab's grid ───────────────────────────────────────────────────────────

/// Per tab because two tabs showing different relations have nothing to say to
/// each other about column widths or which cell is selected.
#[derive(Debug)]
pub struct GridUi {
    pub row_offset: usize,
    /// How many page requests had finished for this preview when this tab last
    /// asked for another.
    ///
    /// A count of what came back, rather than a description of what the last
    /// request left behind. That description cannot say whether a request was
    /// made at all, and three cases needing different answers look identical
    /// in it: a cancelled page changes nothing, a retry that fails the same
    /// way leaves the same message, and the end of a relation changes nothing
    /// either. The end is the one the store can actually tell — it knows what
    /// it asked for — so `PreviewView::exhausted` says it, and this only has
    /// to answer "has anything come back since I asked".
    pub asked_after: Option<u64>,
    /// Horizontal position in whole columns. Per column rather than per cell:
    /// the wheel and the scrollbar both move in column steps, and a half-drawn
    /// leading column is worse than a hard edge.
    pub col_offset: usize,
    pub row: usize,
    pub col: usize,
    pub widths: HashMap<usize, u16>,
    pub grid: Option<RenderedGrid>,
    /// The other corner of the selection, and the ordering it was made under.
    ///
    /// `None` is one cell. The ordering rides along because a selection is
    /// indexes into a result the store is free to replace: sorting fetches page
    /// one again, so rows 10..20 of the old order name different rows in the
    /// new one, and a copy taken from a stale anchor comes out wrong with
    /// nothing said. Paging is the case that must *not* clear it — appending
    /// leaves every existing row where it was.
    pub anchor: Option<((usize, usize), Option<Sort>)>,
}

pub open spec fn some_grid(grid: Option<RenderedGrid>) -> Option<PagedResult> {
    match grid {
        Some(grid) => Some(grid.shown_rows()),
        None => None,
    }
}

impl View for GridUi {
    type V = GridView;

    open spec fn view(&self) -> GridView {
        GridView {
            row_offset: self.row_offset,
            asked_after: self.asked_after,
            col_offset: self.col_offset,
            row: self.row,
            col: self.col,
            widths: self.widths@,
            shown: some_grid(self.grid),
            anchor: self.anchor,
        }
    }
}

pub open spec fn grid_views(grids: Map<u32, GridUi>) -> Map<u32, GridView> {
    grids.map_values(|g: GridUi| g@)
}

impl Default for GridUi {
    fn default() -> (r: Self)
        ensures
            r@ == GridView::fresh(),
    {
        let r: GridUi = GridUi {
            row_offset: 0,
            asked_after: None,
            col_offset: 0,
            row: 0,
            col: 0,
            widths: HashMap::new(),
            grid: None,
            anchor: None,
        };
        proof {
            assert(r@ =~= GridView::fresh());
        }
        r
    }
}

impl GridUi {
    /// The rows, ready to draw.
    ///
    /// Rebuilt only when the rows change. A snapshot is republished for reasons
    /// that have nothing to do with this tab — a spinner tick will do it — and
    /// rebuilding on each one would re-sample the column widths and make them
    /// twitch as pages arrive.
    pub fn grid(&mut self, rows: &Arc<PagedResult>) -> (r: &RenderedGrid)
        ensures
            final(self)@ == old(self)@.showing(**rows),
            Some(r.shown_rows()) == old(self)@.showing(**rows).shown,
    {
        let stale: bool = match &self.grid {
            Some(grid) => !grid.is_for(rows),
            None => true,
        };
        if stale {
            self.grid = Some(RenderedGrid::new(Arc::clone(rows)));
        }
        self.grid.as_ref().unwrap()
    }

    /// The rectangle the selection covers, as `(top, left, bottom, right)`
    /// inclusive.
    ///
    /// A rectangle rather than a set: anything else needs an answer to what a
    /// discontiguous selection means as CSV, and there is not a good one. A
    /// rectangle has one — the rows it covers, each cut to the columns.
    pub fn selection(&self, sort: Option<Sort>) -> (r: (usize, usize, usize, usize))
        ensures
            r == self@.selection(sort),
    {
        match self.anchor {
            Some((at, made_under)) => if same_sort(made_under, sort) {
                (
                    min_usize(at.0, self.row),
                    min_usize(at.1, self.col),
                    max_usize(at.0, self.row),
                    max_usize(at.1, self.col),
                )
            } else {
                (self.row, self.col, self.row, self.col)
            },
            None => (self.row, self.col, self.row, self.col),
        }
    }

    /// How many cells are selected, or `None` when it is just the one.
    pub fn selected_cells(&self, sort: Option<Sort>) -> (r: Option<(usize, usize)>)
        ensures
            r == self@.selected_cells(sort),
    {
        let (top, left, bottom, right) = self.selection(sort);
        let high: usize = (bottom - top).saturating_add(1);
        let wide: usize = (right - left).saturating_add(1);
        if high == 1 && wide == 1 {
            None
        } else {
            Some((high, wide))
        }
    }

    /// The document for the selected cell of the rows that are shown, built once
    /// per cell rather than once per frame.
    pub fn detail(&mut self) -> (r: Option<Arc<RenderedDetail>>)
        ensures
            final(self)@ == old(self)@,
            match r {
                Some(detail) => old(self)@.read_closely() == Some(detail@),
                None => old(self)@.read_closely() is None,
            },
    {
        match &mut self.grid {
            Some(grid) => grid.document(self.row, self.col),
            None => None,
        }
    }

    /// The grid that was built last, for reading beside the widths and offsets
    /// without borrowing the whole of this to do it.
    pub fn rendered(&self) -> (r: Option<&RenderedGrid>)
        ensures
            match r {
                Some(grid) => self@.shown == Some(grid.shown_rows()),
                None => self@.shown is None,
            },
    {
        self.grid.as_ref()
    }

    /// The width to draw column `col` at.
    pub fn width(&self, col: usize, natural: u16) -> (r: u16)
        ensures
            r == self@.width(col, natural),
    {
        match self.widths.get(&col) {
            Some(width) => *width,
            None => natural,
        }
    }

    /// A column's width, set outright rather than nudged.
    pub fn set_width(&mut self, col: usize, width: u16)
        ensures
            final(self)@ == old(self)@.sized(col, most(width as int, 1) as u16),
    {
        self.widths.insert(col, if width == 0 { 1 } else { width });
    }

    pub(crate) fn resize(&mut self, col: usize, delta: i16, natural: u16)
        ensures
            final(self)@ == old(self)@.resized(col, delta as int, natural),
    {
        let current: i32 = self.width(col, natural) as i32;
        let wanted: i32 = current + delta as i32;
        let next: u16 = if wanted < 1 {
            1
        } else if wanted > 65_535 {
            65_535
        } else {
            wanted as u16
        };
        self.widths.insert(col, next);
    }
}

pub(crate) fn same_sort(a: Option<Sort>, b: Option<Sort>) -> (r: bool)
    ensures
        r == (a == b),
{
    match (a, b) {
        (Some(a), Some(b)) => a == b,
        (None, None) => true,
        _ => false,
    }
}

// ── the screen ─────────────────────────────────────────────────────────────

/// A definition's layout, and the definition it was built from.
#[derive(Debug)]
pub struct LaidOut {
    detail: Arc<TableDetail>,
    laid: Laid,
}

impl LaidOut {
    #[verifier::type_invariant]
    closed spec fn is_its_own(self) -> bool {
        lays_out(self.laid, *self.detail)
    }

    pub closed spec fn of(self) -> TableDetail {
        *self.detail
    }

    pub fn new(detail: &Arc<TableDetail>) -> (r: Self)
        ensures
            r.of() == **detail,
    {
        LaidOut { detail: Arc::clone(detail), laid: Laid::out(detail) }
    }

    /// Whether the definition has not changed since.
    pub fn is_for(&self, detail: &TableDetail) -> (b: bool)
        ensures
            b == (self.of().edition == detail.edition),
    {
        self.detail.edition == detail.edition
    }

    pub fn laid(&self) -> (r: &Laid)
        ensures
            lays_out(*r, self.of()),
    {
        proof {
            use_type_invariant(self);
        }
        &self.laid
    }
}

pub open spec fn details_of(laid: Map<u32, LaidOut>) -> Map<u32, TableDetail> {
    laid.map_values(|l: LaidOut| l.of())
}

/// A message already shown for a preview, so that a redraw does not show it
/// again.
#[derive(Debug)]
pub struct Reported {
    pub conn: ConnId,
    pub table: TableRef,
    pub text: String,
}

impl View for Reported {
    type V = ReportView;

    open spec fn view(&self) -> ReportView {
        ReportView { conn: self.conn, table: self.table@, text: self.text@ }
    }
}

/// Neither pane is useful below this, so the splitter stops here rather than
/// letting one side be dragged out of existence.
pub const MIN_PANE_WIDTH: u16 = 12;

/// Where the splitter sits before anyone moves it, as a fraction of the screen.
pub const DEFAULT_EXPLORER_PERMILLE: u32 = 280;

/// How far above the last loaded row a scroll starts fetching.
///
/// Above the last row rather than at it, so the fetch overlaps the scrolling
/// instead of stopping it. A constant rather than the viewport's height: on a
/// tall terminal that would exceed a page and ask before the previous page had
/// anywhere to go.
pub const LOAD_MARGIN_ROWS: usize = 20;

/// Rows the detail pane takes.
///
/// Enough for a small document without taking the grid over. Fixed, because
/// there is no splitter for it yet: nothing but this constant decides how much
/// of a long value is reachable.
pub const DEFAULT_DETAIL_HEIGHT: u16 = 8;

#[derive(Debug)]
pub struct UiState {
    pub focus: PaneId,
    pub tree: TreeUi,
    pub hover: Option<Target>,
    /// The dialog on screen, if any. Whether one is open is a fact about this
    /// screen rather than about the data, so it lives here.
    pub modal: Option<Modal>,
    /// The connections whose failure has already been raised as a dialog, so
    /// that dismissing it is final. A set rather than one id: remembering only
    /// the last leaves a second connection's failure unreported, because the
    /// first stays in the list and is what a search keeps finding.
    pub reported_failures: HashSet<u64>,
    /// The queries whose cost has already been put as a question, so that
    /// dismissing it is final.
    pub asked_approval: HashSet<u64>,
    /// The explorer's search, or `None` when there is not one.
    ///
    /// Screen state, not application state: it decides which rows *this*
    /// screen draws, the way scrolling does.
    pub filter: Option<Filter>,
    /// Every tab this screen has open, in the order they appear in the tab
    /// bar. At most one per `(conn, table)`.
    pub tabs: Vec<OpenTab>,
    pub active_tab: Option<TabId>,
    pub next_tab: u32,
    /// What the last SQL tab was called. Separate from `next_tab`: the id is
    /// bookkeeping and the number is read off the screen, so a session that
    /// opened six previews must not name its first query tab `SQL#7`.
    pub next_sql: u32,
    pub toasts: Vec<Toast>,
    pub next_toast: u64,
    /// The palette, while it is up. It holds the keyboard, so its presence is
    /// what `Context::Palette` is.
    pub palette: Option<Palette>,
    /// The last error already raised for each preview, so that a redraw does
    /// not raise it again — only a *new* message does.
    pub reported_preview_errors: Vec<Reported>,
    /// The runs whose failure has already been raised. By id rather than by
    /// message: a run is one attempt and fails once, and running again is a
    /// new id.
    pub reported_query_errors: HashSet<u64>,
    pub grids: HashMap<u32, GridUi>,
    /// Each definition tab's laid-out copy.
    pub laid: HashMap<u32, LaidOut>,
    /// How tall the detail pane is, or `None` while it is closed.
    pub detail_height: Option<u16>,
    /// How far down the detail pane is scrolled, and how many lines it has to
    /// scroll through.
    ///
    /// The pane exists for values longer than a column, and a value longer
    /// than a column is often longer than a pane.
    pub detail_offset: usize,
    pub detail_rows: usize,
    /// Lines in the active SQL tab's buffer, as of the last frame.
    ///
    /// Recorded the way `detail_rows` is, and for the same reason: the scroll
    /// clamp asks how much content there is, and the only thing that has
    /// counted it is the pass that drew it.
    pub sql_lines: usize,
    /// An OSC 52 sequence waiting for the render loop to write it.
    ///
    /// Not written from here: this type holds no terminal, and the sequence has
    /// to go out through the writer the screen already owns rather than a
    /// second thing reaching for it.
    pub pending_copy: Option<String>,
    /// The open context menu, if any. Screen state like the modal: which cell
    /// somebody right-clicked is one person's gesture.
    pub menu: Option<Menu>,
    /// `None` until the splitter is moved, so the default follows the terminal
    /// width instead of being frozen at whatever it was on the first frame.
    pub explorer_width: Option<u16>,
    /// Rectangles as of the last frame drawn.
    pub viewports: Viewports,
    /// The whole frame, as of the last one drawn.
    ///
    /// Recorded separately from the viewports because those are the areas
    /// *inside* the pane borders: adding them back up loses a column per border
    /// and the splitter would then move by a different amount than it was
    /// dragged.
    pub screen: Rect,
    /// The time, as of the last event: when a notice was raised, and how long
    /// ago a run was.
    pub clock: Moment,
}

impl View for UiState {
    type V = UiView;

    open spec fn view(&self) -> UiView {
        UiView {
            focus: self.focus,
            tree: self.tree,
            hover: self.hover,
            modal: some_modal(self.modal),
            reported_failures: self.reported_failures@,
            asked_approval: self.asked_approval@,
            filter: some_filter(self.filter),
            tabs: views(self.tabs@),
            active_tab: self.active_tab,
            next_tab: self.next_tab,
            next_sql: self.next_sql,
            toasts: views(self.toasts@),
            next_toast: self.next_toast,
            palette: some_palette(self.palette),
            reported_preview_errors: views(self.reported_preview_errors@),
            reported_query_errors: self.reported_query_errors@,
            grids: grid_views(self.grids@),
            laid: details_of(self.laid@),
            detail_height: self.detail_height,
            detail_offset: self.detail_offset,
            detail_rows: self.detail_rows,
            sql_lines: self.sql_lines,
            pending_copy: some_text(self.pending_copy),
            menu: some_menu(self.menu),
            explorer_width: self.explorer_width,
            viewports: self.viewports,
            screen: self.screen,
            clock: self.clock,
        }
    }
}

/// The smallest scroll that keeps `index` visible.
fn scroll_into_view(offset: usize, index: usize, page: usize) -> (r: usize)
    ensures
        r == into_view(offset as int, index as int, page as int),
{
    if page == 0 {
        return offset;
    }
    if index < offset {
        index
    } else if index - offset >= page {
        index - page + 1
    } else {
        offset
    }
}

/// A byte count somebody is about to be charged for, in units they price in.
///
/// Powers of a thousand, because that is what the budget beside it was written
/// in: `max_bytes_billed = "20GB"` is twenty thousand million bytes, and a
/// dialog that divided it by 1024s would answer "the limit is 18.6 GB" about a
/// number the user typed as 20.
///
/// Truncating rather than rounding: this is shown next to that limit, and a
/// number that rounded up to the limit would read as being at it.
pub fn bytes(n: u64) -> (r: String)
    ensures
        r@ == byte_words(n as nat),
{
    if n >= 1_000_000_000_000 {
        scaled(n, 1_000_000_000_000, "TB")
    } else if n >= 1_000_000_000 {
        scaled(n, 1_000_000_000, "GB")
    } else if n >= 1_000_000 {
        scaled(n, 1_000_000, "MB")
    } else if n >= 1_000 {
        scaled(n, 1_000, "kB")
    } else {
        let mut out: String = String::new();
        push_decimal(&mut out, n as u128);
        push_all(&mut out, " B");
        out
    }
}

fn scaled(n: u64, scale: u64, unit: &str) -> (r: String)
    requires
        0 < scale <= 1_000_000_000_000,
    ensures
        r@ == in_units(n as nat, scale as nat, unit@),
{
    let mut out: String = String::new();
    push_decimal(&mut out, (n / scale) as u128);
    push_all(&mut out, ".");
    push_decimal(&mut out, (n % scale * 10 / scale) as u128);
    push_all(&mut out, " ");
    push_all(&mut out, unit);
    out
}

impl Default for UiState {
    fn default() -> (r: Self)
        ensures
            r@ == UiView::initial(),
    {
        let r: UiState = UiState {
            focus: PaneId::Explorer,
            tree: TreeUi::default(),
            hover: None,
            modal: None,
            reported_failures: HashSet::new(),
            asked_approval: HashSet::new(),
            filter: None,
            tabs: Vec::new(),
            active_tab: None,
            next_tab: 0,
            next_sql: 0,
            toasts: Vec::new(),
            next_toast: 0,
            palette: None,
            reported_preview_errors: Vec::new(),
            reported_query_errors: HashSet::new(),
            grids: HashMap::new(),
            laid: HashMap::new(),
            detail_height: None,
            detail_offset: 0,
            detail_rows: 0,
            sql_lines: 0,
            pending_copy: None,
            menu: None,
            explorer_width: None,
            viewports: Viewports::empty(),
            screen: Rect::default(),
            clock: Moment { seconds: 0, nanos: 0 },
        };
        proof {
            assert(r@ =~= UiView::initial());
        }
        r
    }
}

impl UiState {
    pub fn new() -> (r: Self)
        ensures
            r@ == UiView::initial(),
    {
        UiState::default()
    }

    /// Whether every counter can be counted on: what opening a tab or raising a
    /// notice needs.
    pub fn has_room(&self) -> (b: bool)
        ensures
            b == self@.room(),
    {
        self.next_tab < u32::MAX && self.next_sql < u32::MAX && self.next_toast < u64::MAX
    }

    /// The time notices are raised at from now on.
    pub fn set_clock(&mut self, now: Moment)
        ensures
            final(self)@ == (UiView { clock: now, ..old(self)@ }),
    {
        self.clock = now;
    }

    pub fn set_viewport(&mut self, pane: PaneId, rect: Rect)
        ensures
            final(self)@ == (UiView {
                viewports: old(self)@.viewports.with(pane, rect),
                ..old(self)@
            }),
    {
        match pane {
            PaneId::TabBar => self.viewports.tab_bar = rect,
            PaneId::Explorer => self.viewports.explorer = rect,
            PaneId::Grid => self.viewports.grid = rect,
            PaneId::Detail => self.viewports.detail = rect,
            PaneId::StatusBar => self.viewports.status_bar = rect,
        }
    }

    /// Record the frame the layout was divided from.
    pub fn set_screen(&mut self, area: Rect)
        ensures
            final(self)@ == (UiView { screen: area, ..old(self)@ }),
    {
        self.screen = area;
    }

    pub fn viewport(&self, pane: PaneId) -> (r: Rect)
        ensures
            r == self@.viewports.of(pane),
    {
        match pane {
            PaneId::TabBar => self.viewports.tab_bar,
            PaneId::Explorer => self.viewports.explorer,
            PaneId::Grid => self.viewports.grid,
            PaneId::Detail => self.viewports.detail,
            PaneId::StatusBar => self.viewports.status_bar,
        }
    }

    /// Rows visible in `pane`, which is what a page key and a clamp both need.
    fn page(&self, pane: PaneId) -> (r: usize)
        ensures
            r == self@.page(pane),
    {
        self.viewport(pane).height as usize
    }

    pub fn grid_mut(&mut self, tab: TabId) -> (r: &mut GridUi)
        ensures
            r@ == old(self)@.grid_or_fresh(tab),
            final(self)@ == old(self)@.with_grid(tab, final(r)@),
    {
        let ghost before = *self;
        let r: &mut GridUi = self.grids.entry(tab.0).or_insert(GridUi::default());
        proof {
            assert(grid_views(before.grids@.insert(tab.0, *final(r))) =~= grid_views(
                before.grids@,
            ).insert(tab.0, final(r)@));
        }
        r
    }

    pub fn grid(&self, tab: TabId) -> (r: Option<&GridUi>)
        ensures
            match r {
                Some(grid) => self@.grid(tab) == Some(grid@),
                None => self@.grid(tab) is None,
            },
    {
        self.grids.get(&tab.0)
    }

    // ── sizes ──────────────────────────────────────────────────────────────

    /// The explorer's width for a screen `total` cells wide.
    pub fn explorer_width(&self, total: u16) -> (r: u16)
        ensures
            r == self@.explorer_share(total),
    {
        let wanted: u16 = match self.explorer_width {
            Some(width) => width,
            None => (total as u32 * DEFAULT_EXPLORER_PERMILLE / 1000) as u16,
        };
        // The other side needs room too — and the splitter between them takes a
        // column of its own, which is why this is not `total - MIN_PANE_WIDTH`.
        // On a screen too narrow for both, the explorer is the one that yields.
        let ceiling: u16 = total.saturating_sub(MIN_PANE_WIDTH + 1);
        let floor: u16 = min_u16(MIN_PANE_WIDTH, ceiling);
        let fitted: u16 = min_u16(wanted, ceiling);
        if fitted < floor {
            floor
        } else {
            fitted
        }
    }

    /// How many rows the detail pane gets, which is none when it is closed or
    /// when the grid cannot spare them.
    pub fn detail_height(&self, total: u16) -> (r: u16)
        ensures
            r == self@.detail_share(total),
    {
        match self.detail_height {
            // The grid keeps its minimum whatever this asks for. Below that the
            // pane is not shown rather than shown small: the cell being read is
            // chosen in the grid, and a grid squeezed to its header cannot be
            // used to choose one.
            Some(wanted) => min_u16(wanted, total.saturating_sub(MIN_GRID_HEIGHT)),
            None => 0,
        }
    }

    /// How many lines the pane has to scroll through, which only the frame
    /// that drew it knows.
    ///
    /// A shorter value must not leave the pane scrolled past its end, showing
    /// an empty pane for a value that is there.
    pub fn set_detail_rows(&mut self, rows: usize)
        ensures
            final(self)@ == (UiView {
                detail_rows: rows,
                detail_offset: least(
                    old(self)@.detail_offset as int,
                    less(rows as int, 1),
                ) as usize,
                ..old(self)@
            }),
    {
        self.detail_rows = rows;
        self.detail_offset = min_usize(self.detail_offset, rows.saturating_sub(1));
    }

    /// How many lines there are to scroll through in the tab in front. Called
    /// by the draw pass, which is the only thing that has counted them.
    pub fn set_sql_lines(&mut self, lines: usize)
        ensures
            final(self)@ == (UiView { sql_lines: lines, ..old(self)@ }).regrid(
                (GridView {
                    row_offset: least(
                        old(self)@.own_grid().row_offset as int,
                        less(lines as int, 1),
                    ) as usize,
                    ..old(self)@.own_grid()
                }),
            ),
    {
        self.sql_lines = lines;
        if let Some(id) = self.active_tab {
            let grid: &mut GridUi = self.grid_mut(id);
            grid.row_offset = min_usize(grid.row_offset, lines.saturating_sub(1));
        }
    }

    pub fn sql_offset(&self) -> (r: usize)
        ensures
            r == self@.offset(PaneId::Grid),
    {
        self.offset(PaneId::Grid)
    }

    pub fn detail_offset(&self) -> (r: usize)
        ensures
            r == self@.detail_offset,
    {
        self.detail_offset
    }

    pub fn detail_open(&self) -> (b: bool)
        ensures
            b == (self@.detail_height is Some),
    {
        self.detail_height.is_some()
    }

    /// Open or close the pane.
    pub fn toggle_detail(&mut self)
        ensures
            final(self)@ == old(self)@.detail_toggled(),
    {
        self.detail_height = match self.detail_height {
            Some(_) => None,
            None => Some(DEFAULT_DETAIL_HEIGHT),
        };
    }

    fn active_grid(&self) -> (r: Option<&GridUi>)
        ensures
            match r {
                Some(grid) => self@.active_grid() == Some(grid@),
                None => self@.active_grid() is None,
            },
    {
        match self.active_tab {
            Some(id) => self.grid(id),
            None => None,
        }
    }

    fn offset(&self, pane: PaneId) -> (r: usize)
        ensures
            r == self@.offset(pane),
    {
        match pane {
            PaneId::Explorer => self.tree.offset,
            PaneId::Grid => match self.active_grid() {
                Some(grid) => grid.row_offset,
                None => 0,
            },
            PaneId::Detail => self.detail_offset,
            PaneId::TabBar | PaneId::StatusBar => 0,
        }
    }

    // ── tabs ───────────────────────────────────────────────────────────────

    fn tab_position(&self, id: TabId) -> (r: Option<usize>)
        ensures
            match r {
                Some(i) => i < self.tabs@.len() && self.tabs@[i as int].id == id && first(
                    self@.tabs,
                    tab_is(id),
                ) == Some(i as int),
                None => first(self@.tabs, tab_is(id)) is None,
            },
    {
        let wanted = |t: &OpenTab| -> (b: bool)
            ensures b == tab_is(id)(t@)
        { t.id == id };
        position_by_view(&self.tabs, wanted, Ghost(tab_is(id)))
    }

    /// The tab with this id.
    pub fn tab(&self, id: TabId) -> (r: Option<&OpenTab>)
        ensures
            match r {
                Some(tab) => self@.tab(id) == Some(tab@) && tab.id == id,
                None => self@.tab(id) is None,
            },
    {
        match self.tab_position(id) {
            Some(i) => Some(&self.tabs[i]),
            None => None,
        }
    }

    /// The tab in front.
    pub fn current(&self) -> (r: Option<&OpenTab>)
        ensures
            match r {
                Some(tab) => self@.current() == Some(tab@) && self.active_tab == Some(tab.id),
                None => self@.current() is None,
            },
    {
        match self.active_tab {
            Some(id) => self.tab(id),
            None => None,
        }
    }

    /// Which section a definition tab is on.
    pub fn section_of(&self, tab: TabId) -> (r: Option<usize>)
        ensures
            r == match self@.tab(tab) {
                Some(tab) => tab.section(),
                None => None,
            },
    {
        match self.tab(tab) {
            Some(tab) => match &tab.content {
                TabContent::Definition { section, .. } => Some(*section),
                _ => None,
            },
            None => None,
        }
    }

    /// One tab's SQL, or `None` when it is another kind of tab or gone.
    pub fn buffer_of(&self, tab: TabId) -> (r: Option<&str>)
        ensures
            match r {
                Some(text) => self@.tab(tab) matches Some(tab) && tab.sql() == Some(text@),
                None => match self@.tab(tab) {
                    Some(tab) => tab.sql() is None,
                    None => true,
                },
            },
    {
        match self.tab(tab) {
            Some(tab) => tab.sql(),
            None => None,
        }
    }

    /// The run a tab is showing, if it has started one.
    pub fn query_of(&self, tab: TabId) -> (r: Option<QueryId>)
        ensures
            r == self@.query_of(tab),
    {
        match self.tab(tab) {
            Some(tab) => match &tab.content {
                TabContent::Sql { query, .. } => *query,
                _ => None,
            },
            None => None,
        }
    }

    fn set_content(&mut self, at: usize, content: TabContent)
        requires
            at < old(self).tabs@.len(),
        ensures
            final(self)@ == (UiView {
                tabs: old(self)@.tabs.update(
                    at as int,
                    (TabView { content: content@, ..old(self)@.tabs[at as int] }),
                ),
                ..old(self)@
            }),
    {
        let ghost before = *self;
        self.tabs[at].content = content;
        proof {
            assert(self@.tabs =~= before@.tabs.update(
                at as int,
                TabView { content: content@, ..before@.tabs[at as int] },
            ));
        }
    }

    /// Record which run a tab started, so its rows can be found again.
    pub fn set_query(&mut self, tab: TabId, id: QueryId)
        ensures
            final(self)@ == old(self)@.queried(tab, id),
    {
        if let Some(at) = self.tab_position(tab) {
            let content: TabContent = match &self.tabs[at].content {
                TabContent::Sql { number, text, .. } => TabContent::Sql {
                    number: *number,
                    text: text.clone(),
                    query: Some(id),
                },
                _ => {
                    proof {
                        assert(self@.tabs.update(at as int, self@.tabs[at as int])
                            =~= self@.tabs);
                    }
                    return;
                },
            };
            self.set_content(at, content);
        }
    }

    /// Replace one tab's SQL with what came back from the editor.
    ///
    /// By id rather than "the active one": the editor had the terminal, and a
    /// snapshot arriving while it ran can have closed the tab underneath it.
    pub fn set_buffer(&mut self, tab: TabId, text: String)
        ensures
            final(self)@ == old(self)@.buffered(tab, text@),
    {
        if let Some(at) = self.tab_position(tab) {
            let content: TabContent = match &self.tabs[at].content {
                TabContent::Sql { number, query, .. } => TabContent::Sql {
                    number: *number,
                    text,
                    query: *query,
                },
                _ => {
                    proof {
                        assert(self@.tabs.update(at as int, self@.tabs[at as int])
                            =~= self@.tabs);
                    }
                    return;
                },
            };
            self.set_content(at, content);
        }
    }

    /// Mint a tab and focus it.
    fn open(&mut self, conn: ConnId, content: TabContent)
        requires
            old(self)@.next_tab < u32::MAX,
        ensures
            final(self)@ == old(self)@.opened(conn, content@),
    {
        let ghost before = *self;
        self.next_tab = self.next_tab + 1;
        let id: TabId = TabId::new(self.next_tab);
        self.tabs.push(OpenTab { id, conn, content });
        self.active_tab = Some(id);
        proof {
            assert(self@.tabs =~= before@.opened(conn, content@).tabs);
        }
    }

    fn open_sql(&mut self, conn: ConnId)
        requires
            old(self)@.next_tab < u32::MAX,
            old(self)@.next_sql < u32::MAX,
        ensures
            final(self)@ == old(self)@.sql_opened(conn),
    {
        self.next_sql = self.next_sql + 1;
        let number: u32 = self.next_sql;
        self.open(conn, TabContent::Sql { number, text: String::new(), query: None });
    }

    /// Close a tab, and select its neighbour if it was in front, which is what
    /// every tabbed screen does.
    fn close(&mut self, id: TabId)
        ensures
            final(self)@ == old(self)@.closed(id),
    {
        let ghost before = *self;
        let at: Option<usize> = self.tab_position(id);
        let kept = |t: &OpenTab| -> (b: bool)
            ensures b == tab_is_not(id)(t@)
        { t.id != id };
        retain(&mut self.tabs, kept, Ghost(tab_is_not(id)));
        self.laid.remove(&id.0);
        // The cached grid and column widths belonged to this tab and nothing
        // else; without dropping them a long session accumulates one for every
        // tab ever opened.
        self.grids.remove(&id.0);
        proof {
            assert(self@.laid =~= before@.closed(id).laid);
            assert(self@.grids =~= before@.closed(id).grids);
            assert(self@.tabs.len() == self.tabs@.len());
        }
        let active: bool = match self.active_tab {
            Some(tab) => tab == id,
            None => false,
        };
        if active {
            self.active_tab = match at {
                Some(at) => if self.tabs.len() > 0 {
                    let next: usize = min_usize(at, self.tabs.len() - 1);
                    Some(self.tabs[next].id)
                } else {
                    None
                },
                None => None,
            };
        }
    }

    // ── what is behind the tab in front ────────────────────────────────────

    /// The definition the active tab is showing, once it has arrived.
    pub fn definition<'a>(&self, snapshot: &'a Snapshot) -> (r: Option<&'a Arc<TableDetail>>)
        ensures
            match r {
                Some(detail) => self@.definition(*snapshot) == Some(**detail),
                None => self@.definition(*snapshot) is None,
            },
    {
        let tab: &OpenTab = match self.current() {
            Some(tab) => tab,
            None => return None,
        };
        match tab.defines() {
            Some(table) => match snapshot.definition(tab.conn, table) {
                Some(view) => view.data.ready(),
                None => None,
            },
            None => None,
        }
    }

    /// The same, laid out for this screen and kept until it changes.
    ///
    /// Rebuilt only when the detail behind it is another one, for the reason
    /// `GridUi::grid` is: a snapshot is republished for reasons that have
    /// nothing to do with this tab — a spinner tick will do it — and laying out
    /// every column again on each one is work with nothing to show for it.
    pub fn lay_out(&mut self, tab: TabId, detail: &Arc<TableDetail>)
        ensures
            final(self)@ == (UiView {
                laid: old(self)@.laid.insert(tab.0, old(self)@.laid_definition(tab, **detail)),
                ..old(self)@
            }),
    {
        let ghost before = *self;
        let stale: bool = match self.laid.get(&tab.0) {
            Some(held) => !held.is_for(detail),
            None => true,
        };
        if stale {
            self.laid.insert(tab.0, LaidOut::new(detail));
        }
        proof {
            assert(self@.laid =~= before@.laid.insert(
                tab.0,
                before@.laid_definition(tab, **detail),
            ));
        }
    }

    /// What [`UiState::lay_out`] built for this tab, if it has been asked for.
    ///
    /// Separate from building it so the draw pass can read the layout through
    /// a shared borrow.
    pub fn laid(&self, tab: TabId) -> (r: Option<&Laid>)
        ensures
            match r {
                Some(laid) => self@.laid.contains_key(tab.0) && lays_out(*laid, self@.laid[tab.0]),
                None => !self@.laid.contains_key(tab.0),
            },
    {
        match self.laid.get(&tab.0) {
            Some(held) => Some(held.laid()),
            None => None,
        }
    }

    /// Whether the active definition tab is on its generated statement, which
    /// the pane draws as text rather than as a grid.
    ///
    /// Clamped the way the draw pass clamps it, so a section index left over
    /// from a longer definition scrolls whatever is actually on the screen.
    fn statement_shown(&self, snapshot: &Snapshot) -> (b: bool)
        ensures
            b == self@.statement_shown(*snapshot),
    {
        let definition: &Arc<TableDetail> = match self.definition(snapshot) {
            Some(definition) => definition,
            None => return false,
        };
        let section: usize = match self.active_tab {
            Some(id) => match self.section_of(id) {
                Some(section) => section,
                None => return false,
            },
            None => return false,
        };
        // Asked of the detail rather than of a `Laid`: this is on the input
        // path, and laying one out would build every section's grid to answer
        // a boolean about one of them.
        let at: usize = min_usize(section, section_count(definition).saturating_sub(1));
        is_statement(definition, at)
    }

    /// The rows behind the active tab.
    ///
    /// `None` covers a real frame: a tab opened this tick has nothing in the
    /// snapshot until the store answers.
    pub fn rows_of(&self, snapshot: &Snapshot) -> (r: Option<Arc<PagedResult>>)
        ensures
            self@.shows(*snapshot, some_rows(r)),
    {
        let tab: &OpenTab = match self.current() {
            Some(tab) => tab,
            None => return None,
        };
        match &tab.content {
            TabContent::Preview(table) => match snapshot.preview(tab.conn, table) {
                Some(preview) => arc_of(preview.data.ready()),
                None => None,
            },
            // A run this screen started. `None` while it is still running, or
            // before there has been one, which is what makes the pane show the
            // buffer instead.
            TabContent::Sql { query, .. } => match query {
                Some(id) => match snapshot.query(*id) {
                    Some(query) => arc_of(query.data.ready()),
                    None => None,
                },
                None => None,
            },
            // The section this tab is looking at, which is a different grid
            // per tab even for the same relation.
            TabContent::Definition { section, .. } => {
                let detail: &Arc<TableDetail> = match self.definition(snapshot) {
                    Some(detail) => detail,
                    None => return None,
                };
                match self.laid.get(&tab.id.0) {
                    // What the last draw built, when it was built from this
                    // same detail.
                    Some(held) => if held.is_for(detail) {
                        return arc_of(held.laid().rows(*section));
                    },
                    None => {},
                }
                // And otherwise laid out here, thrown away, and built again by
                // the next draw — which is the whole cost, and is paid once per
                // refresh rather than per event. Returning nothing instead
                // would drop a scroll or a copy already queued behind a
                // refresh, silently.
                let laid: Laid = Laid::out(detail);
                arc_of(laid.rows(*section))
            },
            TabContent::History { .. } => match &snapshot.history.data {
                LoadState::Ready(entries) => Some(
                    Arc::new(history::rows(entries, self.clock, snapshot.history.edition)),
                ),
                _ => None,
            },
        }
    }

    /// Whether the active tab has something to run, and somewhere to run it.
    ///
    /// The same question the input layer asks before producing the action, so
    /// the button is drawn exactly when pressing it would do something.
    pub fn can_run(&self, snapshot: &Snapshot) -> (b: bool)
        ensures
            b == self@.can_run(*snapshot),
    {
        match self.current() {
            Some(tab) => match tab.sql() {
                Some(text) => !is_blank(text) && snapshot.is_live(tab.conn),
                None => false,
            },
            None => false,
        }
    }

    /// The active tab's SQL, or `None` when it is another kind of tab.
    pub fn active_sql(&self) -> (r: Option<&str>)
        ensures
            match r {
                Some(text) => self@.current() matches Some(tab) && tab.sql() == Some(text@),
                None => match self@.current() {
                    Some(tab) => tab.sql() is None,
                    None => true,
                },
            },
    {
        match self.current() {
            Some(tab) => tab.sql(),
            None => None,
        }
    }

    fn active_preview<'a>(&self, snapshot: &'a Snapshot) -> (r: Option<&'a PreviewView>)
        ensures
            match r {
                Some(preview) => self@.active_preview(*snapshot) == Some(*preview),
                None => self@.active_preview(*snapshot) is None,
            },
    {
        match self.current() {
            Some(tab) => match tab.table() {
                Some(table) => snapshot.preview(tab.conn, table),
                None => None,
            },
            None => None,
        }
    }

    pub fn active_sort(&self, snapshot: &Snapshot) -> (r: Option<Sort>)
        ensures
            r == self@.active_sort(*snapshot),
    {
        match self.active_preview(snapshot) {
            Some(preview) => preview.sort,
            None => None,
        }
    }

    // ── what a snapshot raises ─────────────────────────────────────────────

    fn push_toast(&mut self, severity: Severity, text: String)
        requires
            old(self)@.next_toast < u64::MAX,
        ensures
            final(self)@ == old(self)@.toasted(severity, text@),
    {
        let ghost before = *self;
        self.next_toast = self.next_toast + 1;
        self.toasts.push(
            Toast {
                id: ToastId::new(self.next_toast),
                text,
                severity,
                created_at: self.clock,
            },
        );
        proof {
            assert(self@.toasts =~= before@.toasted(severity, text@).toasts);
        }
    }

    /// A passing notice, for something that went differently rather than
    /// wrongly.
    pub fn warn(&mut self, text: String)
        requires
            old(self)@.next_toast < u64::MAX,
        ensures
            final(self)@ == old(self)@.toasted(Severity::Warning, text@),
    {
        self.push_toast(Severity::Warning, text);
    }

    /// A dialog, for something that has to be read before carrying on.
    pub fn raise_error(&mut self, title: &str, body: &str)
        ensures
            final(self)@ == old(self)@.alarmed(title@, body@),
    {
        // The menu sits above the modal, so one left open would float over the
        // dialog.
        self.menu = None;
        self.modal = Some(Modal::error(title, body));
    }

    /// Turn a new `last_error` on one of this screen's open previews into a
    /// toast.
    ///
    /// Recorded per preview rather than as one "last message raised": with a
    /// single slot, a second preview's failure hides behind the first one
    /// still sitting in it. Clearing on success is what keeps the *same*
    /// message failing again later — a second timeout, say — from being
    /// swallowed as a duplicate.
    pub fn raise_preview_errors(&mut self, snapshot: &Snapshot)
        requires
            old(self)@.next_toast + old(self)@.tabs.len() <= u64::MAX,
        ensures
            final(self)@ == old(self)@.previews_reported(
                *snapshot,
                old(self)@.tabs.len() as int,
            ),
    {
        let ghost before = self@;
        let mut i: usize = 0;
        while i < self.tabs.len()
            invariant
                i <= self.tabs@.len(),
                before.tabs == self@.tabs,
                self@.tabs.len() == self.tabs@.len(),
                before.next_toast + before.tabs.len() <= u64::MAX,
                self@.next_toast <= before.next_toast + i,
                self@ == before.previews_reported(*snapshot, i as int),
            decreases self.tabs@.len() - i,
        {
            self.report_preview(i, snapshot);
            proof {
                assert(self@.tabs.len() == self.tabs@.len());
            }
            i += 1;
        }
    }

    fn report_preview(&mut self, at: usize, snapshot: &Snapshot)
        requires
            at < old(self).tabs@.len(),
            old(self)@.next_toast < u64::MAX,
        ensures
            final(self)@ == old(self)@.preview_reported(old(self)@.tabs[at as int], *snapshot),
            final(self)@.tabs == old(self)@.tabs,
            final(self)@.next_toast <= old(self)@.next_toast + 1,
    {
        let conn: ConnId = self.tabs[at].conn;
        let table: TableRef = match self.tabs[at].table() {
            Some(table) => table.clone(),
            None => return,
        };
        let preview: &PreviewView = match snapshot.preview(conn, &table) {
            Some(preview) => preview,
            None => return,
        };
        let other = |r: &Reported| -> (b: bool)
            ensures b == report_not_of(conn, table@)(r@)
        { !(r.conn == conn && r.table.same(&table)) };
        match &preview.last_error {
            None => {
                retain(
                    &mut self.reported_preview_errors,
                    other,
                    Ghost(report_not_of(conn, table@)),
                );
            },
            Some(text) => {
                let same = |r: &Reported| -> (b: bool)
                    ensures b == report_of(conn, table@)(r@)
                { r.conn == conn && r.table.same(&table) };
                let told: bool = match position_by_view(
                    &self.reported_preview_errors,
                    same,
                    Ghost(report_of(conn, table@)),
                ) {
                    Some(i) => same_text(
                        self.reported_preview_errors[i].text.as_str(),
                        text.as_str(),
                    ),
                    None => false,
                };
                if told {
                    return;
                }
                retain(
                    &mut self.reported_preview_errors,
                    other,
                    Ghost(report_not_of(conn, table@)),
                );
                let ghost kept = views(self.reported_preview_errors@);
                let report: Reported = Reported {
                    conn,
                    table: table.clone(),
                    text: text.clone(),
                };
                let ghost added = report@;
                self.reported_preview_errors.push(report);
                proof {
                    assert(views(self.reported_preview_errors@) =~= kept.push(added));
                }
                self.push_toast(Severity::Error, text.clone());
            },
        }
    }

    /// Say why a run produced nothing.
    ///
    /// Without this a statement the server refused is invisible: the pane
    /// falls back to the buffer because there are no rows, the spinner has
    /// already gone, and pressing Run reads as having done nothing at all.
    pub fn raise_query_errors(&mut self, snapshot: &Snapshot)
        requires
            old(self)@.next_toast + old(self)@.tabs.len() <= u64::MAX,
        ensures
            final(self)@ == old(self)@.queries_reported(*snapshot),
    {
        let ghost before = self@;
        let failures: Vec<(QueryId, String)> = self.query_failures(snapshot);
        let ghost said = failure_views(failures@);
        let mut i: usize = 0;
        while i < failures.len()
            invariant
                i <= failures@.len(),
                said == failure_views(failures@),
                failures@.len() <= before.tabs.len(),
                before.next_toast + before.tabs.len() <= u64::MAX,
                self@.next_toast == before.next_toast + i,
                self@ == before.failures_told(said, i as int),
            decreases failures@.len() - i,
        {
            let ghost was = self@;
            proof {
                assert(said[i as int] == (failures@[i as int].0, failures@[i as int].1@));
            }
            self.reported_query_errors.insert(failures[i].0.0);
            self.push_toast(Severity::Error, failures[i].1.clone());
            i += 1;
        }
    }

    fn query_failures(&self, snapshot: &Snapshot) -> (r: Vec<(QueryId, String)>)
        ensures
            failure_views(r@) == self@.failures(*snapshot, self@.tabs.len() as int),
            r@.len() <= self@.tabs.len(),
    {
        let mut out: Vec<(QueryId, String)> = Vec::new();
        let mut i: usize = 0;
        proof {
            assert(failure_views(out@) =~= Seq::empty());
        }
        while i < self.tabs.len()
            invariant
                i <= self.tabs@.len(),
                out@.len() <= i,
                failure_views(out@) == self@.failures(*snapshot, i as int),
            decreases self.tabs@.len() - i,
        {
            let ghost before = failure_views(out@);
            proof {
                assert(self@.tabs[i as int] == self.tabs@[i as int]@);
            }
            if let Some(failure) = self.query_failure(i, snapshot) {
                let ghost added = (failure.0, failure.1@);
                out.push(failure);
                proof {
                    assert(failure_views(out@) =~= before.push(added));
                }
            }
            i += 1;
        }
        out
    }

    fn query_failure(&self, at: usize, snapshot: &Snapshot) -> (r: Option<(QueryId, String)>)
        requires
            at < self.tabs@.len(),
        ensures
            match r {
                Some(failure) => self@.failure_of(self@.tabs[at as int], *snapshot) == Some(
                    (failure.0, failure.1@),
                ),
                None => self@.failure_of(self@.tabs[at as int], *snapshot) is None,
            },
    {
        let id: QueryId = match self.query_of(self.tabs[at].id) {
            Some(id) => id,
            None => return None,
        };
        if self.reported_query_errors.contains(&id.0) {
            return None;
        }
        match snapshot.query(id) {
            Some(query) => match query.data.error() {
                Some(why) => Some((id, why.clone())),
                None => None,
            },
            None => None,
        }
    }

    /// Whether a query is one that a tab of this screen is showing.
    fn is_mine(&self, id: QueryId) -> (b: bool)
        ensures
            b == self@.is_mine(id),
    {
        let mut i: usize = 0;
        while i < self.tabs.len()
            invariant
                i <= self.tabs@.len(),
                forall|j: int|
                    0 <= j < i ==> self@.query_of((#[trigger] self@.tabs[j]).id) != Some(id),
            decreases self.tabs@.len() - i,
        {
            proof {
                assert(self@.tabs[i as int] == self.tabs@[i as int]@);
            }
            let mine: bool = match self.query_of(self.tabs[i].id) {
                Some(query) => query == id,
                None => false,
            };
            if mine {
                return true;
            }
            i += 1;
        }
        false
    }

    /// Ask about a query the budget stopped, once per query.
    ///
    /// Once, because a snapshot is republished for reasons that have nothing
    /// to do with this — a spinner tick will do it — and a dialog re-raised on
    /// each one could never be dismissed.
    pub fn raise_approvals(&mut self, snapshot: &Snapshot)
        ensures
            final(self)@ == old(self)@.approvals_raised(*snapshot),
    {
        // Only about a query one of this screen's tabs is showing: an agent
        // running something over the socket is not this person's question to
        // answer, and a dialog about it would appear out of nowhere.
        let asking = |q: &QueryView| -> (b: bool)
            ensures b == self@.unasked()(*q)
        {
            self.is_mine(q.id) && !self.asked_approval.contains(&q.id.0)
                && q.needs_approval.is_some()
        };
        let query: &QueryView = match find(&snapshot.queries, asking, Ghost(self@.unasked())) {
            Some(query) => query,
            None => {
                // Nothing to ask. If a dialog is up about a question the store
                // no longer has open — because it was answered — it goes: the
                // screen follows the snapshot rather than closing itself, which
                // is also what keeps an answer from being given twice. One that
                // is still open stays, and so does a dialog that asks nothing.
                let answered: bool = match &self.modal {
                    Some(modal) => modal.answered_by(snapshot),
                    None => false,
                };
                if answered {
                    self.modal = None;
                }
                return;
            },
        };
        let over: &OverBudget = match &query.needs_approval {
            Some(over) => over,
            None => return,
        };
        self.asked_approval.insert(query.id.0);
        // The menu sits above the modal, so one left open would float over the
        // dialog.
        self.menu = None;
        let mut body: String = copy_of("It would read ");
        push_all(
            &mut body,
            bytes(
                match over.estimate {
                    Some(n) => n,
                    None => 0,
                },
            ).as_str(),
        );
        push_all(&mut body, ", and the limit is ");
        push_all(&mut body, bytes(over.budget).as_str());
        push_all(&mut body, ".\n\n");
        push_all(&mut body, over.sql.as_str());
        self.modal = Some(
            Modal::asking_one(
                "This query costs more than the limit",
                body.as_str(),
                "Run it anyway",
                Intent::App(Action::ApproveQuery(query.id)),
            ),
        );
    }

    /// A closed connection takes its *preview* tabs with it.
    ///
    /// Disconnecting drops the connection's previews, and a tab left pointing
    /// at one shows a blank pane for ever: nothing to fetch, and no session
    /// left to fetch it with. Reopening it fetches the rows again, so nothing
    /// is lost by closing it.
    ///
    /// A SQL tab is kept. Its buffer is the user's own writing rather than a
    /// copy of something the database still has, and closing the connection is
    /// not a reason to throw away what somebody typed — it stays readable and
    /// copyable, and what it cannot do is run.
    pub fn close_disconnected_tabs(&mut self, snapshot: &Snapshot)
        ensures
            final(self)@ == old(self)@.disconnected_closed(
                old(self)@.tabs,
                *snapshot,
                old(self)@.tabs.len() as int,
            ),
    {
        let ghost before = self@;
        // Which of them, before any is gone.
        let mut closing: Vec<Option<TabId>> = Vec::new();
        let mut i: usize = 0;
        while i < self.tabs.len()
            invariant
                i <= self.tabs@.len(),
                self@ == before,
                closing@.len() == i,
                forall|j: int|
                    0 <= j < i ==> (#[trigger] closing@[j]) == if UiView::disconnected(
                        before.tabs[j],
                        *snapshot,
                    ) {
                        Some(before.tabs[j].id)
                    } else {
                        None
                    },
            decreases self.tabs@.len() - i,
        {
            proof {
                assert(before.tabs[i as int] == self.tabs@[i as int]@);
            }
            let gone: bool = self.tabs[i].table().is_some() && match snapshot.connection(
                self.tabs[i].conn,
            ) {
                Some(c) => match c.status {
                    ConnStatus::Closed => true,
                    _ => false,
                },
                None => true,
            };
            closing.push(if gone { Some(self.tabs[i].id) } else { None });
            i += 1;
        }
        let mut k: usize = 0;
        while k < closing.len()
            invariant
                k <= closing@.len(),
                closing@.len() == before.tabs.len(),
                forall|j: int|
                    0 <= j < closing@.len() ==> (#[trigger] closing@[j])
                        == if UiView::disconnected(before.tabs[j], *snapshot) {
                        Some(before.tabs[j].id)
                    } else {
                        None
                    },
                self@ == before.disconnected_closed(before.tabs, *snapshot, k as int),
            decreases closing@.len() - k,
        {
            if let Some(id) = closing[k] {
                self.close(id);
            }
            k += 1;
        }
    }

    // ── templates ──────────────────────────────────────────────────────────

    /// The connection a new SQL tab would open on: the active tab's, or the
    /// first live one. A template is about a statement, not about a tab, so
    /// picking one is better than refusing when there is an obvious answer.
    fn connection_for_a_new_tab(&self, snapshot: &Snapshot) -> (r: Option<ConnId>)
        ensures
            r == self@.connection_for_a_new_tab(*snapshot),
    {
        if let Some(tab) = self.current() {
            if snapshot.is_live(tab.conn) {
                return Some(tab.conn);
            }
        }
        snapshot.live_connection()
    }

    /// How the connection the statement is going to quotes things.
    ///
    /// The active tab's connection, falling back to PostgreSQL's rules. A
    /// fallback is needed because a palette can be opened with nothing
    /// connected, and the alternative — refusing to fill in a template until
    /// something is — would be a rule about quoting standing in the way of
    /// writing a statement.
    fn dialect(&self, snapshot: &Snapshot) -> (r: Dialect)
        ensures
            r == self@.dialect(*snapshot),
    {
        if let Some(tab) = self.current() {
            if let Some(c) = snapshot.connection(tab.conn) {
                if c.capabilities.is_some() {
                    return Dialect::OfConnection(tab.conn);
                }
            }
        }
        Dialect::PostgreSql
    }

    /// Put a statement where it can be run.
    ///
    /// Into the active SQL tab when it is empty, and into a new one otherwise.
    /// Never over something already written: there is no editor here and so no
    /// undo, and a template that replaced a half-written query would be a
    /// keystroke that destroys work. Appending instead would make two
    /// statements out of one, which is then refused.
    fn insert(&mut self, text: String, snapshot: &Snapshot)
        requires
            old(self)@.room(),
        ensures
            final(self)@ == old(self)@.inserted(text@, *snapshot),
    {
        let empty: Option<TabId> = match self.current() {
            Some(tab) => match tab.sql() {
                Some(held) => if is_blank(held) {
                    Some(tab.id)
                } else {
                    None
                },
                None => None,
            },
            None => None,
        };
        if let Some(tab) = empty {
            self.set_buffer(tab, text);
            return;
        }
        let conn: ConnId = match self.connection_for_a_new_tab(snapshot) {
            Some(conn) => conn,
            None => {
                self.warn(copy_of("nothing is connected to run a statement on"));
                return;
            },
        };
        self.open_sql(conn);
        if let Some(tab) = self.active_tab {
            self.set_buffer(tab, text);
        }
    }

    /// The relation the explorer has selected, as a dotted name.
    fn selected_table(&self, snapshot: &Snapshot) -> (r: Option<String>)
        ensures
            some_text(r) == self@.selected_table(*snapshot),
    {
        match self.tree.selected {
            Some(row) => match self.visible_node(snapshot, row) {
                Some(node) => match node.node_ref.as_table() {
                    Some(table) => Some(table.dotted()),
                    None => None,
                },
                None => None,
            },
            None => None,
        }
    }

    fn ask(&mut self, form: Form)
        ensures
            final(self)@ == old(self)@.asking(form@),
    {
        let ghost before = *self;
        if let Some(palette) = &self.palette {
            let mut palette: Palette = palette.clone();
            palette.asking = Some(form);
            self.palette = Some(palette);
        }
    }

    /// Put a template in the buffer, or ask for what it needs first: `outcome`
    /// is what its placeholders were found to be.
    ///
    /// Which of the two is a fact about the template rather than about the
    /// gesture, so one command covers both: somebody picking a saved statement
    /// is aiming at the buffer either way.
    pub fn template_read(
        &mut self,
        id: TemplateId,
        outcome: Result<Vec<Placeholder>, String>,
        snapshot: &Snapshot,
    )
        requires
            old(self)@.room(),
        ensures
            final(self)@ == old(self)@.read(id, placeholders_found(outcome), *snapshot),
    {
        let template: &Template = match snapshot.template(id) {
            Some(template) => template,
            None => return,
        };
        match outcome {
            Ok(placeholders) => {
                if placeholders.len() == 0 {
                    self.palette = None;
                    self.insert(template.body.clone(), snapshot);
                    return;
                }
                // What the explorer has selected answers `{{ident:table}}`
                // before anybody types — shown and editable, because a guess
                // about what somebody meant is only ever a guess.
                let selected: Option<String> = self.selected_table(snapshot);
                let ghost chosen = self@.selected_table(*snapshot);
                let known: &Option<String> = &selected;
                let filled = |p: &Placeholder| -> (answer: Option<String>)
                    ensures crate::palette::prefilled(answer) == guess(*p, some_text(*known))
                {
                    match p.kind {
                        Kind::Ident => if same_text(p.name.as_str(), "table") {
                            known.clone()
                        } else {
                            None
                        },
                        Kind::Value => None,
                    }
                };
                let form: Form = Form::new(id, template.name.clone(), &placeholders, filled);
                proof {
                    assert forall|i: int| 0 <= i < placeholders@.len() implies field_views(
                        form.fields@,
                    )[i] == form_fields(placeholders@, chosen)[i] by {
                        assert(form.fields@[i].name == placeholders@[i].name);
                    }
                    assert(field_views(form.fields@) =~= form_fields(placeholders@, chosen));
                }
                self.ask(form);
            },
            // A template whose body cannot be read at all — an unterminated
            // string in it, or a `{{` inside one. Said where the palette is
            // rather than as a toast: it is about the thing under the cursor.
            Err(why) => {
                let form: Form = Form {
                    template: id,
                    name: template.name.clone(),
                    fields: Vec::new(),
                    at: 0,
                    failed: Some(why),
                };
                proof {
                    assert(field_views(form.fields@) =~= Seq::empty());
                }
                self.ask(form);
            },
        }
    }

    /// What is asked for when the form is submitted.
    fn submit_template(&self, snapshot: &Snapshot) -> (r: Option<Action>)
        ensures
            some_action(r) == self@.submitted(*snapshot),
    {
        let form: &Form = match &self.palette {
            Some(palette) => match &palette.asking {
                Some(form) => form,
                None => return None,
            },
            None => return None,
        };
        match snapshot.template(form.template) {
            Some(template) => Some(
                Action::BindTemplate {
                    body: template.body.clone(),
                    values: form.values(),
                    dialect: self.dialect(snapshot),
                },
            ),
            None => None,
        }
    }

    /// Put what the form was bound to in the buffer, or say on it why it could
    /// not be bound.
    ///
    /// It stays open with the reason on it: the answers are still there to be
    /// corrected, which is the whole reason binding happens before the text
    /// reaches the buffer.
    pub fn template_bound(&mut self, outcome: Result<String, String>, snapshot: &Snapshot)
        requires
            old(self)@.room(),
        ensures
            final(self)@ == old(self)@.bound(statement_bound(outcome), *snapshot),
    {
        let mut form: Form = match &self.palette {
            Some(palette) => match &palette.asking {
                Some(form) => form.clone(),
                None => return,
            },
            None => return,
        };
        match outcome {
            Ok(text) => {
                self.palette = None;
                self.insert(text, snapshot);
            },
            Err(why) => {
                form.failed = Some(why);
                self.ask(form);
            },
        }
    }

    /// Keep what the palette is holding, under the name typed into it.
    ///
    /// The palette closes here rather than when the answer lands: the answer
    /// is a list and a possible failure, and both are read where the palette
    /// was — a list somebody has to dismiss to see what happened to their save
    /// is a list in the way.
    fn commit_template(&mut self, snapshot: &Snapshot) -> (r: Option<Action>)
        ensures
            (final(self)@, some_action(r)) == old(self)@.committed(*snapshot),
    {
        let open: Palette = match self.palette.take() {
            Some(open) => open,
            None => return None,
        };
        let name: String = trim(open.filter.as_str());
        let body: String = match open.saving {
            Some(body) => body,
            None => return None,
        };
        if name.as_str().is_empty() {
            return None;
        }
        // Any driver, and no tags. Both are things to say *about* a template
        // rather than things to ask for while keeping one, and a dialog with
        // three fields in it is a dialog nobody uses to save a query they are
        // in the middle of.
        let with: NewTemplate = NewTemplate {
            name: name.clone(),
            body,
            driver: None,
            tags: Vec::new(),
        };
        proof {
            assert(texts(with.tags@) =~= Seq::empty());
        }
        // A name already saved is an edit, and an edit is a thing to be asked
        // about: the store refuses a duplicate name, so without this the only
        // way to change a saved statement would be to delete it and write it
        // again — and the refusal would arrive as a failure for something
        // somebody meant to do.
        match snapshot.named_template(name.as_str()) {
            Some(existing) => {
                let mut title: String = copy_of("Replace `");
                push_all(&mut title, name.as_str());
                push_all(&mut title, "`?");
                self.modal = Some(
                    Modal::asking_one(
                        title.as_str(),
                        "What is saved under that name goes.",
                        "Replace",
                        Intent::App(Action::ReplaceTemplate { id: existing.id, with }),
                    ),
                );
                None
            },
            None => Some(Action::SaveTemplate(with)),
        }
    }

    // ── the explorer ───────────────────────────────────────────────────────

    /// The rows the explorer is showing, as indices into the flattened tree.
    ///
    /// Both drawing and input go through this, so a click lands on the row the
    /// user is looking at rather than on whatever is at that position in the
    /// unfiltered tree.
    pub fn visible_rows(&self, snapshot: &Snapshot) -> (r: Vec<usize>)
        ensures
            r@ == self@.visible(*snapshot),
            forall|i: int| 0 <= i < r@.len() ==> (#[trigger] r@[i]) < snapshot.explorer@.len(),
    {
        let rows: Vec<usize> = visible(
            &snapshot.explorer,
            match &self.filter {
                Some(filter) => Some(filter.text.as_str()),
                None => None,
            },
        );
        let n: usize = snapshot.explorer.len();
        proof {
            assert forall|i: int| 0 <= i < rows@.len() implies (#[trigger] rows@[i]) < n by {
                a_shown_row_is_there(snapshot.explorer@, self@.filter_text(), i);
            }
        }
        rows
    }

    /// The node a visible row points at.
    pub fn visible_node<'a>(&self, snapshot: &'a Snapshot, row: usize) -> (r: Option<
        &'a VisibleNode,
    >)
        ensures
            match r {
                Some(node) => self@.node_at(*snapshot, row as int) == Some(*node),
                None => self@.node_at(*snapshot, row as int) is None,
            },
    {
        let rows: Vec<usize> = self.visible_rows(snapshot);
        if row < rows.len() {
            Some(&snapshot.explorer[rows[row]])
        } else {
            None
        }
    }

    fn select_tree_row(&mut self, index: usize, snapshot: &Snapshot)
        ensures
            final(self)@ == old(self)@.tree_row_selected(index as int, *snapshot),
    {
        let len: usize = self.visible_rows(snapshot).len();
        if len == 0 {
            self.tree.selected = None;
            return;
        }
        let at: usize = min_usize(index, len - 1);
        self.tree.selected = Some(at);
        // Keep the selection on screen, which is the whole reason selection and
        // scrolling are not independent.
        self.tree.offset = scroll_into_view(self.tree.offset, at, self.page(PaneId::Explorer));
    }

    fn move_tree_selection(&mut self, delta: i32, snapshot: &Snapshot)
        ensures
            final(self)@ == old(self)@.tree_moved(delta as int, *snapshot),
    {
        // A first press with nothing selected lands on row zero rather than on
        // row one.
        let to: usize = match self.tree.selected {
            Some(from) => step(from, delta),
            None => 0,
        };
        self.select_tree_row(to, snapshot);
    }

    /// Set the filter, keeping the same *node* selected rather than the same
    /// row number.
    ///
    /// Filtering renumbers every row under the first one it removes, so a
    /// selection left where it was would slide onto something the user never
    /// pointed at — and then `Enter` opens it. When the selected node is
    /// filtered out there is nothing to follow, and the first row is where a
    /// search leaves you anyway.
    fn set_filter(&mut self, filter: Option<Filter>, snapshot: &Snapshot)
        ensures
            final(self)@ == old(self)@.filtered(some_filter(filter), *snapshot),
    {
        let was: Option<&VisibleNode> = match self.tree.selected {
            Some(row) => self.visible_node(snapshot, row),
            None => None,
        };
        self.filter = filter;
        let to: usize = match was {
            Some(node) => {
                let rows: Vec<usize> = self.visible_rows(snapshot);
                match row_of_node(&rows, node, snapshot) {
                    Some(row) => row,
                    None => 0,
                }
            },
            None => 0,
        };
        self.select_tree_row(to, snapshot);
    }

    // ── the grid ───────────────────────────────────────────────────────────

    fn content_rows(
        &self,
        pane: PaneId,
        snapshot: &Snapshot,
        rows: &Option<Arc<PagedResult>>,
    ) -> (r: usize)
        ensures
            r == self@.content_rows(pane, *snapshot, some_rows(*rows)),
    {
        match pane {
            PaneId::Explorer => self.visible_rows(snapshot).len(),
            // A SQL tab reuses the grid pane's offset rather than keeping one
            // of its own, so `j`, `PageDown` and `G` all work in it with
            // nothing added — only the count of what is being scrolled
            // through differs. The definition tab's statement is drawn by the
            // same text renderer and so is measured the same way: its section
            // has no rows at all, and counting those would pin it to the first
            // screenful.
            PaneId::Grid => if self.active_sql().is_some() || self.statement_shown(snapshot) {
                self.sql_lines
            } else {
                match rows {
                    Some(rows) => rows.row_count(),
                    None => 0,
                }
            },
            PaneId::Detail => self.detail_rows,
            PaneId::TabBar | PaneId::StatusBar => 0,
        }
    }

    /// How far the pane can be scrolled: content beyond one screenful.
    fn scrollable(
        &self,
        pane: PaneId,
        snapshot: &Snapshot,
        rows: &Option<Arc<PagedResult>>,
    ) -> (r: usize)
        ensures
            r == self@.scrollable(pane, *snapshot, some_rows(*rows)),
    {
        self.content_rows(pane, snapshot, rows).saturating_sub(self.page(pane))
    }

    fn set_offset(
        &mut self,
        pane: PaneId,
        to: usize,
        snapshot: &Snapshot,
        rows: &Option<Arc<PagedResult>>,
    )
        ensures
            final(self)@ == old(self)@.scrolled(pane, to as int, *snapshot, some_rows(*rows)),
    {
        let clamped: usize = min_usize(to, self.scrollable(pane, snapshot, rows));
        match pane {
            PaneId::Explorer => {
                self.tree.offset = clamped;
            },
            PaneId::Grid => {
                if let Some(id) = self.active_tab {
                    let grid: &mut GridUi = self.grid_mut(id);
                    grid.row_offset = clamped;
                }
            },
            PaneId::Detail => {
                self.detail_offset = clamped;
            },
            PaneId::TabBar | PaneId::StatusBar => {},
        }
    }

    /// Whether this move should fetch, and the action if so.
    ///
    /// Only reached from a move somebody made. A predicate the render loop
    /// checked each frame would fetch on its own: a page goes down to a single
    /// row, so a viewport taller than a page is still "near the end" the moment
    /// the page lands, and a relation would walk itself to the end with nobody
    /// touching the wheel.
    pub fn wants_a_page(&mut self, pane: PaneId, snapshot: &Snapshot) -> (r: Option<Action>)
        ensures
            (final(self)@, some_action(r)) == old(self)@.paged(pane, *snapshot),
    {
        proof {
            reveal(UiView::paged);
        }
        if pane != PaneId::Grid {
            return None;
        }
        let preview: &PreviewView = match self.active_preview(snapshot) {
            Some(preview) => preview,
            None => return None,
        };
        // A first page still in flight is not something to hurry along, and its
        // `loaded_rows` of zero would otherwise read as "at the end".
        if preview.data.ready().is_none() {
            return None;
        }
        // The relation's end is the store's answer, not an inference from a
        // request that changed nothing — which is also what a cancelled page
        // and a repeat of the same failure leave behind.
        if preview.exhausted {
            return None;
        }
        let reached: u128 = self.offset(PaneId::Grid) as u128 + self.page(PaneId::Grid) as u128
            + LOAD_MARGIN_ROWS as u128;
        if reached < preview.loaded_rows as u128 {
            return None;
        }
        let (id, conn, table): (TabId, ConnId, TableRef) = match self.current() {
            Some(tab) => match tab.table() {
                Some(table) => (tab.id, tab.conn, table.clone()),
                None => return None,
            },
            None => return None,
        };
        let attempts: u64 = preview.attempts;
        let grid: &mut GridUi = self.grid_mut(id);
        let asked: bool = match grid.asked_after {
            Some(n) => n == attempts,
            None => false,
        };
        if asked {
            return None;
        }
        grid.asked_after = Some(attempts);
        Some(Action::LoadMore { conn, table })
    }

    fn clear_anchor(&mut self)
        ensures
            final(self)@ == old(self)@.unanchored(),
    {
        if let Some(id) = self.active_tab {
            let grid: &mut GridUi = self.grid_mut(id);
            grid.anchor = None;
        }
    }

    /// Start a selection at the cursor if there is not one already.
    ///
    /// The ordering is recorded with it, so a sort — which fetches page one
    /// again under a different order — leaves an anchor that no longer names
    /// the row it was put on. `selection` reads it as absent, and so does this:
    /// the next selection starts from the cursor.
    fn anchor_here(&mut self, snapshot: &Snapshot)
        ensures
            final(self)@ == old(self)@.anchored(*snapshot),
    {
        let sort: Option<Sort> = self.active_sort(snapshot);
        if let Some(id) = self.active_tab {
            let grid: &mut GridUi = self.grid_mut(id);
            let held: bool = match grid.anchor {
                Some((_, made_under)) => same_sort(made_under, sort),
                None => false,
            };
            if !held {
                grid.anchor = Some(((grid.row, grid.col), sort));
            }
        }
    }

    fn cursor(&self) -> (r: (usize, usize))
        ensures
            r.0 == self@.cursor().0,
            r.1 == self@.cursor().1,
    {
        match self.active_grid() {
            Some(grid) => (grid.row, grid.col),
            None => (0, 0),
        }
    }

    /// Lay the grid of the tab in front out for its rows.
    fn lay_grid(&mut self, rows: &Option<Arc<PagedResult>>)
        ensures
            final(self)@ == old(self)@.laid_grid(some_rows(*rows)),
    {
        if let Some(rows) = rows {
            if let Some(id) = self.active_tab {
                let grid: &mut GridUi = self.grid_mut(id);
                let laid: &RenderedGrid = grid.grid(rows);
            }
        }
    }

    fn select_cell(&mut self, row: usize, col: usize, rows: &Option<Arc<PagedResult>>)
        ensures
            final(self)@ == old(self)@.cell_selected(row as int, col as int, some_rows(*rows)),
    {
        proof {
            reveal(UiView::cell_selected);
        }
        let (high, wide): (usize, usize) = match rows {
            Some(rows) => (rows.row_count(), rows.column_count()),
            None => return,
        };
        if high == 0 || wide == 0 {
            return;
        }
        let at: (usize, usize) = (min_usize(row, high - 1), min_usize(col, wide - 1));
        let page: usize = self.page(PaneId::Grid);
        let available: usize = self.viewport(PaneId::Grid).width as usize;
        // Before a frame has been drawn nothing is known about what fits.
        // Scrolling on a guess would push the first columns off the screen
        // before the screen exists.
        if available > 0 {
            self.lay_grid(rows);
        }
        if let Some(id) = self.active_tab {
            let grid: &mut GridUi = self.grid_mut(id);
            let left: usize = if available == 0 {
                0
            } else {
                leftmost_visible(grid, at.1, available)
            };
            grid.row = at.0;
            grid.col = at.1;
            grid.row_offset = scroll_into_view(grid.row_offset, at.0, page);
            // Left of the offset the cursor is scrolled back to; right of the
            // last column that fits, forward to. Leaving the second one out
            // walks the cursor off the edge and nothing follows it.
            grid.col_offset = max_usize(min_usize(grid.col_offset, at.1), left);
        }
    }

    /// The sequence the render loop should write, if there is one.
    pub fn take_copy(&mut self) -> (r: Option<String>)
        ensures
            some_text(r) == old(self)@.pending_copy,
            final(self)@ == (UiView { pending_copy: None, ..old(self)@ }),
    {
        self.pending_copy.take()
    }

    /// Put the selection — or the whole result — on the clipboard.
    ///
    /// What is reported afterwards is what was *sent*. OSC 52 has no reply, and
    /// a terminal with clipboard writes turned off — tmux without
    /// `set-clipboard on` is the common one — swallows the sequence silently,
    /// so a message saying "copied" would be a claim this cannot check.
    fn copy(
        &mut self,
        format: Format,
        all: bool,
        snapshot: &Snapshot,
        rows: &Option<Arc<PagedResult>>,
    )
        requires
            old(self)@.next_toast < u64::MAX,
        ensures
            final(self)@ == old(self)@.copied(format, all, *snapshot, some_rows(*rows)),
    {
        let rows: &Arc<PagedResult> = match rows {
            Some(rows) => rows,
            None => return,
        };
        let sort: Option<Sort> = self.active_sort(snapshot);
        let asked: Area = if all {
            (
                0,
                0,
                rows.row_count().saturating_sub(1),
                rows.column_count().saturating_sub(1),
            )
        } else {
            match self.active_grid() {
                Some(grid) => grid.selection(sort),
                None => return,
            }
        };
        // Counted from the rectangle that is there rather than the one asked
        // for: a selection outlives a result that shrank under it, and the
        // count is what the message claims was sent.
        let area: Area = match clamped(rows, asked) {
            Some(area) => area,
            None => {
                self.push_toast(Severity::Info, copy_of("nothing to copy"));
                return;
            },
        };
        let text: String = render(rows, format, area);
        let high: u128 = (area.2 - area.0) as u128 + 1;
        let wide: u128 = (area.3 - area.1) as u128 + 1;
        let n: usize = rows.row_count();
        let m: usize = rows.column_count();
        proof {
            assert(high <= n && wide <= m);
            assert(high * wide <= u64::MAX * u64::MAX) by (nonlinear_arith)
                requires
                    high <= u64::MAX,
                    wide <= u64::MAX,
            ;
        }
        let cells: u128 = high * wide;
        match sequence(text.as_str()) {
            Ok(sequence) => {
                self.pending_copy = Some(sequence);
                let mut said: String = copy_of("sent ");
                push_decimal(&mut said, cells);
                push_all(&mut said, " cells to the clipboard");
                self.push_toast(Severity::Info, said);
            },
            Err(Refused::Empty) => {
                self.push_toast(Severity::Info, copy_of("nothing to copy"));
            },
            // Refused rather than sent: a sequence past the terminal's limit is
            // dropped whole, so sending it would report a copy that never
            // happened.
            Err(Refused::TooLarge { bytes }) => {
                let mut said: String = String::new();
                push_decimal(&mut said, cells);
                push_all(&mut said, " cells is ");
                push_decimal(&mut said, (bytes / 1024) as u128);
                push_all(&mut said, "KB, past what a terminal takes in one go — select fewer");
                self.push_toast(Severity::Warning, said);
            },
        }
    }

    // ── commands ───────────────────────────────────────────────────────────

    /// Move or set which section of the open definition is drawn.
    ///
    /// Clamped to what the definition actually has, and to nothing at all
    /// while it is still loading: a section index that outran the list would
    /// draw an empty grid under a title that is not there.
    fn select_section(&mut self, pick: SectionPick, snapshot: &Snapshot)
        ensures
            final(self)@ == old(self)@.section_selected(pick, *snapshot),
    {
        let ghost before = self@;
        let last: usize = match self.definition(snapshot) {
            Some(definition) => section_count(definition).saturating_sub(1),
            None => 0,
        };
        let id: TabId = match self.active_tab {
            Some(id) => id,
            None => return,
        };
        let at: usize = match self.tab_position(id) {
            Some(at) => at,
            None => return,
        };
        let content: TabContent = match &self.tabs[at].content {
            TabContent::Definition { table, section } => TabContent::Definition {
                table: table.clone(),
                section: match pick {
                    SectionPick::At(to) => min_usize(to, last),
                    SectionPick::By(delta) => min_usize(step(*section, delta), last),
                },
            },
            _ => return,
        };
        self.set_content(at, content);
        // The new section is a different grid, so the cursor and the scroll
        // that belonged to the old one do not mean anything in it.
        self.grids.remove(&id.0);
        proof {
            assert(self@.grids =~= before.grids.remove(id.0));
        }
    }

    /// A relation already open is raised, not duplicated.
    fn open_preview(&mut self, conn: ConnId, table: TableRef)
        requires
            old(self)@.next_tab < u32::MAX,
        ensures
            final(self)@ == old(self)@.raised(
                tab_previews(conn, table@),
                conn,
                ContentView::Preview(table),
            ),
    {
        let wanted = |t: &OpenTab| -> (b: bool)
            ensures b == tab_previews(conn, table@)(t@)
        {
            t.conn == conn && match t.table() {
                Some(held) => held.same(&table),
                None => false,
            }
        };
        match position_by_view(&self.tabs, wanted, Ghost(tab_previews(conn, table@))) {
            Some(i) => {
                self.active_tab = Some(self.tabs[i].id);
            },
            None => self.open(conn, TabContent::Preview(table)),
        }
    }

    /// Raised rather than duplicated, the same way a preview is: one definition
    /// of one relation is all there is to look at.
    fn open_definition(&mut self, conn: ConnId, table: TableRef)
        requires
            old(self)@.next_tab < u32::MAX,
        ensures
            final(self)@ == old(self)@.raised(
                tab_defines(conn, table@),
                conn,
                (ContentView::Definition { table, section: 0 }),
            ),
    {
        let wanted = |t: &OpenTab| -> (b: bool)
            ensures b == tab_defines(conn, table@)(t@)
        {
            t.conn == conn && match t.defines() {
                Some(held) => held.same(&table),
                None => false,
            }
        };
        match position_by_view(&self.tabs, wanted, Ghost(tab_defines(conn, table@))) {
            Some(i) => {
                self.active_tab = Some(self.tabs[i].id);
            },
            None => self.open(conn, TabContent::Definition { table, section: 0 }),
        }
    }

    /// The history of a connection, raised or opened, and read again.
    fn open_history(&mut self, conn: ConnId) -> (r: Option<Action>)
        requires
            old(self)@.next_tab < u32::MAX,
        ensures
            (final(self)@, some_action(r)) == old(self)@.history_opened(conn),
    {
        let wanted = |t: &OpenTab| -> (b: bool)
            ensures b == tab_searches(conn)(t@)
        { t.conn == conn && t.searches().is_some() };
        match position_by_view(&self.tabs, wanted, Ghost(tab_searches(conn))) {
            Some(i) => {
                self.active_tab = Some(self.tabs[i].id);
                match self.tabs[i].searches() {
                    Some(filter) => Some(Action::LoadHistory { terms: filter.text.clone() }),
                    None => None,
                }
            },
            None => {
                self.open(conn, TabContent::History { filter: Filter::opening() });
                Some(Action::LoadHistory { terms: String::new() })
            },
        }
    }

    /// Search the history in front for something else.
    fn search_history(&mut self, filter: Option<Filter>) -> (r: Option<Action>)
        ensures
            (final(self)@, some_action(r)) == old(self)@.history_searched(some_filter(filter)),
    {
        let next: Filter = match filter {
            Some(filter) => filter,
            None => Filter { text: String::new(), editing: false },
        };
        let id: TabId = match self.active_tab {
            Some(id) => id,
            None => return None,
        };
        let at: usize = match self.tab_position(id) {
            Some(at) => at,
            None => return None,
        };
        if self.tabs[at].searches().is_none() {
            return None;
        }
        let terms: String = next.text.clone();
        self.set_content(at, TabContent::History { filter: next });
        Some(Action::LoadHistory { terms })
    }

    /// Put the statement of a past run where it can be run.
    fn reuse_run(&mut self, run: RunId, snapshot: &Snapshot)
        requires
            old(self)@.room(),
        ensures
            final(self)@ == match UiView::past_run(*snapshot, run) {
                Some(entry) => old(self)@.inserted(entry.sql@, *snapshot),
                None => old(self)@,
            },
    {
        if let LoadState::Ready(entries) = &snapshot.history.data {
            let wanted = |e: &HistoryEntry| -> (b: bool)
                ensures b == run_is(run)(*e)
            { e.id == run };
            if let Some(entry) = find(entries, wanted, Ghost(run_is(run))) {
                self.insert(entry.sql.clone(), snapshot);
            }
        }
    }

    fn resize_column(&mut self, col: usize, delta: i16, rows: &Option<Arc<PagedResult>>)
        ensures
            final(self)@ == ({
                let laid = old(self)@.laid_grid(some_rows(*rows));
                let natural = if some_rows(*rows) is Some {
                    natural_width(laid.own_grid(), col as int)
                } else {
                    0
                };
                laid.regrid(laid.own_grid().resized(col, delta as int, natural))
            }),
    {
        self.lay_grid(rows);
        if let Some(id) = self.active_tab {
            let grid: &mut GridUi = self.grid_mut(id);
            let natural: u16 = if rows.is_some() {
                natural_of(grid, col)
            } else {
                0
            };
            grid.resize(col, delta, natural);
        }
    }

    /// Apply a view command, synchronously and without touching the store.
    ///
    /// Returns the one action a view command can cause: moving towards the end
    /// of a preview asks for the next page. It stays a return value rather than
    /// a dispatch from in here so that this type still has no way to reach the
    /// store, and so the caller can see which commands fetch.
    pub fn apply(&mut self, cmd: ViewCmd, snapshot: &Snapshot) -> (r: Option<Action>)
        requires
            old(self)@.room(),
        ensures
            exists|rows: Option<PagedResult>|
                old(self)@.follows(cmd@, *snapshot, rows, final(self)@, some_action(r)),
    {
        let ghost before = self@;
        let rows: Option<Arc<PagedResult>> = if uses_rows(&cmd) {
            self.rows_of(snapshot)
        } else {
            None
        };
        let ghost said = cmd@;
        let r: Option<Action> = self.apply_to(cmd, snapshot, &rows);
        proof {
            assert(before.follows(said, *snapshot, some_rows(rows), self@, some_action(r)));
        }
        r
    }

    fn apply_to(
        &mut self,
        cmd: ViewCmd,
        snapshot: &Snapshot,
        rows: &Option<Arc<PagedResult>>,
    ) -> (r: Option<Action>)
        requires
            old(self)@.room(),
        ensures
            (final(self)@, some_action(r)) == old(self)@.applied(
                cmd@,
                *snapshot,
                some_rows(*rows),
            ),
    {
        match part_of(&cmd) {
            Part::Scrolling => self.scroll(cmd, snapshot, rows),
            Part::Selecting => self.select(cmd, snapshot, rows),
            Part::Opening => self.open_or_raise(cmd, snapshot, rows),
            Part::Tabs => self.turn(cmd, snapshot, rows),
            Part::Templates => self.use_palette(cmd, snapshot, rows),
            Part::Frame => {
                self.arrange(cmd, snapshot, rows);
                None
            },
        }
    }

    fn scroll_to(
        &mut self,
        pane: PaneId,
        to: usize,
        snapshot: &Snapshot,
        rows: &Option<Arc<PagedResult>>,
    ) -> (r: Option<Action>)
        ensures
            (final(self)@, some_action(r)) == old(self)@.scrolled(
                pane,
                to as int,
                *snapshot,
                some_rows(*rows),
            ).paged(pane, *snapshot),
    {
        self.set_offset(pane, to, snapshot, rows);
        self.wants_a_page(pane, snapshot)
    }

    /// Put the cursor on a cell.
    ///
    /// It drags the viewport along with it, so `J` reaches the last loaded row
    /// exactly as a scroll does. Left out, the whole feature is missing from
    /// the keyboard.
    fn cursor_to(
        &mut self,
        extending: bool,
        row: usize,
        col: usize,
        snapshot: &Snapshot,
        rows: &Option<Arc<PagedResult>>,
    ) -> (r: Option<Action>)
        ensures
            (final(self)@, some_action(r)) == (if extending {
                old(self)@.anchored(*snapshot)
            } else {
                old(self)@.unanchored()
            }).cell_selected(row as int, col as int, some_rows(*rows)).paged(
                PaneId::Grid,
                *snapshot,
            ),
    {
        if extending {
            self.anchor_here(snapshot);
        } else {
            self.clear_anchor();
        }
        self.select_cell(row, col, rows);
        self.wants_a_page(PaneId::Grid, snapshot)
    }

    /// Move a grid by columns.
    fn scroll_sideways(&mut self, delta: i32, rows: &Option<Arc<PagedResult>>)
        ensures
            final(self)@ == old(self)@.regrid(
                GridView {
                    col_offset: least(
                        stepped(old(self)@.own_grid().col_offset as int, delta as int),
                        less(column_total(some_rows(*rows)), 1),
                    ) as usize,
                    ..old(self)@.own_grid()
                },
            ),
    {
        let columns: usize = match rows {
            Some(rows) => rows.column_count(),
            None => 0,
        };
        if let Some(id) = self.active_tab {
            let grid: &mut GridUi = self.grid_mut(id);
            grid.col_offset = min_usize(step(grid.col_offset, delta), columns.saturating_sub(1));
        }
    }

    /// A move of what a pane shows.
    #[verifier::spinoff_prover]
    fn scroll(
        &mut self,
        cmd: ViewCmd,
        snapshot: &Snapshot,
        rows: &Option<Arc<PagedResult>>,
    ) -> (r: Option<Action>)
        requires
            part(cmd) is Scrolling,
        ensures
            (final(self)@, some_action(r)) == old(self)@.applied(
                cmd@,
                *snapshot,
                some_rows(*rows),
            ),
    {
        match cmd {
            ViewCmd::ScrollBy { pane, delta } => {
                let to: usize = step(self.offset(pane), delta);
                return self.scroll_to(pane, to, snapshot, rows);
            },
            ViewCmd::ScrollToRatio { pane, permille } => {
                let span: usize = self.scrollable(pane, snapshot, rows);
                return self.scroll_to(pane, share_of(span, permille), snapshot, rows);
            },
            ViewCmd::ScrollToStart(pane) => self.set_offset(pane, 0, snapshot, rows),
            ViewCmd::ScrollToEnd(pane) => {
                return self.scroll_to(pane, usize::MAX, snapshot, rows);
            },
            ViewCmd::ScrollXBy { delta } => self.scroll_sideways(delta, rows),
            _ => {},
        }
        None
    }

    /// A move of what is selected in a pane.
    #[verifier::spinoff_prover]
    fn select(
        &mut self,
        cmd: ViewCmd,
        snapshot: &Snapshot,
        rows: &Option<Arc<PagedResult>>,
    ) -> (r: Option<Action>)
        requires
            part(cmd) is Selecting,
        ensures
            (final(self)@, some_action(r)) == old(self)@.applied(
                cmd@,
                *snapshot,
                some_rows(*rows),
            ),
    {
        match cmd {
            ViewCmd::SetFilter(filter) => self.set_filter(filter, snapshot),
            ViewCmd::SelectTreeRow(index) => self.select_tree_row(index, snapshot),
            ViewCmd::MoveTreeSelection(delta) => self.move_tree_selection(delta, snapshot),
            // Moving the cursor ends a selection; extending it keeps the
            // anchor. That is the whole difference between the two pairs.
            ViewCmd::SelectCell { row, col } => {
                return self.cursor_to(false, row, col, snapshot, rows);
            },
            ViewCmd::MoveCellSelection { drow, dcol } => {
                let (row, col) = self.cursor();
                return self.cursor_to(false, step(row, drow), step(col, dcol), snapshot, rows);
            },
            ViewCmd::ExtendCellSelection { drow, dcol } => {
                let (row, col) = self.cursor();
                return self.cursor_to(true, step(row, drow), step(col, dcol), snapshot, rows);
            },
            ViewCmd::ExtendCellSelectionTo { row, col } => {
                return self.cursor_to(true, row, col, snapshot, rows);
            },
            ViewCmd::ResizeColumn { col, delta } => self.resize_column(col, delta, rows),
            _ => {},
        }
        None
    }

    /// A tab opened, or turned to where it is open already.
    #[verifier::spinoff_prover]
    fn open_or_raise(
        &mut self,
        cmd: ViewCmd,
        snapshot: &Snapshot,
        rows: &Option<Arc<PagedResult>>,
    ) -> (r: Option<Action>)
        requires
            old(self)@.room(),
            part(cmd) is Opening,
        ensures
            (final(self)@, some_action(r)) == old(self)@.applied(
                cmd@,
                *snapshot,
                some_rows(*rows),
            ),
    {
        match cmd {
            ViewCmd::OpenTab { conn, table } => self.open_preview(conn, table),
            ViewCmd::OpenDefinition { conn, table } => self.open_definition(conn, table),
            // Never raised onto an existing one, unlike a preview: two SQL
            // tabs on one connection are two different questions, and there is
            // nothing to match them on anyway.
            ViewCmd::OpenSqlTab { conn } => self.open_sql(conn),
            ViewCmd::OpenHistoryTab { conn } => return self.open_history(conn),
            _ => {},
        }
        None
    }

    fn select_tab(&mut self, id: TabId)
        ensures
            final(self)@ == (if old(self)@.tab(id) is Some {
                UiView { active_tab: Some(id), ..old(self)@ }
            } else {
                old(self)@
            }),
    {
        if self.tab_position(id).is_some() {
            self.active_tab = Some(id);
        }
    }

    /// Which tab is in front, and what is in it.
    #[verifier::spinoff_prover]
    fn turn(
        &mut self,
        cmd: ViewCmd,
        snapshot: &Snapshot,
        rows: &Option<Arc<PagedResult>>,
    ) -> (r: Option<Action>)
        requires
            old(self)@.room(),
            part(cmd) is Tabs,
        ensures
            (final(self)@, some_action(r)) == old(self)@.applied(
                cmd@,
                *snapshot,
                some_rows(*rows),
            ),
    {
        match cmd {
            ViewCmd::SelectSection(pick) => self.select_section(pick, snapshot),
            ViewCmd::SetHistoryTerms(filter) => return self.search_history(filter),
            ViewCmd::ReuseRun(run) => self.reuse_run(run, snapshot),
            ViewCmd::SelectTab(id) => self.select_tab(id),
            ViewCmd::CloseTab(id) => self.close(id),
            _ => {},
        }
        None
    }

    /// Ask whether a saved statement is to go.
    fn ask_to_delete(&mut self, id: TemplateId, name: &str)
        ensures
            final(self)@ == (UiView {
                palette: None,
                modal: Some(
                    ModalView::question(
                        "Delete `"@ + name@ + "`?"@,
                        "It is not kept anywhere else."@,
                        "Delete"@,
                        IntentView::App(ActionView::Plain(Action::DeleteTemplate(id))),
                    ),
                ),
                ..old(self)@
            }),
    {
        // The palette goes first: the dialog is drawn over everything, and a
        // list still underneath it is a list the answer is about to change.
        self.palette = None;
        let mut title: String = copy_of("Delete `");
        push_all(&mut title, name);
        push_all(&mut title, "`?");
        self.modal = Some(
            Modal::asking_one(
                title.as_str(),
                "It is not kept anywhere else.",
                "Delete",
                Intent::App(Action::DeleteTemplate(id)),
            ),
        );
    }

    /// The palette, and the saved statements in it.
    #[verifier::spinoff_prover]
    fn use_palette(
        &mut self,
        cmd: ViewCmd,
        snapshot: &Snapshot,
        rows: &Option<Arc<PagedResult>>,
    ) -> (r: Option<Action>)
        requires
            old(self)@.room(),
            part(cmd) is Templates,
        ensures
            (final(self)@, some_action(r)) == old(self)@.applied(
                cmd@,
                *snapshot,
                some_rows(*rows),
            ),
    {
        match cmd {
            ViewCmd::Palette(open) => {
                let asked_for: bool = open.is_some();
                self.palette = open;
                // Reading them is what opening it means. Asked for here rather
                // than by the key, so that every way of opening the palette —
                // to use one, to save one — reads the list without each of
                // them having to remember to.
                if asked_for {
                    return Some(Action::LoadTemplates);
                }
            },
            ViewCmd::CommitTemplate => return self.commit_template(snapshot),
            ViewCmd::UseTemplate(id) => {
                return match snapshot.template(id) {
                    Some(template) => Some(
                        Action::ReadTemplate {
                            id,
                            body: template.body.clone(),
                            dialect: self.dialect(snapshot),
                        },
                    ),
                    None => None,
                };
            },
            ViewCmd::SubmitTemplate => return self.submit_template(snapshot),
            ViewCmd::ConfirmDeleteTemplate { id, name } => self.ask_to_delete(id, name.as_str()),
            _ => {},
        }
        None
    }

    /// Move the splitter, as far as its number goes.
    fn move_split(&mut self, delta: i16)
        ensures
            final(self)@ == (UiView {
                explorer_width: Some(
                    most(
                        least(
                            old(self)@.explorer_share(old(self)@.screen.width) + delta,
                            u16::MAX as int,
                        ),
                        0,
                    ) as u16,
                ),
                ..old(self)@
            }),
    {
        let current: i32 = self.explorer_width(self.screen.width) as i32;
        let wanted: i32 = current + delta as i32;
        self.explorer_width = Some(
            if wanted < 0 {
                0
            } else if wanted > 65_535 {
                65_535
            } else {
                wanted as u16
            },
        );
    }

    fn open_menu(&mut self, at: Option<(u16, u16)>, ranged: bool)
        ensures
            final(self)@ == (UiView {
                menu: Some(
                    grid_menu(
                        match at {
                            Some(at) => at,
                            None => (old(self)@.viewports.grid.x, old(self)@.viewports.grid.y),
                        },
                        ranged,
                    ),
                ),
                ..old(self)@
            }),
    {
        // A gesture with no coordinates gets the top-left of the grid, which is
        // at least inside the pane the menu is about. The screen origin would
        // put it over the tab bar.
        let corner: (u16, u16) = match at {
            Some(at) => at,
            None => {
                let grid: Rect = self.viewport(PaneId::Grid);
                (grid.x, grid.y)
            },
        };
        self.menu = Some(Menu::for_grid(corner, ranged));
    }

    fn dismiss_toast(&mut self, id: ToastId)
        ensures
            final(self)@ == (UiView {
                toasts: old(self)@.toasts.filter(toast_is_not(id)),
                ..old(self)@
            }),
    {
        let kept = |t: &Toast| -> (b: bool)
            ensures b == toast_is_not(id)(t@)
        { t.id != id };
        retain(&mut self.toasts, kept, Ghost(toast_is_not(id)));
    }

    /// What is around the panes and over them, and where it is. None of it is
    /// the store's to know.
    #[verifier::spinoff_prover]
    fn arrange(&mut self, cmd: ViewCmd, snapshot: &Snapshot, rows: &Option<Arc<PagedResult>>)
        requires
            old(self)@.room(),
            part(cmd) is Frame,
        ensures
            (final(self)@, None::<ActionView>) == old(self)@.applied(
                cmd@,
                *snapshot,
                some_rows(*rows),
            ),
    {
        match cmd {
            ViewCmd::FocusPane(pane) => {
                self.focus = pane;
            },
            ViewCmd::FocusNextPane | ViewCmd::FocusPrevPane => {
                self.focus = match self.focus {
                    PaneId::Explorer => PaneId::Grid,
                    _ => PaneId::Explorer,
                };
            },
            ViewCmd::MoveSplit { split: SplitId::Explorer, delta } => self.move_split(delta),
            ViewCmd::EvenSplit(SplitId::Explorer) => {
                self.explorer_width = None;
            },
            ViewCmd::OpenMenu { at, ranged } => self.open_menu(at, ranged),
            ViewCmd::CloseMenu => {
                self.menu = None;
            },
            ViewCmd::ToggleDetail => self.toggle_detail(),
            ViewCmd::Copy { format, all } => self.copy(format, all, snapshot, rows),
            ViewCmd::DismissModal => {
                self.modal = None;
            },
            ViewCmd::DismissToast(id) => self.dismiss_toast(id),
            _ => {},
        }
    }
}

/// What a command is about.
enum Part {
    /// What a pane shows.
    Scrolling,
    /// What is selected in it.
    Selecting,
    /// What is to be open.
    Opening,
    /// What is open already.
    Tabs,
    /// The saved statements.
    Templates,
    /// What is around the panes, and over them.
    Frame,
}

spec fn part(cmd: ViewCmd) -> Part {
    match cmd {
        ViewCmd::ScrollBy { .. } | ViewCmd::ScrollToRatio { .. } | ViewCmd::ScrollToStart(_)
        | ViewCmd::ScrollToEnd(_) | ViewCmd::ScrollXBy { .. } => Part::Scrolling,
        ViewCmd::SetFilter(_) | ViewCmd::SelectTreeRow(_) | ViewCmd::MoveTreeSelection(_)
        | ViewCmd::SelectCell { .. } | ViewCmd::MoveCellSelection { .. }
        | ViewCmd::ExtendCellSelection { .. } | ViewCmd::ExtendCellSelectionTo { .. }
        | ViewCmd::ResizeColumn { .. } => Part::Selecting,
        ViewCmd::OpenTab { .. } | ViewCmd::OpenDefinition { .. } | ViewCmd::OpenSqlTab { .. }
        | ViewCmd::OpenHistoryTab { .. } => Part::Opening,
        ViewCmd::SelectSection(_) | ViewCmd::SetHistoryTerms(_) | ViewCmd::ReuseRun(_)
        | ViewCmd::SelectTab(_) | ViewCmd::CloseTab(_) => Part::Tabs,
        ViewCmd::Palette(_) | ViewCmd::CommitTemplate | ViewCmd::UseTemplate(_)
        | ViewCmd::SubmitTemplate | ViewCmd::ConfirmDeleteTemplate { .. } => Part::Templates,
        _ => Part::Frame,
    }
}

fn part_of(cmd: &ViewCmd) -> (r: Part)
    ensures
        r == part(*cmd),
{
    match cmd {
        ViewCmd::ScrollBy { .. } | ViewCmd::ScrollToRatio { .. } | ViewCmd::ScrollToStart(_)
        | ViewCmd::ScrollToEnd(_) | ViewCmd::ScrollXBy { .. } => Part::Scrolling,
        ViewCmd::SetFilter(_) | ViewCmd::SelectTreeRow(_) | ViewCmd::MoveTreeSelection(_)
        | ViewCmd::SelectCell { .. } | ViewCmd::MoveCellSelection { .. }
        | ViewCmd::ExtendCellSelection { .. } | ViewCmd::ExtendCellSelectionTo { .. }
        | ViewCmd::ResizeColumn { .. } => Part::Selecting,
        ViewCmd::OpenTab { .. } | ViewCmd::OpenDefinition { .. } | ViewCmd::OpenSqlTab { .. }
        | ViewCmd::OpenHistoryTab { .. } => Part::Opening,
        ViewCmd::SelectSection(_) | ViewCmd::SetHistoryTerms(_) | ViewCmd::ReuseRun(_)
        | ViewCmd::SelectTab(_) | ViewCmd::CloseTab(_) => Part::Tabs,
        ViewCmd::Palette(_) | ViewCmd::CommitTemplate | ViewCmd::UseTemplate(_)
        | ViewCmd::SubmitTemplate | ViewCmd::ConfirmDeleteTemplate { .. } => Part::Templates,
        _ => Part::Frame,
    }
}

/// Whether what a command does depends on the rows of the tab in front.
fn uses_rows(cmd: &ViewCmd) -> (b: bool)
    ensures
        b == UiView::uses_rows(cmd@),
{
    match cmd {
        ViewCmd::ScrollBy { pane, .. } | ViewCmd::ScrollToRatio { pane, .. } => *pane
            == PaneId::Grid,
        ViewCmd::ScrollToEnd(pane) => *pane == PaneId::Grid,
        ViewCmd::ScrollXBy { .. } | ViewCmd::SelectCell { .. } | ViewCmd::MoveCellSelection { .. }
        | ViewCmd::ExtendCellSelection { .. } | ViewCmd::ExtendCellSelectionTo { .. }
        | ViewCmd::ResizeColumn { .. } | ViewCmd::Copy { .. } => true,
        _ => false,
    }
}

/// A fraction of the way down.
fn share_of(span: usize, permille: u16) -> (r: usize)
    ensures
        r == span * least(permille as int, 1000) / 1000,
{
    let share: u128 = min_u16(permille, 1000) as u128;
    proof {
        assert(span * share <= span * 1000) by (nonlinear_arith)
            requires
                share <= 1000,
        ;
        assert(span * share / 1000 <= span) by (nonlinear_arith)
            requires
                span * share <= span * 1000,
        ;
    }
    (span as u128 * share / 1000) as usize
}

/// How wide a column of a grid would be left to itself.
fn natural_of(grid: &GridUi, col: usize) -> (r: u16)
    ensures
        r == natural_width(grid@, col as int),
{
    match &grid.grid {
        Some(laid) => {
            let columns: &Vec<RenderedColumn> = laid.columns();
            if col < columns.len() {
                proof {
                    assert(looks(columns@)[col as int] == columns@[col as int]@);
                }
                columns[col].natural_width
            } else {
                0
            }
        },
        None => 0,
    }
}

/// The furthest left the grid can be scrolled while `col` is still drawn.
fn leftmost_visible(grid: &GridUi, col: usize, available: usize) -> (r: usize)
    requires
        available <= u16::MAX,
    ensures
        r == leftmost(grid@, col as int, col as int, 0, available as int),
        r <= col,
{
    let mut used: usize = 0;
    let mut first: usize = col;
    let mut c: usize = col;
    loop
        invariant
            c <= col,
            c <= first <= col,
            first == if c == col { col as int } else { c + 1 },
            available <= u16::MAX,
            used <= available || (c + 1 == col && used <= 0x10_0000),
            c == col ==> used == 0,
            leftmost(grid@, col as int, col as int, 0, available as int) == leftmost(
                grid@,
                c as int,
                col as int,
                used as int,
                available as int,
            ),
        decreases c,
    {
        let natural: u16 = natural_of(grid, c);
        // One cell for the separator that follows every column.
        used = used + grid.width(c, natural) as usize + 1;
        // The cursor's own column is kept even when it is wider than the pane:
        // there is nowhere better to put it.
        if used > available && c != col {
            return first;
        }
        first = c;
        if c == 0 {
            proof {
                reveal_with_fuel(leftmost, 2);
            }
            return first;
        }
        c = c - 1;
    }
}

/// Which row stands for a node.
fn row_of_node(rows: &Vec<usize>, node: &VisibleNode, snapshot: &Snapshot) -> (r: Option<usize>)
    requires
        forall|i: int| 0 <= i < rows@.len() ==> (#[trigger] rows@[i]) < snapshot.explorer@.len(),
    ensures
        match r {
            Some(i) => first(rows@, UiView::same_node(*snapshot, *node)) == Some(i as int),
            None => first(rows@, UiView::same_node(*snapshot, *node)) is None,
        },
{
    let ghost wanted = UiView::same_node(*snapshot, *node);
    let mut i: usize = 0;
    while i < rows.len()
        invariant
            wanted == UiView::same_node(*snapshot, *node),
            forall|j: int| 0 <= j < rows@.len() ==> (#[trigger] rows@[j]) < snapshot.explorer@.len(),
            i <= rows@.len(),
            first(rows@, wanted) == first_from(rows@, wanted, i as int),
        decreases rows@.len() - i,
    {
        let there: &VisibleNode = &snapshot.explorer[rows[i]];
        if there.conn == node.conn && there.node_ref.same(&node.node_ref) {
            return Some(i);
        }
        i += 1;
    }
    None
}

/// What was found in a template.
pub open spec fn placeholders_found(outcome: Result<Vec<Placeholder>, String>) -> Result<
    Seq<Placeholder>,
    Seq<char>,
> {
    match outcome {
        Ok(placeholders) => Ok(placeholders@),
        Err(why) => Err(why@),
    }
}

/// What a template was filled in to.
pub open spec fn statement_bound(outcome: Result<String, String>) -> Result<Seq<char>, Seq<char>> {
    match outcome {
        Ok(text) => Ok(text@),
        Err(why) => Err(why@),
    }
}

/// What some failures say.
pub open spec fn failure_views(failures: Seq<(QueryId, String)>) -> Seq<(QueryId, Seq<char>)> {
    failures.map_values(|f: (QueryId, String)| (f.0, f.1@))
}

/// What some rows hold.
pub open spec fn some_rows(rows: Option<Arc<PagedResult>>) -> Option<PagedResult> {
    match rows {
        Some(rows) => Some(*rows),
        None => None,
    }
}

fn arc_of(rows: Option<&Arc<PagedResult>>) -> (r: Option<Arc<PagedResult>>)
    ensures
        match rows {
            Some(rows) => r == Some(*rows),
            None => r is None,
        },
{
    match rows {
        Some(rows) => Some(Arc::clone(rows)),
        None => None,
    }
}

} // verus!
