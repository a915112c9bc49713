//! What is on a screen, and what each command does to it.

use crate::chrome::MIN_GRID_HEIGHT;
use crate::clock::Moment;
use crate::copy::{base64_len, base64_of, osc52, part_there, rendered, Format, MAX_PAYLOAD_BYTES};
use crate::definition::{lists_columns, sections_of, statement_at};
use crate::detail::DetailView;
use crate::geometry::{least, less, most, stepped, Rect};
use crate::grid::{column_looks, document_of};
use crate::history::{headed, headings, tells};
use crate::hit::{PaneId, Target, ToastId};
use crate::ids::{ConnId, Edition, QueryId, RunId, TabId, TemplateId};
use crate::intent::{
    Action, ActionView, CmdView, Dialect, IntentView, NewTemplateView, SectionPick, ViewCmd,
};
use crate::menu::{grid_menu, MenuView};
use crate::model::{
    conn_is, definition_of, preview_of, query_is, HistoryEntry, LoadState, OverBudget, PagedResult,
    PreviewView, QueryView, Snapshot, Sort, TableDetail, TableRef, VisibleNode,
};
use crate::overlay::ModalView;
use crate::palette::{FieldView, FormView, Kind, PaletteView, Placeholder};
use crate::search::{first, first_item};
use crate::text::{blank, decimal, joined, trimmed};
use crate::tree::shown;
use crate::ui::{
    FilterView, Severity, TreeUi, DEFAULT_DETAIL_HEIGHT, DEFAULT_EXPLORER_PERMILLE,
    LOAD_MARGIN_ROWS, MIN_PANE_WIDTH,
};
use std::sync::Arc;
use vstd::prelude::*;
use vstd::utf8::encode_utf8;

verus! {

/// What a tab is showing.
#[allow(inconsistent_fields)]
pub enum ContentView {
    Preview(TableRef),
    Sql { number: u32, text: Seq<char>, query: Option<QueryId> },
    Definition { table: TableRef, section: usize },
    History { filter: FilterView },
}

impl ContentView {
    /// What the tab bar and the pane border call it.
    pub open spec fn title(self) -> Seq<char> {
        match self {
            ContentView::Preview(table) => table.own_name(),
            ContentView::Sql { number, .. } => "SQL#"@ + decimal(number as nat),
            ContentView::Definition { table, .. } => table.own_name() + ": def"@,
            ContentView::History { .. } => "History"@,
        }
    }
}

/// A tab.
pub struct TabView {
    pub id: TabId,
    pub conn: ConnId,
    pub content: ContentView,
}

impl TabView {
    /// The relation it is a preview of.
    pub open spec fn table(self) -> Option<TableRef> {
        match self.content {
            ContentView::Preview(table) => Some(table),
            _ => None,
        }
    }

    /// The relation it is a definition of.
    pub open spec fn defines(self) -> Option<TableRef> {
        match self.content {
            ContentView::Definition { table, .. } => Some(table),
            _ => None,
        }
    }

    /// The statement in its buffer.
    pub open spec fn sql(self) -> Option<Seq<char>> {
        match self.content {
            ContentView::Sql { text, .. } => Some(text),
            _ => None,
        }
    }

    /// The run it last started.
    pub open spec fn query(self) -> Option<QueryId> {
        match self.content {
            ContentView::Sql { query, .. } => query,
            _ => None,
        }
    }

    /// The section of a definition it is on.
    pub open spec fn section(self) -> Option<usize> {
        match self.content {
            ContentView::Definition { section, .. } => Some(section),
            _ => None,
        }
    }

    /// The history's search.
    pub open spec fn searches(self) -> Option<FilterView> {
        match self.content {
            ContentView::History { filter } => Some(filter),
            _ => None,
        }
    }
}

/// A passing notice.
pub struct ToastView {
    pub id: ToastId,
    pub text: Seq<char>,
    pub severity: Severity,
    pub created_at: Moment,
}

/// A message already shown for a preview.
pub struct ReportView {
    pub conn: ConnId,
    pub table: Seq<Seq<char>>,
    pub text: Seq<char>,
}

/// The areas inside the panes, as of the last frame drawn.
#[derive(Debug, Clone, Copy, PartialEq, Eq, Structural)]
pub struct Viewports {
    pub tab_bar: Rect,
    pub explorer: Rect,
    pub grid: Rect,
    pub detail: Rect,
    pub status_bar: Rect,
}

impl Viewports {
    /// Before anything has been drawn.
    pub open spec fn none() -> Viewports {
        Viewports {
            tab_bar: Rect::nothing(),
            explorer: Rect::nothing(),
            grid: Rect::nothing(),
            detail: Rect::nothing(),
            status_bar: Rect::nothing(),
        }
    }

    pub fn empty() -> (r: Self)
        ensures
            r == Self::none(),
    {
        Viewports {
            tab_bar: Rect::default(),
            explorer: Rect::default(),
            grid: Rect::default(),
            detail: Rect::default(),
            status_bar: Rect::default(),
        }
    }

    pub open spec fn of(self, pane: PaneId) -> Rect {
        match pane {
            PaneId::TabBar => self.tab_bar,
            PaneId::Explorer => self.explorer,
            PaneId::Grid => self.grid,
            PaneId::Detail => self.detail,
            PaneId::StatusBar => self.status_bar,
        }
    }

    pub open spec fn with(self, pane: PaneId, rect: Rect) -> Viewports {
        match pane {
            PaneId::TabBar => Viewports { tab_bar: rect, ..self },
            PaneId::Explorer => Viewports { explorer: rect, ..self },
            PaneId::Grid => Viewports { grid: rect, ..self },
            PaneId::Detail => Viewports { detail: rect, ..self },
            PaneId::StatusBar => Viewports { status_bar: rect, ..self },
        }
    }
}

// ── a tab's grid ───────────────────────────────────────────────────────────

/// What a tab remembers of its grid.
#[verifier::ext_equal]
pub struct GridView {
    pub row_offset: usize,
    pub asked_after: Option<u64>,
    pub col_offset: usize,
    pub row: usize,
    pub col: usize,
    pub widths: Map<usize, u16>,
    /// The rows the columns were laid out for.
    pub shown: Option<PagedResult>,
    pub anchor: Option<((usize, usize), Option<Sort>)>,
}

impl GridView {
    /// At the first cell, with nothing laid out.
    pub open spec fn fresh() -> GridView {
        GridView {
            row_offset: 0,
            asked_after: None,
            col_offset: 0,
            row: 0,
            col: 0,
            widths: Map::empty(),
            shown: None,
            anchor: None,
        }
    }

    /// Laid out for these rows, unless it is already.
    pub open spec fn showing(self, rows: PagedResult) -> GridView {
        if self.shown matches Some(shown) && shown.edition == rows.edition {
            self
        } else {
            GridView { shown: Some(rows), ..self }
        }
    }

    /// The rectangle that is selected: top, left, bottom and right.
    pub open spec fn selection(self, sort: Option<Sort>) -> (usize, usize, usize, usize) {
        match self.anchor {
            Some((at, made_under)) if made_under == sort => (
                least(at.0 as int, self.row as int) as usize,
                least(at.1 as int, self.col as int) as usize,
                most(at.0 as int, self.row as int) as usize,
                most(at.1 as int, self.col as int) as usize,
            ),
            _ => (self.row, self.col, self.row, self.col),
        }
    }

    /// How many rows and columns are selected, unless it is one of each.
    pub open spec fn selected_cells(self, sort: Option<Sort>) -> Option<(usize, usize)> {
        let (top, left, bottom, right) = self.selection(sort);
        let high = least(bottom - top + 1, usize::MAX as int) as usize;
        let wide = least(right - left + 1, usize::MAX as int) as usize;
        if high == 1 && wide == 1 {
            None
        } else {
            Some((high, wide))
        }
    }

    /// The selected cell of the rows that are shown, as a document, unless it is
    /// not there.
    pub open spec fn read_closely(self) -> Option<DetailView> {
        match self.shown {
            Some(rows) => document_of(rows, self.row as int, self.col as int),
            None => None,
        }
    }

    /// How wide a column is drawn.
    pub open spec fn width(self, col: usize, natural: u16) -> u16 {
        if self.widths.contains_key(col) {
            self.widths[col]
        } else {
            natural
        }
    }

    pub open spec fn sized(self, col: usize, width: u16) -> GridView {
        GridView { widths: self.widths.insert(col, width), ..self }
    }

    /// A column made wider or narrower, and never so narrow that it is gone.
    pub open spec fn resized(self, col: usize, delta: int, natural: u16) -> GridView {
        self.sized(
            col,
            most(least(self.width(col, natural) + delta, u16::MAX as int), 1) as u16,
        )
    }
}

// ── the screen ─────────────────────────────────────────────────────────────

/// Everything there is to know about a screen.
#[verifier::ext_equal]
pub struct UiView {
    pub focus: PaneId,
    pub tree: TreeUi,
    pub hover: Option<Target>,
    pub modal: Option<ModalView>,
    pub reported_failures: Set<u64>,
    pub asked_approval: Set<u64>,
    pub filter: Option<FilterView>,
    pub tabs: Seq<TabView>,
    pub active_tab: Option<TabId>,
    pub next_tab: u32,
    pub next_sql: u32,
    pub toasts: Seq<ToastView>,
    pub next_toast: u64,
    pub palette: Option<PaletteView>,
    pub reported_preview_errors: Seq<ReportView>,
    pub reported_query_errors: Set<u64>,
    /// What each tab remembers of its grid.
    pub grids: Map<u32, GridView>,
    /// The definition each tab's layout was built from.
    pub laid: Map<u32, TableDetail>,
    pub detail_height: Option<u16>,
    pub detail_offset: usize,
    pub detail_rows: usize,
    pub sql_lines: usize,
    pub pending_copy: Option<Seq<char>>,
    pub menu: Option<MenuView>,
    pub explorer_width: Option<u16>,
    pub viewports: Viewports,
    pub screen: Rect,
    pub clock: Moment,
}


/// The tab with this id.
pub open spec fn tab_is(id: TabId) -> spec_fn(TabView) -> bool {
    |t: TabView| t.id == id
}

/// Every tab but the one with this id.
pub open spec fn tab_is_not(id: TabId) -> spec_fn(TabView) -> bool {
    |t: TabView| t.id != id
}

/// The preview of a relation.
pub open spec fn tab_previews(conn: ConnId, table: Seq<Seq<char>>) -> spec_fn(TabView) -> bool {
    |t: TabView| t.conn == conn && (t.table() matches Some(held) && held@ == table)
}

/// The definition of a relation.
pub open spec fn tab_defines(conn: ConnId, table: Seq<Seq<char>>) -> spec_fn(TabView) -> bool {
    |t: TabView| t.conn == conn && (t.defines() matches Some(held) && held@ == table)
}

/// The history, opened on a connection.
pub open spec fn tab_searches(conn: ConnId) -> spec_fn(TabView) -> bool {
    |t: TabView| t.conn == conn && t.content is History
}

pub open spec fn toast_is_not(id: ToastId) -> spec_fn(ToastView) -> bool {
    |t: ToastView| t.id != id
}

pub open spec fn report_of(conn: ConnId, table: Seq<Seq<char>>) -> spec_fn(ReportView) -> bool {
    |r: ReportView| r.conn == conn && r.table == table
}

pub open spec fn report_not_of(conn: ConnId, table: Seq<Seq<char>>) -> spec_fn(ReportView) -> bool {
    |r: ReportView| !(r.conn == conn && r.table == table)
}

pub open spec fn run_is(id: RunId) -> spec_fn(HistoryEntry) -> bool {
    |e: HistoryEntry| e.id == id
}

/// What has been fetched, once it has.
pub open spec fn arrived<T>(data: LoadState<Arc<T>>) -> Option<T> {
    match data {
        LoadState::Ready(held) => Some(*held),
        _ => None,
    }
}

pub open spec fn row_total(rows: Option<PagedResult>) -> int {
    match rows {
        Some(rows) => rows.rows@.len() as int,
        None => 0,
    }
}

pub open spec fn column_total(rows: Option<PagedResult>) -> int {
    match rows {
        Some(rows) => rows.columns@.len() as int,
        None => 0,
    }
}

/// Whether these are the rows under a section of a definition. The statement
/// has none.
pub open spec fn under_section(
    detail: TableDetail,
    section: int,
    rows: Option<PagedResult>,
) -> bool {
    if section == 0 {
        rows matches Some(rows) && lists_columns(rows, detail)
    } else if section <= detail.sections@.len() {
        rows == Some(*detail.sections@[section - 1].table)
    } else {
        rows is None
    }
}

/// Whether these are the runs of a history, as they read at some moment.
pub open spec fn tell_of(
    rows: PagedResult,
    entries: Seq<HistoryEntry>,
    now: Moment,
    edition: Edition,
) -> bool {
    &&& rows.edition == edition
    &&& headed(rows.columns@) == headings()
    &&& rows.rows@.len() == entries.len()
    &&& forall|i: int|
        0 <= i < entries.len() ==> tells(#[trigger] rows.rows@[i], entries[i], now)
    &&& rows.first_page == entries.len()
    &&& rows.total == Some(entries.len() as u64)
}

/// The smallest scroll that keeps `index` visible.
pub open spec fn into_view(offset: int, index: int, page: int) -> int {
    if page == 0 {
        offset
    } else if index < offset {
        index
    } else if index >= offset + page {
        index + 1 - page
    } else {
        offset
    }
}

/// How wide a column of laid-out rows would be left to itself.
pub open spec fn natural_width(grid: GridView, col: int) -> u16 {
    match grid.shown {
        Some(rows) => if 0 <= col < rows.columns@.len() {
            column_looks(rows)[col].natural_width
        } else {
            0
        },
        None => 0,
    }
}

/// How wide a column is drawn, and the separator that follows it.
pub open spec fn drawn_width(grid: GridView, col: int) -> int {
    grid.width(col as usize, natural_width(grid, col)) + 1
}

/// The furthest left the grid can be scrolled while `col` is still drawn: going
/// left from `c`, with the columns right of it taking up `used` already.
pub open spec fn leftmost(grid: GridView, c: int, col: int, used: int, available: int) -> int
    decreases c + 1,
{
    if c < 0 {
        0
    } else {
        let taken = used + drawn_width(grid, c);
        if taken > available && c != col {
            c + 1
        } else {
            leftmost(grid, c - 1, col, taken, available)
        }
    }
}

/// A byte count in the largest unit it has one of, cut to a tenth of it.
pub open spec fn in_units(n: nat, scale: nat, unit: Seq<char>) -> Seq<char> {
    decimal(n / scale) + "."@ + decimal((n % scale) * 10 / scale) + " "@ + unit
}

/// A byte count in units of a thousand.
pub open spec fn byte_words(n: nat) -> Seq<char> {
    if n >= 1_000_000_000_000 {
        in_units(n, 1_000_000_000_000, "TB"@)
    } else if n >= 1_000_000_000 {
        in_units(n, 1_000_000_000, "GB"@)
    } else if n >= 1_000_000 {
        in_units(n, 1_000_000, "MB"@)
    } else if n >= 1_000 {
        in_units(n, 1_000, "kB"@)
    } else {
        decimal(n) + " B"@
    }
}

/// What is asked about a statement that costs more than was agreed to.
pub open spec fn cost_question(over: OverBudget) -> Seq<char> {
    "It would read "@ + byte_words(
        match over.estimate {
            Some(n) => n as nat,
            None => 0,
        },
    ) + ", and the limit is "@ + byte_words(over.budget as nat) + ".\n\n"@ + over.sql@
}

/// What a field of a form starts with: the relation the explorer has selected
/// answers for the name of a table, and nothing answers for anything else.
pub open spec fn guess(placeholder: Placeholder, selected: Option<Seq<char>>) -> Seq<char> {
    if placeholder.kind == Kind::Ident && placeholder.name@ == "table"@ && selected is Some {
        selected->0
    } else {
        Seq::empty()
    }
}

/// The fields of a form for these placeholders.
pub open spec fn form_fields(
    placeholders: Seq<Placeholder>,
    selected: Option<Seq<char>>,
) -> Seq<FieldView> {
    placeholders.map_values(
        |p: Placeholder|
            FieldView { name: p.name@, kind: p.kind, value: guess(p, selected) },
    )
}

pub open spec fn with_text(content: ContentView, text: Seq<char>) -> ContentView {
    match content {
        ContentView::Sql { number, query, .. } => ContentView::Sql { number, text, query },
        other => other,
    }
}

pub open spec fn with_query(content: ContentView, id: QueryId) -> ContentView {
    match content {
        ContentView::Sql { number, text, .. } => ContentView::Sql {
            number,
            text,
            query: Some(id),
        },
        other => other,
    }
}

impl UiView {
    /// Before anything has been drawn or opened.
    pub open spec fn initial() -> UiView {
        UiView {
            focus: PaneId::Explorer,
            tree: TreeUi { offset: 0, selected: None },
            hover: None,
            modal: None,
            reported_failures: Set::empty(),
            asked_approval: Set::empty(),
            filter: None,
            tabs: Seq::empty(),
            active_tab: None,
            next_tab: 0,
            next_sql: 0,
            toasts: Seq::empty(),
            next_toast: 0,
            palette: None,
            reported_preview_errors: Seq::empty(),
            reported_query_errors: Set::empty(),
            grids: Map::empty(),
            laid: Map::empty(),
            detail_height: None,
            detail_offset: 0,
            detail_rows: 0,
            sql_lines: 0,
            pending_copy: None,
            menu: None,
            explorer_width: None,
            viewports: Viewports::none(),
            screen: Rect::nothing(),
            clock: Moment { seconds: 0, nanos: 0 },
        }
    }

    // ── reading ────────────────────────────────────────────────────────────

    pub open spec fn tab(self, id: TabId) -> Option<TabView> {
        first_item(self.tabs, tab_is(id))
    }

    /// The tab in front.
    pub open spec fn current(self) -> Option<TabView> {
        match self.active_tab {
            Some(id) => self.tab(id),
            None => None,
        }
    }

    /// Whether every counter can be counted on.
    pub open spec fn room(self) -> bool {
        self.next_tab < u32::MAX && self.next_sql < u32::MAX && self.next_toast < u64::MAX
    }

    /// Rows visible in a pane, which is what a page key and a clamp both need.
    pub open spec fn page(self, pane: PaneId) -> int {
        self.viewports.of(pane).height as int
    }

    pub open spec fn grid(self, id: TabId) -> Option<GridView> {
        if self.grids.contains_key(id.0) {
            Some(self.grids[id.0])
        } else {
            None
        }
    }

    pub open spec fn grid_or_fresh(self, id: TabId) -> GridView {
        match self.grid(id) {
            Some(grid) => grid,
            None => GridView::fresh(),
        }
    }

    pub open spec fn with_grid(self, id: TabId, grid: GridView) -> UiView {
        UiView { grids: self.grids.insert(id.0, grid), ..self }
    }

    /// The grid of the tab in front, if it has one yet.
    pub open spec fn active_grid(self) -> Option<GridView> {
        match self.active_tab {
            Some(id) => self.grid(id),
            None => None,
        }
    }

    /// The grid of the tab in front, made if it has none.
    pub open spec fn own_grid(self) -> GridView {
        match self.active_tab {
            Some(id) => self.grid_or_fresh(id),
            None => GridView::fresh(),
        }
    }

    /// The grid of the tab in front, changed to this.
    pub open spec fn regrid(self, grid: GridView) -> UiView {
        match self.active_tab {
            Some(id) => self.with_grid(id, grid),
            None => self,
        }
    }

    /// The explorer's width for a screen `total` cells wide.
    pub open spec fn explorer_share(self, total: u16) -> int {
        let wanted = match self.explorer_width {
            Some(width) => width as int,
            None => total * DEFAULT_EXPLORER_PERMILLE / 1000,
        };
        let ceiling = less(total as int, MIN_PANE_WIDTH + 1);
        most(least(wanted, ceiling), least(MIN_PANE_WIDTH as int, ceiling))
    }

    /// How many rows of `total` the detail pane gets.
    pub open spec fn detail_share(self, total: u16) -> int {
        match self.detail_height {
            Some(wanted) => least(wanted as int, less(total as int, MIN_GRID_HEIGHT as int)),
            None => 0,
        }
    }

    /// The definition the tab in front is showing, once it has arrived.
    pub open spec fn definition(self, snapshot: Snapshot) -> Option<TableDetail> {
        match self.current() {
            Some(tab) => match tab.defines() {
                Some(table) => match first_item(
                    snapshot.definitions@,
                    definition_of(tab.conn, table@),
                ) {
                    Some(view) => arrived(view.data),
                    None => None,
                },
                None => None,
            },
            None => None,
        }
    }

    /// The definition that what is drawn was laid out from.
    pub open spec fn laid_definition(self, tab: TabId, detail: TableDetail) -> TableDetail {
        if self.laid.contains_key(tab.0) && self.laid[tab.0].edition == detail.edition {
            self.laid[tab.0]
        } else {
            detail
        }
    }

    /// Whether these are the rows behind the tab in front. `None` covers a real
    /// frame: a tab opened this tick has nothing in the snapshot until the
    /// store answers.
    pub open spec fn shows(self, snapshot: Snapshot, rows: Option<PagedResult>) -> bool {
        match self.current() {
            None => rows is None,
            Some(tab) => match tab.content {
                ContentView::Preview(table) => rows == match first_item(
                    snapshot.previews@,
                    preview_of(tab.conn, table@),
                ) {
                    Some(preview) => arrived(preview.data),
                    None => None,
                },
                ContentView::Sql { query, .. } => rows == match query {
                    Some(id) => match first_item(snapshot.queries@, query_is(id)) {
                        Some(query) => arrived(query.data),
                        None => None,
                    },
                    None => None,
                },
                ContentView::Definition { section, .. } => match self.definition(snapshot) {
                    Some(detail) => under_section(
                        self.laid_definition(tab.id, detail),
                        section as int,
                        rows,
                    ),
                    None => rows is None,
                },
                ContentView::History { .. } => match snapshot.history.data {
                    LoadState::Ready(entries) => rows matches Some(rows) && tell_of(
                        rows,
                        entries@,
                        self.clock,
                        snapshot.history.edition,
                    ),
                    _ => rows is None,
                },
            },
        }
    }

    /// Which section of a definition is drawn: the one asked for, or the last.
    pub open spec fn section_drawn(section: usize, detail: TableDetail) -> int {
        least(section as int, least(sections_of(detail), usize::MAX as int) - 1)
    }

    /// Whether the definition in front is on its generated statement, which the
    /// pane draws as text rather than as a grid.
    pub open spec fn statement_shown(self, snapshot: Snapshot) -> bool {
        match self.definition(snapshot) {
            Some(detail) => match self.current() {
                Some(tab) => tab.section() matches Some(section) && statement_at(
                    detail,
                    Self::section_drawn(section, detail),
                ),
                None => false,
            },
            None => false,
        }
    }

    pub open spec fn filter_text(self) -> Option<Seq<char>> {
        match self.filter {
            Some(filter) => Some(filter.text),
            None => None,
        }
    }

    /// The rows the explorer is showing, as indices into the flattened tree.
    pub open spec fn visible(self, snapshot: Snapshot) -> Seq<usize> {
        shown(snapshot.explorer@, self.filter_text())
    }

    /// The node a visible row points at.
    pub open spec fn node_at(self, snapshot: Snapshot, row: int) -> Option<VisibleNode> {
        if 0 <= row < self.visible(snapshot).len() {
            Some(snapshot.explorer@[self.visible(snapshot)[row] as int])
        } else {
            None
        }
    }

    /// The node that is selected.
    pub open spec fn selected_node(self, snapshot: Snapshot) -> Option<VisibleNode> {
        match self.tree.selected {
            Some(row) => self.node_at(snapshot, row as int),
            None => None,
        }
    }

    /// The relation the explorer has selected, as a dotted name.
    pub open spec fn selected_table(self, snapshot: Snapshot) -> Option<Seq<char>> {
        match self.selected_node(snapshot) {
            Some(node) => match node.node_ref.relation() {
                Some(table) => Some(joined(table@, "."@)),
                None => None,
            },
            None => None,
        }
    }

    /// How the rows of the preview in front are ordered.
    pub open spec fn active_sort(self, snapshot: Snapshot) -> Option<Sort> {
        match self.active_preview(snapshot) {
            Some(preview) => preview.sort,
            None => None,
        }
    }

    /// The preview in front, as the store has it.
    pub open spec fn active_preview(self, snapshot: Snapshot) -> Option<PreviewView> {
        match self.current() {
            Some(tab) => match tab.table() {
                Some(table) => first_item(snapshot.previews@, preview_of(tab.conn, table@)),
                None => None,
            },
            None => None,
        }
    }

    pub open spec fn offset(self, pane: PaneId) -> int {
        match pane {
            PaneId::Explorer => self.tree.offset as int,
            PaneId::Grid => match self.active_grid() {
                Some(grid) => grid.row_offset as int,
                None => 0,
            },
            PaneId::Detail => self.detail_offset as int,
            PaneId::TabBar | PaneId::StatusBar => 0,
        }
    }

    /// How much there is to scroll through in a pane.
    ///
    /// A SQL tab, and a definition on its statement, are text: what counts is
    /// their lines.
    pub open spec fn content_rows(
        self,
        pane: PaneId,
        snapshot: Snapshot,
        rows: Option<PagedResult>,
    ) -> int {
        match pane {
            PaneId::Explorer => self.visible(snapshot).len() as int,
            PaneId::Grid => if (self.current() matches Some(tab) && tab.content is Sql)
                || self.statement_shown(snapshot) {
                self.sql_lines as int
            } else {
                row_total(rows)
            },
            PaneId::Detail => self.detail_rows as int,
            PaneId::TabBar | PaneId::StatusBar => 0,
        }
    }

    /// How far a pane can be scrolled: content beyond one screenful.
    pub open spec fn scrollable(
        self,
        pane: PaneId,
        snapshot: Snapshot,
        rows: Option<PagedResult>,
    ) -> int {
        less(self.content_rows(pane, snapshot, rows), self.page(pane))
    }

    /// The connection a new SQL tab would open on: the active tab's, or the
    /// first live one.
    pub open spec fn connection_for_a_new_tab(self, snapshot: Snapshot) -> Option<ConnId> {
        match self.current() {
            Some(tab) => if snapshot.has_live(tab.conn) {
                Some(tab.conn)
            } else {
                snapshot.first_live()
            },
            None => snapshot.first_live(),
        }
    }

    /// Whose rules of quoting a template is filled in by.
    pub open spec fn dialect(self, snapshot: Snapshot) -> Dialect {
        match self.current() {
            Some(tab) => match first_item(snapshot.connections@, conn_is(tab.conn)) {
                Some(c) => if c.capabilities is Some {
                    Dialect::OfConnection(tab.conn)
                } else {
                    Dialect::PostgreSql
                },
                None => Dialect::PostgreSql,
            },
            None => Dialect::PostgreSql,
        }
    }

    /// Whether the tab in front has something to run, and somewhere to run it.
    pub open spec fn can_run(self, snapshot: Snapshot) -> bool {
        self.current() matches Some(tab) && tab.sql() matches Some(text) && !blank(text)
            && snapshot.has_live(tab.conn)
    }

    /// The message last shown for a preview.
    pub open spec fn told(self, conn: ConnId, table: Seq<Seq<char>>) -> Option<Seq<char>> {
        match first_item(self.reported_preview_errors, report_of(conn, table)) {
            Some(report) => Some(report.text),
            None => None,
        }
    }

    // ── what is raised by a snapshot ───────────────────────────────────────

    pub open spec fn toasted(self, severity: Severity, text: Seq<char>) -> UiView {
        let id = (self.next_toast + 1) as u64;
        UiView {
            next_toast: id,
            toasts: self.toasts.push(
                ToastView { id: ToastId(id), text, severity, created_at: self.clock },
            ),
            ..self
        }
    }

    /// A dialog about something that went wrong.
    pub open spec fn alarmed(self, title: Seq<char>, body: Seq<char>) -> UiView {
        UiView { menu: None, modal: Some(ModalView::failure(title, body)), ..self }
    }

    /// A new error of one tab's preview, turned into a notice.
    pub open spec fn preview_reported(self, tab: TabView, snapshot: Snapshot) -> UiView {
        match tab.table() {
            None => self,
            Some(table) => match first_item(snapshot.previews@, preview_of(tab.conn, table@)) {
                None => self,
                Some(preview) => match preview.last_error {
                    None => UiView {
                        reported_preview_errors: self.reported_preview_errors.filter(
                            report_not_of(tab.conn, table@),
                        ),
                        ..self
                    },
                    Some(text) => if self.told(tab.conn, table@) == Some(text@) {
                        self
                    } else {
                        UiView {
                            reported_preview_errors: self.reported_preview_errors.filter(
                                report_not_of(tab.conn, table@),
                            ).push(
                                ReportView { conn: tab.conn, table: table@, text: text@ },
                            ),
                            ..self
                        }.toasted(Severity::Error, text@)
                    },
                },
            },
        }
    }

    /// The same for the first `n` tabs, one after the other.
    pub open spec fn previews_reported(self, snapshot: Snapshot, n: int) -> UiView
        decreases n,
    {
        if n <= 0 {
            self
        } else {
            self.previews_reported(snapshot, n - 1).preview_reported(self.tabs[n - 1], snapshot)
        }
    }

    /// The run a tab is showing.
    pub open spec fn query_of(self, id: TabId) -> Option<QueryId> {
        match self.tab(id) {
            Some(tab) => tab.query(),
            None => None,
        }
    }

    /// Why a tab's run produced nothing, if nobody has been told yet.
    pub open spec fn failure_of(self, tab: TabView, snapshot: Snapshot) -> Option<
        (QueryId, Seq<char>),
    > {
        match self.query_of(tab.id) {
            None => None,
            Some(id) => if self.reported_query_errors.contains(id.0) {
                None
            } else {
                match first_item(snapshot.queries@, query_is(id)) {
                    None => None,
                    Some(query) => match query.data {
                        LoadState::Failed(why) => Some((id, why@)),
                        _ => None,
                    },
                }
            },
        }
    }

    /// The failures of the first `n` tabs that nobody has been told of.
    pub open spec fn failures(self, snapshot: Snapshot, n: int) -> Seq<(QueryId, Seq<char>)>
        decreases n,
    {
        if n <= 0 {
            Seq::empty()
        } else {
            match self.failure_of(self.tabs[n - 1], snapshot) {
                Some(failure) => self.failures(snapshot, n - 1).push(failure),
                None => self.failures(snapshot, n - 1),
            }
        }
    }

    /// The first `n` of some failures, told.
    pub open spec fn failures_told(self, failures: Seq<(QueryId, Seq<char>)>, n: int) -> UiView
        decreases n,
    {
        if n <= 0 {
            self
        } else {
            let before = self.failures_told(failures, n - 1);
            UiView {
                reported_query_errors: before.reported_query_errors.insert(failures[n - 1].0.0),
                ..before
            }.toasted(Severity::Error, failures[n - 1].1)
        }
    }

    /// Every run that failed, said once.
    pub open spec fn queries_reported(self, snapshot: Snapshot) -> UiView {
        let failures = self.failures(snapshot, self.tabs.len() as int);
        self.failures_told(failures, failures.len() as int)
    }

    /// Whether a query is one that a tab of this screen is showing.
    pub open spec fn is_mine(self, id: QueryId) -> bool {
        exists|i: int| 0 <= i < self.tabs.len() && self.query_of((#[trigger] self.tabs[i]).id)
            == Some(id)
    }

    /// The queries of this screen whose cost nobody has been asked about.
    pub open spec fn unasked(self) -> spec_fn(QueryView) -> bool {
        |q: QueryView| self.is_mine(q.id) && !self.asked_approval.contains(q.id.0)
            && q.needs_approval is Some
    }

    /// Whether the dialog asks what the store no longer has open.
    pub open spec fn answered(self, snapshot: Snapshot) -> bool {
        self.modal matches Some(modal) && modal.answered_by(snapshot)
    }

    /// A question about the cost of a query, once per query. With nothing new
    /// to ask, a question that has been answered goes; every other dialog
    /// stays.
    pub open spec fn approvals_raised(self, snapshot: Snapshot) -> UiView {
        match first_item(snapshot.queries@, self.unasked()) {
            None => if self.answered(snapshot) {
                UiView { modal: None, ..self }
            } else {
                self
            },
            Some(query) => UiView {
                asked_approval: self.asked_approval.insert(query.id.0),
                menu: None,
                modal: Some(
                    ModalView::question(
                        "This query costs more than the limit"@,
                        cost_question(query.needs_approval->0),
                        "Run it anyway"@,
                        IntentView::App(ActionView::Plain(Action::ApproveQuery(query.id))),
                    ),
                ),
                ..self
            },
        }
    }

    /// Whether a tab shows something that went with its connection.
    pub open spec fn disconnected(tab: TabView, snapshot: Snapshot) -> bool {
        tab.table() is Some && match first_item(snapshot.connections@, conn_is(tab.conn)) {
            Some(c) => c.status is Closed,
            None => true,
        }
    }

    /// The first `n` tabs of `tabs` closed, those that were left without a
    /// connection.
    pub open spec fn disconnected_closed(
        self,
        tabs: Seq<TabView>,
        snapshot: Snapshot,
        n: int,
    ) -> UiView
        decreases n,
    {
        if n <= 0 {
            self
        } else {
            let before = self.disconnected_closed(tabs, snapshot, n - 1);
            if Self::disconnected(tabs[n - 1], snapshot) {
                before.closed(tabs[n - 1].id)
            } else {
                before
            }
        }
    }

    // ── tabs ───────────────────────────────────────────────────────────────

    /// A new tab, in front.
    pub open spec fn opened(self, conn: ConnId, content: ContentView) -> UiView {
        let id = TabId((self.next_tab + 1) as u32);
        UiView {
            next_tab: id.0,
            tabs: self.tabs.push(TabView { id, conn, content }),
            active_tab: Some(id),
            ..self
        }
    }

    /// The tab that `which` names raised, or a new one opened.
    pub open spec fn raised(
        self,
        which: spec_fn(TabView) -> bool,
        conn: ConnId,
        content: ContentView,
    ) -> UiView {
        match first_item(self.tabs, which) {
            Some(tab) => UiView { active_tab: Some(tab.id), ..self },
            None => self.opened(conn, content),
        }
    }

    pub open spec fn sql_opened(self, conn: ConnId) -> UiView {
        let number = (self.next_sql + 1) as u32;
        UiView { next_sql: number, ..self }.opened(
            conn,
            ContentView::Sql { number, text: Seq::empty(), query: None },
        )
    }

    /// A tab closed, and its neighbour in front if it was.
    pub open spec fn closed(self, id: TabId) -> UiView {
        let tabs = self.tabs.filter(tab_is_not(id));
        UiView {
            tabs,
            laid: self.laid.remove(id.0),
            grids: self.grids.remove(id.0),
            active_tab: if self.active_tab == Some(id) {
                match first(self.tabs, tab_is(id)) {
                    Some(at) => if tabs.len() > 0 {
                        Some(tabs[least(at, tabs.len() - 1)].id)
                    } else {
                        None
                    },
                    None => None,
                }
            } else {
                self.active_tab
            },
            ..self
        }
    }

    /// What a tab shows, changed to this.
    pub open spec fn recontent(self, id: TabId, content: ContentView) -> UiView {
        match first(self.tabs, tab_is(id)) {
            Some(at) => UiView {
                tabs: self.tabs.update(at, TabView { content, ..self.tabs[at] }),
                ..self
            },
            None => self,
        }
    }

    /// A tab's buffer, replaced.
    pub open spec fn buffered(self, id: TabId, text: Seq<char>) -> UiView {
        match self.tab(id) {
            Some(tab) => self.recontent(id, with_text(tab.content, text)),
            None => self,
        }
    }

    /// The run a tab started, noted.
    pub open spec fn queried(self, id: TabId, query: QueryId) -> UiView {
        match self.tab(id) {
            Some(tab) => self.recontent(id, with_query(tab.content, query)),
            None => self,
        }
    }

    /// A statement put where it can be run: into the active SQL tab when it is
    /// empty, and into a new one otherwise. Never over something already
    /// written.
    pub open spec fn inserted(self, text: Seq<char>, snapshot: Snapshot) -> UiView {
        if self.current() matches Some(tab) && tab.sql() matches Some(held) && blank(held) {
            self.buffered(self.active_tab->0, text)
        } else {
            match self.connection_for_a_new_tab(snapshot) {
                None => self.toasted(
                    Severity::Warning,
                    "nothing is connected to run a statement on"@,
                ),
                Some(conn) => {
                    let open = self.sql_opened(conn);
                    open.buffered(open.active_tab->0, text)
                },
            }
        }
    }

    pub open spec fn section_selected(self, pick: SectionPick, snapshot: Snapshot) -> UiView {
        let last = match self.definition(snapshot) {
            Some(detail) => least(sections_of(detail), usize::MAX as int) - 1,
            None => 0,
        };
        match self.active_tab {
            None => self,
            Some(id) => match self.tab(id) {
                None => self,
                Some(tab) => match tab.content {
                    ContentView::Definition { table, section } => {
                        let at = match pick {
                            SectionPick::At(at) => least(at as int, last),
                            SectionPick::By(delta) => least(
                                stepped(section as int, delta as int),
                                last,
                            ),
                        };
                        UiView {
                            grids: self.grids.remove(id.0),
                            ..self.recontent(
                                id,
                                ContentView::Definition { table, section: at as usize },
                            )
                        }
                    },
                    _ => self,
                },
            },
        }
    }

    pub open spec fn history_searched(self, filter: Option<FilterView>) -> (
        UiView,
        Option<ActionView>,
    ) {
        let next = match filter {
            Some(filter) => filter,
            None => FilterView { text: Seq::empty(), editing: false },
        };
        match self.current() {
            Some(tab) => if tab.content is History {
                (
                    self.recontent(tab.id, ContentView::History { filter: next }),
                    Some(ActionView::LoadHistory { terms: next.text }),
                )
            } else {
                (self, None)
            },
            None => (self, None),
        }
    }

    pub open spec fn history_opened(self, conn: ConnId) -> (UiView, Option<ActionView>) {
        match first_item(self.tabs, tab_searches(conn)) {
            Some(tab) => (
                UiView { active_tab: Some(tab.id), ..self },
                Some(ActionView::LoadHistory { terms: tab.searches()->0.text }),
            ),
            None => (
                self.opened(conn, ContentView::History { filter: FilterView::opening() }),
                Some(ActionView::LoadHistory { terms: Seq::empty() }),
            ),
        }
    }

    /// The run the history holds under an id.
    pub open spec fn past_run(snapshot: Snapshot, run: RunId) -> Option<HistoryEntry> {
        match snapshot.history.data {
            LoadState::Ready(entries) => first_item(entries@, run_is(run)),
            _ => None,
        }
    }

    // ── templates ──────────────────────────────────────────────────────────

    /// What is kept when the palette is asked to keep its statement.
    pub open spec fn committed(self, snapshot: Snapshot) -> (UiView, Option<ActionView>) {
        let closed = UiView { palette: None, ..self };
        match self.palette {
            None => (self, None),
            Some(palette) => match palette.saving {
                None => (closed, None),
                Some(body) => {
                    let name = trimmed(palette.filter);
                    let with = NewTemplateView { name, body, driver: None, tags: Seq::empty() };
                    if name.len() == 0 {
                        (closed, None)
                    } else {
                        match snapshot.template_by_name(name) {
                            Some(existing) => (
                                UiView {
                                    modal: Some(
                                        ModalView::question(
                                            "Replace `"@ + name + "`?"@,
                                            "What is saved under that name goes."@,
                                            "Replace"@,
                                            IntentView::App(
                                                ActionView::ReplaceTemplate {
                                                    id: existing.id,
                                                    with,
                                                },
                                            ),
                                        ),
                                    ),
                                    ..closed
                                },
                                None,
                            ),
                            None => (closed, Some(ActionView::SaveTemplate(with))),
                        }
                    }
                },
            },
        }
    }

    /// The palette with a form in it.
    pub open spec fn asking(self, form: FormView) -> UiView {
        match self.palette {
            Some(palette) => UiView {
                palette: Some(PaletteView { asking: Some(form), ..palette }),
                ..self
            },
            None => self,
        }
    }

    /// A template whose placeholders have been found: put in the buffer when
    /// it has none, and asked about otherwise.
    pub open spec fn read(
        self,
        id: TemplateId,
        outcome: Result<Seq<Placeholder>, Seq<char>>,
        snapshot: Snapshot,
    ) -> UiView {
        match snapshot.template_by_id(id) {
            None => self,
            Some(template) => match outcome {
                Ok(placeholders) => if placeholders.len() == 0 {
                    UiView { palette: None, ..self }.inserted(template.body@, snapshot)
                } else {
                    self.asking(
                        FormView {
                            template: id,
                            name: template.name@,
                            fields: form_fields(placeholders, self.selected_table(snapshot)),
                            at: 0,
                            failed: None,
                        },
                    )
                },
                Err(why) => self.asking(
                    FormView {
                        template: id,
                        name: template.name@,
                        fields: Seq::empty(),
                        at: 0,
                        failed: Some(why),
                    },
                ),
            },
        }
    }

    /// What is asked for when a form is submitted.
    pub open spec fn submitted(self, snapshot: Snapshot) -> Option<ActionView> {
        match self.palette {
            Some(palette) => match palette.asking {
                Some(form) => match snapshot.template_by_id(form.template) {
                    Some(template) => Some(
                        ActionView::BindTemplate {
                            body: template.body@,
                            values: form.answers(),
                            dialect: self.dialect(snapshot),
                        },
                    ),
                    None => None,
                },
                None => None,
            },
            None => None,
        }
    }

    /// A form that has been filled in, or could not be: the statement goes in
    /// the buffer, or the reason on the form, with the answers still there to
    /// be corrected.
    pub open spec fn bound(
        self,
        outcome: Result<Seq<char>, Seq<char>>,
        snapshot: Snapshot,
    ) -> UiView {
        match self.palette {
            Some(palette) => match palette.asking {
                Some(form) => match outcome {
                    Ok(text) => UiView { palette: None, ..self }.inserted(text, snapshot),
                    Err(why) => self.asking(FormView { failed: Some(why), ..form }),
                },
                None => self,
            },
            None => self,
        }
    }

    // ── the explorer ───────────────────────────────────────────────────────

    pub open spec fn tree_row_selected(self, index: int, snapshot: Snapshot) -> UiView {
        let len = self.visible(snapshot).len() as int;
        if len == 0 {
            UiView { tree: TreeUi { selected: None, ..self.tree }, ..self }
        } else {
            let at = least(index, len - 1);
            UiView {
                tree: TreeUi {
                    selected: Some(at as usize),
                    offset: into_view(
                        self.tree.offset as int,
                        at,
                        self.page(PaneId::Explorer),
                    ) as usize,
                },
                ..self
            }
        }
    }

    pub open spec fn tree_moved(self, delta: int, snapshot: Snapshot) -> UiView {
        match self.tree.selected {
            Some(from) => self.tree_row_selected(stepped(from as int, delta), snapshot),
            // A first press with nothing selected lands on row zero rather
            // than on row one.
            None => self.tree_row_selected(0, snapshot),
        }
    }

    /// The rows that stand for the same node.
    pub open spec fn same_node(snapshot: Snapshot, node: VisibleNode) -> spec_fn(usize) -> bool {
        |i: usize|
            snapshot.explorer@[i as int].conn == node.conn && snapshot.explorer@[i as int].node_ref.is(
                node.node_ref,
            )
    }

    /// The filter set, keeping the same *node* selected rather than the same
    /// row number.
    pub open spec fn filtered(self, filter: Option<FilterView>, snapshot: Snapshot) -> UiView {
        let next = UiView { filter, ..self };
        let now = match self.selected_node(snapshot) {
            Some(node) => first(next.visible(snapshot), Self::same_node(snapshot, node)),
            None => None,
        };
        match now {
            Some(row) => next.tree_row_selected(row, snapshot),
            None => next.tree_row_selected(0, snapshot),
        }
    }

    // ── the grid ───────────────────────────────────────────────────────────

    pub open spec fn scrolled(
        self,
        pane: PaneId,
        to: int,
        snapshot: Snapshot,
        rows: Option<PagedResult>,
    ) -> UiView {
        let at = least(to, self.scrollable(pane, snapshot, rows)) as usize;
        match pane {
            PaneId::Explorer => UiView { tree: TreeUi { offset: at, ..self.tree }, ..self },
            PaneId::Grid => self.regrid(GridView { row_offset: at, ..self.own_grid() }),
            PaneId::Detail => UiView { detail_offset: at, ..self },
            PaneId::TabBar | PaneId::StatusBar => self,
        }
    }

    /// Whether the last loaded row of the preview in front is near, and there
    /// are more to be had.
    pub open spec fn near_the_end(self, snapshot: Snapshot) -> bool {
        self.active_preview(snapshot) matches Some(preview) && preview.data is Ready
            && !preview.exhausted && self.offset(PaneId::Grid) + self.page(PaneId::Grid)
            + LOAD_MARGIN_ROWS >= preview.loaded_rows
    }

    /// What a move asks for: the next page when the end is near, once for every
    /// page that comes back.
    #[verifier::opaque]
    pub open spec fn paged(self, pane: PaneId, snapshot: Snapshot) -> (UiView, Option<ActionView>) {
        if pane != PaneId::Grid || !self.near_the_end(snapshot) {
            (self, None)
        } else {
            let attempts = self.active_preview(snapshot)->0.attempts;
            let grid = self.own_grid();
            if grid.asked_after == Some(attempts) {
                (self.regrid(grid), None)
            } else {
                (
                    self.regrid(GridView { asked_after: Some(attempts), ..grid }),
                    Some(
                        ActionView::Plain(
                            Action::LoadMore {
                                conn: self.current()->0.conn,
                                table: self.current()->0.table()->0,
                            },
                        ),
                    ),
                )
            }
        }
    }

    /// The grid of the tab in front, laid out for its rows.
    pub open spec fn laid_grid(self, rows: Option<PagedResult>) -> UiView {
        match rows {
            Some(rows) => self.regrid(self.own_grid().showing(rows)),
            None => self,
        }
    }

    #[verifier::opaque]
    pub open spec fn cell_selected(self, row: int, col: int, rows: Option<PagedResult>) -> UiView {
        if row_total(rows) == 0 || column_total(rows) == 0 {
            self
        } else {
            let at = (least(row, row_total(rows) - 1), least(col, column_total(rows) - 1));
            let available = self.viewports.grid.width as int;
            // Before a frame has been drawn nothing is known about what fits.
            let laid = if available == 0 {
                self
            } else {
                self.laid_grid(rows)
            };
            let grid = laid.own_grid();
            let left = if available == 0 {
                0
            } else {
                leftmost(grid, at.1, at.1, 0, available)
            };
            laid.regrid(
                GridView {
                    row: at.0 as usize,
                    col: at.1 as usize,
                    row_offset: into_view(
                        grid.row_offset as int,
                        at.0,
                        self.page(PaneId::Grid),
                    ) as usize,
                    col_offset: most(least(grid.col_offset as int, at.1), left) as usize,
                    ..grid
                },
            )
        }
    }

    pub open spec fn unanchored(self) -> UiView {
        self.regrid(GridView { anchor: None, ..self.own_grid() })
    }

    /// A selection started at the cursor if there is not one already. One made
    /// under another order counts as none.
    pub open spec fn anchored(self, snapshot: Snapshot) -> UiView {
        let grid = self.own_grid();
        let sort = self.active_sort(snapshot);
        self.regrid(
            GridView {
                anchor: match grid.anchor {
                    Some(anchor) if anchor.1 == sort => Some(anchor),
                    _ => Some(((grid.row, grid.col), sort)),
                },
                ..grid
            },
        )
    }

    /// Where the cursor is.
    pub open spec fn cursor(self) -> (int, int) {
        match self.active_grid() {
            Some(grid) => (grid.row as int, grid.col as int),
            None => (0, 0),
        }
    }

    /// What a copy asks for: the whole result, or the selection.
    pub open spec fn asked_to_copy(self, all: bool, snapshot: Snapshot, rows: PagedResult) -> Option<
        (usize, usize, usize, usize),
    > {
        if all {
            Some(
                (
                    0,
                    0,
                    less(rows.rows@.len() as int, 1) as usize,
                    less(rows.columns@.len() as int, 1) as usize,
                ),
            )
        } else {
            match self.active_grid() {
                Some(grid) => Some(grid.selection(self.active_sort(snapshot))),
                None => None,
            }
        }
    }

    /// The selection, or the whole result, on its way to the clipboard, and
    /// what is said of it.
    pub open spec fn copied(
        self,
        format: Format,
        all: bool,
        snapshot: Snapshot,
        rows: Option<PagedResult>,
    ) -> UiView {
        match rows {
            None => self,
            Some(rows) => match self.asked_to_copy(all, snapshot, rows) {
                None => self,
                Some(asked) => match part_there(rows, asked) {
                    None => self.toasted(Severity::Info, "nothing to copy"@),
                    Some(area) => {
                        let text = rendered(rows, format, area);
                        let bytes = encode_utf8(text).len();
                        let cells = ((area.2 - area.0 + 1) * (area.3 - area.1 + 1)) as nat;
                        if text.len() == 0 {
                            self.toasted(Severity::Info, "nothing to copy"@)
                        } else if base64_len(bytes as int) > MAX_PAYLOAD_BYTES {
                            self.toasted(
                                Severity::Warning,
                                decimal(cells) + " cells is "@ + decimal(bytes / 1024)
                                    + "KB, past what a terminal takes in one go — select fewer"@,
                            )
                        } else {
                            UiView {
                                pending_copy: Some(osc52(base64_of(text))),
                                ..self
                            }.toasted(
                                Severity::Info,
                                "sent "@ + decimal(cells) + " cells to the clipboard"@,
                            )
                        }
                    },
                },
            },
        }
    }

    // ── commands ───────────────────────────────────────────────────────────

    /// Whether a command moves what a pane shows, or what is selected in it.
    pub open spec fn moves(cmd: CmdView) -> bool {
        match cmd {
            CmdView::SetFilter(_) => true,
            CmdView::Plain(cmd) => match cmd {
                ViewCmd::ScrollBy { .. } | ViewCmd::ScrollToRatio { .. }
                | ViewCmd::ScrollToStart(_) | ViewCmd::ScrollToEnd(_) | ViewCmd::ScrollXBy { .. }
                | ViewCmd::SelectTreeRow(_) | ViewCmd::MoveTreeSelection(_)
                | ViewCmd::SelectCell { .. } | ViewCmd::MoveCellSelection { .. }
                | ViewCmd::ExtendCellSelection { .. } | ViewCmd::ExtendCellSelectionTo { .. }
                | ViewCmd::ResizeColumn { .. } => true,
                _ => false,
            },
            _ => false,
        }
    }

    /// Whether what a command does depends on the rows of the tab in front.
    pub open spec fn uses_rows(cmd: CmdView) -> bool {
        match cmd {
            CmdView::Plain(cmd) => match cmd {
                ViewCmd::ScrollBy { pane, .. } | ViewCmd::ScrollToRatio { pane, .. } => pane
                    == PaneId::Grid,
                ViewCmd::ScrollToEnd(pane) => pane == PaneId::Grid,
                ViewCmd::ScrollXBy { .. } | ViewCmd::SelectCell { .. }
                | ViewCmd::MoveCellSelection { .. } | ViewCmd::ExtendCellSelection { .. }
                | ViewCmd::ExtendCellSelectionTo { .. } | ViewCmd::ResizeColumn { .. }
                | ViewCmd::Copy { .. } => true,
                _ => false,
            },
            _ => false,
        }
    }

    /// What a command does to the screen, and the one action it can cause.
    pub open spec fn applied(
        self,
        cmd: CmdView,
        snapshot: Snapshot,
        rows: Option<PagedResult>,
    ) -> (UiView, Option<ActionView>) {
        match cmd {
            CmdView::SetFilter(filter) => (self.filtered(filter, snapshot), None),
            CmdView::SetHistoryTerms(filter) => self.history_searched(filter),
            CmdView::Palette(palette) => (
                UiView { palette, ..self },
                // Reading them is what opening it means.
                if palette is Some {
                    Some(ActionView::Plain(Action::LoadTemplates))
                } else {
                    None
                },
            ),
            CmdView::Plain(cmd) => match cmd {
                ViewCmd::FocusPane(pane) => (UiView { focus: pane, ..self }, None),
                ViewCmd::FocusNextPane | ViewCmd::FocusPrevPane => (
                    UiView {
                        focus: if self.focus == PaneId::Explorer {
                            PaneId::Grid
                        } else {
                            PaneId::Explorer
                        },
                        ..self
                    },
                    None,
                ),
                ViewCmd::ScrollBy { pane, delta } => self.scrolled(
                    pane,
                    stepped(self.offset(pane), delta as int),
                    snapshot,
                    rows,
                ).paged(pane, snapshot),
                ViewCmd::ScrollToRatio { pane, permille } => self.scrolled(
                    pane,
                    self.scrollable(pane, snapshot, rows) * least(permille as int, 1000) / 1000,
                    snapshot,
                    rows,
                ).paged(pane, snapshot),
                ViewCmd::ScrollToStart(pane) => (self.scrolled(pane, 0, snapshot, rows), None),
                ViewCmd::ScrollToEnd(pane) => self.scrolled(
                    pane,
                    usize::MAX as int,
                    snapshot,
                    rows,
                ).paged(pane, snapshot),
                ViewCmd::ScrollXBy { delta } => (
                    self.regrid(
                        GridView {
                            col_offset: least(
                                stepped(self.own_grid().col_offset as int, delta as int),
                                less(column_total(rows), 1),
                            ) as usize,
                            ..self.own_grid()
                        },
                    ),
                    None,
                ),
                ViewCmd::SelectTreeRow(index) => (
                    self.tree_row_selected(index as int, snapshot),
                    None,
                ),
                ViewCmd::MoveTreeSelection(delta) => (
                    self.tree_moved(delta as int, snapshot),
                    None,
                ),
                ViewCmd::SelectCell { row, col } => self.unanchored().cell_selected(
                    row as int,
                    col as int,
                    rows,
                ).paged(PaneId::Grid, snapshot),
                ViewCmd::MoveCellSelection { drow, dcol } => self.unanchored().cell_selected(
                    stepped(self.cursor().0, drow as int),
                    stepped(self.cursor().1, dcol as int),
                    rows,
                ).paged(PaneId::Grid, snapshot),
                ViewCmd::ExtendCellSelection { drow, dcol } => self.anchored(
                    snapshot,
                ).cell_selected(
                    stepped(self.cursor().0, drow as int),
                    stepped(self.cursor().1, dcol as int),
                    rows,
                ).paged(PaneId::Grid, snapshot),
                ViewCmd::ExtendCellSelectionTo { row, col } => self.anchored(
                    snapshot,
                ).cell_selected(row as int, col as int, rows).paged(PaneId::Grid, snapshot),
                ViewCmd::ResizeColumn { col, delta } => {
                    let laid = self.laid_grid(rows);
                    let natural = if rows is Some {
                        natural_width(laid.own_grid(), col as int)
                    } else {
                        0
                    };
                    (laid.regrid(laid.own_grid().resized(col, delta as int, natural)), None)
                },
                ViewCmd::MoveSplit { split: _, delta } => (
                    UiView {
                        explorer_width: Some(
                            most(
                                least(
                                    self.explorer_share(self.screen.width) + delta,
                                    u16::MAX as int,
                                ),
                                0,
                            ) as u16,
                        ),
                        ..self
                    },
                    None,
                ),
                ViewCmd::EvenSplit(_) => (UiView { explorer_width: None, ..self }, None),
                ViewCmd::OpenMenu { at, ranged } => {
                    // A gesture with no coordinates gets the top left of the
                    // grid, which is at least inside the pane the menu is
                    // about.
                    let corner = match at {
                        Some(at) => at,
                        None => (self.viewports.grid.x, self.viewports.grid.y),
                    };
                    (UiView { menu: Some(grid_menu(corner, ranged)), ..self }, None)
                },
                ViewCmd::CloseMenu => (UiView { menu: None, ..self }, None),
                ViewCmd::ToggleDetail => (self.detail_toggled(), None),
                ViewCmd::Copy { format, all } => (self.copied(format, all, snapshot, rows), None),
                ViewCmd::DismissModal => (UiView { modal: None, ..self }, None),
                ViewCmd::OpenTab { conn, table } => (
                    self.raised(tab_previews(conn, table@), conn, ContentView::Preview(table)),
                    None,
                ),
                ViewCmd::OpenDefinition { conn, table } => (
                    self.raised(
                        tab_defines(conn, table@),
                        conn,
                        ContentView::Definition { table, section: 0 },
                    ),
                    None,
                ),
                ViewCmd::SelectSection(pick) => (self.section_selected(pick, snapshot), None),
                ViewCmd::OpenSqlTab { conn } => (self.sql_opened(conn), None),
                ViewCmd::OpenHistoryTab { conn } => self.history_opened(conn),
                ViewCmd::ReuseRun(run) => (
                    match Self::past_run(snapshot, run) {
                        Some(entry) => self.inserted(entry.sql@, snapshot),
                        None => self,
                    },
                    None,
                ),
                ViewCmd::SelectTab(id) => (
                    if self.tab(id) is Some {
                        UiView { active_tab: Some(id), ..self }
                    } else {
                        self
                    },
                    None,
                ),
                ViewCmd::CloseTab(id) => (self.closed(id), None),
                ViewCmd::DismissToast(id) => (
                    UiView { toasts: self.toasts.filter(toast_is_not(id)), ..self },
                    None,
                ),
                ViewCmd::CommitTemplate => self.committed(snapshot),
                ViewCmd::UseTemplate(id) => (
                    self,
                    match snapshot.template_by_id(id) {
                        Some(template) => Some(
                            ActionView::Plain(
                                Action::ReadTemplate {
                                    id,
                                    body: template.body,
                                    dialect: self.dialect(snapshot),
                                },
                            ),
                        ),
                        None => None,
                    },
                ),
                ViewCmd::SubmitTemplate => (self, self.submitted(snapshot)),
                ViewCmd::ConfirmDeleteTemplate { id, name } => (
                    UiView {
                        palette: None,
                        modal: Some(
                            ModalView::question(
                                "Delete `"@ + name@ + "`?"@,
                                "It is not kept anywhere else."@,
                                "Delete"@,
                                IntentView::App(ActionView::Plain(Action::DeleteTemplate(id))),
                            ),
                        ),
                        ..self
                    },
                    None,
                ),
                // These have a view of their own.
                ViewCmd::SetFilter(_) | ViewCmd::SetHistoryTerms(_) | ViewCmd::Palette(_) => (
                    self,
                    None,
                ),
            },
        }
    }

    /// Whether this is what a command comes to, with these as the rows of the
    /// tab in front.
    pub open spec fn follows(
        self,
        cmd: CmdView,
        snapshot: Snapshot,
        rows: Option<PagedResult>,
        next: UiView,
        action: Option<ActionView>,
    ) -> bool {
        &&& Self::uses_rows(cmd) ==> self.shows(snapshot, rows)
        &&& (next, action) == self.applied(cmd, snapshot, rows)
    }

    pub open spec fn detail_toggled(self) -> UiView {
        UiView {
            detail_height: match self.detail_height {
                Some(_) => None,
                None => Some(DEFAULT_DETAIL_HEIGHT),
            },
            ..self
        }
    }
}

} // verus!
