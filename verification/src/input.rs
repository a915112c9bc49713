//! Turning gestures and keystrokes into intents.
//!
//! Both halves are functions of an event and a small context, which is what
//! lets it be stated, and proved, that every capability reachable with the
//! mouse also has a key binding.

use crate::copy::Format;
use crate::events::{KeyCode, KeyEvent, KeyEventKind};
use crate::hit::{ButtonId, PaneId, ScrollPart, SplitId, Target};
use crate::ids::{ConnId, QueryId, TabId};
use crate::intent::{
    app_of, intent_views, kind_of, view_of, Action, ActionView, CmdView, Context, Handover, Intent,
    IntentKind, IntentView, SectionPick, ViewCmd,
};
use crate::keymap::{
    a_bound_key_reaches_its_kind, bound, bound_in, bound_kind, every_kind_has_a_binding, key_table,
    place_of_kind, with_ctrl,
};
use crate::menu::{grid_menu, Menu, MenuView};
use crate::model::{
    conn_is, ConnectionView, HistoryEntry, LoadState, Profile, ProfileId, Snapshot, TableRef,
    Template, VisibleNode,
};
use crate::mouse::Gesture;
use crate::overlay::{Modal, ModalView};
use crate::palette::{list_of, Form, FormView, Palette, PaletteView};
use crate::search::{find, first, first_is_the_first, first_item, position_by_view, views};
use crate::state::{tab_is, ContentView, TabView, ToastView};
use crate::text::{blank, copy_of, is_blank, same_text, trim, trimmed};
use crate::tree::{a_shown_row_is_there, shown, visible};
use crate::ui::{Filter, FilterView, OpenTab, TabContent, Toast};
use vstd::prelude::*;

verus! {

/// Rows moved by one wheel notch. Three is the common terminal convention.
pub const WHEEL_LINES: i32 = 3;

/// Rows moved by a page key or a click on the scrollbar track.
pub const PAGE_LINES: i32 = 20;

// ── context ────────────────────────────────────────────────────────────────

/// What the input layer needs to know to turn an event into an intent.
///
/// Assembled by the render loop from `UiState` and the current snapshot.
#[derive(Debug, Clone, Copy)]
pub struct InputContext<'a> {
    pub snapshot: &'a Snapshot,
    pub focus: PaneId,
    pub modal_open: bool,
    /// The connection the selected row belongs to, for the operations that
    /// are about a connection rather than about a node.
    pub connection: Option<ConnId>,
    pub tree_selection: Option<usize>,
    /// The column of the selected grid cell. The keyboard equivalents of
    /// clicking a header and dragging a column edge act on it, which is the
    /// only thing that makes them equivalent: without it every key press would
    /// sort and resize column zero whatever the user had selected.
    pub grid_column: Option<usize>,
    /// Where the pointer is, for a gesture that opens something at it.
    pub pointer: (u16, u16),
    /// The selected rectangle, `(top, left, bottom, right)` inclusive.
    ///
    /// The whole rectangle rather than "is it more than one cell", because a
    /// right-click has to know whether it landed *inside* the selection: on it,
    /// the menu is about the selection; anywhere else, it is about the cell
    /// that was clicked, and leaving the selection where it was would act on a
    /// cell nobody pointed at.
    pub selection: Option<(usize, usize, usize, usize)>,
    /// The open context menu, so a click on one of its lines can be resolved to
    /// the intent that line carries.
    pub menu: Option<&'a Menu>,
    /// Which relation a tab points at is what turns a click on a header into
    /// a `SortPreview` for the right table.
    pub tabs: &'a Vec<OpenTab>,
    pub active_tab: Option<TabId>,
    /// The open dialog, so a click on one of its buttons resolves to the
    /// intent that button carries — the same way a menu line does.
    pub modal: Option<&'a Modal>,
    pub toasts: &'a Vec<Toast>,
    /// The explorer's search, or `None` when there is not one. It redirects
    /// the keyboard into itself only while it is being edited.
    pub filter: Option<&'a Filter>,
    /// The open palette, which holds the keyboard while it is up — and which
    /// a key has to be able to read in order to change it: the whole state
    /// travels on the command that changes it.
    pub palette: Option<&'a Palette>,
    /// The id a connection gets if this event opens one.
    pub new_conn: ConnId,
    /// The id a run gets if this event starts one.
    pub new_query: QueryId,
}

/// What is known when an event arrives.
pub struct InputView {
    pub snapshot: Snapshot,
    pub focus: PaneId,
    pub modal_open: bool,
    pub connection: Option<ConnId>,
    pub tree_selection: Option<usize>,
    pub grid_column: Option<usize>,
    pub pointer: (u16, u16),
    pub selection: Option<(usize, usize, usize, usize)>,
    pub menu: Option<MenuView>,
    pub tabs: Seq<TabView>,
    pub active_tab: Option<TabId>,
    pub modal: Option<ModalView>,
    pub toasts: Seq<ToastView>,
    pub filter: Option<FilterView>,
    pub palette: Option<PaletteView>,
    pub new_conn: ConnId,
    pub new_query: QueryId,
}

/// What something that may not be there says.
pub open spec fn seen<T: View>(thing: Option<&T>) -> Option<T::V> {
    match thing {
        Some(thing) => Some(thing@),
        None => None,
    }
}

impl<'a> View for InputContext<'a> {
    type V = InputView;

    open spec fn view(&self) -> InputView {
        InputView {
            snapshot: *self.snapshot,
            focus: self.focus,
            modal_open: self.modal_open,
            connection: self.connection,
            tree_selection: self.tree_selection,
            grid_column: self.grid_column,
            pointer: self.pointer,
            selection: self.selection,
            menu: seen(self.menu),
            tabs: views(self.tabs@),
            active_tab: self.active_tab,
            modal: seen(self.modal),
            toasts: views(self.toasts@),
            filter: seen(self.filter),
            palette: seen(self.palette),
            new_conn: self.new_conn,
            new_query: self.new_query,
        }
    }
}

/// Whether a profile has a connection that is open.
pub open spec fn has_connection(snapshot: Snapshot, id: ProfileId) -> bool {
    exists|i: int|
        0 <= i < snapshot.connections@.len() && (#[trigger] snapshot.connections@[i]).profile.0@
            == id.0@ && snapshot.connections@[i].live()
}

pub open spec fn unconnected(snapshot: Snapshot) -> spec_fn(Profile) -> bool {
    |p: Profile| !has_connection(snapshot, p.id)
}

impl InputView {
    pub open spec fn current(self) -> Option<TabView> {
        match self.active_tab {
            Some(id) => first_item(self.tabs, tab_is(id)),
            None => None,
        }
    }

    /// Which profile a connection is opened to: the first that has none, and
    /// the first of all once every one has.
    pub open spec fn connectable(self) -> Option<ProfileId> {
        match first_item(self.snapshot.profiles@, unconnected(self.snapshot)) {
            Some(profile) => Some(profile.id),
            None => if self.snapshot.profiles@.len() > 0 {
                Some(self.snapshot.profiles@[0].id)
            } else {
                None
            },
        }
    }

    pub open spec fn filter_text(self) -> Option<Seq<char>> {
        match self.filter {
            Some(filter) => Some(filter.text),
            None => None,
        }
    }

    /// The node a *visible* row points at.
    pub open spec fn node(self, index: int) -> Option<VisibleNode> {
        let rows = shown(self.snapshot.explorer@, self.filter_text());
        if 0 <= index < rows.len() {
            Some(self.snapshot.explorer@[rows[index] as int])
        } else {
            None
        }
    }

    /// A connection a SQL tab can be opened on: the selected row's, and
    /// otherwise the first that is still live.
    pub open spec fn sql_connection(self) -> Option<ConnId> {
        match self.connection {
            Some(conn) => if self.snapshot.has_live(conn) {
                Some(conn)
            } else {
                self.snapshot.first_live()
            },
            None => self.snapshot.first_live(),
        }
    }

    /// The tab in front, when it is one with a buffer to edit.
    pub open spec fn editable_tab(self) -> Option<TabId> {
        match self.current() {
            Some(tab) => if tab.content is Sql {
                Some(tab.id)
            } else {
                None
            },
            None => None,
        }
    }

    /// Whether there is something to run, and somewhere to run it.
    pub open spec fn can_run(self) -> bool {
        self.current() matches Some(tab) && tab.sql() matches Some(text) && !blank(text)
            && self.snapshot.has_live(tab.conn)
    }

    /// The relation the tab in front is a preview of.
    pub open spec fn active_preview(self) -> Option<(ConnId, TableRef)> {
        match self.current() {
            Some(tab) => match tab.table() {
                Some(table) => Some((tab.conn, table)),
                None => None,
            },
            None => None,
        }
    }

    /// The same relation, but only where its driver will order a preview.
    pub open spec fn sortable_preview(self) -> Option<(ConnId, TableRef)> {
        match self.active_preview() {
            Some((conn, table)) => match first_item(self.snapshot.connections@, conn_is(conn)) {
                Some(c) => if c.sorts() {
                    Some((conn, table))
                } else {
                    None
                },
                None => None,
            },
            None => None,
        }
    }

    /// Whether more than one cell is selected.
    pub open spec fn ranged(self) -> bool {
        self.selection matches Some((top, left, bottom, right)) && (top != bottom || left != right)
    }

    /// Whether a cell is one of those selected.
    pub open spec fn selects(self, row: usize, col: usize) -> bool {
        self.selection matches Some((top, left, bottom, right)) && top <= row <= bottom && left
            <= col <= right
    }

    /// The history's search box, when its tab is the one in front.
    pub open spec fn searching(self) -> Option<FilterView> {
        match self.current() {
            Some(tab) => tab.searches(),
            None => None,
        }
    }

    /// The run the history's grid has selected, when that is what is in front.
    pub open spec fn selected_run(self) -> Option<HistoryEntry> {
        match (self.searching(), self.selection, self.snapshot.history.data) {
            (Some(_), Some((row, _, _, _)), LoadState::Ready(entries)) => if row < entries@.len() {
                Some(entries@[row as int])
            } else {
                None
            },
            _ => None,
        }
    }

    /// The context a keystroke is read in: whatever is on top owns the
    /// keyboard.
    pub open spec fn key_context(self) -> Context {
        if self.modal_open {
            Context::Modal
        } else if self.palette is Some {
            Context::Palette
        } else if match self.searching() {
            Some(history) => history.editing,
            None => self.filter matches Some(filter) && filter.editing,
        } {
            Context::Filter
        } else {
            match self.focus {
                PaneId::Explorer => Context::Explorer,
                PaneId::Grid | PaneId::Detail => Context::Grid,
                PaneId::TabBar | PaneId::StatusBar => Context::Global,
            }
        }
    }
}

impl<'a> InputContext<'a> {
    fn current(&self) -> (r: Option<&'a OpenTab>)
        ensures
            match r {
                Some(tab) => self@.current() == Some(tab@) && self.active_tab == Some(tab.id),
                None => self@.current() is None,
            },
    {
        let id: TabId = match self.active_tab {
            Some(id) => id,
            None => return None,
        };
        let wanted = |t: &OpenTab| -> (b: bool)
            ensures b == tab_is(id)(t@)
        { t.id == id };
        match position_by_view(self.tabs, wanted, Ghost(tab_is(id))) {
            Some(i) => Some(&self.tabs[i]),
            None => None,
        }
    }

    /// Which profile `c` connects to.
    ///
    /// The first one nothing is connected to, so that with several profiles it
    /// works through them rather than reopening the first — and the first
    /// profile again once they all have a connection, because a second window
    /// onto the same database is a real thing to want, and a key that goes
    /// dead once is worse than one that repeats itself.
    ///
    /// A connection the user closed, or one that failed, is not a connection:
    /// counting its row would make `c` skip past the profile the user is
    /// trying to reopen and connect to something else instead.
    fn connectable_profile(&self) -> (r: Option<ProfileId>)
        ensures
            r == self@.connectable(),
    {
        let snapshot: &Snapshot = self.snapshot;
        let wanted = |p: &Profile| -> (b: bool)
            ensures b == unconnected(*snapshot)(*p)
        { !is_connected(snapshot, &p.id) };
        match find(&snapshot.profiles, wanted, Ghost(unconnected(*snapshot))) {
            Some(profile) => Some(profile.id.clone()),
            None => if snapshot.profiles.len() > 0 {
                Some(snapshot.profiles[0].id.clone())
            } else {
                None
            },
        }
    }

    /// The node a *visible* row points at.
    ///
    /// Through the filter, not straight into the tree: a row number means a
    /// position on screen, and with rows hidden the two stop agreeing. Acting
    /// on the wrong one is how a click opens a table the user cannot see.
    fn node(&self, index: usize) -> (r: Option<&'a VisibleNode>)
        ensures
            match r {
                Some(node) => self@.node(index as int) == Some(*node),
                None => self@.node(index as int) is None,
            },
    {
        let rows: Vec<usize> = visible(
            &self.snapshot.explorer,
            match self.filter {
                Some(filter) => Some(filter.text.as_str()),
                None => None,
            },
        );
        if index < rows.len() {
            let n: usize = self.snapshot.explorer.len();
            proof {
                a_shown_row_is_there(self.snapshot.explorer@, self@.filter_text(), index as int);
            }
            Some(&self.snapshot.explorer[rows[index]])
        } else {
            None
        }
    }

    /// A connection a SQL tab can be opened on: the selected row's, and
    /// otherwise the first that is still live.
    ///
    /// Not `connection` as it stands, which falls back to the first row
    /// whatever its status. A closed connection keeps its row, so after
    /// disconnecting the last one that fallback still answers — and the tab it
    /// mints would be one with nowhere to run anything. The fallback to the
    /// first *live* one is what keeps this and the bar's own `+` agreeing on
    /// when there is somewhere to run a query.
    fn sql_connection(&self) -> (r: Option<ConnId>)
        ensures
            r == self@.sql_connection(),
    {
        if let Some(conn) = self.connection {
            if self.snapshot.is_live(conn) {
                return Some(conn);
            }
        }
        self.snapshot.live_connection()
    }

    /// The active tab, when it is one with a buffer to edit.
    fn editable_tab(&self) -> (r: Option<TabId>)
        ensures
            r == self@.editable_tab(),
    {
        match self.current() {
            Some(tab) => if tab.sql().is_some() {
                Some(tab.id)
            } else {
                None
            },
            None => None,
        }
    }

    /// Run what is in the active tab's buffer, when there is something to run.
    ///
    /// An empty buffer is not: running nothing produces a statement the server
    /// refuses, reported as an error, for a key press that should have done
    /// nothing at all.
    fn run(&self) -> (r: Vec<Intent>)
        ensures
            intent_views(r@) == ran(self@),
    {
        match self.current() {
            Some(tab) => match &tab.content {
                TabContent::Sql { text, .. } => if !is_blank(text.as_str())
                    && self.snapshot.is_live(tab.conn) {
                    one(
                        Intent::App(
                            Action::RunQuery {
                                conn: tab.conn,
                                query: self.new_query,
                                sql: text.clone(),
                                max_rows: None,
                                // The session's own ceiling is the only one
                                // here: a person running a query in front of
                                // them has already agreed to it.
                                max_bytes: None,
                            },
                        ),
                    )
                } else {
                    nothing()
                },
                _ => nothing(),
            },
            None => nothing(),
        }
    }

    /// The relation the active tab points at, if any.
    fn active_preview(&self) -> (r: Option<(ConnId, TableRef)>)
        ensures
            r == self@.active_preview(),
    {
        match self.current() {
            Some(tab) => match tab.table() {
                Some(table) => Some((tab.conn, table.clone())),
                None => None,
            },
            None => None,
        }
    }

    /// The same relation, but only where its driver will order a preview.
    ///
    /// The header keeps its hit target and the click is simply not read.
    /// Dropping the target would let the click fall through to the pane
    /// beneath and focus the grid, which reads as a header that was never a
    /// target. What the click cannot do is said in how the header is drawn, off
    /// the same capability.
    fn sortable_preview(&self) -> (r: Option<(ConnId, TableRef)>)
        ensures
            r == self@.sortable_preview(),
    {
        match self.active_preview() {
            Some((conn, table)) => match self.snapshot.connection(conn) {
                Some(c) => if c.can_sort_preview() {
                    Some((conn, table))
                } else {
                    None
                },
                None => None,
            },
            None => None,
        }
    }

    /// Whether the selection covers more than one cell.
    fn ranged(&self) -> (b: bool)
        ensures
            b == self@.ranged(),
    {
        match self.selection {
            Some((top, left, bottom, right)) => top != bottom || left != right,
            None => false,
        }
    }

    fn selects(&self, row: usize, col: usize) -> (b: bool)
        ensures
            b == self@.selects(row, col),
    {
        match self.selection {
            Some((top, left, bottom, right)) => top <= row && row <= bottom && left <= col && col
                <= right,
            None => false,
        }
    }

    /// The history's search box, when its tab is the one in front.
    fn searching(&self) -> (r: Option<&'a Filter>)
        ensures
            seen(r) == self@.searching(),
    {
        match self.current() {
            Some(tab) => tab.searches(),
            None => None,
        }
    }

    /// The run the history's grid has selected, when that is what is in front.
    ///
    /// Only from the history tab: the same selection on a preview is a cell of
    /// somebody's data, and a key that read it as a statement would be reading
    /// the wrong list.
    fn selected_run(&self) -> (r: Option<&'a HistoryEntry>)
        ensures
            match r {
                Some(run) => self@.selected_run() == Some(*run),
                None => self@.selected_run() is None,
            },
    {
        if self.searching().is_none() {
            return None;
        }
        match (self.selection, &self.snapshot.history.data) {
            (Some((row, _, _, _)), LoadState::Ready(entries)) => if row < entries.len() {
                Some(&entries[row])
            } else {
                None
            },
            _ => None,
        }
    }

    /// The context a keystroke is read in. A modal takes the keyboard over
    /// entirely, which is why `Esc` can mean two different things without
    /// being ambiguous.
    fn key_context(&self) -> (r: Context)
        ensures
            r == self@.key_context(),
    {
        if self.modal_open {
            return Context::Modal;
        }
        // Above the search box and below a dialog: the palette is opened
        // deliberately and typed into, and a dialog on top of it is something
        // that has to be answered first.
        if self.palette.is_some() {
            return Context::Palette;
        }
        // Whichever box is in front owns the keyboard. The explorer's search
        // can be left open behind the history tab, and a keystroke that went
        // to it would be typed into something nobody is looking at — while the
        // box in front sat there apparently ignoring it.
        let typing: bool = match self.searching() {
            Some(history) => history.editing,
            None => match self.filter {
                Some(filter) => filter.editing,
                None => false,
            },
        };
        if typing {
            return Context::Filter;
        }
        match self.focus {
            PaneId::Explorer => Context::Explorer,
            // The detail pane shows the grid's selected cell, so the grid's
            // bindings are the ones that make sense in it — and scrolling,
            // which is `Global`, is what it is mostly for.
            PaneId::Grid | PaneId::Detail => Context::Grid,
            PaneId::TabBar | PaneId::StatusBar => Context::Global,
        }
    }

    /// The saved statements, once they have been read.
    fn templates(&self) -> (r: Option<&'a Vec<Template>>)
        ensures
            match r {
                Some(held) => self@.snapshot.held() == Some(held@),
                None => self@.snapshot.held() is None,
            },
    {
        self.snapshot.templates.data.ready()
    }
}

fn is_connected(snapshot: &Snapshot, id: &ProfileId) -> (b: bool)
    ensures
        b == has_connection(*snapshot, *id),
{
    let mut i: usize = 0;
    while i < snapshot.connections.len()
        invariant
            i <= snapshot.connections@.len(),
            forall|j: int|
                0 <= j < i ==> !((#[trigger] snapshot.connections@[j]).profile.0@ == id.0@
                    && snapshot.connections@[j].live()),
        decreases snapshot.connections@.len() - i,
    {
        let c: &ConnectionView = &snapshot.connections[i];
        if same_text(c.profile.0.as_str(), id.0.as_str()) && c.is_live() {
            return true;
        }
        i += 1;
    }
    false
}

// ── lists of intents ───────────────────────────────────────────────────────

fn nothing() -> (r: Vec<Intent>)
    ensures
        intent_views(r@) == Seq::<IntentView>::empty(),
{
    let r: Vec<Intent> = Vec::new();
    proof {
        assert(intent_views(r@) =~= Seq::empty());
    }
    r
}

fn one(intent: Intent) -> (r: Vec<Intent>)
    ensures
        intent_views(r@) == seq![intent@],
{
    let ghost said = intent@;
    let r: Vec<Intent> = vec![intent];
    proof {
        assert(intent_views(r@) =~= seq![said]);
    }
    r
}

fn two(first: Intent, second: Intent) -> (r: Vec<Intent>)
    ensures
        intent_views(r@) == seq![first@, second@],
{
    let ghost said = seq![first@, second@];
    let r: Vec<Intent> = vec![first, second];
    proof {
        assert(intent_views(r@) =~= said);
    }
    r
}

// ── what a gesture means ───────────────────────────────────────────────────

/// No intents at all.
pub open spec fn no_intents() -> Seq<IntentView> {
    Seq::empty()
}

/// What running the buffer in front comes to.
pub open spec fn ran(ctx: InputView) -> Seq<IntentView> {
    match ctx.current() {
        Some(tab) => match tab.sql() {
            Some(text) => if !blank(text) && ctx.snapshot.has_live(tab.conn) {
                seq![
                    IntentView::App(
                        ActionView::RunQuery {
                            conn: tab.conn,
                            query: ctx.new_query,
                            sql: text,
                            max_rows: None,
                            max_bytes: None,
                        },
                    ),
                ]
            } else {
                no_intents()
            },
            None => no_intents(),
        },
        None => no_intents(),
    }
}

/// A scroll of a pane by some notches of the wheel.
pub open spec fn wheeled(pane: PaneId, delta: i8) -> Seq<IntentView> {
    seq![view_of(ViewCmd::ScrollBy { pane, delta: (delta * WHEEL_LINES) as i32 })]
}

/// A cell put in front, and the cursor on it.
pub open spec fn cell_chosen(row: usize, col: usize) -> Seq<IntentView> {
    seq![view_of(ViewCmd::FocusPane(PaneId::Grid)), view_of(ViewCmd::SelectCell { row, col })]
}

/// A relation opened: both, always, because asking for the rows is what makes a
/// tab raised from a failure try again.
pub open spec fn previewed(conn: ConnId, table: TableRef) -> Seq<IntentView> {
    seq![
        view_of(ViewCmd::OpenTab { conn, table }),
        app_of(Action::PreviewTable { conn, table }),
    ]
}

/// A node opened: relations open a preview, branches expand.
pub open spec fn activated(index: int, ctx: InputView) -> Seq<IntentView> {
    match ctx.node(index) {
        None => no_intents(),
        Some(node) => match node.node_ref.relation() {
            Some(table) => previewed(node.conn, table),
            None => seq![app_of(Action::ToggleNode { conn: node.conn, node: node.node_ref })],
        },
    }
}

/// A definition opened, where there is one.
pub open spec fn described(index: int, ctx: InputView) -> Seq<IntentView> {
    match ctx.node(index) {
        None => no_intents(),
        Some(node) => match node.node_ref.relation() {
            None => no_intents(),
            Some(table) => seq![
                view_of(ViewCmd::OpenDefinition { conn: node.conn, table }),
                app_of(Action::DescribeTable { conn: node.conn, table, refresh: false }),
            ],
        },
    }
}

/// A branch opened or closed.
pub open spec fn toggled(index: int, ctx: InputView, collapse_only: bool) -> Seq<IntentView> {
    match ctx.node(index) {
        None => no_intents(),
        Some(node) => if node.state is Leaf || (collapse_only && !(node.state is Expanded)) {
            no_intents()
        } else {
            seq![app_of(Action::ToggleNode { conn: node.conn, node: node.node_ref })]
        },
    }
}

/// Whether another tab is open on the same relation.
pub open spec fn still_open(tabs: Seq<TabView>, closing: TabView, table: TableRef) -> bool {
    exists|i: int|
        0 <= i < tabs.len() && (#[trigger] tabs[i]).id != closing.id && tabs[i].conn
            == closing.conn && (tabs[i].table() matches Some(held) && held@ == table@)
}

/// A tab closed, and what the store kept for it forgotten.
pub open spec fn tab_closed(id: TabId, ctx: InputView) -> Seq<IntentView> {
    match first_item(ctx.tabs, tab_is(id)) {
        None => no_intents(),
        Some(closing) => {
            let close = seq![view_of(ViewCmd::CloseTab(id))];
            match closing.content {
                ContentView::Definition { table, .. } => close.push(
                    app_of(Action::ForgetDefinition { conn: closing.conn, table }),
                ),
                ContentView::Preview(table) => if still_open(ctx.tabs, closing, table) {
                    close
                } else {
                    close.push(app_of(Action::ForgetPreview { conn: closing.conn, table }))
                },
                ContentView::Sql { query: Some(query), .. } => close.push(
                    app_of(Action::ForgetQuery(query)),
                ),
                _ => close,
            }
        },
    }
}

/// A line of the palette chosen: both selected and used, because the palette is
/// open in order to pick something.
pub open spec fn line_chosen(index: usize, ctx: InputView) -> Seq<IntentView> {
    match (ctx.palette, ctx.snapshot.held()) {
        (Some(open), Some(held)) => {
            let next = PaletteView { selected: index, ..open };
            match next.picks(held) {
                Some(at) => seq![
                    IntentView::View(CmdView::Palette(Some(next))),
                    view_of(ViewCmd::UseTemplate(held[at].id)),
                ],
                None => no_intents(),
            }
        },
        _ => no_intents(),
    }
}

/// A line of the menu chosen.
pub open spec fn item_chosen(index: int, ctx: InputView) -> Seq<IntentView> {
    match ctx.menu {
        Some(menu) => if 0 <= index < menu.entries.len() && menu.entries[index].enabled {
            seq![view_of(ViewCmd::CloseMenu), menu.entries[index].intent]
        } else {
            no_intents()
        },
        None => no_intents(),
    }
}

/// One of a dialog's answers given.
pub open spec fn answered(index: int, ctx: InputView) -> Seq<IntentView> {
    match ctx.modal {
        Some(modal) => if 0 <= index < modal.choices.len() {
            seq![modal.choices[index].intent]
        } else {
            no_intents()
        },
        None => no_intents(),
    }
}

pub open spec fn sql_tab_opened(ctx: InputView) -> Seq<IntentView> {
    match ctx.sql_connection() {
        Some(conn) => seq![view_of(ViewCmd::OpenSqlTab { conn })],
        None => no_intents(),
    }
}

pub open spec fn edited(ctx: InputView) -> Seq<IntentView> {
    match ctx.editable_tab() {
        Some(tab) => seq![IntentView::Handover(Handover::Edit(tab))],
        None => no_intents(),
    }
}

pub open spec fn sorted_by(column: usize, ctx: InputView) -> Seq<IntentView> {
    match ctx.sortable_preview() {
        Some((conn, table)) => seq![app_of(Action::SortPreview { conn, table, column })],
        None => no_intents(),
    }
}

/// What a gesture on a target means, but for the menu that it may close.
pub open spec fn gesture_means(target: Target, gesture: Gesture, ctx: InputView) -> Seq<IntentView> {
    match (target, gesture) {
        (Target::Pane(pane), Gesture::Click) => seq![view_of(ViewCmd::FocusPane(pane))],
        (Target::Pane(PaneId::Grid), Gesture::DoubleClick) => edited(ctx),
        (Target::Pane(pane), Gesture::Scroll(delta)) => wheeled(pane, delta),
        (Target::Pane(PaneId::Grid), Gesture::ScrollX(delta)) => seq![
            view_of(ViewCmd::ScrollXBy { delta: delta as i32 }),
        ],
        (Target::TreeRow { index }, Gesture::Click) => seq![
            view_of(ViewCmd::FocusPane(PaneId::Explorer)),
            view_of(ViewCmd::SelectTreeRow(index)),
        ],
        (Target::TreeRow { index }, Gesture::DoubleClick) => activated(index as int, ctx),
        (Target::TreeToggle { index }, Gesture::Click) => toggled(index as int, ctx, false),
        (Target::TreeRow { .. }, Gesture::Scroll(delta)) => wheeled(PaneId::Explorer, delta),
        (Target::TreeToggle { .. }, Gesture::Scroll(delta)) => wheeled(PaneId::Explorer, delta),
        (Target::GridCell { row, col }, Gesture::RightClick) => {
            let menu = view_of(
                ViewCmd::OpenMenu {
                    at: Some(ctx.pointer),
                    ranged: ctx.selects(row, col) && ctx.ranged(),
                },
            );
            if ctx.selects(row, col) {
                seq![menu]
            } else {
                cell_chosen(row, col).push(menu)
            }
        },
        (Target::MenuItem { index }, Gesture::Click) => item_chosen(index as int, ctx),
        (Target::GridCell { row, col }, Gesture::Down) => cell_chosen(row, col),
        (Target::GridCell { row, col }, Gesture::DragOver { from: Target::GridCell { .. } }) => seq![
            view_of(ViewCmd::ExtendCellSelectionTo { row, col }),
        ],
        (Target::GridCell { row, col }, Gesture::Click) => cell_chosen(row, col),
        (Target::GridHeader { col }, Gesture::Click) => sorted_by(col, ctx),
        (Target::GridColEdge { col }, Gesture::DragBy { dx, .. }) => seq![
            view_of(ViewCmd::ResizeColumn { col, delta: dx }),
        ],
        (Target::GridCell { .. }, Gesture::Scroll(delta)) => wheeled(PaneId::Grid, delta),
        (Target::GridHeader { .. }, Gesture::Scroll(delta)) => wheeled(PaneId::Grid, delta),
        (Target::GridColEdge { .. }, Gesture::Scroll(delta)) => wheeled(PaneId::Grid, delta),
        (Target::GridCell { .. }, Gesture::ScrollX(delta)) => seq![
            view_of(ViewCmd::ScrollXBy { delta: delta as i32 }),
        ],
        (Target::GridHeader { .. }, Gesture::ScrollX(delta)) => seq![
            view_of(ViewCmd::ScrollXBy { delta: delta as i32 }),
        ],
        (Target::Scrollbar { pane, part: ScrollPart::Thumb }, Gesture::DragBy { dy, .. }) => seq![
            view_of(ViewCmd::ScrollBy { pane, delta: dy as i32 }),
        ],
        (Target::Scrollbar { pane, part: ScrollPart::TrackBefore }, Gesture::Click) => seq![
            view_of(ViewCmd::ScrollBy { pane, delta: (-PAGE_LINES) as i32 }),
        ],
        (Target::Scrollbar { pane, part: ScrollPart::TrackAfter }, Gesture::Click) => seq![
            view_of(ViewCmd::ScrollBy { pane, delta: PAGE_LINES }),
        ],
        (Target::Scrollbar { pane, .. }, Gesture::Scroll(delta)) => wheeled(pane, delta),
        (Target::Splitter(split), Gesture::DragBy { dx, .. }) => seq![
            view_of(ViewCmd::MoveSplit { split, delta: dx }),
        ],
        (Target::Splitter(split), Gesture::DoubleClick) => seq![view_of(ViewCmd::EvenSplit(split))],
        (Target::Tab(id), Gesture::Click) => seq![view_of(ViewCmd::SelectTab(id))],
        (Target::TabClose(id), Gesture::Click) => tab_closed(id, ctx),
        (Target::Tab(id), Gesture::MiddleClick) => tab_closed(id, ctx),
        (Target::Button(ButtonId::Cancel(busy)), Gesture::Click) => seq![
            app_of(Action::Cancel(busy)),
        ],
        (Target::Button(ButtonId::Filter), Gesture::Click) => match ctx.filter {
            Some(filter) => seq![
                IntentView::View(
                    CmdView::SetFilter(Some(FilterView { editing: true, ..filter })),
                ),
            ],
            None => no_intents(),
        },
        (Target::PaletteRow { index }, Gesture::Click) => line_chosen(index, ctx),
        (Target::Section { index }, Gesture::Click) => seq![
            view_of(ViewCmd::SelectSection(SectionPick::At(index))),
        ],
        (Target::Section { .. }, Gesture::Scroll(delta)) => wheeled(PaneId::Grid, delta),
        (Target::Button(ButtonId::RunQuery), Gesture::Click) => ran(ctx),
        (Target::Button(ButtonId::NewSqlTab), Gesture::Click) => sql_tab_opened(ctx),
        (Target::Button(ButtonId::ModalChoice { index }), Gesture::Click) => answered(
            index as int,
            ctx,
        ),
        (Target::Button(ButtonId::DismissModal), Gesture::Click) => seq![
            view_of(ViewCmd::DismissModal),
        ],
        (Target::Toast(id), Gesture::Click) => seq![view_of(ViewCmd::DismissToast(id))],
        (Target::Backdrop, Gesture::Click) => if ctx.palette is Some && !ctx.modal_open {
            seq![IntentView::View(CmdView::Palette(None))]
        } else {
            seq![view_of(ViewCmd::DismissModal)]
        },
        _ => no_intents(),
    }
}

/// Whether a gesture closes a menu that is open.
pub open spec fn closes_the_menu(target: Target, gesture: Gesture) -> bool {
    &&& gesture is Click || gesture is RightClick || gesture is Down || gesture is Scroll
        || gesture is ScrollX
    &&& !(target is MenuItem) && !(target is Menu)
}

/// What a gesture on a target means.
pub open spec fn mouse_means(target: Target, gesture: Gesture, ctx: InputView) -> Seq<IntentView> {
    if ctx.menu is Some && closes_the_menu(target, gesture) {
        seq![view_of(ViewCmd::CloseMenu)] + gesture_means(target, gesture, ctx)
    } else {
        gesture_means(target, gesture, ctx)
    }
}

// ── mouse ──────────────────────────────────────────────────────────────────

/// What a gesture on a target means.
pub fn on_mouse(target: Target, gesture: Gesture, ctx: &InputContext<'_>) -> (r: Vec<Intent>)
    ensures
        intent_views(r@) == mouse_means(target, gesture, ctx@),
{
    let mut meant: Vec<Intent> = mouse_intents(target, gesture, ctx);
    // A gesture anywhere but the menu closes it, and still does what it was a
    // gesture on. A menu that stayed open would have to be dismissed before
    // anything else worked, which is a mode nobody asked for.
    //
    // The press as well as the click, because a drag on the grid starts on the
    // press: without it a rectangle is swept out under a menu that is still
    // sitting on top of it. The wheel too — the menu is placed in screen
    // coordinates, so content scrolling beneath leaves it pointing at a cell
    // that has moved.
    let closing: bool = match gesture {
        Gesture::Click | Gesture::RightClick | Gesture::Down | Gesture::Scroll(_)
        | Gesture::ScrollX(_) => true,
        _ => false,
    };
    let on_it: bool = match target {
        Target::MenuItem { .. } | Target::Menu => true,
        _ => false,
    };
    if ctx.menu.is_some() && closing && !on_it {
        let ghost alone = intent_views(meant@);
        let mut intents: Vec<Intent> = one(Intent::View(ViewCmd::CloseMenu));
        let ghost close = intents@;
        let ghost rest = meant@;
        intents.append(&mut meant);
        proof {
            assert(intent_views(close + rest) =~= intent_views(close) + intent_views(rest));
        }
        return intents;
    }
    meant
}

fn scroll(pane: PaneId, delta: i8) -> (r: Vec<Intent>)
    ensures
        intent_views(r@) == wheeled(pane, delta),
{
    one(Intent::View(ViewCmd::ScrollBy { pane, delta: delta as i32 * WHEEL_LINES }))
}

fn choose_cell(row: usize, col: usize) -> (r: Vec<Intent>)
    ensures
        intent_views(r@) == cell_chosen(row, col),
{
    two(
        Intent::View(ViewCmd::FocusPane(PaneId::Grid)),
        Intent::View(ViewCmd::SelectCell { row, col }),
    )
}

/// The menu of a cell.
///
/// Outside the selection, the click moves the selection first: a menu whose
/// "Copy cell" copies a cell somewhere else on screen is worse than no menu.
fn open_menu(row: usize, col: usize, ctx: &InputContext<'_>) -> (r: Vec<Intent>)
    ensures
        intent_views(r@) == gesture_means(
            (Target::GridCell { row, col }),
            Gesture::RightClick,
            ctx@,
        ),
{
    let inside: bool = ctx.selects(row, col);
    let menu: Intent = Intent::View(
        ViewCmd::OpenMenu { at: Some(ctx.pointer), ranged: inside && ctx.ranged() },
    );
    if inside {
        return one(menu);
    }
    let ghost said = menu@;
    let mut intents: Vec<Intent> = choose_cell(row, col);
    let ghost before = intents@;
    intents.push(menu);
    proof {
        assert(intent_views(intents@) =~= intent_views(before).push(said));
    }
    intents
}

fn edit(ctx: &InputContext<'_>) -> (r: Vec<Intent>)
    ensures
        intent_views(r@) == edited(ctx@),
{
    match ctx.editable_tab() {
        Some(tab) => one(Intent::Handover(Handover::Edit(tab))),
        None => nothing(),
    }
}

fn sort_by(column: usize, ctx: &InputContext<'_>) -> (r: Vec<Intent>)
    ensures
        intent_views(r@) == sorted_by(column, ctx@),
{
    match ctx.sortable_preview() {
        Some((conn, table)) => one(Intent::App(Action::SortPreview { conn, table, column })),
        None => nothing(),
    }
}

fn open_sql_tab(ctx: &InputContext<'_>) -> (r: Vec<Intent>)
    ensures
        intent_views(r@) == sql_tab_opened(ctx@),
{
    match ctx.sql_connection() {
        Some(conn) => one(Intent::View(ViewCmd::OpenSqlTab { conn })),
        None => nothing(),
    }
}

/// Choosing an entry is the entry's own intent. The menu cannot offer anything
/// the keyboard cannot.
fn choose_item(index: usize, ctx: &InputContext<'_>) -> (r: Vec<Intent>)
    ensures
        intent_views(r@) == item_chosen(index as int, ctx@),
{
    match ctx.menu {
        Some(menu) => if index < menu.entries.len() && menu.entries[index].enabled {
            proof {
                assert(menu@.entries[index as int] == menu.entries@[index as int]@);
            }
            two(Intent::View(ViewCmd::CloseMenu), menu.entries[index].intent.clone())
        } else {
            proof {
                if index < menu.entries@.len() {
                    assert(menu@.entries[index as int] == menu.entries@[index as int]@);
                }
            }
            nothing()
        },
        None => nothing(),
    }
}

/// Just the answer. The dialog closes because the snapshot stops saying the
/// question is open, the same way every other piece of this screen follows the
/// store — and until it does, answering twice is refused there rather than
/// prevented here.
fn answer(index: usize, ctx: &InputContext<'_>) -> (r: Vec<Intent>)
    ensures
        intent_views(r@) == answered(index as int, ctx@),
{
    match ctx.modal {
        Some(modal) => if index < modal.choices.len() {
            proof {
                assert(modal@.choices[index as int] == modal.choices@[index as int]@);
            }
            one(modal.choices[index].intent.clone())
        } else {
            nothing()
        },
        None => nothing(),
    }
}

/// One click both selects and uses: the palette is open in order to pick
/// something, and a click that only highlighted a row would leave the pointer
/// needing the keyboard to finish.
fn choose_line(index: usize, ctx: &InputContext<'_>) -> (r: Vec<Intent>)
    ensures
        intent_views(r@) == line_chosen(index, ctx@),
{
    let open: &Palette = match ctx.palette {
        Some(open) => open,
        None => return nothing(),
    };
    let held: &Vec<Template> = match ctx.templates() {
        Some(held) => held,
        None => return nothing(),
    };
    let mut next: Palette = open.clone();
    next.selected = index;
    match next.picked(held) {
        Some(template) => two(
            Intent::View(ViewCmd::Palette(Some(next))),
            Intent::View(ViewCmd::UseTemplate(template.id)),
        ),
        None => nothing(),
    }
}

/// Opening a node: relations open a preview, branches expand.
fn activate_node(index: usize, ctx: &InputContext<'_>) -> (r: Vec<Intent>)
    ensures
        intent_views(r@) == activated(index as int, ctx@),
{
    let node: &VisibleNode = match ctx.node(index) {
        Some(node) => node,
        None => return nothing(),
    };
    // The row's own connection, not the first one. With several open, the
    // difference is between opening the table under the cursor and opening a
    // table of the same name somewhere else.
    let conn: ConnId = node.conn;
    match node.node_ref.as_table() {
        Some(table) => open_or_focus_tab(conn, table),
        None => one(Intent::App(Action::ToggleNode { conn, node: node.node_ref.clone() })),
    }
}

/// Both, unconditionally: `PreviewTable` is what makes a tab raised from
/// `Failed` retry, and the store treats it as a no-op when the relation is
/// already loaded — so there is nothing to decide between here.
fn open_or_focus_tab(conn: ConnId, table: TableRef) -> (r: Vec<Intent>)
    ensures
        intent_views(r@) == previewed(conn, table),
{
    two(
        Intent::View(ViewCmd::OpenTab { conn, table: table.clone() }),
        Intent::App(Action::PreviewTable { conn, table }),
    )
}

/// Opening a definition: both halves, unconditionally.
///
/// `DescribeTable` is what makes a tab raised from a failure retry, and the
/// store treats it as a no-op when the definition is already cached — so
/// there is nothing to decide between here, the same as `open_or_focus_tab`.
fn describe_node(index: usize, ctx: &InputContext<'_>) -> (r: Vec<Intent>)
    ensures
        intent_views(r@) == described(index as int, ctx@),
{
    let node: &VisibleNode = match ctx.node(index) {
        Some(node) => node,
        None => return nothing(),
    };
    let conn: ConnId = node.conn;
    match node.node_ref.as_table() {
        Some(table) => two(
            Intent::View(ViewCmd::OpenDefinition { conn, table: table.clone() }),
            Intent::App(Action::DescribeTable { conn, table, refresh: false }),
        ),
        // A namespace has no definition. Silent rather than a message: the
        // gesture is one key, and a row that is not a relation is most of the
        // tree.
        None => nothing(),
    }
}

/// `collapse_only` is set for `Left`, which must never open a subtree: a key
/// that closes one and also opens one is not a direction, it is a toggle with
/// a misleading name.
fn toggle_node(index: usize, ctx: &InputContext<'_>, collapse_only: bool) -> (r: Vec<Intent>)
    ensures
        intent_views(r@) == toggled(index as int, ctx@, collapse_only),
{
    let node: &VisibleNode = match ctx.node(index) {
        Some(node) => node,
        None => return nothing(),
    };
    if !node.state.is_toggleable() {
        return nothing();
    }
    if collapse_only && !node.state.is_expanded() {
        return nothing();
    }
    one(Intent::App(Action::ToggleNode { conn: node.conn, node: node.node_ref.clone() }))
}

fn open_elsewhere(tabs: &Vec<OpenTab>, closing: &OpenTab, table: &TableRef) -> (b: bool)
    ensures
        b == still_open(views(tabs@), closing@, *table),
{
    let mut i: usize = 0;
    while i < tabs.len()
        invariant
            i <= tabs@.len(),
            forall|j: int|
                0 <= j < i ==> !((#[trigger] views(tabs@)[j]).id != closing.id && views(
                    tabs@,
                )[j].conn == closing.conn && (views(tabs@)[j].table() matches Some(held)
                    && held@ == table@)),
        decreases tabs@.len() - i,
    {
        let there: bool = match tabs[i].table() {
            Some(held) => held.same(table),
            None => false,
        };
        proof {
            assert(views(tabs@)[i as int] == tabs@[i as int]@);
        }
        if tabs[i].id != closing.id && tabs[i].conn == closing.conn && there {
            return true;
        }
        i += 1;
    }
    false
}

/// Closing a tab. If it was the last one open on this relation, the store's
/// own cache of it — and any page still in flight for it — goes too.
///
/// It always is the last one today, because opening a relation never mints a
/// second tab on it. Checked rather than assumed: the day something does —
/// split panes, say — this is what stops one tab's close from pulling the
/// other's data out from under it.
fn close_tab(id: TabId, ctx: &InputContext<'_>) -> (r: Vec<Intent>)
    ensures
        intent_views(r@) == tab_closed(id, ctx@),
{
    let wanted = |t: &OpenTab| -> (b: bool)
        ensures b == tab_is(id)(t@)
    { t.id == id };
    let at: usize = match position_by_view(ctx.tabs, wanted, Ghost(tab_is(id))) {
        Some(at) => at,
        None => return nothing(),
    };
    let closing: &OpenTab = &ctx.tabs[at];
    let close: Intent = Intent::View(ViewCmd::CloseTab(id));
    let conn: ConnId = closing.conn;
    let ghost alone = seq![close@];
    match &closing.content {
        // A definition is cached until something says otherwise, so the tab
        // going is the only thing that ever will.
        TabContent::Definition { table, .. } => {
            let forget: Intent = Intent::App(
                Action::ForgetDefinition { conn, table: table.clone() },
            );
            proof {
                assert(seq![close@, forget@] =~= alone.push(forget@));
            }
            two(close, forget)
        },
        TabContent::Preview(table) => if open_elsewhere(ctx.tabs, closing, table) {
            one(close)
        } else {
            let forget: Intent = Intent::App(Action::ForgetPreview { conn, table: table.clone() });
            proof {
                assert(seq![close@, forget@] =~= alone.push(forget@));
            }
            two(close, forget)
        },
        // A SQL tab's buffer is this screen's, so there is nothing there to
        // forget — but the run it started is the store's, and nothing else is
        // looking at it: a query is keyed by the run, so no other tab can be.
        TabContent::Sql { query: Some(query), .. } => {
            let forget: Intent = Intent::App(Action::ForgetQuery(*query));
            proof {
                assert(seq![close@, forget@] =~= alone.push(forget@));
            }
            two(close, forget)
        },
        _ => one(close),
    }
}

fn mouse_intents(target: Target, gesture: Gesture, ctx: &InputContext<'_>) -> (r: Vec<Intent>)
    ensures
        intent_views(r@) == gesture_means(target, gesture, ctx@),
{
    match (target, gesture) {
        (Target::Pane(pane), Gesture::Click) => one(Intent::View(ViewCmd::FocusPane(pane))),
        // A SQL tab draws no cells, so the pane itself is what a pointer lands
        // on — which makes double-clicking the buffer the obvious way to open
        // it. On a preview the pane is covered by cells, so this is never
        // reached there; asking for a tab with a buffer is what makes that a
        // fact rather than an assumption about layout.
        (Target::Pane(PaneId::Grid), Gesture::DoubleClick) => edit(ctx),
        // The wheel over the part of a pane its content does not fill. Without
        // this, a five-row result in a forty-row grid ignores the wheel
        // everywhere below the last row.
        (Target::Pane(pane), Gesture::Scroll(delta)) => scroll(pane, delta),
        (Target::Pane(PaneId::Grid), Gesture::ScrollX(delta)) => one(
            Intent::View(ViewCmd::ScrollXBy { delta: delta as i32 }),
        ),
        (Target::TreeRow { index }, Gesture::Click) => two(
            Intent::View(ViewCmd::FocusPane(PaneId::Explorer)),
            Intent::View(ViewCmd::SelectTreeRow(index)),
        ),
        (Target::TreeRow { index }, Gesture::DoubleClick) => activate_node(index, ctx),
        (Target::TreeToggle { index }, Gesture::Click) => toggle_node(index, ctx, false),
        (Target::TreeRow { .. }, Gesture::Scroll(delta)) => scroll(PaneId::Explorer, delta),
        (Target::TreeToggle { .. }, Gesture::Scroll(delta)) => scroll(PaneId::Explorer, delta),
        (Target::GridCell { row, col }, Gesture::RightClick) => open_menu(row, col, ctx),
        (Target::MenuItem { index }, Gesture::Click) => choose_item(index, ctx),
        // The press, not the release: the first motion extends from wherever
        // the cursor is, so a drag that began on a cell has to have moved it
        // there already. Waiting for the click would anchor the rectangle on
        // whatever was selected before and sweep it across everything between.
        (Target::GridCell { row, col }, Gesture::Down) => choose_cell(row, col),
        // The cell under the pointer, not the one the drag started on — that
        // one is the anchor, and it is already where the selection began.
        // Only for a drag that began on a cell: a splitter or a column edge
        // dragged past the grid puts the pointer over cells it is not about.
        (Target::GridCell { row, col }, Gesture::DragOver { from: Target::GridCell { .. } }) => one(
            Intent::View(ViewCmd::ExtendCellSelectionTo { row, col }),
        ),
        (Target::GridCell { row, col }, Gesture::Click) => choose_cell(row, col),
        (Target::GridHeader { col }, Gesture::Click) => sort_by(col, ctx),
        (Target::GridColEdge { col }, Gesture::DragBy { dx, .. }) => one(
            Intent::View(ViewCmd::ResizeColumn { col, delta: dx }),
        ),
        (Target::GridCell { .. }, Gesture::Scroll(delta)) => scroll(PaneId::Grid, delta),
        (Target::GridHeader { .. }, Gesture::Scroll(delta)) => scroll(PaneId::Grid, delta),
        (Target::GridColEdge { .. }, Gesture::Scroll(delta)) => scroll(PaneId::Grid, delta),
        (Target::GridCell { .. }, Gesture::ScrollX(delta)) => one(
            Intent::View(ViewCmd::ScrollXBy { delta: delta as i32 }),
        ),
        (Target::GridHeader { .. }, Gesture::ScrollX(delta)) => one(
            Intent::View(ViewCmd::ScrollXBy { delta: delta as i32 }),
        ),
        // Dragging the thumb scrolls by the distance dragged; clicking the
        // track pages towards the click.
        (Target::Scrollbar { pane, part: ScrollPart::Thumb }, Gesture::DragBy { dy, .. }) => one(
            Intent::View(ViewCmd::ScrollBy { pane, delta: dy as i32 }),
        ),
        (Target::Scrollbar { pane, part: ScrollPart::TrackBefore }, Gesture::Click) => one(
            Intent::View(ViewCmd::ScrollBy { pane, delta: -PAGE_LINES }),
        ),
        (Target::Scrollbar { pane, part: ScrollPart::TrackAfter }, Gesture::Click) => one(
            Intent::View(ViewCmd::ScrollBy { pane, delta: PAGE_LINES }),
        ),
        (Target::Scrollbar { pane, .. }, Gesture::Scroll(delta)) => scroll(pane, delta),
        (Target::Splitter(split), Gesture::DragBy { dx, .. }) => one(
            Intent::View(ViewCmd::MoveSplit { split, delta: dx }),
        ),
        (Target::Splitter(split), Gesture::DoubleClick) => one(
            Intent::View(ViewCmd::EvenSplit(split)),
        ),
        (Target::Tab(id), Gesture::Click) => one(Intent::View(ViewCmd::SelectTab(id))),
        (Target::TabClose(id), Gesture::Click) => close_tab(id, ctx),
        // Middle-click is the second way to close a tab, and the one that does
        // not require hitting a one-cell `×`.
        (Target::Tab(id), Gesture::MiddleClick) => close_tab(id, ctx),
        (Target::Button(ButtonId::Cancel(busy)), Gesture::Click) => one(
            Intent::App(Action::Cancel(busy)),
        ),
        // What clicking a text box means everywhere else: put the keyboard in
        // it. Discarding the search instead is the surprise, and there is no
        // `×` on the box to say that is what the click would do.
        (Target::Button(ButtonId::Filter), Gesture::Click) => match ctx.filter {
            Some(filter) => one(
                Intent::View(
                    ViewCmd::SetFilter(Some(Filter { editing: true, text: filter.text.clone() })),
                ),
            ),
            None => nothing(),
        },
        (Target::PaletteRow { index }, Gesture::Click) => choose_line(index, ctx),
        (Target::Section { index }, Gesture::Click) => one(
            Intent::View(ViewCmd::SelectSection(SectionPick::At(index))),
        ),
        // The list sits inside the grid pane, so the wheel over it has to mean
        // what the wheel one column to the right means. Without this the
        // leftmost columns of the pane are a strip the wheel does nothing in,
        // which reads as the mouse being broken.
        (Target::Section { .. }, Gesture::Scroll(delta)) => scroll(PaneId::Grid, delta),
        (Target::Button(ButtonId::RunQuery), Gesture::Click) => ctx.run(),
        (Target::Button(ButtonId::NewSqlTab), Gesture::Click) => open_sql_tab(ctx),
        (Target::Button(ButtonId::ModalChoice { index }), Gesture::Click) => answer(index, ctx),
        (Target::Button(ButtonId::DismissModal), Gesture::Click) => one(
            Intent::View(ViewCmd::DismissModal),
        ),
        (Target::Toast(id), Gesture::Click) => one(Intent::View(ViewCmd::DismissToast(id))),
        // Whichever overlay the backdrop is behind. A dialog wins when both
        // are up, because it is the one on top and the one that has to be
        // answered — and because closing the palette underneath it would
        // leave the click having done something invisible.
        (Target::Backdrop, Gesture::Click) => if ctx.palette.is_some() && !ctx.modal_open {
            one(Intent::View(ViewCmd::Palette(None)))
        } else {
            one(Intent::View(ViewCmd::DismissModal))
        },
        // Presses, releases and hover carry no action of their own; they exist
        // so the view can show feedback. A gesture on the menu that chooses
        // nothing is swallowed rather than passed down: it covers the grid, and
        // is no gesture on the cell it is covering.
        _ => nothing(),
    }
}

// ── what a keystroke means ─────────────────────────────────────────────────

/// Whether a key goes the other way of the two that share a capability.
pub open spec fn goes_back(code: KeyCode) -> bool {
    match code {
        KeyCode::Up | KeyCode::PageUp | KeyCode::Left | KeyCode::Home | KeyCode::BackTab => true,
        KeyCode::Char(c) => c == 'h' || c == 'H' || c == 'k' || c == 'K' || c == '<' || c == 'g'
            || c == '[' || c == '{',
        _ => false,
    }
}

/// One step, or one back.
pub open spec fn one_step(back: bool) -> i32 {
    if back {
        (-1) as i32
    } else {
        1
    }
}

/// What a search box holds after a key. `None` is the box gone, and the search
/// with it.
pub open spec fn next_box(code: KeyCode, current: Option<FilterView>) -> Option<FilterView> {
    match current {
        // No search yet, so this is the `/` that starts one.
        None => Some(FilterView::opening()),
        Some(current) => if !current.editing {
            Some(FilterView { editing: true, ..current })
        } else {
            match code {
                // Done typing, but not done searching.
                KeyCode::Enter => if current.text.len() > 0 {
                    Some(FilterView { editing: false, ..current })
                } else {
                    None
                },
                KeyCode::Esc => None,
                KeyCode::Backspace => if current.text.len() > 0 {
                    Some(FilterView { text: current.text.drop_last(), editing: true })
                } else {
                    None
                },
                KeyCode::Char(c) => Some(FilterView { text: current.text.push(c), editing: true }),
                _ => Some(current),
            }
        },
    }
}

/// A text with its last character gone, if it has one.
pub open spec fn shortened(text: Seq<char>) -> Seq<char> {
    if text.len() > 0 {
        text.drop_last()
    } else {
        text
    }
}

/// What a form is after a key, when it is the form that has the keyboard.
/// `None` is a key that means nothing to it.
pub open spec fn next_form(code: KeyCode, form: FormView) -> Option<Option<FormView>> {
    match code {
        // Back to the list rather than out altogether.
        KeyCode::Esc => Some(None),
        KeyCode::Down | KeyCode::Tab => Some(Some(form.moved(1))),
        KeyCode::Up | KeyCode::BackTab => Some(Some(form.moved(-1))),
        KeyCode::Backspace => Some(Some(form.edited(shortened(form.current())))),
        KeyCode::Char(c) => Some(Some(form.edited(form.current().push(c)))),
        _ => None,
    }
}

/// What the palette is after a key.
pub open spec fn palette_typed(code: KeyCode, ctx: InputView) -> Seq<IntentView> {
    match ctx.palette {
        None => seq![IntentView::View(CmdView::Palette(Some(PaletteView::opening())))],
        Some(open) => match open.asking {
            Some(form) => match next_form(code, form) {
                Some(asking) => seq![
                    IntentView::View(CmdView::Palette(Some(PaletteView { asking, ..open }))),
                ],
                None => no_intents(),
            },
            None => {
                let matches = match ctx.snapshot.held() {
                    Some(held) => list_of(held, open.filter).len() as int,
                    None => 0,
                };
                let next = match code {
                    KeyCode::Down | KeyCode::Tab => Some(Some(open.selecting(1, matches))),
                    KeyCode::Up | KeyCode::BackTab => Some(Some(open.selecting(-1, matches))),
                    KeyCode::Backspace => Some(
                        Some(
                            PaletteView { filter: shortened(open.filter), selected: 0, ..open },
                        ),
                    ),
                    KeyCode::Char(c) => Some(
                        Some(PaletteView { filter: open.filter.push(c), selected: 0, ..open }),
                    ),
                    KeyCode::Esc => Some(None),
                    _ => None,
                };
                match next {
                    Some(next) => seq![IntentView::View(CmdView::Palette(next))],
                    None => no_intents(),
                }
            },
        },
    }
}

/// The selected template used, or the form it turned into submitted.
pub open spec fn template_used(ctx: InputView) -> Seq<IntentView> {
    match ctx.palette {
        None => no_intents(),
        Some(open) => if open.asking is Some {
            seq![view_of(ViewCmd::SubmitTemplate)]
        } else {
            match ctx.snapshot.held() {
                None => no_intents(),
                Some(held) => match open.picks(held) {
                    Some(at) => seq![view_of(ViewCmd::UseTemplate(held[at].id))],
                    None => no_intents(),
                },
            }
        },
    }
}

/// The statement in front: a buffer's, or the run the history has selected.
pub open spec fn statement_in_front(ctx: InputView) -> Option<Seq<char>> {
    match ctx.current() {
        Some(tab) => match tab.sql() {
            Some(text) => Some(text),
            None => match ctx.selected_run() {
                Some(run) => Some(run.sql@),
                None => None,
            },
        },
        None => None,
    }
}

/// The statement in front named, or saved under the name that is typed.
pub open spec fn template_saved(ctx: InputView) -> Seq<IntentView> {
    match ctx.palette {
        Some(open) => if open.saving is Some && trimmed(open.filter).len() > 0 {
            seq![view_of(ViewCmd::CommitTemplate)]
        } else {
            no_intents()
        },
        None => match statement_in_front(ctx) {
            Some(sql) => if blank(sql) {
                no_intents()
            } else {
                seq![IntentView::View(CmdView::Palette(Some(PaletteView::naming(sql))))]
            },
            None => no_intents(),
        },
    }
}

/// The selected template asked about before it is deleted.
pub open spec fn template_deleted(ctx: InputView) -> Seq<IntentView> {
    match (ctx.palette, ctx.snapshot.held()) {
        (Some(open), Some(held)) => if open.asking is Some || open.saving is Some {
            no_intents()
        } else {
            match open.picks(held) {
                Some(at) => seq![
                    view_of(
                        ViewCmd::ConfirmDeleteTemplate { id: held[at].id, name: held[at].name },
                    ),
                ],
                None => no_intents(),
            }
        },
        _ => no_intents(),
    }
}

/// The tab beside the one in front, around the end of the bar.
pub open spec fn neighbour(ctx: InputView, back: bool) -> Option<TabId> {
    let n = ctx.tabs.len() as int;
    if n == 0 {
        None
    } else {
        let at = match ctx.active_tab {
            Some(id) => first(ctx.tabs, tab_is(id)),
            None => None,
        };
        match at {
            // Stepping from an assumed first place would skip the first tab.
            None => Some(ctx.tabs[0].id),
            Some(at) => Some(
                ctx.tabs[(if back {
                    at + n - 1
                } else {
                    at + 1
                }) % n].id,
            ),
        }
    }
}

/// What using a capability means, for the key that was pressed.
pub open spec fn materialised(kind: IntentKind, code: KeyCode, ctx: InputView) -> Seq<IntentView> {
    let back = goes_back(code);
    match kind {
        IntentKind::Focus => seq![
            view_of(
                if back {
                    ViewCmd::FocusPrevPane
                } else {
                    ViewCmd::FocusNextPane
                },
            ),
        ],
        IntentKind::Scroll => {
            let lines = if code is PageUp || code is PageDown {
                PAGE_LINES
            } else {
                1
            };
            seq![
                view_of(
                    ViewCmd::ScrollBy {
                        pane: ctx.focus,
                        delta: if back {
                            (-lines) as i32
                        } else {
                            lines
                        },
                    },
                ),
            ]
        },
        IntentKind::ScrollEdge => seq![
            view_of(
                if back {
                    ViewCmd::ScrollToStart(ctx.focus)
                } else {
                    ViewCmd::ScrollToEnd(ctx.focus)
                },
            ),
        ],
        IntentKind::ScrollHorizontally => seq![
            view_of(ViewCmd::ScrollXBy { delta: one_step(back) }),
        ],
        IntentKind::TreeSelection => seq![view_of(ViewCmd::MoveTreeSelection(one_step(back)))],
        IntentKind::ExtendSelection => {
            let sideways = code is Left || code is Right;
            seq![
                view_of(
                    ViewCmd::ExtendCellSelection {
                        drow: if sideways {
                            0
                        } else {
                            one_step(back)
                        },
                        dcol: if sideways {
                            one_step(back)
                        } else {
                            0
                        },
                    },
                ),
            ]
        },
        IntentKind::GridSelection => {
            let sideways = code == KeyCode::Char('H') || code == KeyCode::Char('L');
            seq![
                view_of(
                    ViewCmd::MoveCellSelection {
                        drow: if sideways {
                            0
                        } else {
                            one_step(back)
                        },
                        dcol: if sideways {
                            one_step(back)
                        } else {
                            0
                        },
                    },
                ),
            ]
        },
        IntentKind::ResizeColumn => seq![
            view_of(
                ViewCmd::ResizeColumn {
                    col: match ctx.grid_column {
                        Some(col) => col,
                        None => 0,
                    },
                    delta: one_step(back) as i16,
                },
            ),
        ],
        IntentKind::MoveSplit => seq![
            view_of(
                ViewCmd::MoveSplit { split: SplitId::Explorer, delta: one_step(back) as i16 },
            ),
        ],
        IntentKind::EvenSplit => seq![view_of(ViewCmd::EvenSplit(SplitId::Explorer))],
        IntentKind::Menu => if ctx.menu is Some {
            seq![view_of(ViewCmd::CloseMenu)]
        } else if ctx.active_tab is Some {
            seq![view_of(ViewCmd::OpenMenu { at: None, ranged: ctx.ranged() })]
        } else {
            no_intents()
        },
        IntentKind::Copy => if ctx.active_tab is Some {
            seq![
                view_of(
                    ViewCmd::Copy {
                        format: if code == KeyCode::Char('Y') || code == KeyCode::Char('A') {
                            Format::Json
                        } else {
                            Format::Csv
                        },
                        all: code == KeyCode::Char('a') || code == KeyCode::Char('A'),
                    },
                ),
            ]
        } else {
            no_intents()
        },
        IntentKind::ToggleDetail => if ctx.active_tab is Some {
            seq![view_of(ViewCmd::ToggleDetail)]
        } else {
            no_intents()
        },
        IntentKind::DismissModal => seq![view_of(ViewCmd::DismissModal)],
        IntentKind::Filter => match ctx.searching() {
            Some(history) => seq![
                IntentView::View(CmdView::SetHistoryTerms(next_box(code, Some(history)))),
            ],
            None => seq![IntentView::View(CmdView::SetFilter(next_box(code, ctx.filter)))],
        },
        IntentKind::Connect => match ctx.connectable() {
            Some(profile) => seq![app_of(Action::Connect { profile, conn: ctx.new_conn })],
            None => no_intents(),
        },
        IntentKind::Disconnect => match ctx.connection {
            Some(conn) => seq![app_of(Action::Disconnect(conn))],
            None => no_intents(),
        },
        IntentKind::ToggleNode => match ctx.tree_selection {
            Some(row) => toggled(row as int, ctx, code is Left),
            None => no_intents(),
        },
        IntentKind::PreviewTable => match ctx.tree_selection {
            Some(row) => activated(row as int, ctx),
            None => no_intents(),
        },
        IntentKind::SortPreview => sorted_by(
            match ctx.grid_column {
                Some(col) => col,
                None => 0,
            },
            ctx,
        ),
        IntentKind::LoadMore => match ctx.active_preview() {
            Some((conn, table)) => seq![app_of(Action::LoadMore { conn, table })],
            None => no_intents(),
        },
        IntentKind::OpenSqlTab => sql_tab_opened(ctx),
        IntentKind::EditExternally => edited(ctx),
        IntentKind::RunQuery => ran(ctx),
        IntentKind::ApproveQuery => answered(0, ctx),
        IntentKind::DescribeTable => match ctx.tree_selection {
            Some(row) => described(row as int, ctx),
            None => no_intents(),
        },
        IntentKind::SelectSection => seq![
            view_of(ViewCmd::SelectSection(SectionPick::By(one_step(back)))),
        ],
        IntentKind::SelectTab => match neighbour(ctx, back) {
            Some(tab) => seq![view_of(ViewCmd::SelectTab(tab))],
            None => no_intents(),
        },
        IntentKind::CloseTab => match ctx.active_tab {
            Some(tab) => tab_closed(tab, ctx),
            None => no_intents(),
        },
        IntentKind::Cancel => if ctx.snapshot.busy@.len() > 0 {
            seq![app_of(Action::Cancel(ctx.snapshot.busy@[0].id))]
        } else {
            no_intents()
        },
        IntentKind::DismissToast => if ctx.toasts.len() > 0 {
            seq![view_of(ViewCmd::DismissToast(ctx.toasts[0].id))]
        } else {
            no_intents()
        },
        IntentKind::Quit => seq![app_of(Action::Quit)],
        IntentKind::Palette => palette_typed(code, ctx),
        IntentKind::UseTemplate => template_used(ctx),
        IntentKind::ReuseRun => match ctx.selected_run() {
            Some(run) => seq![view_of(ViewCmd::ReuseRun(run.id))],
            None => no_intents(),
        },
        IntentKind::History => match ctx.connection {
            Some(conn) => seq![view_of(ViewCmd::OpenHistoryTab { conn })],
            None => no_intents(),
        },
        IntentKind::SaveTemplate => template_saved(ctx),
        IntentKind::DeleteTemplate => template_deleted(ctx),
    }
}

/// Whether a keystroke is a chord, which is not a character.
pub open spec fn is_chord(event: KeyEvent) -> bool {
    event.modifiers.control || event.modifiers.alt
}

/// The capability a keystroke reaches. A pane's binding beats a global one; a
/// dialog has no fallback, and a text box only for chords, because both hold
/// the keyboard. Every other character is the box's.
pub open spec fn reached(event: KeyEvent, context: Context) -> Option<IntentKind> {
    match bound_kind(context, event) {
        Some(kind) => Some(kind),
        None => {
            let typing = context == Context::Filter || context == Context::Palette;
            if context == Context::Modal {
                None
            } else if typing && !is_chord(event) {
                if event.code is Char {
                    Some(
                        if context == Context::Filter {
                            IntentKind::Filter
                        } else {
                            IntentKind::Palette
                        },
                    )
                } else {
                    None
                }
            } else {
                bound_kind(Context::Global, event)
            }
        },
    }
}

/// What a keystroke means, given where focus is.
pub open spec fn key_means(event: KeyEvent, ctx: InputView) -> Seq<IntentView> {
    if event.kind != KeyEventKind::Press {
        no_intents()
    } else {
        match reached(event, ctx.key_context()) {
            Some(kind) => materialised(kind, event.code, ctx),
            None => no_intents(),
        }
    }
}

// ── keyboard ───────────────────────────────────────────────────────────────

/// What a keystroke means, given where focus is.
pub fn on_key(event: KeyEvent, ctx: &InputContext<'_>) -> (r: Vec<Intent>)
    ensures
        intent_views(r@) == key_means(event, ctx@),
{
    // Windows terminals report releases as well as presses.
    if event.kind != KeyEventKind::Press {
        return nothing();
    }
    match kind_reached(event, ctx.key_context()) {
        Some(kind) => materialise(kind, event, ctx),
        None => nothing(),
    }
}

fn kind_reached(event: KeyEvent, context: Context) -> (r: Option<IntentKind>)
    ensures
        r == reached(event, context),
{
    // A pane binding beats the global one for the same key, so `Esc` in a modal
    // dismisses the modal rather than a toast behind it.
    if let Some(kind) = bound(context, event) {
        return Some(kind);
    }
    // A chord is not a character, so the search box does not hold it: `Ctrl-C`
    // is not a letter of any table's name, and swallowing it would put the one
    // key that always quits behind a text box — typing a `c` instead, which is
    // worse than doing nothing.
    let chord: bool = event.modifiers.control || event.modifiers.alt;
    let character: bool = match event.code {
        KeyCode::Char(_) => true,
        _ => false,
    };
    match context {
        // Neither has a fallback: both hold the keyboard, so `q` behind a
        // "discard these changes?" dialog must not quit instead of answering
        // it, and a `q` typed into the search box must reach the box.
        Context::Modal => None,
        // Every remaining character belongs to the box, which is what a text
        // input is. Enumerating the printable characters in the key map instead
        // would be a hundred bindings. Only a character: an unbound `F5` is not
        // text, and re-sending the filter it did not change is a redraw and a
        // re-search for nothing.
        Context::Filter => if chord {
            bound(Context::Global, event)
        } else if character {
            Some(IntentKind::Filter)
        } else {
            None
        },
        Context::Palette => if chord {
            bound(Context::Global, event)
        } else if character {
            Some(IntentKind::Palette)
        } else {
            None
        },
        _ => bound(Context::Global, event),
    }
}

fn backwards(code: KeyCode) -> (b: bool)
    ensures
        b == goes_back(code),
{
    match code {
        KeyCode::Up | KeyCode::PageUp | KeyCode::Left | KeyCode::Home | KeyCode::BackTab => true,
        KeyCode::Char(c) => c == 'h' || c == 'H' || c == 'k' || c == 'K' || c == '<' || c == 'g'
            || c == '[' || c == '{',
        _ => false,
    }
}

/// Build the concrete intent for a bound capability.
///
/// The key map says *what*; this decides the parameters from the current
/// state, which is why the same key can scroll whichever pane has focus.
fn materialise(kind: IntentKind, event: KeyEvent, ctx: &InputContext<'_>) -> (r: Vec<Intent>)
    ensures
        intent_views(r@) == materialised(kind, event.code, ctx@),
{
    let pane: PaneId = ctx.focus;
    let code: KeyCode = event.code;
    let back: bool = backwards(code);
    let step: i32 = if back {
        -1
    } else {
        1
    };
    match kind {
        IntentKind::Focus => one(
            Intent::View(
                if back {
                    ViewCmd::FocusPrevPane
                } else {
                    ViewCmd::FocusNextPane
                },
            ),
        ),
        IntentKind::Scroll => {
            let magnitude: i32 = match code {
                KeyCode::PageUp | KeyCode::PageDown => PAGE_LINES,
                _ => 1,
            };
            one(
                Intent::View(
                    ViewCmd::ScrollBy {
                        pane,
                        delta: if back {
                            -magnitude
                        } else {
                            magnitude
                        },
                    },
                ),
            )
        },
        IntentKind::ScrollEdge => one(
            Intent::View(
                if back {
                    ViewCmd::ScrollToStart(pane)
                } else {
                    ViewCmd::ScrollToEnd(pane)
                },
            ),
        ),
        IntentKind::ScrollHorizontally => one(Intent::View(ViewCmd::ScrollXBy { delta: step })),
        IntentKind::TreeSelection => one(Intent::View(ViewCmd::MoveTreeSelection(step))),
        IntentKind::ExtendSelection => {
            let sideways: bool = match code {
                KeyCode::Left | KeyCode::Right => true,
                _ => false,
            };
            let (drow, dcol): (i32, i32) = if sideways {
                (0, step)
            } else {
                (step, 0)
            };
            one(Intent::View(ViewCmd::ExtendCellSelection { drow, dcol }))
        },
        IntentKind::GridSelection => {
            let sideways: bool = code == KeyCode::Char('H') || code == KeyCode::Char('L');
            let (drow, dcol): (i32, i32) = if sideways {
                (0, step)
            } else {
                (step, 0)
            };
            one(Intent::View(ViewCmd::MoveCellSelection { drow, dcol }))
        },
        IntentKind::ResizeColumn => one(
            Intent::View(ViewCmd::ResizeColumn { col: column(ctx), delta: step as i16 }),
        ),
        IntentKind::MoveSplit => one(
            Intent::View(ViewCmd::MoveSplit { split: SplitId::Explorer, delta: step as i16 }),
        ),
        IntentKind::EvenSplit => one(Intent::View(ViewCmd::EvenSplit(SplitId::Explorer))),
        IntentKind::Menu => {
            // The same key closes it. Nothing else on the keyboard can: `Esc`
            // in the grid is `DismissToast`, and shadowing that to reach a
            // menu would be the hazard the key map warns about. Without the
            // toggle the one gesture that opens a menu on a terminal with no
            // right-click leaves it on screen with no way out.
            if ctx.menu.is_some() {
                return one(Intent::View(ViewCmd::CloseMenu));
            }
            // No coordinates to give: `None` asks the view to place it, which
            // is the only thing that knows where the grid was drawn.
            if ctx.active_tab.is_some() {
                one(Intent::View(ViewCmd::OpenMenu { at: None, ranged: ctx.ranged() }))
            } else {
                nothing()
            }
        },
        IntentKind::Copy => {
            // Two axes on one gesture: the letter says how much, the case
            // says which format.
            let all: bool = code == KeyCode::Char('a') || code == KeyCode::Char('A');
            let format: Format = if code == KeyCode::Char('Y') || code == KeyCode::Char('A') {
                Format::Json
            } else {
                Format::Csv
            };
            if ctx.active_tab.is_some() {
                one(Intent::View(ViewCmd::Copy { format, all }))
            } else {
                nothing()
            }
        },
        // Nothing to show in full when there is no grid to have chosen a cell
        // in, and a pane opening onto "no cell selected" is a gesture that
        // appeared to do something.
        IntentKind::ToggleDetail => if ctx.active_tab.is_some() {
            one(Intent::View(ViewCmd::ToggleDetail))
        } else {
            nothing()
        },
        IntentKind::DismissModal => one(Intent::View(ViewCmd::DismissModal)),
        // Whichever box is in front. The history's when its tab is open,
        // because that pane is a search with rows under it; the explorer's
        // otherwise. One capability either way — a key that searched the
        // explorer from inside the history would be searching what somebody
        // is not looking at.
        IntentKind::Filter => match ctx.searching() {
            Some(history) => one(
                Intent::View(ViewCmd::SetHistoryTerms(next_filter(code, Some(history)))),
            ),
            None => one(Intent::View(ViewCmd::SetFilter(next_filter(code, ctx.filter)))),
        },
        IntentKind::Connect => match ctx.connectable_profile() {
            Some(profile) => one(Intent::App(Action::Connect { profile, conn: ctx.new_conn })),
            None => nothing(),
        },
        IntentKind::Disconnect => match ctx.connection {
            Some(conn) => one(Intent::App(Action::Disconnect(conn))),
            None => nothing(),
        },
        IntentKind::ToggleNode => match ctx.tree_selection {
            Some(row) => toggle_node(row, ctx, code == KeyCode::Left),
            None => nothing(),
        },
        IntentKind::PreviewTable => match ctx.tree_selection {
            Some(row) => activate_node(row, ctx),
            None => nothing(),
        },
        IntentKind::SortPreview => sort_by(column(ctx), ctx),
        IntentKind::LoadMore => match ctx.active_preview() {
            Some((conn, table)) => one(Intent::App(Action::LoadMore { conn, table })),
            None => nothing(),
        },
        // With nothing live there is nowhere to run a query, and a tab that
        // could never run one is a tab that lies.
        IntentKind::OpenSqlTab => open_sql_tab(ctx),
        // Only a SQL tab has a buffer. On a preview this does nothing rather
        // than opening an editor on the rows, which is not a thing to edit.
        IntentKind::EditExternally => edit(ctx),
        IntentKind::RunQuery => ctx.run(),
        // The dialog's own first answer, so the key and the button cannot
        // disagree about what "yes" means.
        IntentKind::ApproveQuery => answer(0, ctx),
        // The relation under the cursor in the explorer, which is where a
        // definition is opened from — the same row `Enter` previews.
        IntentKind::DescribeTable => match ctx.tree_selection {
            Some(row) => describe_node(row, ctx),
            None => nothing(),
        },
        IntentKind::SelectSection => one(
            Intent::View(ViewCmd::SelectSection(SectionPick::By(step))),
        ),
        IntentKind::SelectTab => match neighbouring_tab(ctx, back) {
            Some(tab) => one(Intent::View(ViewCmd::SelectTab(tab))),
            None => nothing(),
        },
        IntentKind::CloseTab => match ctx.active_tab {
            Some(tab) => close_tab(tab, ctx),
            None => nothing(),
        },
        IntentKind::Cancel => if ctx.snapshot.busy.len() > 0 {
            one(Intent::App(Action::Cancel(ctx.snapshot.busy[0].id)))
        } else {
            nothing()
        },
        IntentKind::DismissToast => if ctx.toasts.len() > 0 {
            one(Intent::View(ViewCmd::DismissToast(ctx.toasts[0].id)))
        } else {
            nothing()
        },
        IntentKind::Quit => one(Intent::App(Action::Quit)),
        IntentKind::Palette => palette(code, ctx),
        IntentKind::UseTemplate => use_template(ctx),
        IntentKind::ReuseRun => match ctx.selected_run() {
            Some(run) => one(Intent::View(ViewCmd::ReuseRun(run.id))),
            None => nothing(),
        },
        IntentKind::History => match ctx.connection {
            Some(conn) => one(Intent::View(ViewCmd::OpenHistoryTab { conn })),
            None => nothing(),
        },
        IntentKind::SaveTemplate => save_template(ctx),
        IntentKind::DeleteTemplate => delete_template(ctx),
    }
}

fn column(ctx: &InputContext<'_>) -> (r: usize)
    ensures
        r == match ctx.grid_column {
            Some(col) => col,
            None => 0,
        },
{
    match ctx.grid_column {
        Some(col) => col,
        None => 0,
    }
}

/// Open the palette, or change the one that is open.
///
/// Every one of these produces the whole new state, which is what makes the
/// view's job an assignment rather than an edit: the key that was pressed is
/// the only thing that knows what it did.
fn palette(code: KeyCode, ctx: &InputContext<'_>) -> (r: Vec<Intent>)
    ensures
        intent_views(r@) == palette_typed(code, ctx@),
{
    let open: &Palette = match ctx.palette {
        Some(open) => open,
        // Just the view command: opening the palette is what reads the
        // templates, and the view says so on its way out — the same way a
        // scroll asks for the next page.
        None => return one(Intent::View(ViewCmd::Palette(Some(Palette::opening())))),
    };
    let mut next: Palette = open.clone();
    if let Some(form) = &open.asking {
        next.asking = match type_into_form(code, form) {
            Some(asking) => asking,
            None => return nothing(),
        };
        return one(Intent::View(ViewCmd::Palette(Some(next))));
    }
    let matches: usize = match ctx.templates() {
        Some(held) => next.matching(held).len(),
        None => 0,
    };
    match code {
        KeyCode::Esc => return one(Intent::View(ViewCmd::Palette(None))),
        KeyCode::Down | KeyCode::Tab => next.move_selection(1, matches),
        KeyCode::Up | KeyCode::BackTab => next.move_selection(-1, matches),
        KeyCode::Backspace => {
            next.filter = shorten(next.filter);
            // The list under it just changed, and a selection counted over the
            // old one points at a different template — or at nothing.
            next.selected = 0;
        },
        KeyCode::Char(c) => {
            next.filter.push(c);
            next.selected = 0;
        },
        _ => return nothing(),
    }
    one(Intent::View(ViewCmd::Palette(Some(next))))
}

fn shorten(text: String) -> (r: String)
    ensures
        r@ == shortened(text@),
{
    let mut out: String = text;
    out.pop();
    out
}

/// What a key does to the form. `None` is a key that means nothing to it.
fn type_into_form(code: KeyCode, form: &Form) -> (r: Option<Option<Form>>)
    ensures
        match r {
            Some(asking) => next_form(code, form@) == Some(crate::palette::some_form(asking)),
            None => next_form(code, form@) is None,
        },
{
    let mut next: Form = form.clone();
    match code {
        // Back to the list rather than out altogether: filling in the wrong
        // template is a thing that happens, and one `Esc` should undo one step.
        KeyCode::Esc => return Some(None),
        KeyCode::Down | KeyCode::Tab => next.move_to(1),
        KeyCode::Up | KeyCode::BackTab => next.move_to(-1),
        KeyCode::Backspace => {
            let value: String = shorten(next.current());
            next.edit(value);
        },
        KeyCode::Char(c) => {
            let mut value: String = next.current();
            value.push(c);
            next.edit(value);
        },
        _ => return None,
    }
    Some(Some(next))
}

/// Pick what the palette has selected, or answer the form it turned into.
fn use_template(ctx: &InputContext<'_>) -> (r: Vec<Intent>)
    ensures
        intent_views(r@) == template_used(ctx@),
{
    let open: &Palette = match ctx.palette {
        Some(open) => open,
        None => return nothing(),
    };
    if open.asking.is_some() {
        return one(Intent::View(ViewCmd::SubmitTemplate));
    }
    match ctx.templates() {
        Some(held) => match open.picked(held) {
            Some(template) => one(Intent::View(ViewCmd::UseTemplate(template.id))),
            None => nothing(),
        },
        None => nothing(),
    }
}

/// Name the statement in front, or save it under the name that is typed.
///
/// Nothing at all when there is nothing to save: a key that opened an empty
/// "save as" over an empty buffer would be one that always appears to work.
fn save_template(ctx: &InputContext<'_>) -> (r: Vec<Intent>)
    ensures
        intent_views(r@) == template_saved(ctx@),
{
    if let Some(open) = ctx.palette {
        // Not while the palette is up for something else: `Ctrl-s` there would
        // replace what is on screen with a different errand. The view holds the
        // name and the body already, so it does the building — and closes
        // itself, which is a view's own business.
        if open.saving_body().is_some() && !trim(open.filter.as_str()).as_str().is_empty() {
            return one(Intent::View(ViewCmd::CommitTemplate));
        }
        return nothing();
    }
    // What is in front: a SQL tab's buffer, or the run the history has
    // selected. One key and one dialog either way — a second way to name a
    // statement would be a second dialog to keep in step, and the one that
    // never learns from the other's mistakes.
    let sql: String = match ctx.current() {
        Some(tab) => match tab.sql() {
            Some(text) => copy_of(text),
            None => match ctx.selected_run() {
                Some(run) => run.sql.clone(),
                None => return nothing(),
            },
        },
        None => return nothing(),
    };
    if is_blank(sql.as_str()) {
        return nothing();
    }
    one(Intent::View(ViewCmd::Palette(Some(Palette::saving(sql)))))
}

/// Ask before deleting the selected template.
///
/// Through a dialog rather than straight away: a saved statement is somebody's
/// own writing and there is no undo here, so the one thing this must not be is
/// a key that quietly loses it.
fn delete_template(ctx: &InputContext<'_>) -> (r: Vec<Intent>)
    ensures
        intent_views(r@) == template_deleted(ctx@),
{
    let open: &Palette = match ctx.palette {
        Some(open) => open,
        None => return nothing(),
    };
    let held: &Vec<Template> = match ctx.templates() {
        Some(held) => held,
        None => return nothing(),
    };
    if open.asking.is_some() || open.saving_body().is_some() {
        return nothing();
    }
    match open.picked(held) {
        Some(template) => one(
            Intent::View(
                ViewCmd::ConfirmDeleteTemplate { id: template.id, name: template.name.clone() },
            ),
        ),
        None => nothing(),
    }
}

/// What the filter box holds after this key.
///
/// `Esc` abandons the search, and so does `Backspace` on an empty box, which is
/// where the user's fingers already are. `Enter` is done typing but not done
/// searching: the box stays on screen with the query in it and the *tree* takes
/// the keyboard, which is the only way a keyboard reaches what was searched
/// for.
pub fn next_filter(code: KeyCode, current: Option<&Filter>) -> (r: Option<Filter>)
    ensures
        crate::ui::some_filter(r) == next_box(code, seen(current)),
{
    let current: &Filter = match current {
        Some(current) => current,
        // No search yet, so this is the `/` that starts one — and `/` is a
        // character the box would otherwise have taken as its first letter.
        None => return Some(Filter::opening()),
    };
    if !current.editing {
        // `/` again on a search already made: re-open the box on what is in
        // it, rather than throwing the query away to retype it.
        return Some(Filter { text: current.text.clone(), editing: true });
    }
    let mut text: String = current.text.clone();
    match code {
        KeyCode::Enter => if text.as_str().is_empty() {
            // An empty box has nothing to hand over.
            None
        } else {
            Some(Filter { text, editing: false })
        },
        KeyCode::Esc => None,
        KeyCode::Backspace => {
            // On an empty box there is nothing to delete, and abandoning the
            // search is where the user's fingers already are.
            if text.as_str().is_empty() {
                return None;
            }
            text.pop();
            Some(Filter { text, editing: true })
        },
        KeyCode::Char(c) => {
            text.push(c);
            Some(Filter { text, editing: true })
        },
        _ => Some(Filter { text, editing: true }),
    }
}

fn neighbouring_tab(ctx: &InputContext<'_>, back: bool) -> (r: Option<TabId>)
    ensures
        r == neighbour(ctx@, back),
{
    let tabs: &Vec<OpenTab> = ctx.tabs;
    let n: usize = tabs.len();
    if n == 0 {
        return None;
    }
    proof {
        assert(ctx@.tabs[0] == tabs@[0]@);
    }
    let at: Option<usize> = match ctx.active_tab {
        Some(id) => {
            let wanted = |t: &OpenTab| -> (b: bool)
                ensures b == tab_is(id)(t@)
            { t.id == id };
            position_by_view(tabs, wanted, Ghost(tab_is(id)))
        },
        None => None,
    };
    match at {
        // Nothing is active — the last tab was just closed. Stepping from an
        // assumed index 0 would skip the first tab entirely.
        None => Some(tabs[0].id),
        Some(at) => {
            let next: usize = if back {
                if at == 0 {
                    n - 1
                } else {
                    at - 1
                }
            } else if at == n - 1 {
                0
            } else {
                at + 1
            };
            proof {
                let around = if back {
                    at + n - 1
                } else {
                    at + 1
                };
                assert(around % (n as int) == next) by (nonlinear_arith)
                    requires
                        0 <= at < n,
                        n > 0,
                        around == if back {
                            at + n - 1
                        } else {
                            at + 1
                        },
                        next == if back {
                            if at == 0 {
                                n - 1
                            } else {
                                at - 1
                            }
                        } else if at == n - 1 {
                            0
                        } else {
                            at + 1
                        },
                ;
                assert(ctx@.tabs[next as int] == tabs@[next as int]@);
            }
            Some(tabs[next].id)
        },
    }
}

// ── what input keeps to ────────────────────────────────────────────────────

/// Nothing is mouse-only: whatever a gesture comes to is a way of using a
/// capability that has a key.
pub proof fn nothing_is_mouse_only(target: Target, gesture: Gesture, ctx: InputView, i: int)
    requires
        0 <= i < mouse_means(target, gesture, ctx).len(),
    ensures
        exists|b: int|
            0 <= b < key_table().len() && (#[trigger] key_table()[b]).kind == kind_of(
                mouse_means(target, gesture, ctx)[i],
            ) && key_table()[b].keys.len() > 0,
{
    let kind = kind_of(mouse_means(target, gesture, ctx)[i]);
    every_kind_has_a_binding(kind);
    assert(key_table()[place_of_kind(kind)].kind == kind);
}

/// Every entry of the grid's menu has a key of its own in the grid.
pub proof fn every_menu_entry_has_a_key_binding(at: (u16, u16), ranged: bool, i: int)
    requires
        0 <= i < grid_menu(at, ranged).entries.len(),
    ensures
        ({
            let kind = kind_of(grid_menu(at, ranged).entries[i].intent);
            key_table()[place_of_kind(kind)].kind == kind && key_table()[place_of_kind(
                kind,
            )].context == Context::Grid && key_table()[place_of_kind(kind)].keys.len() > 0
        }),
{
}

proof fn a_dialog_binds_two_kinds(i: int)
    requires
        0 <= i < key_table().len(),
        key_table()[i].context == Context::Modal,
    ensures
        key_table()[i].kind == IntentKind::DismissModal || key_table()[i].kind
            == IntentKind::ApproveQuery,
{
}

/// A dialog holds the keyboard: behind one, no key does anything but close it
/// or give its first answer.
pub proof fn a_dialog_holds_the_keyboard(event: KeyEvent, ctx: InputView)
    requires
        ctx.modal_open,
    ensures
        key_means(event, ctx) == no_intents() || key_means(event, ctx) == seq![
            view_of(ViewCmd::DismissModal),
        ] || key_means(event, ctx) == answered(0, ctx),
{
    let p = bound_in(Context::Modal, event);
    first_is_the_first(key_table(), p);
    if let Some(i) = first(key_table(), p) {
        assert(p(key_table()[i]));
        a_dialog_binds_two_kinds(i);
    }
}

proof fn no_character_is_bound_where_text_is_typed(i: int, a: int)
    requires
        0 <= i < key_table().len(),
        0 <= a < key_table()[i].keys.len(),
        key_table()[i].context == Context::Filter || key_table()[i].context == Context::Palette,
    ensures
        key_table()[i].keys[a].code is Char ==> key_table()[i].keys[a].modifiers.control,
{
}

proof fn a_character_is_not_bound(event: KeyEvent, context: Context)
    requires
        context == Context::Filter || context == Context::Palette,
        event.code is Char,
        !is_chord(event),
    ensures
        bound_kind(context, event) is None,
{
    let p = bound_in(context, event);
    first_is_the_first(key_table(), p);
    if let Some(i) = first(key_table(), p) {
        assert(p(key_table()[i]));
        let a = choose|a: int|
            0 <= a < key_table()[i].keys.len() && (#[trigger] key_table()[i].keys[a]).is(event);
        no_character_is_bound_where_text_is_typed(i, a);
    }
}

/// A search box that is being typed into takes every character: a search for a
/// table called `q` must not quit.
pub proof fn a_search_box_takes_every_character(event: KeyEvent, ctx: InputView)
    requires
        event.kind == KeyEventKind::Press,
        event.code is Char,
        !is_chord(event),
        ctx.key_context() == Context::Filter,
    ensures
        ctx.searching() matches Some(history) ==> key_means(event, ctx) == seq![
            IntentView::View(CmdView::SetHistoryTerms(next_box(event.code, Some(history)))),
        ],
        ctx.searching() is None ==> key_means(event, ctx) == seq![
            IntentView::View(CmdView::SetFilter(next_box(event.code, ctx.filter))),
        ],
{
    a_character_is_not_bound(event, Context::Filter);
}

/// The palette takes every character too.
pub proof fn the_palette_takes_every_character(event: KeyEvent, ctx: InputView)
    requires
        event.kind == KeyEventKind::Press,
        event.code is Char,
        !is_chord(event),
        ctx.key_context() == Context::Palette,
    ensures
        key_means(event, ctx) == palette_typed(event.code, ctx),
{
    a_character_is_not_bound(event, Context::Palette);
}

proof fn ctrl_c_is_bound_once(i: int, a: int)
    requires
        0 <= i < key_table().len(),
        0 <= a < key_table()[i].keys.len(),
        key_table()[i].keys[a] == with_ctrl(KeyCode::Char('c')),
    ensures
        key_table()[i].context == Context::Global,
        key_table()[i].kind == IntentKind::Quit,
{
}

proof fn keys_hold_no_alt(i: int, a: int)
    requires
        0 <= i < key_table().len(),
        0 <= a < key_table()[i].keys.len(),
    ensures
        !key_table()[i].keys[a].modifiers.alt,
        key_table()[i].keys[a].code is Char ==> !key_table()[i].keys[a].modifiers.shift,
{
}

/// `Ctrl-C` quits wherever the keyboard is, a dialog alone excepted.
pub proof fn ctrl_c_always_quits(event: KeyEvent, ctx: InputView)
    requires
        event.kind == KeyEventKind::Press,
        event.code == KeyCode::Char('c'),
        event.modifiers.control,
        !event.modifiers.alt,
        !ctx.modal_open,
    ensures
        key_means(event, ctx) == seq![app_of(Action::Quit)],
{
    let context = ctx.key_context();
    let p = bound_in(context, event);
    first_is_the_first(key_table(), p);
    if let Some(i) = first(key_table(), p) {
        assert(p(key_table()[i]));
        let a = choose|a: int|
            0 <= a < key_table()[i].keys.len() && (#[trigger] key_table()[i].keys[a]).is(event);
        keys_hold_no_alt(i, a);
        ctrl_c_is_bound_once(i, a);
    }
    let quit = place_of_kind(IntentKind::Quit);
    assert(key_table()[quit].keys[1].is(event));
    a_bound_key_reaches_its_kind(quit, event);
}

/// A gesture anywhere but on an open menu closes it before anything else.
pub proof fn a_menu_closes_on_any_other_gesture(target: Target, gesture: Gesture, ctx: InputView)
    requires
        ctx.menu is Some,
        closes_the_menu(target, gesture),
    ensures
        mouse_means(target, gesture, ctx).len() > 0,
        mouse_means(target, gesture, ctx)[0] == view_of(ViewCmd::CloseMenu),
        mouse_means(target, gesture, ctx).skip(1) == gesture_means(target, gesture, ctx),
{
    assert(mouse_means(target, gesture, ctx).skip(1) =~= gesture_means(target, gesture, ctx));
}

/// A key and the thing it stands for agree: the same tab is closed, the same
/// statement run, the same answer given.
pub proof fn a_key_does_what_a_click_does(ctx: InputView, code: KeyCode, id: TabId, col: usize)
    requires
        ctx.active_tab == Some(id),
        ctx.grid_column == Some(col),
    ensures
        materialised(IntentKind::CloseTab, code, ctx) == gesture_means(
            Target::TabClose(id),
            Gesture::Click,
            ctx,
        ),
        materialised(IntentKind::RunQuery, code, ctx) == gesture_means(
            Target::Button(ButtonId::RunQuery),
            Gesture::Click,
            ctx,
        ),
        materialised(IntentKind::OpenSqlTab, code, ctx) == gesture_means(
            Target::Button(ButtonId::NewSqlTab),
            Gesture::Click,
            ctx,
        ),
        materialised(IntentKind::ApproveQuery, code, ctx) == gesture_means(
            Target::Button(ButtonId::ModalChoice { index: 0 }),
            Gesture::Click,
            ctx,
        ),
        materialised(IntentKind::SortPreview, code, ctx) == gesture_means(
            Target::GridHeader { col },
            Gesture::Click,
            ctx,
        ),
{
}

/// A driver that cannot order a preview is never asked to.
pub proof fn only_a_driver_that_sorts_is_asked_to(ctx: InputView, column: usize, i: int)
    requires
        0 <= i < sorted_by(column, ctx).len(),
    ensures
        ctx.active_preview() matches Some((conn, _)) && (first_item(
            ctx.snapshot.connections@,
            conn_is(conn),
        ) matches Some(c) && c.sorts()),
{
}

/// Whether an intent is a way of using a capability, for a key bound to it. An
/// answer to a dialog is whatever the dialog asked; opening a branch is
/// expanding it; and typing into a palette that is naming a statement is part of
/// saving it.
pub open spec fn uses(intent: IntentView, kind: IntentKind) -> bool {
    ||| kind_of(intent) == kind
    ||| kind == IntentKind::ApproveQuery
    ||| kind == IntentKind::PreviewTable && kind_of(intent) == IntentKind::ToggleNode
    ||| kind == IntentKind::Palette && kind_of(intent) == IntentKind::SaveTemplate
}

proof fn closing_a_tab_is_what_is_used(id: TabId, ctx: InputView, i: int)
    requires
        0 <= i < tab_closed(id, ctx).len(),
    ensures
        uses(tab_closed(id, ctx)[i], IntentKind::CloseTab),
{
}

proof fn the_palette_is_what_is_used(code: KeyCode, ctx: InputView, i: int)
    requires
        0 <= i < palette_typed(code, ctx).len(),
    ensures
        uses(palette_typed(code, ctx)[i], IntentKind::Palette),
{
}

proof fn templates_are_what_is_used(ctx: InputView, i: int)
    ensures
        0 <= i < template_used(ctx).len() ==> uses(template_used(ctx)[i], IntentKind::UseTemplate),
        0 <= i < template_saved(ctx).len() ==> uses(
            template_saved(ctx)[i],
            IntentKind::SaveTemplate,
        ),
        0 <= i < template_deleted(ctx).len() ==> uses(
            template_deleted(ctx)[i],
            IntentKind::DeleteTemplate,
        ),
{
}

proof fn the_explorer_is_what_is_used(row: int, collapse_only: bool, ctx: InputView, i: int)
    ensures
        0 <= i < toggled(row, ctx, collapse_only).len() ==> uses(
            toggled(row, ctx, collapse_only)[i],
            IntentKind::ToggleNode,
        ),
        0 <= i < activated(row, ctx).len() ==> uses(activated(row, ctx)[i], IntentKind::PreviewTable),
        0 <= i < described(row, ctx).len() ==> uses(described(row, ctx)[i], IntentKind::DescribeTable),
{
}

/// What a key does to the screen alone: it moves about, or arranges what is
/// there.
spec fn stays_here(kind: IntentKind) -> bool {
    kind is Focus || kind is Scroll || kind is ScrollEdge || kind is ScrollHorizontally || kind
        is TreeSelection || kind is ExtendSelection || kind is GridSelection || kind is ResizeColumn
        || kind is MoveSplit || kind is EvenSplit || kind is Menu || kind is Copy || kind
        is ToggleDetail || kind is DismissModal || kind is Filter
}

#[verifier::spinoff_prover]
proof fn moving_about_is_what_is_used(kind: IntentKind, code: KeyCode, ctx: InputView, i: int)
    requires
        stays_here(kind),
        0 <= i < materialised(kind, code, ctx).len(),
    ensures
        uses(materialised(kind, code, ctx)[i], kind),
{
}

/// Using a capability comes to nothing else.
#[verifier::spinoff_prover]
pub proof fn a_capability_is_what_is_used(
    kind: IntentKind,
    code: KeyCode,
    ctx: InputView,
    i: int,
)
    requires
        0 <= i < materialised(kind, code, ctx).len(),
    ensures
        uses(materialised(kind, code, ctx)[i], kind),
{
    match kind {
        IntentKind::CloseTab => closing_a_tab_is_what_is_used(ctx.active_tab->0, ctx, i),
        IntentKind::Palette => the_palette_is_what_is_used(code, ctx, i),
        IntentKind::UseTemplate
        | IntentKind::SaveTemplate
        | IntentKind::DeleteTemplate => templates_are_what_is_used(ctx, i),
        IntentKind::ToggleNode
        | IntentKind::PreviewTable
        | IntentKind::DescribeTable => the_explorer_is_what_is_used(
            ctx.tree_selection->0 as int,
            code is Left,
            ctx,
            i,
        ),
        _ => if stays_here(kind) {
            moving_about_is_what_is_used(kind, code, ctx, i);
        },
    }
}

/// What a key comes to is what it is bound to: every intent it produces is a
/// way of using the capability its binding names.
pub proof fn a_key_does_what_it_is_bound_to(event: KeyEvent, ctx: InputView, i: int)
    requires
        0 <= i < key_means(event, ctx).len(),
    ensures
        reached(event, ctx.key_context()) matches Some(kind) && uses(
            key_means(event, ctx)[i],
            kind,
        ),
{
    if let Some(kind) = reached(event, ctx.key_context()) {
        a_capability_is_what_is_used(kind, event.code, ctx, i);
    }
}

/// Only a press is a keystroke. Windows terminals report releases too, and
/// acting on both would double every key.
pub proof fn only_a_press_is_a_keystroke(event: KeyEvent, ctx: InputView)
    requires
        event.kind != KeyEventKind::Press,
    ensures
        key_means(event, ctx) == no_intents(),
{
}

/// A pointer that only passes over something, or lets go of it, asks for
/// nothing, whatever it is on.
pub proof fn a_pointer_that_only_passes_asks_for_nothing(
    target: Target,
    gesture: Gesture,
    ctx: InputView,
)
    requires
        gesture is HoverEnter || gesture is HoverLeave || gesture is Up,
    ensures
        mouse_means(target, gesture, ctx) == no_intents(),
{
}

/// A drag across the grid selects only when it began on a cell: moving the
/// splitter sweeps the pointer over the cells beside it.
pub proof fn only_a_drag_that_began_on_a_cell_selects(
    row: usize,
    col: usize,
    from: Target,
    ctx: InputView,
)
    ensures
        mouse_means(Target::GridCell { row, col }, Gesture::DragOver { from }, ctx)
            == if from is GridCell {
            seq![view_of(ViewCmd::ExtendCellSelectionTo { row, col })]
        } else {
            no_intents()
        },
{
}

/// Choosing an entry of the menu does what the entry says, and closes it.
pub proof fn choosing_an_entry_does_what_it_says(menu: MenuView, index: usize, ctx: InputView)
    requires
        ctx.menu == Some(menu),
        index < menu.entries.len(),
        menu.entries[index as int].enabled,
    ensures
        mouse_means(Target::MenuItem { index }, Gesture::Click, ctx) == seq![
            view_of(ViewCmd::CloseMenu),
            menu.entries[index as int].intent,
        ],
{
}

/// A click beside the palette closes the palette, and a dialog over it first.
pub proof fn a_click_outside_closes_what_is_on_top(ctx: InputView)
    requires
        ctx.menu is None,
    ensures
        ctx.modal_open ==> mouse_means(Target::Backdrop, Gesture::Click, ctx) == seq![
            view_of(ViewCmd::DismissModal),
        ],
        !ctx.modal_open && ctx.palette is Some ==> mouse_means(
            Target::Backdrop,
            Gesture::Click,
            ctx,
        ) == seq![IntentView::View(CmdView::Palette(None))],
{
}

/// Going to the tab on one side and then to the one on the other comes back,
/// around either end of the bar.
pub proof fn stepping_back_undoes_stepping_on(ctx: InputView, id: TabId, back: bool)
    requires
        ctx.active_tab == Some(id),
        first(ctx.tabs, tab_is(id)) is Some,
        forall|i: int, j: int|
            0 <= i < j < ctx.tabs.len() ==> (#[trigger] ctx.tabs[i]).id != (
            #[trigger] ctx.tabs[j]).id,
    ensures
        neighbour((InputView { active_tab: neighbour(ctx, back), ..ctx }), !back) == Some(id),
{
    let n = ctx.tabs.len() as int;
    first_is_the_first(ctx.tabs, tab_is(id));
    let at = first(ctx.tabs, tab_is(id))->0;
    let there = (if back {
        at + n - 1
    } else {
        at + 1
    }) % n;
    assert(there == if back {
        if at == 0 {
            n - 1
        } else {
            at - 1
        }
    } else if at == n - 1 {
        0
    } else {
        at + 1
    }) by (nonlinear_arith)
        requires
            0 <= at < n,
            there == (if back {
                at + n - 1
            } else {
                at + 1
            }) % n,
    ;
    let next = ctx.tabs[there].id;
    first_is_the_first(ctx.tabs, tab_is(next));
    assert(tab_is(next)(ctx.tabs[there]));
    assert(first(ctx.tabs, tab_is(next)) == Some(there));
    let again = (if !back {
        there + n - 1
    } else {
        there + 1
    }) % n;
    assert(again == at) by (nonlinear_arith)
        requires
            0 <= at < n,
            there == if back {
                if at == 0 {
                    n - 1
                } else {
                    at - 1
                }
            } else if at == n - 1 {
                0
            } else {
                at + 1
            },
            again == (if !back {
                there + n - 1
            } else {
                there + 1
            }) % n,
    ;
}

/// A character taken back leaves a search as it was before it was typed.
pub proof fn a_character_taken_back_was_never_typed(typing: FilterView, c: char)
    requires
        typing.editing,
    ensures
        next_box(KeyCode::Backspace, next_box(KeyCode::Char(c), Some(typing))) == Some(typing),
{
    assert(typing.text.push(c).drop_last() =~= typing.text);
}

} // verus!
