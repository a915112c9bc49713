//! What an input event means.
//!
//! Mouse and keyboard both produce [`Intent`]s, which is the mechanism behind
//! "nothing is mouse-only". An intent is either handled inside the render loop
//! or dispatched to the store — the split matters because scrolling must not
//! round-trip through an async task.
//!
//! [`IntentKind`] names the *capability* rather than the exact variant, so
//! clicking a specific tree row and moving the selection with the arrow keys
//! are the same kind. That is the level at which "reachable by keyboard" is a
//! meaningful claim.

use crate::copy::Format;
use crate::hit::{PaneId, SplitId, ToastId};
use crate::ids::{BusyId, ConnId, QueryId, RunId, TabId, TemplateId};
use crate::model::{NodeRef, ProfileId, TableRef};
use crate::palette::{some_palette, Palette, PaletteView};
use crate::text::{some_text, texts};
use crate::ui::{some_filter, Filter, FilterView};
use vstd::prelude::*;

verus! {

/// A statement to be kept.
#[derive(Debug, PartialEq, Eq)]
pub struct NewTemplate {
    pub name: String,
    pub body: String,
    /// The driver it is for, or any.
    pub driver: Option<String>,
    pub tags: Vec<String>,
}

pub struct NewTemplateView {
    pub name: Seq<char>,
    pub body: Seq<char>,
    pub driver: Option<Seq<char>>,
    pub tags: Seq<Seq<char>>,
}

impl View for NewTemplate {
    type V = NewTemplateView;

    open spec fn view(&self) -> NewTemplateView {
        NewTemplateView {
            name: self.name@,
            body: self.body@,
            driver: some_text(self.driver),
            tags: texts(self.tags@),
        }
    }
}

impl Clone for NewTemplate {
    fn clone(&self) -> (r: Self)
        ensures
            r@ == self@,
    {
        let mut tags: Vec<String> = Vec::new();
        let mut i: usize = 0;
        while i < self.tags.len()
            invariant
                i <= self.tags@.len(),
                tags@ == self.tags@.take(i as int),
            decreases self.tags@.len() - i,
        {
            tags.push(self.tags[i].clone());
            proof {
                assert(tags@ =~= self.tags@.take(i + 1));
            }
            i += 1;
        }
        proof {
            assert(self.tags@.take(i as int) =~= self.tags@);
        }
        NewTemplate {
            name: self.name.clone(),
            body: self.body.clone(),
            driver: self.driver.clone(),
            tags,
        }
    }
}

/// Whose rules of quoting a statement is filled in by.
#[derive(Debug, Clone, Copy, PartialEq, Eq, Structural)]
pub enum Dialect {
    /// The driver of this connection's.
    OfConnection(ConnId),
    /// PostgreSQL's, for want of a connection to ask.
    PostgreSql,
}

/// What is asked of the store.
#[derive(Debug, PartialEq, Eq)]
pub enum Action {
    Connect { profile: ProfileId, conn: ConnId },
    Disconnect(ConnId),
    ToggleNode { conn: ConnId, node: NodeRef },
    PreviewTable { conn: ConnId, table: TableRef },
    SortPreview { conn: ConnId, table: TableRef, column: usize },
    LoadMore { conn: ConnId, table: TableRef },
    ForgetPreview { conn: ConnId, table: TableRef },
    DescribeTable { conn: ConnId, table: TableRef, refresh: bool },
    ForgetDefinition { conn: ConnId, table: TableRef },
    RunQuery {
        conn: ConnId,
        query: QueryId,
        sql: String,
        max_rows: Option<u64>,
        max_bytes: Option<u64>,
    },
    ApproveQuery(QueryId),
    ForgetQuery(QueryId),
    LoadHistory { terms: String },
    LoadTemplates,
    /// Find the placeholders of a saved statement. Answered with
    /// `UiState::template_read`.
    ReadTemplate { id: TemplateId, body: String, dialect: Dialect },
    /// Fill a saved statement in. Answered with `UiState::template_bound`.
    BindTemplate { body: String, values: Vec<(String, String)>, dialect: Dialect },
    SaveTemplate(NewTemplate),
    ReplaceTemplate { id: TemplateId, with: NewTemplate },
    DeleteTemplate(TemplateId),
    Cancel(BusyId),
    Quit,
}

/// What an action asks. The ones that hold nothing but names and numbers are
/// themselves.
pub enum ActionView {
    Plain(Action),
    RunQuery {
        conn: ConnId,
        query: QueryId,
        sql: Seq<char>,
        max_rows: Option<u64>,
        max_bytes: Option<u64>,
    },
    LoadHistory { terms: Seq<char> },
    BindTemplate { body: Seq<char>, values: Seq<(Seq<char>, Seq<char>)>, dialect: Dialect },
    SaveTemplate(NewTemplateView),
    ReplaceTemplate { id: TemplateId, with: NewTemplateView },
}

impl View for Action {
    type V = ActionView;

    open spec fn view(&self) -> ActionView {
        match *self {
            Action::RunQuery { conn, query, sql, max_rows, max_bytes } => ActionView::RunQuery {
                conn,
                query,
                sql: sql@,
                max_rows,
                max_bytes,
            },
            Action::LoadHistory { terms } => ActionView::LoadHistory { terms: terms@ },
            Action::BindTemplate { body, values, dialect } => ActionView::BindTemplate {
                body: body@,
                values: crate::text::pairs(values@),
                dialect,
            },
            Action::SaveTemplate(with) => ActionView::SaveTemplate(with@),
            Action::ReplaceTemplate { id, with } => ActionView::ReplaceTemplate { id, with: with@ },
            other => ActionView::Plain(other),
        }
    }
}

pub open spec fn some_action(action: Option<Action>) -> Option<ActionView> {
    match action {
        Some(action) => Some(action@),
        None => None,
    }
}

fn copy_pairs(values: &Vec<(String, String)>) -> (r: Vec<(String, String)>)
    ensures
        r@ == values@,
{
    let mut out: Vec<(String, String)> = Vec::new();
    let mut i: usize = 0;
    while i < values.len()
        invariant
            i <= values@.len(),
            out@ == values@.take(i as int),
        decreases values@.len() - i,
    {
        out.push((values[i].0.clone(), values[i].1.clone()));
        proof {
            assert(out@ =~= values@.take(i + 1));
        }
        i += 1;
    }
    proof {
        assert(values@.take(i as int) =~= values@);
    }
    out
}

impl Clone for Action {
    fn clone(&self) -> (r: Self)
        ensures
            r@ == self@,
    {
        match self {
            Action::Connect { profile, conn } => Action::Connect {
                profile: profile.clone(),
                conn: *conn,
            },
            Action::Disconnect(conn) => Action::Disconnect(*conn),
            Action::ToggleNode { conn, node } => Action::ToggleNode {
                conn: *conn,
                node: node.clone(),
            },
            Action::PreviewTable { conn, table } => Action::PreviewTable {
                conn: *conn,
                table: table.clone(),
            },
            Action::SortPreview { conn, table, column } => Action::SortPreview {
                conn: *conn,
                table: table.clone(),
                column: *column,
            },
            Action::LoadMore { conn, table } => Action::LoadMore {
                conn: *conn,
                table: table.clone(),
            },
            Action::ForgetPreview { conn, table } => Action::ForgetPreview {
                conn: *conn,
                table: table.clone(),
            },
            Action::DescribeTable { conn, table, refresh } => Action::DescribeTable {
                conn: *conn,
                table: table.clone(),
                refresh: *refresh,
            },
            Action::ForgetDefinition { conn, table } => Action::ForgetDefinition {
                conn: *conn,
                table: table.clone(),
            },
            Action::RunQuery { conn, query, sql, max_rows, max_bytes } => Action::RunQuery {
                conn: *conn,
                query: *query,
                sql: sql.clone(),
                max_rows: *max_rows,
                max_bytes: *max_bytes,
            },
            Action::ApproveQuery(query) => Action::ApproveQuery(*query),
            Action::ForgetQuery(query) => Action::ForgetQuery(*query),
            Action::LoadHistory { terms } => Action::LoadHistory { terms: terms.clone() },
            Action::LoadTemplates => Action::LoadTemplates,
            Action::ReadTemplate { id, body, dialect } => Action::ReadTemplate {
                id: *id,
                body: body.clone(),
                dialect: *dialect,
            },
            Action::BindTemplate { body, values, dialect } => Action::BindTemplate {
                body: body.clone(),
                values: copy_pairs(values),
                dialect: *dialect,
            },
            Action::SaveTemplate(with) => Action::SaveTemplate(with.clone()),
            Action::ReplaceTemplate { id, with } => Action::ReplaceTemplate {
                id: *id,
                with: with.clone(),
            },
            Action::DeleteTemplate(id) => Action::DeleteTemplate(*id),
            Action::Cancel(busy) => Action::Cancel(*busy),
            Action::Quit => Action::Quit,
        }
    }
}

/// Which section of a definition to show.
#[derive(Debug, Clone, Copy, PartialEq, Eq, Structural)]
pub enum SectionPick {
    At(usize),
    By(i32),
}

/// What a view is told to do.
#[allow(inconsistent_fields)]
#[derive(Debug, PartialEq, Eq)]
pub enum ViewCmd {
    FocusPane(PaneId),
    FocusNextPane,
    FocusPrevPane,
    /// Positive scrolls towards the end of the content.
    ScrollBy { pane: PaneId, delta: i32 },
    /// Jump to a fraction of the way down, from a click on a scrollbar track.
    ///
    /// Per mille rather than a fraction so that it is exact.
    ScrollToRatio { pane: PaneId, permille: u16 },
    ScrollToStart(PaneId),
    ScrollToEnd(PaneId),
    ScrollXBy { delta: i32 },
    SelectTreeRow(usize),
    MoveTreeSelection(i32),
    /// The explorer's filter, or `None` to close the box and show the tree
    /// whole again.
    ///
    /// The whole string rather than one edit at a time: the key that changed
    /// it is the only thing that knows what it did, and a `Backspace` that
    /// removed nothing is not a state the view should have to reason about.
    SetFilter(Option<Filter>),
    SelectCell { row: usize, col: usize },
    MoveCellSelection { drow: i32, dcol: i32 },
    ExtendCellSelection { drow: i32, dcol: i32 },
    ExtendCellSelectionTo { row: usize, col: usize },
    ResizeColumn { col: usize, delta: i16 },
    MoveSplit { split: SplitId, delta: i16 },
    EvenSplit(SplitId),
    /// `None` leaves it to the view to place the menu.
    OpenMenu { at: Option<(u16, u16)>, ranged: bool },
    CloseMenu,
    ToggleDetail,
    Copy { format: Format, all: bool },
    DismissModal,
    /// A relation now has a tab open for it, focused — raising the existing
    /// one if there is already a tab on that relation.
    OpenTab { conn: ConnId, table: TableRef },
    OpenDefinition { conn: ConnId, table: TableRef },
    SelectSection(SectionPick),
    OpenSqlTab { conn: ConnId },
    OpenHistoryTab { conn: ConnId },
    /// The history's search, whole, or `None` to search for nothing.
    SetHistoryTerms(Option<Filter>),
    /// Put the statement of a past run where it can be run.
    ReuseRun(RunId),
    SelectTab(TabId),
    CloseTab(TabId),
    DismissToast(ToastId),
    /// The palette, whole, or `None` to close it.
    Palette(Option<Palette>),
    UseTemplate(TemplateId),
    SubmitTemplate,
    CommitTemplate,
    ConfirmDeleteTemplate { id: TemplateId, name: String },
}

/// What a command says. The ones that hold nothing but names and numbers are
/// themselves.
pub enum CmdView {
    Plain(ViewCmd),
    SetFilter(Option<FilterView>),
    SetHistoryTerms(Option<FilterView>),
    Palette(Option<PaletteView>),
}

impl View for ViewCmd {
    type V = CmdView;

    open spec fn view(&self) -> CmdView {
        match *self {
            ViewCmd::SetFilter(filter) => CmdView::SetFilter(some_filter(filter)),
            ViewCmd::SetHistoryTerms(filter) => CmdView::SetHistoryTerms(some_filter(filter)),
            ViewCmd::Palette(palette) => CmdView::Palette(some_palette(palette)),
            other => CmdView::Plain(other),
        }
    }
}

fn copy_filter(filter: &Option<Filter>) -> (r: Option<Filter>)
    ensures
        some_filter(r) == some_filter(*filter),
{
    match filter {
        Some(filter) => Some(filter.clone()),
        None => None,
    }
}

impl Clone for ViewCmd {
    fn clone(&self) -> (r: Self)
        ensures
            r@ == self@,
    {
        match self {
            ViewCmd::FocusPane(pane) => ViewCmd::FocusPane(*pane),
            ViewCmd::FocusNextPane => ViewCmd::FocusNextPane,
            ViewCmd::FocusPrevPane => ViewCmd::FocusPrevPane,
            ViewCmd::ScrollBy { pane, delta } => ViewCmd::ScrollBy { pane: *pane, delta: *delta },
            ViewCmd::ScrollToRatio { pane, permille } => ViewCmd::ScrollToRatio {
                pane: *pane,
                permille: *permille,
            },
            ViewCmd::ScrollToStart(pane) => ViewCmd::ScrollToStart(*pane),
            ViewCmd::ScrollToEnd(pane) => ViewCmd::ScrollToEnd(*pane),
            ViewCmd::ScrollXBy { delta } => ViewCmd::ScrollXBy { delta: *delta },
            ViewCmd::SelectTreeRow(row) => ViewCmd::SelectTreeRow(*row),
            ViewCmd::MoveTreeSelection(delta) => ViewCmd::MoveTreeSelection(*delta),
            ViewCmd::SetFilter(filter) => ViewCmd::SetFilter(copy_filter(filter)),
            ViewCmd::SelectCell { row, col } => ViewCmd::SelectCell { row: *row, col: *col },
            ViewCmd::MoveCellSelection { drow, dcol } => ViewCmd::MoveCellSelection {
                drow: *drow,
                dcol: *dcol,
            },
            ViewCmd::ExtendCellSelection { drow, dcol } => ViewCmd::ExtendCellSelection {
                drow: *drow,
                dcol: *dcol,
            },
            ViewCmd::ExtendCellSelectionTo { row, col } => ViewCmd::ExtendCellSelectionTo {
                row: *row,
                col: *col,
            },
            ViewCmd::ResizeColumn { col, delta } => ViewCmd::ResizeColumn {
                col: *col,
                delta: *delta,
            },
            ViewCmd::MoveSplit { split, delta } => ViewCmd::MoveSplit {
                split: *split,
                delta: *delta,
            },
            ViewCmd::EvenSplit(split) => ViewCmd::EvenSplit(*split),
            ViewCmd::OpenMenu { at, ranged } => ViewCmd::OpenMenu { at: *at, ranged: *ranged },
            ViewCmd::CloseMenu => ViewCmd::CloseMenu,
            ViewCmd::ToggleDetail => ViewCmd::ToggleDetail,
            ViewCmd::Copy { format, all } => ViewCmd::Copy { format: *format, all: *all },
            ViewCmd::DismissModal => ViewCmd::DismissModal,
            ViewCmd::OpenTab { conn, table } => ViewCmd::OpenTab {
                conn: *conn,
                table: table.clone(),
            },
            ViewCmd::OpenDefinition { conn, table } => ViewCmd::OpenDefinition {
                conn: *conn,
                table: table.clone(),
            },
            ViewCmd::SelectSection(pick) => ViewCmd::SelectSection(*pick),
            ViewCmd::OpenSqlTab { conn } => ViewCmd::OpenSqlTab { conn: *conn },
            ViewCmd::OpenHistoryTab { conn } => ViewCmd::OpenHistoryTab { conn: *conn },
            ViewCmd::SetHistoryTerms(filter) => ViewCmd::SetHistoryTerms(copy_filter(filter)),
            ViewCmd::ReuseRun(run) => ViewCmd::ReuseRun(*run),
            ViewCmd::SelectTab(tab) => ViewCmd::SelectTab(*tab),
            ViewCmd::CloseTab(tab) => ViewCmd::CloseTab(*tab),
            ViewCmd::DismissToast(toast) => ViewCmd::DismissToast(*toast),
            ViewCmd::Palette(palette) => ViewCmd::Palette(
                match palette {
                    Some(palette) => Some(palette.clone()),
                    None => None,
                },
            ),
            ViewCmd::UseTemplate(id) => ViewCmd::UseTemplate(*id),
            ViewCmd::SubmitTemplate => ViewCmd::SubmitTemplate,
            ViewCmd::CommitTemplate => ViewCmd::CommitTemplate,
            ViewCmd::ConfirmDeleteTemplate { id, name } => ViewCmd::ConfirmDeleteTemplate {
                id: *id,
                name: name.clone(),
            },
        }
    }
}

/// What the screen itself is given away for.
#[derive(Debug, Clone, Copy, PartialEq, Eq, Structural)]
pub enum Handover {
    /// Edit a tab's buffer in `$EDITOR`.
    Edit(TabId),
}

#[derive(Debug, PartialEq, Eq)]
pub enum Intent {
    /// Handled inside the render loop. Never leaves this crate.
    View(ViewCmd),
    /// Dispatched to the store. May perform I/O.
    App(Action),
    /// Needs the terminal to itself.
    Handover(Handover),
}

/// What an intent says.
pub enum IntentView {
    View(CmdView),
    App(ActionView),
    Handover(Handover),
}

impl View for Intent {
    type V = IntentView;

    open spec fn view(&self) -> IntentView {
        match *self {
            Intent::View(cmd) => IntentView::View(cmd@),
            Intent::App(action) => IntentView::App(action@),
            Intent::Handover(to) => IntentView::Handover(to),
        }
    }
}

impl Clone for Intent {
    fn clone(&self) -> (r: Self)
        ensures
            r@ == self@,
    {
        match self {
            Intent::View(cmd) => Intent::View(cmd.clone()),
            Intent::App(action) => Intent::App(action.clone()),
            Intent::Handover(to) => Intent::Handover(*to),
        }
    }
}

impl From<ViewCmd> for Intent {
    fn from(cmd: ViewCmd) -> (r: Self) {
        Intent::View(cmd)
    }
}

impl vstd::std_specs::convert::FromSpecImpl<ViewCmd> for Intent {
    open spec fn obeys_from_spec() -> bool {
        true
    }

    open spec fn from_spec(cmd: ViewCmd) -> Self {
        Intent::View(cmd)
    }
}

impl From<Action> for Intent {
    fn from(action: Action) -> (r: Self) {
        Intent::App(action)
    }
}

impl vstd::std_specs::convert::FromSpecImpl<Action> for Intent {
    open spec fn obeys_from_spec() -> bool {
        true
    }

    open spec fn from_spec(action: Action) -> Self {
        Intent::App(action)
    }
}

impl From<Handover> for Intent {
    fn from(to: Handover) -> (r: Self) {
        Intent::Handover(to)
    }
}

impl vstd::std_specs::convert::FromSpecImpl<Handover> for Intent {
    open spec fn obeys_from_spec() -> bool {
        true
    }

    open spec fn from_spec(to: Handover) -> Self {
        Intent::Handover(to)
    }
}

/// What a list of intents says.
pub open spec fn intent_views(intents: Seq<Intent>) -> Seq<IntentView> {
    intents.map_values(|i: Intent| i@)
}

/// A view command that holds nothing but names and numbers.
pub open spec fn view_of(cmd: ViewCmd) -> IntentView {
    IntentView::View(CmdView::Plain(cmd))
}

/// An action that holds nothing but names and numbers.
pub open spec fn app_of(action: Action) -> IntentView {
    IntentView::App(ActionView::Plain(action))
}

/// A capability, not a variant. Several intents can share a kind when they are
/// two ways of doing the same thing.
#[derive(Debug, Clone, Copy, PartialEq, Eq, Structural, Hash, PartialOrd, Ord)]
pub enum IntentKind {
    Focus,
    Scroll,
    ScrollEdge,
    ScrollHorizontally,
    TreeSelection,
    GridSelection,
    ExtendSelection,
    ResizeColumn,
    MoveSplit,
    EvenSplit,
    DismissModal,
    Filter,
    ToggleDetail,
    Menu,
    Copy,
    Connect,
    Disconnect,
    ToggleNode,
    PreviewTable,
    SortPreview,
    LoadMore,
    DescribeTable,
    SelectSection,
    OpenSqlTab,
    EditExternally,
    RunQuery,
    ApproveQuery,
    History,
    ReuseRun,
    Palette,
    UseTemplate,
    SaveTemplate,
    DeleteTemplate,
    SelectTab,
    CloseTab,
    Cancel,
    DismissToast,
    Quit,
}

/// The capability a command is a way of using.
pub open spec fn cmd_kind(cmd: CmdView) -> IntentKind {
    match cmd {
        CmdView::SetFilter(_) | CmdView::SetHistoryTerms(_) => IntentKind::Filter,
        // Opened to name a statement, it is the first half of saving one.
        CmdView::Palette(Some(palette)) => if palette.saving is Some {
            IntentKind::SaveTemplate
        } else {
            IntentKind::Palette
        },
        CmdView::Palette(None) => IntentKind::Palette,
        CmdView::Plain(cmd) => match cmd {
            ViewCmd::FocusPane(_) | ViewCmd::FocusNextPane | ViewCmd::FocusPrevPane =>
                IntentKind::Focus,
            ViewCmd::ScrollBy { .. } | ViewCmd::ScrollToRatio { .. } => IntentKind::Scroll,
            ViewCmd::ScrollToStart(_) | ViewCmd::ScrollToEnd(_) => IntentKind::ScrollEdge,
            ViewCmd::ScrollXBy { .. } => IntentKind::ScrollHorizontally,
            ViewCmd::SelectTreeRow(_) | ViewCmd::MoveTreeSelection(_) => IntentKind::TreeSelection,
            ViewCmd::SelectCell { .. } | ViewCmd::MoveCellSelection { .. } =>
                IntentKind::GridSelection,
            ViewCmd::ExtendCellSelection { .. } | ViewCmd::ExtendCellSelectionTo { .. } =>
                IntentKind::ExtendSelection,
            ViewCmd::ResizeColumn { .. } => IntentKind::ResizeColumn,
            ViewCmd::MoveSplit { .. } => IntentKind::MoveSplit,
            ViewCmd::EvenSplit(_) => IntentKind::EvenSplit,
            ViewCmd::OpenMenu { .. } | ViewCmd::CloseMenu => IntentKind::Menu,
            ViewCmd::ToggleDetail => IntentKind::ToggleDetail,
            ViewCmd::Copy { .. } => IntentKind::Copy,
            ViewCmd::DismissModal => IntentKind::DismissModal,
            // Paired with `Action::PreviewTable`: one capability, "open a
            // relation", not two.
            ViewCmd::OpenTab { .. } => IntentKind::PreviewTable,
            ViewCmd::OpenDefinition { .. } => IntentKind::DescribeTable,
            ViewCmd::SelectSection(_) => IntentKind::SelectSection,
            ViewCmd::OpenSqlTab { .. } => IntentKind::OpenSqlTab,
            ViewCmd::OpenHistoryTab { .. } => IntentKind::History,
            ViewCmd::ReuseRun(_) => IntentKind::ReuseRun,
            ViewCmd::SelectTab(_) => IntentKind::SelectTab,
            ViewCmd::CloseTab(_) => IntentKind::CloseTab,
            ViewCmd::DismissToast(_) => IntentKind::DismissToast,
            ViewCmd::UseTemplate(_) | ViewCmd::SubmitTemplate => IntentKind::UseTemplate,
            ViewCmd::CommitTemplate => IntentKind::SaveTemplate,
            ViewCmd::ConfirmDeleteTemplate { .. } => IntentKind::DeleteTemplate,
            ViewCmd::SetFilter(_) | ViewCmd::SetHistoryTerms(_) => IntentKind::Filter,
            ViewCmd::Palette(_) => IntentKind::Palette,
        },
    }
}

/// The capability an action is a way of using.
pub open spec fn action_kind(action: ActionView) -> IntentKind {
    match action {
        ActionView::RunQuery { .. } => IntentKind::RunQuery,
        ActionView::LoadHistory { .. } => IntentKind::History,
        ActionView::BindTemplate { .. } => IntentKind::UseTemplate,
        ActionView::SaveTemplate(_) | ActionView::ReplaceTemplate { .. } =>
            IntentKind::SaveTemplate,
        ActionView::Plain(action) => match action {
            Action::Connect { .. } => IntentKind::Connect,
            Action::Disconnect(_) => IntentKind::Disconnect,
            Action::ToggleNode { .. } => IntentKind::ToggleNode,
            Action::PreviewTable { .. } => IntentKind::PreviewTable,
            Action::SortPreview { .. } => IntentKind::SortPreview,
            Action::LoadMore { .. } => IntentKind::LoadMore,
            Action::DescribeTable { .. } => IntentKind::DescribeTable,
            // Paired with `ViewCmd::CloseTab`: one capability.
            Action::ForgetPreview { .. } | Action::ForgetDefinition { .. }
            | Action::ForgetQuery(_) => IntentKind::CloseTab,
            Action::RunQuery { .. } => IntentKind::RunQuery,
            Action::ApproveQuery(_) => IntentKind::ApproveQuery,
            Action::LoadHistory { .. } => IntentKind::History,
            Action::LoadTemplates => IntentKind::Palette,
            Action::ReadTemplate { .. } | Action::BindTemplate { .. } => IntentKind::UseTemplate,
            Action::SaveTemplate(_) | Action::ReplaceTemplate { .. } => IntentKind::SaveTemplate,
            Action::DeleteTemplate(_) => IntentKind::DeleteTemplate,
            Action::Cancel(_) => IntentKind::Cancel,
            Action::Quit => IntentKind::Quit,
        },
    }
}

/// The capability an intent is a way of using.
pub open spec fn kind_of(intent: IntentView) -> IntentKind {
    match intent {
        IntentView::View(cmd) => cmd_kind(cmd),
        IntentView::App(action) => action_kind(action),
        IntentView::Handover(Handover::Edit(_)) => IntentKind::EditExternally,
    }
}

impl IntentKind {
    /// Every kind there is, once.
    pub open spec fn every() -> Seq<IntentKind> {
        seq![
            IntentKind::Focus,
            IntentKind::Scroll,
            IntentKind::ScrollEdge,
            IntentKind::ScrollHorizontally,
            IntentKind::TreeSelection,
            IntentKind::GridSelection,
            IntentKind::ExtendSelection,
            IntentKind::ResizeColumn,
            IntentKind::MoveSplit,
            IntentKind::EvenSplit,
            IntentKind::DismissModal,
            IntentKind::Filter,
            IntentKind::ToggleDetail,
            IntentKind::Menu,
            IntentKind::Copy,
            IntentKind::Connect,
            IntentKind::Disconnect,
            IntentKind::ToggleNode,
            IntentKind::PreviewTable,
            IntentKind::SortPreview,
            IntentKind::LoadMore,
            IntentKind::DescribeTable,
            IntentKind::SelectSection,
            IntentKind::OpenSqlTab,
            IntentKind::EditExternally,
            IntentKind::RunQuery,
            IntentKind::ApproveQuery,
            IntentKind::History,
            IntentKind::ReuseRun,
            IntentKind::Palette,
            IntentKind::UseTemplate,
            IntentKind::SaveTemplate,
            IntentKind::DeleteTemplate,
            IntentKind::SelectTab,
            IntentKind::CloseTab,
            IntentKind::Cancel,
            IntentKind::DismissToast,
            IntentKind::Quit,
        ]
    }

    /// Every kind there is, once.
    pub fn all() -> (r: Vec<IntentKind>)
        ensures
            r@ == Self::every(),
    {
        let all: Vec<IntentKind> = vec![
            IntentKind::Focus,
            IntentKind::Scroll,
            IntentKind::ScrollEdge,
            IntentKind::ScrollHorizontally,
            IntentKind::TreeSelection,
            IntentKind::GridSelection,
            IntentKind::ExtendSelection,
            IntentKind::ResizeColumn,
            IntentKind::MoveSplit,
            IntentKind::EvenSplit,
            IntentKind::DismissModal,
            IntentKind::Filter,
            IntentKind::ToggleDetail,
            IntentKind::Menu,
            IntentKind::Copy,
            IntentKind::Connect,
            IntentKind::Disconnect,
            IntentKind::ToggleNode,
            IntentKind::PreviewTable,
            IntentKind::SortPreview,
            IntentKind::LoadMore,
            IntentKind::DescribeTable,
            IntentKind::SelectSection,
            IntentKind::OpenSqlTab,
            IntentKind::EditExternally,
            IntentKind::RunQuery,
            IntentKind::ApproveQuery,
            IntentKind::History,
            IntentKind::ReuseRun,
            IntentKind::Palette,
            IntentKind::UseTemplate,
            IntentKind::SaveTemplate,
            IntentKind::DeleteTemplate,
            IntentKind::SelectTab,
            IntentKind::CloseTab,
            IntentKind::Cancel,
            IntentKind::DismissToast,
            IntentKind::Quit,
        ];
        proof {
            assert(all@ =~= Self::every());
        }
        all
    }

    /// What a kind is called.
    pub open spec fn words(self) -> Seq<char> {
        match self {
            IntentKind::Focus => "move focus between panes"@,
            IntentKind::Scroll => "scroll the focused pane"@,
            IntentKind::ScrollEdge => "jump to the start or end"@,
            IntentKind::ScrollHorizontally => "scroll the grid sideways"@,
            IntentKind::TreeSelection => "select a node in the explorer"@,
            IntentKind::GridSelection => "select a cell"@,
            IntentKind::ExtendSelection => "select a range of cells"@,
            IntentKind::ResizeColumn => "change a column's width"@,
            IntentKind::MoveSplit => "move the split between panes"@,
            IntentKind::EvenSplit => "reset the split"@,
            IntentKind::DismissModal => "close the dialog"@,
            IntentKind::Filter => "search the explorer"@,
            IntentKind::ToggleDetail => "show a cell in full"@,
            IntentKind::Menu => "open the menu"@,
            IntentKind::Copy => "copy cells"@,
            IntentKind::Connect => "open a connection"@,
            IntentKind::Disconnect => "close a connection"@,
            IntentKind::ToggleNode => "expand or collapse a node"@,
            IntentKind::PreviewTable => "open a relation"@,
            IntentKind::SortPreview => "sort by a column"@,
            IntentKind::LoadMore => "fetch the next page"@,
            IntentKind::DescribeTable => "show what a relation is"@,
            IntentKind::SelectSection => "switch sections of a definition"@,
            IntentKind::OpenSqlTab => "open a query tab"@,
            IntentKind::EditExternally => "edit the query"@,
            IntentKind::RunQuery => "run the query"@,
            IntentKind::ApproveQuery => "answer the question"@,
            IntentKind::History => "show what has been run"@,
            IntentKind::ReuseRun => "use a past run's statement"@,
            IntentKind::Palette => "open the saved statements"@,
            IntentKind::UseTemplate => "use a saved statement"@,
            IntentKind::SaveTemplate => "save the statement"@,
            IntentKind::DeleteTemplate => "delete a saved statement"@,
            IntentKind::SelectTab => "switch tabs"@,
            IntentKind::CloseTab => "close the tab"@,
            IntentKind::Cancel => "stop what is running"@,
            IntentKind::DismissToast => "dismiss a message"@,
            IntentKind::Quit => "quit"@,
        }
    }

    /// Shown in the help modal.
    pub fn description(self) -> (r: &'static str)
        ensures
            r@ == self.words(),
            r@.len() > 0,
    {
        proof {
            every_kind_has_a_description(self);
        }
        match self {
            IntentKind::Focus => "move focus between panes",
            IntentKind::Scroll => "scroll the focused pane",
            IntentKind::ScrollEdge => "jump to the start or end",
            IntentKind::ScrollHorizontally => "scroll the grid sideways",
            IntentKind::TreeSelection => "select a node in the explorer",
            IntentKind::GridSelection => "select a cell",
            IntentKind::ExtendSelection => "select a range of cells",
            IntentKind::ResizeColumn => "change a column's width",
            IntentKind::MoveSplit => "move the split between panes",
            IntentKind::EvenSplit => "reset the split",
            IntentKind::DismissModal => "close the dialog",
            IntentKind::Filter => "search the explorer",
            IntentKind::ToggleDetail => "show a cell in full",
            IntentKind::Menu => "open the menu",
            IntentKind::Copy => "copy cells",
            IntentKind::Connect => "open a connection",
            IntentKind::Disconnect => "close a connection",
            IntentKind::ToggleNode => "expand or collapse a node",
            IntentKind::PreviewTable => "open a relation",
            IntentKind::SortPreview => "sort by a column",
            IntentKind::LoadMore => "fetch the next page",
            IntentKind::DescribeTable => "show what a relation is",
            IntentKind::SelectSection => "switch sections of a definition",
            IntentKind::OpenSqlTab => "open a query tab",
            IntentKind::EditExternally => "edit the query",
            IntentKind::RunQuery => "run the query",
            IntentKind::ApproveQuery => "answer the question",
            IntentKind::History => "show what has been run",
            IntentKind::ReuseRun => "use a past run's statement",
            IntentKind::Palette => "open the saved statements",
            IntentKind::UseTemplate => "use a saved statement",
            IntentKind::SaveTemplate => "save the statement",
            IntentKind::DeleteTemplate => "delete a saved statement",
            IntentKind::SelectTab => "switch tabs",
            IntentKind::CloseTab => "close the tab",
            IntentKind::Cancel => "stop what is running",
            IntentKind::DismissToast => "dismiss a message",
            IntentKind::Quit => "quit",
        }
    }

    /// Exhaustive on purpose.
    ///
    /// Adding an [`Intent`] variant stops this compiling, which forces the new
    /// intent to be given a kind — and a kind with no key binding fails the
    /// proof in `input` that every kind has one. That chain is the whole
    /// mechanism.
    pub fn of(intent: &Intent) -> (r: Self)
        ensures
            r == kind_of(intent@),
    {
        match intent {
            Intent::View(cmd) => match cmd {
                ViewCmd::FocusPane(_) | ViewCmd::FocusNextPane | ViewCmd::FocusPrevPane =>
                    IntentKind::Focus,
                ViewCmd::ScrollBy { .. } | ViewCmd::ScrollToRatio { .. } => IntentKind::Scroll,
                ViewCmd::ScrollToStart(_) | ViewCmd::ScrollToEnd(_) => IntentKind::ScrollEdge,
                ViewCmd::ScrollXBy { .. } => IntentKind::ScrollHorizontally,
                ViewCmd::SelectTreeRow(_) | ViewCmd::MoveTreeSelection(_) =>
                    IntentKind::TreeSelection,
                ViewCmd::SetFilter(_) | ViewCmd::SetHistoryTerms(_) => IntentKind::Filter,
                ViewCmd::SelectCell { .. } | ViewCmd::MoveCellSelection { .. } =>
                    IntentKind::GridSelection,
                ViewCmd::ExtendCellSelection { .. } | ViewCmd::ExtendCellSelectionTo { .. } =>
                    IntentKind::ExtendSelection,
                ViewCmd::ResizeColumn { .. } => IntentKind::ResizeColumn,
                ViewCmd::MoveSplit { .. } => IntentKind::MoveSplit,
                ViewCmd::EvenSplit(_) => IntentKind::EvenSplit,
                ViewCmd::OpenMenu { .. } | ViewCmd::CloseMenu => IntentKind::Menu,
                ViewCmd::ToggleDetail => IntentKind::ToggleDetail,
                ViewCmd::Copy { .. } => IntentKind::Copy,
                ViewCmd::DismissModal => IntentKind::DismissModal,
                ViewCmd::OpenTab { .. } => IntentKind::PreviewTable,
                ViewCmd::OpenDefinition { .. } => IntentKind::DescribeTable,
                ViewCmd::SelectSection(_) => IntentKind::SelectSection,
                ViewCmd::OpenSqlTab { .. } => IntentKind::OpenSqlTab,
                ViewCmd::OpenHistoryTab { .. } => IntentKind::History,
                ViewCmd::ReuseRun(_) => IntentKind::ReuseRun,
                ViewCmd::SelectTab(_) => IntentKind::SelectTab,
                ViewCmd::CloseTab(_) => IntentKind::CloseTab,
                ViewCmd::DismissToast(_) => IntentKind::DismissToast,
                ViewCmd::Palette(Some(palette)) => if palette.saving.is_some() {
                    IntentKind::SaveTemplate
                } else {
                    IntentKind::Palette
                },
                ViewCmd::Palette(None) => IntentKind::Palette,
                ViewCmd::UseTemplate(_) | ViewCmd::SubmitTemplate => IntentKind::UseTemplate,
                ViewCmd::CommitTemplate => IntentKind::SaveTemplate,
                ViewCmd::ConfirmDeleteTemplate { .. } => IntentKind::DeleteTemplate,
            },
            Intent::App(action) => match action {
                Action::Connect { .. } => IntentKind::Connect,
                Action::Disconnect(_) => IntentKind::Disconnect,
                Action::ToggleNode { .. } => IntentKind::ToggleNode,
                Action::PreviewTable { .. } => IntentKind::PreviewTable,
                Action::SortPreview { .. } => IntentKind::SortPreview,
                Action::LoadMore { .. } => IntentKind::LoadMore,
                Action::DescribeTable { .. } => IntentKind::DescribeTable,
                Action::ForgetPreview { .. } | Action::ForgetDefinition { .. }
                | Action::ForgetQuery(_) => IntentKind::CloseTab,
                Action::RunQuery { .. } => IntentKind::RunQuery,
                Action::ApproveQuery(_) => IntentKind::ApproveQuery,
                Action::LoadHistory { .. } => IntentKind::History,
                Action::LoadTemplates => IntentKind::Palette,
                Action::ReadTemplate { .. } | Action::BindTemplate { .. } =>
                    IntentKind::UseTemplate,
                Action::SaveTemplate(_) | Action::ReplaceTemplate { .. } =>
                    IntentKind::SaveTemplate,
                Action::DeleteTemplate(_) => IntentKind::DeleteTemplate,
                Action::Cancel(_) => IntentKind::Cancel,
                Action::Quit => IntentKind::Quit,
            },
            Intent::Handover(Handover::Edit(_)) => IntentKind::EditExternally,
        }
    }
}

/// Every kind has a description.
pub proof fn every_kind_has_a_description(kind: IntentKind)
    ensures
        kind.words().len() > 0,
{
    reveal_strlit("move focus between panes");
    reveal_strlit("scroll the focused pane");
    reveal_strlit("jump to the start or end");
    reveal_strlit("scroll the grid sideways");
    reveal_strlit("select a node in the explorer");
    reveal_strlit("select a cell");
    reveal_strlit("select a range of cells");
    reveal_strlit("change a column's width");
    reveal_strlit("move the split between panes");
    reveal_strlit("reset the split");
    reveal_strlit("close the dialog");
    reveal_strlit("search the explorer");
    reveal_strlit("show a cell in full");
    reveal_strlit("open the menu");
    reveal_strlit("copy cells");
    reveal_strlit("open a connection");
    reveal_strlit("close a connection");
    reveal_strlit("expand or collapse a node");
    reveal_strlit("open a relation");
    reveal_strlit("sort by a column");
    reveal_strlit("fetch the next page");
    reveal_strlit("show what a relation is");
    reveal_strlit("switch sections of a definition");
    reveal_strlit("open a query tab");
    reveal_strlit("edit the query");
    reveal_strlit("run the query");
    reveal_strlit("answer the question");
    reveal_strlit("show what has been run");
    reveal_strlit("use a past run's statement");
    reveal_strlit("open the saved statements");
    reveal_strlit("use a saved statement");
    reveal_strlit("save the statement");
    reveal_strlit("delete a saved statement");
    reveal_strlit("switch tabs");
    reveal_strlit("close the tab");
    reveal_strlit("stop what is running");
    reveal_strlit("dismiss a message");
    reveal_strlit("quit");
}

/// Where a kind stands in the list of all of them.
pub open spec fn place_of(kind: IntentKind) -> int {
    match kind {
        IntentKind::Focus => 0,
        IntentKind::Scroll => 1,
        IntentKind::ScrollEdge => 2,
        IntentKind::ScrollHorizontally => 3,
        IntentKind::TreeSelection => 4,
        IntentKind::GridSelection => 5,
        IntentKind::ExtendSelection => 6,
        IntentKind::ResizeColumn => 7,
        IntentKind::MoveSplit => 8,
        IntentKind::EvenSplit => 9,
        IntentKind::DismissModal => 10,
        IntentKind::Filter => 11,
        IntentKind::ToggleDetail => 12,
        IntentKind::Menu => 13,
        IntentKind::Copy => 14,
        IntentKind::Connect => 15,
        IntentKind::Disconnect => 16,
        IntentKind::ToggleNode => 17,
        IntentKind::PreviewTable => 18,
        IntentKind::SortPreview => 19,
        IntentKind::LoadMore => 20,
        IntentKind::DescribeTable => 21,
        IntentKind::SelectSection => 22,
        IntentKind::OpenSqlTab => 23,
        IntentKind::EditExternally => 24,
        IntentKind::RunQuery => 25,
        IntentKind::ApproveQuery => 26,
        IntentKind::History => 27,
        IntentKind::ReuseRun => 28,
        IntentKind::Palette => 29,
        IntentKind::UseTemplate => 30,
        IntentKind::SaveTemplate => 31,
        IntentKind::DeleteTemplate => 32,
        IntentKind::SelectTab => 33,
        IntentKind::CloseTab => 34,
        IntentKind::Cancel => 35,
        IntentKind::DismissToast => 36,
        IntentKind::Quit => 37,
    }
}

/// Every kind is listed, and none twice.
pub proof fn kinds_are_listed_exactly_once(kind: IntentKind, i: int)
    requires
        0 <= i < IntentKind::every().len(),
    ensures
        0 <= place_of(kind) < IntentKind::every().len(),
        IntentKind::every()[i] == kind <==> i == place_of(kind),
{
    assert(place_of(IntentKind::every()[i]) == i);
}

/// Two ways of doing one thing share a kind: a click and an arrow onto a row, a
/// click and a key onto a cell, a notch of the wheel and a click on the track.
pub proof fn two_ways_of_doing_one_thing_share_a_kind(
    row: usize,
    col: usize,
    pane: PaneId,
    permille: u16,
    drow: i32,
    dcol: i32,
)
    ensures
        kind_of(view_of(ViewCmd::SelectTreeRow(row))) == kind_of(
            view_of(ViewCmd::MoveTreeSelection(drow)),
        ),
        kind_of(view_of(ViewCmd::SelectCell { row, col })) == kind_of(
            view_of(ViewCmd::MoveCellSelection { drow, dcol }),
        ),
        kind_of(view_of(ViewCmd::ExtendCellSelectionTo { row, col })) == kind_of(
            view_of(ViewCmd::ExtendCellSelection { drow, dcol }),
        ),
        kind_of(view_of(ViewCmd::ScrollBy { pane, delta: drow })) == kind_of(
            view_of(ViewCmd::ScrollToRatio { pane, permille }),
        ),
{
}

/// Where an input arrived, which decides how it is read.
#[derive(Debug, Clone, Copy, PartialEq, Eq, Structural, Hash, PartialOrd, Ord)]
pub enum Context {
    /// Applies wherever focus is.
    Global,
    Explorer,
    Grid,
    /// A dialog is open, which takes over the keyboard.
    Modal,
    /// A search box has the keyboard. Like `Modal`, it takes it over entirely:
    /// a search for a table called `q` must not quit.
    Filter,
    /// The palette has the keyboard.
    Palette,
}

impl Context {
    /// The pane a context corresponds to, for resolving a keystroke against
    /// the current focus.
    pub fn pane(self) -> (r: Option<PaneId>)
        ensures
            r == match self {
                Context::Explorer => Some(PaneId::Explorer),
                Context::Grid => Some(PaneId::Grid),
                _ => None,
            },
    {
        match self {
            Context::Explorer => Some(PaneId::Explorer),
            Context::Grid => Some(PaneId::Grid),
            Context::Global | Context::Modal | Context::Filter | Context::Palette => None,
        }
    }
}

} // verus!
