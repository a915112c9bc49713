//! One frame, and what becomes of what happens after it.
//!
//! The loop that draws and then waits belongs to the terminal. What it decides
//! is here: what an event means against the frame it was aimed at, what a
//! snapshot raises, what an intent changes and what it sends on, and what a
//! frame is.
//!
//! The hit map is rebuilt on every frame and consulted for the events that
//! follow it, so a click is always answered against the layout that drew the
//! pixels it was aimed at.
//!
//! A frame is drawn only when something changed. Mouse capture reports every
//! cell the pointer crosses, so redrawing per event would relayout, rebuild the
//! hit map and reformat every visible cell a hundred times for one sweep across
//! the screen — while [`MouseState`] is careful to report nothing for exactly
//! that reason.

use crate::editor::Edited;
use crate::events::{Event, MouseButton, MouseEvent, MouseEventKind};
use crate::geometry::Position;
use crate::hit::{target_at, ButtonId, Hit, HitMap, Target};
use crate::ids::{ConnId, QueryId, TabId};
use crate::input::{
    gesture_means, key_means, mouse_means, on_key, on_mouse, InputContext, InputView,
};
use crate::intent::{
    intent_views, some_action, Action, ActionView, CmdView, Handover, Intent, IntentView, ViewCmd,
};
use crate::model::{
    conn_is, live_conn, ConnStatus, ConnectionView, PagedResult, Snapshot, VisibleNode,
};
use crate::mouse::{Gesture, MouseState};
use crate::search::{first, first_from, first_from_is_the_first, first_item, views};
use crate::state::{tab_is, UiView};
use crate::text::{copy_of, push_all};
use crate::ui::{GridUi, Severity, UiState};
use vstd::prelude::*;

verus! {

broadcast use vstd::std_specs::hash::group_hash_axioms;

// ── what an event means ────────────────────────────────────────────────────

/// The connection a key about connections is about: the selected row's, and
/// the first there is when no row is. With several open, disconnecting has to
/// be about the one being looked at.
pub open spec fn connection_meant(ui: UiView, snapshot: Snapshot) -> Option<ConnId> {
    match ui.selected_node(snapshot) {
        Some(node) => Some(node.conn),
        None => if snapshot.connections@.len() > 0 {
            Some(snapshot.connections@[0].id)
        } else {
            None
        },
    }
}

/// What is known when an event arrives.
pub open spec fn known(
    ui: UiView,
    snapshot: Snapshot,
    new_conn: ConnId,
    new_query: QueryId,
) -> InputView {
    InputView {
        snapshot,
        focus: ui.focus,
        modal_open: ui.modal is Some,
        connection: connection_meant(ui, snapshot),
        tree_selection: ui.tree.selected,
        grid_column: match ui.active_grid() {
            Some(grid) => Some(grid.col),
            None => None,
        },
        pointer: (0, 0),
        selection: match ui.active_grid() {
            Some(grid) => Some(grid.selection(ui.active_sort(snapshot))),
            None => None,
        },
        menu: ui.menu,
        tabs: ui.tabs,
        active_tab: ui.active_tab,
        modal: ui.modal,
        toasts: ui.toasts,
        filter: ui.filter,
        palette: ui.palette,
        new_conn,
        new_query,
    }
}

/// What the input layer is told of this screen. The pointer is not in it: a key
/// press has none, and a mouse event brings its own.
pub fn context<'a>(
    ui: &'a UiState,
    snapshot: &'a Snapshot,
    new_conn: ConnId,
    new_query: QueryId,
) -> (r: InputContext<'a>)
    ensures
        r@ == known(ui@, *snapshot, new_conn, new_query),
{
    let grid: Option<&GridUi> = match ui.active_tab {
        Some(id) => ui.grid(id),
        None => None,
    };
    let node: Option<&VisibleNode> = match ui.tree.selected {
        Some(row) => ui.visible_node(snapshot, row),
        None => None,
    };
    let connection: Option<ConnId> = match node {
        Some(node) => Some(node.conn),
        None => if snapshot.connections.len() > 0 {
            Some(snapshot.connections[0].id)
        } else {
            None
        },
    };
    InputContext {
        snapshot,
        focus: ui.focus,
        modal_open: ui.modal.is_some(),
        connection,
        tree_selection: ui.tree.selected,
        grid_column: match grid {
            Some(grid) => Some(grid.col),
            None => None,
        },
        pointer: (0, 0),
        selection: match grid {
            Some(grid) => Some(grid.selection(ui.active_sort(snapshot))),
            None => None,
        },
        menu: ui.menu.as_ref(),
        tabs: &ui.tabs,
        active_tab: ui.active_tab,
        modal: ui.modal.as_ref(),
        toasts: &ui.toasts,
        filter: ui.filter.as_ref(),
        palette: ui.palette.as_ref(),
        new_conn,
        new_query,
    }
}

/// What the first `n` of some gestures mean, one after the other.
pub open spec fn gestures_mean(
    gestures: Seq<(Target, Gesture)>,
    ctx: InputView,
    n: int,
) -> Seq<IntentView>
    decreases n,
{
    if n <= 0 {
        Seq::empty()
    } else {
        gestures_mean(gestures, ctx, n - 1) + mouse_means(
            gestures[n - 1].0,
            gestures[n - 1].1,
            ctx,
        )
    }
}

/// What an event means, and what the pointer has done since.
///
/// Where the pointer is is read after the event, not before it: a right-click
/// *is* how the pointer arrives at a cell on a terminal that reports no motion,
/// and reading a position recorded on the previous event would open the menu
/// wherever the mouse was last heard from.
pub open spec fn event_means(
    event: Event,
    hits: Seq<Hit>,
    mouse: MouseState,
    ctx: InputView,
    mouse_enabled: bool,
    now: u64,
) -> (MouseState, Seq<IntentView>) {
    match event {
        Event::Key(key) => (mouse, key_means(key, ctx)),
        Event::Mouse(event) => if mouse_enabled {
            let (after, gestures) = mouse.after(event, hits, now);
            (
                after,
                gestures_mean(
                    gestures,
                    (InputView { pointer: (after.pointer.x, after.pointer.y), ..ctx }),
                    gestures.len() as int,
                ),
            )
        } else {
            (mouse, Seq::empty())
        },
        _ => (mouse, Seq::empty()),
    }
}

/// Translate one event.
pub fn from_event(
    event: Event,
    hits: &HitMap,
    mouse: &mut MouseState,
    ctx: &InputContext<'_>,
    mouse_enabled: bool,
    now: u64,
) -> (r: Vec<Intent>)
    ensures
        (*final(mouse), intent_views(r@)) == event_means(
            event,
            hits@,
            *old(mouse),
            ctx@,
            mouse_enabled,
            now,
        ),
{
    match event {
        Event::Key(key) => on_key(key, ctx),
        Event::Mouse(event) => {
            let mut out: Vec<Intent> = Vec::new();
            proof {
                assert(intent_views(out@) =~= Seq::empty());
            }
            if !mouse_enabled {
                return out;
            }
            let gestures: Vec<(Target, Gesture)> = mouse.feed(event, hits, now);
            let mut ctx: InputContext<'_> = *ctx;
            ctx.pointer = mouse.position();
            let mut i: usize = 0;
            while i < gestures.len()
                invariant
                    i <= gestures@.len(),
                    intent_views(out@) == gestures_mean(gestures@, ctx@, i as int),
                decreases gestures@.len() - i,
            {
                let mut meant: Vec<Intent> = on_mouse(gestures[i].0, gestures[i].1, &ctx);
                let ghost before = intent_views(out@);
                let ghost more = intent_views(meant@);
                out.append(&mut meant);
                proof {
                    assert(intent_views(out@) =~= before + more);
                }
                i += 1;
            }
            out
        },
        // A resize redraws by itself; the layout is computed from the frame
        // each time and has nothing to invalidate.
        _ => {
            let out: Vec<Intent> = Vec::new();
            proof {
                assert(intent_views(out@) =~= Seq::empty());
            }
            out
        },
    }
}

/// What becomes of an event: what the pointer has done since, what was meant,
/// and whether the screen has to be drawn again because of it.
pub open spec fn event_taken(
    event: Event,
    hits: Seq<Hit>,
    mouse: MouseState,
    ctx: InputView,
    mouse_enabled: bool,
    now: u64,
) -> (MouseState, Seq<IntentView>, bool) {
    if event is Resize {
        (MouseState { pressed: None, hover: None, ..mouse }, Seq::empty(), true)
    } else {
        let (after, meant) = event_means(event, hits, mouse, ctx, mouse_enabled, now);
        (after, meant, meant.len() > 0 || after.hover != mouse.hover)
    }
}

/// Translate one event, collecting its intents. Returns whether the screen has
/// to be drawn again because of it.
pub fn apply_event(
    event: Event,
    hits: &HitMap,
    mouse: &mut MouseState,
    ctx: &InputContext<'_>,
    mouse_enabled: bool,
    now: u64,
    intents: &mut Vec<Intent>,
) -> (dirty: bool)
    ensures
        ({
            let taken = event_taken(event, hits@, *old(mouse), ctx@, mouse_enabled, now);
            &&& *final(mouse) == taken.0
            &&& intent_views(final(intents)@) == intent_views(old(intents)@) + taken.1
            &&& dirty == taken.2
        }),
{
    // A resize invalidates every rectangle the pointer was measured against,
    // and a tree row is an index into a layout that no longer exists — a press
    // held across it would be released onto a different row.
    if let Event::Resize = event {
        mouse.reset();
        proof {
            assert(intent_views(intents@) =~= intent_views(intents@) + Seq::<IntentView>::empty());
        }
        return true;
    }
    let before: Option<Target> = mouse.hovered();
    let mut produced: Vec<Intent> = from_event(event, hits, mouse, ctx, mouse_enabled, now);
    let after: Option<Target> = mouse.hovered();
    let moved: bool = match (before, after) {
        (Some(a), Some(b)) => a != b,
        (None, None) => false,
        _ => true,
    };
    let any: bool = produced.len() > 0;
    let ghost held = intent_views(intents@);
    let ghost meant = intent_views(produced@);
    intents.append(&mut produced);
    proof {
        assert(intent_views(intents@) =~= held + meant);
        assert(meant.len() > 0 <==> any);
    }
    // Hover is the one thing that changes the screen without producing an
    // intent, and it is why the pointer moving *within* a target is free.
    any || moved
}

// ── what a snapshot raises ─────────────────────────────────────────────────

/// A connection that could not be opened, and that nobody has been told about.
pub open spec fn untold_failure(told: Set<u64>) -> spec_fn(ConnectionView) -> bool {
    |c: ConnectionView| !told.contains(c.id.0) && c.status is Failed
}

/// A screen with the first failure nobody has been told about put in a dialog.
pub open spec fn failure_raised(ui: UiView, snapshot: Snapshot) -> UiView {
    match first_item(snapshot.connections@, untold_failure(ui.reported_failures)) {
        Some(conn) => match conn.status {
            ConnStatus::Failed(why) => UiView {
                reported_failures: ui.reported_failures.insert(conn.id.0),
                ..ui
            }.alarmed(conn.name@ + " could not be opened"@, why@),
            _ => ui,
        },
        None => ui,
    }
}

/// The reason a connection failed, in the one place it fits.
///
/// The row in the explorer says which connection is broken and keeps saying
/// it, but the pane is narrow, so the reason is cut to about four words. The
/// row is the state; this is the reason.
///
/// Shown once per failure: dismissed, not re-raised by the next unrelated
/// snapshot.
pub fn raise_connection_failure(snapshot: &Snapshot, ui: &mut UiState)
    ensures
        final(ui)@ == failure_raised(old(ui)@, *snapshot),
{
    let ghost before = ui@;
    let ghost wanted = untold_failure(before.reported_failures);
    let mut i: usize = 0;
    while i < snapshot.connections.len()
        invariant
            i <= snapshot.connections@.len(),
            ui@ == before,
            before == old(ui)@,
            wanted == untold_failure(before.reported_failures),
            first_from(snapshot.connections@, wanted, 0) == first_from(
                snapshot.connections@,
                wanted,
                i as int,
            ),
        decreases snapshot.connections@.len() - i,
    {
        let conn: &ConnectionView = &snapshot.connections[i];
        // Skipping the ones already reported before looking at the status: a
        // single remembered id would let the first failure hide every later
        // one, because it stays in the list and is what a plain search keeps
        // finding.
        if !ui.reported_failures.contains(&conn.id.0) {
            if let ConnStatus::Failed(why) = &conn.status {
                proof {
                    assert(wanted(*conn));
                    assert(first_from(snapshot.connections@, wanted, i as int) == Some(i as int));
                }
                ui.reported_failures.insert(conn.id.0);
                let mut title: String = copy_of(conn.name.as_str());
                push_all(&mut title, " could not be opened");
                ui.raise_error(title.as_str(), why.as_str());
                proof {
                    assert(ui@ =~= failure_raised(before, *snapshot));
                }
                return ;
            }
        }
        i += 1;
    }
}

/// A screen after a snapshot: what the snapshot raises is raised, and what it
/// closed is closed.
pub open spec fn refreshed(ui: UiView, snapshot: Snapshot) -> UiView {
    let failed = failure_raised(ui, snapshot);
    let previewed = failed.previews_reported(snapshot, failed.tabs.len() as int);
    let queried = previewed.approvals_raised(snapshot).queries_reported(snapshot);
    queried.disconnected_closed(queried.tabs, snapshot, queried.tabs.len() as int)
}

proof fn reporting_previews_counts_the_tabs(ui: UiView, snapshot: Snapshot, n: int)
    requires
        0 <= n <= ui.tabs.len(),
        ui.next_toast + n <= u64::MAX,
    ensures
        ui.previews_reported(snapshot, n).tabs == ui.tabs,
        ui.previews_reported(snapshot, n).next_toast <= ui.next_toast + n,
    decreases n,
{
    if n > 0 {
        reporting_previews_counts_the_tabs(ui, snapshot, n - 1);
    }
}

/// Take a snapshot in.
pub fn refresh(ui: &mut UiState, snapshot: &Snapshot)
    requires
        old(ui)@.next_toast + 2 * old(ui)@.tabs.len() <= u64::MAX,
    ensures
        final(ui)@ == refreshed(old(ui)@, *snapshot),
{
    raise_connection_failure(snapshot, ui);
    proof {
        reporting_previews_counts_the_tabs(ui@, *snapshot, ui@.tabs.len() as int);
    }
    ui.raise_preview_errors(snapshot);
    ui.raise_approvals(snapshot);
    ui.raise_query_errors(snapshot);
    ui.close_disconnected_tabs(snapshot);
}

/// A screen that has just been started.
///
/// A connection asked for before the terminal was taken over can already have
/// failed by the time the screen is up, and a failed connect publishes nothing
/// afterwards — so waiting for the next snapshot would mean waiting for one
/// that never comes.
pub fn initial_ui(snapshot: &Snapshot) -> (r: UiState)
    ensures
        r@ == refreshed(UiView::initial(), *snapshot),
{
    let mut ui: UiState = UiState::new();
    refresh(&mut ui, snapshot);
    ui
}

// ── when the loop ends ─────────────────────────────────────────────────────

/// What waiting for the terminal and the store came back with.
#[derive(Debug, Clone, Copy, PartialEq, Eq, Structural)]
pub enum Heard {
    /// Nothing was waited for yet.
    Nothing,
    /// Something happened in the terminal.
    Event,
    /// The terminal has no more to say, or could not be read.
    TerminalGone,
    /// The store has published something.
    Snapshot,
    /// The store will publish nothing any more.
    StoreGone,
}

/// What becomes of the loop.
#[derive(Debug, Clone, Copy, PartialEq, Eq, Structural)]
pub enum Onward {
    /// It goes on.
    GoOn,
    /// It ends, and all is well.
    Stop,
    /// It ends, and something is wrong.
    Fail,
}

/// What becomes of the loop after what it heard.
///
/// A quit that was asked for is the way out that means "finished". A terminal
/// that is gone leaves nothing to draw on, which ends the loop as well. A store
/// that is gone without having been asked to go has crashed.
pub open spec fn onward(should_quit: bool, heard: Heard) -> Onward {
    if should_quit || heard is TerminalGone {
        Onward::Stop
    } else if heard is StoreGone {
        Onward::Fail
    } else {
        Onward::GoOn
    }
}

/// Whether the loop goes on, after what it heard.
pub fn go_on(should_quit: bool, heard: Heard) -> (r: Onward)
    ensures
        r == onward(should_quit, heard),
{
    if should_quit {
        return Onward::Stop;
    }
    match heard {
        Heard::TerminalGone => Onward::Stop,
        Heard::StoreGone => Onward::Fail,
        Heard::Nothing | Heard::Event | Heard::Snapshot => Onward::GoOn,
    }
}

/// What is said of a store that is gone.
pub fn store_failure() -> (r: String)
    ensures
        r@ == "the store stopped unexpectedly"@,
{
    copy_of("the store stopped unexpectedly")
}

/// The loop fails only over a store that went without being asked to, and goes
/// on for as long as both ends are there and nobody asked it to stop.
pub proof fn only_a_lost_store_is_a_failure(should_quit: bool, heard: Heard)
    ensures
        onward(should_quit, heard) is Fail <==> heard is StoreGone && !should_quit,
        onward(should_quit, heard) is GoOn <==> !should_quit && !(heard is TerminalGone)
            && !(heard is StoreGone),
        should_quit ==> onward(should_quit, heard) is Stop,
{
}

// ── what an intent does ────────────────────────────────────────────────────

/// What becomes of an intent, besides what it does to the screen.
#[derive(Debug)]
pub struct Reply {
    /// What the store is asked, in order.
    pub dispatch: Vec<Action>,
    /// The tab whose buffer the terminal is given away for.
    pub edit: Option<TabId>,
    /// Whether the screen has to be drawn again.
    pub dirty: bool,
}

pub open spec fn action_views(actions: Seq<Action>) -> Seq<ActionView> {
    views(actions)
}

/// A screen about to send an action on: the tab in front remembers which run it
/// started, because the id is chosen here and the store answers under it.
pub open spec fn sending(ui: UiView, action: ActionView) -> UiView {
    match action {
        ActionView::RunQuery { query, .. } => match ui.active_tab {
            Some(tab) => ui.queried(tab, query),
            None => ui,
        },
        _ => ui,
    }
}

/// What is sent on for an action: the run that the tab in front is about to
/// stop showing is forgotten first. Nothing else can be: a query is keyed by
/// the run, so leaving it behind would keep a whole result set in the store
/// that nothing could ever reach again.
pub open spec fn sent(ui: UiView, action: ActionView) -> Seq<ActionView> {
    match action {
        ActionView::RunQuery { .. } => match ui.active_tab {
            Some(tab) => match ui.query_of(tab) {
                Some(previous) => seq![ActionView::Plain(Action::ForgetQuery(previous)), action],
                None => seq![action],
            },
            None => seq![action],
        },
        _ => seq![action],
    }
}

/// What one action that may be there is as a list.
pub open spec fn as_list(action: Option<ActionView>) -> Seq<ActionView> {
    match action {
        Some(action) => seq![action],
        None => Seq::empty(),
    }
}

/// Whether this is what a view command does to a screen, and what it asks of
/// the store.
pub open spec fn followed(
    ui: UiView,
    cmd: CmdView,
    snapshot: Snapshot,
    next: UiView,
    dispatch: Seq<ActionView>,
) -> bool {
    exists|rows: Option<PagedResult>, action: Option<ActionView>|
        #![trigger ui.follows(cmd, snapshot, rows, next, action)]
        ui.follows(cmd, snapshot, rows, next, action) && dispatch == as_list(action)
}

/// Whether this is what an intent does to a screen, and what it is answered.
pub open spec fn answers(
    ui: UiView,
    intent: IntentView,
    snapshot: Snapshot,
    next: UiView,
    dispatch: Seq<ActionView>,
    edit: Option<TabId>,
    dirty: bool,
) -> bool {
    match intent {
        IntentView::View(cmd) => {
            &&& dirty
            &&& edit is None
            &&& followed(ui, cmd, snapshot, next, dispatch)
        },
        IntentView::App(action) => {
            &&& !dirty
            &&& edit is None
            &&& next == sending(ui, action)
            &&& dispatch == sent(ui, action)
        },
        IntentView::Handover(Handover::Edit(tab)) => {
            &&& !dirty
            &&& edit == Some(tab)
            &&& next == ui
            &&& dispatch == Seq::<ActionView>::empty()
        },
    }
}

/// Do what an intent asks.
pub fn answer(ui: &mut UiState, intent: Intent, snapshot: &Snapshot) -> (r: Reply)
    requires
        old(ui)@.room(),
    ensures
        answers(
            old(ui)@,
            intent@,
            *snapshot,
            final(ui)@,
            action_views(r.dispatch@),
            r.edit,
            r.dirty,
        ),
{
    match intent {
        Intent::View(cmd) => Reply {
            dispatch: do_here(ui, cmd, snapshot),
            edit: None,
            dirty: true,
        },
        Intent::App(action) => Reply { dispatch: send_on(ui, action), edit: None, dirty: false },
        Intent::Handover(Handover::Edit(tab)) => {
            let dispatch: Vec<Action> = Vec::new();
            proof {
                assert(action_views(dispatch@) =~= Seq::empty());
            }
            Reply { dispatch, edit: Some(tab), dirty: false }
        },
    }
}

/// Do what a view command asks, before the next frame. A wheel notch that went
/// through the store would arrive a round trip later than the hand that turned
/// it. Scrolling towards the end of a preview is also a reason to fetch, and
/// that part does go to the store.
fn do_here(ui: &mut UiState, cmd: ViewCmd, snapshot: &Snapshot) -> (r: Vec<Action>)
    requires
        old(ui)@.room(),
    ensures
        followed(old(ui)@, cmd@, *snapshot, final(ui)@, action_views(r@)),
{
    let ghost before = ui@;
    let ghost said = cmd@;
    let action: Option<Action> = ui.apply(cmd, snapshot);
    let ghost asked = some_action(action);
    let mut dispatch: Vec<Action> = Vec::new();
    proof {
        assert(action_views(dispatch@) =~= Seq::empty());
    }
    if let Some(action) = action {
        let ghost one = action@;
        dispatch.push(action);
        proof {
            assert(action_views(dispatch@) =~= seq![one]);
        }
    }
    proof {
        assert(action_views(dispatch@) == as_list(asked));
    }
    dispatch
}

/// Send an action on.
fn send_on(ui: &mut UiState, action: Action) -> (r: Vec<Action>)
    ensures
        final(ui)@ == sending(old(ui)@, action@),
        action_views(r@) == sent(old(ui)@, action@),
{
    let ghost before = ui@;
    let ghost asked = action@;
    let mut dispatch: Vec<Action> = Vec::new();
    proof {
        assert(action_views(dispatch@) =~= Seq::empty());
    }
    // Recorded before dispatching: the reply can arrive on the next snapshot,
    // and a tab that had not written the id down yet would not recognise its
    // own result.
    if let Action::RunQuery { query, .. } = &action {
        if let Some(tab) = ui.active_tab {
            if let Some(previous) = ui.query_of(tab) {
                let forget: Action = Action::ForgetQuery(previous);
                let ghost forgotten = forget@;
                dispatch.push(forget);
                proof {
                    assert(action_views(dispatch@) =~= seq![forgotten]);
                }
            }
            ui.set_query(tab, *query);
        }
    }
    let ghost held = action_views(dispatch@);
    dispatch.push(action);
    proof {
        assert(action_views(dispatch@) =~= held.push(asked));
        assert(held.push(asked) =~= sent(before, asked));
    }
    dispatch
}

/// A screen after an edit ended one of the ways it can.
pub open spec fn edited(ui: UiView, tab: TabId, outcome: Edited, hurried: Seq<char>) -> UiView {
    match outcome {
        Edited::Changed(back) => ui.buffered(tab, back@),
        Edited::Unchanged => ui,
        Edited::Returned => ui.toasted(Severity::Warning, hurried),
        Edited::Failed(why) => ui.alarmed("The editor"@, why@),
    }
}

/// What the screen does with each way an edit can end. `hurried` is what is
/// said of an editor that came straight back.
pub fn apply_edit(ui: &mut UiState, tab: TabId, outcome: Edited, hurried: String)
    requires
        old(ui)@.next_toast < u64::MAX,
    ensures
        final(ui)@ == edited(old(ui)@, tab, outcome, hurried@),
{
    match outcome {
        Edited::Changed(back) => ui.set_buffer(tab, back),
        // Nothing to say. Closing without saving is how somebody says no, and
        // a message about it is a message about a decision already made.
        Edited::Unchanged => {},
        // A notice rather than a dialog: the buffer is as it was, so there is
        // nothing to answer — only a setting worth knowing about.
        Edited::Returned => ui.warn(hurried),
        // A dialog, because nothing happened and the reason is a sentence
        // wider than the status bar: `$EDITOR` naming a program that is not
        // installed reads as `e` doing nothing at all.
        Edited::Failed(why) => ui.raise_error("The editor", why.as_str()),
    }
}

// ── what the loop keeps to ─────────────────────────────────────────────────

/// A press held across a resize is not released onto whatever the new layout
/// put there: what comes after it is not a click.
pub proof fn a_press_does_not_survive_a_resize(
    hits: Seq<Hit>,
    mouse: MouseState,
    ctx: InputView,
    enabled: bool,
    now: u64,
    up: MouseEvent,
    later: u64,
)
    requires
        up.kind == MouseEventKind::Up(MouseButton::Left),
    ensures
        ({
            let resized = event_taken(Event::Resize, hits, mouse, ctx, enabled, now);
            let released = event_taken(Event::Mouse(up), hits, resized.0, ctx, enabled, later);
            &&& resized.2
            &&& resized.1.len() == 0
            &&& released.1.len() == 0
            &&& !released.2
        }),
{
}

/// A pointer crossing the cells of one target asks for nothing, and for no
/// frame.
pub proof fn a_pointer_within_a_target_asks_for_no_frame(
    hits: Seq<Hit>,
    mouse: MouseState,
    ctx: InputView,
    enabled: bool,
    now: u64,
    to: MouseEvent,
)
    requires
        to.kind == MouseEventKind::Moved,
        mouse.hover == target_at(hits, (Position { x: to.column, y: to.row })),
    ensures
        event_taken(Event::Mouse(to), hits, mouse, ctx, enabled, now).1.len() == 0,
        !event_taken(Event::Mouse(to), hits, mouse, ctx, enabled, now).2,
{
}

/// A pointer crossing into another target asks for a frame.
pub proof fn crossing_into_another_target_asks_for_a_frame(
    hits: Seq<Hit>,
    mouse: MouseState,
    ctx: InputView,
    now: u64,
    to: MouseEvent,
)
    requires
        to.kind == MouseEventKind::Moved,
        mouse.pressed is None,
        mouse.hover != target_at(hits, (Position { x: to.column, y: to.row })),
    ensures
        event_taken(Event::Mouse(to), hits, mouse, ctx, true, now).2,
{
}

/// A tab that starts a run recognises the run as its own, and the one it showed
/// before is forgotten.
pub proof fn a_tab_recognises_its_own_run(
    ui: UiView,
    tab: TabId,
    conn: ConnId,
    query: QueryId,
    sql: Seq<char>,
)
    requires
        ui.active_tab == Some(tab),
        ui.current() matches Some(front) && front.content is Sql,
    ensures
        ({
            let action = ActionView::RunQuery {
                conn,
                query,
                sql,
                max_rows: None,
                max_bytes: None,
            };
            &&& sending(ui, action).query_of(tab) == Some(query)
            &&& sent(ui, action).last() == action
            &&& ui.query_of(tab) matches Some(before) ==> sent(ui, action)[0]
                == ActionView::Plain(Action::ForgetQuery(before))
        }),
{
    let action = ActionView::RunQuery { conn, query, sql, max_rows: None, max_bytes: None };
    let next = sending(ui, action);
    first_from_is_the_first(ui.tabs, tab_is(tab), 0);
    first_from_is_the_first(next.tabs, tab_is(tab), 0);
    let i = first(ui.tabs, tab_is(tab))->0;
    assert(next.tabs[i].id == tab);
    assert(tab_is(tab)(next.tabs[i]));
    let j = first(next.tabs, tab_is(tab))->0;
    if j < i {
        assert(tab_is(tab)(ui.tabs[j]));
    }
}

/// A failure is put in a dialog once: dismissed, it is not raised again by the
/// next snapshot that still has it.
pub proof fn a_failed_connection_is_reported_once(ui: UiView, snapshot: Snapshot)
    ensures
        ({
            let wanted = untold_failure(ui.reported_failures);
            let next = failure_raised(ui, snapshot);
            first_item(snapshot.connections@, wanted) matches Some(conn) ==> {
                &&& next.modal is Some
                &&& !untold_failure(next.reported_failures)(conn)
            }
        }),
        first_item(snapshot.connections@, untold_failure(ui.reported_failures)) is None
            ==> failure_raised(ui, snapshot) == ui,
{
    first_from_is_the_first(snapshot.connections@, untold_failure(ui.reported_failures), 0);
}

/// The Run button is on screen exactly while pressing it would do something.
pub proof fn the_run_button_shows_exactly_when_it_would_do_something(
    ui: UiView,
    snapshot: Snapshot,
    new_conn: ConnId,
    new_query: QueryId,
)
    ensures
        ui.can_run(snapshot) <==> gesture_means(
            Target::Button(ButtonId::RunQuery),
            Gesture::Click,
            known(ui, snapshot, new_conn, new_query),
        ).len() > 0,
{
}

/// The `+` of the tab bar is there exactly while there is a connection for it
/// to open a tab on.
pub proof fn the_plus_is_there_exactly_when_it_would_open_a_tab(
    ui: UiView,
    snapshot: Snapshot,
    new_conn: ConnId,
    new_query: QueryId,
)
    ensures
        snapshot.first_live() is Some <==> gesture_means(
            Target::Button(ButtonId::NewSqlTab),
            Gesture::Click,
            known(ui, snapshot, new_conn, new_query),
        ).len() > 0,
{
    let connection = connection_meant(ui, snapshot);
    if let Some(conn) = connection {
        if snapshot.has_live(conn) {
            first_from_is_the_first(snapshot.connections@, conn_is(conn), 0);
            first_from_is_the_first(snapshot.connections@, live_conn(), 0);
            let i = first(snapshot.connections@, conn_is(conn))->0;
            assert(live_conn()(snapshot.connections@[i]));
        }
    }
}

/// An action goes on to the store as it is, and last.
pub proof fn an_action_always_goes_on(ui: UiView, action: ActionView)
    ensures
        sent(ui, action).len() > 0,
        sent(ui, action).last() == action,
{
}

} // verus!
