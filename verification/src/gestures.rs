//! What the mouse and the keyboard come to.
//!
//! A button goes down and up, a wheel turns, a key is pressed; what is proved
//! here is what that is taken for, and that the two ways a thing can go are two
//! ways and not one.

use crate::copy::Format;
use crate::events::{
    KeyCode, KeyEvent, KeyEventKind, KeyModifiers, MouseButton, MouseEvent, MouseEventKind,
};
use crate::geometry::Position;
use crate::hit::{target_at, Hit, PaneId, ScrollPart, SplitId, Target};
use crate::ids::TabId;
use crate::input::{
    activated, described, edited, gesture_means, has_connection, key_means, line_chosen,
    materialised, neighbour, next_box, next_form, no_intents, palette_typed, ran, sql_tab_opened,
    still_open, tab_closed, template_deleted, template_saved, template_used, toggled, unconnected,
    InputView,
};
use crate::intent::{
    app_of, view_of, Action, ActionView, CmdView, Context, IntentKind, IntentView, SectionPick,
    ViewCmd,
};
use crate::keymap::{a_bound_key_reaches_its_kind, bound_kind, key_table};
use crate::model::{live_conn, Template};
use crate::mouse::{Gesture, MouseState, Press};
use crate::palette::{list_of, FormView, PaletteView};
use crate::search::{first, first_is_the_first, first_item};
use crate::state::{tab_is, ContentView};
use crate::text::{blank, trimmed};
use crate::ui::FilterView;
use vstd::prelude::*;

verus! {

// ── the mouse ──────────────────────────────────────────────────────────────

/// Where an event is.
pub open spec fn place(event: MouseEvent) -> Position {
    Position { x: event.column, y: event.row }
}

/// Whether an event is a button of the mouse going down, or up.
pub open spec fn left_down(event: MouseEvent) -> bool {
    event.kind == MouseEventKind::Down(MouseButton::Left)
}

pub open spec fn left_up(event: MouseEvent) -> bool {
    event.kind == MouseEventKind::Up(MouseButton::Left)
}

/// A button that goes down and up on a thing clicks it. A second click is a
/// double click where it is on the same thing, within a cell of the first, and
/// no later than three tenths of a second after it; and is a click of its own
/// otherwise.
pub proof fn two_clicks_close_together_are_one_double_click(
    s: MouseState,
    hits: Seq<Hit>,
    down: MouseEvent,
    up: MouseEvent,
    again: MouseEvent,
    up_again: MouseEvent,
    t1: u64,
    t2: u64,
    t3: u64,
    t4: u64,
)
    requires
        s.last_click is None,
        left_down(down) && left_up(up) && left_down(again) && left_up(up_again),
        target_at(hits, place(down)) is Some,
        target_at(hits, place(again)) is Some,
        t2 <= t4,
    ensures
        ({
            let first = target_at(hits, place(down))->0;
            let second = target_at(hits, place(again))->0;
            let (s1, told1) = s.after(down, hits, t1);
            let (s2, told2) = s1.after(up, hits, t2);
            let (s3, told3) = s2.after(again, hits, t3);
            let (s4, told4) = s3.after(up_again, hits, t4);
            let (dx, dy) = (again.column - down.column, again.row - down.row);
            let paired = first == second && t4 - t2 <= 300_000_000 && -1 <= dx <= 1 && -1 <= dy
                <= 1;
            &&& told1 == seq![(first, Gesture::Down)]
            &&& told2 == seq![(first, Gesture::Up), (first, Gesture::Click)]
            &&& told3 == seq![(second, Gesture::Down)]
            &&& told4 == seq![
                (second, Gesture::Up),
                (
                    second,
                    if paired {
                        Gesture::DoubleClick
                    } else {
                        Gesture::Click
                    },
                ),
            ]
            &&& s2.pressed is None && s4.pressed is None
        }),
{
}

/// A drag is told how far the pointer has gone since it was last told, and what
/// it is told adds up: two stretches come to the way from the start to the end.
pub proof fn a_drag_goes_as_far_as_the_pointer(
    s: MouseState,
    hits: Seq<Hit>,
    a: MouseEvent,
    b: MouseEvent,
    t1: u64,
    t2: u64,
)
    requires
        s.pressed is Some,
        a.kind == MouseEventKind::Drag(MouseButton::Left),
        b.kind == MouseEventKind::Drag(MouseButton::Left),
        place(a) != s.pressed->0.last,
        place(b) != place(a),
        -0x8000 <= a.column - s.pressed->0.last.x < 0x8000,
        -0x8000 <= a.row - s.pressed->0.last.y < 0x8000,
        -0x8000 <= b.column - a.column < 0x8000,
        -0x8000 <= b.row - a.row < 0x8000,
    ensures
        ({
            let start = s.pressed->0.last;
            let (s1, told1) = s.after(a, hits, t1);
            let (s2, told2) = s1.after(b, hits, t2);
            &&& told1.len() > 0 && told2.len() > 0
            &&& (told1[0].1 matches Gesture::DragBy { dx: dx1, dy: dy1 } && (told2[0].1 matches
                Gesture::DragBy { dx: dx2, dy: dy2 } && {
                &&& dx1 == a.column - start.x && dy1 == a.row - start.y
                &&& dx1 + dx2 == b.column - start.x && dy1 + dy2 == b.row - start.y
            }))
            &&& s2.pressed matches Some(press) && press.moved
        }),
{
}

/// What a pointer is dragged over is told where the drag came from, unless it is
/// that itself and no cell.
pub proof fn what_is_dragged_over_is_told(
    s: MouseState,
    hits: Seq<Hit>,
    event: MouseEvent,
    now: u64,
)
    requires
        s.pressed is Some,
        event.kind == MouseEventKind::Drag(MouseButton::Left),
        place(event) != s.pressed->0.last,
    ensures
        ({
            let from = s.pressed->0.target;
            let told = s.after(event, hits, now).1;
            match target_at(hits, place(event)) {
                Some(over) => if over == from && !(from is GridCell) {
                    told.len() == 1
                } else {
                    told.len() == 2 && told[1] == (over, Gesture::DragOver { from })
                },
                None => told.len() == 1,
            }
        }),
{
}

/// The other buttons and the wheel are told to what is under the pointer, and to
/// nothing where there is nothing; down and right are forwards, up and left
/// are back.
pub proof fn a_gesture_is_told_to_what_is_under_it(
    s: MouseState,
    hits: Seq<Hit>,
    event: MouseEvent,
    now: u64,
)
    ensures
        ({
            let over = target_at(hits, place(event));
            let (next, told) = s.after(event, hits, now);
            let gesture = match event.kind {
                MouseEventKind::Down(MouseButton::Right) => Some(Gesture::RightClick),
                MouseEventKind::Down(MouseButton::Middle) => Some(Gesture::MiddleClick),
                MouseEventKind::ScrollDown => Some(Gesture::Scroll(1)),
                MouseEventKind::ScrollUp => Some(Gesture::Scroll(-1i8)),
                MouseEventKind::ScrollRight => Some(Gesture::ScrollX(1)),
                MouseEventKind::ScrollLeft => Some(Gesture::ScrollX(-1i8)),
                _ => None,
            };
            &&& next.pointer == place(event)
            &&& (gesture matches Some(g) ==> told.len() == (if over is Some {
                1int
            } else {
                0
            }) && (over matches Some(target) ==> told[0] == (target, g)) && next.pressed
                == s.pressed)
        }),
{
}

// ── what a gesture asks for ────────────────────────────────────────────────

/// The pane that a part of the screen scrolls.
pub open spec fn pane_of(target: Target) -> Option<PaneId> {
    match target {
        Target::Pane(pane) => Some(pane),
        Target::TreeRow { .. } | Target::TreeToggle { .. } => Some(PaneId::Explorer),
        Target::GridCell { .. }
        | Target::GridHeader { .. }
        | Target::GridColEdge { .. }
        | Target::Section { .. } => Some(PaneId::Grid),
        Target::Scrollbar { pane, .. } => Some(pane),
        _ => None,
    }
}

/// A notch of the wheel scrolls the pane it is over by three lines, the way it
/// was turned; over anything else it does nothing.
pub proof fn the_wheel_scrolls_what_it_is_over(target: Target, notches: i8, ctx: InputView)
    ensures
        ({
            let means = gesture_means(target, Gesture::Scroll(notches), ctx);
            match pane_of(target) {
                Some(pane) => means.len() == 1 && (means[0] matches IntentView::View(
                    CmdView::Plain(ViewCmd::ScrollBy { pane: scrolled, delta }),
                ) && scrolled == pane && delta == 3 * notches),
                None => means.len() == 0,
            }
        }),
{
}

/// Dragging a thumb scrolls by the lines it was dragged, a click before it goes
/// a page back and a click behind it a page on; dragging an edge moves that
/// edge by the columns it was dragged.
pub proof fn what_is_dragged_goes_with_the_pointer(
    pane: PaneId,
    split: SplitId,
    col: usize,
    dx: i16,
    dy: i16,
    ctx: InputView,
)
    ensures
        ({
            let by = Gesture::DragBy { dx, dy };
            let part = |part: ScrollPart| Target::Scrollbar { pane, part };
            let thumb = gesture_means(part(ScrollPart::Thumb), by, ctx);
            let before = gesture_means(part(ScrollPart::TrackBefore), Gesture::Click, ctx);
            let behind = gesture_means(part(ScrollPart::TrackAfter), Gesture::Click, ctx);
            let edge = gesture_means(Target::GridColEdge { col }, by, ctx);
            let divider = gesture_means(Target::Splitter(split), by, ctx);
            &&& thumb == seq![view_of(ViewCmd::ScrollBy { pane, delta: dy as i32 })]
            &&& before.len() == 1 && behind.len() == 1
            &&& (before[0] matches IntentView::View(
                CmdView::Plain(ViewCmd::ScrollBy { pane: p, delta: back }),
            ) && (behind[0] matches IntentView::View(
                CmdView::Plain(ViewCmd::ScrollBy { pane: q, delta: on }),
            ) && p == pane && q == pane && on == 20 && back + on == 0))
            &&& edge == seq![view_of(ViewCmd::ResizeColumn { col, delta: dx })]
            &&& divider == seq![view_of(ViewCmd::MoveSplit { split, delta: dx })]
        }),
{
}

/// A click acts on what was clicked, and on nothing else.
pub proof fn a_click_acts_on_what_was_clicked(
    row: usize,
    col: usize,
    id: TabId,
    pane: PaneId,
    ctx: InputView,
)
    ensures
        ({
            let on = |target: Target| gesture_means(target, Gesture::Click, ctx);
            &&& on(Target::Pane(pane)) == seq![view_of(ViewCmd::FocusPane(pane))]
            &&& on(Target::TreeRow { index: row }) == seq![
                view_of(ViewCmd::FocusPane(PaneId::Explorer)),
                view_of(ViewCmd::SelectTreeRow(row)),
            ]
            &&& on(Target::GridCell { row, col }) == seq![
                view_of(ViewCmd::FocusPane(PaneId::Grid)),
                view_of(ViewCmd::SelectCell { row, col }),
            ]
            &&& gesture_means(Target::GridCell { row, col }, Gesture::Down, ctx) == on(
                Target::GridCell { row, col },
            )
            &&& on(Target::Tab(id)) == seq![view_of(ViewCmd::SelectTab(id))]
            &&& on(Target::Section { index: row }) == seq![
                view_of(ViewCmd::SelectSection(SectionPick::At(row))),
            ]
            &&& on(Target::TabClose(id)) == gesture_means(
                Target::Tab(id),
                Gesture::MiddleClick,
                ctx,
            )
        }),
{
}

/// A menu asked for on a cell opens at the pointer, and is about the selection
/// where the cell is in one of more than one cell; on any other cell, that
/// cell is put in front first and the menu is about it alone.
pub proof fn a_menu_is_about_what_was_pointed_at(row: usize, col: usize, ctx: InputView)
    ensures
        ({
            let means = gesture_means(Target::GridCell { row, col }, Gesture::RightClick, ctx);
            let inside = ctx.selection matches Some((top, left, bottom, right)) && top <= row
                <= bottom && left <= col <= right;
            let several = ctx.selection matches Some((top, left, bottom, right)) && !(top == bottom
                && left == right);
            &&& means.last() == view_of(
                ViewCmd::OpenMenu { at: Some(ctx.pointer), ranged: inside && several },
            )
            &&& inside ==> means.len() == 1
            &&& !inside ==> means.len() == 3 && means[1] == view_of(
                ViewCmd::SelectCell { row, col },
            )
        }),
{
}

// ── the tree ───────────────────────────────────────────────────────────────

/// Opening a row of the explorer that is a relation raises its tab and asks for
/// its rows; opening any other opens or closes the branch. A definition is
/// opened of a relation only, and asked for with it.
pub proof fn a_row_is_opened_by_what_it_is(index: int, ctx: InputView)
    requires
        ctx.node(index) is Some,
    ensures
        ({
            let node = ctx.node(index)->0;
            let conn = node.conn;
            match node.node_ref.relation() {
                Some(table) => {
                    &&& activated(index, ctx) == seq![
                        view_of(ViewCmd::OpenTab { conn, table }),
                        app_of(Action::PreviewTable { conn, table }),
                    ]
                    &&& described(index, ctx) == seq![
                        view_of(ViewCmd::OpenDefinition { conn, table }),
                        app_of(Action::DescribeTable { conn, table, refresh: false }),
                    ]
                },
                None => {
                    &&& activated(index, ctx) == seq![
                        app_of(Action::ToggleNode { conn, node: node.node_ref }),
                    ]
                    &&& described(index, ctx).len() == 0
                },
            }
        }),
{
}

/// A branch is opened and closed, a leaf is neither; and a key that only closes
/// leaves one that is closed as it is.
pub proof fn a_branch_is_toggled(index: int, ctx: InputView)
    requires
        ctx.node(index) is Some,
    ensures
        ({
            let node = ctx.node(index)->0;
            let toggle = app_of(Action::ToggleNode { conn: node.conn, node: node.node_ref });
            &&& node.state is Leaf <==> toggled(index, ctx, false).len() == 0
            &&& node.state is Expanded <==> toggled(index, ctx, true).len() > 0
            &&& forall|only: bool, i: int|
                0 <= i < toggled(index, ctx, only).len() ==> #[trigger] toggled(index, ctx, only)[i]
                    == toggle
        }),
{
}

/// A connection is opened to the first profile that has none, and to one that
/// has only where every profile has.
pub proof fn a_connection_is_opened_where_there_is_none(ctx: InputView)
    ensures
        match ctx.connectable() {
            Some(id) => exists|k: int|
                0 <= k < ctx.snapshot.profiles@.len() && #[trigger] ctx.snapshot.profiles@[k].id
                    == id && (forall|j: int|
                    0 <= j < k ==> has_connection(
                        ctx.snapshot,
                        (#[trigger] ctx.snapshot.profiles@[j]).id,
                    )) && (has_connection(ctx.snapshot, id) ==> k == 0 && forall|j: int|
                    0 <= j < ctx.snapshot.profiles@.len() ==> has_connection(
                        ctx.snapshot,
                        (#[trigger] ctx.snapshot.profiles@[j]).id,
                    )),
            None => ctx.snapshot.profiles@.len() == 0,
        },
{
    let profiles = ctx.snapshot.profiles@;
    let p = unconnected(ctx.snapshot);
    first_is_the_first(profiles, p);
    if let Some(k) = first(profiles, p) {
        assert(p(profiles[k]));
        assert forall|j: int| 0 <= j < k implies has_connection(
            ctx.snapshot,
            (#[trigger] profiles[j]).id,
        ) by {
            assert(!p(profiles[j]));
        }
        assert(profiles[k].id == ctx.connectable()->0);
    } else if profiles.len() > 0 {
        assert forall|j: int| 0 <= j < profiles.len() implies has_connection(
            ctx.snapshot,
            (#[trigger] profiles[j]).id,
        ) by {
            assert(!p(profiles[j]));
        }
        assert(profiles[0].id == ctx.connectable()->0);
    }
}

/// A statement is opened on the connection of the selected row while that is
/// live, and otherwise on the first that is; and there is one wherever any
/// connection is.
pub proof fn a_statement_is_opened_on_a_live_connection(ctx: InputView, i: int)
    requires
        0 <= i < ctx.snapshot.connections@.len(),
        ctx.snapshot.connections@[i].live(),
    ensures
        ctx.sql_connection() matches Some(conn) && {
            &&& (ctx.connection matches Some(selected) ==> ctx.snapshot.has_live(selected) ==> conn
                == selected)
            &&& !(ctx.connection matches Some(selected) && ctx.snapshot.has_live(selected))
                ==> exists|k: int|
                0 <= k <= i && #[trigger] ctx.snapshot.connections@[k].id == conn
                    && ctx.snapshot.connections@[k].live()
            &&& sql_tab_opened(ctx) == seq![view_of(ViewCmd::OpenSqlTab { conn })]
        },
{
    let all = ctx.snapshot.connections@;
    first_is_the_first(all, live_conn());
    assert(live_conn()(all[i]));
    let k = first(all, live_conn())->0;
    assert(live_conn()(all[k]));
    assert(all[k].id == ctx.snapshot.first_live()->0);
}

// ── tabs ───────────────────────────────────────────────────────────────────

/// Closing a tab closes that tab; and what was kept for it is let go of, unless
/// another tab shows the same relation.
pub proof fn a_tab_is_closed_and_let_go_of(id: TabId, ctx: InputView)
    requires
        first_item(ctx.tabs, tab_is(id)) is Some,
    ensures
        ({
            let closing = first_item(ctx.tabs, tab_is(id))->0;
            let means = tab_closed(id, ctx);
            let conn = closing.conn;
            &&& means[0] == view_of(ViewCmd::CloseTab(id))
            &&& match closing.content {
                ContentView::Preview(table) => if still_open(ctx.tabs, closing, table) {
                    means.len() == 1
                } else {
                    means.len() == 2 && means[1] == app_of(Action::ForgetPreview { conn, table })
                },
                ContentView::Definition { table, .. } => means.len() == 2 && means[1] == app_of(
                    Action::ForgetDefinition { conn, table },
                ),
                ContentView::Sql { query, .. } => match query {
                    Some(query) => means.len() == 2 && means[1] == app_of(
                        Action::ForgetQuery(query),
                    ),
                    None => means.len() == 1,
                },
                ContentView::History { .. } => means.len() == 1,
            }
        }),
{
}

/// The tab after the one in front is the one to its right, and after the last
/// comes the first.
pub proof fn the_next_tab_is_to_the_right(ctx: InputView, id: TabId, at: int)
    requires
        ctx.active_tab == Some(id),
        first(ctx.tabs, tab_is(id)) == Some(at),
    ensures
        0 <= at < ctx.tabs.len(),
        at + 1 < ctx.tabs.len() ==> neighbour(ctx, false) == Some(ctx.tabs[at + 1].id),
        at + 1 == ctx.tabs.len() ==> neighbour(ctx, false) == Some(ctx.tabs[0].id),
        at > 0 ==> neighbour(ctx, true) == Some(ctx.tabs[at - 1].id),
        at == 0 ==> neighbour(ctx, true) == Some(ctx.tabs[ctx.tabs.len() - 1].id),
{
    let n = ctx.tabs.len() as int;
    first_is_the_first(ctx.tabs, tab_is(id));
    vstd::arithmetic::div_mod::lemma_small_mod(at as nat, n as nat);
    if at + 1 < n {
        vstd::arithmetic::div_mod::lemma_small_mod((at + 1) as nat, n as nat);
    } else {
        vstd::arithmetic::div_mod::lemma_mod_self_0(n);
    }
    if at > 0 {
        vstd::arithmetic::div_mod::lemma_small_mod((at - 1) as nat, n as nat);
        vstd::arithmetic::div_mod::lemma_mod_add_multiples_vanish(at - 1, n);
    } else {
        vstd::arithmetic::div_mod::lemma_small_mod((n - 1) as nat, n as nat);
    }
}

/// What is run is the statement in front, on the connection of its tab, and only
/// where there is something to run and the connection is live.
pub proof fn what_is_in_front_is_run(ctx: InputView)
    ensures
        ran(ctx).len() <= 1,
        ran(ctx).len() == 1 <==> (ctx.current() matches Some(tab) && (tab.sql() matches Some(text)
            && !blank(text) && ctx.snapshot.has_live(tab.conn))),
        ran(ctx).len() == 1 ==> (ran(ctx)[0] matches IntentView::App(
            ActionView::RunQuery { conn, query, sql, max_rows, max_bytes },
        ) && {
            &&& Some(sql) == ctx.current()->0.sql()
            &&& conn == ctx.current()->0.conn
            &&& query == ctx.new_query
            &&& max_rows is None && max_bytes is None
        }),
{
}

// ── keys ───────────────────────────────────────────────────────────────────

/// Where a key points: how many rows down, and how many columns to the right.
pub open spec fn direction(code: KeyCode) -> Option<(int, int)> {
    match code {
        KeyCode::Up | KeyCode::PageUp => Some((-1, 0)),
        KeyCode::Down | KeyCode::PageDown => Some((1, 0)),
        KeyCode::Left => Some((0, -1)),
        KeyCode::Right => Some((0, 1)),
        KeyCode::Char(c) => if c == 'j' || c == 'J' {
            Some((1, 0))
        } else if c == 'k' || c == 'K' {
            Some((-1, 0))
        } else if c == 'H' {
            Some((0, -1))
        } else if c == 'L' {
            Some((0, 1))
        } else {
            None
        },
        _ => None,
    }
}

/// A key that points somewhere goes there: what it scrolls, selects, extends or
/// moves goes the way the key points, by one — or by a page, where it is a page
/// key.
pub proof fn a_key_goes_where_it_points(code: KeyCode, ctx: InputView)
    requires
        direction(code) is Some,
    ensures
        ({
            let (down, right) = direction(code)->0;
            let page = if code is PageUp || code is PageDown {
                20int
            } else {
                1
            };
            let does = |kind: IntentKind| materialised(kind, code, ctx)[0];
            &&& down != 0 ==> (does(IntentKind::Scroll) matches IntentView::View(
                CmdView::Plain(ViewCmd::ScrollBy { pane, delta }),
            ) && pane == ctx.focus && delta == down * page)
            &&& down != 0 ==> does(IntentKind::TreeSelection) == view_of(
                ViewCmd::MoveTreeSelection(down as i32),
            )
            &&& right != 0 ==> does(IntentKind::ScrollHorizontally) == view_of(
                ViewCmd::ScrollXBy { delta: right as i32 },
            )
            &&& right != 0 ==> does(IntentKind::MoveSplit) == view_of(
                ViewCmd::MoveSplit { split: SplitId::Explorer, delta: right as i16 },
            )
            &&& code is Up || code is Down || code is Left || code is Right ==> does(
                IntentKind::ExtendSelection,
            ) == view_of(
                ViewCmd::ExtendCellSelection { drow: down as i32, dcol: right as i32 },
            )
            &&& code is Char ==> does(IntentKind::GridSelection) == view_of(
                ViewCmd::MoveCellSelection { drow: down as i32, dcol: right as i32 },
            )
        }),
{
}

/// A keystroke with nothing held down.
pub open spec fn stroke(code: KeyCode) -> KeyEvent {
    KeyEvent {
        code,
        modifiers: KeyModifiers { shift: false, control: false, alt: false },
        kind: KeyEventKind::Press,
    }
}

/// A keystroke with control held down.
pub open spec fn ctrl_stroke(code: KeyCode) -> KeyEvent {
    KeyEvent {
        code,
        modifiers: KeyModifiers { shift: false, control: true, alt: false },
        kind: KeyEventKind::Press,
    }
}

proof fn a_key_is_found(i: int, a: int, event: KeyEvent)
    requires
        0 <= i < key_table().len(),
        0 <= a < key_table()[i].keys.len(),
        key_table()[i].keys[a].is(event),
    ensures
        bound_kind(key_table()[i].context, event) == Some(key_table()[i].kind),
{
    assert(key_table()[i].answers(event));
    a_bound_key_reaches_its_kind(i, event);
}

/// In the grid: `y` copies what is selected and `a` everything, as lines, and in
/// capitals as JSON; `<` and `>` make the column of the cursor narrower and
/// wider; and `s` orders by it.
pub proof fn the_keys_of_the_grid(ctx: InputView)
    requires
        ctx.key_context() == Context::Grid,
        ctx.active_tab is Some,
        ctx.grid_column is Some,
    ensures
        ({
            let key = |c: char| key_means(stroke(KeyCode::Char(c)), ctx);
            let copy = |format: Format, all: bool| seq![view_of(ViewCmd::Copy { format, all })];
            let col = ctx.grid_column->0;
            &&& key('y') == copy(Format::Csv, false)
            &&& key('Y') == copy(Format::Json, false)
            &&& key('a') == copy(Format::Csv, true)
            &&& key('A') == copy(Format::Json, true)
            &&& key('<') == seq![view_of(ViewCmd::ResizeColumn { col, delta: -1i16 })]
            &&& key('>') == seq![view_of(ViewCmd::ResizeColumn { col, delta: 1 })]
            &&& (ctx.sortable_preview() matches Some((conn, table)) ==> key('s') == seq![
                app_of(Action::SortPreview { conn, table, column: col }),
            ])
            &&& (ctx.active_preview() matches Some((conn, table)) ==> key('m') == seq![
                app_of(Action::LoadMore { conn, table }),
            ])
            &&& key('{') == seq![view_of(ViewCmd::SelectSection(SectionPick::By(-1i32)))]
            &&& key('}') == seq![view_of(ViewCmd::SelectSection(SectionPick::By(1)))]
            &&& key_means(stroke(KeyCode::Enter), ctx) == seq![view_of(ViewCmd::ToggleDetail)]
        }),
{
    a_key_is_found(23, 0, stroke(KeyCode::Char('y')));
    a_key_is_found(23, 1, stroke(KeyCode::Char('Y')));
    a_key_is_found(23, 2, stroke(KeyCode::Char('a')));
    a_key_is_found(23, 3, stroke(KeyCode::Char('A')));
    a_key_is_found(18, 0, stroke(KeyCode::Char('<')));
    a_key_is_found(18, 1, stroke(KeyCode::Char('>')));
    a_key_is_found(30, 0, stroke(KeyCode::Char('s')));
    a_key_is_found(31, 0, stroke(KeyCode::Char('m')));
    a_key_is_found(36, 0, stroke(KeyCode::Char('{')));
    a_key_is_found(36, 1, stroke(KeyCode::Char('}')));
    a_key_is_found(21, 0, stroke(KeyCode::Enter));
}

/// In the explorer: the arrows go up and down the rows, Enter opens the one that
/// is selected, `d` its definition, and the left arrow only ever closes.
pub proof fn the_keys_of_the_explorer(ctx: InputView, row: usize)
    requires
        ctx.key_context() == Context::Explorer,
        ctx.tree_selection == Some(row),
    ensures
        key_means(stroke(KeyCode::Down), ctx) == seq![view_of(ViewCmd::MoveTreeSelection(1))],
        key_means(stroke(KeyCode::Up), ctx) == seq![view_of(ViewCmd::MoveTreeSelection(-1i32))],
        key_means(stroke(KeyCode::Enter), ctx) == activated(row as int, ctx),
        key_means(stroke(KeyCode::Char('d')), ctx) == described(row as int, ctx),
        key_means(stroke(KeyCode::Right), ctx) == toggled(row as int, ctx, false),
        key_means(stroke(KeyCode::Char(' ')), ctx) == toggled(row as int, ctx, false),
        key_means(stroke(KeyCode::Left), ctx) == toggled(row as int, ctx, true),
{
    a_key_is_found(14, 0, stroke(KeyCode::Down));
    a_key_is_found(14, 1, stroke(KeyCode::Up));
    a_key_is_found(28, 0, stroke(KeyCode::Enter));
    a_key_is_found(35, 0, stroke(KeyCode::Char('d')));
    a_key_is_found(27, 0, stroke(KeyCode::Char(' ')));
    a_key_is_found(27, 1, stroke(KeyCode::Right));
    a_key_is_found(27, 2, stroke(KeyCode::Left));
}

/// A keystroke with shift held down.
pub open spec fn shift_stroke(code: KeyCode) -> KeyEvent {
    KeyEvent {
        code,
        modifiers: KeyModifiers { shift: true, control: false, alt: false },
        kind: KeyEventKind::Press,
    }
}

/// The keys that have the same meaning wherever nothing else has taken them: what
/// each of them is for.
pub proof fn the_keys_that_hold_everywhere(ctx: InputView)
    requires
        ctx.key_context() == Context::Global,
    ensures
        ({
            let key = |c: char| key_means(stroke(KeyCode::Char(c)), ctx);
            let ctrl = |c: char| key_means(ctrl_stroke(KeyCode::Char(c)), ctx);
            &&& key('q') == seq![app_of(Action::Quit)]
            &&& ctrl('c') == seq![app_of(Action::Quit)]
            &&& key('r') == ran(ctx)
            &&& key('e') == edited(ctx)
            &&& key('n') == sql_tab_opened(ctx)
            &&& key('=') == seq![view_of(ViewCmd::EvenSplit(SplitId::Explorer))]
            &&& key('g') == seq![view_of(ViewCmd::ScrollToStart(ctx.focus))]
            &&& key('G') == seq![view_of(ViewCmd::ScrollToEnd(ctx.focus))]
            &&& (ctx.connectable() matches Some(profile) ==> key('c') == seq![
                app_of(Action::Connect { profile, conn: ctx.new_conn }),
            ])
            &&& (ctx.connection matches Some(conn) ==> key('D') == seq![
                app_of(Action::Disconnect(conn)),
            ] && ctrl('r') == seq![view_of(ViewCmd::OpenHistoryTab { conn })])
            &&& (ctx.active_tab matches Some(tab) ==> ctrl('w') == tab_closed(tab, ctx))
            &&& (neighbour(ctx, false) matches Some(tab) ==> key(']') == seq![
                view_of(ViewCmd::SelectTab(tab)),
            ])
            &&& (neighbour(ctx, true) matches Some(tab) ==> key('[') == seq![
                view_of(ViewCmd::SelectTab(tab)),
            ])
            &&& ctx.snapshot.busy@.len() > 0 ==> ctrl('g') == seq![
                app_of(Action::Cancel(ctx.snapshot.busy@[0].id)),
            ]
            &&& ctx.toasts.len() > 0 ==> key_means(stroke(KeyCode::Esc), ctx) == seq![
                view_of(ViewCmd::DismissToast(ctx.toasts[0].id)),
            ]
            &&& key_means(stroke(KeyCode::Tab), ctx) == seq![view_of(ViewCmd::FocusNextPane)]
            &&& key_means(stroke(KeyCode::BackTab), ctx) == seq![view_of(ViewCmd::FocusPrevPane)]
        }),
{
    a_key_is_found(42, 0, stroke(KeyCode::Char('q')));
    a_key_is_found(42, 1, ctrl_stroke(KeyCode::Char('c')));
    a_key_is_found(32, 0, stroke(KeyCode::Char('r')));
    a_key_is_found(34, 0, stroke(KeyCode::Char('e')));
    a_key_is_found(37, 0, stroke(KeyCode::Char('n')));
    a_key_is_found(20, 0, stroke(KeyCode::Char('=')));
    a_key_is_found(12, 0, stroke(KeyCode::Char('g')));
    a_key_is_found(12, 1, stroke(KeyCode::Char('G')));
    a_key_is_found(25, 0, stroke(KeyCode::Char('c')));
    a_key_is_found(26, 0, stroke(KeyCode::Char('D')));
    a_key_is_found(4, 0, ctrl_stroke(KeyCode::Char('r')));
    a_key_is_found(39, 0, ctrl_stroke(KeyCode::Char('w')));
    a_key_is_found(38, 1, stroke(KeyCode::Char(']')));
    a_key_is_found(38, 2, stroke(KeyCode::Char('[')));
    a_key_is_found(40, 0, ctrl_stroke(KeyCode::Char('g')));
    a_key_is_found(41, 0, stroke(KeyCode::Esc));
    a_key_is_found(1, 0, stroke(KeyCode::Tab));
    a_key_is_found(0, 1, stroke(KeyCode::BackTab));
}

/// In the grid the cursor is moved by the capitals of the letters that point, and
/// a selection is extended by the arrows with shift; without it the arrows to
/// the side scroll there.
pub proof fn the_keys_that_move_about_the_grid(ctx: InputView)
    requires
        ctx.key_context() == Context::Grid,
    ensures
        ({
            let moved = |drow: i32, dcol: i32| seq![
                view_of(ViewCmd::MoveCellSelection { drow, dcol }),
            ];
            let extended = |drow: i32, dcol: i32| seq![
                view_of(ViewCmd::ExtendCellSelection { drow, dcol }),
            ];
            &&& key_means(stroke(KeyCode::Char('J')), ctx) == moved(1, 0)
            &&& key_means(stroke(KeyCode::Char('K')), ctx) == moved(-1i32, 0)
            &&& key_means(stroke(KeyCode::Char('L')), ctx) == moved(0, 1)
            &&& key_means(stroke(KeyCode::Char('H')), ctx) == moved(0, -1i32)
            &&& key_means(shift_stroke(KeyCode::Down), ctx) == extended(1, 0)
            &&& key_means(shift_stroke(KeyCode::Up), ctx) == extended(-1i32, 0)
            &&& key_means(shift_stroke(KeyCode::Right), ctx) == extended(0, 1)
            &&& key_means(shift_stroke(KeyCode::Left), ctx) == extended(0, -1i32)
            &&& key_means(stroke(KeyCode::Right), ctx) == seq![
                view_of(ViewCmd::ScrollXBy { delta: 1 }),
            ]
            &&& key_means(stroke(KeyCode::Left), ctx) == seq![
                view_of(ViewCmd::ScrollXBy { delta: -1i32 }),
            ]
        }),
{
    a_key_is_found(15, 0, stroke(KeyCode::Char('J')));
    a_key_is_found(15, 1, stroke(KeyCode::Char('K')));
    a_key_is_found(17, 0, stroke(KeyCode::Char('H')));
    a_key_is_found(17, 1, stroke(KeyCode::Char('L')));
    a_key_is_found(16, 0, shift_stroke(KeyCode::Up));
    a_key_is_found(16, 1, shift_stroke(KeyCode::Down));
    a_key_is_found(16, 2, shift_stroke(KeyCode::Left));
    a_key_is_found(16, 3, shift_stroke(KeyCode::Right));
    a_key_is_found(13, 0, stroke(KeyCode::Left));
    a_key_is_found(13, 1, stroke(KeyCode::Right));
}

/// A key that a pane has no use for does in it what it does everywhere.
pub proof fn a_key_a_pane_has_no_use_for(event: KeyEvent, ctx: InputView)
    requires
        event.kind == KeyEventKind::Press,
        ctx.key_context() == Context::Grid || ctx.key_context() == Context::Explorer,
        bound_kind(ctx.key_context(), event) is None,
    ensures
        key_means(event, ctx) == match bound_kind(Context::Global, event) {
            Some(kind) => materialised(kind, event.code, ctx),
            None => no_intents(),
        },
{
}

/// In a dialog Enter gives its first answer and Escape dismisses it.
pub proof fn the_keys_of_a_dialog(ctx: InputView)
    requires
        ctx.modal_open,
    ensures
        key_means(stroke(KeyCode::Esc), ctx) == seq![view_of(ViewCmd::DismissModal)],
        key_means(stroke(KeyCode::Enter), ctx) == match ctx.modal {
            Some(modal) => if modal.choices.len() > 0 {
                seq![modal.choices[0].intent]
            } else {
                no_intents()
            },
            None => no_intents(),
        },
{
    a_key_is_found(24, 0, stroke(KeyCode::Esc));
    a_key_is_found(33, 0, stroke(KeyCode::Enter));
}

/// What is on top owns the keyboard: a dialog before the palette, the palette
/// before a box that is typed into, and that before the pane in focus.
pub proof fn what_is_on_top_owns_the_keyboard(ctx: InputView)
    ensures
        ({
            let typed = match ctx.searching() {
                Some(search) => search.editing,
                None => ctx.filter matches Some(search) && search.editing,
            };
            let context = ctx.key_context();
            &&& context == Context::Modal <==> ctx.modal_open
            &&& context == Context::Palette <==> !ctx.modal_open && ctx.palette is Some
            &&& context == Context::Filter <==> !ctx.modal_open && ctx.palette is None && typed
            &&& !ctx.modal_open && ctx.palette is None && !typed ==> {
                &&& ctx.focus == PaneId::Explorer <==> context == Context::Explorer
                &&& ctx.focus == PaneId::Grid || ctx.focus == PaneId::Detail <==> context
                    == Context::Grid
            }
        }),
{
}

// ── typing ─────────────────────────────────────────────────────────────────

/// A search that is typed is what was typed, in order: every character goes to
/// its end. Enter keeps it and stops the typing, Escape lets go of it, and one
/// with nothing in it is not kept.
pub proof fn a_search_is_what_was_typed(typing: FilterView, c: char)
    requires
        typing.editing,
    ensures
        next_box(KeyCode::Char(c), Some(typing)) == Some(
            FilterView { text: typing.text + seq![c], editing: true },
        ),
        next_box(KeyCode::Esc, Some(typing)) is None,
        typing.text.len() > 0 ==> next_box(KeyCode::Enter, Some(typing)) == Some(
            FilterView { text: typing.text, editing: false },
        ),
        typing.text.len() == 0 ==> next_box(KeyCode::Enter, Some(typing)) is None,
        next_box(KeyCode::Char('/'), None) matches Some(open) && open.text.len() == 0
            && open.editing,
        next_box(KeyCode::Char('/'), Some((FilterView { editing: false, ..typing }))) == Some(
            typing,
        ),
{
    assert(typing.text.push(c) =~= typing.text + seq![c]);
}

/// What is typed over the list of saved statements narrows it, from its first
/// line on; the arrows go up and down it, and Escape closes it.
pub proof fn typing_narrows_the_list(
    ctx: InputView,
    open: PaletteView,
    held: Seq<Template>,
    c: char,
)
    requires
        ctx.palette == Some(open),
        open.asking is None,
        ctx.snapshot.held() == Some(held),
        open.selected < 0xffff,
    ensures
        ({
            let lines = list_of(held, open.filter).len();
            let after = |code: KeyCode| palette_typed(code, ctx)[0];
            &&& after(KeyCode::Char(c)) == IntentView::View(
                CmdView::Palette(
                    Some(PaletteView { filter: open.filter + seq![c], selected: 0, ..open }),
                ),
            )
            &&& after(KeyCode::Esc) == IntentView::View(CmdView::Palette(None))
            &&& open.selected + 1 < lines ==> after(KeyCode::Down) == IntentView::View(
                CmdView::Palette(
                    Some(PaletteView { selected: (open.selected + 1) as usize, ..open }),
                ),
            )
            &&& 0 < open.selected < lines ==> after(KeyCode::Up) == IntentView::View(
                CmdView::Palette(
                    Some(PaletteView { selected: (open.selected - 1) as usize, ..open }),
                ),
            )
            &&& after(KeyCode::Tab) == after(KeyCode::Down)
            &&& after(KeyCode::BackTab) == after(KeyCode::Up)
            &&& open.filter.len() > 0 ==> after(KeyCode::Backspace) == IntentView::View(
                CmdView::Palette(
                    Some(
                        PaletteView {
                            filter: open.filter.take(open.filter.len() - 1),
                            selected: 0,
                            ..open
                        },
                    ),
                ),
            )
        }),
{
    assert(open.filter.push(c) =~= open.filter + seq![c]);
    if open.filter.len() > 0 {
        assert(open.filter.drop_last() =~= open.filter.take(open.filter.len() - 1));
    }
}

/// What is typed into a form goes to the end of the field the keyboard is in;
/// the arrows and Tab go from field to field, and Escape goes back to the list.
pub proof fn typing_fills_a_form_in(form: FormView, c: char)
    requires
        form.at < form.fields.len() <= usize::MAX,
    ensures
        ({
            let typed = next_form(KeyCode::Char(c), form);
            let back = next_form(KeyCode::Backspace, form);
            &&& (typed matches Some(Some(next)) && next.current() == form.current() + seq![c]
                && next.at == form.at)
            &&& (back matches Some(Some(next)) && (form.current().len() > 0 ==> next.current()
                == form.current().take(form.current().len() - 1)))
            &&& next_form(KeyCode::Esc, form) == Some(None::<FormView>)
            &&& (next_form(KeyCode::Down, form) matches Some(Some(next)) && (form.at + 1
                < form.fields.len() ==> next == (FormView { at: (form.at + 1) as usize, ..form })))
            &&& (next_form(KeyCode::Up, form) matches Some(Some(next)) && (form.at > 0 ==> next
                == (FormView { at: (form.at - 1) as usize, ..form })))
            &&& next_form(KeyCode::Tab, form) == next_form(KeyCode::Down, form)
            &&& next_form(KeyCode::BackTab, form) == next_form(KeyCode::Up, form)
        }),
{
    assert(form.current().push(c) =~= form.current() + seq![c]);
    if form.current().len() > 0 {
        assert(form.current().drop_last() =~= form.current().take(form.current().len() - 1));
    }
}

/// The statement that is used, or asked about before it is deleted, is the one
/// that is selected on the list.
pub proof fn the_selected_statement_is_meant(
    ctx: InputView,
    open: PaletteView,
    held: Seq<Template>,
)
    requires
        ctx.palette == Some(open),
        open.asking is None,
        open.saving is None,
        ctx.snapshot.held() == Some(held),
        open.selected < list_of(held, open.filter).len(),
    ensures
        ({
            let template = held[list_of(held, open.filter)[open.selected as int] as int];
            &&& template_used(ctx) == seq![view_of(ViewCmd::UseTemplate(template.id))]
            &&& template_deleted(ctx) == seq![
                view_of(
                    ViewCmd::ConfirmDeleteTemplate { id: template.id, name: template.name },
                ),
            ]
            &&& line_chosen(open.selected, ctx).last() == view_of(
                ViewCmd::UseTemplate(template.id),
            )
        }),
{
}

/// What is saved is the statement in front, once it has a name that is not blank.
pub proof fn the_statement_in_front_is_saved(ctx: InputView)
    ensures
        match ctx.palette {
            Some(open) => template_saved(ctx).len() > 0 <==> open.saving is Some && trimmed(
                open.filter,
            ).len() > 0,
            None => (ctx.current() matches Some(tab) && (tab.sql() matches Some(text) && !blank(
                text,
            ))) ==> template_saved(ctx) == seq![
                IntentView::View(
                    CmdView::Palette(
                        Some(
                            PaletteView {
                                filter: Seq::empty(),
                                selected: 0,
                                asking: None,
                                saving: ctx.current()->0.sql(),
                            },
                        ),
                    ),
                ),
            ],
        },
{
}

} // verus!
