//! A session, one event and one snapshot at a time.

use std::collections::BTreeSet;
use std::sync::atomic::{AtomicU64, Ordering};
use std::sync::Arc;

use sqlake_tui::chrome::layout;
use sqlake_tui::clock::Moment;
use sqlake_tui::copy::Format;
use sqlake_tui::datagrid::body_area;
use sqlake_tui::editor::{failed, file_name, hurried, outcome, Edited, TOO_QUICK};
use sqlake_tui::events::{
    Event, KeyCode, KeyEvent, KeyEventKind, KeyModifiers, MouseButton, MouseEvent, MouseEventKind,
};
use sqlake_tui::geometry::{Position, Rect};
use sqlake_tui::hit::{HitMap, PaneId, Target, ToastId};
use sqlake_tui::ids::{ConnId, Edition, QueryId, TabId};
use sqlake_tui::input::on_key;
use sqlake_tui::intent::{Action, Handover, Intent, SectionPick, ViewCmd};
use sqlake_tui::json::Json;
use sqlake_tui::model::{
    Column, ColumnDetail, ConnStatus, ConnectionView, Datum, DefinitionView, LoadState, NodeKind,
    NodeRef, NodeState, PagedResult, PreviewView, Profile, ProfileId, QueryView, Row, Section,
    Snapshot, Sort, SortDir, TableDetail, TableRef, Value, VisibleNode,
};
use sqlake_tui::mouse::MouseState;
use sqlake_tui::overlay::Modal;
use sqlake_tui::paint::{Canvas, Paint};
use sqlake_tui::run::{
    answer, apply_edit, apply_event, context, from_event, go_on, initial_ui,
    raise_connection_failure, refresh, store_failure, Heard, Onward,
};
use sqlake_tui::screen;
use sqlake_tui::ui::{Filter, Severity, Toast, UiState};

const NONE: KeyModifiers = KeyModifiers { shift: false, control: false, alt: false };
const SHIFT: KeyModifiers = KeyModifiers { shift: true, control: false, alt: false };

static EDITIONS: AtomicU64 = AtomicU64::new(1);

fn edition() -> Edition {
    Edition(EDITIONS.fetch_add(1, Ordering::Relaxed))
}

fn table(name: &str) -> TableRef {
    TableRef::new(vec!["public".to_owned(), name.to_owned()])
}

fn result(rows: usize, columns: usize) -> Arc<PagedResult> {
    let names = (0..columns)
        .map(|c| Column::new(&format!("c{c}"), "integer", false))
        .collect();
    let data = (0..rows)
        .map(|r| {
            Row((0..columns)
                .map(|_| Datum { value: Value::Int(r as i64), json: Json::Null })
                .collect())
        })
        .collect();
    Arc::new(PagedResult::new(edition(), names, data, None))
}

fn connection(status: ConnStatus) -> ConnectionView {
    ConnectionView {
        id: ConnId(1),
        profile: ProfileId("mock".to_owned()),
        name: "mock".to_owned(),
        color: None,
        status,
        capabilities: None,
    }
}

fn node(kind: NodeKind, label: &str, depth: u16) -> VisibleNode {
    VisibleNode {
        conn: ConnId(1),
        depth,
        label: label.to_owned(),
        node_ref: NodeRef::new(kind, vec![label.to_owned()]),
        relation_kind: None,
        state: NodeState::Collapsed,
    }
}

/// One connection, open, with three namespaces in its tree.
fn connected() -> Snapshot {
    Snapshot {
        profiles: vec![Profile { id: ProfileId("mock".to_owned()), name: "mock".to_owned() }],
        connections: vec![connection(ConnStatus::Ready)],
        explorer: vec![
            node(NodeKind::Root, "mock", 0),
            node(NodeKind::Namespace, "public", 1),
            node(NodeKind::Namespace, "audit", 1),
            node(NodeKind::Namespace, "sales", 1),
        ],
        ..Snapshot::empty()
    }
}

fn previewing(name: &str, rows: usize, columns: usize, exhausted: bool) -> Snapshot {
    let mut snap = connected();
    snap.previews.push(PreviewView {
        conn: ConnId(1),
        table: table(name),
        sort: None,
        loaded_rows: rows,
        exhausted,
        attempts: 0,
        data: LoadState::Ready(result(rows, columns)),
        last_error: None,
    });
    snap
}

fn drawn(snapshot: &Snapshot, ui: &mut UiState, w: u16, h: u16) -> Canvas {
    let mut canvas = Canvas::new();
    screen::draw(&mut canvas, ui, snapshot, Rect::new(0, 0, w, h));
    canvas
}

/// Everything a frame says, in the order it is said.
fn words(canvas: &Canvas) -> String {
    let mut out = String::new();
    for paint in &canvas.paints {
        if let Paint::Text { lines, .. } = paint {
            for line in lines {
                for span in &line.spans {
                    out.push_str(&span.text);
                }
                out.push('\n');
            }
        }
    }
    out
}

/// A relation open in a tab, with a frame drawn.
///
/// Drawn, because the grid's viewport comes from the frame: without one the
/// scroll clamp works with a page of zero and puts the offset past the last
/// row, a position no rendered grid ever reaches.
fn opened(snap: &Snapshot, name: &str) -> UiState {
    let mut ui = UiState::new();
    let _ = ui.apply(ViewCmd::OpenTab { conn: ConnId(1), table: table(name) }, snap);
    let _ = drawn(snap, &mut ui, 120, 40);
    ui
}

/// Feed one event the way the loop does, and report what it produced.
fn step(
    event: Event,
    hits: &HitMap,
    mouse: &mut MouseState,
    ui: &UiState,
    snapshot: &Snapshot,
) -> (Vec<Intent>, bool) {
    let mut intents = Vec::new();
    let ctx = context(ui, snapshot, ConnId(50), QueryId(51));
    let dirty = apply_event(event, hits, mouse, &ctx, true, 0, &mut intents);
    (intents, dirty)
}

fn press(code: KeyCode, modifiers: KeyModifiers) -> KeyEvent {
    KeyEvent { code, modifiers, kind: KeyEventKind::Press }
}

fn key(code: KeyCode) -> Event {
    Event::Key(press(code, NONE))
}

fn mouse_at(kind: MouseEventKind, x: u16, y: u16) -> Event {
    Event::Mouse(MouseEvent { kind, column: x, row: y })
}

// ── one frame ──────────────────────────────────────────────────────────────

#[test]
fn a_connected_screen_shows_the_tree() {
    let snap = connected();
    let mut ui = UiState::new();
    let canvas = drawn(&snap, &mut ui, 100, 30);
    assert!(words(&canvas).contains("public"), "{}", words(&canvas));
}

#[test]
fn the_explorer_viewport_leaves_out_the_search_box() {
    // The scroll clamp and the page size are measured from it, so a
    // viewport that counts the box's row leaves the last row of a filtered
    // tree impossible to scroll to.
    let snap = connected();
    let mut ui = UiState::new();
    let _ = drawn(&snap, &mut ui, 100, 30);
    let whole = ui.viewport(PaneId::Explorer).height;

    let _ = ui.apply(ViewCmd::SetFilter(Some(Filter::opening())), &snap);
    let _ = drawn(&snap, &mut ui, 100, 30);
    assert_eq!(ui.viewport(PaneId::Explorer).height, whole - 1);
}

#[test]
fn every_pane_is_reachable_with_the_mouse() {
    let snap = connected();
    let mut ui = UiState::new();
    let canvas = drawn(&snap, &mut ui, 100, 30);

    let mut seen = BTreeSet::new();
    for x in 0..100 {
        for y in 0..30 {
            if let Some(target) = canvas.hits.at(Position::new(x, y)) {
                let name = format!("{target:?}");
                seen.insert(name.split(['(', ' ']).next().unwrap().to_owned());
            }
        }
    }
    // A pane the mouse cannot land on is a pane the mouse cannot focus.
    assert!(seen.contains("Pane"), "{seen:?}");
    assert!(seen.contains("Splitter"), "{seen:?}");
    assert!(seen.contains("TreeRow"), "{seen:?}");
}

#[test]
fn the_grid_viewport_excludes_the_header_and_the_scrollbar() {
    let snap = connected();
    let mut ui = UiState::new();
    let _ = drawn(&snap, &mut ui, 100, 30);

    // Against the pane's *inside*. Comparing with the pane's outer rectangle
    // passes either way, because the border alone accounts for the difference —
    // the assertion has to be the exact rectangle, not "smaller than".
    let outer = layout(Rect::new(0, 0, 100, 30), &mut ui).grid;
    let inner = Rect::new(outer.x + 1, outer.y + 1, outer.width - 2, outer.height - 2);
    let viewport = ui.viewport(PaneId::Grid);
    assert_eq!(
        viewport,
        body_area(inner),
        "the header row and the scrollbar column are not the viewport's"
    );
    // And that is strictly less than the pane inside, or `ScrollToEnd`
    // stops a row short of the last row of the relation.
    assert!(viewport.height < inner.height, "{viewport:?} vs {inner:?}");
    assert!(viewport.width < inner.width, "{viewport:?} vs {inner:?}");
}

#[test]
fn a_dialog_covers_the_toasts_rather_than_the_other_way_round() {
    let snap = connected();
    let mut ui = UiState::new();
    ui.toasts.push(Toast {
        id: ToastId::new(1),
        text: "something happened".to_owned(),
        severity: Severity::Error,
        created_at: Moment { seconds: 0, nanos: 0 },
    });
    ui.modal = Some(Modal::error("Failed", "could not connect"));
    let canvas = drawn(&snap, &mut ui, 100, 30);

    // The dialog is what is waiting for an answer, so it is what has to be
    // on top.
    assert_eq!(canvas.hits.at(Position::new(1, 1)), Some(Target::Backdrop));
}

#[test]
fn a_terminal_below_the_minimum_says_so_and_draws_nothing_else() {
    let snap = connected();
    let mut ui = UiState::new();
    let canvas = drawn(&snap, &mut ui, 40, 10);
    assert!(words(&canvas).contains("sqlake needs"), "{}", words(&canvas));
    assert_eq!(canvas.hits.at(Position::new(20, 5)), None, "no half-drawn layout");
}

#[test]
fn the_focused_pane_is_the_one_marked() {
    let snap = connected();
    let mut ui = UiState::new();
    let explorer_focused = format!("{:?}", drawn(&snap, &mut ui, 100, 30).paints);
    ui.focus = PaneId::Grid;
    let grid_focused = format!("{:?}", drawn(&snap, &mut ui, 100, 30).paints);
    assert_ne!(
        explorer_focused, grid_focused,
        "focus that is recorded and not drawn is not focus"
    );
}

// ── one event ──────────────────────────────────────────────────────────────

#[test]
fn a_pointer_crossing_one_target_does_not_ask_for_a_frame() {
    let snap = connected();
    let mut ui = UiState::new();
    let hits = drawn(&snap, &mut ui, 100, 30).hits;
    let mut mouse = MouseState::new();

    // Settle on the explorer, then move within it. Mouse capture reports
    // every cell, and redrawing for each is a full relayout, a rebuilt hit
    // map and every visible cell reformatted.
    let _ = step(mouse_at(MouseEventKind::Moved, 10, 5), &hits, &mut mouse, &ui, &snap);
    let (intents, dirty) =
        step(mouse_at(MouseEventKind::Moved, 11, 5), &hits, &mut mouse, &ui, &snap);
    assert!(intents.is_empty());
    assert!(!dirty, "a move inside one target changed nothing to draw");
}

#[test]
fn crossing_into_another_target_does_ask_for_one() {
    let snap = connected();
    let mut ui = UiState::new();
    let hits = drawn(&snap, &mut ui, 100, 30).hits;
    let mut mouse = MouseState::new();

    let _ = step(mouse_at(MouseEventKind::Moved, 10, 5), &hits, &mut mouse, &ui, &snap);
    // Onto the splitter, which highlights while the pointer is on it.
    let splitter_x = layout(Rect::new(0, 0, 100, 30), &mut ui).splitter.x;
    let (_, dirty) =
        step(mouse_at(MouseEventKind::Moved, splitter_x, 5), &hits, &mut mouse, &ui, &snap);
    assert!(dirty, "hover is the one change that produces no intent");
    assert!(matches!(mouse.hovered(), Some(Target::Splitter(_))));
}

#[test]
fn a_press_held_across_a_resize_is_not_released_onto_a_new_layout() {
    let snap = connected();
    let mut ui = UiState::new();
    let hits = drawn(&snap, &mut ui, 100, 30).hits;
    let mut mouse = MouseState::new();

    let down = mouse_at(MouseEventKind::Down(MouseButton::Left), 5, 5);
    let up = mouse_at(MouseEventKind::Up(MouseButton::Left), 5, 5);

    // Without the resize, press and release is a click on a tree row.
    let mut fresh = MouseState::new();
    let _ = step(down, &hits, &mut fresh, &ui, &snap);
    let (clicked, _) = step(up, &hits, &mut fresh, &ui, &snap);
    assert!(!clicked.is_empty(), "the control case is not a click");

    // With one in between, the release lands on nothing. `Target::TreeRow`
    // is an index into a layout that no longer exists, so keeping the press
    // would click whatever that row has become.
    let _ = step(down, &hits, &mut mouse, &ui, &snap);
    let (_, dirty) = step(Event::Resize, &hits, &mut mouse, &ui, &snap);
    assert!(dirty, "a resize redraws");
    let (after, _) = step(up, &hits, &mut mouse, &ui, &snap);
    assert!(after.is_empty(), "{after:?}");
}

#[test]
fn a_view_intent_never_reaches_the_store() {
    let snap = connected();
    let mut ui = UiState::new();
    let hits = drawn(&snap, &mut ui, 100, 30).hits;
    let mut mouse = MouseState::new();

    // `j` scrolls, and scrolling stays out of the store: a wheel notch
    // through an async task arrives a round trip after the hand that
    // turned it.
    let (intents, dirty) = step(key(KeyCode::Char('j')), &hits, &mut mouse, &ui, &snap);
    assert!(dirty);
    assert!(intents.iter().all(|i| matches!(i, Intent::View(_))), "{intents:?}");
    for intent in intents {
        let reply = answer(&mut ui, intent, &snap);
        assert!(reply.dispatch.is_empty(), "{:?}", reply.dispatch);
        assert!(reply.dirty);
    }
}

#[test]
fn an_app_intent_is_the_only_kind_that_leaves() {
    let snap = connected();
    let mut ui = UiState::new();
    let hits = drawn(&snap, &mut ui, 100, 30).hits;
    let mut mouse = MouseState::new();

    let (intents, _) = step(key(KeyCode::Char('q')), &hits, &mut mouse, &ui, &snap);
    assert!(intents.iter().any(|i| matches!(i, Intent::App(_))), "{intents:?}");
    let reply = answer(&mut ui, Intent::App(Action::Quit), &snap);
    assert_eq!(reply.dispatch, [Action::Quit]);
    assert!(!reply.dirty);
}

#[test]
fn an_unbound_key_asks_for_nothing() {
    let snap = connected();
    let mut ui = UiState::new();
    let hits = drawn(&snap, &mut ui, 100, 30).hits;
    let mut mouse = MouseState::new();

    let (intents, dirty) = step(key(KeyCode::Char('%')), &hits, &mut mouse, &ui, &snap);
    assert!(intents.is_empty());
    assert!(!dirty, "an unbound key must not cost a frame");
}

#[test]
fn a_mouse_that_is_off_is_not_heard() {
    let snap = connected();
    let mut ui = UiState::new();
    let hits = drawn(&snap, &mut ui, 100, 30).hits;
    let mut mouse = MouseState::new();
    let ctx = context(&ui, &snap, ConnId(50), QueryId(51));
    let intents = from_event(
        mouse_at(MouseEventKind::ScrollDown, 5, 5),
        &hits,
        &mut mouse,
        &ctx,
        false,
        0,
    );
    assert!(intents.is_empty(), "{intents:?}");
    assert_eq!(mouse.hovered(), None);
}

#[test]
fn a_right_click_opens_the_menu_where_it_landed() {
    // Where the pointer is is read after the event: a right-click is how the
    // pointer arrives at a cell on a terminal that reports no motion.
    let snap = previewing("users", 50, 8, true);
    let mut ui = opened(&snap, "users");
    let hits = drawn(&snap, &mut ui, 120, 40).hits;
    let mut mouse = MouseState::new();
    let body = ui.viewport(PaneId::Grid);
    let at = (body.x + 1, body.y + 1);
    let mut said = Vec::new();
    for kind in [MouseEventKind::Down(MouseButton::Right), MouseEventKind::Up(MouseButton::Right)] {
        let (intents, _) = step(mouse_at(kind, at.0, at.1), &hits, &mut mouse, &ui, &snap);
        said.extend(intents);
    }
    assert!(
        said.contains(&Intent::View(ViewCmd::OpenMenu { at: Some(at), ranged: false })),
        "{said:?}"
    );
}

#[test]
fn the_input_context_follows_the_selected_cell() {
    let snap = previewing("users", 50, 8, true);
    let mut ui = opened(&snap, "users");
    let _ = ui.apply(ViewCmd::SelectCell { row: 2, col: 3 }, &snap);
    // Sorting and resizing act on the selected column, so the context has
    // to carry it or every key press means column zero.
    let ctx = context(&ui, &snap, ConnId(50), QueryId(51));
    assert_eq!(ctx.grid_column, Some(3));
    assert_eq!(ctx.selection, Some((2, 3, 2, 3)));
    assert_eq!(ctx.connection, Some(ConnId(1)));
    assert_eq!((ctx.new_conn, ctx.new_query), (ConnId(50), QueryId(51)));
}

#[test]
fn the_connection_meant_is_the_selected_rows() {
    let mut snap = connected();
    snap.connections.push(ConnectionView { id: ConnId(2), ..connection(ConnStatus::Ready) });
    snap.explorer.push(VisibleNode { conn: ConnId(2), ..node(NodeKind::Root, "other", 0) });
    let mut ui = UiState::new();
    assert_eq!(context(&ui, &snap, ConnId(9), QueryId(9)).connection, Some(ConnId(1)));
    let _ = ui.apply(ViewCmd::SelectTreeRow(4), &snap);
    assert_eq!(context(&ui, &snap, ConnId(9), QueryId(9)).connection, Some(ConnId(2)));
}

// ── one snapshot ───────────────────────────────────────────────────────────

#[test]
fn disconnecting_closes_the_tabs_it_had_open() {
    // The store drops the connection's previews on `Disconnect`, but
    // nothing tells this crate to let go of the tabs pointing at them —
    // left alone, a tab survives its own connection with no preview left
    // to show and no session left to fetch one with.
    let mut snap = previewing("users", 50, 8, true);
    let mut ui = UiState::new();
    let _ = ui.apply(ViewCmd::OpenTab { conn: ConnId(1), table: table("users") }, &snap);
    assert_eq!(ui.tabs.len(), 1);

    snap.connections[0].status = ConnStatus::Closed;
    snap.previews.clear();
    refresh(&mut ui, &snap);
    assert!(ui.tabs.is_empty(), "a tab outlived its own connection");
}

#[test]
fn a_failed_connection_shows_on_its_row_and_says_why_in_a_dialog() {
    // The row is the state and stays; the dialog is the reason, which does
    // not fit in a pane twenty-six columns wide.
    let why = "could not connect: refused by the configured behaviour";
    let mut snap = connected();
    snap.connections[0].status = ConnStatus::Failed(why.to_owned());
    snap.explorer = vec![VisibleNode {
        state: NodeState::Failed(why.to_owned()),
        ..node(NodeKind::Root, "mock", 0)
    }];

    // Through `initial_ui`, which is the path the first frame takes: a
    // connect dispatched before the terminal was taken over can already
    // have failed, and a failed connect publishes nothing afterwards.
    let mut ui = initial_ui(&snap);
    let modal = ui.modal.as_ref().expect("the reason has nowhere else to fit");
    assert_eq!(modal.title, "mock could not be opened");
    assert_eq!(modal.body, why);

    let canvas = drawn(&snap, &mut ui, 100, 30);
    let screen = words(&canvas);
    assert!(screen.contains("! mock"), "{screen}");
    assert!(
        screen.contains("refused"),
        "the dialog is where the reason fits: {screen}"
    );

    // Dismissed once, not raised again by the next unrelated snapshot.
    ui.modal = None;
    raise_connection_failure(&snap, &mut ui);
    assert!(ui.modal.is_none(), "the dialog came back on its own");
}

#[test]
fn a_second_failed_connection_is_not_hidden_by_the_first() {
    let mut snap = connected();
    snap.connections = vec![
        connection(ConnStatus::Failed("first".to_owned())),
        ConnectionView { id: ConnId(2), ..connection(ConnStatus::Failed("second".to_owned())) },
    ];
    let mut ui = initial_ui(&snap);
    assert_eq!(ui.modal.as_ref().map(|m| m.body.clone()), Some("first".to_owned()));
    ui.modal = None;
    refresh(&mut ui, &snap);
    assert_eq!(ui.modal.as_ref().map(|m| m.body.clone()), Some("second".to_owned()));
}

// ── paging ─────────────────────────────────────────────────────────────────

fn to_the_end(ui: &mut UiState, snap: &Snapshot) -> Option<Action> {
    ui.apply(ViewCmd::ScrollToEnd(PaneId::Grid), snap)
}

fn paging() -> (Snapshot, UiState) {
    let snap = previewing("big", 200, 3, false);
    let ui = opened(&snap, "big");
    (snap, ui)
}

#[test]
fn scrolling_to_the_end_asks_for_another_page() {
    let (snap, mut ui) = paging();
    assert_eq!(
        to_the_end(&mut ui, &snap),
        Some(Action::LoadMore { conn: ConnId(1), table: table("big") }),
        "reaching the end of a paged relation did not fetch"
    );
}

#[test]
fn a_page_in_flight_is_not_asked_for_twice() {
    // The store drops a second `LoadMore` for the same preview, but leaning
    // on that would make this crate's correctness a fact about the store's
    // deduplication.
    let (snap, mut ui) = paging();
    assert!(to_the_end(&mut ui, &snap).is_some());
    assert_eq!(to_the_end(&mut ui, &snap), None, "the same page was asked for twice");
}

#[test]
fn a_page_that_landed_leaves_the_view_able_to_ask_again() {
    let (mut snap, mut ui) = paging();
    assert!(to_the_end(&mut ui, &snap).is_some());
    snap.previews[0].loaded_rows = 400;
    snap.previews[0].attempts = 1;
    snap.previews[0].data = LoadState::Ready(result(400, 3));
    assert!(
        to_the_end(&mut ui, &snap).is_some(),
        "a page landed and the view still would not ask for the next"
    );
}

#[test]
fn a_relation_that_arrived_whole_is_never_asked_for_more() {
    // Fifty rows and a page size of two hundred, so the first page is the
    // relation: the store saw a short page and said so, and no amount of
    // scrolling to the bottom is a reason to go back to the driver.
    let snap = previewing("users", 50, 8, true);
    let mut ui = opened(&snap, "users");
    assert_eq!(
        to_the_end(&mut ui, &snap),
        None,
        "a relation already read whole was asked for another page"
    );
}

#[test]
fn cancelling_a_page_does_not_end_paging_for_the_tab() {
    // A cancellation leaves `loaded_rows`, `last_error` and the ordering
    // exactly as they were — the same state the end of a relation leaves —
    // so a view reading that state could not tell them apart, and the tab
    // never paged again.
    let (mut snap, mut ui) = paging();
    assert!(to_the_end(&mut ui, &snap).is_some());
    snap.previews[0].attempts = 1;
    assert!(
        to_the_end(&mut ui, &snap).is_some(),
        "cancelling one page stopped the tab paging for good"
    );
}

#[test]
fn a_second_identical_failure_can_still_be_retried() {
    // The retry leaves the same message behind, so a view keyed on what a
    // request left could not see that anything had happened — and a
    // database that blipped twice ended paging for the life of the tab,
    // even after it recovered.
    let (mut snap, mut ui) = paging();
    for attempt in 1..=2 {
        assert!(to_the_end(&mut ui, &snap).is_some(), "attempt {attempt} would not ask");
        snap.previews[0].attempts = attempt;
        snap.previews[0].last_error = Some("timed out".to_owned());
    }
    assert!(
        to_the_end(&mut ui, &snap).is_some(),
        "two failures with the same message ended paging for good"
    );
}

#[test]
fn the_cell_cursor_pages_the_way_scrolling_does() {
    // `J` pulls the viewport along to the last loaded row without ever
    // producing a scroll command. Fetching only on the scroll arms leaves
    // the whole feature out of reach of the keyboard: the cursor stops at
    // the end of page one and nothing asks for page two.
    let (snap, mut ui) = paging();
    assert_eq!(
        ui.apply(ViewCmd::MoveCellSelection { drow: 1000, dcol: 0 }, &snap),
        Some(Action::LoadMore { conn: ConnId(1), table: table("big") }),
        "the cursor reached the last loaded row and asked for nothing"
    );
}

#[test]
fn sorting_starts_the_asking_over() {
    // `SortPreview` restarts the relation at page one, so whatever the tab
    // remembers about having already asked describes a preview that no
    // longer exists — and paging stops for as long as the tab lives.
    let (mut snap, mut ui) = paging();
    assert!(to_the_end(&mut ui, &snap).is_some());
    snap.previews[0].sort = Some(Sort { column: 0, dir: SortDir::Asc });
    snap.previews[0].attempts = 1;
    snap.previews[0].data = LoadState::Ready(result(200, 3));
    assert!(
        to_the_end(&mut ui, &snap).is_some(),
        "paging stopped for the life of the tab because it had been sorted"
    );
}

#[test]
fn only_the_grid_pages() {
    let (snap, mut ui) = paging();
    assert_eq!(
        ui.apply(ViewCmd::ScrollToEnd(PaneId::Explorer), &snap),
        None,
        "scrolling the tree fetched a page"
    );
}

// ── selecting and copying ──────────────────────────────────────────────────

#[test]
fn shift_and_an_arrow_extend_the_selection() {
    let snap = previewing("users", 50, 8, true);
    let mut ui = opened(&snap, "users");
    let id = ui.active_tab.expect("a tab");

    // The binding is `Context::Grid`, which is where focus has to be for a
    // key pressed over the grid to mean anything.
    let _ = ui.apply(ViewCmd::FocusPane(PaneId::Grid), &snap);
    let _ = ui.apply(ViewCmd::SelectCell { row: 2, col: 1 }, &snap);
    for _ in 0..2 {
        let intents = on_key(
            press(KeyCode::Down, SHIFT),
            &context(&ui, &snap, ConnId(50), QueryId(51)),
        );
        for intent in intents {
            let _ = answer(&mut ui, intent, &snap);
        }
    }

    let grid = ui.grid(id).expect("a grid");
    assert_eq!(grid.selection(None), (2, 1, 4, 1));
}

#[test]
fn an_arrow_without_shift_ends_the_selection() {
    let snap = previewing("users", 50, 8, true);
    let mut ui = opened(&snap, "users");
    let id = ui.active_tab.expect("a tab");

    let _ = ui.apply(ViewCmd::SelectCell { row: 2, col: 1 }, &snap);
    let _ = ui.apply(ViewCmd::ExtendCellSelection { drow: 2, dcol: 0 }, &snap);
    assert!(ui.grid(id).expect("a grid").selected_cells(None).is_some());

    let _ = ui.apply(ViewCmd::MoveCellSelection { drow: 1, dcol: 0 }, &snap);
    assert_eq!(
        ui.grid(id).expect("a grid").selected_cells(None),
        None,
        "moving the cursor left the old anchor behind"
    );
}

fn copyable() -> (Snapshot, UiState) {
    let snap = previewing("users", 50, 8, true);
    let mut ui = opened(&snap, "users");
    let _ = ui.apply(ViewCmd::FocusPane(PaneId::Grid), &snap);
    (snap, ui)
}

#[test]
fn copying_the_selection_sends_a_sequence_and_says_what_it_sent() {
    let (snap, mut ui) = copyable();
    let _ = ui.apply(ViewCmd::SelectCell { row: 0, col: 0 }, &snap);
    let _ = ui.apply(ViewCmd::ExtendCellSelection { drow: 2, dcol: 1 }, &snap);
    let _ = ui.apply(ViewCmd::Copy { format: Format::Csv, all: false }, &snap);

    let sequence = ui.take_copy().expect("a sequence to write");
    assert!(sequence.starts_with("\u{1b}]52;c;"), "{sequence:?}");
    assert!(
        ui.toasts.iter().any(|t| t.text.contains("6 cells")),
        "{:?}",
        ui.toasts
    );
    assert!(
        ui.take_copy().is_none(),
        "the same sequence would be written on the next frame too"
    );
}

#[test]
fn what_is_reported_is_what_was_sent_and_not_that_it_arrived() {
    // OSC 52 has no reply, and a terminal with clipboard writes off
    // swallows it. "Copied" would be a claim nothing here can check.
    let (snap, mut ui) = copyable();
    let _ = ui.apply(ViewCmd::Copy { format: Format::Csv, all: false }, &snap);
    let said = ui.toasts.last().expect("a toast").text.clone();
    assert!(said.contains("sent"), "{said}");
    assert!(!said.contains("copied"), "{said}");
}

#[test]
fn copying_everything_takes_the_whole_result_rather_than_the_selection() {
    let (snap, mut ui) = copyable();
    let _ = ui.apply(ViewCmd::SelectCell { row: 0, col: 0 }, &snap);
    let _ = ui.apply(ViewCmd::Copy { format: Format::Json, all: true }, &snap);
    assert!(ui.take_copy().is_some());
    // Fifty rows of eight columns.
    assert!(
        ui.toasts.iter().any(|t| t.text.contains("400 cells")),
        "{:?}",
        ui.toasts
    );
}

#[test]
fn a_table_with_no_rows_copies_nothing_and_says_so() {
    // "Everything" of an empty result is row zero of no rows: the sequence
    // sent was one row of empty fields, under a message saying two cells
    // had gone to the clipboard.
    let snap = previewing("empty", 0, 2, true);
    let mut ui = opened(&snap, "empty");
    let _ = ui.apply(ViewCmd::FocusPane(PaneId::Grid), &snap);
    let _ = ui.apply(ViewCmd::Copy { format: Format::Csv, all: true }, &snap);

    assert!(ui.take_copy().is_none());
    assert_eq!(ui.toasts.last().expect("a toast").text, "nothing to copy");
}

// ── runs ───────────────────────────────────────────────────────────────────

fn run(query: QueryId) -> Action {
    Action::RunQuery {
        conn: ConnId(1),
        query,
        sql: "select 1".to_owned(),
        max_rows: None,
        max_bytes: None,
    }
}

#[test]
fn a_run_is_remembered_by_the_tab_that_started_it() {
    let snap = connected();
    let mut ui = UiState::new();
    let _ = ui.apply(ViewCmd::OpenSqlTab { conn: ConnId(1) }, &snap);
    let tab = ui.active_tab.expect("a tab");

    let first = answer(&mut ui, Intent::App(run(QueryId(1))), &snap);
    assert_eq!(first.dispatch, [run(QueryId(1))]);
    assert_eq!(ui.query_of(tab), Some(QueryId(1)));

    // Running again forgets what the tab is about to stop showing, first.
    let second = answer(&mut ui, Intent::App(run(QueryId(2))), &snap);
    assert_eq!(
        second.dispatch,
        [Action::ForgetQuery(QueryId(1)), run(QueryId(2))]
    );
    assert_eq!(ui.query_of(tab), Some(QueryId(2)));
}

#[test]
fn a_handover_gives_the_terminal_away_and_changes_nothing() {
    let snap = connected();
    let mut ui = UiState::new();
    let _ = ui.apply(ViewCmd::OpenSqlTab { conn: ConnId(1) }, &snap);
    let tab = ui.active_tab.expect("a tab");
    let reply = answer(&mut ui, Intent::Handover(Handover::Edit(tab)), &snap);
    assert_eq!(reply.edit, Some(tab));
    assert!(reply.dispatch.is_empty() && !reply.dirty);
    assert_eq!(ui.buffer_of(tab), Some(""));
}

#[test]
fn a_statement_the_server_refused_is_marked_where_it_objected() {
    let mut snap = connected();
    let mut ui = UiState::new();
    let _ = ui.apply(ViewCmd::OpenSqlTab { conn: ConnId(1) }, &snap);
    let tab = ui.active_tab.expect("a tab");
    ui.set_buffer(tab, "select\n  sql_that_is_wrong\nfrom public.users".to_owned());
    ui.set_query(tab, QueryId(3));
    snap.queries.push(QueryView {
        id: QueryId(3),
        conn: ConnId(1),
        needs_approval: None,
        data: LoadState::Failed("no such column".to_owned()),
        failed_at: Some(2),
    });
    refresh(&mut ui, &snap);
    assert_eq!(ui.toasts.len(), 1);
    let canvas = drawn(&snap, &mut ui, 100, 20);
    let screen = words(&canvas);
    assert!(screen.contains("sql_that_is_wrong"), "{screen}");
}

// ── definitions ────────────────────────────────────────────────────────────

fn described() -> Arc<TableDetail> {
    Arc::new(TableDetail {
        edition: edition(),
        kind: "table".to_owned(),
        comment: None,
        columns: vec![ColumnDetail {
            name: "id".to_owned(),
            type_label: "integer".to_owned(),
            nullable: false,
            default: None,
            comment: None,
        }],
        sections: vec![Section { title: "Indexes".to_owned(), table: result(4, 2) }],
        ddl: None,
        stats: Vec::new(),
    })
}

#[test]
fn a_definition_shows_the_section_that_was_picked() {
    let mut snap = connected();
    snap.definitions.push(DefinitionView {
        conn: ConnId(1),
        table: table("users"),
        data: LoadState::Ready(described()),
    });
    let mut ui = UiState::new();
    let _ = ui.apply(ViewCmd::OpenDefinition { conn: ConnId(1), table: table("users") }, &snap);
    let tab = ui.active_tab.expect("a tab");

    // Columns lead, because that is what somebody opened the pane for.
    assert_eq!(ui.section_of(tab), Some(0));
    let columns = ui.rows_of(&snap).map(|r| r.row_count());
    assert_eq!(columns, Some(1));

    let _ = ui.apply(ViewCmd::SelectSection(SectionPick::By(1)), &snap);
    assert_eq!(ui.section_of(tab), Some(1));
    assert_eq!(
        ui.rows_of(&snap).map(|r| r.row_count()),
        Some(4),
        "a different section, a different grid"
    );

    // Clamped rather than wrapped: a list you can see all of does not jump
    // back to the top when you step off the end.
    for _ in 0..10 {
        let _ = ui.apply(ViewCmd::SelectSection(SectionPick::By(1)), &snap);
    }
    assert_eq!(ui.section_of(tab), Some(1));
}

#[test]
fn a_definition_whose_connection_closed_stops_saying_it_is_loading() {
    // Disconnecting drops the store's definitions, so the tab is left
    // holding nothing — which is not the same as waiting for something.
    let mut snap = connected();
    let mut ui = UiState::new();
    let _ = ui.apply(ViewCmd::OpenDefinition { conn: ConnId(1), table: table("users") }, &snap);
    snap.connections[0].status = ConnStatus::Closed;
    let canvas = drawn(&snap, &mut ui, 100, 20);
    let screen = words(&canvas);
    assert!(!screen.contains("describing"), "{screen}");
    assert!(screen.contains("the connection is closed"), "{screen}");
}

// ── editing ────────────────────────────────────────────────────────────────

fn editing() -> (UiState, TabId) {
    let snap = connected();
    let mut ui = UiState::new();
    let _ = ui.apply(ViewCmd::OpenSqlTab { conn: ConnId(1) }, &snap);
    let tab = ui.active_tab.expect("a tab");
    (ui, tab)
}

#[test]
fn a_saved_buffer_reaches_the_tab_it_was_edited_for() {
    let (mut ui, tab) = editing();
    apply_edit(&mut ui, tab, Edited::Changed("select 1".to_owned()), hurried("`vi`"));
    assert_eq!(ui.buffer_of(tab), Some("select 1"));
    assert!(ui.toasts.is_empty() && ui.modal.is_none());
}

#[test]
fn closing_the_editor_without_saving_says_nothing() {
    // It is how somebody says no, and a message about it is a message
    // about a decision already made.
    let (mut ui, tab) = editing();
    apply_edit(&mut ui, tab, Edited::Unchanged, hurried("`vi`"));
    assert_eq!(ui.buffer_of(tab), Some(""));
    assert!(ui.toasts.is_empty() && ui.modal.is_none());
}

#[test]
fn an_editor_that_forked_is_a_notice_and_a_broken_one_is_a_dialog() {
    // The first left the buffer as it was and only wants a setting
    // changed; the second did nothing at all, and `e` appearing to do
    // nothing is what the dialog is for.
    let (mut ui, tab) = editing();
    apply_edit(&mut ui, tab, Edited::Returned, hurried("`vi`"));
    assert_eq!(ui.toasts.len(), 1);
    assert!(ui.toasts[0].text.contains("editor_args"), "{:?}", ui.toasts);
    assert!(ui.modal.is_none());

    apply_edit(&mut ui, tab, Edited::Failed("no such file".to_owned()), hurried("`vi`"));
    assert!(
        ui.modal.as_ref().map_or(false, |m| m.body.contains("no such file")),
        "{:?}",
        ui.modal
    );
}

#[test]
fn what_the_editor_saved_comes_back() {
    // However quickly: a text that changed was typed by somebody.
    for elapsed in [0, TOO_QUICK - 1, TOO_QUICK, 60_000] {
        assert_eq!(
            outcome("select 1", "select 2".to_owned(), elapsed),
            Edited::Changed("select 2".to_owned())
        );
    }
}

#[test]
fn an_editor_that_saves_nothing_is_not_a_failure() {
    // Closing without saving is how somebody says no, and treating it as
    // an error would put a dialog in front of a decision already made.
    assert_eq!(outcome("select 1", "select 1".to_owned(), 300), Edited::Unchanged);
    assert_eq!(outcome("select 1", "select 1".to_owned(), TOO_QUICK), Edited::Unchanged);
}

#[test]
fn an_editor_that_returns_at_once_is_reported() {
    assert_eq!(outcome("select 1", "select 1".to_owned(), TOO_QUICK - 1), Edited::Returned);
    assert!(hurried("`sh`").contains("editor_args"));
}

#[test]
fn an_edit_that_could_not_be_made_says_what_and_why() {
    assert_eq!(
        failed("run", "`vi`", "no such file"),
        Edited::Failed("could not run `vi`: no such file".to_owned())
    );
}

#[test]
fn a_tab_has_a_sql_file_of_its_own() {
    // The extension is what makes the editor's filetype detection do the
    // rest, and the id is what keeps two tabs from sharing a buffer.
    assert_eq!(file_name(TabId::new(7)), "7.sql");
    assert_ne!(file_name(TabId::new(7)), file_name(TabId::new(8)));
}

#[test]
fn the_loop_ends_for_three_reasons_and_fails_for_one() {
    for heard in [
        Heard::Nothing,
        Heard::Event,
        Heard::Snapshot,
        Heard::TerminalGone,
        Heard::StoreGone,
    ] {
        assert_eq!(go_on(true, heard), Onward::Stop, "a quit that was asked for");
    }
    assert_eq!(go_on(false, Heard::Nothing), Onward::GoOn);
    assert_eq!(go_on(false, Heard::Event), Onward::GoOn);
    assert_eq!(go_on(false, Heard::Snapshot), Onward::GoOn);
    assert_eq!(go_on(false, Heard::TerminalGone), Onward::Stop);
    assert_eq!(go_on(false, Heard::StoreGone), Onward::Fail);
    assert_eq!(store_failure(), "the store stopped unexpectedly");
}
