//! What a key and a gesture mean, and that neither can do what the other cannot.

use std::collections::BTreeSet;

use sqlake_tui::clock::Moment;
use sqlake_tui::copy::Format;
use sqlake_tui::events::{KeyCode, KeyEvent, KeyEventKind, KeyModifiers};
use sqlake_tui::hit::{ButtonId, PaneId, ScrollPart, SplitId, Target, ToastId};
use sqlake_tui::ids::{BusyId, ConnId, Edition, QueryId, RunId, TabId, TemplateId};
use sqlake_tui::input::{
    next_filter, on_key, on_mouse, InputContext, PAGE_LINES, WHEEL_LINES,
};
use sqlake_tui::intent::{
    Action, Context, Handover, Intent, IntentKind, SectionPick, ViewCmd,
};
use sqlake_tui::keymap::{bound, keymap, KeyCombo};
use sqlake_tui::menu::Menu;
use sqlake_tui::model::{
    BusyItem, Capabilities, ConnStatus, ConnectionView, HistoryEntry, HistoryView, LoadState,
    NodeKind, NodeRef, NodeState, PreviewView, Profile, ProfileId, RelationKind, Snapshot,
    TableRef, Template, TemplatesView, VisibleNode,
};
use sqlake_tui::mouse::Gesture;
use sqlake_tui::overlay::{Choice, Modal};
use sqlake_tui::palette::{Form, Kind, Palette, Placeholder};
use sqlake_tui::ui::{Filter, OpenTab, Severity, TabContent, Toast};

// ── fixtures ───────────────────────────────────────────────────────────────

const NONE: KeyModifiers = KeyModifiers { shift: false, control: false, alt: false };
const CONTROL: KeyModifiers = KeyModifiers { shift: false, control: true, alt: false };
const SHIFT: KeyModifiers = KeyModifiers { shift: true, control: false, alt: false };

/// The ids a context has in hand for whatever the gesture opens.
const NEW_CONN: ConnId = ConnId(900);
const NEW_QUERY: QueryId = QueryId(901);

const SORTS: Capabilities = Capabilities { sort_preview: true };
const NO_SORT: Capabilities = Capabilities { sort_preview: false };

fn key_event(code: KeyCode, modifiers: KeyModifiers) -> KeyEvent {
    KeyEvent { code, modifiers, kind: KeyEventKind::Press }
}

fn press(code: KeyCode) -> KeyEvent {
    key_event(code, NONE)
}

fn press_ctrl(code: KeyCode) -> KeyEvent {
    key_event(code, CONTROL)
}

fn path(parts: &[&str]) -> Vec<String> {
    parts.iter().map(|p| (*p).to_owned()).collect()
}

fn table(name: &str) -> TableRef {
    TableRef::new(path(&["public", name]))
}

fn summary(name: &str) -> Profile {
    Profile { id: ProfileId(name.to_owned()), name: name.to_owned() }
}

fn connection(id: ConnId) -> ConnectionView {
    ConnectionView {
        id,
        profile: summary("mock").id,
        name: "mock".to_owned(),
        color: None,
        status: ConnStatus::Ready,
        capabilities: Some(SORTS),
    }
}

/// A snapshot, and the tabs and toasts a screen showing it might have.
struct Fixture {
    /// A dialog with an answer on it, for the sweep.
    asking: Modal,
    snapshot: Snapshot,
    conn: ConnId,
    tabs: Vec<OpenTab>,
    toasts: Vec<Toast>,
    /// The two states a search can be in, held here so that a context
    /// borrowing one lives as long as the fixture does.
    searches: [Filter; 2],
    /// And the two the palette can be in — a list, and a form over it.
    palettes: [Palette; 2],
}

impl Fixture {
    /// What every connection in the fixture claims it can do.
    fn advertising(mut self, capabilities: Capabilities) -> Self {
        for conn in &mut self.snapshot.connections {
            conn.capabilities = Some(capabilities);
        }
        self
    }

    fn ctx(&self, focus: PaneId) -> InputContext<'_> {
        InputContext {
            active_tab: Some(self.tabs[0].id),
            ..self.ctx_no_active_tab(focus)
        }
    }

    /// The active tab just closed, so nothing is active — the state
    /// `switching_tabs_with_nothing_active_lands_on_the_first_one` exists
    /// to cover.
    fn ctx_no_active_tab(&self, focus: PaneId) -> InputContext<'_> {
        InputContext {
            palette: None,
            snapshot: &self.snapshot,
            focus,
            modal_open: false,
            modal: None,
            connection: self.snapshot.connections.first().map(|c| c.id),
            tree_selection: Some(0),
            grid_column: Some(2),
            pointer: (0, 0),
            selection: None,
            menu: None,
            tabs: &self.tabs,
            active_tab: None,
            toasts: &self.toasts,
            filter: None,
            new_conn: NEW_CONN,
            new_query: NEW_QUERY,
        }
    }
}

/// A search that is being typed.
fn editing(text: &str) -> Filter {
    Filter { text: text.to_owned(), editing: true }
}

/// A search that has been made, with the keyboard back on the tree.
fn made(text: &str) -> Filter {
    Filter { text: text.to_owned(), editing: false }
}

fn fixture() -> Fixture {
    let conn = ConnId(1);
    let explorer = vec![
        VisibleNode {
            conn,
            depth: 0,
            label: "public".into(),
            node_ref: NodeRef::new(NodeKind::Namespace, path(&["public"])),
            relation_kind: None,
            // Expanded, because the row below it is its child. A
            // collapsed node listing a child is a state the store
            // cannot produce.
            state: NodeState::Expanded,
        },
        VisibleNode {
            conn,
            depth: 1,
            label: "users".into(),
            node_ref: NodeRef::new(NodeKind::Relation, path(&["public", "users"])),
            relation_kind: Some(RelationKind::Table),
            state: NodeState::Leaf,
        },
    ];

    let tabs = vec![
        OpenTab {
            id: TabId::new(1),
            conn,
            content: TabContent::Preview(table("users")),
        },
        OpenTab {
            id: TabId::new(2),
            conn,
            content: TabContent::Preview(table("empty")),
        },
        // The history, so the sweep reaches the bindings that only fire
        // there — and, just as much, so it sees the ones that must not.
        OpenTab {
            id: TabId::new(4),
            conn,
            // Not editing: while it is, every letter is the box's
            // and none of the grid's bindings can be reached.
            content: TabContent::History { filter: made("") },
        },
        // A SQL tab, so the sweep reaches the bindings that only fire on
        // one — and, just as much, so it sees the ones that must *not*
        // fire on one.
        OpenTab {
            id: TabId::new(3),
            conn,
            content: TabContent::Sql {
                number: 1,
                text: "select 1".to_owned(),
                query: None,
            },
        },
    ];

    let snapshot = Snapshot {
        profiles: vec![summary("mock")],
        connections: vec![connection(conn)],
        explorer,
        definitions: Vec::new(),
        previews: tabs
            .iter()
            // A SQL tab has no relation, so the store holds nothing for
            // it — which is the shape being pinned down here.
            .filter_map(|t| Some((t.conn, t.table()?.clone())))
            .map(|(conn, table)| PreviewView {
                exhausted: false,
                attempts: 0,
                conn,
                table,
                sort: None,
                loaded_rows: 0,
                data: LoadState::Idle,
                last_error: None,
            })
            .collect(),
        queries: Vec::new(),
        busy: vec![BusyItem { id: BusyId(1), label: "loading".into() }],
        // A run, so a binding that acts on the selected one reaches
        // something.
        history: HistoryView {
            edition: Edition(1),
            data: LoadState::Ready(vec![HistoryEntry {
                id: RunId(1),
                issuer: None,
                sql: "select * from public.users".to_owned(),
                started_at: Moment { seconds: 0, nanos: 0 },
                status: Some("ok".to_owned()),
                duration_ms: Some(12),
                row_count: Some(3),
                error: None,
            }]),
        },
        // Something saved, so the palette's own bindings reach a
        // template rather than an empty list — a sweep over an empty
        // palette would report `Enter` dead.
        templates: TemplatesView {
            data: LoadState::Ready(vec![Template {
                id: TemplateId(1),
                name: "daily".to_owned(),
                body: "select * from {{ident:table}}".to_owned(),
                driver: None,
            }]),
            failed: None,
        },
        should_quit: false,
    };

    let toasts = vec![Toast {
        id: ToastId::new(1),
        text: "oops".into(),
        severity: Severity::Error,
        created_at: Moment { seconds: 0, nanos: 0 },
    }];

    Fixture {
        asking: Modal::asking(
            "This query costs more than the limit",
            "It would read a lot.",
            vec![Choice {
                label: "Run it anyway".to_owned(),
                intent: Intent::App(Action::ApproveQuery(QueryId(7))),
            }],
        ),
        snapshot,
        conn,
        tabs,
        toasts,
        searches: [editing(""), made("public")],
        palettes: [
            Palette::opening(),
            Palette {
                asking: Some(Form::new(
                    TemplateId(1),
                    "daily".to_owned(),
                    &vec![Placeholder { name: "table".to_owned(), kind: Kind::Ident }],
                    |_: &Placeholder| None,
                )),
                ..Palette::opening()
            },
        ],
    }
}

#[test]
fn a_row_acts_on_its_own_connection() {
    // With two connections in the explorer, the row under the cursor is
    // the only thing that says which database is meant — and both have a
    // `public.users`, so picking the first connection instead would open
    // the wrong table and look right doing it.
    let second = ConnId(2);
    let mut f = fixture();
    f.snapshot.explorer.push(VisibleNode {
        conn: second,
        depth: 1,
        label: "users".into(),
        node_ref: NodeRef::new(NodeKind::Relation, path(&["public", "users"])),
        relation_kind: Some(RelationKind::Table),
        state: NodeState::Leaf,
    });
    let last = f.snapshot.explorer.len() - 1;

    let mut context = f.ctx(PaneId::Explorer);
    // The first connection stays selected in the context, which is what
    // taking the first of them would act on.
    context.tree_selection = Some(last);

    let out = on_key(press(KeyCode::Enter), &context);
    assert_eq!(
        out,
        [
            Intent::View(ViewCmd::OpenTab {
                conn: second,
                table: table("users"),
            }),
            Intent::App(Action::PreviewTable {
                conn: second,
                table: table("users"),
            }),
        ]
    );
}

// ── mouse ──────────────────────────────────────────────────────────────

#[test]
fn clicking_a_tree_row_focuses_the_explorer_and_selects_it() {
    let f = fixture();
    let out = on_mouse(
        Target::TreeRow { index: 1 },
        Gesture::Click,
        &f.ctx(PaneId::Grid),
    );
    assert_eq!(
        out,
        [
            Intent::View(ViewCmd::FocusPane(PaneId::Explorer)),
            Intent::View(ViewCmd::SelectTreeRow(1)),
        ]
    );
}

#[test]
fn double_clicking_a_relation_opens_it_and_a_branch_expands() {
    let f = fixture();
    let c = f.ctx(PaneId::Explorer);

    let out = on_mouse(Target::TreeRow { index: 1 }, Gesture::DoubleClick, &c);
    assert_eq!(
        out,
        [
            Intent::View(ViewCmd::OpenTab {
                conn: f.conn,
                table: table("users"),
            }),
            Intent::App(Action::PreviewTable {
                conn: f.conn,
                table: table("users"),
            }),
        ]
    );

    let out = on_mouse(Target::TreeRow { index: 0 }, Gesture::DoubleClick, &c);
    assert!(matches!(out[0], Intent::App(Action::ToggleNode { .. })));
}

#[test]
fn the_toggle_glyph_never_expands_a_leaf() {
    let f = fixture();
    let c = f.ctx(PaneId::Explorer);
    assert!(on_mouse(Target::TreeToggle { index: 1 }, Gesture::Click, &c).is_empty());
    assert!(!on_mouse(Target::TreeToggle { index: 0 }, Gesture::Click, &c).is_empty());
}

#[test]
fn a_click_on_a_row_that_no_longer_exists_does_nothing() {
    // The hit map is one frame old, so an index can outlive its row.
    let f = fixture();
    let c = f.ctx(PaneId::Explorer);
    assert!(on_mouse(Target::TreeRow { index: 99 }, Gesture::DoubleClick, &c).is_empty());
    assert!(on_mouse(Target::TreeToggle { index: 99 }, Gesture::Click, &c).is_empty());
}

#[test]
fn the_wheel_scrolls_the_pane_it_is_over_not_the_focused_one() {
    let f = fixture();
    let c = f.ctx(PaneId::Grid);
    assert_eq!(
        on_mouse(Target::TreeRow { index: 0 }, Gesture::Scroll(-1), &c),
        [Intent::View(ViewCmd::ScrollBy {
            pane: PaneId::Explorer,
            delta: -WHEEL_LINES
        })]
    );
}

#[test]
fn dragging_a_column_edge_resizes_that_column() {
    let f = fixture();
    let out = on_mouse(
        Target::GridColEdge { col: 4 },
        Gesture::DragBy { dx: -3, dy: 0 },
        &f.ctx(PaneId::Grid),
    );
    assert_eq!(
        out,
        [Intent::View(ViewCmd::ResizeColumn { col: 4, delta: -3 })]
    );
}

#[test]
fn a_drag_that_began_elsewhere_does_not_select_the_cells_it_crosses() {
    // The splitter's grab area is three cells wide and the whole height of
    // the screen, so moving it sweeps the pointer across the grid beside
    // it. Read as a selection, resizing the panes drags the highlight over
    // everything on the way.
    let f = fixture();
    let c = f.ctx(PaneId::Grid);
    for from in [
        Target::Splitter(SplitId::Explorer),
        Target::GridColEdge { col: 0 },
        Target::Scrollbar {
            pane: PaneId::Grid,
            part: ScrollPart::Thumb,
        },
    ] {
        assert!(
            on_mouse(
                Target::GridCell { row: 7, col: 2 },
                Gesture::DragOver { from },
                &c,
            )
            .is_empty(),
            "{from:?}"
        );
    }
    assert_eq!(
        on_mouse(
            Target::GridCell { row: 7, col: 2 },
            Gesture::DragOver {
                from: Target::GridCell { row: 3, col: 1 }
            },
            &c,
        ),
        [Intent::View(ViewCmd::ExtendCellSelectionTo {
            row: 7,
            col: 2
        })]
    );
}

#[test]
fn a_press_on_a_cell_is_where_a_drag_selection_starts() {
    // The anchor is the cursor, and the first motion event is already too
    // late to put it under the press: it would stretch the rectangle from
    // whatever was selected before.
    let f = fixture();
    assert_eq!(
        on_mouse(
            Target::GridCell { row: 9, col: 3 },
            Gesture::Down,
            &f.ctx(PaneId::Explorer),
        ),
        [
            Intent::View(ViewCmd::FocusPane(PaneId::Grid)),
            Intent::View(ViewCmd::SelectCell { row: 9, col: 3 }),
        ]
    );
}

#[test]
fn clicking_the_track_pages_towards_the_click() {
    let f = fixture();
    let c = f.ctx(PaneId::Grid);
    let before = on_mouse(
        Target::Scrollbar {
            pane: PaneId::Grid,
            part: ScrollPart::TrackBefore,
        },
        Gesture::Click,
        &c,
    );
    let after = on_mouse(
        Target::Scrollbar {
            pane: PaneId::Grid,
            part: ScrollPart::TrackAfter,
        },
        Gesture::Click,
        &c,
    );
    assert_eq!(
        before,
        [Intent::View(ViewCmd::ScrollBy {
            pane: PaneId::Grid,
            delta: -PAGE_LINES
        })]
    );
    assert_eq!(
        after,
        [Intent::View(ViewCmd::ScrollBy {
            pane: PaneId::Grid,
            delta: PAGE_LINES
        })]
    );
}

#[test]
fn the_backdrop_dismisses_the_modal_rather_than_reaching_behind_it() {
    let f = fixture();
    assert_eq!(
        on_mouse(Target::Backdrop, Gesture::Click, &f.ctx(PaneId::Grid)),
        [Intent::View(ViewCmd::DismissModal)]
    );
}

#[test]
fn typing_in_the_history_searches_the_history_and_not_the_explorer() {
    // One capability, two boxes. A key that searched the explorer from
    // inside the history would be searching what nobody is looking at.
    let mut f = fixture();
    let history = TabId::new(60);
    f.tabs.push(OpenTab {
        id: history,
        conn: f.conn,
        content: TabContent::History {
            filter: Filter::opening(),
        },
    });
    let mut c = f.ctx(PaneId::Grid);
    c.active_tab = Some(history);

    let out = on_key(press(KeyCode::Char('o')), &c);
    assert!(
        matches!(
            out.as_slice(),
            [Intent::View(ViewCmd::SetHistoryTerms(Some(box_)))] if box_.text == "o"
        ),
        "{out:?}"
    );

    // And with a tab that is not the history in front, the same key is the
    // explorer's.
    let mut elsewhere = f.ctx(PaneId::Grid);
    elsewhere.active_tab = Some(TabId::new(1));
    elsewhere.filter = Some(&f.searches[0]);
    assert!(matches!(
        on_key(press(KeyCode::Char('o')), &elsewhere).as_slice(),
        [Intent::View(ViewCmd::SetFilter(_))]
    ));
}

#[test]
fn a_run_is_put_back_from_the_history_and_from_nowhere_else() {
    let f = fixture();
    let mut history = f.ctx(PaneId::Grid);
    history.active_tab = Some(TabId::new(4));
    history.selection = Some((0, 0, 0, 0));
    assert_eq!(
        on_key(press(KeyCode::Char('u')), &history),
        [Intent::View(ViewCmd::ReuseRun(
            RunId(1)
        ))]
    );

    // The same selection on a preview is a cell of somebody's data, and a
    // key that read it as a statement would be reading the wrong list.
    let mut preview = f.ctx(PaneId::Grid);
    preview.active_tab = Some(TabId::new(1));
    preview.selection = Some((0, 0, 0, 0));
    assert!(on_key(press(KeyCode::Char('u')), &preview).is_empty());
}

#[test]
fn keeping_a_run_is_the_same_dialog_that_keeps_a_buffer() {
    // One key and one dialog for both — a second way to name a statement
    // would be a second dialog to keep in step.
    let f = fixture();
    let mut history = f.ctx(PaneId::Grid);
    history.active_tab = Some(TabId::new(4));
    history.selection = Some((0, 0, 0, 0));

    let out = on_key(
        key_event(KeyCode::Char('s'), CONTROL),
        &history,
    );
    assert!(
        matches!(
            out.as_slice(),
            [Intent::View(ViewCmd::Palette(Some(palette)))]
                if palette.saving_body() == Some("select * from public.users")
        ),
        "{out:?}"
    );
}

#[test]
fn the_box_in_front_owns_the_keyboard() {
    // The explorer's search can be left open behind the history tab. A
    // keystroke that reached it would be typed into something nobody is
    // looking at, while the box in front sat there apparently ignoring it.
    let mut f = fixture();
    let history = TabId::new(61);
    f.tabs.push(OpenTab {
        id: history,
        conn: f.conn,
        content: TabContent::History {
            filter: Filter {
                text: String::new(),
                editing: false,
            },
        },
    });
    let mut c = f.ctx(PaneId::Grid);
    c.active_tab = Some(history);
    // Editing, and behind the history tab.
    c.filter = Some(&f.searches[0]);

    // `q` is the explorer box's letter only while that box has the
    // keyboard. In front of a history tab whose own box is closed, it is
    // the global binding again.
    assert_eq!(
        on_key(press(KeyCode::Char('q')), &c),
        [Intent::App(Action::Quit)]
    );
}

#[test]
fn saving_needs_something_to_save() {
    // A key that opened an empty "save as" over an empty buffer would be
    // one that always looks like it worked.
    let f = fixture();
    let save = key_event(KeyCode::Char('s'), CONTROL);

    let mut on_a_preview = f.ctx(PaneId::Grid);
    on_a_preview.active_tab = Some(TabId::new(1));
    assert!(on_key(save, &on_a_preview).is_empty());

    let mut on_sql = f.ctx(PaneId::Grid);
    on_sql.active_tab = Some(TabId::new(3));
    let opened = on_key(save, &on_sql);
    assert!(
        matches!(
            opened.as_slice(),
            [Intent::View(ViewCmd::Palette(Some(palette)))] if palette.saving_body() == Some("select 1")
        ),
        "{opened:?}"
    );
}

#[test]
fn deleting_is_only_offered_where_there_is_something_to_delete() {
    let f = fixture();
    let delete = key_event(KeyCode::Char('d'), CONTROL);

    let mut listing = f.ctx(PaneId::Grid);
    listing.palette = Some(&f.palettes[0]);
    assert!(matches!(
        on_key(delete, &listing).as_slice(),
        [Intent::View(ViewCmd::ConfirmDeleteTemplate { .. })]
    ));

    // Not while a form is up: the row under the cursor is not what is on
    // screen any more.
    let mut asking = f.ctx(PaneId::Grid);
    asking.palette = Some(&f.palettes[1]);
    assert!(on_key(delete, &asking).is_empty());
}

#[test]
fn clicking_outside_the_palette_closes_it() {
    // It draws a backdrop, so a click outside has to mean something. It
    // meant `DismissModal`, which closes a dialog that is not there and
    // leaves the palette exactly where it was.
    let f = fixture();
    let mut c = f.ctx(PaneId::Grid);
    c.palette = Some(&f.palettes[0]);
    assert_eq!(
        on_mouse(Target::Backdrop, Gesture::Click, &c),
        [Intent::View(ViewCmd::Palette(None))]
    );

    // And a dialog over it still wins: it is on top, and it is the one
    // that has to be answered.
    c.modal_open = true;
    assert_eq!(
        on_mouse(Target::Backdrop, Gesture::Click, &c),
        [Intent::View(ViewCmd::DismissModal)]
    );
}

#[test]
fn presses_and_hover_carry_no_action() {
    let f = fixture();
    let c = f.ctx(PaneId::Explorer);
    for gesture in [
        Gesture::Down,
        Gesture::Up,
        Gesture::HoverEnter,
        Gesture::HoverLeave,
    ] {
        assert!(
            on_mouse(Target::TreeRow { index: 0 }, gesture, &c).is_empty(),
            "{gesture:?}"
        );
    }
}

// ── keyboard ───────────────────────────────────────────────────────────

#[test]
fn scrolling_applies_to_the_focused_pane() {
    let f = fixture();
    assert_eq!(
        on_key(press(KeyCode::Char('j')), &f.ctx(PaneId::Grid)),
        [Intent::View(ViewCmd::ScrollBy {
            pane: PaneId::Grid,
            delta: 1
        })]
    );
    assert_eq!(
        on_key(press(KeyCode::Char('k')), &f.ctx(PaneId::StatusBar)),
        [Intent::View(ViewCmd::ScrollBy {
            pane: PaneId::StatusBar,
            delta: -1
        })]
    );
}

#[test]
fn a_pane_binding_beats_the_global_one_for_the_same_key() {
    // Down scrolls globally, but in the explorer it moves the selection.
    let f = fixture();
    assert_eq!(
        on_key(press(KeyCode::Down), &f.ctx(PaneId::Explorer)),
        [Intent::View(ViewCmd::MoveTreeSelection(1))]
    );
    assert!(matches!(
        on_key(press(KeyCode::Down), &f.ctx(PaneId::Grid))[0],
        Intent::View(ViewCmd::ScrollBy { .. })
    ));
}

#[test]
fn escape_means_different_things_in_different_contexts() {
    let f = fixture();
    let mut c = f.ctx(PaneId::Grid);
    assert!(matches!(
        on_key(press(KeyCode::Esc), &c)[0],
        Intent::View(ViewCmd::DismissToast(_))
    ));

    c.modal_open = true;
    assert_eq!(
        on_key(press(KeyCode::Esc), &c),
        [Intent::View(ViewCmd::DismissModal)]
    );
}

#[test]
fn a_modal_takes_the_keyboard_over_entirely() {
    let f = fixture();
    let mut c = f.ctx(PaneId::Grid);
    c.modal_open = true;
    // `s` sorts in the grid, but the grid is not what has the keyboard.
    assert!(on_key(press(KeyCode::Char('s')), &c).is_empty());
    // And neither is the global map, which is where the dangerous ones are.
    assert!(on_key(press(KeyCode::Char('q')), &c).is_empty());
    assert!(on_key(press_ctrl(KeyCode::Char('c')), &c).is_empty());
}

#[test]
fn sorting_and_resizing_act_on_the_selected_column() {
    // The mouse can sort any header and resize any edge. Bound to column
    // zero, the keys would only look like the same capability.
    let f = fixture();
    let c = f.ctx(PaneId::Grid);
    assert_eq!(
        on_key(press(KeyCode::Char('s')), &c),
        [Intent::App(Action::SortPreview {
            conn: f.conn,
            table: table("users"),
            column: 2
        })]
    );
    assert_eq!(
        on_key(press(KeyCode::Char('>')), &c),
        [Intent::View(ViewCmd::ResizeColumn { col: 2, delta: 1 })]
    );
}

#[test]
fn a_driver_that_cannot_sort_is_never_asked_to() {
    // Both halves. Gating only the click would leave `s` sending an action
    // the store drops, and a key that quietly does nothing is the harder of
    // the two to notice.
    let f = fixture().advertising(NO_SORT);
    let c = f.ctx(PaneId::Grid);
    assert!(on_mouse(Target::GridHeader { col: 2 }, Gesture::Click, &c).is_empty());
    assert!(on_key(press(KeyCode::Char('s')), &c).is_empty());

    // The column is still the one to widen, though: what the capability
    // takes away is the ordering, not the header.
    assert_eq!(
        on_mouse(
            Target::GridColEdge { col: 2 },
            Gesture::DragBy { dx: 3, dy: 0 },
            &c
        ),
        [Intent::View(ViewCmd::ResizeColumn { col: 2, delta: 3 })]
    );
}

#[test]
fn the_search_box_takes_the_keyboard_from_everything_else() {
    // The reason it needs a context of its own: `q` quits, `s` sorts, `/`
    // opens the box — and every one of them is a letter in a table's name.
    let f = fixture();
    let mut c = f.ctx(PaneId::Explorer);
    let held = editing("us");
    c.filter = Some(&held);

    for (key, expected) in [('q', "usq"), ('s', "uss"), ('/', "us/")] {
        assert_eq!(
            on_key(press(KeyCode::Char(key)), &c),
            [Intent::View(ViewCmd::SetFilter(Some(editing(expected))))],
            "{key} should have gone into the box"
        );
    }
}

#[test]
fn a_chord_is_not_typed_into_the_box() {
    // In raw mode there is no SIGINT, so `Ctrl-C` is the one key that has
    // to work everywhere — and it arrives as `Char('c')` with a modifier,
    // which a box that took every character would swallow as a letter.
    let f = fixture();
    let mut c = f.ctx(PaneId::Explorer);
    let held = editing("us");
    c.filter = Some(&held);
    assert_eq!(
        on_key(press_ctrl(KeyCode::Char('c')), &c),
        [Intent::App(Action::Quit)]
    );
}

#[test]
fn slash_opens_the_box_and_is_not_typed_into_it() {
    let f = fixture();
    let c = f.ctx(PaneId::Explorer);
    assert_eq!(
        on_key(press(KeyCode::Char('/')), &c),
        [Intent::View(ViewCmd::SetFilter(Some(Filter::opening())))]
    );
}

#[test]
fn enter_hands_the_keyboard_to_the_tree_and_keeps_the_search() {
    // Nothing is reachable by mouse only. If `Enter` cleared
    // the search like `Esc` does, the rows it found would be gone before
    // anything could be selected, and a table could only be opened by
    // double-clicking it.
    let f = fixture();
    let mut c = f.ctx(PaneId::Explorer);
    let held = editing("users");
    c.filter = Some(&held);
    assert_eq!(
        on_key(press(KeyCode::Enter), &c),
        [Intent::View(ViewCmd::SetFilter(Some(made("users"))))]
    );

    // And with the keyboard back on the tree, the ordinary bindings work
    // again — which is what makes the found row reachable.
    let made = made("users");
    c.filter = Some(&made);
    assert_eq!(
        on_key(press(KeyCode::Down), &c),
        [Intent::View(ViewCmd::MoveTreeSelection(1))]
    );
}

#[test]
fn escape_abandons_the_search_and_slash_resumes_it() {
    let f = fixture();
    let mut c = f.ctx(PaneId::Explorer);
    let held = editing("users");
    c.filter = Some(&held);
    assert_eq!(
        on_key(press(KeyCode::Esc), &c),
        [Intent::View(ViewCmd::SetFilter(None))]
    );

    // `/` on a search already made re-opens the box on what is in it,
    // rather than throwing the query away to be retyped.
    let made = made("users");
    c.filter = Some(&made);
    assert_eq!(
        on_key(press(KeyCode::Char('/')), &c),
        [Intent::View(ViewCmd::SetFilter(Some(editing("users"))))]
    );
}

#[test]
fn backspace_empties_the_box_and_then_abandons_the_search() {
    let f = fixture();
    let mut c = f.ctx(PaneId::Explorer);
    let held = editing("us");
    c.filter = Some(&held);
    assert_eq!(
        on_key(press(KeyCode::Backspace), &c),
        [Intent::View(ViewCmd::SetFilter(Some(editing("u"))))]
    );
    // On an empty box there is nothing to delete, and abandoning is where
    // the user's fingers already are.
    let empty = editing("");
    c.filter = Some(&empty);
    assert_eq!(
        on_key(press(KeyCode::Backspace), &c),
        [Intent::View(ViewCmd::SetFilter(None))]
    );
}

#[test]
fn clicking_the_box_puts_the_keyboard_in_it() {
    // What clicking a text box means everywhere else. Discarding the
    // search instead is the surprise, and there is no `×` on the box to
    // say that is what the click would do.
    let f = fixture();
    let mut c = f.ctx(PaneId::Explorer);
    let made = made("users");
    c.filter = Some(&made);
    assert_eq!(
        on_mouse(Target::Button(ButtonId::Filter), Gesture::Click, &c),
        [Intent::View(ViewCmd::SetFilter(Some(editing("users"))))]
    );
}

#[test]
fn a_row_the_filter_removed_is_not_reached_through_the_tree() {
    // Row numbers are positions on screen. Read straight out of the tree
    // they keep meaning whatever sits at that index, so a click lands on a
    // relation that is not drawn — and `Enter` opens it.
    let f = fixture();
    let mut c = f.ctx(PaneId::Explorer);
    assert!(
        !on_mouse(Target::TreeRow { index: 1 }, Gesture::DoubleClick, &c).is_empty(),
        "row 1 is `users` with the tree whole"
    );

    // `public` matches and `users` does not, so only row 0 is left.
    let made = made("public");
    c.filter = Some(&made);
    assert!(
        on_mouse(Target::TreeRow { index: 1 }, Gesture::DoubleClick, &c).is_empty(),
        "row 1 is not on screen and must not act on anything"
    );
}

#[test]
fn shift_tab_moves_focus_the_other_way() {
    let f = fixture();
    let c = f.ctx(PaneId::Grid);
    assert_eq!(
        on_key(press(KeyCode::Tab), &c),
        [Intent::View(ViewCmd::FocusNextPane)]
    );
    assert_eq!(
        on_key(press(KeyCode::BackTab), &c),
        [Intent::View(ViewCmd::FocusPrevPane)]
    );
    // How a terminal actually sends it: `BackTab` *is* `Shift-Tab`, and
    // crossterm hands it over carrying the modifier. Read as a modifier
    // that has to be asked for, the binding matches nothing.
    assert_eq!(
        on_key(key_event(KeyCode::BackTab, SHIFT), &c),
        [Intent::View(ViewCmd::FocusPrevPane)]
    );
    assert_eq!(
        on_key(press_ctrl(KeyCode::Char('h')), &c),
        [Intent::View(ViewCmd::FocusPrevPane)]
    );
}

#[test]
fn left_closes_a_node_but_never_opens_one() {
    let f = fixture();
    let mut c = f.ctx(PaneId::Explorer);
    let conn = f.snapshot.connections[0].id;
    let public = NodeRef::new(NodeKind::Namespace, path(&["public"]));

    // Row 0 is expanded, so Left collapses it.
    c.tree_selection = Some(0);
    assert_eq!(
        on_key(press(KeyCode::Left), &c),
        [Intent::App(Action::ToggleNode {
            conn,
            node: public.clone()
        })]
    );
    // Right and Space still toggle in both directions.
    assert_eq!(
        on_key(press(KeyCode::Right), &c),
        [Intent::App(Action::ToggleNode { conn, node: public })]
    );

    // Row 1 is a leaf: nothing to close, and nothing to open either.
    c.tree_selection = Some(1);
    assert!(on_key(press(KeyCode::Left), &c).is_empty());
}

#[test]
fn the_cell_cursor_moves_on_both_axes() {
    let f = fixture();
    let c = f.ctx(PaneId::Grid);

    // A click selects any cell, so the keyboard has to reach any cell too.
    // Both directions are `GridSelection`, so the coverage sweep cannot
    // see the difference — it was missing until someone looked.
    for (k, drow, dcol) in [('J', 1, 0), ('K', -1, 0), ('L', 0, 1), ('H', 0, -1)] {
        assert_eq!(
            on_key(press(KeyCode::Char(k)), &c),
            [Intent::View(ViewCmd::MoveCellSelection { drow, dcol })],
            "{k}"
        );
    }
}

#[test]
fn the_arrows_still_move_the_view_not_the_selection() {
    // Lower case and the arrows scroll; upper case selects. Breaking that
    // symmetry is how `Left` ends up meaning two things.
    let f = fixture();
    let c = f.ctx(PaneId::Grid);
    assert_eq!(
        on_key(press(KeyCode::Right), &c),
        [Intent::View(ViewCmd::ScrollXBy { delta: 1 })]
    );
}

#[test]
fn a_middle_click_closes_the_tab_it_lands_on() {
    // The second way to close a tab, and the one that does not require
    // hitting a one-cell `×`.
    let f = fixture();
    let c = f.ctx(PaneId::Grid);
    let tab = TabId::new(2);
    // Tab 2 ("empty") is the only tab open on that relation, so closing
    // it also tells the store to forget the cached preview.
    assert_eq!(
        on_mouse(Target::Tab(tab), Gesture::MiddleClick, &c),
        [
            Intent::View(ViewCmd::CloseTab(tab)),
            Intent::App(Action::ForgetPreview {
                conn: f.conn,
                table: table("empty"),
            }),
        ]
    );
    // A left click still selects rather than closes.
    assert_eq!(
        on_mouse(Target::Tab(tab), Gesture::Click, &c),
        [Intent::View(ViewCmd::SelectTab(tab))]
    );
}

#[test]
fn d_opens_a_definition_of_the_selected_relation() {
    // Both halves, the way `Enter` opens a preview: the tab and the fetch.
    let f = fixture();
    let mut c = f.ctx(PaneId::Explorer);
    // Row one: the fixture's tree is `public` and `users` under it.
    c.tree_selection = Some(1);
    let intents = on_key(press(KeyCode::Char('d')), &c);
    assert!(
        intents
            .iter()
            .any(|i| matches!(i, Intent::View(ViewCmd::OpenDefinition { .. }))),
        "{intents:?}"
    );
    assert!(
        intents
            .iter()
            .any(|i| matches!(i, Intent::App(Action::DescribeTable { refresh: false, .. }))),
        "{intents:?}"
    );
}

#[test]
fn a_namespace_has_no_definition_to_open() {
    // Most of the tree is not a relation, and a message about that on
    // every stray keypress would be noise.
    let f = fixture();
    let mut c = f.ctx(PaneId::Explorer);
    c.tree_selection = Some(0);
    assert!(on_key(press(KeyCode::Char('d')), &c).is_empty());
}

#[test]
fn closing_a_definition_forgets_it() {
    // Nothing else ever will: a definition is cached until something says
    // otherwise, unlike a preview, which every page request refreshes.
    let mut f = fixture();
    let table = table("users");
    f.tabs.push(OpenTab {
        id: TabId::new(70),
        conn: f.conn,
        content: TabContent::Definition {
            table: table.clone(),
            section: 0,
        },
    });
    let intents = on_mouse(
        Target::TabClose(TabId::new(70)),
        Gesture::Click,
        &f.ctx(PaneId::Grid),
    );
    assert!(
        intents.contains(&Intent::App(Action::ForgetDefinition {
            conn: f.conn,
            table,
        })),
        "{intents:?}"
    );
    // And not a `ForgetPreview`: a definition tab never had one.
    assert!(
        !intents
            .iter()
            .any(|i| matches!(i, Intent::App(Action::ForgetPreview { .. }))),
        "{intents:?}"
    );
}

#[test]
fn a_section_is_pickable_by_click_and_by_key() {
    let f = fixture();
    let c = f.ctx(PaneId::Grid);
    assert_eq!(
        on_mouse(Target::Section { index: 2 }, Gesture::Click, &c),
        [Intent::View(ViewCmd::SelectSection(
            SectionPick::At(2)
        ))]
    );
    assert_eq!(
        on_key(press(KeyCode::Char('}')), &c),
        [Intent::View(ViewCmd::SelectSection(
            SectionPick::By(1)
        ))]
    );
    assert_eq!(
        on_key(press(KeyCode::Char('{')), &c),
        [Intent::View(ViewCmd::SelectSection(
            SectionPick::By(-1)
        ))]
    );
}

#[test]
fn r_runs_a_sql_tab_and_leaves_a_preview_alone() {
    let f = fixture();
    let mut c = f.ctx(PaneId::Grid);
    // A preview has no buffer, and running its rows is not a thing to do.
    assert!(on_key(press(KeyCode::Char('r')), &c).is_empty());

    c.active_tab = Some(TabId::new(3));
    let intents = on_key(press(KeyCode::Char('r')), &c);
    assert!(
        matches!(
            intents.as_slice(),
            [Intent::App(Action::RunQuery { conn, sql, .. })]
                if *conn == f.conn && sql == "select 1"
        ),
        "{intents:?}"
    );
}

#[test]
fn an_empty_buffer_runs_nothing() {
    // Running nothing produces a statement the server refuses, reported as
    // an error, for a gesture that should have done nothing at all.
    let mut f = fixture();
    f.tabs.push(OpenTab {
        id: TabId::new(60),
        conn: f.conn,
        content: TabContent::Sql {
            number: 2,
            text: "   \n ".to_owned(),
            query: None,
        },
    });
    let mut c = f.ctx(PaneId::Grid);
    c.active_tab = Some(TabId::new(60));
    assert!(on_key(press(KeyCode::Char('r')), &c).is_empty());
    assert!(on_mouse(Target::Button(ButtonId::RunQuery), Gesture::Click, &c).is_empty());
}

#[test]
fn the_run_button_and_its_key_do_the_same_thing() {
    let f = fixture();
    let mut c = f.ctx(PaneId::Grid);
    c.active_tab = Some(TabId::new(3));
    let by_key = on_key(press(KeyCode::Char('r')), &c);
    let by_click = on_mouse(Target::Button(ButtonId::RunQuery), Gesture::Click, &c);
    // Not equal: each mints its own `QueryId`, which is the point of the
    // id being the caller's. The statement and the connection are what
    // have to agree.
    let sql_of = |intents: &[Intent]| match intents {
        [Intent::App(Action::RunQuery { conn, sql, .. })] => Some((*conn, sql.clone())),
        _ => None,
    };
    assert_eq!(sql_of(&by_key), sql_of(&by_click));
    assert!(sql_of(&by_key).is_some(), "{by_key:?}");
}

#[test]
fn a_dialog_is_answered_by_its_own_first_choice() {
    // The key and the button cannot disagree about what "yes" means,
    // because both read it off the dialog.
    let f = fixture();
    let mut c = f.ctx(PaneId::Grid);
    c.modal_open = true;
    c.modal = Some(&f.asking);

    let expected = vec![f.asking.choices[0].intent.clone()];
    assert_eq!(on_key(press(KeyCode::Enter), &c), expected);
    assert_eq!(
        on_mouse(
            Target::Button(ButtonId::ModalChoice { index: 0 }),
            Gesture::Click,
            &c
        ),
        expected
    );
}

#[test]
fn closing_a_sql_tab_forgets_the_run_it_started() {
    let mut f = fixture();
    let query = QueryId(40);
    f.tabs.push(OpenTab {
        id: TabId::new(61),
        conn: f.conn,
        content: TabContent::Sql {
            number: 2,
            text: "select 1".to_owned(),
            query: Some(query),
        },
    });
    let intents = on_mouse(
        Target::TabClose(TabId::new(61)),
        Gesture::Click,
        &f.ctx(PaneId::Grid),
    );
    assert!(
        intents.contains(&Intent::App(Action::ForgetQuery(query))),
        "{intents:?}"
    );
}

#[test]
fn e_edits_a_sql_tab_and_leaves_a_preview_alone() {
    let f = fixture();
    let mut c = f.ctx(PaneId::Grid);
    // The fixture's first tab is a preview: nothing to edit there, and
    // opening an editor on the rows is not a thing to do to them.
    assert!(on_key(press(KeyCode::Char('e')), &c).is_empty());

    c.active_tab = Some(TabId::new(3));
    assert_eq!(
        on_key(press(KeyCode::Char('e')), &c),
        [Intent::Handover(Handover::Edit(TabId::new(3)))]
    );
}

#[test]
fn double_clicking_the_buffer_does_what_e_does() {
    // A SQL tab draws no cells, so the pane itself is what a pointer
    // lands on.
    let f = fixture();
    let mut c = f.ctx(PaneId::Grid);
    c.active_tab = Some(TabId::new(3));
    assert_eq!(
        on_mouse(Target::Pane(PaneId::Grid), Gesture::DoubleClick, &c),
        [Intent::Handover(Handover::Edit(TabId::new(3)))]
    );
    c.active_tab = Some(TabId::new(1));
    assert!(on_mouse(Target::Pane(PaneId::Grid), Gesture::DoubleClick, &c).is_empty());
}

#[test]
fn closing_a_sql_tab_forgets_nothing() {
    // A `ForgetPreview` here would drop the cache of whatever relation
    // happened to be reachable, on a tab that never had one.
    let mut f = fixture();
    let sql = TabId::new(50);
    f.tabs.push(OpenTab {
        id: sql,
        conn: f.conn,
        content: TabContent::Sql {
            number: 1,
            text: String::new(),
            query: None,
        },
    });
    assert_eq!(
        on_mouse(Target::TabClose(sql), Gesture::Click, &f.ctx(PaneId::Grid)),
        [Intent::View(ViewCmd::CloseTab(sql))]
    );
}

#[test]
fn a_sql_tab_sorts_and_pages_nothing() {
    // Both reach for the active tab's relation. Without the `?` they act
    // on whichever relation another tab left in the context.
    let mut f = fixture();
    let sql = TabId::new(50);
    f.tabs.push(OpenTab {
        id: sql,
        conn: f.conn,
        content: TabContent::Sql {
            number: 1,
            text: String::new(),
            query: None,
        },
    });
    let mut c = f.ctx(PaneId::Grid);
    c.active_tab = Some(sql);
    assert!(on_key(press(KeyCode::Char('s')), &c).is_empty());
    assert!(on_key(press(KeyCode::Char('m')), &c).is_empty());
}

#[test]
fn the_new_tab_button_and_its_key_do_the_same_thing() {
    let f = fixture();
    let c = f.ctx(PaneId::Grid);
    let expected: Vec<Intent> = vec![Intent::View(ViewCmd::OpenSqlTab { conn: f.conn })];
    assert_eq!(on_key(press(KeyCode::Char('n')), &c), expected);
    assert_eq!(
        on_mouse(Target::Button(ButtonId::NewSqlTab), Gesture::Click, &c),
        expected
    );
}

#[test]
fn a_sql_tab_needs_somewhere_to_run() {
    // With no connection there is nowhere to send a query, and a tab that
    // could never run one is a tab that lies.
    let mut f = fixture();
    f.snapshot.connections.clear();
    let mut c = f.ctx(PaneId::Grid);
    c.connection = None;
    assert!(on_key(press(KeyCode::Char('n')), &c).is_empty());
    assert!(on_mouse(Target::Button(ButtonId::NewSqlTab), Gesture::Click, &c).is_empty());
}

#[test]
fn a_closed_connection_is_not_somewhere_to_run_either() {
    // A closed connection keeps its row so the user can see what happened
    // to it. Opening a SQL tab on one mints a tab that
    // `close_disconnected_tabs` takes away on the next frame, which is a
    // `+` that answers a click with nothing.
    let mut f = fixture();
    f.snapshot.connections[0].status = ConnStatus::Closed;
    let c = f.ctx(PaneId::Grid);
    assert!(on_key(press(KeyCode::Char('n')), &c).is_empty());
    assert!(on_mouse(Target::Button(ButtonId::NewSqlTab), Gesture::Click, &c).is_empty());
}

#[test]
fn a_new_sql_tab_skips_a_dead_connection_for_a_live_one() {
    // The selected row's connection is the one to use, but only while it
    // is one: with a closed connection selected and a live one open, `n`
    // opens on the live one rather than on nothing.
    let mut f = fixture();
    let live = ConnId(2);
    f.snapshot.connections[0].status = ConnStatus::Closed;
    f.snapshot.connections.push(connection(live));
    let c = f.ctx(PaneId::Grid);
    assert_eq!(
        on_key(press(KeyCode::Char('n')), &c),
        [Intent::View(ViewCmd::OpenSqlTab { conn: live })]
    );
}

#[test]
fn closing_one_of_two_tabs_on_the_same_relation_keeps_the_data() {
    // `ViewCmd::OpenTab` never produces this today — it raises the
    // existing tab instead of minting a second one on the same
    // `(conn, table)` — but `close_tab` checks anyway, so this pins the
    // behaviour down independently of that invariant holding forever.
    let mut f = fixture();
    let twin = TabId::new(99);
    f.tabs.push(OpenTab {
        id: twin,
        conn: f.conn,
        content: TabContent::Preview(table("users")),
    });

    // `on_mouse` removes nothing itself, so the context is rebuilt
    // between the two closes the way `ui.apply` would leave it.
    assert_eq!(
        on_mouse(
            Target::TabClose(TabId::new(1)),
            Gesture::Click,
            &f.ctx(PaneId::Grid)
        ),
        [Intent::View(ViewCmd::CloseTab(TabId::new(1)))],
        "the twin is still showing the same relation"
    );

    f.tabs.retain(|t| t.id != TabId::new(1));
    assert_eq!(
        on_mouse(Target::TabClose(twin), Gesture::Click, &f.ctx(PaneId::Grid)),
        [
            Intent::View(ViewCmd::CloseTab(twin)),
            Intent::App(Action::ForgetPreview {
                conn: f.conn,
                table: table("users"),
            }),
        ],
        "the twin was the last one left"
    );
}

#[test]
fn switching_tabs_with_nothing_active_lands_on_the_first_one() {
    // The active tab was just closed. Stepping from an assumed index 0
    // would skip the tab the user is looking at.
    let f = fixture();
    let c = f.ctx_no_active_tab(PaneId::Grid);
    assert_eq!(
        on_key(press(KeyCode::Char(']')), &c),
        [Intent::View(ViewCmd::SelectTab(TabId::new(1)))]
    );
    assert_eq!(
        on_key(press(KeyCode::Char('[')), &c),
        [Intent::View(ViewCmd::SelectTab(TabId::new(1)))]
    );
}

#[test]
fn the_wheel_works_over_the_empty_part_of_a_pane() {
    let f = fixture();
    let c = f.ctx(PaneId::Grid);
    assert_eq!(
        on_mouse(Target::Pane(PaneId::Explorer), Gesture::Scroll(1), &c),
        [Intent::View(ViewCmd::ScrollBy {
            pane: PaneId::Explorer,
            delta: WHEEL_LINES
        })]
    );
}

#[test]
fn enter_opens_the_selected_relation() {
    let f = fixture();
    let mut c = f.ctx(PaneId::Explorer);
    c.tree_selection = Some(1);
    let out = on_key(press(KeyCode::Enter), &c);
    assert_eq!(
        out,
        [
            Intent::View(ViewCmd::OpenTab {
                conn: f.conn,
                table: table("users"),
            }),
            Intent::App(Action::PreviewTable {
                conn: f.conn,
                table: table("users"),
            }),
        ]
    );
}

#[test]
fn tab_switching_wraps_in_both_directions() {
    let f = fixture();
    let c = f.ctx(PaneId::Grid);
    assert_eq!(
        on_key(press(KeyCode::Char(']')), &c),
        [Intent::View(ViewCmd::SelectTab(TabId::new(2)))]
    );
    // With only two tabs open both directions gave the same answer, so
    // this could not tell them apart. The third makes it a test.
    assert_eq!(
        on_key(press(KeyCode::Char('[')), &c),
        [Intent::View(ViewCmd::SelectTab(TabId::new(3)))],
        "from the first tab, backwards wraps to the last"
    );
}

#[test]
fn cancel_targets_what_is_actually_running() {
    let f = fixture();
    assert_eq!(
        on_key(press_ctrl(KeyCode::Char('g')), &f.ctx(PaneId::Grid)),
        [Intent::App(Action::Cancel(BusyId(1)))]
    );
}

#[test]
fn quit_is_bound_twice_for_the_two_habits() {
    let f = fixture();
    let c = f.ctx(PaneId::Grid);
    assert_eq!(
        on_key(press(KeyCode::Char('q')), &c),
        [Intent::App(Action::Quit)]
    );
    assert_eq!(
        on_key(press_ctrl(KeyCode::Char('c')), &c),
        [Intent::App(Action::Quit)]
    );
}

#[test]
fn key_releases_are_ignored() {
    // Windows terminals report them, and acting on both would double every
    // keystroke.
    let f = fixture();
    let mut event = press(KeyCode::Char('q'));
    event.kind = KeyEventKind::Release;
    assert!(on_key(event, &f.ctx(PaneId::Grid)).is_empty());
}

#[test]
fn an_unbound_key_does_nothing() {
    let f = fixture();
    assert!(on_key(press(KeyCode::Char('~')), &f.ctx(PaneId::Grid)).is_empty());
}

#[test]
fn an_action_with_nothing_to_act_on_produces_nothing() {
    let empty = Snapshot::empty();
    let no_tabs: Vec<OpenTab> = Vec::new();
    let no_toasts: Vec<Toast> = Vec::new();
    let c = InputContext {
        palette: None,
        snapshot: &empty,
        focus: PaneId::Grid,
        modal_open: false,
        modal: None,
        connection: None,
        tree_selection: None,
        grid_column: None,
        pointer: (0, 0),
        selection: None,
        menu: None,
        tabs: &no_tabs,
        active_tab: None,
        toasts: &no_toasts,
        filter: None,
        new_conn: NEW_CONN,
        new_query: NEW_QUERY,
    };
    for code in [
        KeyCode::Char('s'),
        KeyCode::Char('m'),
        KeyCode::Char(']'),
        KeyCode::Char('D'),
        KeyCode::Enter,
    ] {
        assert!(on_key(press(code), &c).is_empty(), "{code:?}");
    }
}

#[test]
fn connecting_walks_the_profiles_and_can_reopen_a_closed_one() {
    let mut f = fixture();
    f.snapshot.profiles = vec![summary("replica"), summary("staging")];
    f.snapshot.connections[0].profile = summary("replica").id;

    // `replica` is open, so `c` reaches for the one that is not.
    let out = on_key(press(KeyCode::Char('c')), &f.ctx(PaneId::Explorer));
    assert!(
        matches!(
            &out[..],
            [Intent::App(Action::Connect { profile, .. })]
                if *profile == summary("staging").id
        ),
        "{out:?}"
    );

    // Still opening counts as open. Otherwise a second press while the
    // first connection is still on its way opens a duplicate of it rather
    // than moving on to the profile that has nothing.
    f.snapshot.connections[0].status = ConnStatus::Connecting;
    let out = on_key(press(KeyCode::Char('c')), &f.ctx(PaneId::Explorer));
    assert!(
        matches!(
            &out[..],
            [Intent::App(Action::Connect { profile, .. })]
                if *profile == summary("staging").id
        ),
        "{out:?}"
    );

    // Closing a connection leaves its row behind, and a row is not a
    // connection: `c` has to be able to open `replica` again rather than
    // skipping past it for ever.
    f.snapshot.connections[0].status = ConnStatus::Closed;
    let out = on_key(press(KeyCode::Char('c')), &f.ctx(PaneId::Explorer));
    assert!(
        matches!(
            &out[..],
            [Intent::App(Action::Connect { profile, .. })]
                if *profile == summary("replica").id
        ),
        "{out:?}"
    );

    // The same profile twice is a second window onto one database, so the
    // key never goes dead once everything is open.
    f.snapshot.connections[0].status = ConnStatus::Ready;
    f.snapshot.profiles = vec![summary("replica")];
    let out = on_key(press(KeyCode::Char('c')), &f.ctx(PaneId::Explorer));
    assert!(
        matches!(
            &out[..],
            [Intent::App(Action::Connect { profile, .. })]
                if *profile == summary("replica").id
        ),
        "{out:?}"
    );
}

// ── the rule this whole module exists to keep ──────────────────────────

fn all_targets() -> Vec<Target> {
    vec![
        Target::Pane(PaneId::Grid),
        Target::Pane(PaneId::Explorer),
        Target::TreeRow { index: 0 },
        Target::TreeToggle { index: 0 },
        Target::GridCell { row: 0, col: 0 },
        Target::GridHeader { col: 0 },
        Target::GridColEdge { col: 0 },
        Target::Scrollbar { pane: PaneId::Grid, part: ScrollPart::Thumb },
        Target::Scrollbar { pane: PaneId::Grid, part: ScrollPart::TrackBefore },
        Target::Scrollbar { pane: PaneId::Grid, part: ScrollPart::TrackAfter },
        Target::Splitter(SplitId::Explorer),
        Target::Tab(TabId::new(1)),
        Target::TabClose(TabId::new(1)),
        Target::Button(ButtonId::Cancel(BusyId(1))),
        Target::Button(ButtonId::DismissModal),
        Target::Button(ButtonId::NewSqlTab),
        Target::Button(ButtonId::RunQuery),
        Target::Button(ButtonId::ModalChoice { index: 0 }),
        Target::Section { index: 0 },
        Target::PaletteRow { index: 0 },
        Target::Toast(ToastId::new(1)),
        Target::MenuItem { index: 0 },
        Target::Menu,
        Target::Backdrop,
        Target::Modal,
    ]
}

/// Never called: adding a variant stops this compiling until somebody comes
/// here, next to the samples.
#[allow(dead_code)]
fn every_target_is_sampled(value: &Target) {
    match value {
        Target::Pane(_)
        | Target::TreeRow { .. }
        | Target::TreeToggle { .. }
        | Target::GridCell { .. }
        | Target::GridHeader { .. }
        | Target::GridColEdge { .. }
        | Target::Scrollbar { .. }
        | Target::Splitter(_)
        | Target::Tab(_)
        | Target::TabClose(_)
        | Target::Button(_)
        | Target::Section { .. }
        | Target::PaletteRow { .. }
        | Target::Toast(_)
        | Target::MenuItem { .. }
        | Target::Menu
        | Target::Backdrop
        | Target::Modal => (),
    }
}

fn all_gestures() -> Vec<Gesture> {
    vec![
        Gesture::Down,
        Gesture::Up,
        Gesture::Click,
        Gesture::DoubleClick,
        Gesture::RightClick,
        Gesture::MiddleClick,
        Gesture::DragBy { dx: 1, dy: 1 },
        Gesture::DragBy { dx: -1, dy: -1 },
        Gesture::DragOver { from: Target::GridCell { row: 0, col: 0 } },
        Gesture::DragOver { from: Target::Splitter(SplitId::Explorer) },
        Gesture::Scroll(1),
        Gesture::Scroll(-1),
        Gesture::ScrollX(1),
        Gesture::ScrollX(-1),
        Gesture::HoverEnter,
        Gesture::HoverLeave,
    ]
}

#[allow(dead_code)]
fn every_gesture_is_sampled(value: &Gesture) {
    match value {
        Gesture::Down
        | Gesture::Up
        | Gesture::Click
        | Gesture::DoubleClick
        | Gesture::RightClick
        | Gesture::MiddleClick
        | Gesture::DragBy { .. }
        | Gesture::DragOver { .. }
        | Gesture::Scroll(_)
        | Gesture::ScrollX(_)
        | Gesture::HoverEnter
        | Gesture::HoverLeave => (),
    }
}

/// The menu's own half of "nothing is mouse-only".
///
/// Asserted here as well as through the sweep, because the sweep proves a
/// *reachable* kind is bound and this proves every entry is one of them —
/// an entry the sweep's contexts happened not to resolve would otherwise
/// slip through.
#[test]
fn choosing_an_entry_does_what_the_entry_says() {
    let f = fixture();
    let menu = Menu::for_grid((0, 0), true);
    let mut c = f.ctx(PaneId::Grid);
    c.menu = Some(&menu);

    for (index, entry) in menu.entries.iter().enumerate() {
        let intents = on_mouse(Target::MenuItem { index }, Gesture::Click, &c);
        assert!(
            intents.contains(&entry.intent),
            "line {index} (`{}`) produced {intents:?}",
            entry.label
        );
        assert!(
            intents.contains(&Intent::View(ViewCmd::CloseMenu)),
            "the menu stayed open after a choice"
        );
    }
}

#[test]
fn a_click_outside_the_menu_closes_it_and_still_lands() {
    // A menu that had to be dismissed before anything else worked would be
    // a mode, and this one is not.
    let f = fixture();
    let menu = Menu::for_grid((0, 0), true);
    let mut c = f.ctx(PaneId::Grid);
    c.menu = Some(&menu);

    let intents = on_mouse(Target::GridCell { row: 2, col: 1 }, Gesture::Click, &c);
    assert!(intents.contains(&Intent::View(ViewCmd::CloseMenu)), "{intents:?}");
    assert!(
        intents.contains(&Intent::View(ViewCmd::SelectCell { row: 2, col: 1 })),
        "the click that closed the menu was swallowed: {intents:?}"
    );
}

#[test]
fn a_right_click_on_a_cell_opens_the_menu() {
    let f = fixture();
    let intents = on_mouse(
        Target::GridCell { row: 0, col: 0 },
        Gesture::RightClick,
        &f.ctx(PaneId::Grid),
    );
    assert!(
        intents
            .iter()
            .any(|i| matches!(i, Intent::View(ViewCmd::OpenMenu { .. }))),
        "{intents:?}"
    );
}

#[test]
fn the_key_that_opens_the_menu_closes_it_again() {
    // The only way out on the keyboard. `Esc` in the grid is
    // `DismissToast`, so without this the one gesture that reaches the menu
    // on a terminal with no right-click leaves it on screen for good.
    let f = fixture();
    let menu = Menu::for_grid((0, 0), false);
    let mut c = f.ctx(PaneId::Grid);
    assert!(matches!(
        on_key(press(KeyCode::Char('.')), &c)[..],
        [Intent::View(ViewCmd::OpenMenu { .. })]
    ));
    c.menu = Some(&menu);
    assert_eq!(
        on_key(press(KeyCode::Char('.')), &c),
        [Intent::View(ViewCmd::CloseMenu)]
    );
}

#[test]
fn a_right_click_outside_the_selection_moves_it_there_first() {
    // Otherwise the menu's "Copy cell" copies a cell somewhere else on
    // screen — the one that happened to be selected before.
    let f = fixture();
    let mut c = f.ctx(PaneId::Grid);
    c.selection = Some((0, 0, 2, 2));

    let intents = on_mouse(Target::GridCell { row: 9, col: 4 }, Gesture::RightClick, &c);
    assert!(
        intents.contains(&Intent::View(ViewCmd::SelectCell { row: 9, col: 4 })),
        "{intents:?}"
    );
    assert!(
        intents
            .iter()
            .any(|i| matches!(i, Intent::View(ViewCmd::OpenMenu { ranged: false, .. }))),
        "a click outside the selection still called the menu after it: {intents:?}"
    );
}

#[test]
fn a_right_click_inside_the_selection_keeps_it() {
    let f = fixture();
    let mut c = f.ctx(PaneId::Grid);
    c.selection = Some((0, 0, 2, 2));

    let intents = on_mouse(Target::GridCell { row: 1, col: 1 }, Gesture::RightClick, &c);
    assert!(
        !intents
            .iter()
            .any(|i| matches!(i, Intent::View(ViewCmd::SelectCell { .. }))),
        "right-clicking inside the selection collapsed it: {intents:?}"
    );
    assert!(
        intents
            .iter()
            .any(|i| matches!(i, Intent::View(ViewCmd::OpenMenu { ranged: true, .. }))),
        "{intents:?}"
    );
}

#[test]
fn the_keyboard_menu_is_named_after_the_selection_too() {
    // Not hard-coded to one cell: `.` with a rectangle selected would
    // otherwise offer to "copy cell" and copy the whole rectangle.
    let f = fixture();
    let mut c = f.ctx(PaneId::Grid);
    c.selection = Some((0, 0, 2, 2));
    assert!(matches!(
        on_key(press(KeyCode::Char('.')), &c)[..],
        [Intent::View(ViewCmd::OpenMenu { ranged: true, .. })]
    ));
}

#[test]
fn a_press_on_the_grid_closes_the_menu_before_it_drags() {
    // The press is where a drag-selection starts, so a menu that waited for
    // the click would have a rectangle swept out underneath it.
    let f = fixture();
    let menu = Menu::for_grid((0, 0), true);
    let mut c = f.ctx(PaneId::Grid);
    c.menu = Some(&menu);

    let intents = on_mouse(Target::GridCell { row: 2, col: 1 }, Gesture::Down, &c);
    assert!(intents.contains(&Intent::View(ViewCmd::CloseMenu)), "{intents:?}");
}

#[test]
fn the_menu_swallows_what_lands_on_it_rather_than_its_lines() {
    // The border, and any line too far down to be drawn. Without a target
    // of its own the gesture reaches the cell underneath and moves the
    // selection the menu was opened about.
    let f = fixture();
    let menu = Menu::for_grid((0, 0), true);
    let mut c = f.ctx(PaneId::Grid);
    c.menu = Some(&menu);

    for gesture in [Gesture::Down, Gesture::Click] {
        assert_eq!(on_mouse(Target::Menu, gesture, &c), Vec::new());
    }
}

#[test]
fn every_menu_entry_has_a_key_binding() {
    // Bindings that actually carry a key: an entry in the map with none is
    // a kind nothing can press, and counting it would make this pass on a
    // menu whose entries are unreachable.
    let map = keymap();
    let bound: BTreeSet<_> = map
        .iter()
        .filter(|b| !b.keys.is_empty())
        .map(|b| b.kind)
        .collect();
    for ranged in [false, true] {
        for entry in Menu::for_grid((0, 0), ranged).entries {
            assert!(
                bound.contains(&entry.kind()),
                "the menu offers `{}` and the keyboard cannot reach {:?}",
                entry.label,
                entry.kind()
            );
        }
    }
}

#[test]
fn every_capability_reachable_with_the_mouse_has_a_key_binding() {
    // This is the mechanical form of "nothing is mouse-only". The reverse
    // is deliberately not required: keyboard-only capabilities are fine.
    let f = fixture();
    // An open menu, because a `MenuItem` sample resolves to nothing without
    // one: the sweep would walk over every entry and find no intents, and
    // pass while proving nothing about the menu at all.
    let menu = Menu::for_grid((0, 0), true);
    let mut contexts = Vec::new();
    for focus in [PaneId::Explorer, PaneId::Grid] {
        for selection in [Some(0), Some(1)] {
            for open in [None, Some(&menu)] {
                // A dialog with an answer on it, for the same reason the
                // menu is opened: a `ModalChoice` resolves to nothing
                // without one, and the sweep would pass while proving
                // nothing about the dialog's buttons at all.
                for asking in [None, Some(&f.asking)] {
                    let mut c = f.ctx(focus);
                    c.tree_selection = selection;
                    c.menu = open;
                    c.modal = asking;
                    c.modal_open = asking.is_some();
                    contexts.push(c);
                }
            }
        }
    }

    let mut reachable = BTreeSet::new();
    for target in all_targets() {
        for gesture in all_gestures() {
            for c in &contexts {
                for intent in on_mouse(target, gesture, c) {
                    reachable.insert(IntentKind::of(&intent));
                }
            }
        }
    }
    // And every entry, not only the first: one sample per `Target` means
    // the sweep only ever clicks line zero.
    for entry in &menu.entries {
        reachable.insert(entry.kind());
    }
    assert!(!reachable.is_empty(), "the sweep found nothing at all");

    let bound: BTreeSet<_> = keymap().iter().map(|b| b.kind).collect();
    let unbound: Vec<_> = reachable.difference(&bound).collect();
    assert!(
        unbound.is_empty(),
        "reachable with the mouse but not with the keyboard: {unbound:?}"
    );
}

#[test]
fn every_key_binding_is_reachable_from_some_key() {
    for binding in keymap() {
        assert!(!binding.keys.is_empty(), "{:?} has no keys", binding.kind);
    }
}

/// Every focus, selection and modal state a keystroke can be read in.
fn every_context(f: &Fixture) -> Vec<InputContext<'_>> {
    let mut out = Vec::new();
    for focus in [
        PaneId::TabBar,
        PaneId::Explorer,
        PaneId::Grid,
        PaneId::StatusBar,
    ] {
        for selection in [None, Some(0), Some(1)] {
            for modal_open in [false, true] {
                // The search box included: a binding in `Context::Filter`
                // can only fire while it is open, and a sweep that never
                // opens it would report those bindings as dead.
                for filter in [None, Some(&f.searches[0]), Some(&f.searches[1])] {
                    // Both kinds of tab: `e` fires only on a SQL one, and
                    // a sweep that never focused one would report it dead.
                    for tab in f.tabs.iter().map(|t| t.id) {
                        let mut c = f.ctx(focus);
                        c.tree_selection = selection;
                        c.modal_open = modal_open;
                        c.filter = filter;
                        c.active_tab = Some(tab);
                        // A selected row, because the history's bindings
                        // act on the run under the cursor and a sweep with
                        // nothing selected would report them dead.
                        c.selection = Some((0, 0, 0, 0));
                        out.push(c);
                        // Both stages of the palette: its bindings only
                        // fire while it is up, and its form answers keys
                        // the list does not.
                        for palette in &f.palettes {
                            let mut open = c;
                            open.palette = Some(palette);
                            out.push(open);
                        }
                        // And with a dialog that has something to answer.
                        // A sweep that only ever opened one which tells
                        // would report every binding on a question dead.
                        if modal_open {
                            let mut asking = c;
                            asking.modal = Some(&f.asking);
                            out.push(asking);
                        }
                    }
                }
            }
        }
    }
    out
}

#[test]
fn every_binding_produces_the_capability_it_claims() {
    // The sweep above compares the set of kinds the mouse reaches against
    // the set of kinds the map *names*. On its own that is satisfiable by a
    // binding that names a kind and produces nothing — a key that is listed
    // in the help and does not work. This closes that half.
    let f = fixture();
    let contexts = every_context(&f);

    for binding in keymap() {
        for combo in &binding.keys {
            let event = key_event(combo.code, combo.modifiers);
            let works = contexts.iter().any(|c| {
                let intents = on_key(event, c);
                !intents.is_empty() && intents.iter().all(|i| IntentKind::of(i) == binding.kind)
            });
            assert!(
                works,
                "{:?} in {:?} never produces {:?}",
                combo.code, binding.context, binding.kind
            );
        }
    }
}

#[test]
fn a_modal_leaves_no_key_bound_to_anything_else() {
    // "A modal takes the keyboard over" is a claim about every key, not
    // just the ones belonging to a pane: `q` behind a dialog must answer
    // the dialog or do nothing, never quit.
    let f = fixture();
    let mut c = f.ctx(PaneId::Grid);
    c.modal_open = true;

    for binding in keymap() {
        for combo in &binding.keys {
            let event = key_event(combo.code, combo.modifiers);
            for intent in on_key(event, &c) {
                assert_eq!(
                    IntentKind::of(&intent),
                    IntentKind::DismissModal,
                    "{:?} still reaches {intent:?} with a modal open",
                    combo.code
                );
            }
        }
    }
}

#[test]
fn no_key_is_bound_twice_in_the_same_context() {
    let mut seen = BTreeSet::new();
    for binding in keymap() {
        for combo in &binding.keys {
            let key = (
                binding.context,
                format!("{:?}", combo.code),
                format!("{:?}", combo.modifiers),
            );
            assert!(
                seen.insert(key.clone()),
                "{:?} is bound twice in {:?}",
                key.1,
                binding.context
            );
        }
    }
}

// ── what an intent is a way of doing ───────────────────────────────────────

#[test]
fn every_kind_has_a_description() {
    for kind in IntentKind::all() {
        assert!(!kind.description().is_empty(), "{kind:?}");
    }
}

#[test]
fn kinds_are_listed_exactly_once() {
    let all = IntentKind::all();
    let unique: BTreeSet<_> = all.iter().collect();
    assert_eq!(unique.len(), all.len());
}

#[test]
fn two_ways_of_doing_one_thing_share_a_kind() {
    // Clicking a row and arrowing onto it are the same capability. If they
    // were different kinds, "reachable by keyboard" would be a claim about
    // variants rather than about what the user can do.
    assert_eq!(
        IntentKind::of(&Intent::View(ViewCmd::SelectTreeRow(3))),
        IntentKind::of(&Intent::View(ViewCmd::MoveTreeSelection(1)))
    );
    assert_eq!(
        IntentKind::of(&Intent::View(ViewCmd::SelectCell { row: 0, col: 0 })),
        IntentKind::of(&Intent::View(ViewCmd::MoveCellSelection { drow: 1, dcol: 0 }))
    );
    assert_eq!(
        IntentKind::of(&Intent::View(ViewCmd::ScrollBy { pane: PaneId::Grid, delta: 1 })),
        IntentKind::of(&Intent::View(ViewCmd::ScrollToRatio {
            pane: PaneId::Grid,
            permille: 500
        }))
    );
}

#[test]
fn app_intents_map_to_their_own_kinds() {
    assert_eq!(IntentKind::of(&Intent::App(Action::Quit)), IntentKind::Quit);
    assert_eq!(
        IntentKind::of(&Intent::App(Action::Disconnect(ConnId(1)))),
        IntentKind::Disconnect
    );
}

#[test]
fn only_pane_contexts_name_a_pane() {
    assert_eq!(Context::Explorer.pane(), Some(PaneId::Explorer));
    assert_eq!(Context::Grid.pane(), Some(PaneId::Grid));
    assert_eq!(Context::Global.pane(), None);
    assert_eq!(Context::Modal.pane(), None);
}

#[test]
fn a_bound_key_reaches_the_kind_it_is_bound_to() {
    assert_eq!(
        bound(Context::Explorer, press(KeyCode::Down)),
        Some(IntentKind::TreeSelection)
    );
    assert_eq!(
        bound(Context::Global, press_ctrl(KeyCode::Char('c'))),
        Some(IntentKind::Quit)
    );
    assert_eq!(bound(Context::Modal, press(KeyCode::Char('q'))), None);
}

#[test]
fn a_combination_is_its_key_and_its_modifiers() {
    assert!(KeyCombo::ctrl(KeyCode::Char('c')).matches(press_ctrl(KeyCode::Char('c'))));
    assert!(!KeyCombo::ctrl(KeyCode::Char('c')).matches(press(KeyCode::Char('c'))));
    assert!(!KeyCombo::new(KeyCode::Tab).matches(press(KeyCode::Enter)));
}

#[test]
fn the_copy_keys_name_what_they_copy() {
    let f = fixture();
    let c = f.ctx(PaneId::Grid);
    assert_eq!(
        on_key(press(KeyCode::Char('y')), &c),
        [Intent::View(ViewCmd::Copy { format: Format::Csv, all: false })]
    );
}

#[test]
fn opening_the_same_relation_asks_on_the_connection_in_hand() {
    let mut f = fixture();
    f.snapshot.connections.clear();
    let mut c = f.ctx(PaneId::Explorer);
    c.connection = None;
    // The id of what is opened is the one the context had ready.
    assert_eq!(
        on_key(press(KeyCode::Char('c')), &c),
        [Intent::App(Action::Connect { profile: summary("mock").id, conn: NEW_CONN })]
    );
}

#[test]
fn only_a_press_of_a_bound_key_is_a_keystroke() {
    let f = fixture();
    for kind in [KeyEventKind::Release, KeyEventKind::Repeat] {
        let event = KeyEvent { code: KeyCode::Char('j'), modifiers: NONE, kind };
        assert!(on_key(event, &f.ctx(PaneId::Grid)).is_empty(), "{kind:?}");
    }
}

#[test]
fn stepping_to_a_neighbour_and_back_is_where_it_was() {
    let f = fixture();
    for tab in &f.tabs {
        for (there, back) in [(']', '['), ('[', ']')] {
            let mut c = f.ctx(PaneId::Grid);
            c.active_tab = Some(tab.id);
            let out = on_key(press(KeyCode::Char(there)), &c);
            let [Intent::View(ViewCmd::SelectTab(next))] = out.as_slice() else {
                panic!("{out:?}");
            };
            c.active_tab = Some(*next);
            assert_eq!(
                on_key(press(KeyCode::Char(back)), &c),
                [Intent::View(ViewCmd::SelectTab(tab.id))]
            );
        }
    }
}

#[test]
fn a_menu_line_that_is_not_there_does_nothing() {
    let f = fixture();
    let mut menu = Menu::for_grid((0, 0), true);
    menu.entries[0].enabled = false;
    let past = menu.entries.len();
    let mut c = f.ctx(PaneId::Grid);
    c.menu = Some(&menu);
    for index in [0, past] {
        assert!(on_mouse(Target::MenuItem { index }, Gesture::Click, &c).is_empty(), "{index}");
    }
}

#[test]
fn a_character_taken_back_was_never_typed() {
    let open = next_filter(KeyCode::Char('/'), None).expect("a box");
    assert!(open.editing && open.text.is_empty());
    let typed = next_filter(KeyCode::Char('é'), Some(&open)).expect("a box");
    assert_eq!(typed.text, "é");
    let back = next_filter(KeyCode::Backspace, Some(&typed)).expect("a box");
    assert_eq!((back.text.as_str(), back.editing), ("", true));
    assert!(next_filter(KeyCode::Backspace, Some(&back)).is_none());
    assert!(next_filter(KeyCode::Esc, Some(&typed)).is_none());
    let made = next_filter(KeyCode::Enter, Some(&typed)).expect("a box");
    assert_eq!((made.text.as_str(), made.editing), ("é", false));
}
