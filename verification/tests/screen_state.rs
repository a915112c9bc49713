//! What a screen holds, and what each command makes of it.

use std::sync::atomic::{AtomicU64, Ordering};
use std::sync::Arc;

use sqlake_tui::geometry::Rect;
use sqlake_tui::hit::{PaneId, SplitId};
use sqlake_tui::ids::{ConnId, Edition, QueryId, TabId, TemplateId};
use sqlake_tui::intent::{Action, Dialect, Intent, NewTemplate, SectionPick, ViewCmd};
use sqlake_tui::json::Json;
use sqlake_tui::model::{
    Capabilities, Column, ColumnDetail, ConnStatus, ConnectionView, Datum, DefinitionView,
    LoadState, NodeKind,
    NodeRef, NodeState, OverBudget, PagedResult, PreviewView, Profile, ProfileId, QueryView,
    RelationKind, Row, Snapshot, Sort, SortDir, TableDetail, TableRef, Template, TemplatesView,
    Value, VisibleNode,
};
use sqlake_tui::overlay::Modal;
use sqlake_tui::palette::{Kind, Palette, Placeholder};
use sqlake_tui::ui::{Filter, GridUi, UiState, MIN_PANE_WIDTH};

static EDITIONS: AtomicU64 = AtomicU64::new(1);

fn edition() -> Edition {
    Edition(EDITIONS.fetch_add(1, Ordering::Relaxed))
}

fn path(parts: &[&str]) -> Vec<String> {
    parts.iter().map(|p| (*p).to_owned()).collect()
}

fn relation(name: &str) -> TableRef {
    TableRef::new(path(&["public", name]))
}

fn table() -> TableRef {
    relation("users")
}

fn profile(name: &str) -> Profile {
    Profile { id: ProfileId(name.to_owned()), name: name.to_owned() }
}

fn datum(value: Value) -> Datum {
    Datum { value, json: Json::Null }
}

fn described(columns: Vec<ColumnDetail>) -> TableDetail {
    TableDetail {
        edition: edition(),
        kind: "table".to_owned(),
        comment: None,
        columns,
        sections: Vec::new(),
        ddl: None,
        stats: Vec::new(),
    }
}

/// A query the budget stopped, as the store would publish it.
fn over_budget(conn: ConnId, id: QueryId) -> QueryView {
    QueryView {
        id,
        conn,
        needs_approval: Some(OverBudget {
            sql: "select * from big".to_owned(),
            estimate: Some(5_000_000_000),
            budget: 1_000_000_000,
        }),
        data: LoadState::Idle,
        failed_at: None,
    }
}

fn rows(count: usize, columns: usize) -> Arc<PagedResult> {
    let cols: Vec<Column> = (0..columns)
        .map(|c| Column::new(&format!("c{c}"), "text", false))
        .collect();
    let data: Vec<Row> = (0..count)
        .map(|r| Row((0..columns).map(|_| datum(Value::Int(r as i64))).collect()))
        .collect();
    Arc::new(PagedResult::new(edition(), cols, data, None))
}

fn snapshot(conn: ConnId, tree_rows: usize, grid_rows: usize, grid_cols: usize) -> Snapshot {
    let explorer = (0..tree_rows)
        .map(|i| VisibleNode {
            conn,
            depth: 0,
            label: format!("n{i}"),
            node_ref: NodeRef::new(NodeKind::Namespace, vec![format!("n{i}")]),
            relation_kind: None,
            state: NodeState::Collapsed,
        })
        .collect();

    Snapshot {
        profiles: vec![profile("mock")],
        connections: vec![ConnectionView {
            id: conn,
            profile: profile("mock").id,
            name: "mock".into(),
            color: None,
            status: ConnStatus::Ready,
            capabilities: None,
        }],
        explorer,
        previews: vec![PreviewView {
            exhausted: false,
            attempts: 0,
            conn,
            table: table(),
            sort: None,
            loaded_rows: grid_rows,
            data: LoadState::Ready(rows(grid_rows, grid_cols)),
            last_error: None,
        }],
        ..Snapshot::empty()
    }
}

/// A search that has been made, which is the state the tree is filtered
/// in — the box's own editing state changes no rows.
fn search(text: &str) -> Filter {
    Filter { text: text.to_owned(), editing: false }
}

/// A snapshot and a `UiState` with its one preview already open as tab
/// `TabId::new(1)` — what the render loop would have done on the frame
/// that first drew it.
fn setup(tree_rows: usize, grid_rows: usize, grid_cols: usize) -> (Snapshot, UiState) {
    let conn = ConnId(1);
    let snap = snapshot(conn, tree_rows, grid_rows, grid_cols);
    let mut ui = UiState::new();
    // As a frame would leave it: the pane viewports are the areas inside
    // the borders, the screen is the whole of it.
    ui.set_screen(Rect::new(0, 0, 82, 12));
    ui.set_viewport(PaneId::Explorer, Rect::new(0, 1, 20, 10));
    ui.set_viewport(PaneId::Grid, Rect::new(21, 1, 60, 10));
    let _ = ui.apply(ViewCmd::OpenTab { conn, table: table() }, &snap);
    (snap, ui)
}

#[test]
fn a_menu_opened_without_coordinates_lands_on_the_grid() {
    // The screen origin is the tab bar, which is not what the menu is
    // about — and a key press has no coordinates of its own to offer.
    let (snap, mut ui) = setup(3, 5, 3);
    let grid = ui.viewport(PaneId::Grid);
    let _ = ui.apply(
        ViewCmd::OpenMenu {
            at: None,
            ranged: false,
        },
        &snap,
    );
    assert_eq!(ui.menu.as_ref().map(|m| m.at), Some((grid.x, grid.y)));
}

#[test]
fn a_selection_is_the_rectangle_between_two_corners() {
    let mut grid = GridUi {
        row: 5,
        col: 3,
        anchor: Some(((2, 1), None)),
        ..GridUi::default()
    };
    assert_eq!(grid.selection(None), (2, 1, 5, 3));
    assert_eq!(grid.selected_cells(None), Some((4, 3)));

    // And the other way round: dragging up and left is the same rectangle.
    grid.row = 2;
    grid.col = 1;
    grid.anchor = Some(((5, 3), None));
    assert_eq!(grid.selection(None), (2, 1, 5, 3));
}

#[test]
fn one_cell_is_not_a_range() {
    let grid = GridUi::default();
    assert_eq!(grid.selection(None), (0, 0, 0, 0));
    assert_eq!(
        grid.selected_cells(None),
        None,
        "the status bar would say `1×1 selected` about the cursor"
    );
}

#[test]
fn a_selection_does_not_survive_a_sort() {
    // It is indexes into a result the store replaces: sorting fetches page
    // one again, so rows 2..5 of the old order are different rows now, and
    // a copy taken from the old anchor comes out wrong with nothing said.
    let grid = GridUi {
        row: 5,
        col: 3,
        anchor: Some(((2, 1), None)),
        ..GridUi::default()
    };

    let after = Some(Sort { column: 0, dir: SortDir::Asc });
    assert_eq!(
        grid.selection(after),
        (5, 3, 5, 3),
        "a selection made under one ordering was kept under another"
    );
    assert_eq!(grid.selected_cells(after), None);
}

#[test]
fn the_detail_document_is_built_once_per_cell() {
    // A snapshot is republished for reasons that have nothing to do with
    // this tab, and rebuilding sanitises the whole value again — the cost
    // `MAX_CELL_CHARS` exists to avoid, one pane over.
    let mut grid = GridUi::default();
    let rows = Arc::new(PagedResult::new(
        edition(),
        vec![Column::new("c", "text", false)],
        vec![Row(vec![datum(Value::Text("x".repeat(1000)))])],
        None,
    ));
    grid.grid(&rows);

    let first = grid.detail().expect("a document");
    let again = grid.detail().expect("a document");
    assert!(
        Arc::ptr_eq(&first, &again),
        "the value was laid out again for the same cell"
    );

    grid.col = 0;
    grid.row = 0;
    assert!(Arc::ptr_eq(
        &first,
        &grid.detail().expect("a document")
    ));
}

#[test]
fn filtering_keeps_the_same_node_selected_not_the_same_row() {
    // Rows are renumbered by everything the filter removes above them, so a
    // selection left at its old number lands on a node the user never pointed
    // at — and then `Enter` opens it.
    let (snap, mut ui) = setup(30, 0, 0);
    let _ = ui.apply(ViewCmd::SelectTreeRow(17), &snap);
    assert_eq!(
        ui.visible_node(&snap, 17).map(|n| n.label.clone()),
        Some("n17".to_owned())
    );

    // `n17` is the only row left, so it is row zero now.
    let _ = ui.apply(ViewCmd::SetFilter(Some(search("n17"))), &snap);
    assert_eq!(ui.tree.selected, Some(0));
    assert_eq!(
        ui.visible_node(&snap, 0).map(|n| n.label.clone()),
        Some("n17".to_owned())
    );

    // And back again: clearing restores the tree, and the selection goes
    // with the node rather than staying at zero.
    let _ = ui.apply(ViewCmd::SetFilter(None), &snap);
    assert_eq!(ui.tree.selected, Some(17));
}

#[test]
fn a_selection_the_filter_removes_falls_to_the_first_row() {
    // There is nothing to follow, and the first row is where a search
    // leaves you anyway.
    let (snap, mut ui) = setup(30, 0, 0);
    let _ = ui.apply(ViewCmd::SelectTreeRow(17), &snap);
    let _ = ui.apply(ViewCmd::SetFilter(Some(search("n2"))), &snap);
    assert_eq!(ui.tree.selected, Some(0));
    assert_eq!(
        ui.visible_node(&snap, 0).map(|n| n.label.clone()),
        Some("n2".to_owned())
    );
}

#[test]
fn a_filter_that_matches_nothing_selects_nothing() {
    let (snap, mut ui) = setup(30, 0, 0);
    let _ = ui.apply(ViewCmd::SelectTreeRow(3), &snap);
    let _ = ui.apply(ViewCmd::SetFilter(Some(search("zzz"))), &snap);
    assert_eq!(ui.tree.selected, None);
}

#[test]
fn moving_the_selection_stays_inside_the_filtered_rows() {
    // The clamp reads the visible count, not the tree's: otherwise `G`
    // runs off the end of a filtered list into rows that are not drawn.
    let (snap, mut ui) = setup(30, 0, 0);
    let _ = ui.apply(ViewCmd::SetFilter(Some(search("n1"))), &snap);
    // n1, n10..n19 — eleven rows.
    let _ = ui.apply(ViewCmd::MoveTreeSelection(1000), &snap);
    assert_eq!(ui.tree.selected, Some(10));
    assert_eq!(
        ui.visible_node(&snap, 10).map(|n| n.label.clone()),
        Some("n19".to_owned())
    );
}

#[test]
fn scrolling_stops_at_the_last_screenful() {
    let (snap, mut ui) = setup(30, 0, 0);
    let _ = ui.apply(
        ViewCmd::ScrollBy {
            pane: PaneId::Explorer,
            delta: 1000,
        },
        &snap,
    );
    // Thirty rows in a ten-row pane: the last useful offset is twenty.
    assert_eq!(ui.tree.offset, 20);
}

#[test]
fn scrolling_the_grid_continues_from_where_it_was() {
    let (snap, mut ui) = setup(0, 50, 2);
    for _ in 0..3 {
        let _ = ui.apply(
            ViewCmd::ScrollBy {
                pane: PaneId::Grid,
                delta: 3,
            },
            &snap,
        );
    }
    // Reading the offset from the wrong place makes every notch start over
    // from the top, so three notches land on three rows rather than nine.
    assert_eq!(ui.grid(TabId::new(1)).unwrap().row_offset, 9);
}

#[test]
fn content_shorter_than_the_pane_never_scrolls() {
    let (snap, mut ui) = setup(3, 0, 0);
    let _ = ui.apply(ViewCmd::ScrollToEnd(PaneId::Explorer), &snap);
    assert_eq!(ui.tree.offset, 0, "there is nothing below to reach");
}

#[test]
fn a_track_click_lands_proportionally() {
    let (snap, mut ui) = setup(30, 0, 0);
    let _ = ui.apply(
        ViewCmd::ScrollToRatio {
            pane: PaneId::Explorer,
            permille: 500,
        },
        &snap,
    );
    assert_eq!(ui.tree.offset, 10);
}

#[test]
fn the_selection_pulls_the_viewport_with_it() {
    let (snap, mut ui) = setup(30, 0, 0);
    let _ = ui.apply(ViewCmd::SelectTreeRow(25), &snap);
    assert_eq!(ui.tree.selected, Some(25));
    // Just far enough that row 25 is the last visible row, not a jump that
    // puts it in the middle and loses the reader's place.
    assert_eq!(ui.tree.offset, 16);

    let _ = ui.apply(ViewCmd::SelectTreeRow(2), &snap);
    assert_eq!(ui.tree.offset, 2);
}

#[test]
fn the_first_move_selects_the_first_row() {
    let (snap, mut ui) = setup(30, 0, 0);
    assert_eq!(ui.tree.selected, None);
    let _ = ui.apply(ViewCmd::MoveTreeSelection(1), &snap);
    assert_eq!(ui.tree.selected, Some(0), "not row one");
}

#[test]
fn selection_cannot_leave_the_content() {
    let (snap, mut ui) = setup(3, 0, 0);
    let _ = ui.apply(ViewCmd::MoveTreeSelection(-5), &snap);
    assert_eq!(ui.tree.selected, Some(0));
    let _ = ui.apply(ViewCmd::SelectTreeRow(99), &snap);
    assert_eq!(ui.tree.selected, Some(2));
}

#[test]
fn an_empty_tree_has_nothing_selected() {
    let (snap, mut ui) = setup(0, 0, 0);
    let _ = ui.apply(ViewCmd::SelectTreeRow(0), &snap);
    assert_eq!(ui.tree.selected, None);
}

#[test]
fn the_cell_cursor_stays_inside_the_result() {
    let (snap, mut ui) = setup(0, 50, 4);
    let _ = ui.apply(ViewCmd::SelectCell { row: 99, col: 99 }, &snap);
    let grid = ui.grid(TabId::new(1)).unwrap();
    assert_eq!((grid.row, grid.col), (49, 3));
}

#[test]
fn moving_the_cell_cursor_scrolls_the_grid() {
    let (snap, mut ui) = setup(0, 50, 4);
    let _ = ui.apply(ViewCmd::SelectCell { row: 0, col: 0 }, &snap);
    let _ = ui.apply(ViewCmd::MoveCellSelection { drow: 20, dcol: 0 }, &snap);
    let grid = ui.grid(TabId::new(1)).unwrap();
    assert_eq!(grid.row, 20);
    assert_eq!(grid.row_offset, 11);
}

#[test]
fn the_cell_cursor_pulls_the_grid_sideways() {
    // Sixty columns of at least the minimum width: the cursor cannot reach
    // column fifty without the grid scrolling after it.
    let (snap, mut ui) = setup(0, 10, 60);
    let _ = ui.apply(ViewCmd::SelectCell { row: 0, col: 50 }, &snap);
    let grid = ui.grid(TabId::new(1)).unwrap();
    assert_eq!(grid.col, 50);
    assert!(
        grid.col_offset > 0 && grid.col_offset <= 50,
        "{}",
        grid.col_offset
    );

    let _ = ui.apply(ViewCmd::SelectCell { row: 0, col: 0 }, &snap);
    assert_eq!(ui.grid(TabId::new(1)).unwrap().col_offset, 0, "and back");
}

#[test]
fn a_grid_with_no_rows_ignores_the_cursor() {
    let (snap, mut ui) = setup(0, 0, 0);
    let _ = ui.apply(ViewCmd::SelectCell { row: 3, col: 3 }, &snap);
    assert!(ui.grid(TabId::new(1)).map_or(true, |g| g.row == 0));
}

#[test]
fn a_resized_column_keeps_its_width() {
    let (snap, mut ui) = setup(0, 10, 3);
    let natural = {
        let rows = ui.rows_of(&snap).unwrap();
        ui.grid_mut(TabId::new(1)).grid(&rows).columns()[1].natural_width
    };
    let _ = ui.apply(ViewCmd::ResizeColumn { col: 1, delta: 5 }, &snap);
    let grid = ui.grid(TabId::new(1)).unwrap();
    assert_eq!(grid.width(1, natural), natural + 5);
    assert_eq!(grid.width(0, natural), natural, "only the one column moved");
}

#[test]
fn a_column_cannot_be_dragged_to_nothing() {
    let (snap, mut ui) = setup(0, 10, 3);
    let _ = ui.apply(
        ViewCmd::ResizeColumn {
            col: 0,
            delta: -500,
        },
        &snap,
    );
    assert_eq!(ui.grid(TabId::new(1)).unwrap().width(0, 10), 1);
}

#[test]
fn the_rendered_grid_is_built_once_per_page() {
    let (snap, mut ui) = setup(0, 10, 2);
    let rows = ui.rows_of(&snap).unwrap();
    let first = format!("{:p}", ui.grid_mut(TabId::new(1)).grid(&rows).columns());
    let again = format!("{:p}", ui.grid_mut(TabId::new(1)).grid(&rows).columns());
    assert_eq!(first, again, "an unchanged snapshot must not rebuild it");
}

#[test]
fn focus_cycles_between_the_two_panes() {
    let (snap, mut ui) = setup(0, 0, 0);
    assert_eq!(ui.focus, PaneId::Explorer);
    let _ = ui.apply(ViewCmd::FocusNextPane, &snap);
    assert_eq!(ui.focus, PaneId::Grid);
    let _ = ui.apply(ViewCmd::FocusNextPane, &snap);
    assert_eq!(ui.focus, PaneId::Explorer);
    let _ = ui.apply(ViewCmd::FocusPrevPane, &snap);
    assert_eq!(ui.focus, PaneId::Grid);
}

#[test]
fn focus_from_outside_the_cycle_enters_it() {
    let (snap, mut ui) = setup(0, 0, 0);
    let _ = ui.apply(ViewCmd::FocusPane(PaneId::StatusBar), &snap);
    let _ = ui.apply(ViewCmd::FocusNextPane, &snap);
    assert_eq!(ui.focus, PaneId::Explorer);
}

#[test]
fn the_splitter_leaves_both_panes_usable() {
    let (snap, mut ui) = setup(0, 0, 0);
    let _ = ui.apply(
        ViewCmd::MoveSplit {
            split: SplitId::Explorer,
            delta: -500,
        },
        &snap,
    );
    assert_eq!(ui.explorer_width(80), MIN_PANE_WIDTH);

    let _ = ui.apply(
        ViewCmd::MoveSplit {
            split: SplitId::Explorer,
            delta: 500,
        },
        &snap,
    );
    // The splitter's own column comes out of the explorer's side, so the
    // grid still gets `MIN_PANE_WIDTH`.
    assert_eq!(ui.explorer_width(80), 80 - MIN_PANE_WIDTH - 1);
}

#[test]
fn the_splitter_ends_up_where_it_was_dragged() {
    // Deriving the screen width from the pane viewports loses a column per
    // border, and a drag one cell to the right then moves the splitter one
    // cell to the left.
    let snap = snapshot(ConnId(1), 0, 0, 0);
    let mut ui = UiState::new();
    ui.set_screen(Rect::new(0, 0, 100, 30));
    ui.set_viewport(PaneId::Explorer, Rect::new(1, 2, 26, 26));
    ui.set_viewport(PaneId::Grid, Rect::new(30, 2, 68, 26));

    let before = ui.explorer_width(100);
    let _ = ui.apply(
        ViewCmd::MoveSplit {
            split: SplitId::Explorer,
            delta: 1,
        },
        &snap,
    );
    assert_eq!(ui.explorer_width(100), before + 1);
}

#[test]
fn evening_the_split_returns_to_a_fraction_of_the_screen() {
    let (snap, mut ui) = setup(0, 0, 0);
    let default = ui.explorer_width(100);
    let _ = ui.apply(
        ViewCmd::MoveSplit {
            split: SplitId::Explorer,
            delta: 10,
        },
        &snap,
    );
    assert_ne!(ui.explorer_width(100), default);
    let _ = ui.apply(ViewCmd::EvenSplit(SplitId::Explorer), &snap);
    assert_eq!(ui.explorer_width(100), default);
    // And it follows the terminal rather than being frozen.
    assert!(ui.explorer_width(200) > default);
}

#[test]
fn a_screen_too_narrow_for_both_still_yields_a_layout() {
    let (_snap, ui) = setup(0, 0, 0);
    let width = ui.explorer_width(10);
    assert!(width <= 10, "{width}");
}

#[test]
fn closing_a_tab_releases_its_view_state() {
    let (snap, mut ui) = setup(0, 10, 2);
    let _ = ui.apply(ViewCmd::SelectCell { row: 1, col: 1 }, &snap);
    let tab = ui.active_tab.unwrap();
    assert!(ui.grid(tab).is_some());

    let _ = ui.apply(ViewCmd::CloseTab(tab), &snap);
    assert!(ui.grid(tab).is_none(), "the cached grid goes with it");
}

#[test]
fn opening_a_relation_already_open_selects_it_instead_of_duplicating() {
    let (snap, mut ui) = setup(0, 0, 0);
    let first = ui.active_tab.unwrap();
    let conn = ui.tabs[0].conn;

    // A second tab, so the first is no longer active — reopening it must
    // find it rather than assume it is still in front.
    let _ = ui.apply(
        ViewCmd::OpenTab {
            conn: ConnId(2),
            table: relation("orders"),
        },
        &snap,
    );
    assert_ne!(ui.active_tab, Some(first));

    let _ = ui.apply(
        ViewCmd::OpenTab {
            conn,
            table: table(),
        },
        &snap,
    );
    assert_eq!(ui.tabs.len(), 2, "the first relation must not open twice");
    assert_eq!(ui.active_tab, Some(first));
}

#[test]
fn closing_a_tab_selects_its_neighbour() {
    let (snap, mut ui) = setup(0, 0, 0);
    let first = ui.active_tab.unwrap();
    let _ = ui.apply(
        ViewCmd::OpenTab {
            conn: ConnId(2),
            table: relation("orders"),
        },
        &snap,
    );

    let _ = ui.apply(ViewCmd::CloseTab(first), &snap);
    assert_eq!(ui.tabs.len(), 1);
    assert_eq!(ui.active_tab, Some(ui.tabs[0].id));
}

#[test]
fn closing_the_last_tab_leaves_nothing_selected() {
    let (snap, mut ui) = setup(0, 0, 0);
    let tab = ui.active_tab.unwrap();
    let _ = ui.apply(ViewCmd::CloseTab(tab), &snap);
    assert!(ui.tabs.is_empty());
    assert_eq!(ui.active_tab, None);
}

#[test]
fn a_new_preview_error_becomes_a_toast_once() {
    let (mut snap, mut ui) = setup(0, 0, 0);

    snap.previews[0].last_error = Some("timed out".to_owned());
    ui.raise_preview_errors(&snap);
    assert_eq!(ui.toasts.len(), 1);
    assert_eq!(ui.toasts[0].text, "timed out");

    // The same snapshot again — a redraw with nothing new — must not
    // raise a second toast for a message already shown.
    ui.raise_preview_errors(&snap);
    assert_eq!(ui.toasts.len(), 1);

    // Success clears the record, so the *same* text failing again later
    // is treated as new rather than silently swallowed.
    snap.previews[0].last_error = None;
    ui.raise_preview_errors(&snap);
    snap.previews[0].last_error = Some("timed out".to_owned());
    ui.raise_preview_errors(&snap);
    assert_eq!(ui.toasts.len(), 2);
}

#[test]
fn sql_tabs_and_a_preview_tab_are_open_at_once() {
    let conn = ConnId(1);
    let snap = snapshot(conn, 3, 10, 3);
    let mut ui = UiState::new();

    let _ = ui.apply(
        ViewCmd::OpenTab {
            conn,
            table: table(),
        },
        &snap,
    );
    let _ = ui.apply(ViewCmd::OpenSqlTab { conn }, &snap);
    let _ = ui.apply(ViewCmd::OpenSqlTab { conn }, &snap);

    assert_eq!(ui.tabs.len(), 3);
    // Two SQL tabs, not one raised twice: they are two questions, and the
    // rule that raises an already-open relation has nothing to match on.
    let titles: Vec<String> = ui.tabs.iter().map(|t| t.title()).collect();
    assert_eq!(titles, ["users", "SQL#1", "SQL#2"]);
}

#[test]
fn the_sql_numbering_does_not_count_previews() {
    // The id is bookkeeping and the number is read off the screen: a
    // session that opened a relation first must not name its first query
    // tab `SQL#2`.
    let conn = ConnId(1);
    let snap = snapshot(conn, 3, 10, 3);
    let mut ui = UiState::new();
    let _ = ui.apply(
        ViewCmd::OpenTab {
            conn,
            table: table(),
        },
        &snap,
    );
    let _ = ui.apply(ViewCmd::OpenSqlTab { conn }, &snap);
    assert_eq!(ui.tabs[1].title(), "SQL#1");
}

#[test]
fn closing_one_tab_leaves_the_others_where_they_were() {
    let conn = ConnId(1);
    let snap = snapshot(conn, 3, 10, 3);
    let mut ui = UiState::new();
    let _ = ui.apply(ViewCmd::OpenSqlTab { conn }, &snap);
    let first = ui.active_tab.expect("a tab");
    let _ = ui.apply(
        ViewCmd::OpenTab {
            conn,
            table: table(),
        },
        &snap,
    );
    let preview = ui.active_tab.expect("a tab");
    let _ = ui.apply(ViewCmd::OpenSqlTab { conn }, &snap);

    // Something view-local on the preview, to see whether closing a
    // neighbour disturbs it.
    let _ = ui.apply(ViewCmd::SelectTab(preview), &snap);
    let _ = ui.apply(ViewCmd::SelectCell { row: 4, col: 2 }, &snap);

    let _ = ui.apply(ViewCmd::CloseTab(first), &snap);

    assert_eq!(ui.tabs.len(), 2);
    assert_eq!(
        ui.grid(preview).map(|g| (g.row, g.col)),
        Some((4, 2)),
        "closing a SQL tab moved the preview's cursor"
    );
}

#[test]
fn a_sql_tab_scrolls_by_its_own_lines() {
    // The grid pane's offset is reused, so `j` and `PageDown` need nothing
    // added — but the clamp asks how much content there is, and for a SQL
    // tab that is lines rather than rows.
    let conn = ConnId(1);
    let snap = snapshot(conn, 3, 10, 3);
    let mut ui = UiState::new();
    let _ = ui.apply(ViewCmd::OpenSqlTab { conn }, &snap);
    ui.set_viewport(PaneId::Grid, Rect::new(0, 0, 40, 4));
    ui.set_sql_lines(20);

    let _ = ui.apply(
        ViewCmd::ScrollBy {
            pane: PaneId::Grid,
            delta: 100,
        },
        &snap,
    );
    // Twenty lines in a pane four tall: sixteen is the last screenful.
    assert_eq!(ui.sql_offset(), 16);
}

fn with_templates(mut snap: Snapshot, bodies: &[(&str, &str)]) -> Snapshot {
    snap.templates = TemplatesView {
        data: LoadState::Ready(
            bodies
                .iter()
                .enumerate()
                .map(|(at, (name, body))| Template {
                    id: TemplateId(at as u64 + 1),
                    name: (*name).to_owned(),
                    body: (*body).to_owned(),
                    driver: None,
                })
                .collect(),
        ),
        failed: None,
    };
    snap
}

fn template_id(snap: &Snapshot, name: &str) -> TemplateId {
    snap.templates
        .data
        .ready()
        .expect("a list")
        .iter()
        .find(|t| t.name == name)
        .expect("that template")
        .id
}

/// What reading one of these bodies comes back with.
fn reading(body: &str) -> Result<Vec<Placeholder>, String> {
    let asks = |name: &str, kind: Kind| Placeholder { name: name.to_owned(), kind };
    match body {
        "select 1" => Ok(Vec::new()),
        "select * from {{ident:table}}" => Ok(vec![asks("table", Kind::Ident)]),
        "select * from {{ident:table}} where x = {{x}}" => {
            Ok(vec![asks("table", Kind::Ident), asks("x", Kind::Value)])
        }
        "select * from {{ident:table}} where name = {{name}}" => {
            Ok(vec![asks("table", Kind::Ident), asks("name", Kind::Value)])
        }
        _ => Err("a placeholder inside a string".to_owned()),
    }
}

/// Choosing a template, and the store reading what it asks for.
fn use_template(ui: &mut UiState, snap: &Snapshot, name: &str) {
    let chosen = template_id(snap, name);
    let asked = ui.apply(ViewCmd::UseTemplate(chosen), snap);
    let Some(Action::ReadTemplate { id, body, .. }) = asked else {
        panic!("{asked:?}");
    };
    assert_eq!(id, chosen);
    ui.template_read(id, reading(&body), snap);
}

#[test]
fn opening_the_palette_is_what_reads_the_templates() {
    // Every way of opening it, so that neither has to remember to.
    let conn = ConnId(1);
    let snap = with_templates(snapshot(conn, 3, 10, 3), &[]);
    let mut ui = UiState::new();
    assert!(matches!(
        ui.apply(
            ViewCmd::Palette(Some(Palette::opening())),
            &snap
        ),
        Some(Action::LoadTemplates)
    ));
    assert!(
        ui.apply(ViewCmd::Palette(None), &snap).is_none(),
        "closing it asks for nothing"
    );
    assert!(matches!(
        ui.apply(
            ViewCmd::Palette(Some(Palette::saving("select 1".to_owned()))),
            &snap
        ),
        Some(Action::LoadTemplates)
    ));
}

#[test]
fn saving_names_what_is_in_the_buffer() {
    let conn = ConnId(1);
    let snap = with_templates(snapshot(conn, 3, 10, 3), &[]);
    let mut ui = UiState::new();
    let _ = ui.apply(
        ViewCmd::Palette(Some(Palette::saving(
            "select * from users".to_owned(),
        ))),
        &snap,
    );
    if let Some(palette) = ui.palette.as_mut() {
        palette.filter = "  daily  ".to_owned();
    }

    let asked = ui.apply(ViewCmd::CommitTemplate, &snap);
    let Some(Action::SaveTemplate(template)) = asked else {
        panic!("{asked:?}");
    };
    // Trimmed: a name with a space on the end is one nothing will match
    // when it is typed again.
    assert_eq!(template.name, "daily");
    assert_eq!(template.body, "select * from users");
    assert!(ui.palette.is_none(), "the answer is read where it was");
}

#[test]
fn saving_under_a_name_already_saved_asks_before_replacing_it() {
    // The store refuses a duplicate name, so without this the only way to
    // change a saved statement would be to delete it and write it again —
    // and the refusal would arrive as a failure for something somebody
    // meant to do.
    let conn = ConnId(1);
    let snap = with_templates(snapshot(conn, 3, 10, 3), &[("daily", "select 1")]);
    let mut ui = UiState::new();
    let _ = ui.apply(
        ViewCmd::Palette(Some(Palette::saving("select 2".to_owned()))),
        &snap,
    );
    if let Some(palette) = ui.palette.as_mut() {
        palette.filter = "daily".to_owned();
    }

    assert!(
        ui.apply(ViewCmd::CommitTemplate, &snap).is_none(),
        "nothing is saved until the question is answered"
    );
    let modal = ui.modal.as_ref().expect("a dialog");
    assert!(modal.title.contains("daily"), "{modal:?}");
    let Some(Intent::App(Action::ReplaceTemplate { id, with })) =
        modal.choices.first().map(|c| c.intent.clone())
    else {
        panic!("{modal:?}");
    };
    assert_eq!(id, template_id(&snap, "daily"));
    assert_eq!(with.body, "select 2");
}

#[test]
fn a_save_with_no_name_is_not_a_save() {
    let conn = ConnId(1);
    let snap = with_templates(snapshot(conn, 3, 10, 3), &[]);
    let mut ui = UiState::new();
    let _ = ui.apply(
        ViewCmd::Palette(Some(Palette::saving("select 1".to_owned()))),
        &snap,
    );
    assert!(ui.apply(ViewCmd::CommitTemplate, &snap).is_none());
}

#[test]
fn deleting_asks_first_and_the_answer_is_the_deletion() {
    // A saved statement is somebody's own writing and there is no undo, so
    // the one thing this must not be is a key that quietly loses it.
    let conn = ConnId(1);
    let snap = with_templates(snapshot(conn, 3, 10, 3), &[("daily", "select 1")]);
    let mut ui = UiState::new();
    let _ = ui.apply(
        ViewCmd::Palette(Some(Palette::opening())),
        &snap,
    );
    let id = template_id(&snap, "daily");
    let _ = ui.apply(
        ViewCmd::ConfirmDeleteTemplate {
            id,
            name: "daily".to_owned(),
        },
        &snap,
    );

    assert!(ui.palette.is_none(), "the question is drawn over nothing");
    let modal = ui.modal.as_ref().expect("a dialog");
    assert!(modal.title.contains("daily"), "{modal:?}");
    assert_eq!(
        modal.choices.first().map(|c| c.intent.clone()),
        Some(Intent::App(Action::DeleteTemplate(id)))
    );
}

#[test]
fn a_template_with_nothing_to_fill_in_goes_straight_to_the_buffer() {
    let conn = ConnId(1);
    let snap = with_templates(snapshot(conn, 3, 10, 3), &[("plain", "select 1")]);
    let mut ui = UiState::new();
    let _ = ui.apply(ViewCmd::OpenSqlTab { conn }, &snap);
    let _ = ui.apply(
        ViewCmd::Palette(Some(Palette::opening())),
        &snap,
    );

    use_template(&mut ui, &snap, "plain");
    assert_eq!(ui.active_sql(), Some("select 1"));
    assert!(ui.palette.is_none(), "it is done, so it closes");
}

#[test]
fn a_template_with_placeholders_asks_before_the_buffer_sees_it() {
    // An unanswered `{{table}}`
    // reaching the buffer is a syntax error against text nobody wrote.
    let conn = ConnId(1);
    let snap = with_templates(
        snapshot(conn, 3, 10, 3),
        &[("by table", "select * from {{ident:table}} where x = {{x}}")],
    );
    let mut ui = UiState::new();
    let _ = ui.apply(ViewCmd::OpenSqlTab { conn }, &snap);
    let _ = ui.apply(
        ViewCmd::Palette(Some(Palette::opening())),
        &snap,
    );
    use_template(&mut ui, &snap, "by table");

    let form = ui
        .palette
        .as_ref()
        .and_then(|p| p.asking.as_ref())
        .expect("a form");
    assert_eq!(
        form.fields
            .iter()
            .map(|f| f.name.as_str())
            .collect::<Vec<_>>(),
        ["table", "x"]
    );
    assert_eq!(ui.active_sql(), Some(""), "nothing reaches the buffer yet");
}

#[test]
fn answering_the_form_quotes_by_what_each_answer_is() {
    let conn = ConnId(1);
    let snap = with_templates(
        snapshot(conn, 3, 10, 3),
        &[(
            "by table",
            "select * from {{ident:table}} where name = {{name}}",
        )],
    );
    let mut ui = UiState::new();
    let _ = ui.apply(ViewCmd::OpenSqlTab { conn }, &snap);
    let _ = ui.apply(
        ViewCmd::Palette(Some(Palette::opening())),
        &snap,
    );
    use_template(&mut ui, &snap, "by table");

    if let Some(form) = ui.palette.as_mut().and_then(|p| p.asking.as_mut()) {
        form.fields[0].value = "users".to_owned();
        form.fields[1].value = "o'brien".to_owned();
    }
    let asked = ui.apply(ViewCmd::SubmitTemplate, &snap);
    assert_eq!(
        asked,
        Some(Action::BindTemplate {
            body: "select * from {{ident:table}} where name = {{name}}".to_owned(),
            values: vec![
                ("name".to_owned(), "o'brien".to_owned()),
                ("table".to_owned(), "users".to_owned()),
            ],
            dialect: Dialect::PostgreSql,
        })
    );
    ui.template_bound(
        Ok(r#"select * from "users" where name = 'o''brien'"#.to_owned()),
        &snap,
    );

    assert_eq!(
        ui.active_sql(),
        Some(r#"select * from "users" where name = 'o''brien'"#)
    );
    assert!(ui.palette.is_none());
}

#[test]
fn a_template_never_writes_over_what_is_already_in_a_buffer() {
    // There is no editor here and so no undo: a keystroke that replaced a
    // half-written query would destroy work with nothing to get it back.
    let conn = ConnId(1);
    let snap = with_templates(snapshot(conn, 3, 10, 3), &[("plain", "select 1")]);
    let mut ui = UiState::new();
    let _ = ui.apply(ViewCmd::OpenSqlTab { conn }, &snap);
    let started = ui.active_tab.expect("a tab");
    ui.set_buffer(started, "select mine".to_owned());

    let _ = ui.apply(
        ViewCmd::Palette(Some(Palette::opening())),
        &snap,
    );
    use_template(&mut ui, &snap, "plain");

    assert_eq!(ui.buffer_of(started), Some("select mine"));
    assert_eq!(ui.active_sql(), Some("select 1"));
    assert_ne!(ui.active_tab, Some(started), "it opened its own tab");
}

#[test]
fn a_body_that_cannot_be_read_says_so_in_the_palette() {
    // Not a toast: it is about the row under the cursor, and the palette
    // is where that row is.
    let conn = ConnId(1);
    let snap = with_templates(snapshot(conn, 3, 10, 3), &[("broken", "select '{{x}}'")]);
    let mut ui = UiState::new();
    let _ = ui.apply(ViewCmd::OpenSqlTab { conn }, &snap);
    let _ = ui.apply(
        ViewCmd::Palette(Some(Palette::opening())),
        &snap,
    );
    use_template(&mut ui, &snap, "broken");

    let form = ui
        .palette
        .as_ref()
        .and_then(|p| p.asking.as_ref())
        .expect("a form");
    assert!(form.failed.is_some(), "{form:?}");
    assert_eq!(ui.active_sql(), Some(""));
}

#[test]
fn the_relation_the_explorer_is_on_answers_the_table_placeholder() {
    let conn = ConnId(1);
    let mut snap = with_templates(
        snapshot(conn, 1, 10, 3),
        &[("by table", "select * from {{ident:table}}")],
    );
    snap.explorer.push(VisibleNode {
        conn,
        depth: 1,
        label: "users".into(),
        node_ref: NodeRef::new(NodeKind::Relation, path(&["public", "users"])),
        relation_kind: Some(RelationKind::Table),
        state: NodeState::Leaf,
    });

    let mut ui = UiState::new();
    let _ = ui.apply(ViewCmd::OpenSqlTab { conn }, &snap);
    let _ = ui.apply(ViewCmd::SelectTreeRow(1), &snap);
    let _ = ui.apply(
        ViewCmd::Palette(Some(Palette::opening())),
        &snap,
    );
    use_template(&mut ui, &snap, "by table");

    let form = ui
        .palette
        .as_ref()
        .and_then(|p| p.asking.as_ref())
        .expect("a form");
    assert_eq!(form.fields[0].value, "public.users");
}

#[test]
fn a_definition_answers_for_a_scroll_no_draw_has_seen_yet() {
    // The layout is built during the draw, and events queued behind a
    // `--refresh` are handled before the next one. Reading only what the
    // last draw built would answer "no rows" here, which clamps the grid
    // to the top and makes a copy do nothing at all — silently, since
    // neither says why it found nothing.
    let conn = ConnId(1);
    let mut snap = snapshot(conn, 3, 10, 3);
    let detail = |name: &str| {
        Arc::new(described(vec![ColumnDetail {
            name: name.to_owned(),
            type_label: "integer".to_owned(),
            nullable: false,
            default: None,
            comment: None,
        }]))
    };
    snap.definitions.push(DefinitionView {
        conn,
        table: table(),
        data: LoadState::Ready(detail("id")),
    });

    let mut ui = UiState::new();
    let _ = ui.apply(
        ViewCmd::OpenDefinition {
            conn,
            table: table(),
        },
        &snap,
    );
    assert_eq!(ui.rows_of(&snap).map_or(0, |r| r.row_count()), 1, "before the first draw");

    // What a refresh does: the same table, a different `Arc`.
    snap.definitions[0].data = LoadState::Ready(detail("renamed"));
    assert_eq!(ui.rows_of(&snap).map_or(0, |r| r.row_count()), 1, "after the detail was replaced");
}

#[test]
fn a_definition_scrolls_its_statement_by_line() {
    // The DDL section has no rows at all, so a clamp that counted them
    // would leave a long `CREATE TABLE` stuck on its first screenful.
    let conn = ConnId(1);
    let mut snap = snapshot(conn, 3, 10, 3);
    let mut detail = described(Vec::new());
    detail.ddl = Some("CREATE TABLE t ()".to_owned());
    snap.definitions.push(DefinitionView {
        conn,
        table: table(),
        data: LoadState::Ready(Arc::new(detail)),
    });

    let mut ui = UiState::new();
    let _ = ui.apply(
        ViewCmd::OpenDefinition {
            conn,
            table: table(),
        },
        &snap,
    );
    // Columns, then the DDL: this definition has no driver sections.
    let _ = ui.apply(
        ViewCmd::SelectSection(SectionPick::At(1)),
        &snap,
    );
    ui.set_viewport(PaneId::Grid, Rect::new(0, 0, 40, 4));
    ui.set_sql_lines(20);

    let _ = ui.apply(
        ViewCmd::ScrollBy {
            pane: PaneId::Grid,
            delta: 100,
        },
        &snap,
    );
    assert_eq!(ui.sql_offset(), 16);
}

#[test]
fn a_shorter_buffer_does_not_leave_the_pane_scrolled_off_it() {
    let conn = ConnId(1);
    let snap = snapshot(conn, 3, 10, 3);
    let mut ui = UiState::new();
    let _ = ui.apply(ViewCmd::OpenSqlTab { conn }, &snap);
    ui.set_viewport(PaneId::Grid, Rect::new(0, 0, 40, 4));
    ui.set_sql_lines(20);
    let _ = ui.apply(
        ViewCmd::ScrollBy {
            pane: PaneId::Grid,
            delta: 100,
        },
        &snap,
    );
    ui.set_sql_lines(2);
    assert!(ui.sql_offset() <= 1, "{}", ui.sql_offset());
}

#[test]
fn a_sql_tab_asks_for_no_pages() {
    // `wants_a_page` reaches for the tab's relation, and a SQL tab has
    // none. Without the `?` it would page whatever relation happened to
    // be first in the snapshot.
    let conn = ConnId(1);
    let snap = snapshot(conn, 3, 10, 3);
    let mut ui = UiState::new();
    let _ = ui.apply(ViewCmd::OpenSqlTab { conn }, &snap);
    ui.set_viewport(PaneId::Grid, Rect::new(0, 0, 40, 10));
    let fetch = ui.apply(
        ViewCmd::ScrollBy {
            pane: PaneId::Grid,
            delta: 1000,
        },
        &snap,
    );
    assert!(fetch.is_none(), "{fetch:?}");
}

#[test]
fn a_question_about_cost_is_asked_once_and_stays_dismissed() {
    let conn = ConnId(1);
    let mut snap = snapshot(conn, 3, 10, 3);
    let mut ui = UiState::new();
    let _ = ui.apply(ViewCmd::OpenSqlTab { conn }, &snap);
    let tab = ui.active_tab.expect("a tab");
    let id = QueryId(5);
    ui.set_query(tab, id);
    snap.queries.push(over_budget(conn, id));

    ui.raise_approvals(&snap);
    let modal = ui.modal.clone().expect("a dialog");
    assert_eq!(modal.choices.len(), 1);
    assert!(!modal.grave, "a question about money is not a failure");

    // A snapshot is republished for reasons that have nothing to do with
    // this — a spinner tick will do it — and a dialog re-raised on each
    // one could never be dismissed.
    ui.modal = None;
    ui.raise_approvals(&snap);
    assert!(
        ui.modal.is_none(),
        "the question came back after being dismissed"
    );
}

#[test]
fn the_dialog_goes_when_the_store_stops_asking() {
    // It follows the snapshot rather than closing itself, which is what
    // keeps an answer from being given twice.
    let conn = ConnId(1);
    let mut snap = snapshot(conn, 3, 10, 3);
    let mut ui = UiState::new();
    let _ = ui.apply(ViewCmd::OpenSqlTab { conn }, &snap);
    let tab = ui.active_tab.expect("a tab");
    let id = QueryId(5);
    ui.set_query(tab, id);
    snap.queries.push(over_budget(conn, id));
    ui.raise_approvals(&snap);
    assert!(ui.modal.is_some());

    snap.queries[0].needs_approval = None;
    ui.raise_approvals(&snap);
    assert!(ui.modal.is_none());
}

#[test]
fn a_question_about_somebody_elses_query_is_not_raised_here() {
    // An agent running something over the socket is not this person's
    // question to answer, and a dialog about it would appear out of
    // nowhere.
    let conn = ConnId(1);
    let mut snap = snapshot(conn, 3, 10, 3);
    let mut ui = UiState::new();
    let _ = ui.apply(ViewCmd::OpenSqlTab { conn }, &snap);
    snap.queries.push(over_budget(conn, QueryId(6)));
    ui.raise_approvals(&snap);
    assert!(ui.modal.is_none());
}

#[test]
fn a_sql_tab_shows_the_rows_of_the_run_it_started() {
    let conn = ConnId(1);
    let mut snap = snapshot(conn, 3, 10, 3);
    let mut ui = UiState::new();
    let _ = ui.apply(ViewCmd::OpenSqlTab { conn }, &snap);
    let tab = ui.active_tab.expect("a tab");
    assert!(ui.rows_of(&snap).is_none(), "before there is a run");

    let id = QueryId(5);
    ui.set_query(tab, id);
    snap.queries.push(QueryView {
        id,
        conn,
        needs_approval: None,
        data: LoadState::Ready(rows(4, 2)),
        failed_at: None,
    });
    assert_eq!(ui.rows_of(&snap).map(|r| r.row_count()), Some(4));
}

#[test]
fn a_run_that_failed_says_so_once() {
    // A failure leaves no rows, so the pane falls back to the buffer and
    // the spinner is already gone: without a toast, pressing Run on a
    // statement the server refused reads as having done nothing at all.
    let conn = ConnId(1);
    let mut snap = snapshot(conn, 3, 10, 3);
    let mut ui = UiState::new();
    let _ = ui.apply(ViewCmd::OpenSqlTab { conn }, &snap);
    let tab = ui.active_tab.expect("a tab");
    let id = QueryId(5);
    ui.set_query(tab, id);
    snap.queries.push(QueryView {
        id,
        conn,
        needs_approval: None,
        data: LoadState::Failed("no such column: nope".to_owned()),
        failed_at: None,
    });

    ui.raise_query_errors(&snap);
    assert_eq!(ui.toasts.len(), 1);
    assert_eq!(ui.toasts[0].text, "no such column: nope");
    // The same snapshot again — a redraw with nothing new — must not raise
    // a second toast for a run that has already failed once.
    ui.raise_query_errors(&snap);
    assert_eq!(ui.toasts.len(), 1);
}

#[test]
fn the_run_button_shows_exactly_when_pressing_it_would_do_something() {
    let conn = ConnId(1);
    let snap = snapshot(conn, 3, 10, 3);
    let mut ui = UiState::new();
    assert!(!ui.can_run(&snap), "with no tab at all");

    let _ = ui.apply(
        ViewCmd::OpenTab {
            conn,
            table: table(),
        },
        &snap,
    );
    assert!(!ui.can_run(&snap), "on a preview");

    let _ = ui.apply(ViewCmd::OpenSqlTab { conn }, &snap);
    assert!(!ui.can_run(&snap), "with an empty buffer");

    let tab = ui.active_tab.expect("a tab");
    ui.set_buffer(tab, "select 1".to_owned());
    assert!(ui.can_run(&snap));
}

#[test]
fn a_closed_connection_keeps_a_sql_tab_and_its_buffer() {
    // The buffer is the user's own writing rather than a copy of
    // something the database still has. Closing the connection is not a
    // reason to throw away what somebody typed.
    let conn = ConnId(1);
    let mut snap = snapshot(conn, 3, 10, 3);
    let mut ui = UiState::new();
    let _ = ui.apply(ViewCmd::OpenSqlTab { conn }, &snap);
    let sql = ui.active_tab.expect("a tab");
    ui.set_buffer(sql, "select 1".to_owned());
    let _ = ui.apply(
        ViewCmd::OpenTab {
            conn,
            table: table(),
        },
        &snap,
    );

    snap.connections[0].status = ConnStatus::Closed;
    ui.close_disconnected_tabs(&snap);

    assert_eq!(ui.tabs.len(), 1, "the preview should have gone");
    assert_eq!(ui.buffer_of(sql), Some("select 1"));
}

#[test]
fn a_buffer_is_set_by_id_rather_than_by_which_tab_is_active() {
    // The editor had the terminal, and a snapshot arriving while it ran
    // can have moved the focus — or closed the tab underneath it.
    let conn = ConnId(1);
    let snap = snapshot(conn, 3, 10, 3);
    let mut ui = UiState::new();
    let _ = ui.apply(ViewCmd::OpenSqlTab { conn }, &snap);
    let first = ui.active_tab.expect("a tab");
    let _ = ui.apply(ViewCmd::OpenSqlTab { conn }, &snap);
    let second = ui.active_tab.expect("a tab");

    ui.set_buffer(first, "select 1".to_owned());
    assert_eq!(ui.buffer_of(first), Some("select 1"));
    assert_eq!(ui.buffer_of(second), Some(""));

    // A tab that is gone swallows the text rather than putting it
    // somewhere else.
    let _ = ui.apply(ViewCmd::CloseTab(first), &snap);
    ui.set_buffer(first, "select 2".to_owned());
    assert_eq!(ui.buffer_of(second), Some(""));
}

#[test]
fn a_preview_tab_has_no_buffer_to_write_to() {
    let conn = ConnId(1);
    let snap = snapshot(conn, 3, 10, 3);
    let mut ui = UiState::new();
    let _ = ui.apply(
        ViewCmd::OpenTab {
            conn,
            table: table(),
        },
        &snap,
    );
    let tab = ui.active_tab.expect("a tab");
    assert_eq!(ui.buffer_of(tab), None);
    // Silently, because the input layer already refuses to produce the
    // handover for a preview — this is the second half of that, so a
    // caller that got it wrong cannot turn rows into text.
    ui.set_buffer(tab, "select 1".to_owned());
    assert_eq!(ui.buffer_of(tab), None);
}

#[test]
fn a_closed_connection_takes_its_tabs_with_it() {
    // Otherwise the tab outlives the connection it points at: its
    // preview is gone from the store along with the session, so
    // switching to it would show a blank pane for ever.
    let (mut snap, mut ui) = setup(0, 0, 0);
    assert_eq!(ui.tabs.len(), 1);

    snap.connections[0].status = ConnStatus::Closed;
    ui.close_disconnected_tabs(&snap);
    assert!(ui.tabs.is_empty(), "the tab outlived its own connection");
    assert_eq!(ui.active_tab, None);
}

#[test]
fn a_tab_is_untouched_while_its_connection_is_still_open() {
    let (snap, mut ui) = setup(0, 0, 0);
    let before = ui.tabs.len();
    ui.close_disconnected_tabs(&snap);
    assert_eq!(before, ui.tabs.len(), "a live connection's tab was closed");
}

#[test]
fn a_template_is_filled_in_the_way_its_connection_quotes() {
    let conn = ConnId(1);
    let mut snap = with_templates(
        snapshot(conn, 3, 10, 3),
        &[("by table", "select * from {{ident:table}}")],
    );
    snap.connections[0].capabilities = Some(Capabilities { sort_preview: false });
    let mut ui = UiState::new();
    let _ = ui.apply(ViewCmd::OpenSqlTab { conn }, &snap);
    let _ = ui.apply(ViewCmd::Palette(Some(Palette::opening())), &snap);
    use_template(&mut ui, &snap, "by table");
    assert!(matches!(
        ui.apply(ViewCmd::SubmitTemplate, &snap),
        Some(Action::BindTemplate { dialect: Dialect::OfConnection(ConnId(1)), .. })
    ));

    // What could not be filled in says so on the form, with the answers still
    // there to be corrected.
    ui.template_bound(Err("table has no answer".to_owned()), &snap);
    let form = ui.palette.as_ref().and_then(|p| p.asking.as_ref()).expect("a form");
    assert_eq!(form.failed.as_deref(), Some("table has no answer"));
    assert_eq!(ui.active_sql(), Some(""));
}

#[test]
fn a_dialog_that_only_says_something_outlives_a_snapshot() {
    let (snap, mut ui) = setup(0, 0, 0);
    ui.raise_error("The editor", "no such file");
    ui.raise_approvals(&snap);
    assert_eq!(
        ui.modal.as_ref().map(|m| (m.title.clone(), m.body.clone(), m.grave)),
        Some(("The editor".to_owned(), "no such file".to_owned(), true))
    );
}

#[test]
fn a_screen_has_room_until_its_numbers_run_out() {
    let mut ui = UiState::new();
    assert!(ui.has_room());
    ui.next_tab = u32::MAX;
    assert!(!ui.has_room());
}

#[test]
fn a_question_stays_while_the_store_still_asks_it() {
    let conn = ConnId(1);
    let mut snap = snapshot(conn, 3, 10, 3);
    let mut ui = UiState::new();
    let _ = ui.apply(ViewCmd::OpenSqlTab { conn }, &snap);
    let tab = ui.active_tab.expect("a tab");
    let id = QueryId(5);
    ui.set_query(tab, id);
    snap.queries.push(over_budget(conn, id));
    ui.raise_approvals(&snap);
    assert_eq!(ui.modal.as_ref().and_then(|m| m.approves()), Some(id));

    // A spinner tick publishes the same thing again.
    ui.raise_approvals(&snap);
    ui.raise_approvals(&snap);
    assert_eq!(ui.modal.as_ref().and_then(|m| m.approves()), Some(id));

    // And when the query itself is gone, so is the question.
    snap.queries.clear();
    ui.raise_approvals(&snap);
    assert!(ui.modal.is_none());
}

#[test]
fn a_question_about_something_else_outlives_a_snapshot() {
    let (snap, mut ui) = setup(0, 0, 0);
    let question = Modal::asking_one(
        "Delete",
        "It cannot be undone.",
        "Delete it",
        Intent::App(Action::DeleteTemplate(TemplateId(3))),
    );
    assert_eq!(question.approves(), None);
    ui.modal = Some(question);
    ui.raise_approvals(&snap);
    assert_eq!(ui.modal.as_ref().map(|m| m.choices.len()), Some(1));

    // The statement is still there, so it is still the question.
    let mut snap = with_templates(snap, &[("a", "1"), ("b", "2"), ("c", "3")]);
    let ids: Vec<TemplateId> = held(&snap).iter().map(|t| t.id).collect();
    let asking = |action: Action| Modal::asking_one("Sure?", "", "Yes", Intent::App(action));
    ui.modal = Some(asking(Action::DeleteTemplate(ids[1])));
    ui.raise_approvals(&snap);
    assert!(ui.modal.is_some());

    // And when it is gone, so is the question.
    if let LoadState::Ready(held) = &mut snap.templates.data {
        held.remove(1);
    }
    ui.raise_approvals(&snap);
    assert!(ui.modal.is_none());

    // One that replaces is answered when the other text is there.
    let with = |body: &str| NewTemplate {
        name: "c".to_owned(),
        body: body.to_owned(),
        driver: None,
        tags: Vec::new(),
    };
    ui.modal = Some(asking(Action::ReplaceTemplate { id: ids[2], with: with("4") }));
    ui.raise_approvals(&snap);
    assert!(ui.modal.is_some());
    if let LoadState::Ready(held) = &mut snap.templates.data {
        held[1].body = "4".to_owned();
    }
    ui.raise_approvals(&snap);
    assert!(ui.modal.is_none());
}

fn held(snap: &Snapshot) -> &[Template] {
    match &snap.templates.data {
        LoadState::Ready(held) => held,
        _ => &[],
    }
}

#[test]
fn a_selection_after_a_sort_starts_at_the_cursor() {
    let (mut snap, mut ui) = setup(3, 50, 5);
    let id = ui.active_tab.expect("a tab");
    let _ = ui.apply(ViewCmd::SelectCell { row: 2, col: 1 }, &snap);
    let _ = ui.apply(ViewCmd::ExtendCellSelection { drow: 5, dcol: 2 }, &snap);
    let cursor = ui.grid(id).map(|g| (g.row, g.col));
    assert_eq!(cursor, Some((7, 3)));

    let sort = Some(Sort { column: 0, dir: SortDir::Asc });
    snap.previews[0].sort = sort;
    let _ = ui.apply(ViewCmd::ExtendCellSelection { drow: 1, dcol: 0 }, &snap);
    assert_eq!(ui.grid(id).expect("a grid").selection(sort), (7, 3, 8, 3));

    // And the next one goes on from there.
    let _ = ui.apply(ViewCmd::ExtendCellSelection { drow: 1, dcol: 1 }, &snap);
    assert_eq!(ui.grid(id).expect("a grid").selection(sort), (7, 3, 9, 4));
}

#[test]
fn the_detail_document_goes_with_its_rows() {
    let with = |text: &str| {
        Arc::new(PagedResult::new(
            edition(),
            vec![Column::new("c", "text", false)],
            vec![Row(vec![datum(Value::Text(text.to_owned()))])],
            None,
        ))
    };
    let mut grid = GridUi::default();
    assert!(grid.detail().is_none(), "there is nothing to read yet");
    grid.grid(&with("before"));
    assert_eq!(grid.detail().expect("a document").lines[0].text, "before");
    grid.grid(&with("after"));
    assert_eq!(grid.detail().expect("a document").lines[0].text, "after");
    grid.row = 1;
    assert!(grid.detail().is_none(), "there is no such cell");
}

#[test]
fn a_page_is_wanted_once_until_it_has_come() {
    let (mut snap, mut ui) = setup(3, 10, 3);
    let _ = ui.apply(ViewCmd::SelectCell { row: 9, col: 0 }, &snap);
    let id = ui.active_tab.expect("a tab");
    if let Some(grid) = ui.grids.get_mut(&id.0) {
        grid.asked_after = None;
    }
    assert!(ui.wants_a_page(PaneId::Grid, &snap).is_some());
    assert!(ui.wants_a_page(PaneId::Grid, &snap).is_none());
    snap.previews[0].attempts = 1;
    assert!(ui.wants_a_page(PaneId::Grid, &snap).is_some());
    assert!(ui.wants_a_page(PaneId::Explorer, &snap).is_none());
}
