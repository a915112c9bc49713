//! What a frame looks like, and what a click on it finds.
//!
//! A canvas is painted onto a terminal that only exists in memory, so these are
//! about the cells somebody would see.

use std::collections::BTreeSet;
use std::sync::atomic::{AtomicU64, Ordering};
use std::sync::Arc;

use ratatui::backend::TestBackend;
use ratatui::buffer::Buffer;
use ratatui::Terminal;
use sqlake_tui::chrome::{
    caption, fit, layout, pane, scrollbar, splitter, status_bar, tab_bar, too_small, MIN_HEIGHT,
    MIN_WIDTH,
};
use sqlake_tui::clock::Moment;
use sqlake_tui::datagrid::{self, body_area, visible_columns, GAP};
use sqlake_tui::definition::{sections, Laid, LIST_WIDTH};
use sqlake_tui::detail::{self, RenderedDetail, MAX_DEPTH};
use sqlake_tui::geometry::{Position, Rect};
use sqlake_tui::grid::{RenderedGrid, MAX_CELL_CHARS, NULL_GLYPH};
use sqlake_tui::history::search_box;
use sqlake_tui::hit::{
    ButtonId, HitMap, PaneId, ScrollPart, SplitId, Target, ToastId, Z_CONTENT,
};
use sqlake_tui::ids::{BusyId, ConnId, Edition, TabId, TemplateId};
use sqlake_tui::intent::{Action, Intent, ViewCmd};
use sqlake_tui::json::Json;
use sqlake_tui::menu::{self, placed, Menu};
use sqlake_tui::model::{
    BusyItem, Capabilities, Column, ColumnDetail, ConnStatus, ConnectionView, Datum, LoadState,
    NodeKind, NodeRef, NodeState, PagedResult, PreviewView, Profile, ProfileColor, ProfileId,
    RelationKind, Row, Section, Snapshot, Sort, SortDir, TableDetail, TableRef, Template, Value,
    VisibleNode,
};
use sqlake_tui::overlay::{modal, toasts, wrapped_rows, Choice, Modal};
use sqlake_tui::paint::{BorderKind, Canvas, Color, Line, Overflow, Paint, Span, Style};
use sqlake_tui::palette::{self, Form, Kind, Palette, Placeholder};
use sqlake_tui::screen;
use sqlake_tui::sql;
use sqlake_tui::tree::{self, rows_area, visible};
use sqlake_tui::ui::{Filter, GridUi, Severity, Toast, TreeUi, UiState, MIN_PANE_WIDTH};

// ── a terminal in memory ───────────────────────────────────────────────────

fn colour(color: Color) -> ratatui::style::Color {
    match color {
        Color::Reset => ratatui::style::Color::Reset,
        Color::Black => ratatui::style::Color::Black,
        Color::Red => ratatui::style::Color::Red,
        Color::Green => ratatui::style::Color::Green,
        Color::Yellow => ratatui::style::Color::Yellow,
        Color::Blue => ratatui::style::Color::Blue,
        Color::Magenta => ratatui::style::Color::Magenta,
        Color::Cyan => ratatui::style::Color::Cyan,
        Color::Gray => ratatui::style::Color::Gray,
        Color::DarkGray => ratatui::style::Color::DarkGray,
        Color::LightBlue => ratatui::style::Color::LightBlue,
        Color::White => ratatui::style::Color::White,
    }
}

fn style(style: Style) -> ratatui::style::Style {
    let mut out = ratatui::style::Style::new();
    if let Some(fg) = style.fg {
        out = out.fg(colour(fg));
    }
    if let Some(bg) = style.bg {
        out = out.bg(colour(bg));
    }
    if style.bold {
        out = out.add_modifier(ratatui::style::Modifier::BOLD);
    }
    if style.dim {
        out = out.add_modifier(ratatui::style::Modifier::DIM);
    }
    out
}

fn span(span: &Span) -> ratatui::text::Span<'_> {
    ratatui::text::Span::styled(span.text.as_str(), style(span.style))
}

fn line(line: &Line) -> ratatui::text::Line<'_> {
    ratatui::text::Line::from(line.spans.iter().map(span).collect::<Vec<_>>())
}

fn area_of(rect: &Rect) -> ratatui::layout::Rect {
    ratatui::layout::Rect::new(rect.x, rect.y, rect.width, rect.height)
}

fn put(frame: &mut ratatui::Frame<'_>, canvas: &Canvas) {
    for paint in &canvas.paints {
        match paint {
            Paint::Text { area, lines, style: base, overflow, scroll } => {
                let text: Vec<ratatui::text::Line<'_>> = lines.iter().map(line).collect();
                let mut paragraph =
                    ratatui::widgets::Paragraph::new(text).style(style(*base)).scroll((*scroll, 0));
                if *overflow != Overflow::Cut {
                    paragraph = paragraph.wrap(ratatui::widgets::Wrap {
                        trim: *overflow == Overflow::WrapTrimmed,
                    });
                }
                frame.render_widget(paragraph, area_of(area));
            }
            Paint::Border { area, kind, style: base, title } => {
                let mut block = ratatui::widgets::Block::bordered()
                    .border_type(match kind {
                        BorderKind::Plain => ratatui::widgets::BorderType::Plain,
                        BorderKind::Thick => ratatui::widgets::BorderType::Thick,
                        BorderKind::Rounded => ratatui::widgets::BorderType::Rounded,
                    })
                    .border_style(style(*base));
                if let Some(title) = title {
                    block = block.title(span(title));
                }
                frame.render_widget(block, area_of(area));
            }
            Paint::Clear { area } => {
                frame.render_widget(ratatui::widgets::Clear, area_of(area));
            }
        }
    }
}

fn draw(f: impl FnOnce(&mut Canvas), w: u16, h: u16) -> (Vec<String>, HitMap, Buffer) {
    let mut canvas = Canvas::new();
    f(&mut canvas);
    let mut terminal = Terminal::new(TestBackend::new(w, h)).unwrap();
    terminal.draw(|frame| put(frame, &canvas)).unwrap();
    let buffer = terminal.backend().buffer().clone();
    let rows = (0..h)
        .map(|y| (0..w).map(|x| buffer[(x, y)].symbol().to_owned()).collect::<String>())
        .collect();
    (rows, canvas.hits, buffer)
}

// ── things to draw ─────────────────────────────────────────────────────────

static EDITIONS: AtomicU64 = AtomicU64::new(1);

fn edition() -> Edition {
    Edition(EDITIONS.fetch_add(1, Ordering::Relaxed))
}

fn path(parts: &[&str]) -> Vec<String> {
    parts.iter().map(|p| (*p).to_owned()).collect()
}

fn table(name: &str) -> TableRef {
    TableRef::new(path(&["public", name]))
}

fn profile(name: &str) -> Profile {
    Profile { id: ProfileId(name.to_owned()), name: name.to_owned() }
}

fn connection(id: ConnId, name: &str, status: ConnStatus) -> ConnectionView {
    ConnectionView {
        id,
        profile: ProfileId(name.to_owned()),
        name: name.to_owned(),
        color: None,
        status,
        capabilities: None,
    }
}

fn with_tabs(n: usize) -> UiState {
    let mut ui = UiState::new();
    let snapshot = Snapshot::empty();
    for i in 0..n {
        let cmd = ViewCmd::OpenTab { conn: ConnId(1), table: table(&format!("t{i}")) };
        assert!(ui.apply(cmd, &snapshot).is_none());
    }
    ui
}

fn with_jobs(n: usize) -> Snapshot {
    Snapshot {
        busy: (0..n)
            .map(|i| BusyItem { id: BusyId(i as u64), label: format!("job {i}") })
            .collect(),
        ..Snapshot::empty()
    }
}

fn notices(items: Vec<(Severity, &str)>) -> Vec<Toast> {
    items
        .into_iter()
        .enumerate()
        .map(|(i, (severity, text))| Toast {
            id: ToastId::new(i as u64),
            text: text.to_owned(),
            severity,
            created_at: Moment { seconds: 0, nanos: 0 },
        })
        .collect()
}

fn datum(value: Value) -> Datum {
    Datum { value, json: Json::Null }
}

fn row(values: Vec<Value>) -> Row {
    Row(values.into_iter().map(datum).collect())
}

fn paged(columns: Vec<Column>, rows: Vec<Row>) -> Arc<PagedResult> {
    Arc::new(PagedResult::new(edition(), columns, rows, None))
}

// ── the frame around the content ───────────────────────────────────────────

#[test]
fn the_layout_accounts_for_every_row_and_column() {
    let mut ui = UiState::new();
    let area = Rect::new(0, 0, 100, 30);
    let f = layout(area, &mut ui);

    assert_eq!(f.tab_bar.height, 1);
    assert_eq!(f.status_bar.height, 1);
    assert_eq!(f.tab_bar.y + 1, f.explorer.y);
    assert_eq!(f.explorer.bottom(), f.status_bar.y);
    assert_eq!(f.explorer.width + f.splitter.width + f.grid.width, 100);
    assert_eq!(f.splitter.x, f.explorer.right());
    assert_eq!(f.grid.x, f.splitter.right());
}

#[test]
fn a_narrow_terminal_still_leaves_both_panes_usable() {
    let mut ui = UiState::new();
    let f = layout(Rect::new(0, 0, MIN_WIDTH, MIN_HEIGHT), &mut ui);
    assert!(f.explorer.width >= MIN_PANE_WIDTH, "{}", f.explorer.width);
    assert!(f.grid.width >= MIN_PANE_WIDTH, "{}", f.grid.width);
}

#[test]
fn below_the_minimum_one_message_replaces_the_layout() {
    assert!(too_small(Rect::new(0, 0, 59, 30)));
    assert!(too_small(Rect::new(0, 0, 100, 19)));
    assert!(!too_small(Rect::new(0, 0, MIN_WIDTH, MIN_HEIGHT)));
}

#[test]
fn a_pane_catches_clicks_on_its_border_and_its_empty_space() {
    let area = Rect::new(0, 0, 20, 10);
    let (_, hits, _) = draw(
        |canvas| {
            pane(canvas, area, PaneId::Explorer, "Explorer", true);
        },
        20,
        10,
    );
    // The border, which is outside the area content is drawn in.
    assert_eq!(
        hits.at(Position::new(0, 0)),
        Some(Target::Pane(PaneId::Explorer))
    );
    // And the middle, which is where the wheel lands below the last row.
    assert_eq!(
        hits.at(Position::new(10, 5)),
        Some(Target::Pane(PaneId::Explorer))
    );
}

#[test]
fn the_splitter_is_wider_to_the_mouse_than_to_the_eye() {
    let area = Rect::new(10, 0, 1, 8);
    let (_, hits, _) = draw(|canvas| splitter(canvas, area, false), 30, 8);
    for x in 9..=11 {
        assert_eq!(
            hits.at(Position::new(x, 3)),
            Some(Target::Splitter(SplitId::Explorer)),
            "x={x}"
        );
    }
}

#[test]
fn a_scrollbar_appears_only_when_there_is_something_below() {
    let area = Rect::new(0, 0, 20, 10);
    let (_, hits, _) = draw(
        |canvas| scrollbar(canvas, area, PaneId::Grid, 0, 5),
        20,
        10,
    );
    assert_eq!(hits.at(Position::new(19, 5)), None, "content fits");
}

#[test]
fn the_thumb_sits_between_the_two_halves_of_the_track() {
    let area = Rect::new(0, 0, 20, 10);
    let (_, hits, _) = draw(
        |canvas| scrollbar(canvas, area, PaneId::Grid, 45, 100),
        20,
        10,
    );

    let parts: Vec<_> = (0..10)
        .map(|y| match hits.at(Position::new(19, y)) {
            Some(Target::Scrollbar { part, .. }) => Some(part),
            _ => None,
        })
        .collect();

    let thumb_at = parts.iter().position(|p| *p == Some(ScrollPart::Thumb));
    assert!(thumb_at.is_some(), "{parts:?}");
    let thumb_at = thumb_at.unwrap();
    assert!(
        parts[..thumb_at]
            .iter()
            .all(|p| *p == Some(ScrollPart::TrackBefore)),
        "{parts:?}"
    );
    assert!(
        parts
            .iter()
            .rev()
            .take(1)
            .all(|p| *p == Some(ScrollPart::TrackAfter) || *p == Some(ScrollPart::Thumb)),
        "{parts:?}"
    );
}

#[test]
fn scrolled_to_the_end_puts_the_thumb_at_the_bottom() {
    let area = Rect::new(0, 0, 20, 10);
    let (_, hits, _) = draw(
        |canvas| scrollbar(canvas, area, PaneId::Grid, 90, 100),
        20,
        10,
    );
    assert!(matches!(
        hits.at(Position::new(19, 9)),
        Some(Target::Scrollbar {
            part: ScrollPart::Thumb,
            ..
        })
    ));
}

#[test]
fn every_tab_offers_its_own_close_box() {
    let ui = with_tabs(3);
    let area = Rect::new(0, 0, 60, 1);
    let (_, hits, _) = draw(|canvas| tab_bar(canvas, area, &ui, false), 60, 1);

    let mut seen_titles = 0;
    let mut seen_closes = 0;
    for x in 0..60 {
        match hits.at(Position::new(x, 0)) {
            Some(Target::Tab(_)) => seen_titles += 1,
            Some(Target::TabClose(_)) => seen_closes += 1,
            _ => {}
        }
    }
    assert!(seen_titles >= 3, "{seen_titles}");
    assert_eq!(seen_closes, 6, "two cells each");
}

#[test]
fn a_tab_that_does_not_fit_is_left_out_rather_than_cut() {
    let ui = with_tabs(20);
    // Each tab is " tN " plus a two-cell close box: six cells. Thirty-one
    // holds five of them with one cell spare, and the sixth is dropped
    // rather than drawn with its close box off the edge.
    let area = Rect::new(0, 0, 31, 1);
    let (_, hits, _) = draw(|canvas| tab_bar(canvas, area, &ui, false), 31, 1);

    let mut tabs = BTreeSet::new();
    for x in 0..31 {
        if let Some(Target::Tab(id) | Target::TabClose(id)) = hits.at(Position::new(x, 0)) {
            tabs.insert(id);
        }
    }
    assert_eq!(tabs.len(), 5, "{tabs:?}");
    // The spare cell belongs to the bar itself, not to a tab drawn across
    // the edge.
    assert_eq!(
        hits.at(Position::new(30, 0)),
        Some(Target::Pane(PaneId::TabBar))
    );
}

#[test]
fn a_running_job_gets_a_cancel_button() {
    let snap = with_jobs(1);
    let area = Rect::new(0, 0, 60, 1);
    let (_, hits, _) = draw(|canvas| status_bar(canvas, area, &snap, None, false), 60, 1);

    let found = (0..60)
        .filter_map(|x| hits.at(Position::new(x, 0)))
        .any(|t| matches!(t, Target::Button(ButtonId::Cancel(_))));
    assert!(found, "no way to stop it");
}

#[test]
fn an_idle_status_bar_says_how_to_select_text() {
    let snap = with_jobs(0);
    let (rows, _, _) = draw(
        |canvas| status_bar(canvas, Rect::new(0, 0, 60, 1), &snap, None, false),
        60,
        1,
    );
    assert!(rows[0].contains("drag to select"), "{rows:?}");
}

// ── the explorer ───────────────────────────────────────────────────────────

fn node(depth: u16, label: &str, state: NodeState) -> VisibleNode {
    VisibleNode {
        conn: ConnId(1),
        depth,
        label: label.to_owned(),
        node_ref: NodeRef::new(NodeKind::Namespace, path(&[label])),
        relation_kind: None,
        state,
    }
}

fn relation(depth: u16, label: &str) -> VisibleNode {
    VisibleNode {
        relation_kind: Some(RelationKind::Table),
        ..node(depth, label, NodeState::Leaf)
    }
}

fn tree_filtered(
    snapshot: &Snapshot,
    ui: &TreeUi,
    w: u16,
    h: u16,
    filter: Option<&str>,
) -> (Buffer, HitMap) {
    let (_, hits, buffer) = draw(
        |canvas| tree::render(canvas, Rect::new(0, 0, w, h), snapshot, ui, filter),
        w,
        h,
    );
    (buffer, hits)
}

fn tree_buffer_of(snapshot: &Snapshot, ui: &TreeUi, w: u16, h: u16) -> (Buffer, HitMap) {
    tree_filtered(snapshot, ui, w, h, None)
}

fn tree_buffer(view: Vec<VisibleNode>, ui: &TreeUi, w: u16, h: u16) -> (Buffer, HitMap) {
    let snapshot = Snapshot { explorer: view, ..Snapshot::empty() };
    tree_buffer_of(&snapshot, ui, w, h)
}

/// The screen as one string per row. Whether a row was cut to the pane is only
/// answerable per row: run together, an overflowing row is indistinguishable
/// from the one below it.
fn tree_rows(view: Vec<VisibleNode>, ui: &TreeUi, w: u16, h: u16) -> (Vec<String>, HitMap) {
    let (buffer, hits) = tree_buffer(view, ui, w, h);
    let rows = (0..h)
        .map(|y| (0..w).map(|x| buffer[(x, y)].symbol()).collect())
        .collect();
    (rows, hits)
}

fn tree_text(view: Vec<VisibleNode>, ui: &TreeUi, w: u16, h: u16) -> (String, HitMap) {
    let (rows, hits) = tree_rows(view, ui, w, h);
    (rows.concat(), hits)
}

fn tree_snapshot(snapshot: &Snapshot, ui: &TreeUi, w: u16, h: u16) -> (String, HitMap) {
    let (buffer, hits) = tree_buffer_of(snapshot, ui, w, h);
    let text = (0..h)
        .flat_map(|y| (0..w).map(move |x| (x, y)))
        .map(|(x, y)| buffer[(x, y)].symbol().to_owned())
        .collect();
    (text, hits)
}

fn flat(rows: &[(u16, &str)]) -> Vec<VisibleNode> {
    rows.iter().map(|(depth, label)| node(*depth, label, NodeState::Collapsed)).collect()
}

fn kept<'a>(nodes: &'a Vec<VisibleNode>, filter: Option<&str>) -> Vec<&'a str> {
    visible(nodes, filter).into_iter().map(|index| nodes[index].label.as_str()).collect()
}

#[test]
fn no_filter_and_an_empty_one_show_the_whole_tree() {
    // An empty box is the state right after `/`, and hiding everything
    // then would make the feature look broken before a letter is typed.
    let nodes = flat(&[(0, "prod"), (1, "public"), (2, "users")]);
    assert_eq!(kept(&nodes, None), ["prod", "public", "users"]);
    assert_eq!(kept(&nodes, Some("")), ["prod", "public", "users"]);
}

#[test]
fn a_match_brings_its_ancestors_with_it() {
    // A table with its dataset hidden is a row with no path to it, and the
    // level names are half of what a path means.
    let nodes = flat(&[
        (0, "prod"),
        (1, "public"),
        (2, "users"),
        (2, "orders"),
        (1, "analytics"),
        (2, "events"),
    ]);
    assert_eq!(kept(&nodes, Some("orders")), ["prod", "public", "orders"]);
}

#[test]
fn a_branch_with_nothing_under_it_goes() {
    // The case a naive "keep every ancestor" gets wrong: `public` is an
    // ancestor of a kept row, `analytics` is only an ancestor of the row
    // that was dropped.
    let nodes = flat(&[
        (0, "prod"),
        (1, "public"),
        (2, "users"),
        (1, "analytics"),
        (2, "events"),
    ]);
    assert_eq!(kept(&nodes, Some("users")), ["prod", "public", "users"]);
}

#[test]
fn a_match_under_a_later_branch_keeps_the_root() {
    // Walking backwards, the run that kept `analytics` is interrupted by
    // rows that were dropped; the root is still an ancestor of it.
    let nodes = flat(&[
        (0, "prod"),
        (1, "public"),
        (2, "users"),
        (1, "analytics"),
        (2, "hits"),
    ]);
    assert_eq!(kept(&nodes, Some("hits")), ["prod", "analytics", "hits"]);
}

#[test]
fn a_branch_that_matches_keeps_what_is_under_it() {
    // Matching a dataset shows the dataset, not its tables: opening it is
    // what shows those, and a filter that expanded on a keystroke is the
    // one thing the tree is lazy to avoid.
    let nodes = flat(&[(0, "prod"), (1, "public"), (2, "users")]);
    assert_eq!(kept(&nodes, Some("public")), ["prod", "public"]);
}

#[test]
fn every_connection_is_searched_and_the_ones_that_miss_go() {
    let nodes = flat(&[(0, "prod"), (1, "public"), (0, "staging"), (1, "reporting")]);
    assert_eq!(kept(&nodes, Some("report")), ["staging", "reporting"]);
}

#[test]
fn the_match_is_case_insensitive() {
    let nodes = flat(&[(0, "prod"), (1, "Users")]);
    assert_eq!(kept(&nodes, Some("users")), ["prod", "Users"]);
    assert_eq!(kept(&nodes, Some("USERS")), ["prod", "Users"]);
}

#[test]
fn a_filter_that_matches_nothing_keeps_nothing() {
    let nodes = flat(&[(0, "prod"), (1, "public")]);
    assert!(kept(&nodes, Some("zzz")).is_empty());
}

#[test]
fn the_box_is_drawn_even_when_nothing_matches() {
    // Otherwise the pane goes blank as soon as the search stops matching,
    // and the text that caused it goes with it.
    let view = flat(&[(0, "prod"), (1, "public")]);
    let snapshot = Snapshot { explorer: view, ..Snapshot::empty() };
    let (buffer, _) = tree_filtered(&snapshot, &TreeUi::default(), 20, 4, Some("zzz"));
    let text: String = (0..4)
        .flat_map(|y| (0..20).map(move |x| (x, y)))
        .map(|(x, y)| buffer[(x, y)].symbol().to_owned())
        .collect();
    assert!(text.contains("zzz"), "{text}");
    assert!(text.contains("no match"), "{text}");
}

#[test]
fn a_row_is_hit_by_where_it_is_on_screen() {
    // The filter renumbers the rows, and a hit target carrying the node's
    // position in the unfiltered tree would open whatever happened to sit
    // at that index.
    let view = flat(&[
        (0, "prod"),
        (1, "public"),
        (2, "users"),
        (1, "analytics"),
        (2, "hits"),
    ]);
    let snapshot = Snapshot { explorer: view, ..Snapshot::empty() };
    let (_, hits) = tree_filtered(&snapshot, &TreeUi::default(), 20, 5, Some("hits"));
    // Row 0 is the box; `prod`, `analytics`, `hits` follow.
    assert_eq!(
        hits.at(Position::new(1, 3)),
        Some(Target::TreeRow { index: 2 })
    );
}

#[test]
fn every_visible_row_can_be_clicked() {
    let view = vec![
        node(0, "public", NodeState::Expanded),
        relation(1, "users"),
        relation(1, "orders"),
    ];
    let (_, hits) = tree_text(view, &TreeUi::default(), 30, 5);

    for (y, expected) in (0..3).map(|y| (y, y as usize)) {
        assert_eq!(
            hits.at(Position::new(20, y)),
            Some(Target::TreeRow { index: expected }),
            "row {y}"
        );
    }
}

#[test]
fn the_toggle_is_a_target_of_its_own() {
    let view = vec![node(0, "public", NodeState::Collapsed)];
    let (_, hits) = tree_text(view, &TreeUi::default(), 30, 3);

    // The glyph itself expands; the name beside it selects. Merging the two
    // would make one of them impossible to ask for.
    assert_eq!(
        hits.at(Position::new(0, 0)),
        Some(Target::TreeToggle { index: 0 })
    );
    assert_eq!(
        hits.at(Position::new(10, 0)),
        Some(Target::TreeRow { index: 0 })
    );
}

#[test]
fn a_leaf_offers_no_toggle_to_press() {
    let view = vec![relation(0, "users")];
    let (_, hits) = tree_text(view, &TreeUi::default(), 30, 3);
    assert_eq!(
        hits.at(Position::new(0, 0)),
        Some(Target::TreeRow { index: 0 }),
        "a control that does nothing teaches the tree is unreliable"
    );
}

#[test]
fn scrolling_moves_the_window_and_the_indices_with_it() {
    let view: Vec<VisibleNode> = (0..20)
        .map(|i| node(0, &format!("n{i}"), NodeState::Collapsed))
        .collect();
    let ui = TreeUi {
        offset: 15,
        selected: None,
    };
    let (text, hits) = tree_text(view, &ui, 30, 3);

    assert!(text.contains("n15"), "{text:?}");
    assert!(!text.contains("n14"), "{text:?}");
    // The index carried by the hit is the index in the whole tree, not the
    // row on screen, or a click after scrolling opens the wrong node.
    assert_eq!(
        hits.at(Position::new(20, 0)),
        Some(Target::TreeRow { index: 15 })
    );
}

#[test]
fn depth_is_visible_as_indentation() {
    let view = vec![
        node(0, "db", NodeState::Expanded),
        node(1, "public", NodeState::Expanded),
        relation(2, "users"),
    ];
    let (text, hits) = tree_text(view, &TreeUi::default(), 30, 3);
    assert!(text.contains("db"), "{text:?}");

    // The toggle of a deeper node sits further right, which is what makes
    // the nesting readable at a glance.
    assert_eq!(
        hits.at(Position::new(2, 1)),
        Some(Target::TreeToggle { index: 1 })
    );
    assert_eq!(
        hits.at(Position::new(0, 1)),
        Some(Target::TreeRow { index: 1 })
    );
}

#[test]
fn a_loading_node_says_so_where_it_was_clicked() {
    let view = vec![node(0, "slow", NodeState::Loading)];
    let (text, _) = tree_text(view, &TreeUi::default(), 30, 3);
    assert!(text.contains('⋯'), "{text:?}");
}

#[test]
fn a_failure_is_reported_on_the_row_that_failed() {
    let view = vec![node(
        0,
        "restricted",
        NodeState::Failed("permission denied".into()),
    )];
    let (text, _) = tree_text(view, &TreeUi::default(), 40, 3);
    // Not a toast: by the time the user looks at the tree the toast is
    // gone and the node is just sitting there.
    assert!(text.contains("permission denied"), "{text:?}");
}

#[test]
fn an_empty_tree_says_which_kind_of_empty_it_is() {
    // Two different problems that look identical on screen: nothing to
    // connect to, and nothing connected yet. Only one is fixed by pressing
    // a key.
    let (text, _) = tree_text(Vec::new(), &TreeUi::default(), 30, 3);
    assert!(text.contains("no connections configured"), "{text:?}");

    let configured = Snapshot { profiles: vec![profile("mock")], ..Snapshot::empty() };
    let (text, _) = tree_snapshot(&configured, &TreeUi::default(), 30, 3);
    assert!(text.contains("nothing connected"), "{text:?}");
}

#[test]
fn a_profiles_colour_marks_its_connection_and_nothing_below_it() {
    // The point of the colour is that production does not look like a
    // scratch database. Colouring the objects too would make every row in
    // the pane red, which marks nothing at all.
    let conn = ConnId(7);
    let mut root = node(0, "prod", NodeState::Expanded);
    root.conn = conn;
    root.node_ref = NodeRef::new(NodeKind::Root, Vec::new());
    let mut child = node(1, "public", NodeState::Collapsed);
    child.conn = conn;
    let snapshot = Snapshot {
        explorer: vec![root, child],
        connections: vec![ConnectionView {
            color: Some(ProfileColor::Red),
            ..connection(conn, "prod", ConnStatus::Ready)
        }],
        ..Snapshot::empty()
    };

    let (buffer, _) = tree_buffer_of(&snapshot, &TreeUi::default(), 20, 3);
    let is_red = |y: u16| {
        (0..20).any(|x| buffer[(x, y)].style().fg == Some(ratatui::style::Color::Red))
    };
    assert!(is_red(0), "the connection's own row");
    assert!(!is_red(1), "an object below it");
}

#[test]
fn a_long_label_is_cut_rather_than_spilling_into_the_scrollbar() {
    let view = vec![node(
        0,
        "a_very_long_relation_name_indeed",
        NodeState::Collapsed,
    )];
    let (rows, _) = tree_rows(view, &TreeUi::default(), 16, 3);
    let first: Vec<char> = rows[0].chars().collect();
    // Cut with an ellipsis rather than run off the edge and clipped: the
    // ellipsis is what says the name goes on.
    assert_eq!(first[14], '…', "{:?}", rows[0]);
    assert_eq!(
        first[15], ' ',
        "the scrollbar's column is not the label's to use: {:?}",
        rows[0]
    );
}

#[test]
fn a_double_width_label_still_fits_the_pane() {
    let view = vec![node(0, "ユーザー情報テーブル", NodeState::Collapsed)];
    let (rows, hits) = tree_rows(view, &TreeUi::default(), 20, 3);
    // Ten characters, twenty columns. Measuring the label in characters
    // would keep four more of them than fit and run it past the edge, so
    // the ellipsis has to land in the last column the rows own.
    let first: Vec<char> = rows[0].chars().collect();
    assert_eq!(first[18], '…', "{:?}", rows[0]);
    assert_eq!(
        first[19], ' ',
        "the scrollbar's column is not the label's to use: {:?}",
        rows[0]
    );
    assert_eq!(
        hits.at(Position::new(19, 0)),
        None,
        "the scrollbar column stays clear when there is nothing to scroll"
    );
}

#[test]
fn a_control_character_in_a_label_cannot_break_the_row() {
    let view = vec![node(0, "we\nird\ttab", NodeState::Collapsed)];
    let (text, _) = tree_text(view, &TreeUi::default(), 30, 3);
    assert!(!text.contains('\n'), "a raw newline splits the pane open");
    assert!(text.contains('␊'), "{text:?}");
}

#[test]
fn the_selected_row_is_the_one_marked() {
    let view = vec![
        node(0, "a", NodeState::Collapsed),
        node(0, "b", NodeState::Collapsed),
    ];
    let ui = TreeUi {
        offset: 0,
        selected: Some(1),
    };
    let (buffer, _) = tree_buffer(view, &ui, 20, 3);
    assert_ne!(
        buffer[(0, 0)].style().bg,
        buffer[(0, 1)].style().bg,
        "the selection has to be visible, not just recorded"
    );
}

#[test]
fn a_selected_row_does_not_paint_over_its_own_icon() {
    let view = vec![relation(0, "users")];
    let ui = TreeUi {
        offset: 0,
        selected: Some(0),
    };
    let (buffer, _) = tree_buffer(view, &ui, 20, 3);
    // The icon follows the two-cell toggle, so it starts at column two.
    let icon = buffer[(2, 0)].style();
    assert_ne!(
        icon.fg, icon.bg,
        "an icon the colour of the row it sits on is not drawn at all"
    );
}

#[test]
fn a_pane_one_column_wide_draws_nothing_it_cannot_fit() {
    let view = vec![node(0, "public", NodeState::Collapsed)];
    // Degenerate, but reachable while dragging the splitter.
    let (_, hits) = tree_text(view, &TreeUi::default(), 1, 3);
    assert!(hits.at(Position::new(0, 0)).is_some());
}

// ── the grid ───────────────────────────────────────────────────────────────

fn numbers(rows: usize, cols: usize) -> Arc<PagedResult> {
    paged(
        (0..cols).map(|c| Column::new(&format!("c{c}"), "int8", false)).collect(),
        (0..rows)
            .map(|r| row((0..cols).map(|c| Value::Int((r * 10 + c) as i64)).collect()))
            .collect(),
    )
}

fn tab(data: LoadState<Arc<PagedResult>>, sort: Option<Sort>) -> PreviewView {
    PreviewView {
        conn: ConnId(1),
        table: table("users"),
        sort,
        loaded_rows: 0,
        exhausted: false,
        attempts: 0,
        data,
        last_error: None,
    }
}

fn grid_screen(
    tab: &PreviewView,
    ui: &mut GridUi,
    w: u16,
    h: u16,
) -> (Vec<String>, HitMap, Buffer) {
    draw(|canvas| datagrid::render(canvas, Rect::new(0, 0, w, h), tab, ui, true), w, h)
}

#[test]
fn only_the_rows_on_screen_are_formatted() {
    // The point of the lazy arrangement. A relation far larger than the
    // pane must cost the pane, not the relation.
    let rows = numbers(200_000, 2);
    let mut ui = GridUi::default();
    let (text, hits, _) = grid_screen(&tab(LoadState::Ready(rows), None), &mut ui, 40, 6);

    assert!(text[1].contains('0'), "{:?}", text[1]);
    let cells = (0..40)
        .flat_map(|x| (0..6).map(move |y| (x, y)))
        .filter(|&(x, y)| matches!(hits.at(Position::new(x, y)), Some(Target::GridCell { .. })))
        .count();
    assert!(cells > 0);
    // Five body rows in a six-row pane, never two hundred thousand.
    let drawn: BTreeSet<usize> = (0..40)
        .flat_map(|x| (0..6).map(move |y| (x, y)))
        .filter_map(|(x, y)| match hits.at(Position::new(x, y)) {
            Some(Target::GridCell { row, .. }) => Some(row),
            _ => None,
        })
        .collect();
    assert_eq!(drawn.len(), 5, "{drawn:?}");
}

#[test]
fn a_header_click_and_an_edge_drag_are_different_requests() {
    let mut ui = GridUi::default();
    let (_, hits, _) = grid_screen(&tab(LoadState::Ready(numbers(3, 3)), None), &mut ui, 40, 5);

    let header: Vec<_> = (0..40)
        .map(|x| hits.at(Position::new(x, 0)))
        .filter_map(|t| match t {
            Some(Target::GridHeader { col }) => Some(("h", col)),
            Some(Target::GridColEdge { col }) => Some(("e", col)),
            _ => None,
        })
        .collect();
    assert!(header.iter().any(|(k, _)| *k == "h"), "{header:?}");
    // Without the seam, a drag to widen a column reads as a click and
    // reorders the whole relation instead.
    assert!(header.iter().any(|(k, _)| *k == "e"), "{header:?}");
}

#[test]
fn the_seam_wins_where_it_overlaps_the_header() {
    let mut ui = GridUi::default();
    let (_, hits, _) = grid_screen(&tab(LoadState::Ready(numbers(3, 3)), None), &mut ui, 40, 5);

    let first_edge = (0..40)
        .find(|&x| {
            matches!(
                hits.at(Position::new(x, 0)),
                Some(Target::GridColEdge { .. })
            )
        })
        .expect("no edge");
    assert!(matches!(
        hits.at(Position::new(first_edge, 0)),
        Some(Target::GridColEdge { .. })
    ));
}

#[test]
fn the_sorted_column_says_which_way() {
    let mut ui = GridUi::default();
    let sorted = Some(Sort { column: 1, dir: SortDir::Desc });
    let (text, _, _) = grid_screen(
        &tab(LoadState::Ready(numbers(3, 3)), sorted),
        &mut ui,
        40,
        5,
    );
    assert!(text[0].contains('▼'), "{:?}", text[0]);
    assert!(!text[0].contains('▲'), "{:?}", text[0]);
    // The arrow takes one cell from the name, not the three its bytes
    // would suggest — otherwise the column being sorted is the one whose
    // name the user can no longer read.
    assert!(text[0].contains("c1"), "{:?}", text[0]);
}

#[test]
fn the_scrollbar_sits_in_the_column_reserved_for_it() {
    // The pane holds a column back so a wide value is cut rather than
    // hidden behind the thumb. Drawing the bar one cell to the left of it
    // spends that column twice: the thumb still covers a value, and the
    // edge of the pane is a stripe nothing can ever be drawn in.
    let mut ui = GridUi::default();
    let (_, hits, buffer) = grid_screen(
        &tab(LoadState::Ready(numbers(500, 1)), None),
        &mut ui,
        30,
        6,
    );

    assert_eq!(buffer[(29, 1)].symbol(), "█");
    assert_eq!(
        hits.at(Position::new(29, 1)),
        Some(Target::Scrollbar {
            pane: PaneId::Grid,
            part: ScrollPart::Thumb,
        })
    );
    // And the header row above it is not part of the track: dragging the
    // thumb to the top must reach row zero, not one row short of it.
    assert!(!matches!(
        hits.at(Position::new(29, 0)),
        Some(Target::Scrollbar { .. })
    ));
}

#[test]
fn numbers_are_right_aligned_so_the_digits_line_up() {
    let rows = paged(
        vec![Column::new("n", "int8", false)],
        vec![row(vec![Value::Int(7)]), row(vec![Value::Int(1_000_000)])],
    );
    let mut ui = GridUi::default();
    let (text, _, _) = grid_screen(&tab(LoadState::Ready(rows), None), &mut ui, 20, 4);

    let seven = text[1].find('7').unwrap();
    let million_end = text[2].rfind('0').unwrap();
    assert_eq!(seven, million_end, "{:?} vs {:?}", text[1], text[2]);
}

#[test]
fn the_selected_cell_is_marked() {
    let mut ui = GridUi::default();
    ui.row = 1;
    ui.col = 1;
    let (_, hits, buffer) = grid_screen(&tab(LoadState::Ready(numbers(3, 3)), None), &mut ui, 40, 5);

    // Find the cell by asking where it was drawn rather than assuming.
    let find = |want_row: usize, want_col: usize| {
        (0..40)
            .flat_map(|x| (0..5).map(move |y| (x, y)))
            .find(|&(x, y)| {
                matches!(
                    hits.at(Position::new(x, y)),
                    Some(Target::GridCell { row, col }) if row == want_row && col == want_col
                )
            })
            .expect("cell not drawn")
    };
    let (sx, sy) = find(1, 1);
    let (nx, ny) = find(0, 1);
    assert_ne!(
        buffer[(sx, sy)].style().bg,
        buffer[(nx, ny)].style().bg,
        "a selection recorded and not drawn is not a selection"
    );
}

#[test]
fn scrolling_moves_the_window_and_keeps_the_row_indices() {
    let mut ui = GridUi::default();
    ui.row_offset = 100;
    let (_, hits, _) = grid_screen(
        &tab(LoadState::Ready(numbers(500, 2)), None),
        &mut ui,
        40,
        5,
    );

    let first = (0..40)
        .find_map(|x| match hits.at(Position::new(x, 1)) {
            Some(Target::GridCell { row, .. }) => Some(row),
            _ => None,
        })
        .expect("no cell");
    // The index is the row in the relation, not the line on screen: a
    // click after scrolling must select what it looks like it selected.
    assert_eq!(first, 100);
}

#[test]
fn scrolling_sideways_starts_from_a_later_column() {
    let mut ui = GridUi::default();
    ui.col_offset = 5;
    let (_, hits, _) = grid_screen(&tab(LoadState::Ready(numbers(3, 20)), None), &mut ui, 40, 5);

    let first = (0..40)
        .find_map(|x| match hits.at(Position::new(x, 0)) {
            Some(Target::GridHeader { col }) => Some(col),
            _ => None,
        })
        .expect("no header");
    assert_eq!(first, 5);
}

#[test]
fn a_resized_column_is_laid_out_at_the_width_it_was_given() {
    let rows = numbers(3, 3);
    let mut ui = GridUi::default();
    let grid = RenderedGrid::new(Arc::clone(&rows));
    let area = Rect::new(0, 0, 60, 5);

    // Asked of the function that decides the widths. Reading them back out
    // of the hit map instead measures the resize seam as well, because it
    // is deliberately drawn over the end of the header it belongs to.
    let was = visible_columns(area, &grid, &ui)[0].2;
    ui.set_width(0, was + 6);

    let after = visible_columns(area, &grid, &ui);
    assert_eq!(after[0].2, was + 6);
    assert_eq!(
        after[1].1,
        after[0].1 + was + 6 + GAP,
        "the column beside it moves over by the same amount"
    );
}

#[test]
fn a_column_is_cut_at_the_pane_edge_rather_than_dropped() {
    let rows = numbers(3, 3);
    let mut ui = GridUi::default();
    let grid = RenderedGrid::new(Arc::clone(&rows));
    ui.set_width(0, 100);

    let area = Rect::new(0, 0, 20, 5);
    let columns = visible_columns(area, &grid, &ui);
    assert_eq!(columns.len(), 1, "{columns:?}");
    // Half a column can still be scrolled to; dropping it leaves a band of
    // empty pane beside the data.
    assert_eq!(columns[0].2, 20);
}

#[test]
fn a_selected_null_is_still_legible() {
    let rows = paged(
        vec![Column::new("v", "text", true)],
        vec![row(vec![Value::Null]), row(vec![Value::Null])],
    );
    let mut ui = GridUi::default();
    ui.row = 0;
    ui.col = 0;
    let (_, hits, buffer) = grid_screen(&tab(LoadState::Ready(rows), None), &mut ui, 20, 4);

    let at = |want: usize| {
        (0..20)
            .flat_map(|x| (0..4).map(move |y| (x, y)))
            .find(|&(x, y)| {
                matches!(
                    hits.at(Position::new(x, y)),
                    Some(Target::GridCell { row, .. }) if row == want
                )
            })
            .expect("cell not drawn")
    };
    let (sx, sy) = at(0);
    let (nx, ny) = at(1);

    assert_eq!(buffer[(sx, sy)].symbol(), NULL_GLYPH.to_string());
    // Dimmed dark grey on the selection's dark grey background is the glyph
    // disappearing, which is the confusion NULL_GLYPH exists to prevent.
    assert_ne!(
        buffer[(sx, sy)].style().fg,
        buffer[(sx, sy)].style().bg,
        "the selected null is invisible"
    );
    assert_eq!(
        buffer[(nx, ny)].symbol(),
        NULL_GLYPH.to_string(),
        "and the unselected one is unchanged"
    );
}

#[test]
fn every_load_state_says_something() {
    let mut ui = GridUi::default();
    for (state, expected) in [
        (LoadState::Idle, "select a table"),
        (LoadState::Loading, "loading"),
        (LoadState::Failed("boom".into()), "boom"),
    ] {
        let (text, _, _) = grid_screen(&tab(state, None), &mut ui, 40, 5);
        assert!(text[0].contains(expected), "{:?}", text[0]);
    }
}

#[test]
fn an_empty_relation_still_shows_its_columns() {
    let rows = paged(
        vec![
            Column::new("id", "int8", false),
            Column::new("v", "text", true),
        ],
        Vec::new(),
    );
    let mut ui = GridUi::default();
    let (text, _, _) = grid_screen(&tab(LoadState::Ready(rows), None), &mut ui, 40, 5);
    // Headers without rows read as "nothing here"; nothing at all reads as
    // "nothing happened".
    assert!(text[0].contains("id"), "{:?}", text[0]);
    assert!(text.iter().any(|l| l.contains("no rows")), "{text:?}");
}

#[test]
fn a_cut_value_says_that_it_was_cut() {
    let rows = paged(
        vec![
            Column::new("a", "text", false),
            Column::new("b", "text", false),
        ],
        vec![row(vec![
            Value::Text("x".repeat(100)),
            Value::Text("edge".into()),
        ])],
    );
    let mut ui = GridUi::default();
    ui.set_width(0, 6);
    let (text, _, _) = grid_screen(&tab(LoadState::Ready(rows), None), &mut ui, 30, 4);

    // Not that it stays inside its column — ratatui clips it there whether
    // anything asks or not, so asserting that tests ratatui. The ellipsis
    // is the part only this code can add, and without it a value that was
    // cut reads as a value that was complete.
    assert!(text[1].starts_with("xxxxx…"), "{:?}", text[1]);
    assert!(text[1].contains("edge"), "{:?}", text[1]);
}

#[test]
fn a_double_width_value_is_cut_on_a_character_boundary() {
    let rows = paged(
        vec![
            Column::new("a", "text", false),
            Column::new("b", "text", false),
        ],
        vec![row(vec![
            Value::Text("日本語日本語".into()),
            Value::Text("end".into()),
        ])],
    );
    let mut ui = GridUi::default();
    ui.set_width(0, 6);
    let (text, _, buffer) = grid_screen(&tab(LoadState::Ready(rows), None), &mut ui, 30, 4);

    // Read cell by cell: each double-width character occupies two, so the
    // six-cell column holds exactly two of them and the ellipsis. Measured
    // in characters it would have fitted five and left the sixth broken
    // across the boundary.
    assert_eq!(buffer[(0, 1)].symbol(), "日");
    assert_eq!(buffer[(2, 1)].symbol(), "本");
    assert_eq!(buffer[(4, 1)].symbol(), "…");
    assert!(text[1].contains("end"), "{:?}", text[1]);
}

#[test]
fn a_pane_too_short_for_a_body_still_draws_the_header() {
    let mut ui = GridUi::default();
    let (text, _, _) = grid_screen(&tab(LoadState::Ready(numbers(10, 2)), None), &mut ui, 30, 1);
    assert!(text[0].contains("c0"), "{:?}", text[0]);
}

// ── one value ──────────────────────────────────────────────────────────────

fn of(value: &Value) -> RenderedDetail {
    RenderedDetail::of("c", "t", value)
}

fn detail_screen(detail: Option<&RenderedDetail>, w: u16, h: u16) -> String {
    detail_at(detail, w, h, 0)
}

fn detail_at(detail: Option<&RenderedDetail>, w: u16, h: u16, offset: usize) -> String {
    let (rows, _, _) = draw(
        |canvas| detail::render(canvas, Rect::new(0, 0, w, h), detail, offset),
        w,
        h,
    );
    rows.join("\n")
}

#[test]
fn the_pane_says_which_column_and_type_it_is_showing() {
    let detail = RenderedDetail::of("email", "text", &Value::Text("a@example.com".into()));
    let screen = detail_screen(Some(&detail), 40, 5);
    assert!(screen.contains("email"), "{screen}");
    assert!(screen.contains("text"), "{screen}");
    assert!(screen.contains("a@example.com"), "{screen}");
}

#[test]
fn a_long_value_wraps_rather_than_being_cut() {
    // Cutting here would leave the pane showing the same abbreviation the
    // grid already showed, in more space.
    let long = "ab".repeat(60);
    let detail = RenderedDetail::of("c", "text", &Value::Text(long));
    let screen = detail_screen(Some(&detail), 20, 12);
    let body: String = screen.lines().skip(1).collect();
    assert!(
        body.matches("ab").count() > 20,
        "the value was cut at the pane's width: {screen}"
    );
}

#[test]
fn a_value_taller_than_the_pane_can_be_scrolled_to() {
    // Without this the pane shows six rows of a value the grid had already
    // shown 512 characters of — less than the thing it was opened to get
    // past.
    let lines: Vec<String> = (0..40).map(|i| format!("line{i}")).collect();
    let detail = RenderedDetail::of("c", "text", &Value::Text(lines.join("\n")));

    let top = detail_at(Some(&detail), 20, 8, 0);
    let down = detail_at(Some(&detail), 20, 8, 30);
    assert!(top.contains("line0"), "{top}");
    assert!(!top.contains("line35"), "{top}");
    assert!(down.contains("line35"), "{down}");
}

#[test]
fn a_pane_with_nothing_chosen_says_so() {
    let screen = detail_screen(None, 30, 4);
    assert!(screen.contains("no cell selected"), "{screen}");
}

#[test]
fn a_value_the_grid_had_to_cut_is_here_in_full() {
    // The whole reason for this pane. `MAX_CELL_CHARS` is 512, so a test
    // written against a shorter value would pass on a pane built out of
    // `RenderedGrid` — which shows the same abbreviation in more room.
    let long = "x".repeat(MAX_CELL_CHARS * 4);
    let detail = of(&Value::Text(long.clone()));
    assert_eq!(detail.lines.len(), 1);
    assert_eq!(detail.lines[0].text, long);
}

#[test]
fn a_document_is_a_document_rather_than_two_keys() {
    let value = Value::Struct(vec![
        ("name".into(), Value::Text("ada".into())),
        (
            "address".into(),
            Value::Struct(vec![("city".into(), Value::Text("London".into()))]),
        ),
    ]);
    let detail = of(&value);
    let shape: Vec<(u8, Option<&str>, &str)> = detail
        .lines
        .iter()
        .map(|l| (l.depth, l.label.as_deref(), l.text.as_str()))
        .collect();
    assert_eq!(
        shape,
        [
            (0, None, ""),
            (1, Some("name"), "ada"),
            (1, Some("address"), ""),
            (2, Some("city"), "London"),
        ]
    );
}

#[test]
fn an_arrays_elements_are_not_given_invented_names() {
    let detail = of(&Value::Array(vec![Value::Int(1), Value::Int(2)]));
    assert!(
        detail.lines[1..].iter().all(|l| l.label.is_none()),
        "an element was labelled with something the value does not carry"
    );
}

#[test]
fn a_newline_survives_as_a_newline() {
    // The grid writes `␊` because a real newline would break the row it is
    // drawn in. Here there are lines to spare, and the escape would be the
    // thing standing between somebody and the value.
    let detail = of(&Value::Text("a\nb".into()));
    assert!(detail.lines[0].text.contains('\n'), "{:?}", detail.lines[0]);

    // And as a *drawn* one. Left inside a span the newline is scored zero
    // columns and dropped, which draws the value as `ab` — a different
    // value, and one the grid's `␊` would at least not have claimed.
    let screen = detail_screen(Some(&detail), 20, 6);
    let body: Vec<&str> = screen.lines().skip(1).collect();
    assert!(body[0].contains('a') && !body[0].contains('b'), "{screen}");
    assert!(body[1].contains('b'), "{screen}");
}

#[test]
fn a_tab_is_spent_as_spaces_rather_than_vanishing() {
    let detail = of(&Value::Text("a\tb".into()));
    let screen = detail_screen(Some(&detail), 20, 4);
    assert!(screen.contains("a    b"), "{screen}");
}

#[test]
fn an_escape_sequence_does_not_reach_the_terminal() {
    // A pane with room for the value is not a reason to write a value that
    // rewrites the screen.
    let detail = of(&Value::Text("\u{1b}[2Jgone".into()));
    assert!(
        !detail.lines[0].text.contains('\u{1b}'),
        "{:?}",
        detail.lines[0]
    );
}

#[test]
fn an_empty_document_is_still_a_value() {
    assert_eq!(of(&Value::Struct(Vec::new())).lines[0].text, "{}");
    assert_eq!(of(&Value::Array(Vec::new())).lines[0].text, "[]");
}

#[test]
fn nesting_past_the_limit_is_shown_rather_than_dropped() {
    let mut value = Value::Int(1);
    for _ in 0..(MAX_DEPTH + 4) {
        value = Value::Array(vec![value]);
    }
    let detail = of(&value);
    assert!(detail.lines.iter().all(|l| l.depth <= MAX_DEPTH));
    // `[]` would satisfy "not empty" while saying the array holds nothing,
    // which is the one thing the limit must not do: the reader cannot tell
    // it apart from an array that really is empty.
    assert!(
        detail.lines.last().expect("a line").text.contains('1'),
        "the value past the depth limit was dropped instead of shown: {:?}",
        detail.lines.last()
    );
}

#[test]
fn a_struct_past_the_limit_is_not_reported_as_empty() {
    let mut value = Value::Struct(vec![("k".into(), Value::Text("v".into()))]);
    for _ in 0..(MAX_DEPTH + 4) {
        value = Value::Struct(vec![("a".into(), value)]);
    }
    let detail = of(&value);
    let last = detail.lines.last().expect("a line");
    assert_ne!(last.text, "{}", "a struct with fields was drawn as empty");
    assert!(last.text.contains('v'), "{last:?}");
}

#[test]
fn a_blob_shows_at_least_what_the_grid_showed() {
    // Opening the pane on a `bytea` must not replace the bytes the grid
    // already had room for with a count of them.
    let detail = of(&Value::Bytes(vec![0xde, 0xad, 0xbe, 0xef]));
    assert_eq!(detail.lines[0].text, "0xdeadbeef");
}

#[test]
fn a_decimal_is_sanitised_like_every_other_string_from_a_driver() {
    let detail = of(&Value::Decimal("1\u{1b}[2J0".into()));
    assert!(
        !detail.lines[0].text.contains('\u{1b}'),
        "{:?}",
        detail.lines[0]
    );
}

// ── definitions and the history ────────────────────────────────────────────

fn definition(section_titles: &[&str]) -> Laid {
    Laid::out(&described(section_titles, None))
}

fn described(section_titles: &[&str], ddl: Option<&str>) -> TableDetail {
    TableDetail {
        edition: edition(),
        kind: "table".to_owned(),
        comment: None,
        columns: vec![ColumnDetail {
            name: "id".to_owned(),
            type_label: "integer".to_owned(),
            nullable: false,
            default: None,
            comment: None,
        }],
        sections: section_titles
            .iter()
            .map(|title| Section {
                title: (*title).to_owned(),
                table: paged(
                    vec![Column::new("name", "text", false)],
                    vec![row(vec![Value::Text("a".to_owned())])],
                ),
            })
            .collect(),
        ddl: ddl.map(str::to_owned),
        stats: vec![("Rows".to_owned(), "12".to_owned())],
    }
}

fn sections_screen(definition: &Laid, selected: usize, w: u16) -> (String, Rect, HitMap) {
    let mut grid = Rect::default();
    let (rows, hits, _) = draw(
        |canvas| grid = sections(canvas, Rect::new(0, 0, w, 6), definition, selected),
        w,
        6,
    );
    (rows.join("\n"), grid, hits)
}

#[test]
fn columns_lead_and_the_driver_names_the_rest() {
    let definition = definition(&["Indexes", "Partitioning"]);
    assert_eq!(definition.titles(), ["Columns", "Indexes", "Partitioning"]);
    let (screen, _, _) = sections_screen(&definition, 0, 60);
    assert!(screen.contains("Columns"), "{screen}");
    assert!(screen.contains("Indexes"), "{screen}");
}

#[test]
fn the_grid_gets_what_the_list_did_not_take() {
    let definition = definition(&["Indexes"]);
    let (_, grid, _) = sections_screen(&definition, 0, 60);
    assert_eq!(grid.x, LIST_WIDTH);
    assert_eq!(grid.width, 60 - LIST_WIDTH);
}

#[test]
fn a_pane_too_narrow_for_both_gives_it_all_to_the_grid() {
    // The list names what you could look at; the grid is what you are
    // looking at, and the second is the one worth the columns.
    let definition = definition(&["Indexes"]);
    let (_, grid, _) = sections_screen(&definition, 0, 20);
    assert_eq!(grid.width, 20);
    assert_eq!(grid.x, 0);
}

#[test]
fn every_section_is_a_target_a_pointer_can_reach() {
    let definition = definition(&["Indexes", "Partitioning"]);
    let (_, _, hits) = sections_screen(&definition, 0, 60);
    for index in 0..definition.titles().len() {
        let at = hits.at(Position::new(1, u16::try_from(index).unwrap()));
        assert_eq!(at, Some(Target::Section { index }), "section {index}");
    }
}

#[test]
fn the_box_says_what_is_in_it_and_how_much_it_found() {
    let mut left = Rect::default();
    let filter = Filter { text: "orders".to_owned(), editing: true };
    let (rows, _, _) = draw(
        |canvas| left = search_box(canvas, Rect::new(0, 0, 60, 6), &filter, 7),
        60,
        6,
    );
    let screen = rows.join("\n");
    assert!(screen.contains("orders"), "{screen}");
    assert!(screen.contains("7 runs"), "{screen}");
    assert_eq!(left.height, 5, "the grid gets the rest");
}

// ── over everything else ───────────────────────────────────────────────────

#[test]
fn a_click_beside_a_dialog_cannot_reach_what_is_behind_it() {
    let dialog = Modal::error("Failed", "could not connect");
    let (_, hits, _) = draw(
        |canvas| {
            // Something clickable underneath, as the real screen has.
            canvas.hit(
                Rect::new(0, 0, 80, 24),
                Z_CONTENT,
                Target::TreeRow { index: 0 },
            );
            modal(canvas, Rect::new(0, 0, 80, 24), &dialog);
        },
        80,
        24,
    );

    // Without the backdrop this is the tree row, and a confirmation dialog
    // becomes a way to trigger the thing it was confirming.
    assert_eq!(hits.at(Position::new(1, 1)), Some(Target::Backdrop));
}

#[test]
fn a_click_on_the_dialog_does_not_dismiss_it() {
    let dialog = Modal::error("Failed", "could not connect");
    let (_, hits, _) = draw(
        |canvas| modal(canvas, Rect::new(0, 0, 80, 24), &dialog),
        80,
        24,
    );

    // Pressing on the question is not an answer to it.
    assert_eq!(hits.at(Position::new(40, 12)), Some(Target::Modal));
}

#[test]
fn a_dialog_can_be_left_with_the_pointer() {
    let dialog = Modal::error("Failed", "could not connect");
    let (text, hits, _) = draw(
        |canvas| modal(canvas, Rect::new(0, 0, 80, 24), &dialog),
        80,
        24,
    );

    assert!(text.iter().any(|l| l.contains("Dismiss")), "{text:?}");
    let found = (0..80)
        .flat_map(|x| (0..24).map(move |y| (x, y)))
        .any(|(x, y)| {
            hits.at(Position::new(x, y)) == Some(Target::Button(ButtonId::DismissModal))
        });
    assert!(found, "a dialog only Esc can leave is one a pointer cannot");
}

#[test]
fn the_dialog_says_what_went_wrong() {
    let dialog = Modal::error("Connection failed", "could not connect: refused");
    let (text, _, _) = draw(
        |canvas| modal(canvas, Rect::new(0, 0, 80, 24), &dialog),
        80,
        24,
    );
    assert!(
        text.iter().any(|l| l.contains("Connection failed")),
        "{text:?}"
    );
    assert!(text.iter().any(|l| l.contains("refused")), "{text:?}");
}

#[test]
fn a_long_message_wraps_instead_of_being_cut() {
    let body = "a ".repeat(120);
    let dialog = Modal::error("Failed", &body);
    let (text, _, _) = draw(
        |canvas| modal(canvas, Rect::new(0, 0, 80, 24), &dialog),
        80,
        24,
    );
    let lines = text.iter().filter(|l| l.contains("a a")).count();
    assert!(lines > 1, "wrapped onto one line only: {text:?}");
}

#[test]
fn a_message_of_long_words_is_not_cut_off_at_the_bottom() {
    // Words wider than half the box take a row each, so measuring the
    // message as if it wrapped mid-word makes the box too short and the
    // last thing the driver said is the part that goes missing.
    let words: Vec<String> = (0..8).map(|i| format!("{}{i}", "x".repeat(39))).collect();
    let dialog = Modal::error("Failed", &words.join(" "));
    let (text, _, _) = draw(
        |canvas| modal(canvas, Rect::new(0, 0, 80, 24), &dialog),
        80,
        24,
    );
    let last = words.last().expect("no words");
    assert!(
        text.iter().any(|l| l.contains(last.as_str())),
        "the end of the message was cut: {text:?}"
    );
}

#[test]
fn a_dialog_taller_than_the_screen_still_fits_on_it() {
    let dialog = Modal::error("Failed", &"x ".repeat(400));
    let (_, hits, _) = draw(
        |canvas| modal(canvas, Rect::new(0, 0, 40, 8), &dialog),
        40,
        8,
    );
    // It fills the screen rather than being drawn off it — and the way
    // out has to survive that, or a small terminal traps the user in a
    // dialog with no visible answer.
    let button = (0..40)
        .flat_map(|x| (0..8).map(move |y| (x, y)))
        .any(|(x, y)| {
            hits.at(Position::new(x, y)) == Some(Target::Button(ButtonId::DismissModal))
        });
    assert!(button, "no way out on a small screen");
    assert_eq!(hits.at(Position::new(0, 0)), Some(Target::Modal));
}

#[test]
fn a_newline_in_the_body_does_not_become_a_line_of_its_own() {
    // A raw newline reaches Paragraph as a line break, so the message
    // silently gains rows and the box grows to hold them — driver text
    // deciding how big the dialog is.
    let one = Modal::error("Failed", "alpha beta");
    let two = Modal::error("Failed", "alpha\nbeta");

    let rows_of = |dialog: &Modal| {
        let (text, _, _) = draw(
            |canvas| modal(canvas, Rect::new(0, 0, 60, 12), dialog),
            60,
            12,
        );
        text.iter().filter(|l| l.contains("alpha")).count()
            + text.iter().filter(|l| l.contains("beta")).count()
    };
    assert_eq!(rows_of(&one), rows_of(&two), "the newline added a row");

    let (text, _, _) = draw(
        |canvas| modal(canvas, Rect::new(0, 0, 60, 12), &two),
        60,
        12,
    );
    assert!(text.join("").contains('␊'), "{text:?}");
}

#[test]
fn a_control_character_in_the_title_cannot_break_the_box() {
    let dialog = Modal::error("we\nird", "body");
    let (text, _, _) = draw(
        |canvas| modal(canvas, Rect::new(0, 0, 60, 12), &dialog),
        60,
        12,
    );
    assert!(text.join("").contains('␊'), "{text:?}");
}

#[test]
fn every_toast_can_be_dismissed_by_clicking_it() {
    let snap = notices(vec![
        (Severity::Info, "connected"),
        (Severity::Error, "boom"),
    ]);
    let (_, hits, _) = draw(
        |canvas| toasts(canvas, Rect::new(0, 0, 80, 24), &snap),
        80,
        24,
    );

    let found: BTreeSet<_> = (0..80)
        .flat_map(|x| (0..24).map(move |y| (x, y)))
        .filter_map(|(x, y)| match hits.at(Position::new(x, y)) {
            Some(Target::Toast(id)) => Some(id),
            _ => None,
        })
        .collect();
    assert_eq!(found.len(), 2, "{found:?}");
}

#[test]
fn a_new_toast_does_not_shift_the_one_being_read() {
    let first = notices(vec![(Severity::Info, "first")]);
    let (before, _, _) = draw(
        |canvas| toasts(canvas, Rect::new(0, 0, 80, 24), &first),
        80,
        24,
    );
    let row_of = |text: &[String], needle: &str| text.iter().position(|l| l.contains(needle));
    let was = row_of(&before, "first").expect("not drawn");

    let both = notices(vec![(Severity::Info, "first"), (Severity::Error, "second")]);
    let (after, _, _) = draw(
        |canvas| toasts(canvas, Rect::new(0, 0, 80, 24), &both),
        80,
        24,
    );
    // The newest takes the bottom row and the older one moves up, so the
    // message being read does not jump out from under the pointer.
    assert_eq!(row_of(&after, "second"), Some(was));
    assert_eq!(row_of(&after, "first"), Some(was - 1));
}

#[test]
fn severity_is_visible_and_not_only_recorded() {
    for (severity, badge) in [
        (Severity::Info, "i"),
        (Severity::Warning, "!"),
        (Severity::Error, "✕"),
    ] {
        let snap = notices(vec![(severity, "message")]);
        let (text, _, _) = draw(
            |canvas| toasts(canvas, Rect::new(0, 0, 40, 6), &snap),
            40,
            6,
        );
        assert!(text.join("").contains(badge), "{severity:?}: {text:?}");
    }
}

#[test]
fn more_toasts_than_rows_do_not_draw_off_the_top() {
    let snap = notices((0..30).map(|_| (Severity::Info, "message")).collect());
    let (_, hits, _) = draw(
        |canvas| toasts(canvas, Rect::new(0, 2, 40, 3), &snap),
        40,
        6,
    );
    for y in 0..2 {
        assert_eq!(hits.at(Position::new(39, y)), None, "row {y} is not ours");
    }
}

#[test]
fn a_toast_wider_than_the_screen_is_cut_to_it() {
    let long = "x".repeat(200);
    let snap = notices(vec![(Severity::Error, &long)]);
    let (text, _, _) = draw(
        |canvas| toasts(canvas, Rect::new(0, 0, 30, 4), &snap),
        30,
        4,
    );
    assert!(text.iter().any(|l| l.contains('…')), "{text:?}");
}

#[test]
fn the_labels_say_what_the_selection_is() {
    let one = Menu::for_grid((0, 0), false);
    let many = Menu::for_grid((0, 0), true);
    assert!(one.entries.iter().any(|e| e.label.contains("cell")));
    assert!(many.entries.iter().any(|e| e.label.contains("selection")));
    assert_eq!(
        one.entries.len(),
        many.entries.len(),
        "a menu whose entries come and go is one nobody can learn"
    );
}

#[test]
fn a_menu_near_an_edge_is_moved_rather_than_cut() {
    let screen = Rect::new(0, 0, 80, 24);
    let menu = Menu::for_grid((78, 23), true);
    let area = placed(screen, &menu);
    assert!(area.right() <= screen.right(), "{area:?}");
    assert!(area.bottom() <= screen.bottom(), "{area:?}");
}

#[test]
fn a_menu_bigger_than_the_screen_still_fits_inside_it() {
    let screen = Rect::new(0, 0, 10, 3);
    let area = placed(screen, &Menu::for_grid((0, 0), true));
    assert!(area.width <= screen.width && area.height <= screen.height);
}

// ── the palette ────────────────────────────────────────────────────────────

fn template(name: &str) -> Template {
    Template {
        id: TemplateId(1),
        name: name.to_owned(),
        body: "select 1".to_owned(),
        driver: None,
    }
}

fn palette_screen(
    palette: &Palette,
    templates: &Vec<Template>,
    unavailable: Option<&str>,
) -> String {
    let (rows, _, _) = draw(
        |canvas| {
            palette::render(canvas, Rect::new(0, 0, 60, 16), palette, templates, unavailable)
        },
        60,
        16,
    );
    rows.join("\n")
}

#[test]
fn a_filter_matches_anywhere_in_the_name() {
    // A palette that only matches from the start is one where `orders`
    // never finds `daily orders`.
    let templates = vec![template("daily orders"), template("users by day")];
    let palette = Palette {
        filter: "orders".to_owned(),
        ..Palette::opening()
    };
    let names: Vec<&str> = palette
        .matching(&templates)
        .into_iter()
        .map(|i| templates[i].name.as_str())
        .collect();
    assert_eq!(names, ["daily orders"]);
}

#[test]
fn the_filter_ignores_case() {
    let templates = vec![template("Daily Orders")];
    let palette = Palette {
        filter: "daily".to_owned(),
        ..Palette::opening()
    };
    assert_eq!(palette.matching(&templates).len(), 1);
}

#[test]
fn the_selection_stops_at_the_ends() {
    let templates = vec![template("one"), template("two")];
    let mut palette = Palette::opening();
    palette.move_selection(-1, templates.len());
    assert_eq!(palette.selected, 0, "it should not wrap to the bottom");
    palette.move_selection(10, templates.len());
    assert_eq!(palette.selected, 1, "nor past the end");
}

#[test]
fn an_empty_list_leaves_the_selection_where_it_can_be_drawn() {
    let mut palette = Palette::opening();
    palette.move_selection(5, 0);
    assert_eq!(palette.selected, 0);
    assert_eq!(palette.picked(&Vec::new()), None);
}

#[test]
fn every_row_is_something_a_pointer_can_reach() {
    let templates = vec![template("one"), template("two")];
    let (_, hits, _) = draw(
        |canvas| {
            palette::render(
                canvas,
                Rect::new(0, 0, 60, 16),
                &Palette::opening(),
                &templates,
                None,
            )
        },
        60,
        16,
    );
    let rows: Vec<usize> = (0..16)
        .flat_map(|y| (0..60).map(move |x| (x, y)))
        .filter_map(|(x, y)| match hits.at(Position::new(x, y)) {
            Some(Target::PaletteRow { index }) => Some(index),
            _ => None,
        })
        .collect();
    assert!(rows.contains(&0) && rows.contains(&1), "{rows:?}");
}

#[test]
fn a_session_keeping_nothing_says_so_where_the_list_would_be() {
    let screen = palette_screen(&Palette::opening(), &Vec::new(), Some("not keeping anything"));
    assert!(screen.contains("not keeping anything"), "{screen}");
}

#[test]
fn a_filter_that_matches_nothing_says_so() {
    let palette = Palette {
        filter: "zzz".to_owned(),
        ..Palette::opening()
    };
    let screen = palette_screen(&palette, &vec![template("one")], None);
    assert!(screen.contains("nothing saved matches"), "{screen}");
}

#[test]
fn a_form_says_which_answers_are_names() {
    // The kind decides the quoting, so it decides what somebody should
    // type — and that is worth saying rather than leaving to be discovered
    // by the statement coming out wrong.
    let form = Form::new(
        TemplateId(1),
        "daily".to_owned(),
        &vec![
            Placeholder {
                name: "table".to_owned(),
                kind: Kind::Ident,
            },
            Placeholder {
                name: "since".to_owned(),
                kind: Kind::Value,
            },
        ],
        |_: &Placeholder| None,
    );
    let screen = palette_screen(
        &Palette {
            asking: Some(form),
            ..Palette::opening()
        },
        &Vec::new(),
        None,
    );
    assert!(screen.contains("table (name)"), "{screen}");
    assert!(screen.contains("since:"), "{screen}");
    assert!(
        screen.contains("daily"),
        "the title says what is being filled in"
    );
}

#[test]
fn a_form_starts_on_what_the_screen_already_knows() {
    let form = Form::new(
        TemplateId(1),
        "daily".to_owned(),
        &vec![Placeholder {
            name: "table".to_owned(),
            kind: Kind::Ident,
        }],
        |p: &Placeholder| if p.name == "table" { Some("public.users".to_owned()) } else { None },
    );
    assert_eq!(form.fields[0].value, "public.users");
    assert_eq!(form.values(), [("table".to_owned(), "public.users".to_owned())]);
}

#[test]
fn a_driver_a_template_is_for_is_shown_beside_it() {
    let mut only_pg = template("pg only");
    only_pg.driver = Some("postgres".to_owned());
    let screen = palette_screen(&Palette::opening(), &vec![only_pg], None);
    assert!(screen.contains("postgres"), "{screen}");
}

// ── a statement ────────────────────────────────────────────────────────────

fn sql_screen(text: &str, offset: usize, height: u16) -> String {
    let (rows, _, _) = draw(
        |canvas| sql::render(canvas, Rect::new(0, 0, 30, height), text, offset, None),
        30,
        height,
    );
    rows.join("\n")
}

#[test]
fn an_empty_buffer_says_how_to_fill_it() {
    assert!(sql_screen("", 0, 3).contains("Press e"));
    // Whitespace is not a query either, and a pane showing three blank
    // lines is one nobody can tell from a broken one.
    assert!(sql_screen("\n  \n", 0, 3).contains("Press e"));
}

#[test]
fn the_offset_is_the_first_line_drawn() {
    let text = "one\ntwo\nthree";
    let screen = sql_screen(text, 1, 2);
    assert!(screen.contains("two"), "{screen}");
    assert!(!screen.contains("one"), "{screen}");
}

#[test]
fn a_control_character_in_the_buffer_does_not_reach_the_terminal() {
    // The buffer is a file the user's editor wrote, so it is data like a
    // cell is: an escape sequence in it must not be executed by the
    // terminal drawing it.
    let screen = sql_screen("select \u{1b}[31m1", 0, 1);
    assert!(!screen.contains('\u{1b}'), "{screen}");
}


// ── a whole frame ──────────────────────────────────────────────────────────

fn frame(snapshot: &Snapshot, ui: &mut UiState, w: u16, h: u16) -> (Vec<String>, HitMap) {
    let (rows, hits, _) =
        draw(|canvas| screen::draw(canvas, ui, snapshot, Rect::new(0, 0, w, h)), w, h);
    (rows, hits)
}

#[test]
fn an_empty_explorer_says_which_kind_of_empty_it_is() {
    // Two different problems that look identical on screen: nothing to
    // connect to, and nothing connected yet. Only one of them is fixed by
    // pressing a key, and a blank pane says neither.
    let mut ui = UiState::new();
    let fresh = Snapshot::empty();
    let (rows, _) = frame(&fresh, &mut ui, 120, 30);
    let screen = rows.join("\n");
    assert!(screen.contains("no connections"), "{screen}");

    let configured = Snapshot { profiles: vec![profile("mock")], ..Snapshot::empty() };
    let (rows, _) = frame(&configured, &mut ui, 120, 30);
    let screen = rows.join("\n");
    assert!(screen.contains("nothing connected"), "{screen}");
    assert!(!screen.contains("no connections"), "{screen}");

    // And a third: the tree is empty because the handshake has not
    // finished. Telling the user to press `c` here would open a second
    // connection to the profile they are already waiting for.
    let connecting = Snapshot {
        connections: vec![connection(ConnId(1), "mock", ConnStatus::Connecting)],
        profiles: vec![profile("mock")],
        ..Snapshot::empty()
    };
    let (rows, _) = frame(&connecting, &mut ui, 120, 30);
    let screen = rows.join("\n");
    assert!(screen.contains("connecting"), "{screen}");
    assert!(!screen.contains("press c"), "{screen}");
}

const CONN: ConnId = ConnId(1);

/// One live connection that sorts, with a preview of `users` on it.
fn connected(preview: Option<LoadState<Arc<PagedResult>>>) -> Snapshot {
    let mut root = node(0, "prod", NodeState::Expanded);
    root.node_ref = NodeRef::new(NodeKind::Root, Vec::new());
    Snapshot {
        profiles: vec![profile("prod")],
        connections: vec![ConnectionView {
            capabilities: Some(Capabilities { sort_preview: true }),
            ..connection(CONN, "prod", ConnStatus::Ready)
        }],
        explorer: vec![root, relation(1, "users")],
        previews: preview.map(|data| tab(data, None)).into_iter().collect(),
        ..Snapshot::empty()
    }
}

fn opened(snapshot: &Snapshot) -> (UiState, TabId) {
    let mut ui = UiState::new();
    let _ = ui.apply(ViewCmd::OpenTab { conn: CONN, table: table("users") }, snapshot);
    let id = ui.active_tab.expect("a tab");
    (ui, id)
}

fn all_targets(hits: &HitMap, w: u16, h: u16) -> Vec<Target> {
    (0..h)
        .flat_map(|y| (0..w).map(move |x| (x, y)))
        .filter_map(|(x, y)| hits.at(Position::new(x, y)))
        .collect()
}

#[test]
fn an_open_relation_is_drawn_from_one_end_of_the_screen_to_the_other() {
    let snapshot = connected(Some(LoadState::Ready(numbers(50, 3))));
    let (mut ui, _) = opened(&snapshot);
    let (rows, hits) = frame(&snapshot, &mut ui, 100, 30);
    let screen = rows.join("\n");
    for word in ["Explorer", "prod", "users", "c0", "c2", "drag to select"] {
        assert!(screen.contains(word), "{word}: {screen}");
    }
    let found = all_targets(&hits, 100, 30);
    for pane in [PaneId::TabBar, PaneId::Explorer, PaneId::Grid, PaneId::StatusBar] {
        assert!(found.contains(&Target::Pane(pane)), "{pane:?}");
    }
    assert!(found.contains(&Target::GridCell { row: 0, col: 0 }));
    assert!(found.contains(&Target::GridHeader { col: 0 }));
    assert!(found.contains(&Target::Splitter(SplitId::Explorer)));
    assert!(found.contains(&Target::Button(ButtonId::NewSqlTab)));
}

#[test]
fn the_grids_viewport_is_its_rows() {
    let snapshot = connected(Some(LoadState::Ready(numbers(50, 3))));
    let (mut ui, _) = opened(&snapshot);
    let outer = layout(Rect::new(0, 0, 100, 30), &mut ui).grid;
    let _ = frame(&snapshot, &mut ui, 100, 30);
    let rows = ui.viewport(PaneId::Grid);
    assert_eq!(rows.height, outer.height - 3);
    assert_eq!(rows.width, outer.width - 3);
    assert_eq!(rows, body_area(outer.inner()));
    assert_eq!(ui.screen, Rect::new(0, 0, 100, 30));
}

#[test]
fn the_search_box_is_not_part_of_the_explorers_viewport() {
    let snapshot = connected(None);
    let mut ui = UiState::new();
    let _ = frame(&snapshot, &mut ui, 100, 30);
    let without = ui.viewport(PaneId::Explorer).height;
    ui.filter = Some(Filter::opening());
    let _ = frame(&snapshot, &mut ui, 100, 30);
    assert_eq!(ui.viewport(PaneId::Explorer).height, without - 1);
    assert_eq!(
        rows_area(Rect::new(0, 0, 10, 5), Some("x")),
        Rect::new(0, 1, 10, 4)
    );
}

#[test]
fn a_screen_too_small_says_so_and_draws_nothing_else() {
    let mut ui = UiState::new();
    let (rows, hits) = frame(&connected(None), &mut ui, 50, 10);
    assert!(rows.join("").contains("terminal is 50×10; sqlake needs 60×20"), "{rows:?}");
    assert!(hits.is_empty());
}

#[test]
fn the_pane_that_is_focused_is_the_one_marked() {
    let snapshot = connected(None);
    let mut ui = UiState::new();
    let (rows, _) = frame(&snapshot, &mut ui, 100, 30);
    assert!(rows[1].starts_with('┏'), "{:?}", rows[1]);
    ui.focus = PaneId::Grid;
    let (rows, _) = frame(&snapshot, &mut ui, 100, 30);
    assert!(rows[1].starts_with('┌'), "{:?}", rows[1]);
    assert!(rows[1].contains('┏'), "{:?}", rows[1]);
}

#[test]
fn a_dialog_is_drawn_over_the_notices() {
    let snapshot = connected(None);
    let mut ui = UiState::new();
    ui.warn("careful".to_owned());
    ui.raise_error("It failed", "because");
    let (rows, hits) = frame(&snapshot, &mut ui, 60, 20);
    assert!(rows.join("\n").contains("because"));
    for target in all_targets(&hits, 60, 20) {
        assert!(
            matches!(target, Target::Backdrop | Target::Modal | Target::Button(_)),
            "{target:?} is behind the dialog"
        );
    }
}

#[test]
fn a_question_offers_its_answers_beside_the_way_out() {
    let dialog = Modal::asking(
        "Run it?",
        "It costs.",
        vec![
            Choice {
                label: "Run it anyway".to_owned(),
                intent: Intent::App(Action::Quit),
            },
            Choice {
                label: "Later".to_owned(),
                intent: Intent::View(ViewCmd::DismissModal),
            },
        ],
    );
    let (rows, hits, buffer) =
        draw(|canvas| modal(canvas, Rect::new(0, 0, 80, 24), &dialog), 80, 24);
    let screen = rows.join("\n");
    assert!(screen.contains("Run it anyway"), "{screen}");
    let found = all_targets(&hits, 80, 24);
    for index in 0..2 {
        assert!(found.contains(&Target::Button(ButtonId::ModalChoice { index })), "{index}");
    }
    assert!(found.contains(&Target::Button(ButtonId::DismissModal)));
    // A question is not a mistake, and does not look like one.
    assert!(!(0..24).any(|y| {
        (0..80).any(|x| buffer[(x, y)].style().fg == Some(ratatui::style::Color::Red))
    }));
}

#[test]
fn a_menu_swallows_the_clicks_on_it() {
    let snapshot = connected(Some(LoadState::Ready(numbers(50, 3))));
    let (mut ui, _) = opened(&snapshot);
    ui.menu = Some(Menu::for_grid((40, 10), false));
    let (rows, hits) = frame(&snapshot, &mut ui, 100, 30);
    assert!(rows.join("\n").contains("Copy cell as CSV"));
    let area = placed(Rect::new(0, 0, 100, 30), ui.menu.as_ref().unwrap());
    assert_eq!(hits.at(Position::new(area.x, area.y)), Some(Target::Menu));
    assert_eq!(
        hits.at(Position::new(area.x + 1, area.y + 1)),
        Some(Target::MenuItem { index: 0 })
    );
}

#[test]
fn an_entry_that_cannot_be_chosen_is_drawn_and_is_no_target() {
    let mut menu = Menu::for_grid((0, 0), false);
    menu.entries[1].enabled = false;
    let (rows, hits, _) = draw(|canvas| menu::render(canvas, Rect::new(0, 0, 60, 20), &menu), 60, 20);
    assert!(rows[2].contains("Copy cell as CSV"), "{rows:?}");
    assert_eq!(hits.at(Position::new(3, 2)), Some(Target::Menu));
    assert_eq!(hits.at(Position::new(3, 3)), Some(Target::MenuItem { index: 2 }));
}

#[test]
fn a_grid_that_cannot_be_sorted_has_no_header_to_press() {
    let mut ui = GridUi::default();
    let (rows, hits, _) = draw(
        |canvas| {
            datagrid::render_rows(
                canvas,
                Rect::new(0, 0, 40, 6),
                &numbers(3, 3),
                &mut ui,
                false,
                None,
            )
        },
        40,
        6,
    );
    assert!(rows[0].contains("c0"));
    assert!(!all_targets(&hits, 40, 6).iter().any(|t| matches!(t, Target::GridHeader { .. })));
}

#[test]
fn the_pane_under_the_grid_reads_the_selected_cell() {
    let snapshot = connected(Some(LoadState::Ready(paged(
        vec![Column::new("note", "text", false)],
        vec![row(vec![Value::Text("a\nb".to_owned())])],
    ))));
    let (mut ui, _) = opened(&snapshot);
    ui.toggle_detail();
    let (rows, hits) = frame(&snapshot, &mut ui, 100, 30);
    let screen = rows.join("\n");
    assert!(screen.contains("note · text"), "{screen}");
    assert!(all_targets(&hits, 100, 30).contains(&Target::Pane(PaneId::Detail)));
    assert_eq!(ui.viewport(PaneId::Detail).height, 8);
}

#[test]
fn a_statement_the_server_objected_to_is_marked_on_its_line() {
    let (rows, _, buffer) = draw(
        |canvas| {
            sql::render(
                canvas,
                Rect::new(0, 0, 40, 4),
                "select\n  wrong\nfrom users",
                0,
                Some(2),
            )
        },
        40,
        4,
    );
    assert!(rows[1].contains("wrong"));
    assert_eq!(buffer[(3, 1)].style().fg, Some(ratatui::style::Color::Red));
    assert_ne!(buffer[(0, 0)].style().fg, Some(ratatui::style::Color::Red));
    assert_ne!(buffer[(0, 2)].style().fg, Some(ratatui::style::Color::Red));
}

#[test]
fn a_definition_shows_its_list_its_summary_and_one_section() {
    let mut snapshot = connected(None);
    let detail = Arc::new(described(&["Indexes"], Some("CREATE TABLE users (id integer)")));
    snapshot.definitions = vec![sqlake_tui::model::DefinitionView {
        conn: CONN,
        table: table("users"),
        data: LoadState::Ready(detail),
    }];
    let mut ui = UiState::new();
    let _ = ui.apply(ViewCmd::OpenDefinition { conn: CONN, table: table("users") }, &snapshot);
    let (rows, hits) = frame(&snapshot, &mut ui, 100, 30);
    let screen = rows.join("\n");
    for word in ["users: def", "Columns", "Indexes", "DDL", "table · rows: 12", "not null"] {
        assert!(screen.contains(word), "{word}: {screen}");
    }
    assert!(all_targets(&hits, 100, 30).contains(&Target::Section { index: 2 }));

    let _ = ui.apply(
        ViewCmd::SelectSection(sqlake_tui::intent::SectionPick::At(2)),
        &snapshot,
    );
    let (rows, _) = frame(&snapshot, &mut ui, 100, 30);
    assert!(rows.join("\n").contains("CREATE TABLE users"), "{rows:?}");
    assert_eq!(ui.sql_lines, 1);
}

#[test]
fn a_definition_nobody_will_answer_for_stops_saying_it_is_coming() {
    let mut snapshot = connected(None);
    let mut ui = UiState::new();
    let _ = ui.apply(ViewCmd::OpenDefinition { conn: CONN, table: table("users") }, &snapshot);
    let (rows, _) = frame(&snapshot, &mut ui, 100, 30);
    assert!(rows.join("\n").contains("describing…"), "{rows:?}");
    snapshot.connections[0].status = ConnStatus::Closed;
    let (rows, _) = frame(&snapshot, &mut ui, 100, 30);
    assert!(rows.join("\n").contains("the connection is closed"), "{rows:?}");
}

#[test]
fn the_history_is_a_search_box_over_its_runs() {
    let mut snapshot = connected(None);
    snapshot.history = sqlake_tui::model::HistoryView {
        edition: edition(),
        data: LoadState::Ready(vec![sqlake_tui::model::HistoryEntry {
            id: sqlake_tui::ids::RunId(1),
            issuer: None,
            sql: "select 1".to_owned(),
            started_at: Moment { seconds: 0, nanos: 0 },
            status: Some("ok".to_owned()),
            duration_ms: Some(3),
            row_count: Some(1),
            error: None,
        }]),
    };
    let mut ui = UiState::new();
    let _ = ui.apply(ViewCmd::OpenHistoryTab { conn: CONN }, &snapshot);
    let (rows, _) = frame(&snapshot, &mut ui, 100, 30);
    let screen = rows.join("\n");
    assert!(screen.contains("search"), "{screen}");
    assert!(screen.contains("1 runs"), "{screen}");
    assert!(screen.contains("select 1"), "{screen}");
}

#[test]
fn a_run_button_is_there_while_there_is_something_to_run() {
    let snap = with_jobs(1);
    let area = Rect::new(0, 0, 60, 1);
    let (rows, hits, _) =
        draw(|canvas| status_bar(canvas, area, &snap, Some((3, 2)), true), 60, 1);
    assert!(rows[0].contains("job 0"), "{rows:?}");
    assert!(rows[0].contains(" Run "), "{rows:?}");
    assert!(rows[0].contains("3×2 selected"), "{rows:?}");
    let found = all_targets(&hits, 60, 1);
    assert!(found.contains(&Target::Button(ButtonId::RunQuery)));
    assert!(found.contains(&Target::Button(ButtonId::Cancel(BusyId(0)))));
    let x = rows[0].chars().position(|c| c == 'R').unwrap() as u16;
    assert_eq!(
        hits.at(Position::new(x, 0)),
        Some(Target::Button(ButtonId::RunQuery))
    );
}

#[test]
fn a_plus_opens_a_tab_only_while_there_is_a_connection() {
    let ui = with_tabs(1);
    let area = Rect::new(0, 0, 40, 1);
    let plus = Target::Button(ButtonId::NewSqlTab);
    let (rows, hits, _) = draw(|canvas| tab_bar(canvas, area, &ui, true), 40, 1);
    assert!(rows[0].contains('+'), "{rows:?}");
    assert!(all_targets(&hits, 40, 1).contains(&plus));
    let (rows, hits, _) = draw(|canvas| tab_bar(canvas, area, &ui, false), 40, 1);
    assert!(!rows[0].contains('+'), "{rows:?}");
    assert!(!all_targets(&hits, 40, 1).contains(&plus));
}

#[test]
fn a_text_is_cut_to_columns_and_says_so() {
    assert_eq!(fit("abcdef", 6), "abcdef");
    assert_eq!(fit("abcdef", 4), "abc…");
    assert_eq!(fit("日本語", 4), "日…");
    assert_eq!(fit("abc", 0), "");
    assert_eq!(fit("", 0), "");
}

#[test]
fn a_caption_takes_one_line_and_leaves_the_rest() {
    let mut left = Rect::default();
    let (rows, _, _) = draw(
        |canvas| left = caption(canvas, Rect::new(0, 0, 8, 3), "a long caption"),
        8,
        3,
    );
    assert_eq!(rows[0], "a long …");
    assert_eq!(left, Rect::new(0, 1, 8, 2));
    assert_eq!(caption(&mut Canvas::new(), Rect::new(0, 4, 8, 0), "x"), Rect::new(0, 4, 8, 0));
}

#[test]
fn the_solver_gives_the_explorer_exactly_its_share() {
    let mut ui = UiState::new();
    ui.explorer_width = Some(30);
    ui.toggle_detail();
    let f = layout(Rect::new(3, 2, 120, 40), &mut ui);
    assert_eq!(f.tab_bar, Rect::new(3, 2, 120, 1));
    assert_eq!(f.explorer, Rect::new(3, 3, 30, 38));
    assert_eq!(f.splitter, Rect::new(33, 3, 1, 38));
    assert_eq!(f.grid, Rect::new(34, 3, 89, 30));
    assert_eq!(f.detail, Rect::new(34, 33, 89, 8));
    assert_eq!(f.status_bar, Rect::new(3, 41, 120, 1));
}

#[test]
fn a_screen_without_room_is_still_divided_inside_itself() {
    for (w, h) in [(0, 0), (1, 1), (5, 2), (20, 3), (13, 30)] {
        let area = Rect::new(0, 0, w, h);
        let f = layout(area, &mut UiState::new());
        for part in [f.tab_bar, f.explorer, f.splitter, f.grid, f.detail, f.status_bar] {
            assert!(part.right() <= w && part.bottom() <= h, "{part:?} of {w}×{h}");
        }
    }
}

#[test]
fn the_explorer_is_what_yields_on_a_screen_too_small_for_both_panes() {
    // One pane and the splitter are all there is.
    let f = layout(Rect::new(0, 0, 13, 3), &mut UiState::new());
    assert_eq!(f.tab_bar, Rect::new(0, 0, 13, 1));
    assert_eq!(f.explorer, Rect::new(0, 1, 0, 1));
    assert_eq!(f.splitter, Rect::new(0, 1, 1, 1));
    assert_eq!(f.grid, Rect::new(1, 1, 12, 1));
    assert_eq!(f.detail, Rect::new(1, 2, 12, 0));
    assert_eq!(f.status_bar, Rect::new(0, 2, 13, 1));

    let mut ui = UiState::new();
    ui.explorer_width = Some(30);
    let f = layout(Rect::new(2, 1, 20, 6), &mut ui);
    assert_eq!(f.explorer, Rect::new(2, 2, 7, 4));
    assert_eq!(f.splitter, Rect::new(9, 2, 1, 4));
    assert_eq!(f.grid, Rect::new(10, 2, 12, 4));
}

#[test]
fn a_saved_statement_is_listed_and_the_one_selected_is_marked() {
    let snapshot = Snapshot {
        templates: sqlake_tui::model::TemplatesView {
            data: LoadState::Ready(vec![template("daily"), template("weekly")]),
            failed: None,
        },
        ..connected(None)
    };
    let mut ui = UiState::new();
    ui.palette = Some(Palette::opening());
    let (rows, hits) = frame(&snapshot, &mut ui, 100, 30);
    let screen = rows.join("\n");
    assert!(screen.contains("saved statements"), "{screen}");
    assert!(screen.contains("weekly"), "{screen}");
    for target in all_targets(&hits, 100, 30) {
        assert!(
            matches!(target, Target::Backdrop | Target::Modal | Target::PaletteRow { .. }),
            "{target:?} is behind the palette"
        );
    }
}

#[test]
fn what_was_wrong_with_a_form_is_said_on_its_last_line() {
    let mut form = Form::new(
        TemplateId(1),
        "daily".to_owned(),
        &vec![Placeholder { name: "since".to_owned(), kind: Kind::Value }],
        |_: &Placeholder| None,
    );
    form.failed = Some("no such date".to_owned());
    let screen = palette_screen(
        &Palette { asking: Some(form), ..Palette::opening() },
        &Vec::new(),
        None,
    );
    assert!(screen.contains("no such date"), "{screen}");
}

#[test]
fn a_word_wider_than_the_box_has_no_empty_row_above_it() {
    assert_eq!(wrapped_rows("xxxxxxxxxx", 5), 2);
    assert_eq!(wrapped_rows("xxxxxxxxxxx", 5), 3);
    assert_eq!(wrapped_rows("xxxxx", 5), 1);
    assert_eq!(wrapped_rows("a xxxxxxxxxx", 5), 3);
    assert_eq!(wrapped_rows("", 5), 1);
    assert_eq!(wrapped_rows("anything", 0), 1);
}

#[test]
fn a_narrower_box_takes_no_fewer_rows() {
    let text = "the quick brown fox incomprehensibilities over it";
    let rows: Vec<u16> = (1..60).map(|width| wrapped_rows(text, width)).collect();
    assert!(rows.windows(2).all(|pair| pair[0] >= pair[1]), "{rows:?}");
}

#[test]
fn a_dialog_is_all_there_is_to_reach() {
    let snapshot = connected(Some(LoadState::Ready(numbers(50, 3))));
    let (mut ui, _) = opened(&snapshot);
    ui.toasts = notices(vec![(Severity::Info, "working")]);
    ui.palette = Some(Palette::opening());
    let (rows, hits) = frame(&snapshot, &mut ui, 200, 50);
    assert!(rows.join("\n").contains("saved statements"), "{rows:?}");
    for target in all_targets(&hits, 200, 50) {
        assert!(
            matches!(target, Target::Backdrop | Target::Modal | Target::PaletteRow { .. }),
            "{target:?}"
        );
    }

    ui.raise_error("The editor", "no such file");
    let (rows, hits) = frame(&snapshot, &mut ui, 200, 50);
    assert!(rows.join("\n").contains("no such file"), "{rows:?}");
    for target in all_targets(&hits, 200, 50) {
        assert!(
            matches!(
                target,
                Target::Backdrop
                    | Target::Modal
                    | Target::Button(ButtonId::DismissModal | ButtonId::ModalChoice { .. })
            ),
            "{target:?}"
        );
    }
    for y in 0..50 {
        for x in 0..200 {
            assert!(hits.at(Position::new(x, y)).is_some(), "{x} {y}");
        }
    }

    // And the palette is still there when the dialog is gone.
    ui.modal = None;
    let (rows, _) = frame(&snapshot, &mut ui, 200, 50);
    assert!(rows.join("\n").contains("saved statements"), "{rows:?}");
}

#[test]
fn of_two_fields_with_one_name_the_last_answers() {
    let place = |name: &str| Placeholder { name: name.to_owned(), kind: Kind::Ident };
    let mut form = Form::new(
        TemplateId(1),
        "daily".to_owned(),
        &vec![place("table"), place("since"), place("table")],
        |_: &Placeholder| None,
    );
    form.edit("first".to_owned());
    form.move_to(2);
    form.edit("last".to_owned());
    assert_eq!(
        form.values(),
        [
            ("since".to_owned(), String::new()),
            ("table".to_owned(), "last".to_owned()),
        ]
    );
}

#[test]
fn what_a_form_answers_comes_out_in_the_order_of_its_names() {
    let place = |name: &str| Placeholder { name: name.to_owned(), kind: Kind::Ident };
    let named = ["zone", "é", "area", "", "tables", "Zone", "table", "a\u{10000}", "a\u{ffff}", "area"];
    let places: Vec<Placeholder> = named.iter().map(|n| place(n)).collect();
    let mut form =
        Form::new(TemplateId(1), "daily".to_owned(), &places, |_: &Placeholder| None);
    for i in 0..named.len() {
        form.edit(i.to_string());
        form.move_to(1);
    }
    let expected: std::collections::BTreeMap<String, String> =
        named.iter().enumerate().map(|(i, n)| (n.to_string(), i.to_string())).collect();
    let answers = form.values();
    assert_eq!(answers, expected.into_iter().collect::<Vec<(String, String)>>());
    let order: Vec<&str> = answers.iter().map(|a| a.0.as_str()).collect();
    assert_eq!(
        order,
        ["", "Zone", "area", "a\u{ffff}", "a\u{10000}", "table", "tables", "zone", "é"]
    );
    assert_eq!(answers[2].1, "9");
}

#[test]
fn a_name_in_a_document_is_sanitised_like_a_value() {
    let value = Value::Struct(vec![(
        "a\u{1b}[2J\u{202e}".to_owned(),
        Value::Json(Json::Object(vec![("b\u{7f}".to_owned(), Json::Number("1\u{9b}".to_owned()))])),
    )]);
    let detail = RenderedDetail::of("c", "t", &value);
    let labels: Vec<Option<&str>> = detail.lines.iter().map(|l| l.label.as_deref()).collect();
    assert_eq!(labels, [None, Some("a·[2J·"), Some("b·")]);
    assert_eq!(detail.lines[2].text, "1·");
}
