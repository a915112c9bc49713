//! What a pointer finds, and what it is doing there.

use sqlake_tui::events::{MouseButton, MouseEvent, MouseEventKind};
use sqlake_tui::geometry::{Position, Rect};
use sqlake_tui::hit::{
    grab_area, HitMap, PaneId, SplitId, Target, ToastId, Z_BACKDROP, Z_BASE, Z_CHROME, Z_CONTENT,
    Z_MENU, Z_MODAL,
};
use sqlake_tui::ids::TabId;
use sqlake_tui::mouse::{Gesture, MouseState, DOUBLE_CLICK_WINDOW};

fn at(map: &HitMap, x: u16, y: u16) -> Option<Target> {
    map.at(Position::new(x, y))
}

fn rect(x: u16, y: u16, w: u16, h: u16) -> Rect {
    Rect::new(x, y, w, h)
}

#[test]
fn a_click_inside_a_rectangle_finds_it() {
    let mut map = HitMap::new();
    map.push(rect(2, 3, 4, 2), Z_CONTENT, Target::TreeRow { index: 7 });
    assert_eq!(at(&map, 3, 4), Some(Target::TreeRow { index: 7 }));
}

#[test]
fn rectangle_edges_are_inclusive_at_the_start_and_exclusive_at_the_end() {
    // Off-by-one here means the last row of every pane is dead.
    let mut map = HitMap::new();
    map.push(rect(2, 3, 4, 2), Z_CONTENT, Target::TreeRow { index: 0 });

    assert!(at(&map, 2, 3).is_some(), "top-left corner");
    assert!(at(&map, 5, 4).is_some(), "bottom-right corner");
    assert!(at(&map, 1, 3).is_none(), "one cell left");
    assert!(at(&map, 6, 3).is_none(), "one cell right");
    assert!(at(&map, 2, 2).is_none(), "one cell above");
    assert!(at(&map, 2, 5).is_none(), "one cell below");
}

#[test]
fn nothing_is_found_outside_every_rectangle() {
    let mut map = HitMap::new();
    map.push(rect(0, 0, 2, 2), Z_CONTENT, Target::Backdrop);
    assert_eq!(at(&map, 50, 50), None);
}

#[test]
fn an_empty_map_finds_nothing() {
    assert_eq!(at(&HitMap::new(), 0, 0), None);
}

#[test]
fn a_higher_z_wins_regardless_of_push_order() {
    let mut map = HitMap::new();
    map.push(rect(0, 0, 10, 10), Z_MODAL, Target::Pane(PaneId::Grid));
    map.push(rect(0, 0, 10, 10), Z_BASE, Target::Pane(PaneId::Explorer));
    assert_eq!(at(&map, 5, 5), Some(Target::Pane(PaneId::Grid)));
}

#[test]
fn at_equal_z_the_last_pushed_wins() {
    // Draw order is z-order within a level: whatever was drawn last is on
    // top, so it is what the user clicked.
    let mut map = HitMap::new();
    map.push(rect(0, 0, 10, 1), Z_CONTENT, Target::TreeRow { index: 0 });
    map.push(rect(0, 0, 2, 1), Z_CONTENT, Target::TreeToggle { index: 0 });
    assert_eq!(at(&map, 1, 0), Some(Target::TreeToggle { index: 0 }));
    assert_eq!(at(&map, 5, 0), Some(Target::TreeRow { index: 0 }));
}

#[test]
fn chrome_wins_over_the_content_it_is_drawn_on() {
    let mut map = HitMap::new();
    map.push(rect(0, 0, 20, 1), Z_CONTENT, Target::GridHeader { col: 3 });
    map.push(rect(9, 0, 3, 1), Z_CHROME, Target::GridColEdge { col: 3 });
    assert_eq!(at(&map, 10, 0), Some(Target::GridColEdge { col: 3 }));
    assert_eq!(at(&map, 4, 0), Some(Target::GridHeader { col: 3 }));
}

#[test]
fn a_modal_backdrop_swallows_clicks_meant_for_what_is_behind_it() {
    // Without this, "are you sure?" becomes a way to trigger the thing it
    // was asking about.
    let mut map = HitMap::new();
    map.push(
        rect(0, 0, 40, 20),
        Z_CONTENT,
        Target::GridCell { row: 1, col: 1 },
    );
    map.push(rect(0, 0, 40, 20), Z_BACKDROP, Target::Backdrop);
    map.push(rect(10, 5, 20, 8), Z_MODAL, Target::Pane(PaneId::Grid));

    assert_eq!(at(&map, 2, 2), Some(Target::Backdrop), "outside the modal");
    assert_eq!(
        at(&map, 15, 8),
        Some(Target::Pane(PaneId::Grid)),
        "inside the modal"
    );
}

#[test]
fn a_menu_sits_above_a_modal() {
    let mut map = HitMap::new();
    map.push(rect(0, 0, 40, 20), Z_MODAL, Target::Pane(PaneId::Grid));
    map.push(rect(5, 5, 10, 3), Z_MENU, Target::Tab(TabId::new(1)));
    assert_eq!(at(&map, 6, 6), Some(Target::Tab(TabId::new(1))));
}

#[test]
fn empty_rectangles_are_not_recorded() {
    let mut map = HitMap::new();
    map.push(rect(5, 5, 0, 3), Z_CONTENT, Target::GridHeader { col: 0 });
    map.push(rect(5, 5, 3, 0), Z_CONTENT, Target::GridHeader { col: 1 });
    assert!(map.is_empty());
}

#[test]
fn clearing_keeps_the_map_usable() {
    let mut map = HitMap::new();
    map.push(rect(0, 0, 4, 4), Z_CONTENT, Target::Backdrop);
    map.clear();
    assert!(map.is_empty());
    assert_eq!(at(&map, 1, 1), None);

    map.push(
        rect(0, 0, 4, 4),
        Z_CONTENT,
        Target::Splitter(SplitId::Explorer),
    );
    assert_eq!(at(&map, 1, 1), Some(Target::Splitter(SplitId::Explorer)));
}

#[test]
fn a_grab_area_widens_a_boundary_without_moving_it() {
    let area = grab_area(rect(10, 2, 1, 5));
    assert_eq!(area, rect(9, 2, 3, 5));

    // At the left edge of the screen there is nothing to widen into.
    let clamped = grab_area(rect(0, 0, 1, 1));
    assert_eq!(clamped.x, 0);
    assert_eq!(clamped.width, 3);
}

#[test]
fn a_widened_boundary_is_easier_to_hit_than_the_line() {
    let mut map = HitMap::new();
    map.push(rect(0, 0, 30, 1), Z_CONTENT, Target::GridHeader { col: 0 });
    map.push(
        grab_area(rect(10, 0, 1, 1)),
        Z_CHROME,
        Target::GridColEdge { col: 0 },
    );

    for x in 9..=11 {
        assert_eq!(
            at(&map, x, 0),
            Some(Target::GridColEdge { col: 0 }),
            "x={x} should hit the edge"
        );
    }
    assert_eq!(at(&map, 12, 0), Some(Target::GridHeader { col: 0 }));
}

fn map() -> HitMap {
    let mut map = HitMap::new();
    map.push(
        Rect::new(0, 0, 20, 1),
        Z_CONTENT,
        Target::TreeRow { index: 0 },
    );
    map.push(
        Rect::new(0, 1, 20, 1),
        Z_CONTENT,
        Target::TreeRow { index: 1 },
    );
    map.push(
        grab_area(Rect::new(30, 0, 1, 5)),
        Z_CONTENT,
        Target::GridColEdge { col: 2 },
    );
    map
}

fn event(kind: MouseEventKind, x: u16, y: u16) -> MouseEvent {
    MouseEvent {
        kind,
        column: x,
        row: y,
    }
}

fn down(x: u16, y: u16) -> MouseEvent {
    event(MouseEventKind::Down(MouseButton::Left), x, y)
}

fn up(x: u16, y: u16) -> MouseEvent {
    event(MouseEventKind::Up(MouseButton::Left), x, y)
}

fn drag(x: u16, y: u16) -> MouseEvent {
    event(MouseEventKind::Drag(MouseButton::Left), x, y)
}

fn moved(x: u16, y: u16) -> MouseEvent {
    event(MouseEventKind::Moved, x, y)
}

const MILLISECOND: u64 = 1_000_000;

fn t0() -> u64 {
    1_000
}

#[test]
fn a_press_and_release_is_a_click() {
    let (map, mut s, t) = (map(), MouseState::new(), t0());
    assert_eq!(
        s.feed(down(3, 0), &map, t),
        [(Target::TreeRow { index: 0 }, Gesture::Down)]
    );
    assert_eq!(
        s.feed(up(3, 0), &map, t),
        [
            (Target::TreeRow { index: 0 }, Gesture::Up),
            (Target::TreeRow { index: 0 }, Gesture::Click),
        ]
    );
}

#[test]
fn two_quick_clicks_are_a_double_click() {
    let (map, mut s, t) = (map(), MouseState::new(), t0());
    s.feed(down(3, 0), &map, t);
    s.feed(up(3, 0), &map, t);

    let t2 = t + 150 * MILLISECOND;
    s.feed(down(3, 0), &map, t2);
    let out = s.feed(up(3, 0), &map, t2);
    assert!(out.contains(&(Target::TreeRow { index: 0 }, Gesture::DoubleClick)));
    assert!(!out.contains(&(Target::TreeRow { index: 0 }, Gesture::Click)));
}

#[test]
fn a_third_click_does_not_fire_a_second_double_click() {
    let (map, mut s, t) = (map(), MouseState::new(), t0());
    for step in [0, 100, 200] {
        let at = t + step * MILLISECOND;
        s.feed(down(3, 0), &map, at);
        let out = s.feed(up(3, 0), &map, at);
        if step == 200 {
            assert!(
                out.contains(&(Target::TreeRow { index: 0 }, Gesture::Click)),
                "the pair was consumed, so this starts a new one"
            );
        }
    }
}

#[test]
fn a_slow_second_click_is_two_clicks() {
    let (map, mut s, t) = (map(), MouseState::new(), t0());
    s.feed(down(3, 0), &map, t);
    s.feed(up(3, 0), &map, t);

    let t2 = t + DOUBLE_CLICK_WINDOW + MILLISECOND;
    s.feed(down(3, 0), &map, t2);
    let out = s.feed(up(3, 0), &map, t2);
    assert!(out.contains(&(Target::TreeRow { index: 0 }, Gesture::Click)));
}

#[test]
fn clicks_on_different_targets_are_not_a_double_click() {
    let (map, mut s, t) = (map(), MouseState::new(), t0());
    s.feed(down(3, 0), &map, t);
    s.feed(up(3, 0), &map, t);
    s.feed(down(3, 1), &map, t);
    let out = s.feed(up(3, 1), &map, t);
    assert!(out.contains(&(Target::TreeRow { index: 1 }, Gesture::Click)));
}

#[test]
fn a_second_click_far_away_is_not_a_double_click() {
    // Same target, but the pointer travelled. Two deliberate clicks on a
    // wide row are not one double click.
    let (map, mut s, t) = (map(), MouseState::new(), t0());
    s.feed(down(1, 0), &map, t);
    s.feed(up(1, 0), &map, t);
    s.feed(down(15, 0), &map, t);
    let out = s.feed(up(15, 0), &map, t);
    assert!(out.contains(&(Target::TreeRow { index: 0 }, Gesture::Click)));
}

#[test]
fn dragging_reports_movement_relative_to_the_last_report() {
    let (map, mut s, t) = (map(), MouseState::new(), t0());
    s.feed(down(30, 0), &map, t);
    assert_eq!(
        s.feed(drag(33, 0), &map, t),
        [(
            Target::GridColEdge { col: 2 },
            Gesture::DragBy { dx: 3, dy: 0 }
        )]
    );
    assert_eq!(
        s.feed(drag(31, 2), &map, t),
        [(
            Target::GridColEdge { col: 2 },
            Gesture::DragBy { dx: -2, dy: 2 }
        )]
    );
}

#[test]
fn a_drag_keeps_its_original_target_after_leaving_the_rectangle() {
    // Otherwise a column stops resizing the moment the pointer outruns it.
    let (map, mut s, t) = (map(), MouseState::new(), t0());
    s.feed(down(30, 0), &map, t);
    let out = s.feed(drag(3, 0), &map, t);
    assert_eq!(out[0].0, Target::GridColEdge { col: 2 });
}

#[test]
fn a_drag_that_does_not_move_reports_nothing() {
    let (map, mut s, t) = (map(), MouseState::new(), t0());
    s.feed(down(30, 0), &map, t);
    assert!(s.feed(drag(30, 0), &map, t).is_empty());
}

#[test]
fn releasing_after_a_drag_is_not_a_click() {
    let (map, mut s, t) = (map(), MouseState::new(), t0());
    s.feed(down(3, 0), &map, t);
    s.feed(drag(9, 0), &map, t);
    let out = s.feed(up(9, 0), &map, t);
    assert_eq!(out, [(Target::TreeRow { index: 0 }, Gesture::Up)]);
    assert!(!s.is_dragging(), "the press is finished");
}

#[test]
fn a_release_without_a_press_is_ignored() {
    let (map, mut s, t) = (map(), MouseState::new(), t0());
    assert!(s.feed(up(3, 0), &map, t).is_empty());
}

#[test]
fn a_press_on_nothing_does_not_capture() {
    let (map, mut s, t) = (map(), MouseState::new(), t0());
    assert!(s.feed(down(50, 50), &map, t).is_empty());
    assert!(s.feed(drag(3, 0), &map, t).is_empty());
    assert!(s.feed(up(3, 0), &map, t).is_empty());
}

#[test]
fn hover_reports_only_when_the_target_changes() {
    let (map, mut s, t) = (map(), MouseState::new(), t0());
    assert_eq!(
        s.feed(moved(3, 0), &map, t),
        [(Target::TreeRow { index: 0 }, Gesture::HoverEnter)]
    );
    // Moving within the same row is the common case; reporting it would
    // redraw the screen on every cell of movement.
    assert!(s.feed(moved(9, 0), &map, t).is_empty());

    assert_eq!(
        s.feed(moved(3, 1), &map, t),
        [
            (Target::TreeRow { index: 0 }, Gesture::HoverLeave),
            (Target::TreeRow { index: 1 }, Gesture::HoverEnter),
        ]
    );
}

#[test]
fn leaving_everything_reports_only_the_departure() {
    let (map, mut s, t) = (map(), MouseState::new(), t0());
    s.feed(moved(3, 0), &map, t);
    assert_eq!(
        s.feed(moved(50, 50), &map, t),
        [(Target::TreeRow { index: 0 }, Gesture::HoverLeave)]
    );
    assert_eq!(s.hovered(), None);
}

#[test]
fn hover_is_suppressed_while_dragging() {
    let (map, mut s, t) = (map(), MouseState::new(), t0());
    s.feed(down(3, 0), &map, t);
    assert!(s.feed(moved(3, 1), &map, t).is_empty());
}

#[test]
fn the_wheel_targets_what_is_under_the_pointer() {
    let (map, mut s, t) = (map(), MouseState::new(), t0());
    assert_eq!(
        s.feed(event(MouseEventKind::ScrollDown, 3, 1), &map, t),
        [(Target::TreeRow { index: 1 }, Gesture::Scroll(1))]
    );
    assert_eq!(
        s.feed(event(MouseEventKind::ScrollUp, 3, 0), &map, t),
        [(Target::TreeRow { index: 0 }, Gesture::Scroll(-1))]
    );
    assert_eq!(
        s.feed(event(MouseEventKind::ScrollRight, 3, 0), &map, t),
        [(Target::TreeRow { index: 0 }, Gesture::ScrollX(1))]
    );
}

#[test]
fn a_right_click_reports_without_capturing() {
    let (map, mut s, t) = (map(), MouseState::new(), t0());
    assert_eq!(
        s.feed(
            event(MouseEventKind::Down(MouseButton::Right), 3, 0),
            &map,
            t
        ),
        [(Target::TreeRow { index: 0 }, Gesture::RightClick)]
    );
    assert!(s.feed(drag(9, 0), &map, t).is_empty());
}

#[test]
fn resetting_abandons_an_in_flight_press() {
    // The layout moved underneath the drag, so the captured target no
    // longer means what it did.
    let (map, mut s, t) = (map(), MouseState::new(), t0());
    s.feed(down(3, 0), &map, t);
    s.reset();
    assert!(s.feed(drag(9, 0), &map, t).is_empty());
    assert!(s.feed(up(9, 0), &map, t).is_empty());
}

#[test]
fn a_toast_keeps_its_number() {
    assert_eq!(ToastId::new(7).get(), 7);
    assert_ne!(ToastId::new(7), ToastId::new(8));
}

#[test]
fn focus_starts_in_the_explorer() {
    assert_eq!(PaneId::default(), PaneId::Explorer);
}

#[test]
fn a_rectangle_past_the_last_column_is_cut_to_it() {
    let cut = Rect::new(65_530, 0, 20, 1);
    assert_eq!(cut.width, 5);
    assert_eq!(cut.right(), 65_535);
    assert_eq!(Rect::new(0, 65_535, 3, 9).height, 0);
}

#[test]
fn a_border_takes_one_cell_on_every_side() {
    assert_eq!(Rect::new(4, 5, 10, 6).inner(), Rect::new(5, 6, 8, 4));
    assert!(Rect::new(4, 5, 1, 1).inner().is_empty());
}

#[test]
fn a_sweep_back_onto_the_first_cell_is_told_of_it() {
    let mut map = HitMap::new();
    map.push(rect(0, 0, 5, 1), Z_CONTENT, Target::GridCell { row: 0, col: 0 });
    map.push(rect(5, 0, 5, 1), Z_CONTENT, Target::GridCell { row: 0, col: 1 });
    let mut s = MouseState::new();
    s.feed(down(1, 0), &map, 0);
    let from = Target::GridCell { row: 0, col: 0 };
    assert_eq!(
        s.feed(drag(6, 0), &map, 0),
        [
            (from, Gesture::DragBy { dx: 5, dy: 0 }),
            (Target::GridCell { row: 0, col: 1 }, Gesture::DragOver { from }),
        ]
    );
    assert_eq!(
        s.feed(drag(1, 0), &map, 0),
        [
            (from, Gesture::DragBy { dx: -5, dy: 0 }),
            (from, Gesture::DragOver { from }),
        ]
    );
}

#[test]
fn the_pointer_is_where_the_last_event_was() {
    let mut s = MouseState::new();
    s.feed(event(MouseEventKind::Down(MouseButton::Right), 9, 4), &HitMap::new(), 0);
    assert_eq!(s.position(), (9, 4));
}

#[test]
fn the_window_for_a_second_click_ends_to_the_nanosecond() {
    for (late, gesture) in [(0, Gesture::DoubleClick), (1, Gesture::Click)] {
        let (map, mut s, t) = (map(), MouseState::new(), t0());
        s.feed(down(3, 0), &map, t);
        s.feed(up(3, 0), &map, t);
        let t2 = t + DOUBLE_CLICK_WINDOW + late;
        s.feed(down(3, 0), &map, t2);
        let out = s.feed(up(3, 0), &map, t2);
        assert!(out.contains(&(Target::TreeRow { index: 0 }, gesture)), "{late}");
    }
}
