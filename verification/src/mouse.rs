//! Turning raw mouse events into gestures.
//!
//! The terminal reports presses, releases and motion. What the UI wants is
//! clicks, double clicks and drags, resolved against whatever was under the
//! pointer. That translation happens here, once, so no widget has to reason
//! about button state.

use crate::events::{MouseButton, MouseEvent, MouseEventKind};
use crate::geometry::Position;
use crate::hit::{target_at, Hit, HitMap, Target};
use vstd::prelude::*;

verus! {

/// Two clicks further apart than this, in nanoseconds, are two clicks.
pub const DOUBLE_CLICK_WINDOW: u64 = 300_000_000;

/// How far the pointer may drift between the two clicks of a double click.
pub const DOUBLE_CLICK_SLOP: u16 = 1;

#[derive(Debug, Clone, Copy, PartialEq, Eq, Structural)]
pub enum Gesture {
    /// The button went down. Useful for immediate feedback; most handlers want
    /// `Click` instead.
    Down,
    Up,
    Click,
    DoubleClick,
    RightClick,
    MiddleClick,
    /// Movement since the last report, while a button is held. It belongs to
    /// what the button went down on.
    DragBy { dx: i16, dy: i16 },
    /// The same movement, told to what is under the pointer now.
    DragOver { from: Target },
    /// Vertical wheel. Positive scrolls towards the end of the content.
    Scroll(i8),
    /// Horizontal wheel. Positive scrolls right.
    ScrollX(i8),
    HoverEnter,
    HoverLeave,
}

/// A button that is down.
#[derive(Debug, Clone, Copy, PartialEq, Eq, Structural)]
pub struct Press {
    /// Captured when the button went down, and kept until it comes up even if
    /// the pointer leaves the rectangle. Without this, resizing a column stops
    /// the moment the pointer outruns the cursor.
    pub target: Target,
    /// Where the button went down. A click happens where it started, not where
    /// the pointer happened to be on release.
    pub origin: Position,
    pub last: Position,
    pub moved: bool,
}

/// A click that a second one could still make a double click of.
#[derive(Debug, Clone, Copy, PartialEq, Eq, Structural)]
pub struct LastClick {
    pub target: Target,
    pub at: Position,
    /// In nanoseconds, on a clock that does not go back.
    pub when: u64,
}

#[derive(Debug, Clone, Copy, PartialEq, Eq, Structural)]
pub struct MouseState {
    pub pressed: Option<Press>,
    pub last_click: Option<LastClick>,
    pub hover: Option<Target>,
    pub pointer: Position,
}

/// What a movement of the pointer is reported as: a terminal is at most `u16`
/// cells wide, and what an `i16` cannot hold is cut to its range.
pub open spec fn narrowed(delta: int) -> i16 {
    if delta < i16::MIN {
        i16::MIN
    } else if delta > i16::MAX {
        i16::MAX
    } else {
        delta as i16
    }
}

pub open spec fn apart(a: u16, b: u16) -> int {
    if a < b {
        b - a
    } else {
        a - b
    }
}

/// Close enough for two clicks to be one double click.
pub open spec fn close_by(a: Position, b: Position) -> bool {
    apart(a.x, b.x) <= DOUBLE_CLICK_SLOP && apart(a.y, b.y) <= DOUBLE_CLICK_SLOP
}

/// Whether a click completes a double click.
pub open spec fn completes(last: Option<LastClick>, press: Press, now: u64) -> bool {
    match last {
        Some(last) => {
            &&& last.target == press.target
            &&& now - last.when <= DOUBLE_CLICK_WINDOW
            &&& close_by(last.at, press.origin)
        },
        None => false,
    }
}

pub open spec fn told(target: Option<Target>, gesture: Gesture) -> Seq<(Target, Gesture)> {
    match target {
        Some(target) => seq![(target, gesture)],
        None => Seq::empty(),
    }
}

impl MouseState {
    pub open spec fn after_down(self, at: Position, hits: Seq<Hit>) -> (
        MouseState,
        Seq<(Target, Gesture)>,
    ) {
        let pressed = match target_at(hits, at) {
            Some(target) => Some(Press { target, origin: at, last: at, moved: false }),
            None => None,
        };
        (MouseState { pressed, ..self }, told(target_at(hits, at), Gesture::Down))
    }

    pub open spec fn after_drag(self, at: Position, hits: Seq<Hit>) -> (
        MouseState,
        Seq<(Target, Gesture)>,
    ) {
        match self.pressed {
            None => (self, Seq::empty()),
            Some(press) => {
                if at == press.last {
                    (self, Seq::empty())
                } else {
                    let by = Gesture::DragBy {
                        dx: narrowed(at.x - press.last.x),
                        dy: narrowed(at.y - press.last.y),
                    };
                    let over = target_at(hits, at);
                    // What the drag began on hears about it already, unless it
                    // is a cell: a selection swept back onto the cell it
                    // started from has shrunk to it.
                    let swept = if over == Some(press.target) && !(press.target is GridCell) {
                        None
                    } else {
                        over
                    };
                    (
                        MouseState {
                            pressed: Some(Press { last: at, moved: true, ..press }),
                            ..self
                        },
                        seq![(press.target, by)] + told(
                            swept,
                            Gesture::DragOver { from: press.target },
                        ),
                    )
                }
            },
        }
    }

    pub open spec fn after_up(self, now: u64) -> (MouseState, Seq<(Target, Gesture)>) {
        match self.pressed {
            // A release with no press: the button was already down when the
            // application started, or the press was reset under it.
            None => (self, Seq::empty()),
            Some(press) => {
                let released = MouseState { pressed: None, last_click: None, ..self };
                let up = (press.target, Gesture::Up);
                if press.moved {
                    // A drag is not a click.
                    (released, seq![up])
                } else if completes(self.last_click, press, now) {
                    // Consumed, so a third click starts a new pair.
                    (released, seq![up, (press.target, Gesture::DoubleClick)])
                } else {
                    (
                        MouseState {
                            last_click: Some(
                                LastClick { target: press.target, at: press.origin, when: now },
                            ),
                            ..released
                        },
                        seq![up, (press.target, Gesture::Click)],
                    )
                }
            },
        }
    }

    pub open spec fn after_move(self, at: Position, hits: Seq<Hit>) -> (
        MouseState,
        Seq<(Target, Gesture)>,
    ) {
        let over = target_at(hits, at);
        if self.pressed is Some || over == self.hover {
            (self, Seq::empty())
        } else {
            (
                MouseState { hover: over, ..self },
                told(self.hover, Gesture::HoverLeave) + told(over, Gesture::HoverEnter),
            )
        }
    }

    /// The state and the gestures that follow from one event of the terminal.
    pub open spec fn after(self, event: MouseEvent, hits: Seq<Hit>, now: u64) -> (
        MouseState,
        Seq<(Target, Gesture)>,
    ) {
        let at = Position { x: event.column, y: event.row };
        let here = MouseState { pointer: at, ..self };
        match event.kind {
            MouseEventKind::Down(MouseButton::Left) => here.after_down(at, hits),
            MouseEventKind::Up(MouseButton::Left) => here.after_up(now),
            MouseEventKind::Drag(MouseButton::Left) => here.after_drag(at, hits),
            MouseEventKind::Moved => here.after_move(at, hits),
            MouseEventKind::Down(MouseButton::Right) => (
                here,
                told(target_at(hits, at), Gesture::RightClick),
            ),
            MouseEventKind::Down(MouseButton::Middle) => (
                here,
                told(target_at(hits, at), Gesture::MiddleClick),
            ),
            MouseEventKind::ScrollDown => (here, told(target_at(hits, at), Gesture::Scroll(1))),
            MouseEventKind::ScrollUp => (here, told(target_at(hits, at), Gesture::Scroll((-1) as i8))),
            MouseEventKind::ScrollRight => (here, told(target_at(hits, at), Gesture::ScrollX(1))),
            MouseEventKind::ScrollLeft => (here, told(target_at(hits, at), Gesture::ScrollX((-1) as i8))),
            // Other releases, and drags with other buttons, carry nothing this
            // application acts on.
            _ => (here, Seq::empty()),
        }
    }

    pub open spec fn idle() -> MouseState {
        MouseState {
            pressed: None,
            last_click: None,
            hover: None,
            pointer: Position { x: 0, y: 0 },
        }
    }

    pub fn new() -> (r: Self)
        ensures
            r == Self::idle(),
    {
        MouseState {
            pressed: None,
            last_click: None,
            hover: None,
            pointer: Position { x: 0, y: 0 },
        }
    }

    /// What the pointer is currently over, if anything.
    pub fn hovered(&self) -> (r: Option<Target>)
        ensures
            r == self.hover,
    {
        self.hover
    }

    /// Where the pointer was last heard from.
    pub fn position(&self) -> (r: (u16, u16))
        ensures
            r == (self.pointer.x, self.pointer.y),
    {
        (self.pointer.x, self.pointer.y)
    }

    /// Whether a drag is in progress.
    pub fn is_dragging(&self) -> (b: bool)
        ensures
            b == (self.pressed matches Some(p) && p.moved),
    {
        match self.pressed {
            Some(press) => press.moved,
            None => false,
        }
    }

    /// Forget any in-flight press. Called when the layout changes underneath a
    /// drag, since the captured target may no longer mean anything.
    pub fn reset(&mut self)
        ensures
            *final(self) == (MouseState { pressed: None, hover: None, ..*old(self) }),
    {
        self.pressed = None;
        self.hover = None;
    }

    /// Translate one terminal event.
    ///
    /// `now` is passed in rather than read here so that double-click timing is
    /// testable.
    pub fn feed(&mut self, event: MouseEvent, map: &HitMap, now: u64) -> (out: Vec<
        (Target, Gesture),
    >)
        ensures
            (*final(self), out@) == old(self).after(event, map@, now),
    {
        let at: Position = Position::new(event.column, event.row);
        self.pointer = at;
        match event.kind {
            MouseEventKind::Down(MouseButton::Left) => self.down(at, map),
            MouseEventKind::Up(MouseButton::Left) => self.up(now),
            MouseEventKind::Drag(MouseButton::Left) => self.drag(at, map),
            MouseEventKind::Moved => self.moved(at, map),
            MouseEventKind::Down(MouseButton::Right) => tell(map.at(at), Gesture::RightClick),
            MouseEventKind::Down(MouseButton::Middle) => tell(map.at(at), Gesture::MiddleClick),
            MouseEventKind::ScrollDown => tell(map.at(at), Gesture::Scroll(1)),
            MouseEventKind::ScrollUp => tell(map.at(at), Gesture::Scroll(-1)),
            MouseEventKind::ScrollRight => tell(map.at(at), Gesture::ScrollX(1)),
            MouseEventKind::ScrollLeft => tell(map.at(at), Gesture::ScrollX(-1)),
            _ => Vec::new(),
        }
    }

    fn down(&mut self, at: Position, map: &HitMap) -> (out: Vec<(Target, Gesture)>)
        ensures
            (*final(self), out@) == old(self).after_down(at, map@),
    {
        let found: Option<Target> = map.at(at);
        self.pressed = match found {
            Some(target) => Some(Press { target, origin: at, last: at, moved: false }),
            None => None,
        };
        tell(found, Gesture::Down)
    }

    fn drag(&mut self, at: Position, map: &HitMap) -> (out: Vec<(Target, Gesture)>)
        ensures
            (*final(self), out@) == old(self).after_drag(at, map@),
    {
        let press: Press = match self.pressed {
            Some(press) => press,
            None => return Vec::new(),
        };
        let dx: i32 = at.x as i32 - press.last.x as i32;
        let dy: i32 = at.y as i32 - press.last.y as i32;
        if dx == 0 && dy == 0 {
            return Vec::new();
        }
        self.pressed = Some(Press { last: at, moved: true, ..press });
        let mut out: Vec<(Target, Gesture)> = Vec::new();
        out.push((press.target, Gesture::DragBy { dx: narrow(dx), dy: narrow(dy) }));
        let on_a_cell: bool = match press.target {
            Target::GridCell { .. } => true,
            _ => false,
        };
        if let Some(over) = map.at(at) {
            if over != press.target || on_a_cell {
                out.push((over, Gesture::DragOver { from: press.target }));
            }
        }
        proof {
            assert(out@ =~= old(self).after_drag(at, map@).1);
        }
        out
    }

    fn up(&mut self, now: u64) -> (out: Vec<(Target, Gesture)>)
        ensures
            (*final(self), out@) == old(self).after_up(now),
    {
        let press: Press = match self.pressed {
            Some(press) => press,
            None => return Vec::new(),
        };
        let last: Option<LastClick> = self.last_click;
        self.pressed = None;
        self.last_click = None;
        let mut out: Vec<(Target, Gesture)> = Vec::new();
        out.push((press.target, Gesture::Up));
        if press.moved {
            // A drag is not a click. Emitting both would fire the row's action
            // every time the user finished resizing something on it.
            proof {
                assert(out@ =~= old(self).after_up(now).1);
            }
            return out;
        }
        let double: bool = match last {
            Some(last) => last.target == press.target && now.saturating_sub(last.when)
                <= DOUBLE_CLICK_WINDOW && near(last.at, press.origin),
            None => false,
        };
        if double {
            out.push((press.target, Gesture::DoubleClick));
        } else {
            out.push((press.target, Gesture::Click));
            self.last_click = Some(
                LastClick { target: press.target, at: press.origin, when: now },
            );
        }
        proof {
            assert(out@ =~= old(self).after_up(now).1);
        }
        out
    }

    fn moved(&mut self, at: Position, map: &HitMap) -> (out: Vec<(Target, Gesture)>)
        ensures
            (*final(self), out@) == old(self).after_move(at, map@),
    {
        // While a button is held the pointer is dragging, not hovering.
        if self.pressed.is_some() {
            return Vec::new();
        }
        let over: Option<Target> = map.at(at);
        let unchanged: bool = match (over, self.hover) {
            (Some(a), Some(b)) => a == b,
            (None, None) => true,
            _ => false,
        };
        if unchanged {
            // The common case by far: motion within the same row. Reporting
            // nothing is what keeps the screen from redrawing on every cell.
            return Vec::new();
        }
        let mut out: Vec<(Target, Gesture)> = Vec::new();
        if let Some(previous) = self.hover {
            out.push((previous, Gesture::HoverLeave));
        }
        if let Some(current) = over {
            out.push((current, Gesture::HoverEnter));
        }
        self.hover = over;
        proof {
            assert(out@ =~= old(self).after_move(at, map@).1);
        }
        out
    }
}

impl Default for MouseState {
    fn default() -> (r: Self)
        ensures
            r == Self::idle(),
    {
        MouseState::new()
    }
}

fn tell(target: Option<Target>, gesture: Gesture) -> (out: Vec<(Target, Gesture)>)
    ensures
        out@ == told(target, gesture),
{
    let mut out: Vec<(Target, Gesture)> = Vec::new();
    if let Some(target) = target {
        out.push((target, gesture));
    }
    proof {
        assert(out@ =~= told(target, gesture));
    }
    out
}

/// A terminal is at most u16 cells wide, so a delta nearly always fits;
/// clamping keeps the rest from becoming a silent wrap.
fn narrow(delta: i32) -> (r: i16)
    ensures
        r == narrowed(delta as int),
{
    if delta < -32768 {
        i16::MIN
    } else if delta > 32767 {
        i16::MAX
    } else {
        delta as i16
    }
}

fn near(a: Position, b: Position) -> (r: bool)
    ensures
        r == close_by(a, b),
{
    let across: u16 = if a.x < b.x { b.x - a.x } else { a.x - b.x };
    let down: u16 = if a.y < b.y { b.y - a.y } else { a.y - b.y };
    across <= DOUBLE_CLICK_SLOP && down <= DOUBLE_CLICK_SLOP
}

// ── what every sequence of events keeps to ─────────────────────────────────

/// A drag keeps reporting to what the button went down on, wherever the
/// pointer has gone since.
pub proof fn a_drag_keeps_its_target(
    s: MouseState,
    event: MouseEvent,
    hits: Seq<Hit>,
    now: u64,
)
    requires
        s.pressed is Some,
        event.kind == MouseEventKind::Drag(MouseButton::Left),
    ensures
        s.after(event, hits, now).0.pressed matches Some(press) && press.target
            == s.pressed->0.target,
        s.after(event, hits, now).1.len() > 0 ==> s.after(event, hits, now).1[0].0
            == s.pressed->0.target,
{
}

/// Releasing after a drag reports the release and no click, and the click
/// before it can no longer become a double click.
pub proof fn a_drag_is_not_a_click(s: MouseState, event: MouseEvent, hits: Seq<Hit>, now: u64)
    requires
        s.pressed matches Some(press) && press.moved,
        event.kind == MouseEventKind::Up(MouseButton::Left),
    ensures
        s.after(event, hits, now).1 == seq![(s.pressed->0.target, Gesture::Up)],
        s.after(event, hits, now).0.last_click is None,
{
}

/// A double click uses up both of its clicks: the release after it is a click
/// again, whatever is clicked and however fast.
pub proof fn a_third_click_starts_a_new_pair(
    s: MouseState,
    first: MouseEvent,
    down: MouseEvent,
    up: MouseEvent,
    hits: Seq<Hit>,
    t1: u64,
    t2: u64,
    t3: u64,
)
    requires
        first.kind == MouseEventKind::Up(MouseButton::Left),
        s.pressed matches Some(press) && !press.moved && completes(s.last_click, press, t1),
        down.kind == MouseEventKind::Down(MouseButton::Left),
        target_at(hits, Position { x: down.column, y: down.row }) is Some,
        up.kind == MouseEventKind::Up(MouseButton::Left),
    ensures
        s.after(first, hits, t1).1[1].1 == Gesture::DoubleClick,
        s.after(first, hits, t1).0.after(down, hits, t2).0.after(up, hits, t3).1.last().1
            == Gesture::Click,
{
}

/// Motion is reported exactly when what is under the pointer changes, and
/// never while a button is held.
pub proof fn hover_reports_only_changes(
    s: MouseState,
    event: MouseEvent,
    hits: Seq<Hit>,
    now: u64,
)
    requires
        event.kind == MouseEventKind::Moved,
    ensures
        ({
            let over = target_at(hits, Position { x: event.column, y: event.row });
            &&& s.after(event, hits, now).1.len() == 0 <==> s.pressed is Some || over == s.hover
            &&& s.pressed is None ==> s.after(event, hits, now).0.hover == over
        }),
{
}

/// Nothing is dragged or clicked after a reset until a button goes down again.
pub proof fn a_reset_abandons_the_press(
    s: MouseState,
    event: MouseEvent,
    hits: Seq<Hit>,
    now: u64,
)
    requires
        s.pressed is None,
        event.kind == MouseEventKind::Drag(MouseButton::Left) || event.kind == MouseEventKind::Up(
            MouseButton::Left,
        ),
    ensures
        s.after(event, hits, now).1.len() == 0,
        s.after(event, hits, now).0.pressed is None,
{
}

} // verus!
