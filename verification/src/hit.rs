//! Mouse hit testing.
//!
//! Drawing code has every rectangle in hand while it draws, so each widget
//! records "this rectangle is this thing", and a click is resolved against
//! that record.
//!
//! The `z` level is what makes overlays correct. Without it, a click outside a
//! modal falls through to whatever is underneath, and a confirmation dialog
//! becomes a way to trigger the very thing it was confirming.

use crate::geometry::{Position, Rect};
use crate::ids::{BusyId, TabId};
use vstd::prelude::*;

verus! {

/// A transient message, minted and owned entirely by this crate: nothing
/// about which notices are on screen is a fact the application layer knows.
#[derive(Debug, Clone, Copy, PartialEq, Eq, Structural, Hash, PartialOrd, Ord)]
pub struct ToastId(pub u64);

impl ToastId {
    pub fn new(n: u64) -> (r: Self)
        ensures
            r == ToastId(n),
    {
        ToastId(n)
    }

    pub fn get(self) -> (n: u64)
        ensures
            n == self.0,
    {
        self.0
    }
}

/// Background of a pane, behind its content.
pub const Z_BASE: u8 = 0;

/// Rows and cells inside a pane.
pub const Z_CONTENT: u8 = 10;

/// Scrollbars, splitters, column edges: things drawn over content.
pub const Z_CHROME: u8 = 20;

/// The full-screen catcher behind a modal.
pub const Z_BACKDROP: u8 = 90;

pub const Z_MODAL: u8 = 100;

pub const Z_MENU: u8 = 110;

/// The panes there are. A fixed set, not a generated id: they never change at
/// runtime.
#[derive(Debug, Clone, Copy, PartialEq, Eq, Structural, Hash)]
pub enum PaneId {
    TabBar,
    /// Where focus starts: it is the only pane with anything in it before a
    /// table is opened.
    Explorer,
    Grid,
    /// The selected cell, laid out to be read.
    Detail,
    StatusBar,
}

impl Default for PaneId {
    fn default() -> (r: Self)
        ensures
            r == PaneId::Explorer,
    {
        PaneId::Explorer
    }
}

/// There is exactly one adjustable split.
#[derive(Debug, Clone, Copy, PartialEq, Eq, Structural, Hash)]
pub enum SplitId {
    Explorer,
}

#[derive(Debug, Clone, Copy, PartialEq, Eq, Structural, Hash)]
pub enum ScrollPart {
    Thumb,
    /// The track above the thumb: page up.
    TrackBefore,
    /// The track below the thumb: page down.
    TrackAfter,
}

#[derive(Debug, Clone, Copy, PartialEq, Eq, Structural, Hash)]
pub enum ButtonId {
    Cancel(BusyId),
    /// The modal's own way out, for a pointer that never goes near `Esc`.
    DismissModal,
    /// One of the answers a dialog offers, by position in its list.
    ModalChoice { index: usize },
    /// The explorer's search box. Clicking it puts the keyboard in it.
    Filter,
    /// The `+` on the tab bar.
    NewSqlTab,
    /// Runs the statement in front.
    RunQuery,
}

/// What a rectangle on screen belongs to.
#[derive(Debug, Clone, Copy, PartialEq, Eq, Structural, Hash)]
pub enum Target {
    Pane(PaneId),
    /// A row of the explorer, by position on screen.
    TreeRow { index: usize },
    /// The expand glyph on a tree row. Overlaps `TreeRow` and must win.
    TreeToggle { index: usize },
    GridCell { row: usize, col: usize },
    /// A column header: click to sort.
    GridHeader { col: usize },
    /// The boundary between two columns: drag to resize.
    GridColEdge { col: usize },
    /// A line of a definition's list of sections.
    Section { index: usize },
    Scrollbar { pane: PaneId, part: ScrollPart },
    Splitter(SplitId),
    Tab(TabId),
    TabClose(TabId),
    Button(ButtonId),
    /// A transient message. Clicking it dismisses it.
    Toast(ToastId),
    /// Everything behind a modal. Clicking it dismisses the modal instead of
    /// reaching what is underneath.
    Backdrop,
    /// The dialog's own body.
    ///
    /// It swallows the click rather than doing anything with it. Without a
    /// target of its own the click lands on the backdrop underneath and closes
    /// the dialog, so a confirmation would be dismissed by pressing on its own
    /// question.
    Modal,
    /// A line of the palette's list.
    PaletteRow { index: usize },
    /// The context menu's own body, which swallows what lands on it.
    Menu,
    /// One line of the context menu.
    MenuItem { index: usize },
}

/// A rectangle on screen, how far up it lies, and what it is.
#[derive(Debug, Clone, Copy, PartialEq, Eq, Structural)]
pub struct Hit {
    pub rect: Rect,
    pub z: u8,
    pub target: Target,
}

/// Everything clickable on the current frame.
#[derive(Debug)]
pub struct HitMap {
    entries: Vec<Hit>,
}

/// Which of the recorded rectangles lies on top at a position.
pub open spec fn topmost(entries: Seq<Hit>, at: Position) -> Option<int>
    decreases entries.len(),
{
    if entries.len() == 0 {
        None
    } else {
        let below = topmost(entries.drop_last(), at);
        if !entries.last().rect.covers(at) {
            below
        } else {
            match below {
                Some(i) if entries[i].z > entries.last().z => Some(i),
                _ => Some(entries.len() - 1),
            }
        }
    }
}

/// What is at a position.
pub open spec fn target_at(entries: Seq<Hit>, at: Position) -> Option<Target> {
    match topmost(entries, at) {
        Some(i) => Some(entries[i].target),
        None => None,
    }
}

/// The record after one more rectangle: an empty one is never kept.
pub open spec fn recorded(entries: Seq<Hit>, rect: Rect, z: u8, target: Target) -> Seq<Hit> {
    if rect.empty() {
        entries
    } else {
        entries.push(Hit { rect, z, target })
    }
}

impl View for HitMap {
    type V = Seq<Hit>;

    closed spec fn view(&self) -> Seq<Hit> {
        self.entries@
    }
}

impl Default for HitMap {
    fn default() -> (r: Self)
        ensures
            r@ == Seq::<Hit>::empty(),
    {
        HitMap { entries: Vec::new() }
    }
}

impl HitMap {
    pub fn new() -> (r: Self)
        ensures
            r@ == Seq::<Hit>::empty(),
    {
        HitMap { entries: Vec::new() }
    }

    /// Empty the map but keep its allocation. Called once per frame, so
    /// reallocating would be a per-frame cost for no reason.
    pub fn clear(&mut self)
        ensures
            final(self)@ == Seq::<Hit>::empty(),
    {
        self.entries.clear();
    }

    /// Record a rectangle. Empty rectangles are dropped: a zero-width column
    /// cannot be clicked, and keeping it would let `contains` match nothing
    /// while still costing a comparison.
    pub fn push(&mut self, rect: Rect, z: u8, target: Target)
        ensures
            final(self)@ == recorded(old(self)@, rect, z, target),
    {
        if rect.is_empty() {
            return;
        }
        self.entries.push(Hit { rect, z, target });
    }

    /// What is at this position.
    ///
    /// The highest `z` wins. Between equal `z`, the most recently pushed wins,
    /// which is the thing drawn last and therefore the thing on top.
    pub fn at(&self, position: Position) -> (r: Option<Target>)
        ensures
            r == target_at(self@, position),
    {
        let mut best: Option<usize> = None;
        let mut i: usize = 0;
        while i < self.entries.len()
            invariant
                i <= self.entries@.len(),
                match best {
                    Some(b) => b < i && topmost(self@.take(i as int), position) == Some(b as int),
                    None => topmost(self@.take(i as int), position) is None,
                },
            decreases self.entries@.len() - i,
        {
            let ghost seen = self@.take(i + 1);
            proof {
                assert(seen.drop_last() =~= self@.take(i as int));
                assert(seen.last() == self.entries@[i as int]);
            }
            if self.entries[i].rect.contains(position) {
                best = match best {
                    Some(b) if self.entries[b].z > self.entries[i].z => Some(b),
                    _ => Some(i),
                };
            }
            i += 1;
        }
        proof {
            assert(self@.take(i as int) =~= self@);
        }
        match best {
            Some(b) => Some(self.entries[b].target),
            None => None,
        }
    }

    pub fn len(&self) -> (n: usize)
        ensures
            n == self@.len(),
    {
        self.entries.len()
    }

    pub fn is_empty(&self) -> (b: bool)
        ensures
            b == (self@.len() == 0),
    {
        self.entries.len() == 0
    }
}

/// A position finds the rectangle with the highest `z` of those that cover it,
/// and the one recorded last of several at that height; it finds nothing
/// exactly when nothing covers it.
pub proof fn the_highest_wins_and_the_last_of_equals(entries: Seq<Hit>, at: Position)
    ensures
        topmost(entries, at) is None <==> forall|j: int|
            0 <= j < entries.len() ==> !(#[trigger] entries[j]).rect.covers(at),
        topmost(entries, at) matches Some(i) ==> {
            &&& 0 <= i < entries.len()
            &&& entries[i].rect.covers(at)
            &&& forall|j: int|
                0 <= j < entries.len() && (#[trigger] entries[j]).rect.covers(at) ==> entries[j].z
                    < entries[i].z || (entries[j].z == entries[i].z && j <= i)
        },
    decreases entries.len(),
{
    if entries.len() > 0 {
        let below = entries.drop_last();
        the_highest_wins_and_the_last_of_equals(below, at);
        assert forall|j: int| 0 <= j < below.len() implies #[trigger] below[j] == entries[j] by {}
        assert(topmost(entries, at) is None ==> forall|j: int|
            0 <= j < entries.len() ==> !(#[trigger] entries[j]).rect.covers(at)) by {
            if topmost(entries, at) is None {
                assert forall|j: int| 0 <= j < entries.len() implies !(
                #[trigger] entries[j]).rect.covers(at) by {
                    if j < below.len() {
                        assert(!below[j].rect.covers(at));
                    }
                }
            }
        }
        assert((forall|j: int|
            0 <= j < entries.len() ==> !(#[trigger] entries[j]).rect.covers(at)) ==> topmost(
            entries,
            at,
        ) is None) by {
            if forall|j: int|
                0 <= j < entries.len() ==> !(#[trigger] entries[j]).rect.covers(at) {
                assert forall|j: int| 0 <= j < below.len() implies !(
                #[trigger] below[j]).rect.covers(at) by {
                    assert(!entries[j].rect.covers(at));
                }
                assert(!entries[entries.len() - 1].rect.covers(at));
            }
        }
        if let Some(i) = topmost(entries, at) {
            assert forall|j: int|
                0 <= j < entries.len() && (#[trigger] entries[j]).rect.covers(
                    at,
                ) implies entries[j].z < entries[i].z || (entries[j].z == entries[i].z && j
                <= i) by {
                if j < below.len() {
                    assert(below[j].rect.covers(at));
                }
            }
        }
    }
}

/// A rectangle recorded above everything that covers a position is what the
/// position finds: what lies under a backdrop cannot be reached through it.
pub proof fn what_is_recorded_on_top_is_found(
    entries: Seq<Hit>,
    rect: Rect,
    z: u8,
    target: Target,
    at: Position,
)
    requires
        rect.covers(at),
        forall|j: int|
            0 <= j < entries.len() && (#[trigger] entries[j]).rect.covers(at) ==> entries[j].z
                <= z,
    ensures
        target_at(recorded(entries, rect, z, target), at) == Some(target),
{
    let all = recorded(entries, rect, z, target);
    assert(all.drop_last() =~= entries);
    the_highest_wins_and_the_last_of_equals(entries, at);
}

/// Widen a one-cell boundary into something a pointer can actually hit.
pub open spec fn grabbed(boundary: Rect) -> Rect {
    Rect {
        x: if boundary.x == 0 {
            0
        } else {
            (boundary.x - 1) as u16
        },
        width: if boundary.width + 2 > u16::MAX {
            u16::MAX
        } else {
            (boundary.width + 2) as u16
        },
        ..boundary
    }
}

/// Widen a one-cell boundary into something a pointer can actually hit.
///
/// A column separator is drawn one cell wide, but asking the user to land on a
/// single cell to resize a column is asking too much. The hit area is three
/// cells; the line stays one.
pub fn grab_area(boundary: Rect) -> (r: Rect)
    ensures
        r == grabbed(boundary),
{
    Rect {
        x: boundary.x.saturating_sub(1),
        y: boundary.y,
        width: boundary.width.saturating_add(2),
        height: boundary.height,
    }
}

/// Whether one record begins with another, and holds beside it only targets of
/// one sort.
pub open spec fn extends(before: Seq<Hit>, after: Seq<Hit>, sort: spec_fn(Target) -> bool) -> bool {
    &&& before.len() <= after.len()
    &&& forall|j: int| 0 <= j < before.len() ==> #[trigger] after[j] == before[j]
    &&& forall|j: int| before.len() <= j < after.len() ==> sort((#[trigger] after[j]).target)
}

/// Where something was recorded above everything before it, nothing recorded
/// before it is found.
pub proof fn nothing_underneath_is_found(
    before: Seq<Hit>,
    after: Seq<Hit>,
    sort: spec_fn(Target) -> bool,
    floor: u8,
    over: int,
    at: Position,
)
    requires
        extends(before, after, sort),
        all_below(before, floor),
        before.len() <= over < after.len(),
        after[over].z >= floor,
        after[over].rect.covers(at),
    ensures
        target_at(after, at) matches Some(found) && sort(found),
{
    the_highest_wins_and_the_last_of_equals(after, at);
    if let Some(i) = topmost(after, at) {
        if i < before.len() {
            assert(after[i] == before[i]);
            assert(before[i].z < floor);
        }
    }
}

/// What is recorded away from a position does not change what the position
/// finds.
pub proof fn what_is_elsewhere_changes_nothing(
    entries: Seq<Hit>,
    rect: Rect,
    z: u8,
    target: Target,
    at: Position,
)
    requires
        !rect.covers(at),
    ensures
        target_at(recorded(entries, rect, z, target), at) == target_at(entries, at),
{
    let all = recorded(entries, rect, z, target);
    if !rect.empty() {
        assert(all.drop_last() =~= entries);
        the_highest_wins_and_the_last_of_equals(entries, at);
    }
}

/// Whether everything that was recorded stands lower than `z`.
pub open spec fn all_below(entries: Seq<Hit>, z: u8) -> bool {
    forall|j: int| 0 <= j < entries.len() ==> (#[trigger] entries[j]).z < z
}

/// Whether nothing that covers a position stands higher than `z`.
pub open spec fn nothing_above(entries: Seq<Hit>, at: Position, z: u8) -> bool {
    forall|j: int|
        0 <= j < entries.len() && (#[trigger] entries[j]).rect.covers(at) ==> entries[j].z <= z
}

} // verus!
