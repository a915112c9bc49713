//! Rectangles of terminal cells.

use vstd::prelude::*;

verus! {

/// The smaller of two numbers.
pub open spec fn least(a: int, b: int) -> int {
    if a <= b {
        a
    } else {
        b
    }
}

/// The larger of two numbers.
pub open spec fn most(a: int, b: int) -> int {
    if a <= b {
        b
    } else {
        a
    }
}

/// What is left of `a` once `b` is taken off it, and never less than nothing.
pub open spec fn less(a: int, b: int) -> int {
    if a <= b {
        0
    } else {
        a - b
    }
}

pub fn min_u16(a: u16, b: u16) -> (r: u16)
    ensures
        r == least(a as int, b as int),
{
    if a <= b {
        a
    } else {
        b
    }
}

pub fn max_u16(a: u16, b: u16) -> (r: u16)
    ensures
        r == most(a as int, b as int),
{
    if a <= b {
        b
    } else {
        a
    }
}

pub fn min_usize(a: usize, b: usize) -> (r: usize)
    ensures
        r == least(a as int, b as int),
{
    if a <= b {
        a
    } else {
        b
    }
}

pub fn max_usize(a: usize, b: usize) -> (r: usize)
    ensures
        r == most(a as int, b as int),
{
    if a <= b {
        b
    } else {
        a
    }
}

/// An index moved by a signed step, without wrapping past either end.
pub open spec fn stepped(from: int, delta: int) -> int {
    most(least(from + delta, usize::MAX as int), 0)
}

/// Apply a signed delta to an index without wrapping past zero.
pub fn step(from: usize, delta: i32) -> (r: usize)
    ensures
        r == stepped(from as int, delta as int),
{
    if delta < 0 {
        from.saturating_sub((0 - delta as i64) as usize)
    } else {
        from.saturating_add(delta as usize)
    }
}

/// A cell of the screen.
#[derive(Debug, Clone, Copy, PartialEq, Eq, Structural, Hash)]
pub struct Position {
    pub x: u16,
    pub y: u16,
}

impl Position {
    pub fn new(x: u16, y: u16) -> (r: Self)
        ensures
            r == (Position { x, y }),
    {
        Position { x, y }
    }
}

/// A block of cells, by its top left corner and its size.
#[derive(Debug, Clone, Copy, PartialEq, Eq, Structural, Hash)]
pub struct Rect {
    pub x: u16,
    pub y: u16,
    pub width: u16,
    pub height: u16,
}

impl Rect {
    /// The block of no cells at the origin.
    pub open spec fn nothing() -> Rect {
        Rect { x: 0, y: 0, width: 0, height: 0 }
    }

    /// Whether the far edges can be counted.
    pub open spec fn fits(self) -> bool {
        self.x + self.width <= u16::MAX && self.y + self.height <= u16::MAX
    }

    pub open spec fn empty(self) -> bool {
        self.width == 0 || self.height == 0
    }

    pub open spec fn right_edge(self) -> int {
        least(self.x + self.width, u16::MAX as int)
    }

    pub open spec fn bottom_edge(self) -> int {
        least(self.y + self.height, u16::MAX as int)
    }

    /// Whether a cell is in the block.
    pub open spec fn covers(self, at: Position) -> bool {
        self.x <= at.x < self.right_edge() && self.y <= at.y < self.bottom_edge()
    }

    /// A block cut so that its far edges can be counted.
    pub open spec fn cut(x: u16, y: u16, width: int, height: int) -> Rect {
        Rect {
            x,
            y,
            width: least(width, u16::MAX - x) as u16,
            height: least(height, u16::MAX - y) as u16,
        }
    }

    pub open spec fn within(self, outer: Rect) -> bool {
        self.x >= outer.x && self.y >= outer.y && self.x + self.width <= outer.x + outer.width
            && self.y + self.height <= outer.y + outer.height
    }

    pub fn new(x: u16, y: u16, width: u16, height: u16) -> (r: Self)
        ensures
            r == Self::cut(x, y, width as int, height as int),
            r.fits(),
    {
        Rect { x, y, width: min_u16(width, u16::MAX - x), height: min_u16(height, u16::MAX - y) }
    }

    pub fn is_empty(&self) -> (b: bool)
        ensures
            b == self.empty(),
    {
        self.width == 0 || self.height == 0
    }

    pub fn right(&self) -> (r: u16)
        ensures
            r == self.right_edge(),
    {
        self.x.saturating_add(self.width)
    }

    pub fn bottom(&self) -> (r: u16)
        ensures
            r == self.bottom_edge(),
    {
        self.y.saturating_add(self.height)
    }

    pub fn contains(&self, at: Position) -> (b: bool)
        ensures
            b == self.covers(at),
    {
        self.x <= at.x && at.x < self.right() && self.y <= at.y && at.y < self.bottom()
    }

    /// What is left of the block inside a border one cell wide.
    pub fn inner(&self) -> (r: Rect)
        ensures
            r == self.bordered(),
            self.fits() ==> r.fits(),
    {
        Rect {
            x: min_u16(self.x.saturating_add(1), self.right()),
            y: min_u16(self.y.saturating_add(1), self.bottom()),
            width: self.width.saturating_sub(2),
            height: self.height.saturating_sub(2),
        }
    }

    /// The block inside a border one cell wide.
    pub open spec fn bordered(self) -> Rect {
        Rect {
            x: least(self.x + least(1, self.width as int), u16::MAX as int) as u16,
            y: least(self.y + least(1, self.height as int), u16::MAX as int) as u16,
            width: less(self.width as int, 2) as u16,
            height: less(self.height as int, 2) as u16,
        }
    }
}

impl Default for Rect {
    fn default() -> (r: Self)
        ensures
            r == Self::nothing(),
    {
        Rect { x: 0, y: 0, width: 0, height: 0 }
    }
}

} // verus!
