//! Cell geometry: points, sizes, rectangles, and layout constraints.

use vstd::prelude::*;

verus! {

/// A cell position: column `x`, row `y`.
#[derive(Clone, Copy, Debug, PartialEq, Eq, Structural)]
pub struct TuiPoint {
    pub x: u16,
    pub y: u16,
}

impl TuiPoint {
    pub fn new(x: u16, y: u16) -> (r: TuiPoint)
        ensures
            r == (TuiPoint { x, y }),
    {
        TuiPoint { x, y }
    }
}

/// A size in cells.
#[derive(Clone, Copy, Debug, PartialEq, Eq, Structural)]
pub struct TuiSize {
    pub width: u16,
    pub height: u16,
}

impl TuiSize {
    /// The empty size.
    pub fn zero() -> (r: TuiSize)
        ensures
            r == (TuiSize { width: 0, height: 0 }),
    {
        TuiSize { width: 0, height: 0 }
    }

    pub fn new(width: u16, height: u16) -> (r: TuiSize)
        ensures
            r == (TuiSize { width, height }),
    {
        TuiSize { width, height }
    }
}

/// A rectangle of cells with its top-left corner at (`x`, `y`).
#[derive(Clone, Copy, Debug, PartialEq, Eq, Structural)]
pub struct TuiRect {
    pub x: u16,
    pub y: u16,
    pub width: u16,
    pub height: u16,
}

/// `a + b`, or `u16::MAX` when that does not fit.
pub open spec fn saturating_add(a: u16, b: u16) -> u16 {
    if a + b > u16::MAX {
        u16::MAX
    } else {
        (a + b) as u16
    }
}

impl TuiRect {
    pub fn new(x: u16, y: u16, width: u16, height: u16) -> (r: TuiRect)
        ensures
            r == (TuiRect { x, y, width, height }),
    {
        TuiRect { x, y, width, height }
    }

    /// The column just right of the rectangle (saturating).
    pub open spec fn spec_right(self) -> u16 {
        saturating_add(self.x, self.width)
    }

    /// The row just below the rectangle (saturating).
    pub open spec fn spec_bottom(self) -> u16 {
        saturating_add(self.y, self.height)
    }

    /// Whether the cell (`x`, `y`) lies in the rectangle.
    pub open spec fn holds(self, x: int, y: int) -> bool {
        self.x <= x < self.spec_right() && self.y <= y < self.spec_bottom()
    }

    /// The column just right of the rectangle.
    pub fn right(&self) -> (r: u16)
        ensures
            r == self.spec_right(),
    {
        self.x.saturating_add(self.width)
    }

    /// The row just below the rectangle.
    pub fn bottom(&self) -> (r: u16)
        ensures
            r == self.spec_bottom(),
    {
        self.y.saturating_add(self.height)
    }

    /// Whether `point` lies in the rectangle.
    pub fn contains_point(&self, point: TuiPoint) -> (r: bool)
        ensures
            r == self.holds(point.x as int, point.y as int),
    {
        point.x >= self.x && point.x < self.right() && point.y >= self.y && point.y
            < self.bottom()
    }
}

/// Bounds on the size an element may take.
#[derive(Clone, Copy, Debug, PartialEq, Eq, Structural)]
pub struct TuiConstraint {
    pub min: TuiSize,
    pub max: TuiSize,
}

impl TuiConstraint {
    /// Any size from zero up to `max`.
    pub fn loose(max: TuiSize) -> (r: TuiConstraint)
        ensures
            r == (TuiConstraint { min: TuiSize { width: 0, height: 0 }, max }),
    {
        TuiConstraint { min: TuiSize::zero(), max }
    }
}

} // verus!
