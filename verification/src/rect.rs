//! Axis-aligned integer rectangles, the coordinate type of the window
//! tree. A rectangle is kept in the two-corner form with both edges
//! ordered.

use vstd::prelude::*;

verus! {

/// Coordinate magnitude up to which rectangle arithmetic is exercised;
/// the sum of two such coordinates always fits `i32`.
pub const COORD_LIMIT: i32 = 0x2000_0000;

/// A coordinate small enough that adding two never overflows.
pub open spec fn coord_in_range(v: int) -> bool {
    -(COORD_LIMIT as int) <= v <= COORD_LIMIT as int
}

/// An axis-aligned rectangle with ordered corners.
#[derive(Clone, Copy, PartialEq, Eq, Structural, Debug)]
pub struct Rect {
    pub x1: i32,
    pub y1: i32,
    pub x2: i32,
    pub y2: i32,
}

impl Rect {
    /// Both corner pairs are ordered.
    pub open spec fn wf(self) -> bool {
        self.x1 <= self.x2 && self.y1 <= self.y2
    }

    /// All four coordinates are in the exercised range.
    pub open spec fn bounded(self) -> bool {
        &&& coord_in_range(self.x1 as int)
        &&& coord_in_range(self.y1 as int)
        &&& coord_in_range(self.x2 as int)
        &&& coord_in_range(self.y2 as int)
    }

    /// Build a rectangle from two corners; refused when the corners are
    /// not ordered.
    pub fn new(x1: i32, y1: i32, x2: i32, y2: i32) -> (r: Option<Rect>)
        ensures
            (x1 <= x2 && y1 <= y2) <==> r is Some,
            r matches Some(rect) ==> rect == (Rect { x1, y1, x2, y2 }) && rect.wf(),
    {
        if x1 <= x2 && y1 <= y2 {
            Some(Rect { x1, y1, x2, y2 })
        } else {
            None
        }
    }

    /// Build a rectangle from a corner and a size; refused when the size
    /// is negative.
    pub fn new_sized(x: i32, y: i32, width: i32, height: i32) -> (r: Option<Rect>)
        requires
            i32::MIN <= x + width <= i32::MAX,
            i32::MIN <= y + height <= i32::MAX,
        ensures
            (width >= 0 && height >= 0) <==> r is Some,
            r matches Some(rect) ==> rect == (Rect {
                x1: x,
                y1: y,
                x2: (x + width) as i32,
                y2: (y + height) as i32,
            }) && rect.wf(),
    {
        if width >= 0 && height >= 0 {
            Some(Rect { x1: x, y1: y, x2: x + width, y2: y + height })
        } else {
            None
        }
    }

    /// Translate by `(dx, dy)`.
    pub fn move_(&self, dx: i32, dy: i32) -> (r: Rect)
        requires
            self.wf(),
            i32::MIN <= self.x1 + dx <= i32::MAX,
            i32::MIN <= self.x2 + dx <= i32::MAX,
            i32::MIN <= self.y1 + dy <= i32::MAX,
            i32::MIN <= self.y2 + dy <= i32::MAX,
        ensures
            r.wf(),
            r.x1 == self.x1 + dx,
            r.y1 == self.y1 + dy,
            r.x2 == self.x2 + dx,
            r.y2 == self.y2 + dy,
    {
        Rect { x1: self.x1 + dx, y1: self.y1 + dy, x2: self.x2 + dx, y2: self.y2 + dy }
    }

    pub fn width(&self) -> (r: i32)
        requires
            self.wf(),
            self.x2 - self.x1 <= i32::MAX,
        ensures
            r == self.x2 - self.x1,
    {
        self.x2 - self.x1
    }

    pub fn height(&self) -> (r: i32)
        requires
            self.wf(),
            self.y2 - self.y1 <= i32::MAX,
        ensures
            r == self.y2 - self.y1,
    {
        self.y2 - self.y1
    }

    /// All four coordinates are within magnitude `m`.
    pub open spec fn within(self, m: int) -> bool {
        &&& -m <= self.x1 <= m
        &&& -m <= self.y1 <= m
        &&& -m <= self.x2 <= m
        &&& -m <= self.y2 <= m
    }

    /// `other` lies inside this rectangle.
    pub open spec fn spec_contains_rect(self, other: Rect) -> bool {
        self.x1 <= other.x1 && other.x2 <= self.x2 && self.y1 <= other.y1 && other.y2 <= self.y2
    }

    /// By how much `other` sticks out of this rectangle on each side;
    /// a positive amount is an overflow.
    pub fn get_overflow(&self, other: &Rect) -> (r: Overflow)
        requires
            self.bounded(),
            other.within(0x2000_0000),
        ensures
            r.left == self.x1 - other.x1,
            r.right == other.x2 - self.x2,
            r.top == self.y1 - other.y1,
            r.bottom == other.y2 - self.y2,
    {
        Overflow {
            left: self.x1 - other.x1,
            right: other.x2 - self.x2,
            top: self.y1 - other.y1,
            bottom: other.y2 - self.y2,
        }
    }
}

/// How far a rectangle sticks out of another, per side; positive amounts
/// are overflows.
#[derive(Clone, Copy, PartialEq, Eq, Structural, Debug)]
pub struct Overflow {
    pub left: i32,
    pub right: i32,
    pub top: i32,
    pub bottom: i32,
}

impl Overflow {
    /// Nothing sticks out.
    pub fn is_contained(&self) -> (r: bool)
        ensures
            r == (self.left <= 0 && self.right <= 0 && self.top <= 0 && self.bottom <= 0),
    {
        self.left <= 0 && self.right <= 0 && self.top <= 0 && self.bottom <= 0
    }

    /// Something sticks out horizontally.
    pub fn x_overflow(&self) -> (r: bool)
        ensures
            r == (self.left > 0 || self.right > 0),
    {
        self.left > 0 || self.right > 0
    }

    /// Something sticks out vertically.
    pub fn y_overflow(&self) -> (r: bool)
        ensures
            r == (self.top > 0 || self.bottom > 0),
    {
        self.top > 0 || self.bottom > 0
    }
}

} // verus!
