//! Rectangular rooms used during dungeon generation.
use vstd::prelude::*;

verus! {

/// Half-open room bounds: the carved interior is `x1+1..x2` by `y1+1..y2`,
/// so a one-tile border of wall is kept implicitly.
#[derive(Clone, Copy, Debug, PartialEq, Eq, Structural)]
pub struct Rectangle {
    pub x1: i32,
    pub y1: i32,
    pub x2: i32,
    pub y2: i32,
}

/// Two rectangles intersect when their projections overlap on both axes
/// (inclusive bounds), which rejects room placements without a gap.
pub open spec fn spec_intersect(a: Rectangle, b: Rectangle) -> bool {
    a.x1 <= b.x2 && a.x2 >= b.x1 && a.y1 <= b.y2 && a.y2 >= b.y1
}

/// `(x, y)` lies in the carved interior of `r`.
pub open spec fn interior_contains(r: Rectangle, x: int, y: int) -> bool {
    r.x1 < x < r.x2 && r.y1 < y < r.y2
}

impl Rectangle {
    /// A rectangle with top-left corner `(x, y)`, width `w` and height `h`.
    pub fn new(x: i32, y: i32, w: i32, h: i32) -> (r: Rectangle)
        requires
            i32::MIN <= x + w <= i32::MAX,
            i32::MIN <= y + h <= i32::MAX,
        ensures
            r.x1 == x && r.y1 == y && r.x2 == x + w && r.y2 == y + h,
    {
        Rectangle { x1: x, y1: y, x2: x + w, y2: y + h }
    }

    /// The center of the rectangle, rounded toward the top-left.
    pub fn center(&self) -> (c: (i32, i32))
        requires
            0 <= self.x1 <= self.x2,
            0 <= self.y1 <= self.y2,
            self.x1 + self.x2 <= i32::MAX,
            self.y1 + self.y2 <= i32::MAX,
        ensures
            c.0 == (self.x1 + self.x2) / 2,
            c.1 == (self.y1 + self.y2) / 2,
    {
        let center_x = (self.x1 + self.x2) / 2;
        let center_y = (self.y1 + self.y2) / 2;
        (center_x, center_y)
    }

    /// Whether this rectangle intersects the other one.
    pub fn is_intersecting(&self, other: &Rectangle) -> (r: bool)
        ensures
            r == spec_intersect(*self, *other),
    {
        (self.x1 <= other.x2) && (self.x2 >= other.x1) && (self.y1 <= other.y2) && (self.y2
            >= other.y1)
    }
}

} // verus!
