//! Axis-aligned rectangles and grid distances.
//!
//! Rooms are rectangles `(x1, y1)..(x2, y2)` with all four edges included.
//! Distances between grid cells are compared through their squares, so the
//! comparisons are exact integer arithmetic.

use vstd::prelude::*;

verus! {

/// An axis-aligned rectangle with inclusive bounds, used for rooms
/// during map generation.
#[derive(Debug, Clone, Copy, PartialEq, Eq, Structural)]
pub struct Rect {
    pub x1: i32,
    pub y1: i32,
    pub x2: i32,
    pub y2: i32,
}

/// Inclusive-bounds overlap test: rectangles that merely touch count as
/// overlapping.
pub open spec fn rects_overlap(a: Rect, b: Rect) -> bool {
    a.x1 <= b.x2 && a.x2 >= b.x1 && a.y1 <= b.y2 && a.y2 >= b.y1
}

impl Rect {
    /// Build a rectangle from its top-left corner and its extent.
    pub fn new(x1: i32, y1: i32, w: i32, h: i32) -> (r: Rect)
        requires
            0 <= w,
            0 <= h,
            x1 + w <= i32::MAX,
            y1 + h <= i32::MAX,
        ensures
            r.x1 == x1,
            r.y1 == y1,
            r.x2 == x1 + w,
            r.y2 == y1 + h,
    {
        Rect { x1, y1, x2: x1 + w, y2: y1 + h }
    }

    /// The centre cell of the rectangle, rounded down.
    pub fn centre(&self) -> (c: (i32, i32))
        requires
            0 <= self.x1 <= self.x2,
            0 <= self.y1 <= self.y2,
            self.x1 + self.x2 <= i32::MAX,
            self.y1 + self.y2 <= i32::MAX,
        ensures
            c.0 == (self.x1 + self.x2) / 2,
            c.1 == (self.y1 + self.y2) / 2,
    {
        let centre_x = (self.x1 + self.x2) / 2;
        let centre_y = (self.y1 + self.y2) / 2;
        (centre_x, centre_y)
    }

    /// Whether two rectangles overlap, edges included.
    pub fn intersects_with(&self, other: &Rect) -> (r: bool)
        ensures
            r == rects_overlap(*self, *other),
    {
        (self.x1 <= other.x2) && (self.x2 >= other.x1) && (self.y1 <= other.y2)
            && (self.y2 >= other.y1)
    }
}

/// Overlap is symmetric: the test accepts the rectangles in either order.
pub proof fn lemma_overlap_symmetric(a: Rect, b: Rect)
    ensures
        rects_overlap(a, b) == rects_overlap(b, a),
{
}

/// The squared Euclidean distance between two cells, as a mathematical
/// integer.
pub open spec fn dist_sq(ax: int, ay: int, bx: int, by: int) -> int {
    (bx - ax) * (bx - ax) + (by - ay) * (by - ay)
}

/// Squared Euclidean distance between two cells.  Comparing squared
/// distances against squared thresholds is exactly the comparison of the
/// real distances.
pub fn distance_sq(ax: i32, ay: i32, bx: i32, by: i32) -> (d: i64)
    requires
        -0x10000 <= ax <= 0x10000,
        -0x10000 <= ay <= 0x10000,
        -0x10000 <= bx <= 0x10000,
        -0x10000 <= by <= 0x10000,
    ensures
        d == dist_sq(ax as int, ay as int, bx as int, by as int),
{
    let dx: i64 = bx as i64 - ax as i64;
    let dy: i64 = by as i64 - ay as i64;
    assert(0 <= dx * dx <= 0x20000 * 0x20000) by (nonlinear_arith)
        requires -0x20000 <= dx <= 0x20000;
    assert(0 <= dy * dy <= 0x20000 * 0x20000) by (nonlinear_arith)
        requires -0x20000 <= dy <= 0x20000;
    dx * dx + dy * dy
}

} // verus!
