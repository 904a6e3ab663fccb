//! Axis-aligned rectangles of tiles.

use vstd::prelude::*;

verus! {

/// The rectangle with corners `(x1, y1)` and `(x2, y2)`.
#[derive(Clone, Copy, PartialEq, Eq, Structural, Debug)]
pub struct Rect {
    pub x1: i32,
    pub x2: i32,
    pub y1: i32,
    pub y2: i32,
}

impl Rect {
    /// The two rectangles share a tile, their borders counted.
    pub open spec fn overlaps(self, other: Rect) -> bool {
        self.x1 <= other.x2 && self.x2 >= other.x1 && self.y1 <= other.y2 && self.y2 >= other.y1
    }

    /// The middle of the rectangle, each coordinate rounded toward zero.
    pub open spec fn middle(self) -> (int, int) {
        (truncated_half(self.x1 + self.x2), truncated_half(self.y1 + self.y2))
    }

    /// The rectangle `w` wide and `h` high whose corner of smallest
    /// coordinates is `(x, y)`.
    pub fn new(x: i32, y: i32, w: i32, h: i32) -> (r: Rect)
        requires
            i32::MIN <= x + w <= i32::MAX,
            i32::MIN <= y + h <= i32::MAX,
        ensures
            r == (Rect { x1: x, y1: y, x2: (x + w) as i32, y2: (y + h) as i32 }),
    {
        Rect { x1: x, y1: y, x2: x + w, y2: y + h }
    }

    /// Whether this rectangle and `other` share a tile.
    pub fn intersect(&self, other: &Rect) -> (r: bool)
        ensures
            r == self.overlaps(*other),
    {
        self.x1 <= other.x2 && self.x2 >= other.x1 && self.y1 <= other.y2 && self.y2 >= other.y1
    }

    /// The tile in the middle of the rectangle.
    pub fn center(&self) -> (c: (i32, i32))
        ensures
            (c.0 as int, c.1 as int) == self.middle(),
    {
        let cx: i64 = (self.x1 as i64 + self.x2 as i64) / 2;
        let cy: i64 = (self.y1 as i64 + self.y2 as i64) / 2;
        (cx as i32, cy as i32)
    }
}

/// Half of `n`, rounded toward zero.
pub open spec fn truncated_half(n: int) -> int {
    if n >= 0 {
        n / 2
    } else {
        -((-n) / 2)
    }
}

} // verus!
