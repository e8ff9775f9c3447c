//! Rectangles on the desktop, in global coordinates.
//!
//! A rectangle is a corner and a size. Its right and bottom edges are *exclusive*: a rectangle
//! at `x` of width `w` covers the columns `x` up to, and not including, `x + w`.

use vstd::prelude::*;

verus! {

/// The smaller of two integers.
pub open spec fn min(a: int, b: int) -> int {
    if a <= b { a } else { b }
}

/// The larger of two integers.
pub open spec fn max(a: int, b: int) -> int {
    if a >= b { a } else { b }
}

/// Whether a number can be held in an `i32`.
pub open spec fn fits_i32(n: int) -> bool {
    i32::MIN <= n <= i32::MAX
}

/// A rectangle on the desktop.
#[derive(Debug, Clone, Copy, PartialEq, Eq, Structural)]
pub struct Rect {
    pub x: i32,
    pub y: i32,
    pub w: i32,
    pub h: i32,
}

impl Rect {
    /// The first column past the rectangle.
    pub open spec fn right_edge(self) -> int {
        self.x + self.w
    }

    /// The first row past the rectangle.
    pub open spec fn bottom_edge(self) -> int {
        self.y + self.h
    }

    /// Whether both exclusive edges can be held in an `i32`.
    pub open spec fn fits(self) -> bool {
        fits_i32(self.right_edge()) && fits_i32(self.bottom_edge())
    }

    /// Whether the rectangle covers no pixel at all.
    pub open spec fn empty(self) -> bool {
        self.w <= 0 || self.h <= 0
    }

    /// Whether the pixel at `(px, py)` is one of the rectangle's.
    pub open spec fn covers(self, px: int, py: int) -> bool {
        self.x <= px < self.right_edge() && self.y <= py < self.bottom_edge()
    }

    /// Whether every edge of this rectangle is within `outer`.
    pub open spec fn within(self, outer: Rect) -> bool {
        &&& outer.x <= self.x
        &&& self.right_edge() <= outer.right_edge()
        &&& outer.y <= self.y
        &&& self.bottom_edge() <= outer.bottom_edge()
    }

    /// The part of this rectangle that is also part of `other`, with a size of zero along an
    /// axis on which the two do not meet.
    pub open spec fn intersection(self, other: Rect) -> Rect {
        let x = max(self.x as int, other.x as int);
        let y = max(self.y as int, other.y as int);
        Rect {
            x: x as i32,
            y: y as i32,
            w: max(0, min(self.right_edge(), other.right_edge()) - x) as i32,
            h: max(0, min(self.bottom_edge(), other.bottom_edge()) - y) as i32,
        }
    }

    pub fn new(x: i32, y: i32, w: i32, h: i32) -> (r: Rect)
        ensures
            r == (Rect { x, y, w, h }),
    {
        Rect { x, y, w, h }
    }

    pub fn left(self) -> (r: i32)
        ensures
            r == self.x,
    {
        self.x
    }

    pub fn top(self) -> (r: i32)
        ensures
            r == self.y,
    {
        self.y
    }

    /// The first column past the rectangle.
    pub fn right(self) -> (r: i32)
        requires
            fits_i32(self.right_edge()),
        ensures
            r == self.right_edge(),
    {
        self.x + self.w
    }

    /// The first row past the rectangle.
    pub fn bottom(self) -> (r: i32)
        requires
            fits_i32(self.bottom_edge()),
        ensures
            r == self.bottom_edge(),
    {
        self.y + self.h
    }

    /// Whether both exclusive edges can be held in an `i32`.
    pub fn has_edges(self) -> (r: bool)
        ensures
            r == self.fits(),
    {
        let right = self.x as i64 + self.w as i64;
        let bottom = self.y as i64 + self.h as i64;
        i32::MIN as i64 <= right && right <= i32::MAX as i64 && i32::MIN as i64 <= bottom && bottom
            <= i32::MAX as i64
    }

    /// Whether the pixel at `(x, y)` is one of the rectangle's.
    pub fn contains(self, x: i32, y: i32) -> (r: bool)
        ensures
            r == self.covers(x as int, y as int),
    {
        self.x <= x && (x as i64) < self.x as i64 + self.w as i64 && self.y <= y && (y as i64)
            < self.y as i64 + self.h as i64
    }
}

/// A pixel is in the intersection of two rectangles exactly when both cover it.
pub proof fn intersection_covers_what_both_cover(a: Rect, b: Rect, px: int, py: int)
    ensures
        a.intersection(b).covers(px, py) <==> a.covers(px, py) && b.covers(px, py),
{
}

/// An intersection that covers anything lies within both rectangles.
pub proof fn intersection_is_within_both(a: Rect, b: Rect)
    ensures
        !a.intersection(b).empty() ==> a.intersection(b).within(a) && a.intersection(b).within(b),
{
}

/// The smaller and the larger of two numbers are those two, in order.
pub proof fn two_numbers_are_their_smaller_and_their_larger(a: int, b: int)
    ensures
        a <= b ==> (min(a, b), max(a, b)) == (a, b),
        b <= a ==> (min(a, b), max(a, b)) == (b, a),
{
}

/// A rectangle covers the `w` columns that start at `x` and the `h` rows that start at `y`, and no
/// other pixel; one that covers none is empty, and no other is.
pub proof fn a_rectangle_covers_its_columns_and_rows(rect: Rect, px: int, py: int)
    ensures
        rect.covers(px, py) <==> 0 <= px - rect.x < rect.w && 0 <= py - rect.y < rect.h,
        rect.covers(px, py) ==> !rect.empty(),
        !rect.empty() ==> rect.covers(rect.x as int, rect.y as int) && rect.covers(
            rect.x + (rect.w - 1),
            rect.y + (rect.h - 1),
        ),
        rect.right_edge() - rect.x == rect.w,
        rect.bottom_edge() - rect.y == rect.h,
        rect.fits() <==> -0x8000_0000 <= rect.x + rect.w <= 0x7fff_ffff && -0x8000_0000 <= rect.y
            + rect.h <= 0x7fff_ffff,
        fits_i32(px) <==> -0x8000_0000 <= px <= 0x7fff_ffff,
{
}

/// A rectangle that covers a pixel lies within another if and only if the other covers both its
/// first and its last pixel, and then it covers every pixel of it.
pub proof fn what_lies_within_is_covered(inner: Rect, outer: Rect, px: int, py: int)
    requires
        inner.w > 0,
        inner.h > 0,
    ensures
        inner.within(outer) <==> outer.covers(inner.x as int, inner.y as int) && outer.covers(
            inner.x + (inner.w - 1),
            inner.y + (inner.h - 1),
        ),
        inner.within(outer) && inner.covers(px, py) ==> outer.covers(px, py),
{
}

} // verus!
