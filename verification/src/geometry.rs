//! Points, vectors, sizes and rectangles over fixed-point scalars.
use vstd::prelude::*;
use crate::units::{clamp, fits, minus, pixels, plus, saturate, to_pixels};

verus! {

/// A position.
#[derive(Clone, Copy, Debug, PartialEq, Eq, Structural)]
pub struct Point {
    pub x: i32,
    pub y: i32,
}

/// A displacement.
#[derive(Clone, Copy, Debug, PartialEq, Eq, Structural)]
pub struct Vector {
    pub x: i32,
    pub y: i32,
}

/// An extent.
#[derive(Clone, Copy, Debug, PartialEq, Eq, Structural)]
pub struct Size {
    pub width: i32,
    pub height: i32,
}

/// An axis-aligned rectangle, given by its top-left corner and its extent.
#[derive(Clone, Copy, Debug, PartialEq, Eq, Structural)]
pub struct Rectangle {
    pub x: i32,
    pub y: i32,
    pub width: i32,
    pub height: i32,
}

/// A rectangle in whole physical pixels.
#[derive(Clone, Copy, Debug, PartialEq, Eq, Structural)]
pub struct PixelRect {
    pub x: u32,
    pub y: u32,
    pub width: u32,
    pub height: u32,
}

impl Point {
    /// The origin.
    pub fn origin() -> (p: Point)
        ensures
            p == (Point { x: 0, y: 0 }),
    {
        Point { x: 0, y: 0 }
    }

    pub fn new(x: i32, y: i32) -> (p: Point)
        ensures
            p == (Point { x, y }),
    {
        Point { x, y }
    }
}

impl Vector {
    pub fn new(x: i32, y: i32) -> (v: Vector)
        ensures
            v == (Vector { x, y }),
    {
        Vector { x, y }
    }

    /// The saturating sum of two displacements.
    pub open spec fn sum(self, other: Vector) -> Vector {
        Vector { x: clamp(self.x + other.x), y: clamp(self.y + other.y) }
    }

    /// Whether the sum of the two displacements is exact in both axes.
    pub open spec fn sum_is_exact(self, other: Vector) -> bool {
        fits(self.x + other.x) && fits(self.y + other.y)
    }

    /// Adds two displacements, saturating in each axis.
    pub fn plus(self, other: Vector) -> (v: Vector)
        ensures
            v == self.sum(other),
    {
        Vector { x: plus(self.x, other.x), y: plus(self.y, other.y) }
    }
}

impl Size {
    /// The extent of nothing.
    pub fn zero() -> (s: Size)
        ensures
            s == (Size { width: 0, height: 0 }),
    {
        Size { width: 0, height: 0 }
    }

    /// The largest extent there is.
    pub fn infinity() -> (s: Size)
        ensures
            s == (Size { width: i32::MAX, height: i32::MAX }),
    {
        Size { width: i32::MAX, height: i32::MAX }
    }

    pub fn new(width: i32, height: i32) -> (s: Size)
        ensures
            s == (Size { width, height }),
    {
        Size { width, height }
    }
}

impl Rectangle {
    /// The scalar just right of the rectangle.
    pub open spec fn right(self) -> int {
        self.x + self.width
    }

    /// The scalar just below the rectangle.
    pub open spec fn bottom(self) -> int {
        self.y + self.height
    }

    /// Whether the rectangle covers the position `(px, py)`.
    pub open spec fn covers(self, px: int, py: int) -> bool {
        self.x <= px < self.right() && self.y <= py < self.bottom()
    }

    /// Whether the rectangle covers any position at all.
    pub open spec fn has_area(self) -> bool {
        self.width > 0 && self.height > 0
    }

    /// The rectangle moved by `v`, its corner saturating.
    pub open spec fn shifted(self, v: Vector) -> Rectangle {
        Rectangle {
            x: clamp(self.x + v.x),
            y: clamp(self.y + v.y),
            width: self.width,
            height: self.height,
        }
    }

    /// The rectangle grown by `amount` on each of its four sides.
    pub open spec fn expanded(self, amount: i32) -> Rectangle {
        Rectangle {
            x: clamp(self.x - amount),
            y: clamp(self.y - amount),
            width: clamp(self.width + 2 * amount),
            height: clamp(self.height + 2 * amount),
        }
    }

    /// The part that the two rectangles share, if it has an area.
    pub open spec fn overlap(self, other: Rectangle) -> Option<Rectangle> {
        let x: int = if self.x >= other.x { self.x as int } else { other.x as int };
        let y: int = if self.y >= other.y { self.y as int } else { other.y as int };
        let right: int = if self.right() <= other.right() { self.right() } else { other.right() };
        let bottom: int = if self.bottom() <= other.bottom() { self.bottom() } else { other.bottom() };
        if right - x > 0 && bottom - y > 0 {
            Some(
                Rectangle {
                    x: x as i32,
                    y: y as i32,
                    width: (right - x) as i32,
                    height: (bottom - y) as i32,
                },
            )
        } else {
            None
        }
    }

    /// The smallest rectangle that holds both, its extent saturating.
    pub open spec fn hull(self, other: Rectangle) -> Rectangle {
        let x: int = if self.x <= other.x { self.x as int } else { other.x as int };
        let y: int = if self.y <= other.y { self.y as int } else { other.y as int };
        let right: int = if self.right() >= other.right() { self.right() } else { other.right() };
        let bottom: int = if self.bottom() >= other.bottom() { self.bottom() } else { other.bottom() };
        Rectangle {
            x: x as i32,
            y: y as i32,
            width: clamp(right - x),
            height: clamp(bottom - y),
        }
    }

    /// The rectangle in physical pixels at the scale factor `scale`.
    pub open spec fn snapped(self, scale: u32) -> PixelRect {
        PixelRect {
            x: pixels(self.x, scale),
            y: pixels(self.y, scale),
            width: pixels(self.width, scale),
            height: pixels(self.height, scale),
        }
    }

    /// A rectangle with the given corner and extent.
    pub fn new(top_left: Point, size: Size) -> (r: Rectangle)
        ensures
            r == (Rectangle {
                x: top_left.x,
                y: top_left.y,
                width: size.width,
                height: size.height,
            }),
    {
        Rectangle { x: top_left.x, y: top_left.y, width: size.width, height: size.height }
    }

    /// A rectangle at the origin with the given extent.
    pub fn with_size(size: Size) -> (r: Rectangle)
        ensures
            r == (Rectangle { x: 0, y: 0, width: size.width, height: size.height }),
    {
        Rectangle { x: 0, y: 0, width: size.width, height: size.height }
    }

    /// Moves the rectangle by `v`.
    pub fn translate(self, v: Vector) -> (r: Rectangle)
        ensures
            r == self.shifted(v),
    {
        Rectangle {
            x: plus(self.x, v.x),
            y: plus(self.y, v.y),
            width: self.width,
            height: self.height,
        }
    }

    /// Grows the rectangle by `amount` on each side.
    pub fn expand(self, amount: i32) -> (r: Rectangle)
        ensures
            r == self.expanded(amount),
    {
        Rectangle {
            x: minus(self.x, amount),
            y: minus(self.y, amount),
            width: saturate(self.width as i64 + 2 * (amount as i64)),
            height: saturate(self.height as i64 + 2 * (amount as i64)),
        }
    }

    /// The part shared with `other`; `None` where that part has no area.
    pub fn intersection(&self, other: &Rectangle) -> (r: Option<Rectangle>)
        ensures
            r == self.overlap(*other),
    {
        let x: i64 = if self.x >= other.x { self.x as i64 } else { other.x as i64 };
        let y: i64 = if self.y >= other.y { self.y as i64 } else { other.y as i64 };
        let self_right: i64 = self.x as i64 + self.width as i64;
        let other_right: i64 = other.x as i64 + other.width as i64;
        let self_bottom: i64 = self.y as i64 + self.height as i64;
        let other_bottom: i64 = other.y as i64 + other.height as i64;
        let right: i64 = if self_right <= other_right { self_right } else { other_right };
        let bottom: i64 = if self_bottom <= other_bottom { self_bottom } else { other_bottom };
        if right - x > 0 && bottom - y > 0 {
            Some(
                Rectangle {
                    x: x as i32,
                    y: y as i32,
                    width: (right - x) as i32,
                    height: (bottom - y) as i32,
                },
            )
        } else {
            None
        }
    }

    /// The smallest rectangle that holds both `self` and `other`.
    pub fn union(&self, other: &Rectangle) -> (r: Rectangle)
        ensures
            r == self.hull(*other),
    {
        let x: i64 = if self.x <= other.x { self.x as i64 } else { other.x as i64 };
        let y: i64 = if self.y <= other.y { self.y as i64 } else { other.y as i64 };
        let self_right: i64 = self.x as i64 + self.width as i64;
        let other_right: i64 = other.x as i64 + other.width as i64;
        let self_bottom: i64 = self.y as i64 + self.height as i64;
        let other_bottom: i64 = other.y as i64 + other.height as i64;
        let right: i64 = if self_right >= other_right { self_right } else { other_right };
        let bottom: i64 = if self_bottom >= other_bottom { self_bottom } else { other_bottom };
        Rectangle {
            x: x as i32,
            y: y as i32,
            width: saturate(right - x),
            height: saturate(bottom - y),
        }
    }

    /// Scales the rectangle to physical pixels, dropping fractions.
    pub fn snap(self, scale: u32) -> (r: PixelRect)
        ensures
            r == self.snapped(scale),
    {
        PixelRect {
            x: to_pixels(self.x, scale),
            y: to_pixels(self.y, scale),
            width: to_pixels(self.width, scale),
            height: to_pixels(self.height, scale),
        }
    }
}

/// The overlap of two rectangles covers exactly the positions that both
/// cover, and there is an overlap whenever some position is covered by both.
pub proof fn lemma_overlap_covers(a: Rectangle, b: Rectangle, px: int, py: int)
    ensures
        match a.overlap(b) {
            Some(r) => r.has_area() && (r.covers(px, py) <==> a.covers(px, py) && b.covers(px, py)),
            None => !(a.covers(px, py) && b.covers(px, py)),
        },
{
}

/// The overlap does not depend on the order of the two rectangles.
pub proof fn lemma_overlap_commutes(a: Rectangle, b: Rectangle)
    ensures
        a.overlap(b) == b.overlap(a),
{
}

/// A rectangle with an area is its own overlap with itself.
pub proof fn lemma_overlap_idempotent(a: Rectangle)
    requires
        a.has_area(),
    ensures
        a.overlap(a) == Some(a),
{
}

/// The overlap lies inside both rectangles, so it is no larger than either.
pub proof fn lemma_overlap_within(a: Rectangle, b: Rectangle)
    ensures
        a.overlap(b) matches Some(r) ==> {
            &&& a.x <= r.x && r.right() <= a.right()
            &&& a.y <= r.y && r.bottom() <= a.bottom()
            &&& b.x <= r.x && r.right() <= b.right()
            &&& b.y <= r.y && r.bottom() <= b.bottom()
        },
{
}

} // verus!
