//! Positions and rectangles in logical pixels.

use vstd::prelude::*;

verus! {

/// A pointer position in quarter pixels.
///
/// A coordinate `v` is kept as `2 * floor(2 * v)`, plus one when `2 * v` is
/// not whole. That orders it correctly against every whole and half pixel.
#[derive(Debug, Clone, Copy, PartialEq, Eq, Structural)]
pub struct Point {
    pub x: i64,
    pub y: i64,
}

/// A rectangle; the right and the bottom edge lie outside of it.
#[derive(Debug, Clone, Copy, PartialEq, Eq, Structural)]
pub struct Rect {
    pub x: i32,
    pub y: i32,
    pub width: i32,
    pub height: i32,
}

/// A whole-pixel location.
#[derive(Debug, Clone, Copy, PartialEq, Eq, Structural)]
pub struct Location {
    pub x: i32,
    pub y: i32,
}

/// A size in whole pixels.
#[derive(Debug, Clone, Copy, PartialEq, Eq, Structural)]
pub struct Size {
    pub w: i32,
    pub h: i32,
}

/// The smaller of two numbers.
pub open spec fn least(a: int, b: int) -> int {
    if a <= b {
        a
    } else {
        b
    }
}

/// The larger of two numbers.
pub open spec fn greatest(a: int, b: int) -> int {
    if a >= b {
        a
    } else {
        b
    }
}

/// `v` moved into `[low, high]`.
pub open spec fn clamped(v: int, low: int, high: int) -> int {
    if v < low {
        low
    } else if v > high {
        high
    } else {
        v
    }
}

/// Division that rounds towards zero, as machine integers divide.
pub open spec fn quotient(a: int, b: int) -> int
    recommends
        b > 0,
{
    if a >= 0 {
        a / b
    } else {
        -((-a) / b)
    }
}

/// The number fits an `i32`.
pub open spec fn fits(v: int) -> bool {
    i32::MIN <= v <= i32::MAX
}

pub fn min_i32(a: i32, b: i32) -> (r: i32)
    ensures
        r == least(a as int, b as int),
{
    if a <= b {
        a
    } else {
        b
    }
}

pub fn max_i32(a: i32, b: i32) -> (r: i32)
    ensures
        r == greatest(a as int, b as int),
{
    if a >= b {
        a
    } else {
        b
    }
}

pub fn clamp_i32(v: i32, low: i32, high: i32) -> (r: i32)
    requires
        low <= high,
    ensures
        r == clamped(v as int, low as int, high as int),
{
    if v < low {
        low
    } else if v > high {
        high
    } else {
        v
    }
}

/// Half of a number, rounded towards zero.
pub fn half(v: i32) -> (r: i32)
    ensures
        r == quotient(v as int, 2),
{
    if v >= 0 {
        v / 2
    } else {
        (0 - ((0 - v as i64) / 2)) as i32
    }
}

impl Default for Rect {
    fn default() -> (r: Self)
        ensures
            r == empty_rect(),
    {
        Rect { x: 0, y: 0, width: 0, height: 0 }
    }
}

/// The rectangle without extent at the origin.
pub open spec fn empty_rect() -> Rect {
    Rect { x: 0, y: 0, width: 0, height: 0 }
}

impl Rect {
    /// The position lies on the rectangle.
    pub open spec fn covers(self, point: Point) -> bool {
        &&& 4 * self.x <= point.x < 4 * (self.x + self.width)
        &&& 4 * self.y <= point.y < 4 * (self.y + self.height)
    }

    /// Whether the position lies on the rectangle.
    pub fn contains(&self, point: Point) -> (r: bool)
        ensures
            r == self.covers(point),
    {
        let left: i64 = self.x as i64;
        let top: i64 = self.y as i64;
        let right: i64 = left + self.width as i64;
        let bottom: i64 = top + self.height as i64;
        point.x >= 4 * left && point.x < 4 * right && point.y >= 4 * top && point.y < 4 * bottom
    }

    pub open spec fn right(self) -> int {
        self.x + self.width
    }

    pub open spec fn bottom(self) -> int {
        self.y + self.height
    }

    /// Nothing of it has an area.
    pub open spec fn is_empty(self) -> bool {
        self.width == 0 || self.height == 0
    }

    /// The rectangle holds the pixel at a whole position.
    pub open spec fn holds(self, x: int, y: int) -> bool {
        self.x <= x < self.right() && self.y <= y < self.bottom()
    }

    /// The extent is not negative and the edges are machine numbers.
    pub open spec fn wf(self) -> bool {
        self.width >= 0 && self.height >= 0 && self.representable()
    }

    /// Whether nothing of it has an area.
    pub fn has_no_area(&self) -> (r: bool)
        ensures
            r == self.is_empty(),
    {
        self.width == 0 || self.height == 0
    }

    /// The edges are machine numbers.
    pub open spec fn representable(self) -> bool {
        fits(self.right()) && fits(self.bottom())
    }
}

/// A rectangle over unbounded numbers.
pub struct Box2 {
    pub x: int,
    pub y: int,
    pub width: int,
    pub height: int,
}

impl Box2 {
    /// The rectangle has machine coordinates.
    pub open spec fn fits(self) -> bool {
        fits(self.x) && fits(self.y) && fits(self.width)
            && fits(self.height)
    }

    /// The same rectangle in machine coordinates.
    pub open spec fn rect(self) -> Rect {
        Rect {
            x: self.x as i32,
            y: self.y as i32,
            width: self.width as i32,
            height: self.height as i32,
        }
    }
}

/// The rectangles overlap. Rectangles that only touch do not.
pub open spec fn overlapping(a: Rect, b: Rect) -> bool {
    a.x < b.right() && b.x < a.right() && a.y < b.bottom() && b.y < a.bottom()
}

/// The common part of two rectangles, if they overlap.
pub open spec fn overlap(a: Rect, b: Rect) -> Option<Rect> {
    let left = greatest(a.x as int, b.x as int);
    let top = greatest(a.y as int, b.y as int);
    let right = least(a.right(), b.right());
    let bottom = least(a.bottom(), b.bottom());
    if overlapping(a, b) {
        Some(
            Rect {
                x: left as i32,
                y: top as i32,
                width: (right - left) as i32,
                height: (bottom - top) as i32,
            },
        )
    } else {
        None
    }
}

/// Whether two rectangles overlap.
pub fn overlaps(a: Rect, b: Rect) -> (r: bool)
    ensures
        r == overlapping(a, b),
{
    let right_a: i64 = a.x as i64 + a.width as i64;
    let right_b: i64 = b.x as i64 + b.width as i64;
    let bottom_a: i64 = a.y as i64 + a.height as i64;
    let bottom_b: i64 = b.y as i64 + b.height as i64;
    (a.x as i64) < right_b && (b.x as i64) < right_a && (a.y as i64) < bottom_b && (b.y as i64)
        < bottom_a
}

/// The common part of two rectangles.
pub fn intersection(a: Rect, b: Rect) -> (r: Option<Rect>)
    requires
        a.width >= 0,
        a.height >= 0,
        b.width >= 0,
        b.height >= 0,
    ensures
        r == overlap(a, b),
{
    if !overlaps(a, b) {
        return None;
    }
    let left: i32 = max_i32(a.x, b.x);
    let top: i32 = max_i32(a.y, b.y);
    let right_a: i64 = a.x as i64 + a.width as i64;
    let right_b: i64 = b.x as i64 + b.width as i64;
    let bottom_a: i64 = a.y as i64 + a.height as i64;
    let bottom_b: i64 = b.y as i64 + b.height as i64;
    let right: i64 = if right_a <= right_b { right_a } else { right_b };
    let bottom: i64 = if bottom_a <= bottom_b { bottom_a } else { bottom_b };
    Some(
        Rect {
            x: left,
            y: top,
            width: (right - left as i64) as i32,
            height: (bottom - top as i64) as i32,
        },
    )
}

/// The smallest rectangle around two rectangles.
pub open spec fn hull(a: Rect, b: Rect) -> Box2 {
    let left = least(a.x as int, b.x as int);
    let top = least(a.y as int, b.y as int);
    Box2 {
        x: left,
        y: top,
        width: greatest(a.right(), b.right()) - left,
        height: greatest(a.bottom(), b.bottom()) - top,
    }
}

/// The smallest rectangle around two rectangles.
pub fn merge(a: Rect, b: Rect) -> (r: Rect)
    requires
        a.width >= 0,
        a.height >= 0,
        b.width >= 0,
        b.height >= 0,
        hull(a, b).fits(),
    ensures
        r == hull(a, b).rect(),
{
    let left: i32 = min_i32(a.x, b.x);
    let top: i32 = min_i32(a.y, b.y);
    let right_a: i64 = a.x as i64 + a.width as i64;
    let right_b: i64 = b.x as i64 + b.width as i64;
    let bottom_a: i64 = a.y as i64 + a.height as i64;
    let bottom_b: i64 = b.y as i64 + b.height as i64;
    let right: i64 = if right_a >= right_b { right_a } else { right_b };
    let bottom: i64 = if bottom_a >= bottom_b { bottom_a } else { bottom_b };
    Rect {
        x: left,
        y: top,
        width: (right - left as i64) as i32,
        height: (bottom - top as i64) as i32,
    }
}

/// A position lies on the common part exactly if it lies on both.
pub proof fn intersection_is_the_common_part(a: Rect, b: Rect, point: Point)
    requires
        a.width >= 0,
        a.height >= 0,
        b.width >= 0,
        b.height >= 0,
    ensures
        (a.covers(point) && b.covers(point)) <==> (match overlap(a, b) {
            Some(common) => common.covers(point),
            None => false,
        }),
{
}

/// One of the rectangles holds the pixel.
pub open spec fn covered(rects: Seq<Rect>, x: int, y: int) -> bool {
    exists|i: int| 0 <= i < rects.len() && (#[trigger] rects[i]).holds(x, y)
}

} // verus!
