//! Interactive moving and resizing.

use vstd::prelude::*;

use crate::geometry::{Location, Point, Rect, Size};
use crate::geometry;
use crate::hit_test::DecorationPart;

verus! {

/// The edges that a resize drags.
#[derive(Debug, Clone, Copy, PartialEq, Eq, Structural)]
pub struct ResizeEdges {
    pub top: bool,
    pub bottom: bool,
    pub left: bool,
    pub right: bool,
}

/// The edge or corner a client names when it asks to be resized.
#[derive(Debug, Clone, Copy, PartialEq, Eq, Structural)]
pub enum XdgResizeEdge {
    NoEdge,
    Top,
    Bottom,
    Left,
    TopLeft,
    BottomLeft,
    Right,
    TopRight,
    BottomRight,
}

/// The edges that a name stands for.
pub open spec fn named_edges(edge: XdgResizeEdge) -> ResizeEdges {
    let (top, bottom, left, right) = match edge {
        XdgResizeEdge::NoEdge => (false, false, false, false),
        XdgResizeEdge::Top => (true, false, false, false),
        XdgResizeEdge::Bottom => (false, true, false, false),
        XdgResizeEdge::Left => (false, false, true, false),
        XdgResizeEdge::TopLeft => (true, false, true, false),
        XdgResizeEdge::BottomLeft => (false, true, true, false),
        XdgResizeEdge::Right => (false, false, false, true),
        XdgResizeEdge::TopRight => (true, false, false, true),
        XdgResizeEdge::BottomRight => (false, true, false, true),
    };
    ResizeEdges { top, bottom, left, right }
}

impl ResizeEdges {
    /// The edges of a client's request.
    pub fn from_xdg(edge: XdgResizeEdge) -> (r: Self)
        ensures
            r.top == (edge is Top || edge is TopLeft || edge is TopRight),
            r.bottom == (edge is Bottom || edge is BottomLeft || edge is BottomRight),
            r.left == (edge is Left || edge is TopLeft || edge is BottomLeft),
            r.right == (edge is Right || edge is TopRight || edge is BottomRight),
            r == named_edges(edge),
    {
        ResizeEdges {
            top: matches!(
                edge,
                XdgResizeEdge::Top | XdgResizeEdge::TopLeft | XdgResizeEdge::TopRight
            ),
            bottom: matches!(
                edge,
                XdgResizeEdge::Bottom | XdgResizeEdge::BottomLeft | XdgResizeEdge::BottomRight
            ),
            left: matches!(
                edge,
                XdgResizeEdge::Left | XdgResizeEdge::TopLeft | XdgResizeEdge::BottomLeft
            ),
            right: matches!(
                edge,
                XdgResizeEdge::Right | XdgResizeEdge::TopRight | XdgResizeEdge::BottomRight
            ),
        }
    }

    /// No edge is dragged.
    pub open spec fn none(self) -> bool {
        !self.top && !self.bottom && !self.left && !self.right
    }

    /// Whether no edge is dragged.
    pub fn is_empty(self) -> (r: bool)
        ensures
            r == self.none(),
    {
        !(self.top || self.bottom || self.left || self.right)
    }
}

/// Keeps the edges opposite to the dragged ones in place while the client
/// catches up with the requested size.
#[derive(Debug, Clone, Copy, PartialEq, Eq, Structural)]
pub struct ResizeAnchor {
    pub edges: ResizeEdges,
    pub initial: Rect,
}

impl ResizeAnchor {
    /// Horizontal place for a window of the given width.
    pub open spec fn x_for(self, width: int) -> int {
        if self.edges.left {
            self.initial.x + self.initial.width - width
        } else {
            self.initial.x as int
        }
    }

    /// Vertical place for a window of the given height.
    pub open spec fn y_for(self, height: int) -> int {
        if self.edges.top {
            self.initial.y + self.initial.height - height
        } else {
            self.initial.y as int
        }
    }

    /// The place of the window has machine coordinates.
    pub open spec fn places(self, size: Size) -> bool {
        geometry::fits(self.x_for(size.w as int)) && geometry::fits(self.y_for(size.h as int))
    }

    /// Whether the place of the window has machine coordinates.
    pub fn reaches(&self, size: Size) -> (r: bool)
        ensures
            r == self.places(size),
    {
        let x: i64 = self.initial.x as i64 + self.initial.width as i64 - size.w as i64;
        let y: i64 = self.initial.y as i64 + self.initial.height as i64 - size.h as i64;
        let within_x: bool = i32::MIN as i64 <= x && x <= i32::MAX as i64;
        let within_y: bool = i32::MIN as i64 <= y && y <= i32::MAX as i64;
        (!self.edges.left || within_x) && (!self.edges.top || within_y)
    }

    /// The place of a window that has reached the given size.
    pub open spec fn location(self, size: Size) -> Location {
        Location { x: self.x_for(size.w as int) as i32, y: self.y_for(size.h as int) as i32 }
    }

    /// Where a window of the given size goes.
    pub fn location_for(&self, size: Size) -> (r: Location)
        requires
            self.places(size),
        ensures
            r == self.location(size),
    {
        let x: i64 = if self.edges.left {
            self.initial.x as i64 + self.initial.width as i64 - size.w as i64
        } else {
            self.initial.x as i64
        };
        let y: i64 = if self.edges.top {
            self.initial.y as i64 + self.initial.height as i64 - size.h as i64
        } else {
            self.initial.y as i64
        };
        Location { x: x as i32, y: y as i32 }
    }
}

/// The edges opposite to the dragged ones stay where they were: the right
/// edge while the left one is dragged, the left one otherwise, and the same
/// for bottom and top.
pub proof fn anchor_keeps_opposite_edges_fixed(anchor: ResizeAnchor, size: Size)
    ensures
        if anchor.edges.left {
            anchor.x_for(size.w as int) + size.w == anchor.initial.right()
        } else {
            anchor.x_for(size.w as int) == anchor.initial.x
        },
        if anchor.edges.top {
            anchor.y_for(size.h as int) + size.h == anchor.initial.bottom()
        } else {
            anchor.y_for(size.h as int) == anchor.initial.y
        },
{
}

/// A requested length, kept between the client's limits; a limit of zero or
/// less is none, and no length is below one.
pub open spec fn limited(value: int, min: int, max: int) -> int {
    let low = geometry::greatest(min, 1);
    let high = geometry::greatest(
        if max > 0 {
            max
        } else {
            i32::MAX as int
        },
        low,
    );
    geometry::clamped(value, low, high)
}

/// The dragged length: pulled in from the near edge or out from the far one.
pub open spec fn dragged(length: int, near: bool, far: bool, delta: int) -> int {
    if near {
        length - delta
    } else if far {
        length + delta
    } else {
        length
    }
}

fn drag_length(length: i32, near: bool, far: bool, delta: i32, min: i32, max: i32) -> (r: i32)
    ensures
        r == limited(
            dragged(length as int, near, far, delta as int),
            min as int,
            max as int,
        ),
{
    let value: i64 = if near {
        length as i64 - delta as i64
    } else if far {
        length as i64 + delta as i64
    } else {
        length as i64
    };
    let low: i32 = geometry::max_i32(min, 1);
    let high: i32 = geometry::max_i32(if max > 0 { max } else { i32::MAX }, low);
    if value < low as i64 {
        low
    } else if value > high as i64 {
        high
    } else {
        value as i32
    }
}

/// The size a resize asks for once the pointer has moved by `delta` pixels.
pub fn resized(anchor: &ResizeAnchor, delta: Location, min: Size, max: Size) -> (r: Size)
    ensures
        r.w == limited(
            dragged(
                anchor.initial.width as int,
                anchor.edges.left,
                anchor.edges.right,
                delta.x as int,
            ),
            min.w as int,
            max.w as int,
        ),
        r.h == limited(
            dragged(
                anchor.initial.height as int,
                anchor.edges.top,
                anchor.edges.bottom,
                delta.y as int,
            ),
            min.h as int,
            max.h as int,
        ),
{
    let edges = anchor.edges;
    Size {
        w: drag_length(anchor.initial.width, edges.left, edges.right, delta.x, min.w, max.w),
        h: drag_length(anchor.initial.height, edges.top, edges.bottom, delta.y, min.h, max.h),
    }
}

/// A resize never asks for an empty window, and keeps to the client's limits
/// where they leave room.
pub proof fn resize_respects_the_limits(value: int, min: int, max: int)
    requires
        max <= i32::MAX,
        min <= i32::MAX,
    ensures
        1 <= limited(value, min, max) <= i32::MAX,
        limited(value, min, max) >= min,
        1 <= max && min <= max ==> limited(value, min, max) <= max,
{
}

/// A resize in progress: what the next pointer motion is measured against.
#[derive(Debug, Clone, Copy, PartialEq, Eq, Structural)]
pub struct ResizeGrab {
    pub anchor: ResizeAnchor,
    pub last_size: Size,
}

impl ResizeGrab {
    /// Follows the pointer, `delta` pixels away from where the resize
    /// started. Returns the size to configure, if it is a new one.
    pub fn motion(&mut self, delta: Location, min: Size, max: Size) -> (configure: Option<Size>)
        ensures
            final(self).anchor == old(self).anchor,
            ({
                let w = limited(
                    dragged(
                        old(self).anchor.initial.width as int,
                        old(self).anchor.edges.left,
                        old(self).anchor.edges.right,
                        delta.x as int,
                    ),
                    min.w as int,
                    max.w as int,
                );
                let h = limited(
                    dragged(
                        old(self).anchor.initial.height as int,
                        old(self).anchor.edges.top,
                        old(self).anchor.edges.bottom,
                        delta.y as int,
                    ),
                    min.h as int,
                    max.h as int,
                );
                &&& final(self).last_size.w == w
                &&& final(self).last_size.h == h
                &&& configure == (if old(self).last_size == final(self).last_size {
                    None
                } else {
                    Some(final(self).last_size)
                })
            }),
    {
        let anchor = self.anchor;
        let size = resized(&anchor, delta, min, max);
        if size == self.last_size {
            return None;
        }
        self.last_size = size;
        Some(size)
    }
}

/// The edges that a part of the frame drags.
pub open spec fn edges_of(part: DecorationPart) -> Option<ResizeEdges> {
    let e = ResizeEdges {
        top: part is ResizeTop || part is ResizeTopLeft || part is ResizeTopRight,
        bottom: part is ResizeBottom || part is ResizeBottomLeft || part is ResizeBottomRight,
        left: part is ResizeLeft || part is ResizeTopLeft || part is ResizeBottomLeft,
        right: part is ResizeRight || part is ResizeTopRight || part is ResizeBottomRight,
    };
    if e.none() {
        None
    } else {
        Some(e)
    }
}

/// The edges that a part of the frame drags, if it drags any.
pub fn resize_edges(part: DecorationPart) -> (r: Option<ResizeEdges>)
    ensures
        r == edges_of(part),
{
    let (top, bottom, left, right) = match part {
        DecorationPart::ResizeTop => (true, false, false, false),
        DecorationPart::ResizeBottom => (false, true, false, false),
        DecorationPart::ResizeLeft => (false, false, true, false),
        DecorationPart::ResizeRight => (false, false, false, true),
        DecorationPart::ResizeTopLeft => (true, false, true, false),
        DecorationPart::ResizeTopRight => (true, false, false, true),
        DecorationPart::ResizeBottomLeft => (false, true, true, false),
        DecorationPart::ResizeBottomRight => (false, true, false, true),
        _ => {
            return None;
        },
    };
    Some(ResizeEdges { top, bottom, left, right })
}

/// The edges of the quarter of the window that a position is in.
pub open spec fn quadrant(window: Rect, p: Point) -> ResizeEdges {
    ResizeEdges {
        top: p.y < 4 * window.y + 2 * window.height,
        bottom: p.y >= 4 * window.y + 2 * window.height,
        left: p.x < 4 * window.x + 2 * window.width,
        right: p.x >= 4 * window.x + 2 * window.width,
    }
}

/// The edges of the quarter of the window that a position is in.
pub fn quadrant_edges(window: Rect, location: Point) -> (r: ResizeEdges)
    ensures
        r == quadrant(window, location),
{
    let center_x: i64 = 4 * window.x as i64 + 2 * window.width as i64;
    let center_y: i64 = 4 * window.y as i64 + 2 * window.height as i64;
    ResizeEdges {
        top: location.y < center_y,
        bottom: location.y >= center_y,
        left: location.x < center_x,
        right: location.x >= center_x,
    }
}

/// A quarter always names one horizontal and one vertical edge.
pub proof fn a_quadrant_is_a_corner(window: Rect, p: Point)
    ensures
        quadrant(window, p).top != quadrant(window, p).bottom,
        quadrant(window, p).left != quadrant(window, p).right,
{
}

} // verus!
