//! Which part of a decorated window a position is on.

use vstd::prelude::*;

use crate::frame::{DecorationFrame, FrameGeometry};
use crate::frame;
use crate::geometry::{Point, Rect};
use crate::theme::DecorationTheme;

verus! {

/// A part of a decorated window.
#[derive(Debug, Clone, Copy, PartialEq, Eq, Structural)]
pub enum DecorationPart {
    Nothing,
    Client,
    Titlebar,
    CloseButton,
    MaximizeButton,
    MinimizeButton,
    ResizeTop,
    ResizeBottom,
    ResizeLeft,
    ResizeRight,
    ResizeTopLeft,
    ResizeTopRight,
    ResizeBottomLeft,
    ResizeBottomRight,
}

/// How near to an edge of the frame a position grabs that edge.
pub const GRAB_MARGIN: i64 = 8;

/// On the frame, both far edges included.
pub open spec fn within(frame: Rect, p: Point) -> bool {
    &&& 4 * frame.x <= p.x <= 4 * frame.right()
    &&& 4 * frame.y <= p.y <= 4 * frame.bottom()
}

pub open spec fn near_top(frame: Rect, p: Point) -> bool {
    p.y < 4 * (frame.y + GRAB_MARGIN)
}

pub open spec fn near_bottom(frame: Rect, p: Point) -> bool {
    p.y > 4 * (frame.bottom() - GRAB_MARGIN)
}

pub open spec fn near_left(frame: Rect, p: Point) -> bool {
    p.x < 4 * (frame.x + GRAB_MARGIN)
}

pub open spec fn near_right(frame: Rect, p: Point) -> bool {
    p.x > 4 * (frame.right() - GRAB_MARGIN)
}

/// The corner of the frame that the position grabs.
pub open spec fn corner(frame: Rect, p: Point) -> Option<DecorationPart> {
    if !within(frame, p) {
        None
    } else if near_top(frame, p) && near_left(frame, p) {
        Some(DecorationPart::ResizeTopLeft)
    } else if near_top(frame, p) && near_right(frame, p) {
        Some(DecorationPart::ResizeTopRight)
    } else if near_bottom(frame, p) && near_left(frame, p) {
        Some(DecorationPart::ResizeBottomLeft)
    } else if near_bottom(frame, p) && near_right(frame, p) {
        Some(DecorationPart::ResizeBottomRight)
    } else {
        None
    }
}

/// The edge of the frame that the position grabs.
pub open spec fn edge(frame: Rect, p: Point) -> DecorationPart {
    if !within(frame, p) {
        DecorationPart::Nothing
    } else if near_top(frame, p) {
        DecorationPart::ResizeTop
    } else if near_bottom(frame, p) {
        DecorationPart::ResizeBottom
    } else if near_left(frame, p) {
        DecorationPart::ResizeLeft
    } else if near_right(frame, p) {
        DecorationPart::ResizeRight
    } else {
        DecorationPart::Nothing
    }
}

/// The part under a position: corners first, then the buttons, the titlebar
/// and the client, and the edges last.
pub open spec fn part_at(g: FrameGeometry, p: Point, has_titlebar: bool) -> DecorationPart {
    match corner(g.frame, p) {
        Some(part) => part,
        None => if g.close_btn.covers(p) {
            DecorationPart::CloseButton
        } else if g.maximize_btn.covers(p) {
            DecorationPart::MaximizeButton
        } else if g.minimize_btn.covers(p) {
            DecorationPart::MinimizeButton
        } else if has_titlebar && g.drag.covers(p) {
            DecorationPart::Titlebar
        } else if has_titlebar && g.titlebar.covers(p) {
            DecorationPart::Nothing
        } else if g.client.covers(p) {
            DecorationPart::Client
        } else {
            edge(g.frame, p)
        },
    }
}

/// The part of the window under a position.
pub fn hit_test_frame(
    client: Rect,
    point: Point,
    theme: &DecorationTheme,
    has_titlebar: bool,
) -> (part: DecorationPart)
    requires
        frame::frame_fits(client, *theme, has_titlebar),
    ensures
        part == part_at(frame::frame_geometry(client, *theme, has_titlebar), point, has_titlebar),
{
    let geom = DecorationFrame::compute(client, theme, has_titlebar);
    let fx: i64 = geom.frame.x as i64;
    let fy: i64 = geom.frame.y as i64;
    let right: i64 = fx + geom.frame.width as i64;
    let bottom: i64 = fy + geom.frame.height as i64;
    let inside = point.x >= 4 * fx && point.x <= 4 * right && point.y >= 4 * fy && point.y <= 4
        * bottom;
    let top_near = point.y < 4 * (fy + GRAB_MARGIN);
    let bottom_near = point.y > 4 * (bottom - GRAB_MARGIN);
    let left_near = point.x < 4 * (fx + GRAB_MARGIN);
    let right_near = point.x > 4 * (right - GRAB_MARGIN);
    if inside {
        if top_near && left_near {
            return DecorationPart::ResizeTopLeft;
        }
        if top_near && right_near {
            return DecorationPart::ResizeTopRight;
        }
        if bottom_near && left_near {
            return DecorationPart::ResizeBottomLeft;
        }
        if bottom_near && right_near {
            return DecorationPart::ResizeBottomRight;
        }
    }
    if geom.close_btn.contains(point) {
        return DecorationPart::CloseButton;
    }
    if geom.maximize_btn.contains(point) {
        return DecorationPart::MaximizeButton;
    }
    if geom.minimize_btn.contains(point) {
        return DecorationPart::MinimizeButton;
    }
    if has_titlebar && geom.drag.contains(point) {
        return DecorationPart::Titlebar;
    }
    if has_titlebar && geom.titlebar.contains(point) {
        return DecorationPart::Nothing;
    }
    if geom.client.contains(point) {
        return DecorationPart::Client;
    }
    if inside {
        if top_near {
            return DecorationPart::ResizeTop;
        }
        if bottom_near {
            return DecorationPart::ResizeBottom;
        }
        if left_near {
            return DecorationPart::ResizeLeft;
        }
        if right_near {
            return DecorationPart::ResizeRight;
        }
    }
    DecorationPart::Nothing
}

/// A corner of the frame wins over everything that lies under it.
pub proof fn corners_take_priority(g: FrameGeometry, p: Point, has_titlebar: bool)
    requires
        within(g.frame, p),
        near_top(g.frame, p) || near_bottom(g.frame, p),
        near_left(g.frame, p) || near_right(g.frame, p),
    ensures
        match part_at(g, p, has_titlebar) {
            DecorationPart::ResizeTopLeft => true,
            DecorationPart::ResizeTopRight => true,
            DecorationPart::ResizeBottomLeft => true,
            DecorationPart::ResizeBottomRight => true,
            _ => false,
        },
{
}

/// Without a titlebar nothing drags the window.
pub proof fn only_a_titlebar_drags(g: FrameGeometry, p: Point)
    ensures
        part_at(g, p, false) != DecorationPart::Titlebar,
{
}

} // verus!
