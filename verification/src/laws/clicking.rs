//! What clicks and drags do.

use vstd::prelude::*;

use crate::frame;
use crate::geometry::{Point, Rect};
use crate::grabs::ResizeEdges;
use crate::grabs;
use crate::hit_test::DecorationPart;
use crate::input::{HitCandidate, PressOutcome, PressTarget, WindowFrame};
use crate::input;
use crate::model::{DesktopModel, Effect, FocusTarget, Layer, WindowId, WindowLayout};
use crate::theme::DecorationTheme;

verus! {

/// The left mouse button on the frame of a floating window: each button of the
/// titlebar does what it is called, the titlebar moves the window, and edges
/// and corners resize it.
pub proof fn frame_parts_do_what_they_are_for(d: DesktopModel, id: WindowId, p: Point, logo: bool)
    requires
        d.settings.layout == WindowLayout::Floating,
        d.has(id),
    ensures
        ({
            let (next, outcome) = input::window_press(
                d,
                id,
                false,
                DecorationPart::CloseButton,
                0x110,
                logo,
                p,
            );
            &&& next.effects == d.effects.push(Effect::SendClose { id })
            &&& next.windows == d.windows
            &&& outcome is Consumed
        }),
        ({
            let (next, outcome) = input::window_press(
                d,
                id,
                false,
                DecorationPart::MinimizeButton,
                0x110,
                logo,
                p,
            );
            next == d.minimize(id).0 && (d.minimize(id).1 ==> outcome is Consumed)
        }),
        ({
            let (next, outcome) = input::window_press(
                d,
                id,
                false,
                DecorationPart::MaximizeButton,
                0x110,
                logo,
                p,
            );
            &&& !d.window(id).maximized ==> next == d.set_maximized(id, true).0
            &&& d.window(id).maximized ==> next == d.set_maximized(id, false).0
            &&& !d.window(id).fullscreen ==> outcome is Consumed
        }),
        input::window_press(d, id, false, DecorationPart::Titlebar, 0x110, logo, p) == (
            d,
            PressOutcome::Move,
        ),
        input::window_press(d, id, false, DecorationPart::ResizeTop, 0x110, logo, p) == (
            d,
            PressOutcome::Resize(
                ResizeEdges { top: true, bottom: false, left: false, right: false },
            ),
        ),
        input::window_press(d, id, false, DecorationPart::ResizeBottom, 0x110, logo, p) == (
            d,
            PressOutcome::Resize(
                ResizeEdges { top: false, bottom: true, left: false, right: false },
            ),
        ),
        input::window_press(d, id, false, DecorationPart::ResizeLeft, 0x110, logo, p) == (
            d,
            PressOutcome::Resize(
                ResizeEdges { top: false, bottom: false, left: true, right: false },
            ),
        ),
        input::window_press(d, id, false, DecorationPart::ResizeRight, 0x110, logo, p) == (
            d,
            PressOutcome::Resize(
                ResizeEdges { top: false, bottom: false, left: false, right: true },
            ),
        ),
        input::window_press(d, id, false, DecorationPart::ResizeTopLeft, 0x110, logo, p) == (
            d,
            PressOutcome::Resize(
                ResizeEdges { top: true, bottom: false, left: true, right: false },
            ),
        ),
        input::window_press(d, id, false, DecorationPart::ResizeTopRight, 0x110, logo, p) == (
            d,
            PressOutcome::Resize(
                ResizeEdges { top: true, bottom: false, left: false, right: true },
            ),
        ),
        input::window_press(d, id, false, DecorationPart::ResizeBottomLeft, 0x110, logo, p) == (
            d,
            PressOutcome::Resize(
                ResizeEdges { top: false, bottom: true, left: true, right: false },
            ),
        ),
        input::window_press(d, id, false, DecorationPart::ResizeBottomRight, 0x110, logo, p) == (
            d,
            PressOutcome::Resize(
                ResizeEdges { top: false, bottom: true, left: false, right: true },
            ),
        ),
{
}

/// With the logo key held, the left button moves a window from anywhere on
/// its surface, and the right button resizes it at the corner nearest to the
/// pointer. Other clicks on a surface go to the client.
pub proof fn the_logo_key_moves_and_resizes(
    d: DesktopModel,
    id: WindowId,
    part: DecorationPart,
    button: u32,
    p: Point,
)
    requires
        d.window(id).place is Some,
    ensures
        input::window_press(d, id, true, part, 0x110, true, p) == (d, PressOutcome::Move),
        ({
            let place = d.window(id).place->0;
            let size = d.window(id).size;
            let (next, outcome) = input::window_press(d, id, true, part, 0x111, true, p);
            &&& next == d
            &&& outcome matches PressOutcome::Resize(edges)
            &&& edges.left <==> p.x - 4 * place.x < 4 * (place.x + size.w) - p.x
            &&& edges.right <==> !edges.left
            &&& edges.top <==> p.y - 4 * place.y < 4 * (place.y + size.h) - p.y
            &&& edges.bottom <==> !edges.top
        }),
        button != 0x110 && button != 0x111 ==> input::window_press(
            d,
            id,
            true,
            part,
            button,
            true,
            p,
        ) == (d, PressOutcome::Forward),
        input::window_press(d, id, true, part, button, false, p) == (d, PressOutcome::Forward),
{
}

/// A click on a window gives it the keyboard, and one on nothing takes it from
/// everyone.
pub proof fn clicks_move_the_focus(
    d: DesktopModel,
    id: WindowId,
    part: DecorationPart,
    button: u32,
    logo: bool,
    p: Point,
)
    requires
        super::focusing::nobody_takes_all(d),
    ensures
        input::press(
            d,
            PressTarget::Window { id, on_surface: true, part },
            button,
            logo,
            p,
        ).0.keyboard == FocusTarget::Window(id),
        input::press(d, PressTarget::Nothing, button, logo, p).0.keyboard == FocusTarget::Nobody,
        input::press(d, PressTarget::Nothing, button, logo, p).1 is Forward,
{
    let raised = if d.settings.raise_on_focus || d.window(id).fullscreen {
        d.raise(id)
    } else {
        d
    };
    super::focusing::the_keyboard_goes_where_it_is_sent(raised, FocusTarget::Window(id), 0);
    super::focusing::the_keyboard_goes_where_it_is_sent(d, FocusTarget::Nobody, 0);
}

/// A click on a panel that takes the keyboard gives it the keyboard; one on a
/// panel below the windows that does not takes it from everyone; one on a
/// panel above leaves it.
pub proof fn clicks_on_panels(
    d: DesktopModel,
    layer: u64,
    level: Layer,
    button: u32,
    logo: bool,
    p: Point,
)
    requires
        super::focusing::nobody_takes_all(d),
    ensures
        input::press(
            d,
            PressTarget::Layer { layer, level, can_focus: true },
            button,
            logo,
            p,
        ).0.keyboard == FocusTarget::Layer(layer),
        level == Layer::Bottom || level == Layer::Background ==> input::press(
            d,
            PressTarget::Layer { layer, level, can_focus: false },
            button,
            logo,
            p,
        ).0.keyboard == FocusTarget::Nobody,
        level == Layer::Top || level == Layer::Overlay ==> input::press(
            d,
            PressTarget::Layer { layer, level, can_focus: false },
            button,
            logo,
            p,
        ).0 == d,
{
    super::focusing::the_keyboard_goes_where_it_is_sent(d, FocusTarget::Nobody, 0);
}

/// The pointer is tried on the overlay first, then on the panels above the
/// windows, the windows from the topmost down, and the panels below. A
/// fullscreen window on top leaves nothing but the overlay above it and
/// nothing below.
pub proof fn the_topmost_thing_is_tried_first(d: DesktopModel, output: int, i: int)
    requires
        0 <= i < d.z_order(output).len(),
    ensures
        ({
            let z = d.z_order(output);
            let n = z.len() as int;
            let tried = input::candidates(d, output);
            let full = d.has(z[n - 1]) && d.window(z[n - 1]).fullscreen;
            &&& tried[0] == HitCandidate::Layer(Layer::Overlay)
            &&& full ==> tried.len() == n + 1 && tried[1 + i] == HitCandidate::Window(z[n - 1 - i])
            &&& !full ==> {
                &&& tried.len() == n + 4
                &&& tried[1] == HitCandidate::Layer(Layer::Top)
                &&& tried[2 + i] == HitCandidate::Window(z[n - 1 - i])
                &&& tried[n + 2] == HitCandidate::Layer(Layer::Bottom)
                &&& tried[n + 3] == HitCandidate::Layer(Layer::Background)
            }
        }),
{
}

/// A window on the desktop is where it was placed, as large as its client drew
/// it. Its frame is the one of its decoration, and there is none without.
pub proof fn frames_go_around_windows(d: DesktopModel, id: WindowId, theme: DecorationTheme)
    requires
        d.has(id),
    ensures
        input::framed(d, id, theme) is Some <==> d.window(id).place is Some,
        input::framed(d, id, theme) matches Some(f) ==> {
            let place = d.window(id).place->0;
            let size = d.window(id).size;
            &&& f.client == (Rect { x: place.x, y: place.y, width: size.w, height: size.h })
            &&& f.has_border <==> d.decorated(id)
            &&& f.has_titlebar <==> d.decorated(id) && d.settings.layout == WindowLayout::Floating
                && !d.window(id).fullscreen
            &&& !d.decorated(id) ==> f.frame == f.client
            &&& d.decorated(id) ==> f.frame == frame::frame_geometry(
                f.client,
                theme,
                f.has_titlebar,
            ).frame
        },
{
}

/// What the client has under the pointer is the client's. Off it, a window
/// with a border is hit within its frame, and one without is not hit.
pub proof fn surfaces_come_before_frames(f: WindowFrame, p: Point, theme: DecorationTheme)
    ensures
        input::part_under(f, p, theme, true) == Some(DecorationPart::Client),
        input::part_under(f, p, theme, false) is Some <==> f.has_border && super::frames::on(
            f.frame,
            p,
        ),
        input::part_under(f, p, theme, false) matches Some(part) ==> part
            == crate::hit_test::part_at(
            frame::frame_geometry(f.client, theme, f.has_titlebar),
            p,
            f.has_titlebar,
        ),
{
}

/// Dragging a far edge outwards makes the window larger by as much, dragging a
/// near edge makes it smaller, and no edge leaves it. The limits of the client
/// hold, and a pixel is left.
pub proof fn windows_grow_with_the_dragged_edge(
    length: int,
    near: bool,
    far: bool,
    delta: int,
    min: int,
    max: int,
)
    requires
        min <= i32::MAX,
        max <= i32::MAX,
        length + delta <= i32::MAX,
        length - delta <= i32::MAX,
        length <= i32::MAX,
    ensures
        near ==> grabs::dragged(length, near, far, delta) == length - delta,
        !near && far ==> grabs::dragged(length, near, far, delta) == length + delta,
        !near && !far ==> grabs::dragged(length, near, far, delta) == length,
        ({
            let wanted = grabs::dragged(length, near, far, delta);
            let got = grabs::limited(wanted, min, max);
            &&& got >= 1 && got >= min
            &&& max > 0 && max >= min ==> got <= max
            &&& wanted >= 1 && wanted >= min && (max <= 0 || wanted <= max) ==> got == wanted
            &&& wanted < min && min >= 1 && (max <= 0 || min <= max) ==> got == min
            &&& max >= 1 && min <= max && wanted > max ==> got == max
        }),
{
}

/// The edges that a client names: a side is dragged exactly if it is part of
/// the name, and never together with the opposite one.
pub proof fn named_edges_are_dragged(edge: grabs::XdgResizeEdge)
    ensures
        ({
            let e = grabs::named_edges(edge);
            &&& edge is NoEdge ==> !e.top && !e.bottom && !e.left && !e.right
            &&& edge is Top ==> e.top && !e.bottom && !e.left && !e.right
            &&& edge is Bottom ==> !e.top && e.bottom && !e.left && !e.right
            &&& edge is Left ==> !e.top && !e.bottom && e.left && !e.right
            &&& edge is Right ==> !e.top && !e.bottom && !e.left && e.right
            &&& edge is TopLeft ==> e.top && !e.bottom && e.left && !e.right
            &&& edge is TopRight ==> e.top && !e.bottom && !e.left && e.right
            &&& edge is BottomLeft ==> !e.top && e.bottom && e.left && !e.right
            &&& edge is BottomRight ==> !e.top && e.bottom && !e.left && e.right
        }),
{
}

} // verus!
