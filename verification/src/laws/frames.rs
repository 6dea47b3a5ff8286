//! What window frames look like and what the pointer finds on them, in plain
//! numbers.

use vstd::prelude::*;

use crate::frame::FrameGeometry;
use crate::frame;
use crate::geometry::{Point, Rect};
use crate::hit_test::DecorationPart;
use crate::hit_test;
use crate::theme::{DecorationButton, DecorationButtonSide, DecorationTheme};

verus! {

/// The position, in quarter pixels, is on the rectangle.
pub open spec fn on(r: Rect, p: Point) -> bool {
    &&& 4 * r.x <= p.x < 4 * (r.x + r.width)
    &&& 4 * r.y <= p.y < 4 * (r.y + r.height)
}

/// The position is on the rectangle or its far edges.
pub open spec fn in_reach(r: Rect, p: Point) -> bool {
    &&& 4 * r.x <= p.x <= 4 * (r.x + r.width)
    &&& 4 * r.y <= p.y <= 4 * (r.y + r.height)
}

/// Within eight pixels of the upper edge.
pub open spec fn by_the_top(r: Rect, p: Point) -> bool {
    p.y - 4 * r.y < 32
}

/// Within eight pixels of the lower edge.
pub open spec fn by_the_bottom(r: Rect, p: Point) -> bool {
    4 * (r.y + r.height) - p.y < 32
}

/// Within eight pixels of the left edge.
pub open spec fn by_the_left(r: Rect, p: Point) -> bool {
    p.x - 4 * r.x < 32
}

/// Within eight pixels of the right edge.
pub open spec fn by_the_right(r: Rect, p: Point) -> bool {
    4 * (r.x + r.width) - p.x < 32
}

/// The position is within reach of two edges of the frame that meet.
pub open spec fn at_a_corner(r: Rect, p: Point) -> bool {
    in_reach(r, p) && (by_the_top(r, p) || by_the_bottom(r, p)) && (by_the_left(r, p)
        || by_the_right(r, p))
}

/// The position is on one of the buttons.
pub open spec fn on_a_button(g: FrameGeometry, p: Point) -> bool {
    on(g.close_btn, p) || on(g.maximize_btn, p) || on(g.minimize_btn, p)
}

/// A position off the corners that lies on the rectangle of a button and on
/// no other is reported as that button, and nothing else is.
pub proof fn buttons_answer_for_themselves(g: FrameGeometry, p: Point, has_titlebar: bool)
    requires
        !at_a_corner(g.frame, p),
    ensures
        on(g.close_btn, p) && !on(g.maximize_btn, p) && !on(g.minimize_btn, p)
            ==> hit_test::part_at(g, p, has_titlebar) == DecorationPart::CloseButton,
        on(g.maximize_btn, p) && !on(g.close_btn, p) && !on(g.minimize_btn, p)
            ==> hit_test::part_at(g, p, has_titlebar) == DecorationPart::MaximizeButton,
        on(g.minimize_btn, p) && !on(g.close_btn, p) && !on(g.maximize_btn, p)
            ==> hit_test::part_at(g, p, has_titlebar) == DecorationPart::MinimizeButton,
        hit_test::part_at(g, p, has_titlebar) == DecorationPart::CloseButton ==> on(g.close_btn, p),
        hit_test::part_at(g, p, has_titlebar) == DecorationPart::MaximizeButton ==> on(
            g.maximize_btn,
            p,
        ),
        hit_test::part_at(g, p, has_titlebar) == DecorationPart::MinimizeButton ==> on(
            g.minimize_btn,
            p,
        ),
{
}

/// A corner of a frame of sixteen pixels or more is grabbed within eight
/// pixels of both of its edges, and it is the corner where those edges meet.
pub proof fn corners_are_where_edges_meet(g: FrameGeometry, p: Point, has_titlebar: bool)
    requires
        g.frame.width >= 16,
        g.frame.height >= 16,
        in_reach(g.frame, p),
    ensures
        by_the_top(g.frame, p) && by_the_left(g.frame, p) <==> hit_test::part_at(g, p, has_titlebar)
            == DecorationPart::ResizeTopLeft,
        by_the_top(g.frame, p) && by_the_right(g.frame, p) <==> hit_test::part_at(
            g,
            p,
            has_titlebar,
        ) == DecorationPart::ResizeTopRight,
        by_the_bottom(g.frame, p) && by_the_left(g.frame, p) <==> hit_test::part_at(
            g,
            p,
            has_titlebar,
        ) == DecorationPart::ResizeBottomLeft,
        by_the_bottom(g.frame, p) && by_the_right(g.frame, p) <==> hit_test::part_at(
            g,
            p,
            has_titlebar,
        ) == DecorationPart::ResizeBottomRight,
{
}

/// An edge is grabbed within eight pixels of it, where nothing else is.
pub proof fn edges_are_grabbed_near_them(g: FrameGeometry, p: Point, has_titlebar: bool)
    requires
        g.frame.width >= 16,
        g.frame.height >= 16,
        !at_a_corner(g.frame, p),
        !on_a_button(g, p),
        !(has_titlebar && (on(g.titlebar, p) || on(g.drag, p))),
        !on(g.client, p),
    ensures
        in_reach(g.frame, p) && by_the_top(g.frame, p) <==> hit_test::part_at(g, p, has_titlebar)
            == DecorationPart::ResizeTop,
        in_reach(g.frame, p) && by_the_bottom(g.frame, p) <==> hit_test::part_at(
            g,
            p,
            has_titlebar,
        ) == DecorationPart::ResizeBottom,
        in_reach(g.frame, p) && by_the_left(g.frame, p) <==> hit_test::part_at(g, p, has_titlebar)
            == DecorationPart::ResizeLeft,
        in_reach(g.frame, p) && by_the_right(g.frame, p) <==> hit_test::part_at(g, p, has_titlebar)
            == DecorationPart::ResizeRight,
        !in_reach(g.frame, p) ==> hit_test::part_at(g, p, has_titlebar) == DecorationPart::Nothing,
{
}

/// Off the corners and buttons, the draggable part of a titlebar drags the
/// window, the rest of a titlebar does nothing, and the client is the client.
pub proof fn the_titlebar_drags_and_the_client_gets_the_rest(
    g: FrameGeometry,
    p: Point,
    has_titlebar: bool,
)
    requires
        !at_a_corner(g.frame, p),
        !on_a_button(g, p),
    ensures
        has_titlebar && on(g.drag, p) <==> hit_test::part_at(g, p, has_titlebar)
            == DecorationPart::Titlebar,
        has_titlebar && on(g.titlebar, p) && !on(g.drag, p) ==> hit_test::part_at(
            g,
            p,
            has_titlebar,
        ) == DecorationPart::Nothing,
        on(g.client, p) && !(has_titlebar && (on(g.titlebar, p) || on(g.drag, p)))
            <==> hit_test::part_at(g, p, has_titlebar) == DecorationPart::Client,
{
}

/// The frame is as wide as the border around the client, with the titlebar
/// between the upper border and the client.
pub proof fn the_border_is_equally_wide_on_all_sides(
    client: Rect,
    theme: DecorationTheme,
    has_titlebar: bool,
)
    requires
        frame::frame_fits(client, theme, has_titlebar),
    ensures
        ({
            let g = frame::frame_geometry(client, theme, has_titlebar);
            let bar = if has_titlebar {
                theme.titlebar_height as int
            } else {
                0
            };
            &&& g.client == client
            &&& client.x - g.frame.x == theme.border_width
            &&& g.frame.x + g.frame.width - client.x - client.width == theme.border_width
            &&& g.frame.y + g.frame.height - client.y - client.height == theme.border_width
            &&& g.titlebar.y - g.frame.y == theme.border_width
            &&& g.titlebar.height == bar
            &&& g.titlebar.y + g.titlebar.height == client.y
            &&& g.titlebar.x == client.x && g.titlebar.width == client.width
        }),
{
}

/// The rectangle of a button.
pub open spec fn rect_of(g: FrameGeometry, button: DecorationButton) -> Rect {
    match button {
        DecorationButton::Close => g.close_btn,
        DecorationButton::Maximize => g.maximize_btn,
        DecorationButton::Minimize => g.minimize_btn,
    }
}

proof fn lemma_last_place(row: Seq<DecorationButton>, button: DecorationButton, i: int)
    requires
        0 <= i < row.len(),
        row[i] == button,
        forall|j: int| i < j < row.len() ==> row[j] != button,
    ensures
        frame::last_place(row, button) == i,
    decreases row.len(),
{
    if i < row.len() - 1 {
        lemma_last_place(row.drop_last(), button, i);
    }
}

proof fn lemma_no_place(row: Seq<DecorationButton>, button: DecorationButton)
    requires
        forall|j: int| 0 <= j < row.len() ==> row[j] != button,
    ensures
        frame::last_place(row, button) == -1,
    decreases row.len(),
{
    if row.len() > 0 {
        assert(row.last() == row[row.len() - 1]);
        lemma_no_place(row.drop_last(), button);
    }
}

/// The buttons stand in the order in which the row names them, four pixels
/// apart, as squares that leave four pixels free above and below. On the right
/// the last one ends eight pixels before the titlebar does; on the left the
/// first one begins behind the icon.
pub proof fn buttons_stand_in_the_order_of_the_row(
    client: Rect,
    theme: DecorationTheme,
    i: int,
)
    requires
        frame::frame_fits(client, theme, true),
        0 <= i < theme.button_layout@.len(),
        forall|j: int|
            i < j < theme.button_layout@.len() ==> theme.button_layout@[j]
                != theme.button_layout@[i],
        theme.titlebar_height >= 8,
    ensures
        ({
            let g = frame::frame_geometry(client, theme, true);
            let button = rect_of(g, theme.button_layout@[i]);
            let count = theme.button_layout@.len() as int;
            let side = theme.titlebar_height - 8;
            let icon = theme.show_icon && theme.titlebar_height > 12;
            &&& button.width == side && button.height == side
            &&& button.y - g.titlebar.y == 4
            &&& g.titlebar.y + g.titlebar.height - button.y - button.height == 4
            &&& theme.button_side == DecorationButtonSide::Right ==> button.x + side + (count - 1
                - i) * (side + 4) + 8 == client.x + client.width
            &&& theme.button_side == DecorationButtonSide::Left ==> button.x - i * (side + 4)
                == client.x + (if icon {
                theme.titlebar_height as int
            } else {
                8
            })
        }),
{
    let row = theme.button_layout@;
    lemma_last_place(row, row[i], i);
    assert(frame::button_box(client, theme, true, i).fits());
    let count = row.len() as int;
    let side = theme.titlebar_height - 8;
    assert((count - 1 - i) * (side + 4) == (count - i) * side - side + (count - i - 1) * 4)
        by (nonlinear_arith);
}

/// A button that the row does not name is nowhere.
pub proof fn buttons_that_are_not_named_are_not_there(
    client: Rect,
    theme: DecorationTheme,
    has_titlebar: bool,
    button: DecorationButton,
    p: Point,
)
    requires
        !theme.button_layout@.contains(button),
    ensures
        !on(rect_of(frame::frame_geometry(client, theme, has_titlebar), button), p),
{
    let row = theme.button_layout@;
    assert forall|j: int| 0 <= j < row.len() implies row[j] != button by {
        assert(row.contains(row[j]));
    }
    lemma_no_place(row, button);
}

/// The icon is a square at the left end of the titlebar with six pixels free
/// around it.
pub proof fn the_icon_is_at_the_left_end(client: Rect, theme: DecorationTheme)
    requires
        frame::frame_fits(client, theme, true),
        theme.titlebar_height > 12,
    ensures
        ({
            let g = frame::frame_geometry(client, theme, true);
            &&& theme.show_icon ==> {
                &&& g.icon.x - client.x == 6
                &&& g.icon.y - g.titlebar.y == 6
                &&& g.titlebar.y + g.titlebar.height - g.icon.y - g.icon.height == 6
                &&& g.icon.width == g.icon.height
            }
            &&& !theme.show_icon ==> g.icon.width == 0 && g.icon.height == 0
        }),
{
}

/// The title gets what the icon and the buttons leave: it begins behind the
/// icon or the last button on the left, and ends before the first button on
/// the right, or eight pixels before the titlebar does.
pub proof fn the_title_is_between_icon_and_buttons(client: Rect, theme: DecorationTheme)
    requires
        frame::frame_fits(client, theme, true),
        theme.titlebar_height >= 8,
        theme.button_layout@.len() > 0,
        frame::frame_geometry(client, theme, true).title.width > 0,
    ensures
        ({
            let g = frame::frame_geometry(client, theme, true);
            let count = theme.button_layout@.len() as int;
            let side = theme.titlebar_height - 8;
            let start = client.x + (if theme.show_icon && theme.titlebar_height > 12 {
                theme.titlebar_height as int
            } else {
                8
            });
            let row = count * side + (count - 1) * 4 + 8;
            let end = client.x + client.width;
            &&& g.title.y == g.titlebar.y && g.title.height == g.titlebar.height
            &&& theme.button_side == DecorationButtonSide::Right ==> g.title.x == start && g.title.x
                + g.title.width == end - row
            &&& theme.button_side == DecorationButtonSide::Left ==> g.title.x == start + row
                && g.title.x + g.title.width == end - 8
        }),
{
}

/// The draggable part leaves the same margin free at both ends of the
/// titlebar, as long as there is something between them.
pub proof fn dragging_leaves_the_margins_free(
    client: Rect,
    theme: DecorationTheme,
    has_titlebar: bool,
)
    requires
        frame::frame_fits(client, theme, has_titlebar),
        client.width >= 0,
    ensures
        ({
            let g = frame::frame_geometry(client, theme, has_titlebar);
            let margin = if theme.drag_margin > 0 {
                theme.drag_margin as int
            } else {
                0
            };
            &&& g.drag.y == g.titlebar.y && g.drag.height == g.titlebar.height
            &&& g.drag.x - client.x == margin
            &&& 2 * margin <= client.width ==> client.x + client.width - g.drag.x - g.drag.width
                == margin
            &&& 2 * margin > client.width ==> g.drag.width == 0
        }),
{
}

} // verus!
