//! The geometry of server-side window frames.

use vstd::prelude::*;

use crate::geometry::{Box2, Point, Rect};
use crate::geometry;
use crate::theme::{DecorationButton, DecorationButtonSide, DecorationTheme};

verus! {

/// Where the parts of a decorated window lie.
#[derive(Debug, Clone, Copy, PartialEq, Eq, Structural)]
pub struct FrameGeometry {
    pub frame: Rect,
    pub titlebar: Rect,
    pub client: Rect,
    pub close_btn: Rect,
    pub maximize_btn: Rect,
    pub minimize_btn: Rect,
    pub icon: Rect,
    pub title: Rect,
    pub drag: Rect,
}

/// Lays out window frames.
pub struct DecorationFrame;

/// Space around the icon.
pub const ICON_PADDING: i32 = 6;

/// Space beside the title and the outermost button.
pub const TITLE_PADDING: i32 = 8;

/// Space between two buttons.
pub const BUTTON_GAP: i32 = 4;

/// Height that a button leaves free in the titlebar.
pub const BUTTON_INSET: i32 = 8;

/// The last place of a button in the row, or -1.
pub open spec fn last_place(layout: Seq<DecorationButton>, button: DecorationButton) -> int
    decreases layout.len(),
{
    if layout.len() == 0 {
        -1
    } else if layout.last() == button {
        layout.len() - 1
    } else {
        last_place(layout.drop_last(), button)
    }
}

/// Height of the titlebar row above the client.
pub open spec fn row_height(theme: DecorationTheme, has_titlebar: bool) -> int {
    if has_titlebar {
        theme.titlebar_height as int
    } else {
        0
    }
}

/// The whole window: the client, the titlebar on top of it and the border
/// around both.
pub open spec fn frame_box(client: Rect, theme: DecorationTheme, has_titlebar: bool) -> Box2 {
    let border = theme.border_width as int;
    let row = row_height(theme, has_titlebar);
    Box2 {
        x: client.x - border,
        y: client.y - row - border,
        width: client.width + 2 * border,
        height: client.height + row + 2 * border,
    }
}

/// The titlebar: as wide as the client, directly above it.
pub open spec fn titlebar_box(client: Rect, theme: DecorationTheme, has_titlebar: bool) -> Box2 {
    let row = row_height(theme, has_titlebar);
    Box2 { x: client.x as int, y: client.y - row, width: client.width as int, height: row }
}

/// Side of the square icon.
pub open spec fn icon_side(theme: DecorationTheme, has_titlebar: bool) -> int {
    geometry::greatest(row_height(theme, has_titlebar) - 2 * ICON_PADDING, 0)
}

/// The icon, at the very left of the titlebar.
pub open spec fn icon_box(client: Rect, theme: DecorationTheme, has_titlebar: bool) -> Box2 {
    let side = icon_side(theme, has_titlebar);
    let bar = titlebar_box(client, theme, has_titlebar);
    if has_titlebar && theme.show_icon && side > 0 {
        Box2 { x: bar.x + ICON_PADDING, y: bar.y + ICON_PADDING, width: side, height: side }
    } else {
        Box2 { x: 0, y: 0, width: 0, height: 0 }
    }
}

/// Where the space after the icon begins.
pub open spec fn content_left(client: Rect, theme: DecorationTheme, has_titlebar: bool) -> int {
    let side = icon_side(theme, has_titlebar);
    client.x + (if theme.show_icon && side > 0 {
        side + 2 * ICON_PADDING
    } else {
        TITLE_PADDING as int
    })
}

/// Side of a square button.
pub open spec fn button_side(theme: DecorationTheme) -> int {
    theme.titlebar_height - BUTTON_INSET
}

/// Width that the row of buttons takes, with the padding at its end.
pub open spec fn buttons_width(theme: DecorationTheme) -> int {
    let count = theme.button_layout@.len() as int;
    if count > 0 {
        count * button_side(theme) + (count - 1) * BUTTON_GAP + TITLE_PADDING
    } else {
        0
    }
}

/// The place of the button with the given index in the row.
pub open spec fn button_box(
    client: Rect,
    theme: DecorationTheme,
    has_titlebar: bool,
    index: int,
) -> Box2 {
    let side = button_side(theme);
    let count = theme.button_layout@.len() as int;
    Box2 {
        x: match theme.button_side {
            DecorationButtonSide::Left => content_left(client, theme, has_titlebar) + index * (side
                + BUTTON_GAP),
            DecorationButtonSide::Right => client.x + client.width - TITLE_PADDING - (count - index)
                * side - (count - index - 1) * BUTTON_GAP,
        },
        y: client.y - row_height(theme, has_titlebar) + 4,
        width: side,
        height: side,
    }
}

/// The place of a button; where the row names it twice, the last one counts.
pub open spec fn named_button_box(
    client: Rect,
    theme: DecorationTheme,
    has_titlebar: bool,
    button: DecorationButton,
) -> Box2 {
    let place = last_place(theme.button_layout@, button);
    if place < 0 {
        Box2 { x: 0, y: 0, width: 0, height: 0 }
    } else {
        button_box(client, theme, has_titlebar, place)
    }
}

/// The title: what the icon and the buttons leave of the titlebar.
pub open spec fn title_box(client: Rect, theme: DecorationTheme, has_titlebar: bool) -> Box2 {
    let bar = titlebar_box(client, theme, has_titlebar);
    let left = content_left(client, theme, has_titlebar) + (if theme.button_side
        == DecorationButtonSide::Left {
        buttons_width(theme)
    } else {
        0
    });
    let right = bar.x + bar.width - (if theme.button_side == DecorationButtonSide::Right {
        buttons_width(theme)
    } else {
        TITLE_PADDING as int
    });
    Box2 { x: left, y: bar.y, width: geometry::greatest(right - left, 0), height: bar.height }
}

/// The part of the titlebar that drags the window.
pub open spec fn drag_box(client: Rect, theme: DecorationTheme, has_titlebar: bool) -> Box2 {
    let bar = titlebar_box(client, theme, has_titlebar);
    let margin = geometry::greatest(theme.drag_margin as int, 0);
    Box2 {
        x: bar.x + margin,
        y: bar.y,
        width: geometry::greatest(bar.width - 2 * margin, 0),
        height: bar.height,
    }
}

/// Every part of the frame has machine coordinates.
pub open spec fn frame_fits(client: Rect, theme: DecorationTheme, has_titlebar: bool) -> bool {
    &&& theme.button_layout@.len() <= i32::MAX
    &&& frame_box(client, theme, has_titlebar).fits()
    &&& titlebar_box(client, theme, has_titlebar).fits()
    &&& icon_box(client, theme, has_titlebar).fits()
    &&& title_box(client, theme, has_titlebar).fits()
    &&& drag_box(client, theme, has_titlebar).fits()
    &&& forall|i: int|
        0 <= i < theme.button_layout@.len() ==> (#[trigger] button_box(
            client,
            theme,
            has_titlebar,
            i,
        )).fits()
}

/// Where the parts of the frame lie.
pub open spec fn frame_geometry(
    client: Rect,
    theme: DecorationTheme,
    has_titlebar: bool,
) -> FrameGeometry {
    FrameGeometry {
        frame: frame_box(client, theme, has_titlebar).rect(),
        titlebar: titlebar_box(client, theme, has_titlebar).rect(),
        client,
        close_btn: named_button_box(client, theme, has_titlebar, DecorationButton::Close).rect(),
        maximize_btn: named_button_box(
            client,
            theme,
            has_titlebar,
            DecorationButton::Maximize,
        ).rect(),
        minimize_btn: named_button_box(
            client,
            theme,
            has_titlebar,
            DecorationButton::Minimize,
        ).rect(),
        icon: icon_box(client, theme, has_titlebar).rect(),
        title: title_box(client, theme, has_titlebar).rect(),
        drag: drag_box(client, theme, has_titlebar).rect(),
    }
}

fn max0(v: i64) -> (r: i64)
    ensures
        r == geometry::greatest(v as int, 0),
{
    if v >= 0 {
        v
    } else {
        0
    }
}

fn rect_of(x: i64, y: i64, width: i64, height: i64) -> (r: Rect)
    requires
        (Box2 { x: x as int, y: y as int, width: width as int, height: height as int }).fits(),
    ensures
        r == (Box2 { x: x as int, y: y as int, width: width as int, height: height as int }).rect(),
{
    Rect { x: x as i32, y: y as i32, width: width as i32, height: height as i32 }
}

impl DecorationFrame {
    /// Lays out the frame so that the border traces the outer edge of the
    /// whole window, titlebar included. Without `has_titlebar` the border
    /// stays and the titlebar row is dropped.
    pub fn compute(client: Rect, theme: &DecorationTheme, has_titlebar: bool) -> (r: FrameGeometry)
        requires
            frame_fits(client, *theme, has_titlebar),
        ensures
            r == frame_geometry(client, *theme, has_titlebar),
    {
        let x: i64 = client.x as i64;
        let y: i64 = client.y as i64;
        let width: i64 = client.width as i64;
        let height: i64 = client.height as i64;
        let bw: i64 = theme.border_width as i64;
        let th: i64 = if has_titlebar { theme.titlebar_height as i64 } else { 0 };
        let frame = rect_of(x - bw, y - th - bw, width + bw * 2, height + th + bw * 2);
        let titlebar = rect_of(x, y - th, width, th);

        let padding: i64 = ICON_PADDING as i64;
        let icon_size: i64 = max0(th - padding * 2);
        let icon = if has_titlebar && theme.show_icon && icon_size > 0 {
            rect_of(x + padding, y - th + padding, icon_size, icon_size)
        } else {
            Rect { x: 0, y: 0, width: 0, height: 0 }
        };
        let reserved: i64 = if theme.show_icon && icon_size > 0 {
            icon_size + padding * 2
        } else {
            TITLE_PADDING as i64
        };
        let left_anchor: i64 = x + reserved;

        let side: i64 = theme.titlebar_height as i64 - BUTTON_INSET as i64;
        let top: i64 = y - th + 4;
        let gap: i64 = BUTTON_GAP as i64;
        let count: i64 = theme.button_layout.len() as i64;
        let mut close_btn = Rect { x: 0, y: 0, width: 0, height: 0 };
        let mut maximize_btn = Rect { x: 0, y: 0, width: 0, height: 0 };
        let mut minimize_btn = Rect { x: 0, y: 0, width: 0, height: 0 };
        let ghost layout = theme.button_layout@;
        for i in 0..theme.button_layout.len()
            invariant
                layout == theme.button_layout@,
                frame_fits(client, *theme, has_titlebar),
                count == layout.len(),
                side == button_side(*theme),
                gap == BUTTON_GAP,
                x == client.x,
                width == client.width,
                top == client.y - row_height(*theme, has_titlebar) + 4,
                left_anchor == content_left(client, *theme, has_titlebar),
                -0x1_0000_0000 <= left_anchor <= 0x2_0000_0000,
                close_btn == place_of(
                    client,
                    *theme,
                    has_titlebar,
                    layout.take(i as int),
                    DecorationButton::Close,
                ),
                maximize_btn == place_of(
                    client,
                    *theme,
                    has_titlebar,
                    layout.take(i as int),
                    DecorationButton::Maximize,
                ),
                minimize_btn == place_of(
                    client,
                    *theme,
                    has_titlebar,
                    layout.take(i as int),
                    DecorationButton::Minimize,
                ),
        {
            let index: i64 = i as i64;
            proof {
                assert(button_box(client, *theme, has_titlebar, index as int).fits());
                assert(layout.take(i + 1).drop_last() =~= layout.take(i as int));
                assert(layout.take(i + 1).last() == layout[i as int]);
                assert(0 <= index * (side + gap) <= 0x7fff_ffff * 0x8000_0010 || index * (side
                    + gap) <= 0) by (nonlinear_arith)
                    requires
                        0 <= index <= 0x7fff_ffff,
                        side + gap <= 0x8000_0010,
                ;
                assert(index * (side + gap) >= -(0x7fff_ffff * 0x8000_0010)) by (nonlinear_arith)
                    requires
                        0 <= index <= 0x7fff_ffff,
                        side + gap >= -0x8000_0010,
                ;
                assert(-(0x7fff_ffff * 0x8000_0010) <= (count - index) * side <= 0x7fff_ffff
                    * 0x8000_0010) by (nonlinear_arith)
                    requires
                        0 <= count - index <= 0x7fff_ffff,
                        -0x8000_0010 <= side <= 0x8000_0010,
                ;
                assert(-4 <= (count - index - 1) * gap <= 0x2_0000_0000);
            }
            let button_x: i64 = match theme.button_side {
                DecorationButtonSide::Left => left_anchor + index * (side + gap),
                DecorationButtonSide::Right => x + width - TITLE_PADDING as i64 - (count - index)
                    * side - (count - index - 1) * gap,
            };
            let rect = rect_of(button_x, top, side, side);
            match theme.button_layout[i] {
                DecorationButton::Close => {
                    close_btn = rect;
                },
                DecorationButton::Maximize => {
                    maximize_btn = rect;
                },
                DecorationButton::Minimize => {
                    minimize_btn = rect;
                },
            }
        }
        assert(layout.take(layout.len() as int) =~= layout);

        proof {
            assert(-(0x7fff_ffff * 0x8000_0010) <= count * side <= 0x7fff_ffff * 0x8000_0010)
                by (nonlinear_arith)
                requires
                    0 <= count <= 0x7fff_ffff,
                    -0x8000_0010 <= side <= 0x8000_0010,
            ;
        }
        let buttons: i64 = if count > 0 {
            count * side + (count - 1) * gap + TITLE_PADDING as i64
        } else {
            0
        };
        let title_left: i64 = match theme.button_side {
            DecorationButtonSide::Left => left_anchor + buttons,
            DecorationButtonSide::Right => left_anchor,
        };
        let title_right: i64 = match theme.button_side {
            DecorationButtonSide::Right => x + width - buttons,
            DecorationButtonSide::Left => x + width - TITLE_PADDING as i64,
        };
        let title = rect_of(title_left, y - th, max0(title_right - title_left), th);
        let margin: i64 = max0(theme.drag_margin as i64);
        let drag = rect_of(x + margin, y - th, max0(width - margin * 2), th);
        FrameGeometry {
            frame,
            titlebar,
            client,
            close_btn,
            maximize_btn,
            minimize_btn,
            icon,
            title,
            drag,
        }
    }
}

spec fn place_of(
    client: Rect,
    theme: DecorationTheme,
    has_titlebar: bool,
    layout: Seq<DecorationButton>,
    button: DecorationButton,
) -> Rect {
    let place = last_place(layout, button);
    if place < 0 {
        geometry::empty_rect()
    } else {
        button_box(client, theme, has_titlebar, place).rect()
    }
}


/// The frame holds the titlebar and the client: a position on either of them
/// is a position on the frame.
pub proof fn frame_wraps_titlebar_and_client(
    client: Rect,
    theme: DecorationTheme,
    has_titlebar: bool,
    point: Point,
)
    requires
        frame_fits(client, theme, has_titlebar),
        theme.border_width >= 0,
        theme.titlebar_height >= 0,
        client.height >= 0,
    ensures
        ({
            let g = frame_geometry(client, theme, has_titlebar);
            g.titlebar.covers(point) || g.client.covers(point) ==> g.frame.covers(point)
        }),
{
}

/// The row of buttons is in order: each button ends before the next begins.
pub proof fn buttons_follow_each_other(
    client: Rect,
    theme: DecorationTheme,
    has_titlebar: bool,
    i: int,
    j: int,
)
    requires
        0 <= i < j < theme.button_layout@.len(),
        button_side(theme) + BUTTON_GAP >= 0,
    ensures
        button_box(client, theme, has_titlebar, i).x + button_side(theme) + BUTTON_GAP
            <= button_box(client, theme, has_titlebar, j).x,
{
    let step = button_side(theme) + BUTTON_GAP;
    let side = button_side(theme);
    let count = theme.button_layout@.len() as int;
    assert(i * step + step <= j * step) by (nonlinear_arith)
        requires
            i < j,
            step >= 0,
    ;
    assert((count - i) * side == count * side - i * side) by (nonlinear_arith);
    assert((count - j) * side == count * side - j * side) by (nonlinear_arith);
    assert(i * step == i * side + i * 4) by (nonlinear_arith)
        requires
            step == side + 4,
    ;
    assert(j * step == j * side + j * 4) by (nonlinear_arith)
        requires
            step == side + 4,
    ;
}

/// The icon stays ahead of the buttons, also when they share its side.
pub proof fn left_buttons_never_overlap_the_icon(client: Rect, theme: DecorationTheme, index: int)
    requires
        0 <= index < theme.button_layout@.len(),
        theme.button_side == DecorationButtonSide::Left,
        button_side(theme) + BUTTON_GAP >= 0,
        icon_box(client, theme, true).width > 0,
    ensures
        icon_box(client, theme, true).x + icon_box(client, theme, true).width <= button_box(
            client,
            theme,
            true,
            index,
        ).x,
{
    assert(index * (button_side(theme) + BUTTON_GAP) >= 0) by (nonlinear_arith)
        requires
            index >= 0,
            button_side(theme) + BUTTON_GAP >= 0,
    ;
}

/// The buttons lie outside of a title that has room.
pub proof fn title_leaves_the_buttons_free(
    client: Rect,
    theme: DecorationTheme,
    has_titlebar: bool,
    index: int,
)
    requires
        0 <= index < theme.button_layout@.len(),
        button_side(theme) >= 0,
        title_box(client, theme, has_titlebar).width > 0,
    ensures
        ({
            let title = title_box(client, theme, has_titlebar);
            let button = button_box(client, theme, has_titlebar, index);
            match theme.button_side {
                DecorationButtonSide::Left => button.x + button.width <= title.x,
                DecorationButtonSide::Right => title.x + title.width <= button.x,
            }
        }),
{
    let side = button_side(theme);
    let count = theme.button_layout@.len() as int;
    assert(index * (side + 4) == index * side + index * 4) by (nonlinear_arith);
    assert(index * side + side <= count * side) by (nonlinear_arith)
        requires
            index < count,
            side >= 0,
    ;
    assert((count - index) * side == count * side - index * side) by (nonlinear_arith);
    assert(index * side >= 0) by (nonlinear_arith)
        requires
            index >= 0,
            side >= 0,
    ;
}

} // verus!
