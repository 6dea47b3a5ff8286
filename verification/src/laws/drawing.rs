//! What is drawn, in which order and colors.

use vstd::prelude::*;

use crate::blur;
use crate::capture::{BufferLayout, CursorMode};
use crate::clip;
use crate::decoration::DrawStep;
use crate::decoration;
use crate::frame;
use crate::geometry::{Location, Rect};
use crate::glyphs::{Glyph, Ink};
use crate::glyphs;
use crate::input::WindowFrame;
use crate::model::WindowId;
use crate::pixels;
use crate::scene::{ButtonGlyph, CursorPlanModel, FrameParams, Palette, PointerImage, SceneItem, SceneLayer};
use crate::scene;
use crate::theme::{DecorationButton, DecorationTheme, TitlebarColorMode};

verus! {

/// A scene is drawn front to back: the cursor, a dragged icon, the overlay, the
/// panels above the windows, the windows with the topmost first and each with
/// what lies behind it, and the panels below. A fullscreen window hides the
/// panels but the overlay.
pub proof fn scenes_are_drawn_front_to_back(
    windows: Seq<WindowId>,
    fullscreen: bool,
    cursor: bool,
    drag: bool,
    i: int,
)
    requires
        0 <= i < windows.len(),
    ensures
        ({
            let items = scene::scene(windows, fullscreen, cursor, drag);
            let c: int = if cursor {
                1
            } else {
                0
            };
            let g: int = if drag {
                1
            } else {
                0
            };
            let t: int = if fullscreen {
                0
            } else {
                1
            };
            let n = windows.len() as int;
            &&& cursor ==> items[0] == SceneItem::Cursor
            &&& drag ==> items[c] == SceneItem::DragIcon
            &&& items[c + g] == SceneItem::Layer(SceneLayer::Overlay)
            &&& !fullscreen ==> items[c + g + 1] == SceneItem::Layer(SceneLayer::Top)
            &&& items[c + g + 1 + t + 2 * i] == SceneItem::Window(windows[n - 1 - i])
            &&& items[c + g + 2 + t + 2 * i] == SceneItem::Backdrop(
                windows[n - 1 - i],
                (n - 1 - i) as usize,
            )
            &&& items.len() == c + g + 1 + t + 2 * n + 2 * t
            &&& !fullscreen ==> items[items.len() - 2] == SceneItem::Layer(SceneLayer::Bottom)
            &&& !fullscreen ==> items[items.len() - 1] == SceneItem::Layer(SceneLayer::Background)
        }),
{
    lemma_window_items(windows, windows.len() as int, i);
}

proof fn lemma_window_items(windows: Seq<WindowId>, n: int, i: int)
    requires
        0 <= i < n <= windows.len(),
    ensures
        scene::window_items(windows, n).len() == 2 * n,
        scene::window_items(windows, n)[2 * i] == SceneItem::Window(windows[n - 1 - i]),
        scene::window_items(windows, n)[2 * i + 1] == SceneItem::Backdrop(
            windows[n - 1 - i],
            (n - 1 - i) as usize,
        ),
    decreases n,
{
    lemma_window_count(windows, n);
    lemma_window_count(windows, n - 1);
    if i > 0 {
        lemma_window_items(windows, n - 1, i - 1);
        let rest = scene::window_items(windows, n - 1);
        assert(scene::window_items(windows, n)[2 * i] == rest[2 * i - 2]);
        assert(scene::window_items(windows, n)[2 * i + 1] == rest[2 * i - 1]);
    }
}

proof fn lemma_window_count(windows: Seq<WindowId>, n: int)
    requires
        0 <= n <= windows.len(),
    ensures
        scene::window_items(windows, n).len() == 2 * n,
    decreases n,
{
    if n > 0 {
        lemma_window_count(windows, n - 1);
    }
}

/// The pointer is drawn on the output that it is on, unless it is hidden. A
/// dead surface of a client gives way to the default cursor, and the host draws
/// named cursors where it can.
pub proof fn pointers_are_drawn_where_they_are(mode: CursorMode, image: PointerImage)
    ensures
        scene::planned_cursor(mode, false, image) == CursorPlanModel::Nothing,
        scene::planned_cursor(CursorMode::Hidden, true, image) == CursorPlanModel::Nothing,
        scene::planned_cursor(mode, true, PointerImage::Hidden) == CursorPlanModel::Nothing,
        mode != CursorMode::Hidden ==> scene::planned_cursor(
            mode,
            true,
            PointerImage::Surface(true),
        ) == CursorPlanModel::Surface,
        mode != CursorMode::Hidden && mode != CursorMode::HostNamed ==> scene::planned_cursor(
            mode,
            true,
            PointerImage::Surface(false),
        ) == CursorPlanModel::Named("default"@),
        scene::planned_cursor(CursorMode::HostNamed, true, PointerImage::Surface(false))
            == CursorPlanModel::Nothing,
        image matches PointerImage::Named(name) ==> (mode != CursorMode::Hidden && mode
            != CursorMode::HostNamed ==> scene::planned_cursor(mode, true, image)
            == CursorPlanModel::Named(name@)),
        image is Named ==> scene::planned_cursor(CursorMode::HostNamed, true, image)
            == CursorPlanModel::Nothing,
{
}

/// Each button is drawn where it is, with its own sign; under the pointer in
/// its own color, and else faintly in the color of the title.
pub proof fn buttons_are_drawn_with_their_own_sign(
    client: Rect,
    theme: DecorationTheme,
    focused: bool,
    hovered: Option<DecorationButton>,
    average: Option<[u8; 4]>,
    linear: Seq<u64>,
    k: int,
)
    requires
        ({
            let g = frame::frame_geometry(client, theme, true);
            &&& g.close_btn.width > 0 && g.close_btn.height > 0
            &&& g.maximize_btn.width > 0 && g.maximize_btn.height > 0
            &&& g.minimize_btn.width > 0 && g.minimize_btn.height > 0
        }),
    ensures
        ({
            let g = frame::frame_geometry(client, theme, true);
            let plan = scene::planned_titlebar(client, theme, focused, hovered, average, linear);
            let palette = scene::palette_of(theme, focused, average, linear);
            &&& plan.buttons.len() == 3
            &&& plan.buttons[0].look.glyph == ButtonGlyph::Close && plan.buttons[0].area
                == g.close_btn && plan.buttons[0].slot == 0
            &&& plan.buttons[1].look.glyph == ButtonGlyph::Maximize && plan.buttons[1].area
                == g.maximize_btn && plan.buttons[1].slot == 1
            &&& plan.buttons[2].look.glyph == ButtonGlyph::Minimize && plan.buttons[2].area
                == g.minimize_btn && plan.buttons[2].slot == 2
            &&& hovered == Some(DecorationButton::Close) ==> plan.buttons[0].look.disc
                == theme.close_button
            &&& hovered == Some(DecorationButton::Maximize) ==> plan.buttons[1].look.disc
                == theme.maximize_button
            &&& hovered == Some(DecorationButton::Minimize) ==> plan.buttons[2].look.disc
                == theme.minimize_button
            &&& hovered is None && 0 <= k < 3 ==> plan.buttons[k].look.disc[3] == (if focused {
                0x1cu8
            } else {
                0x10u8
            })
            &&& plan.title == g.title
            &&& plan.title_color == palette.muted
            &&& theme.show_icon && g.icon.width > 0 ==> plan.icon == Some(g.icon)
            &&& !theme.show_icon ==> plan.icon is None
        }),
{
}

/// Focused windows have the active colors, others the inactive ones, and the
/// title of those is muted.
pub proof fn focused_windows_have_the_active_colors(
    window: WindowFrame,
    theme: DecorationTheme,
    radius: i32,
    linear: Seq<u64>,
)
    ensures
        scene::titlebar_fill(theme, true) == theme.active_titlebar,
        scene::titlebar_fill(theme, false) == theme.inactive_titlebar,
        scene::frame_params(window, theme, true, radius).border_color == theme.active_border,
        scene::frame_params(window, theme, false, radius).border_color == theme.inactive_border,
        scene::frame_params(window, theme, true, radius).titlebar_color == theme.active_titlebar,
        scene::frame_params(window, theme, false, radius).titlebar_color == theme.inactive_titlebar,
        scene::frame_params(window, theme, true, radius).border_width == theme.border_width,
        scene::frame_params(window, theme, true, radius).radius == radius,
        scene::frame_params(window, theme, true, radius).titlebar_height == (if window.has_titlebar {
            theme.titlebar_height
        } else {
            0
        }),
        scene::palette_of(theme, true, None, linear).background == theme.active_titlebar,
        scene::palette_of(theme, false, None, linear).background == theme.inactive_titlebar,
        scene::palette_of(theme, true, None, linear).muted == scene::palette_of(
            theme,
            true,
            None,
            linear,
        ).foreground,
        scene::palette_of(theme, true, None, linear).foreground == pixels::foreground_on(
            theme.active_titlebar,
            linear,
        ),
{
}

/// What is blurred behind a window lies where the window is on its output, or
/// the region within it.
pub proof fn blurs_lie_behind_their_window(
    client: Rect,
    inset: Location,
    output: Location,
    region: Rect,
)
    ensures
        ({
            let whole = blur::blurred_area(client, inset, output, blur::Blur { region: None });
            let part = blur::blurred_area(
                client,
                inset,
                output,
                blur::Blur { region: Some(region) },
            );
            &&& whole.x + output.x + inset.x == client.x
            &&& whole.y + output.y + inset.y == client.y
            &&& whole.width == client.width && whole.height == client.height
            &&& part.x == whole.x + region.x && part.y == whole.y + region.y
            &&& part.width == region.width && part.height == region.height
        }),
{
}

/// A color scaled by its alpha is the product over 255, rounded to the nearest
/// number; alpha itself stays.
pub proof fn colors_are_scaled_by_alpha(source: Seq<u8>, pixel: int, channel: int)
    requires
        0 <= pixel,
        4 * pixel + 3 < source.len(),
        0 <= channel < 3,
    ensures
        ({
            let out = pixels::premultiplied(source);
            let c = source[4 * pixel + channel] as int;
            let a = source[4 * pixel + 3] as int;
            let r = out[4 * pixel + channel] as int;
            &&& out[4 * pixel + 3] == source[4 * pixel + 3]
            &&& -127 <= 255 * r - c * a <= 127
        }),
{
    let c = source[4 * pixel + channel] as int;
    let a = source[4 * pixel + 3] as int;
    assert((4 * pixel + channel) % 4 == channel && (4 * pixel + 3) % 4 == 3);
    assert(0 <= c * a <= 255 * 255) by (nonlinear_arith)
        requires
            0 <= c <= 255,
            0 <= a <= 255,
    ;
}

/// Mixing two colors by a percentage gives that share of the second and the
/// rest of the first, rounded to the nearest number.
pub proof fn mixing_gives_each_its_share(a: [u8; 4], b: [u8; 4], percent: int, channel: int)
    requires
        0 <= percent <= 100,
        0 <= channel < 4,
    ensures
        -50 <= 100 * pixels::mixed(a, b, percent)[channel] - (a[channel] * (100 - percent)
            + b[channel] * percent) <= 50,
{
    let x = a[channel] as int;
    let y = b[channel] as int;
    let sum = x * (100 - percent) + y * percent;
    assert(0 <= sum <= 25500) by (nonlinear_arith)
        requires
            0 <= x <= 255,
            0 <= y <= 255,
            0 <= percent <= 100,
            sum == x * (100 - percent) + y * percent,
    ;
}

/// A color on top of another hides as much of it as its alpha says, rounded to
/// the nearest number, and the result is opaque.
pub proof fn colors_hide_what_is_below(top: [u8; 4], base: [u8; 4], channel: int)
    requires
        0 <= channel < 3,
        top[channel] <= top[3],
    ensures
        ({
            let r = pixels::over_color(top, base);
            &&& r[3] == 255
            &&& -127 <= 255 * (r[channel] - top[channel]) - base[channel] * (255 - top[3]) <= 127
        }),
{
    let b = base[channel] as int;
    let rest = 255 - top[3];
    assert(0 <= b * rest <= 255 * rest) by (nonlinear_arith)
        requires
            0 <= b <= 255,
            0 <= rest,
    ;
    assert((b * rest + 127) / 255 <= rest);
}

/// Light text is drawn on dark colors and dark text on light ones: black and
/// white are at the ends, and green counts most.
pub proof fn text_contrasts_with_its_background(linear: Seq<u64>)
    requires
        linear.len() == 256,
        linear[0] == 0,
        linear[255] == 1_000_000_000,
    ensures
        pixels::foreground_on([0u8, 0u8, 0u8, 255u8], linear) == [0xf5u8, 0xf5u8, 0xf7u8, 0xffu8],
        pixels::foreground_on([255u8, 255u8, 255u8, 255u8], linear) == [
            0x1du8,
            0x1du8,
            0x1fu8,
            0xffu8,
        ],
        pixels::luminance_of([0u8, 255u8, 0u8, 255u8], linear) > pixels::luminance_of(
            [255u8, 0u8, 0u8, 255u8],
            linear,
        ),
        pixels::luminance_of([255u8, 0u8, 0u8, 255u8], linear) > pixels::luminance_of(
            [0u8, 0u8, 255u8, 255u8],
            linear,
        ),
{
    let full: int = 10_000int * 1_000_000_000;
    assert((20 * full + full) * (20 * full + full) > 21 * full * full) by (nonlinear_arith)
        requires
            full == 10_000int * 1_000_000_000,
    ;
    assert((20 * 0 + full) * (20 * 0 + full) <= 21 * full * full) by (nonlinear_arith)
        requires
            full == 10_000int * 1_000_000_000,
    ;
    assert(pixels::luminance_of([0u8, 0u8, 0u8, 255u8], linear) == 0);
    assert(pixels::luminance_of([255u8, 255u8, 255u8, 255u8], linear) == full);
    assert(pixels::wants_dark(full));
    assert(!pixels::wants_dark(0));
}

/// A button under the pointer is filled with its own color and its sign stands
/// out from that; another one has the color of the title, and only a little of
/// it.
pub proof fn buttons_light_up_under_the_pointer(
    glyph: ButtonGlyph,
    own: [u8; 4],
    focused: bool,
    palette: Palette,
    linear: Seq<u64>,
)
    ensures
        ({
            let lit = scene::look_of(glyph, own, true, focused, palette, linear);
            let dim = scene::look_of(glyph, own, false, focused, palette, linear);
            &&& lit.glyph == glyph && dim.glyph == glyph
            &&& lit.disc == own
            &&& lit.glyph_color == pixels::foreground_on(own, linear)
            &&& forall|i: int| 0 <= i < 3 ==> dim.disc[i] == palette.foreground[i]
            &&& forall|i: int| 0 <= i < 3 ==> dim.glyph_color[i] == palette.muted[i]
            &&& dim.disc[3] == (if focused {
                28u8
            } else {
                16u8
            })
            &&& dim.glyph_color[3] == 216
        }),
{
}

/// Without shaders, a window is drawn as its content, its titlebar with the
/// buttons, each in its own color, and its border around it.
pub proof fn frames_are_drawn_over_the_content(
    window: WindowFrame,
    theme: DecorationTheme,
    focused: bool,
    radius: int,
)
    requires
        ({
            let g = frame::frame_geometry(window.client, theme, true);
            &&& g.titlebar.width > 0 && g.titlebar.height > 0
            &&& g.close_btn.width > 0 && g.close_btn.height > 0
            &&& g.maximize_btn.width > 0 && g.maximize_btn.height > 0
            &&& g.minimize_btn.width > 0 && g.minimize_btn.height > 0
        }),
        window.has_titlebar,
        window.has_border,
    ensures
        ({
            let g = frame::frame_geometry(window.client, theme, true);
            let flat = decoration::draw_steps(window, theme, focused, radius, false);
            let round = decoration::draw_steps(window, theme, focused, radius, true);
            let fill = if focused {
                theme.active_titlebar
            } else {
                theme.inactive_titlebar
            };
            let border = if focused {
                theme.active_border
            } else {
                theme.inactive_border
            };
            &&& flat.len() == 6
            &&& flat[0] == DrawStep::Content
            &&& flat[1] == DrawStep::Fill(g.titlebar, fill)
            &&& flat[2] == DrawStep::Fill(g.close_btn, theme.close_button)
            &&& flat[3] == DrawStep::Fill(g.maximize_btn, theme.maximize_button)
            &&& flat[4] == DrawStep::Fill(g.minimize_btn, theme.minimize_button)
            &&& flat[5] == DrawStep::Bars(border)
            &&& 0 < theme.border_width < radius <= i32::MAX ==> {
                &&& round.len() == 8
                &&& round[0] == DrawStep::BeginClip(radius as i32)
                &&& round[1] == DrawStep::Content
                &&& round[6] == DrawStep::Ring(
                    radius as i32,
                    (radius - theme.border_width) as i32,
                    border,
                )
                &&& round[7] == DrawStep::EndClip
            }
        }),
{
}

/// The titlebar is inside the border, as wide as the frame without it on either
/// side.
pub proof fn titlebars_are_inside_the_border(area: Rect, params: FrameParams, frame: Rect)
    requires
        params.border_width >= 0,
        area.width > 2 * params.border_width,
        params.titlebar_height > 0,
        frame.width > 2 * params.border_width,
    ensures
        decoration::titlebar_part(area, params) matches Some(part) && part.x
            == params.border_width && part.y == params.border_width && part.width + 2
            * params.border_width == area.width && part.height == params.titlebar_height,
        ({
            let part = clip::titlebar_area(
                frame,
                params.border_width as int,
                params.titlebar_height as int,
            );
            &&& part.x - frame.x == params.border_width
            &&& part.y - frame.y == params.border_width
            &&& part.width + 2 * params.border_width == frame.width
            &&& part.height == params.titlebar_height
        }),
{
}

/// The average color of an image is that of its channel over all pixels, rounded
/// down.
pub proof fn averages_are_over_all_pixels(image: Seq<u8>, channel: int, value: u8)
    requires
        image.len() >= 4,
        0 <= channel < 4,
        forall|i: int| 0 <= i < image.len() / 4 ==> #[trigger] image[4 * i + channel] == value,
    ensures
        pixels::channel_average(image, channel) == value,
{
    let n = (image.len() / 4) as int;
    lemma_sum_of_equals(image, channel, value, n);
    assert((n * value) / n == value) by (nonlinear_arith)
        requires
            n > 0,
    ;
}

proof fn lemma_sum_of_equals(image: Seq<u8>, channel: int, value: u8, n: int)
    requires
        0 <= n <= image.len() / 4,
        forall|i: int| 0 <= i < image.len() / 4 ==> #[trigger] image[4 * i + channel] == value,
    ensures
        pixels::channel_sum(image, channel, n) == n * value,
    decreases n,
{
    if n > 0 {
        lemma_sum_of_equals(image, channel, value, n - 1);
        assert(image[4 * (n - 1) + channel] == value);
        assert((n - 1) * value + value == n * value) by (nonlinear_arith);
    } else {
        assert(0 * value == 0);
    }
}

/// Brightening one pixel never darkens the sum of a channel.
pub proof fn every_pixel_counts(image: Seq<u8>, pixel: int, channel: int, more: u8)
    requires
        0 <= pixel < image.len() / 4,
        0 <= channel < 4,
    ensures
        pixels::channel_sum(
            image.update(4 * pixel + channel, more),
            channel,
            (image.len() / 4) as int,
        ) - pixels::channel_sum(image, channel, (image.len() / 4) as int) == more - image[4 * pixel
            + channel],
{
    lemma_changed_sum(image, pixel, channel, more, (image.len() / 4) as int);
}

proof fn lemma_changed_sum(image: Seq<u8>, pixel: int, channel: int, more: u8, n: int)
    requires
        0 <= pixel < image.len() / 4,
        0 <= channel < 4,
        0 <= n <= image.len() / 4,
    ensures
        pixels::channel_sum(image.update(4 * pixel + channel, more), channel, n)
            - pixels::channel_sum(image, channel, n) == (if pixel < n {
            more - image[4 * pixel + channel]
        } else {
            0
        }),
    decreases n,
{
    if n > 0 {
        lemma_changed_sum(image, pixel, channel, more, n - 1);
    }
}

/// A pixel of a glyph is painted in the color of the ink, with as much alpha as
/// the glyph covers of it; where no glyph is, nothing is painted.
pub proof fn glyphs_are_painted_where_they_are(
    glyph: Glyph,
    weights: Seq<u16>,
    ink: Ink,
    px: int,
    py: int,
)
    requires
        0 <= px - glyph.x < glyph.width,
        0 <= py - glyph.y < glyph.height,
        weights[glyph.coverage@[(py - glyph.y) * glyph.width + (px - glyph.x)] as int] == 255,
    ensures
        glyphs::painted_byte(seq![glyph], weights, ink, px, py, 0) == ink.red,
        glyphs::painted_byte(seq![glyph], weights, ink, px, py, 1) == ink.green,
        glyphs::painted_byte(seq![glyph], weights, ink, px, py, 2) == ink.blue,
        glyphs::painted_byte(seq![glyph], weights, ink, px, py, 3) == ink.alpha,
{
    let all = seq![glyph];
    assert(all.drop_last() =~= Seq::<Glyph>::empty());
    assert(all.last() == glyph);
    assert(glyphs::alpha_at(all.drop_last(), weights, ink.alpha, px, py) == 0);
    assert(glyph.weight_at(weights, px, py) == 255);
    assert(255int * ink.alpha / 255 == ink.alpha);
}

/// Off all glyphs nothing is painted.
pub proof fn nothing_is_painted_off_the_glyphs(
    all: Seq<Glyph>,
    weights: Seq<u16>,
    ink: Ink,
    px: int,
    py: int,
    channel: int,
)
    requires
        0 <= channel < 4,
        forall|i: int|
            0 <= i < all.len() ==> {
                let glyph = #[trigger] all[i];
                ||| px < glyph.x
                ||| px >= glyph.x + glyph.width
                ||| py < glyph.y
                ||| py >= glyph.y + glyph.height
            },
    ensures
        glyphs::painted_byte(all, weights, ink, px, py, channel) == 0,
{
    lemma_off(all, weights, ink.alpha, px, py);
}

proof fn lemma_off(all: Seq<Glyph>, weights: Seq<u16>, alpha: u8, px: int, py: int)
    requires
        forall|i: int|
            0 <= i < all.len() ==> {
                let glyph = #[trigger] all[i];
                ||| px < glyph.x
                ||| px >= glyph.x + glyph.width
                ||| py < glyph.y
                ||| py >= glyph.y + glyph.height
            },
    ensures
        !glyphs::inked(all, weights, px, py),
        glyphs::alpha_at(all, weights, alpha, px, py) == 0,
    decreases all.len(),
{
    if all.len() > 0 {
        let fewer = all.drop_last();
        assert forall|i: int| 0 <= i < fewer.len() implies {
            let glyph = #[trigger] fewer[i];
            ||| px < glyph.x
            ||| px >= glyph.x + glyph.width
            ||| py < glyph.y
            ||| py >= glyph.y + glyph.height
        } by {
            assert(fewer[i] == all[i]);
        }
        lemma_off(fewer, weights, alpha, px, py);
        assert(all[all.len() - 1] == all.last());
        assert(all.last().weight_at(weights, px, py) == 0);
        assert(0int * alpha == 0);
    }
}

/// A captured pixel stands in its row, behind the offset and the rows before
/// it; bytes between the rows stay.
pub proof fn captured_rows_follow_the_stride(
    layout: BufferLayout,
    source: Seq<u8>,
    before: Seq<u8>,
    row: int,
    k: int,
)
    requires
        0 <= row < layout.height,
        0 <= k < layout.stride,
        4 * layout.width <= layout.stride,
        layout.width >= 0,
    ensures
        layout.byte(source, before, layout.offset + row * layout.stride + k) == (if k < 4
            * layout.width {
            source[row * (4 * layout.width) + k]
        } else {
            before[layout.offset + row * layout.stride + k]
        }),
{
    let stride = layout.stride as int;
    let height = layout.height as int;
    assert((row * stride + k) / stride == row && (row * stride + k) % stride == k && 0 <= row
        * stride + k < stride * height) by (nonlinear_arith)
        requires
            0 <= row < height,
            0 <= k < stride,
    ;
}

/// Only decorated windows with a titlebar are sampled, and only to blend.
pub proof fn titlebars_blend_where_they_are_drawn(
    window: WindowFrame,
    theme: DecorationTheme,
    shaders: bool,
)
    ensures
        scene::samples(window, theme, shaders) <==> window.has_border && window.has_titlebar
            && shaders && theme.titlebar_mode == TitlebarColorMode::Blend,
{
}

} // verus!
