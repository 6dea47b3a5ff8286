//! What is kept of a window's decoration from one frame to the next, so that
//! only what changed is drawn again.

use crate::geometry;
use crate::geometry::{Rect, Size};
use crate::pixels;
use crate::reals::{Real32, Real64};
use crate::scene::{ButtonLook, FrameParams};
use crate::text;
use crate::theme::DecorationTheme;
use vstd::prelude::*;

verus! {

/// Two colours are the same.
pub fn same_color(a: [u8; 4], b: [u8; 4]) -> (r: bool)
    ensures
        r == (a == b),
{
    let same = a[0] == b[0] && a[1] == b[1] && a[2] == b[2] && a[3] == b[3];
    proof {
        if same {
            assert forall|i: int| 0 <= i < 4 implies a[i] == b[i] by {}
            assert(a =~= b);
        }
    }
    same
}

/// What a drawn button depends on.
#[derive(Debug, Clone, Copy)]
pub struct ButtonKey {
    pub look: ButtonLook,
    pub size: i32,
    pub buffer_scale: i32,
}

/// What a drawn title depends on.
#[derive(Debug)]
pub struct TitleKey {
    pub title: String,
    /// The font size.
    pub size: Real32,
    pub color: [u8; 4],
    pub max_width: i32,
    pub height: i32,
    pub centered: bool,
    pub buffer_scale: i32,
}

pub struct TitleKeyModel {
    pub title: Seq<char>,
    pub size: Real32,
    pub color: [u8; 4],
    pub max_width: i32,
    pub height: i32,
    pub centered: bool,
    pub buffer_scale: i32,
}

impl View for TitleKey {
    type V = TitleKeyModel;

    open spec fn view(&self) -> TitleKeyModel {
        TitleKeyModel {
            title: self.title@,
            size: self.size,
            color: self.color,
            max_width: self.max_width,
            height: self.height,
            centered: self.centered,
            buffer_scale: self.buffer_scale,
        }
    }
}

/// What happens to something that was drawn before.
#[derive(Debug, Clone, Copy, PartialEq, Eq, Structural)]
pub enum Refresh {
    /// It stays as it is.
    Keep,
    /// It is dropped, and nothing takes its place.
    Clear,
    /// It is drawn anew.
    Draw,
}

fn same_look(a: ButtonLook, b: ButtonLook) -> (r: bool)
    ensures
        r == (a == b),
{
    a.glyph == b.glyph && same_color(a.disc, b.disc) && same_color(a.glyph_color, b.glyph_color)
}

fn same_title(a: &TitleKey, b: &TitleKey) -> (r: bool)
    ensures
        r == (a@ == b@),
{
    a.size.bits == b.size.bits && same_color(a.color, b.color) && a.max_width == b.max_width
        && a.height == b.height && a.centered == b.centered && a.buffer_scale == b.buffer_scale
        && text::text_eq(a.title.as_str(), b.title.as_str())
}

fn same_params(a: FrameParams, b: FrameParams) -> (r: bool)
    ensures
        r == (a == b),
{
    a.radius == b.radius && a.border_width == b.border_width && a.titlebar_height
        == b.titlebar_height && same_color(a.border_color, b.border_color) && same_color(
        a.titlebar_color,
        b.titlebar_color,
    )
}

/// What is kept of a window's decoration.
#[derive(Debug)]
pub struct WindowDecoration {
    /// Where the frame was drawn.
    pub area: Rect,
    /// How it was drawn.
    pub params: Option<FrameParams>,
    pub close: Option<ButtonKey>,
    pub maximize: Option<ButtonKey>,
    pub minimize: Option<ButtonKey>,
    pub title: Option<TitleKey>,
    pub icon: Option<String>,
    pub strip: Option<TitlebarStrip>,
}

impl Default for WindowDecoration {
    fn default() -> (r: Self)
        ensures
            r.area == geometry::empty_rect(),
            r.params is None,
            r.close is None,
            r.maximize is None,
            r.minimize is None,
            r.title is None,
            r.icon is None,
            r.strip is None,
    {
        WindowDecoration {
            area: Rect { x: 0, y: 0, width: 0, height: 0 },
            params: None,
            close: None,
            maximize: None,
            minimize: None,
            title: None,
            icon: None,
            strip: None,
        }
    }
}

/// The titlebar within its frame, if it has an extent.
pub open spec fn titlebar_part(area: Rect, params: FrameParams) -> Option<Rect> {
    let width = area.width - 2 * params.border_width;
    if width > 0 && params.titlebar_height > 0 {
        Some(
            Rect {
                x: params.border_width,
                y: params.border_width,
                width: width as i32,
                height: params.titlebar_height,
            },
        )
    } else {
        None
    }
}

/// A button with its key before and its key now.
pub open spec fn button_refresh(before: Option<ButtonKey>, now: ButtonKey) -> Refresh {
    if before == Some(now) {
        Refresh::Keep
    } else if now.size <= 0 {
        Refresh::Clear
    } else {
        Refresh::Draw
    }
}

/// Keeps the key of a button and says whether it has to be drawn.
pub fn refresh_button(cache: &mut Option<ButtonKey>, now: ButtonKey) -> (r: Refresh)
    ensures
        r == button_refresh(*old(cache), now),
        *final(cache) == Some(now),
{
    let same = match cache {
        Some(before) => before.size == now.size && before.buffer_scale == now.buffer_scale
            && same_look(before.look, now.look),
        None => false,
    };
    *cache = Some(now);
    if same {
        Refresh::Keep
    } else if now.size <= 0 {
        Refresh::Clear
    } else {
        Refresh::Draw
    }
}

impl WindowDecoration {
    /// Takes over where and how the frame is drawn, and says whether all of it
    /// has to be drawn again.
    pub fn update(&mut self, area: Rect, params: FrameParams) -> (dirty: bool)
        ensures
            dirty == !(old(self).area == area && old(self).params == Some(params)),
            *final(self) == (WindowDecoration { area, params: Some(params), ..*old(self) }),
    {
        let same = match self.params {
            Some(before) => self.area == area && same_params(before, params),
            None => false,
        };
        self.area = area;
        self.params = Some(params);
        !same
    }

    /// The part of the frame to draw again after the colour of the titlebar
    /// changed.
    pub fn damage_titlebar(&self) -> (r: Option<Rect>)
        requires
            self.params is Some ==> geometry::fits(
                self.area.width - 2 * self.params->0.border_width,
            ),
        ensures
            r == (match self.params {
                Some(params) => titlebar_part(self.area, params),
                None => None,
            }),
    {
        match self.params {
            Some(params) => {
                let width: i64 = self.area.width as i64 - 2 * params.border_width as i64;
                if width > 0 && params.titlebar_height > 0 {
                    Some(
                        Rect {
                            x: params.border_width,
                            y: params.border_width,
                            width: width as i32,
                            height: params.titlebar_height,
                        },
                    )
                } else {
                    None
                }
            },
            None => None,
        }
    }

    /// Keeps the key of the title and says whether it has to be drawn.
    pub fn update_title(&mut self, now: TitleKey) -> (r: Refresh)
        ensures
            r == (match old(self).title {
                Some(before) => if before@ == now@ {
                    Refresh::Keep
                } else {
                    Refresh::Draw
                },
                None => Refresh::Draw,
            }),
            *final(self) == (WindowDecoration { title: Some(now), ..*old(self) }),
    {
        let same = match &self.title {
            Some(before) => same_title(before, &now),
            None => false,
        };
        self.title = Some(now);
        if same {
            Refresh::Keep
        } else {
            Refresh::Draw
        }
    }

    /// Keeps the key of the icon and says whether it has to be drawn: without
    /// an icon it is dropped.
    pub fn update_icon(&mut self, key: String, found: bool) -> (r: Refresh)
        ensures
            r == (if text::option(old(self).icon) == Some(key@) {
                Refresh::Keep
            } else if found {
                Refresh::Draw
            } else {
                Refresh::Clear
            }),
            *final(self) == (WindowDecoration { icon: Some(key), ..*old(self) }),
    {
        let same = match &self.icon {
            Some(before) => text::text_eq(before.as_str(), key.as_str()),
            None => false,
        };
        self.icon = Some(key);
        if same {
            Refresh::Keep
        } else if found {
            Refresh::Draw
        } else {
            Refresh::Clear
        }
    }
}

/// What an uploaded icon depends on.
pub fn icon_key(app_id: &Option<String>, width: u32, buffer_scale: u32) -> (key: String)
    ensures
        key@ == (match text::option(*app_id) {
            Some(name) => name,
            None => ""@,
        }) + "|"@ + text::decimal(width as nat) + "|"@ + text::decimal(buffer_scale as nat),
{
    let name = match app_id {
        Some(name) => name.as_str(),
        None => "",
    };
    let first = text::join3(name, "|", text::u64_text(width as u64).as_str());
    text::join3(first.as_str(), "|", text::u64_text(buffer_scale as u64).as_str())
}

/// A copy of one row of a window's content, kept across frames.
#[derive(Debug, Clone, Copy)]
pub struct TitlebarStrip {
    /// The width in pixels of the output.
    pub width: i32,
    /// The scale of the output.
    pub scale: Real64,
    /// The copy holds an earlier frame, so that only damage is repainted.
    pub rendered: bool,
    /// The average colour of the row, read back when the row changes.
    pub average: Option<[u8; 4]>,
}

/// The strip to draw into, if the content has an extent: the kept one where
/// its width and scale are still right.
pub open spec fn strip_for(strip: Option<TitlebarStrip>, size: Size, scale: Real64) -> Option<
    TitlebarStrip,
> {
    if size.w == 0 || size.h == 0 {
        None
    } else {
        match strip {
            Some(kept) if kept.width == size.w && kept.scale.same(scale) => Some(kept),
            _ => Some(TitlebarStrip { width: size.w, scale, rendered: false, average: None }),
        }
    }
}

/// The strip to draw a row of content of the size into, and whether a new one
/// has to be made.
pub fn prepare_strip(strip: &mut Option<TitlebarStrip>, size: Size, scale: Real64) -> (fresh: bool)
    ensures
        *final(strip) == strip_for(*old(strip), size, scale),
        fresh == (*final(strip) is Some && !(*old(strip) is Some && old(strip)->0.width == size.w
            && old(strip)->0.scale.same(scale))),
{
    if size.w == 0 || size.h == 0 {
        *strip = None;
        return false;
    }
    let reusable = match strip {
        Some(kept) => kept.width == size.w && kept.scale.equals(scale),
        None => false,
    };
    if !reusable {
        *strip = Some(TitlebarStrip { width: size.w, scale, rendered: false, average: None });
    }
    !reusable
}

/// How deep below the top edge the row is taken, given the wanted depth in
/// pixels of the output; never below the content.
pub fn sample_depth(wanted: i32, height: i32) -> (r: i32)
    requires
        height >= 1,
    ensures
        r == geometry::clamped(wanted as int, 0, height - 1),
{
    geometry::clamp_i32(wanted, 0, height - 1)
}

impl TitlebarStrip {
    /// How many frames old the kept copy is, for damage tracking.
    pub fn age(&self) -> (r: usize)
        ensures
            r == if self.rendered {
                1int
            } else {
                0
            },
    {
        if self.rendered {
            1
        } else {
            0
        }
    }

    /// The row has to be read back: it changed, or its colour is not known.
    pub fn needs_average(&self, changed: bool) -> (r: bool)
        ensures
            r == (changed || self.average is None),
    {
        changed || self.average.is_none()
    }

    /// The row was drawn; its pixels were read back where that was needed and
    /// possible.
    pub fn drawn(&mut self, changed: bool, row: &Option<Vec<u8>>)
        ensures
            final(self).width == old(self).width,
            final(self).scale == old(self).scale,
            final(self).rendered,
            if changed || old(self).average is None {
                match *row {
                    Some(bytes) => final(self).average is Some && forall|channel: int|
                        0 <= channel < 4 ==> #[trigger] final(self).average->0[channel]
                            == pixels::channel_average(bytes@, channel),
                    None => final(self).average is None,
                }
            } else {
                final(self).average == old(self).average
            },
    {
        if changed || self.average.is_none() {
            self.average = match row {
                Some(bytes) => Some(pixels::average_row(bytes)),
                None => None,
            };
        }
        self.rendered = true;
    }
}

/// A step in drawing a window by hand.
#[derive(Debug, Clone, Copy)]
pub enum DrawStep {
    /// Clip to the frame with corners of the radius.
    BeginClip(i32),
    Content,
    Fill(Rect, [u8; 4]),
    /// The border as a ring between two radii.
    Ring(i32, i32, [u8; 4]),
    /// The border as four bars.
    Bars([u8; 4]),
    EndClip,
}

/// The rectangle, if it has an extent.
pub open spec fn filled(area: Rect, color: [u8; 4]) -> Seq<DrawStep> {
    if area.width > 0 && area.height > 0 {
        seq![DrawStep::Fill(area, color)]
    } else {
        Seq::empty()
    }
}

/// The steps that draw a window: its content, its titlebar and buttons, and
/// its border, clipped where its corners are rounded.
pub open spec fn draw_steps(
    window: crate::input::WindowFrame,
    theme: DecorationTheme,
    focused: bool,
    radius: int,
    shaders: bool,
) -> Seq<DrawStep> {
    let clip = radius > 0 && shaders;
    let border = if focused {
        theme.active_border
    } else {
        theme.inactive_border
    };
    let place = crate::frame::frame_geometry(window.client, theme, true);
    (if clip {
        seq![DrawStep::BeginClip(radius as i32)]
    } else {
        Seq::empty()
    }) + seq![DrawStep::Content] + (if window.has_titlebar {
        filled(place.titlebar, crate::scene::titlebar_fill(theme, focused)) + filled(
            place.close_btn,
            theme.close_button,
        ) + filled(place.maximize_btn, theme.maximize_button) + filled(
            place.minimize_btn,
            theme.minimize_button,
        )
    } else {
        Seq::empty()
    }) + (if window.has_border && clip {
        seq![
            DrawStep::Ring(
                radius as i32,
                crate::scene::inner_radius(radius, theme.border_width as int) as i32,
                border,
            ),
        ]
    } else if window.has_border {
        seq![DrawStep::Bars(border)]
    } else {
        Seq::empty()
    }) + (if clip {
        seq![DrawStep::EndClip]
    } else {
        Seq::empty()
    })
}

fn push_fill(steps: &mut Vec<DrawStep>, area: Rect, color: [u8; 4])
    ensures
        final(steps)@ == old(steps)@ + filled(area, color),
{
    let ghost before = steps@;
    if area.width > 0 && area.height > 0 {
        steps.push(DrawStep::Fill(area, color));
    }
    assert(steps@ =~= before + filled(area, color));
}

/// The steps that draw a window.
pub fn draw_window(
    window: crate::input::WindowFrame,
    theme: &DecorationTheme,
    focused: bool,
    shaders: bool,
) -> (steps: Vec<DrawStep>)
    requires
        window.has_titlebar ==> crate::frame::frame_fits(window.client, *theme, true),
        geometry::fits(
            geometry::least(
                geometry::least(
                    theme.corner_radius as int,
                    geometry::quotient(window.frame.width as int, 2),
                ),
                geometry::quotient(window.frame.height as int, 2),
            ) - theme.border_width,
        ),
    ensures
        steps@ == draw_steps(
            window,
            *theme,
            focused,
            geometry::least(
                geometry::least(
                    theme.corner_radius as int,
                    geometry::quotient(window.frame.width as int, 2),
                ),
                geometry::quotient(window.frame.height as int, 2),
            ),
            shaders,
        ),
{
    let radius: i32 = geometry::min_i32(
        geometry::min_i32(theme.corner_radius, geometry::half(window.frame.width)),
        geometry::half(window.frame.height),
    );
    let clip = radius > 0 && shaders;
    let border: [u8; 4] = if focused {
        theme.active_border
    } else {
        theme.inactive_border
    };
    let mut steps: Vec<DrawStep> = Vec::new();
    if clip {
        steps.push(DrawStep::BeginClip(radius));
    }
    steps.push(DrawStep::Content);
    if window.has_titlebar {
        let place = crate::frame::DecorationFrame::compute(window.client, theme, true);
        let fill: [u8; 4] = if focused {
            theme.active_titlebar
        } else {
            theme.inactive_titlebar
        };
        push_fill(&mut steps, place.titlebar, fill);
        push_fill(&mut steps, place.close_btn, theme.close_button);
        push_fill(&mut steps, place.maximize_btn, theme.maximize_button);
        push_fill(&mut steps, place.minimize_btn, theme.minimize_button);
    }
    if window.has_border {
        if clip {
            let inner: i32 = geometry::max_i32(radius - theme.border_width, 0);
            steps.push(DrawStep::Ring(radius, inner, border));
        } else {
            steps.push(DrawStep::Bars(border));
        }
    }
    if clip {
        steps.push(DrawStep::EndClip);
    }
    assert(steps@ =~= draw_steps(window, *theme, focused, radius as int, shaders));
    steps
}

/// Drawing the same decoration twice changes nothing the second time.
pub proof fn an_unchanged_button_is_kept(before: Option<ButtonKey>, now: ButtonKey)
    ensures
        button_refresh(Some(now), now) == Refresh::Keep,
        button_refresh(before, now) == Refresh::Keep <==> before == Some(now),
{
}

/// A window's surface with its popups.
#[derive(Debug)]
pub struct SurfaceTree {
    pub surface: u64,
    pub popups: Vec<u64>,
}

/// The surface, then its popups.
pub open spec fn tree_roots(trees: Seq<SurfaceTree>) -> Seq<u64>
    decreases trees.len(),
{
    if trees.len() == 0 {
        Seq::empty()
    } else {
        tree_roots(trees.drop_last()) + seq![trees.last().surface] + trees.last().popups@
    }
}

pub open spec fn optional(surface: Option<u64>) -> Seq<u64> {
    match surface {
        Some(id) => seq![id],
        None => Seq::empty(),
    }
}

fn push_trees(roots: &mut Vec<u64>, trees: &Vec<SurfaceTree>)
    ensures
        final(roots)@ == old(roots)@ + tree_roots(trees@),
{
    let ghost before = roots@;
    assert(before + tree_roots(trees@.take(0)) =~= before);
    for i in 0..trees.len()
        invariant
            roots@ == before + tree_roots(trees@.take(i as int)),
    {
        assert(trees@.take(i + 1).drop_last() =~= trees@.take(i as int));
        let ghost former = roots@;
        roots.push(trees[i].surface);
        let popups = &trees[i].popups;
        let ghost begun = roots@;
        assert(begun + popups@.take(0) =~= begun);
        for j in 0..popups.len()
            invariant
                roots@ == begun + popups@.take(j as int),
        {
            roots.push(popups[j]);
            assert(roots@ =~= begun + popups@.take(j + 1));
        }
        assert(popups@.take(popups@.len() as int) =~= popups@);
        assert(roots@ =~= before + (tree_roots(trees@.take(i as int)) + seq![
            trees@[i as int].surface,
        ] + trees@[i as int].popups@));
    }
    assert(trees@.take(trees@.len() as int) =~= trees@);
}

/// Every surface that gets frame callbacks: the windows and the layers, each
/// with its popups, the pointer's surface and the dragged icon.
pub fn surface_roots(
    toplevels: &Vec<SurfaceTree>,
    layers: &Vec<SurfaceTree>,
    cursor: Option<u64>,
    drag_icon: Option<u64>,
) -> (roots: Vec<u64>)
    ensures
        roots@ == tree_roots(toplevels@) + tree_roots(layers@) + optional(cursor) + optional(
            drag_icon,
        ),
{
    let mut roots: Vec<u64> = Vec::new();
    push_trees(&mut roots, toplevels);
    push_trees(&mut roots, layers);
    if let Some(surface) = cursor {
        roots.push(surface);
    }
    if let Some(surface) = drag_icon {
        roots.push(surface);
    }
    assert(roots@ =~= tree_roots(toplevels@) + tree_roots(layers@) + optional(cursor) + optional(
        drag_icon,
    ));
    roots
}

} // verus!
