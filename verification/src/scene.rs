//! What is drawn on an output, in which order and in which colours.

use crate::capture::CursorMode;
use crate::desktop::Desktop;
use crate::frame;
use crate::frame::DecorationFrame;
use crate::geometry;
use crate::geometry::Rect;
use crate::input::WindowFrame;
use crate::model::WindowId;
use crate::pixels;
use crate::theme::{DecorationButton, DecorationTheme, TitlebarColorMode};
use vstd::prelude::*;

verus! {

/// The layers above and below the windows.
#[derive(Debug, Clone, Copy, PartialEq, Eq, Structural)]
pub enum SceneLayer {
    Background,
    Bottom,
    Top,
    Overlay,
}

/// Something to draw on an output.
#[derive(Debug, Clone, Copy, PartialEq, Eq, Structural)]
pub enum SceneItem {
    Cursor,
    DragIcon,
    Layer(SceneLayer),
    Window(WindowId),
    /// The blurred backdrop of a window, made of as many of the windows at
    /// the bottom as the number says, and of the lower layers.
    Backdrop(WindowId, usize),
}

/// What shows of the pointer.
#[derive(Debug, Clone, PartialEq, Eq)]
pub enum PointerImage {
    Hidden,
    /// A surface of a client, which may be gone.
    Surface(bool),
    Named(String),
}

/// What to draw for the pointer.
#[derive(Debug, Clone, PartialEq, Eq)]
pub enum CursorPlan {
    Nothing,
    Surface,
    Named(String),
}

/// What the pointer looks like, as a sequence of characters where it has a
/// name.
pub enum CursorPlanModel {
    Nothing,
    Surface,
    Named(Seq<char>),
}

impl View for CursorPlan {
    type V = CursorPlanModel;

    open spec fn view(&self) -> CursorPlanModel {
        match self {
            CursorPlan::Nothing => CursorPlanModel::Nothing,
            CursorPlan::Surface => CursorPlanModel::Surface,
            CursorPlan::Named(name) => CursorPlanModel::Named(name@),
        }
    }
}

/// The pointer shows only where it is, and named pointers only where they are
/// composited. A surface that is gone gives the default pointer.
pub open spec fn planned_cursor(
    mode: CursorMode,
    on_output: bool,
    image: PointerImage,
) -> CursorPlanModel {
    if mode == CursorMode::Hidden || !on_output {
        CursorPlanModel::Nothing
    } else {
        match image {
            PointerImage::Hidden => CursorPlanModel::Nothing,
            PointerImage::Surface(alive) => if alive {
                CursorPlanModel::Surface
            } else if mode == CursorMode::HostNamed {
                CursorPlanModel::Nothing
            } else {
                CursorPlanModel::Named("default"@)
            },
            PointerImage::Named(name) => if mode == CursorMode::HostNamed {
                CursorPlanModel::Nothing
            } else {
                CursorPlanModel::Named(name@)
            },
        }
    }
}

/// What to draw for the pointer on an output.
pub fn cursor_plan(mode: CursorMode, on_output: bool, image: &PointerImage) -> (r: CursorPlan)
    ensures
        r@ == planned_cursor(mode, on_output, *image),
{
    if mode == CursorMode::Hidden || !on_output {
        return CursorPlan::Nothing;
    }
    match image {
        PointerImage::Hidden => CursorPlan::Nothing,
        PointerImage::Surface(alive) => if *alive {
            CursorPlan::Surface
        } else if mode == CursorMode::HostNamed {
            CursorPlan::Nothing
        } else {
            CursorPlan::Named("default".to_owned())
        },
        PointerImage::Named(name) => if mode == CursorMode::HostNamed {
            CursorPlan::Nothing
        } else {
            CursorPlan::Named(name.clone())
        },
    }
}

/// The windows, front to back, each before its backdrop. The first `n` of the
/// windows, which are given back to front, are drawn.
pub open spec fn window_items(windows: Seq<WindowId>, n: int) -> Seq<SceneItem>
    decreases n,
{
    if n <= 0 {
        Seq::empty()
    } else {
        seq![
            SceneItem::Window(windows[n - 1]),
            SceneItem::Backdrop(windows[n - 1], (n - 1) as usize),
        ] + window_items(windows, n - 1)
    }
}

/// Everything on an output, front to back. A fullscreen window hides the
/// layers beside the overlay.
pub open spec fn scene(windows: Seq<WindowId>, fullscreen: bool, cursor: bool, drag: bool) -> Seq<
    SceneItem,
> {
    let front = (if cursor {
        seq![SceneItem::Cursor]
    } else {
        Seq::empty()
    }) + (if drag {
        seq![SceneItem::DragIcon]
    } else {
        Seq::empty()
    }) + seq![SceneItem::Layer(SceneLayer::Overlay)] + (if fullscreen {
        Seq::empty()
    } else {
        seq![SceneItem::Layer(SceneLayer::Top)]
    });
    front + window_items(windows, windows.len() as int) + (if fullscreen {
        Seq::empty()
    } else {
        seq![SceneItem::Layer(SceneLayer::Bottom), SceneItem::Layer(SceneLayer::Background)]
    })
}

/// The topmost window of an output is fullscreen.
pub open spec fn topmost_is_fullscreen(d: crate::model::DesktopModel, output: int) -> bool {
    let windows = d.z_order(output);
    windows.len() > 0 && d.has(windows.last()) && d.window(windows.last()).fullscreen
}

/// Everything to draw on an output, front to back.
pub fn output_plan(desktop: &Desktop, output: usize, cursor: bool, drag: bool) -> (items: Vec<
    SceneItem,
>)
    requires
        desktop@.wf(),
        output < desktop@.outputs.len(),
    ensures
        items@ == scene(
            desktop@.z_order(output as int),
            topmost_is_fullscreen(desktop@, output as int),
            cursor,
            drag,
        ),
{
    let windows = desktop.z_ordered_windows(output);
    let count: usize = windows.len();
    let fullscreen = count > 0 && desktop.window_is_fullscreen(windows[count - 1]);
    let mut items: Vec<SceneItem> = Vec::new();
    if cursor {
        items.push(SceneItem::Cursor);
    }
    if drag {
        items.push(SceneItem::DragIcon);
    }
    items.push(SceneItem::Layer(SceneLayer::Overlay));
    if !fullscreen {
        items.push(SceneItem::Layer(SceneLayer::Top));
    }
    let ghost front = items@;
    let mut n: usize = count;
    assert(front + window_items(windows@, n as int) =~= items@ + window_items(windows@, n as int));
    while n > 0
        invariant
            n <= windows@.len(),
            front + window_items(windows@, windows@.len() as int) == items@ + window_items(
                windows@,
                n as int,
            ),
        decreases n,
    {
        let id = windows[n - 1];
        let ghost before = items@;
        items.push(SceneItem::Window(id));
        items.push(SceneItem::Backdrop(id, n - 1));
        assert(items@ + window_items(windows@, n - 1) =~= before + window_items(windows@, n as int));
        n = n - 1;
    }
    assert(items@ =~= front + window_items(windows@, windows@.len() as int));
    if !fullscreen {
        items.push(SceneItem::Layer(SceneLayer::Bottom));
        items.push(SceneItem::Layer(SceneLayer::Background));
    }
    assert(items@ =~= scene(windows@, fullscreen, cursor, drag));
    items
}

/// What lies behind a blurred window, front to back.
pub open spec fn behind(windows: Seq<WindowId>, n: int) -> Seq<SceneItem>
    decreases n,
{
    if n <= 0 {
        seq![SceneItem::Layer(SceneLayer::Bottom), SceneItem::Layer(SceneLayer::Background)]
    } else {
        seq![SceneItem::Window(windows[n - 1])] + behind(windows, n - 1)
    }
}

/// What to draw into the backdrop of the window above the first `n` windows.
pub fn backdrop_plan(windows: &Vec<WindowId>, n: usize) -> (items: Vec<SceneItem>)
    requires
        n <= windows@.len(),
    ensures
        items@ == behind(windows@, n as int),
{
    let mut items: Vec<SceneItem> = Vec::new();
    let mut left: usize = n;
    assert(items@ + behind(windows@, n as int) =~= behind(windows@, n as int));
    while left > 0
        invariant
            left <= n <= windows@.len(),
            behind(windows@, n as int) == items@ + behind(windows@, left as int),
        decreases left,
    {
        let ghost before = items@;
        items.push(SceneItem::Window(windows[left - 1]));
        assert(items@ + behind(windows@, left - 1) =~= before + behind(windows@, left as int));
        left = left - 1;
    }
    items.push(SceneItem::Layer(SceneLayer::Bottom));
    items.push(SceneItem::Layer(SceneLayer::Background));
    assert(items@ =~= behind(windows@, n as int));
    items
}

proof fn lemma_window_items(windows: Seq<WindowId>, n: int)
    requires
        0 <= n <= windows.len(),
    ensures
        window_items(windows, n).len() == 2 * n,
        forall|i: int|
            0 <= i < n ==> #[trigger] window_items(windows, n)[2 * (n - 1 - i)]
                == SceneItem::Window(windows[i]),
    decreases n,
{
    if n > 0 {
        lemma_window_items(windows, n - 1);
        assert forall|i: int| 0 <= i < n implies #[trigger] window_items(windows, n)[2 * (n - 1
            - i)] == SceneItem::Window(windows[i]) by {
            if i < n - 1 {
                assert(window_items(windows, n)[2 * (n - 1 - i)] == window_items(
                    windows,
                    n - 1,
                )[2 * (n - 2 - i)]);
                assert(2 * (n - 2 - i) == 2 * ((n - 1) - 1 - i));
            }
        }
    }
}

/// Every window of an output is drawn, the higher one in front of the lower
/// one, and all of them behind the overlay.
pub proof fn windows_are_drawn_in_stacking_order(
    windows: Seq<WindowId>,
    fullscreen: bool,
    cursor: bool,
    drag: bool,
    lower: int,
    higher: int,
)
    requires
        0 <= lower < higher < windows.len(),
    ensures
        exists|overlay: int, front: int, back: int|
            #![trigger scene(windows, fullscreen, cursor, drag)[overlay], scene(
                windows,
                fullscreen,
                cursor,
                drag,
            )[front], scene(windows, fullscreen, cursor, drag)[back]]
            0 <= overlay < front < back < scene(windows, fullscreen, cursor, drag).len()
                && scene(windows, fullscreen, cursor, drag)[overlay] == SceneItem::Layer(
                SceneLayer::Overlay,
            ) && scene(windows, fullscreen, cursor, drag)[front] == SceneItem::Window(
                windows[higher],
            ) && scene(windows, fullscreen, cursor, drag)[back] == SceneItem::Window(
                windows[lower],
            ),
{
    let all = scene(windows, fullscreen, cursor, drag);
    let n = windows.len() as int;
    lemma_window_items(windows, n);
    let overlay = (if cursor {
        1int
    } else {
        0
    }) + (if drag {
        1int
    } else {
        0
    });
    let start = overlay + (if fullscreen {
        1int
    } else {
        2
    });
    assert(all[overlay] == SceneItem::Layer(SceneLayer::Overlay));
    let front = start + 2 * (n - 1 - higher);
    let back = start + 2 * (n - 1 - lower);
    assert(all[front] == window_items(windows, n)[2 * (n - 1 - higher)]);
    assert(all[back] == window_items(windows, n)[2 * (n - 1 - lower)]);
}

/// The sign on a titlebar button.
#[derive(Debug, Clone, Copy, PartialEq, Eq, Structural)]
pub enum ButtonGlyph {
    Close,
    Maximize,
    Minimize,
}

/// How a titlebar button is drawn: a soft disc with a thin sign on top.
#[derive(Debug, Clone, Copy, PartialEq, Eq)]
pub struct ButtonLook {
    pub glyph: ButtonGlyph,
    pub disc: [u8; 4],
    pub glyph_color: [u8; 4],
}

/// A button to draw.
#[derive(Debug, Clone, Copy, PartialEq, Eq)]
pub struct ButtonPlan {
    /// Which of the three buttons it is.
    pub slot: usize,
    pub area: Rect,
    pub look: ButtonLook,
}

/// The colours of a titlebar.
#[derive(Debug, Clone, Copy, PartialEq, Eq)]
pub struct Palette {
    pub background: [u8; 4],
    pub foreground: [u8; 4],
    pub muted: [u8; 4],
}

/// What is drawn on a titlebar.
#[derive(Debug)]
pub struct TitlebarPlan {
    pub buttons: Vec<ButtonPlan>,
    pub title: Rect,
    pub title_color: [u8; 4],
    pub title_centered: bool,
    pub icon: Option<Rect>,
}

pub struct TitlebarModel {
    pub buttons: Seq<ButtonPlan>,
    pub title: Rect,
    pub title_color: [u8; 4],
    pub title_centered: bool,
    pub icon: Option<Rect>,
}

impl View for TitlebarPlan {
    type V = TitlebarModel;

    open spec fn view(&self) -> TitlebarModel {
        TitlebarModel {
            buttons: self.buttons@,
            title: self.title,
            title_color: self.title_color,
            title_centered: self.title_centered,
            icon: self.icon,
        }
    }
}

/// How a window frame is drawn, in logical pixels.
#[derive(Debug, Clone, Copy, PartialEq, Eq)]
pub struct FrameParams {
    pub radius: i32,
    pub border_width: i32,
    pub titlebar_height: i32,
    pub border_color: [u8; 4],
    pub titlebar_color: [u8; 4],
}

/// The fill of the titlebar.
pub open spec fn titlebar_fill(theme: DecorationTheme, focused: bool) -> [u8; 4] {
    if focused {
        theme.active_titlebar
    } else {
        theme.inactive_titlebar
    }
}

/// The colours of a titlebar. Its background is the fill, under what was
/// sampled from the window if anything was. An unfocused window fades towards
/// its background.
pub open spec fn palette_of(
    theme: DecorationTheme,
    focused: bool,
    average: Option<[u8; 4]>,
    linear: Seq<u64>,
) -> Palette {
    let fill = titlebar_fill(theme, focused);
    let background = match average {
        Some(color) => pixels::over_color(color, fill),
        None => fill,
    };
    let foreground = pixels::foreground_on(background, linear);
    Palette {
        background,
        foreground,
        muted: if focused {
            foreground
        } else {
            pixels::mixed(foreground, background, 45)
        },
    }
}

/// The colours of a titlebar.
pub fn titlebar_palette(
    theme: &DecorationTheme,
    focused: bool,
    average: Option<[u8; 4]>,
    linear: &Vec<u64>,
) -> (r: Palette)
    requires
        pixels::is_light_table(linear@),
    ensures
        r == palette_of(*theme, focused, average, linear@),
{
    let fill: [u8; 4] = if focused {
        theme.active_titlebar
    } else {
        theme.inactive_titlebar
    };
    let background: [u8; 4] = match average {
        Some(color) => pixels::over(color, fill),
        None => fill,
    };
    let foreground: [u8; 4] = pixels::contrasting(background, linear);
    let muted: [u8; 4] = if focused {
        foreground
    } else {
        pixels::mix(foreground, background, 45)
    };
    Palette { background, foreground, muted }
}

/// How a button looks: its own colour under the pointer, a faint disc
/// otherwise.
pub open spec fn look_of(
    glyph: ButtonGlyph,
    own: [u8; 4],
    hovered: bool,
    focused: bool,
    palette: Palette,
    linear: Seq<u64>,
) -> ButtonLook {
    if hovered {
        ButtonLook { glyph, disc: own, glyph_color: pixels::foreground_on(own, linear) }
    } else {
        let alpha: u8 = if focused {
            0x1c
        } else {
            0x10
        };
        ButtonLook {
            glyph,
            disc: [palette.foreground[0], palette.foreground[1], palette.foreground[2], alpha],
            glyph_color: [palette.muted[0], palette.muted[1], palette.muted[2], 0xd8u8],
        }
    }
}

/// How a button looks.
pub fn button_look(
    glyph: ButtonGlyph,
    own: [u8; 4],
    hovered: bool,
    focused: bool,
    palette: &Palette,
    linear: &Vec<u64>,
) -> (r: ButtonLook)
    requires
        pixels::is_light_table(linear@),
    ensures
        r == look_of(glyph, own, hovered, focused, *palette, linear@),
{
    if hovered {
        ButtonLook { glyph, disc: own, glyph_color: pixels::contrasting(own, linear) }
    } else {
        let alpha: u8 = if focused {
            0x1c
        } else {
            0x10
        };
        ButtonLook {
            glyph,
            disc: pixels::with_alpha(palette.foreground, alpha),
            glyph_color: pixels::with_alpha(palette.muted, 0xd8),
        }
    }
}

/// The button at a slot, if it has a place.
pub open spec fn planned_button(slot: usize, area: Rect, look: ButtonLook) -> Seq<ButtonPlan> {
    if area.width > 0 && area.height > 0 {
        seq![ButtonPlan { slot, area, look }]
    } else {
        Seq::empty()
    }
}

/// What is drawn on the titlebar of a window.
pub open spec fn planned_titlebar(
    client: Rect,
    theme: DecorationTheme,
    focused: bool,
    hovered: Option<DecorationButton>,
    average: Option<[u8; 4]>,
    linear: Seq<u64>,
) -> TitlebarModel {
    let place = frame::frame_geometry(client, theme, true);
    let palette = palette_of(theme, focused, average, linear);
    TitlebarModel {
        buttons: planned_button(
            0,
            place.close_btn,
            look_of(
                ButtonGlyph::Close,
                theme.close_button,
                hovered == Some(DecorationButton::Close),
                focused,
                palette,
                linear,
            ),
        ) + planned_button(
            1,
            place.maximize_btn,
            look_of(
                ButtonGlyph::Maximize,
                theme.maximize_button,
                hovered == Some(DecorationButton::Maximize),
                focused,
                palette,
                linear,
            ),
        ) + planned_button(
            2,
            place.minimize_btn,
            look_of(
                ButtonGlyph::Minimize,
                theme.minimize_button,
                hovered == Some(DecorationButton::Minimize),
                focused,
                palette,
                linear,
            ),
        ),
        title: place.title,
        title_color: palette.muted,
        title_centered: theme.title_centered,
        icon: if theme.show_icon && place.icon.width > 0 {
            Some(place.icon)
        } else {
            None
        },
    }
}

fn push_button(buttons: &mut Vec<ButtonPlan>, slot: usize, area: Rect, look: ButtonLook)
    ensures
        final(buttons)@ == old(buttons)@ + planned_button(slot, area, look),
{
    let ghost before = buttons@;
    if area.width > 0 && area.height > 0 {
        buttons.push(ButtonPlan { slot, area, look });
    }
    assert(buttons@ =~= before + planned_button(slot, area, look));
}

/// What is drawn on the titlebar of a window whose content is at `client`.
pub fn titlebar_plan(
    client: Rect,
    theme: &DecorationTheme,
    focused: bool,
    hovered: Option<DecorationButton>,
    average: Option<[u8; 4]>,
    linear: &Vec<u64>,
) -> (r: TitlebarPlan)
    requires
        frame::frame_fits(client, *theme, true),
        pixels::is_light_table(linear@),
    ensures
        r@ == planned_titlebar(client, *theme, focused, hovered, average, linear@),
{
    let place = DecorationFrame::compute(client, theme, true);
    let palette = titlebar_palette(theme, focused, average, linear);
    let close = matches!(hovered, Some(DecorationButton::Close));
    let maximize = matches!(hovered, Some(DecorationButton::Maximize));
    let minimize = matches!(hovered, Some(DecorationButton::Minimize));
    let mut buttons: Vec<ButtonPlan> = Vec::new();
    push_button(
        &mut buttons,
        0,
        place.close_btn,
        button_look(ButtonGlyph::Close, theme.close_button, close, focused, &palette, linear),
    );
    push_button(
        &mut buttons,
        1,
        place.maximize_btn,
        button_look(
            ButtonGlyph::Maximize,
            theme.maximize_button,
            maximize,
            focused,
            &palette,
            linear,
        ),
    );
    push_button(
        &mut buttons,
        2,
        place.minimize_btn,
        button_look(
            ButtonGlyph::Minimize,
            theme.minimize_button,
            minimize,
            focused,
            &palette,
            linear,
        ),
    );
    let icon = if theme.show_icon && place.icon.width > 0 {
        Some(place.icon)
    } else {
        None
    };
    let r = TitlebarPlan {
        buttons,
        title: place.title,
        title_color: palette.muted,
        title_centered: theme.title_centered,
        icon,
    };
    assert(r.buttons@ =~= planned_titlebar(
        client,
        *theme,
        focused,
        hovered,
        average,
        linear@,
    ).buttons);
    r
}

/// How far the corners of a window's content are rounded off.
#[derive(Debug, Clone, Copy, PartialEq, Eq, Structural)]
pub struct ContentClip {
    pub top: i32,
    pub bottom: i32,
}

/// What is drawn for a window.
#[derive(Debug)]
pub struct WindowPlan {
    pub titlebar: Option<TitlebarPlan>,
    pub clip: Option<ContentClip>,
    pub frame: Option<FrameParams>,
}

/// The window's decoration is drawn.
pub open spec fn drawn_decorated(window: WindowFrame, shaders: bool) -> bool {
    window.has_border && shaders
}

/// The titlebar takes its colour from the window's content.
pub open spec fn samples(window: WindowFrame, theme: DecorationTheme, shaders: bool) -> bool {
    drawn_decorated(window, shaders) && window.has_titlebar && theme.titlebar_mode
        == TitlebarColorMode::Blend
}

/// Whether the window's content has to be sampled for its titlebar.
pub fn samples_titlebar(window: WindowFrame, theme: &DecorationTheme, shaders: bool) -> (r: bool)
    ensures
        r == samples(window, *theme, shaders),
{
    window.has_border && shaders && window.has_titlebar && theme.titlebar_mode
        == TitlebarColorMode::Blend
}

/// The radius inside of the border.
pub open spec fn inner_radius(radius: int, border: int) -> int {
    geometry::greatest(radius - border, 0)
}

/// How the frame of a window is drawn.
pub open spec fn frame_params(
    window: WindowFrame,
    theme: DecorationTheme,
    focused: bool,
    radius: i32,
) -> FrameParams {
    FrameParams {
        radius,
        border_width: theme.border_width,
        titlebar_height: if window.has_titlebar {
            theme.titlebar_height
        } else {
            0
        },
        border_color: if focused {
            theme.active_border
        } else {
            theme.inactive_border
        },
        titlebar_color: titlebar_fill(theme, focused),
    }
}

/// What is drawn for a window. `radius` is that of the frame's corners, and
/// `average` the colour that was sampled for the titlebar. Content that is not
/// decorated is not clipped, and below a titlebar its upper corners are not.
pub fn window_plan(
    window: WindowFrame,
    theme: &DecorationTheme,
    focused: bool,
    hovered: Option<DecorationButton>,
    shaders: bool,
    average: Option<[u8; 4]>,
    radius: i32,
    linear: &Vec<u64>,
) -> (r: WindowPlan)
    requires
        window.has_titlebar ==> frame::frame_fits(window.client, *theme, true),
        pixels::is_light_table(linear@),
        geometry::fits(radius - theme.border_width),
    ensures
        ({
            let decorated = drawn_decorated(window, shaders);
            let inner = inner_radius(radius as int, theme.border_width as int) as i32;
            &&& match r.titlebar {
                Some(titlebar) => decorated && window.has_titlebar && titlebar@
                    == planned_titlebar(
                    window.client,
                    *theme,
                    focused,
                    hovered,
                    average,
                    linear@,
                ),
                None => !(decorated && window.has_titlebar),
            }
            &&& r.clip == (if decorated {
                Some(
                    ContentClip {
                        top: if window.has_titlebar {
                            0
                        } else {
                            inner
                        },
                        bottom: inner,
                    },
                )
            } else {
                None
            })
            &&& r.frame == (if decorated {
                Some(frame_params(window, *theme, focused, radius))
            } else {
                None
            })
        }),
{
    let decorated = window.has_border && shaders;
    let titlebar = if decorated && window.has_titlebar {
        Some(titlebar_plan(window.client, theme, focused, hovered, average, linear))
    } else {
        None
    };
    if !decorated {
        return WindowPlan { titlebar, clip: None, frame: None };
    }
    let inner: i32 = geometry::max_i32(radius - theme.border_width, 0);
    let params = FrameParams {
        radius,
        border_width: theme.border_width,
        titlebar_height: if window.has_titlebar {
            theme.titlebar_height
        } else {
            0
        },
        border_color: if focused {
            theme.active_border
        } else {
            theme.inactive_border
        },
        titlebar_color: if focused {
            theme.active_titlebar
        } else {
            theme.inactive_titlebar
        },
    };
    let top: i32 = if window.has_titlebar {
        0
    } else {
        inner
    };
    WindowPlan {
        titlebar,
        clip: Some(ContentClip { top, bottom: inner }),
        frame: Some(params),
    }
}

} // verus!
