use blair::blur::{
    backdrop_area, region_bounds, window_blur, Blur, BlurObject, RegionRect, SurfaceBlur,
};
use blair::capture::{
    capture_part, copy_rows, encode_png, is_screenshot_of, ready_time, row_bytes, BufferLayout,
    CursorMode, PendingFrame, PngFault, ScreencopyFrameData,
};
use blair::clip::{titlebar_repaint, Corners, RoundedClip};
use blair::decoration::{
    draw_window, icon_key, prepare_strip, refresh_button, sample_depth, surface_roots, ButtonKey,
    DrawStep, Refresh, SurfaceTree, TitleKey, WindowDecoration,
};
use blair::geometry::{Location, Rect, Size};
use blair::input::WindowFrame;
use blair::model::WindowId;
use blair::pixels::{
    average_row, contrasting, luminance, mix, over, premultiply, with_alpha, FULL_LIGHT,
};
use blair::reals::{Real32, Real64};
use blair::scene::{
    backdrop_plan, button_look, cursor_plan, samples_titlebar, titlebar_palette, window_plan,
    ButtonGlyph, ContentClip, CursorPlan, FrameParams, PointerImage, SceneItem, SceneLayer,
};
use blair::theme::{DecorationButton, DecorationButtonSide, DecorationTheme, TitlebarColorMode};

fn rect(x: i32, y: i32, width: i32, height: i32) -> Rect {
    Rect {
        x,
        y,
        width,
        height,
    }
}

/// The linear light of each channel value.
fn linear() -> Vec<u64> {
    (0..=255u8)
        .map(|value| {
            let share = f64::from(value) / 255.0;
            let light = if share <= 0.04045 {
                share / 12.92
            } else {
                ((share + 0.055) / 1.055).powf(2.4)
            };
            (light * FULL_LIGHT as f64).round() as u64
        })
        .collect()
}

fn theme() -> DecorationTheme {
    DecorationTheme {
        titlebar_height: 30,
        border_width: 2,
        corner_radius: 12,
        titlebar_mode: TitlebarColorMode::Theme,
        active_titlebar: [250, 250, 250, 255],
        inactive_titlebar: [20, 20, 30, 255],
        active_border: [1, 2, 3, 255],
        inactive_border: [4, 5, 6, 255],
        close_button: [200, 0, 0, 255],
        maximize_button: [0, 200, 0, 255],
        minimize_button: [0, 0, 200, 255],
        button_layout: vec![DecorationButton::Minimize, DecorationButton::Close],
        button_side: DecorationButtonSide::Right,
        title_centered: true,
        show_icon: true,
        drag_margin: 0,
    }
}

fn decorated() -> WindowFrame {
    WindowFrame {
        client: rect(100, 100, 300, 200),
        frame: rect(98, 68, 304, 234),
        has_border: true,
        has_titlebar: true,
    }
}

#[test]
fn premultiply_scales_color_by_alpha() {
    assert_eq!(
        premultiply(&vec![255, 128, 0, 128]),
        vec![128, 64, 0, 128]
    );
}

#[test]
fn contrast_picks_dark_text_on_light_backgrounds() {
    let linear = linear();
    assert_eq!(contrasting([250, 250, 250, 255], &linear)[0], 0x1d);
    assert_eq!(contrasting([20, 20, 30, 255], &linear)[0], 0xf5);
}

#[test]
fn mix_interpolates_each_channel() {
    assert_eq!(mix([0, 0, 0, 255], [255, 255, 255, 255], 0), [0, 0, 0, 255]);
    assert_eq!(
        mix([0, 0, 0, 255], [255, 255, 255, 255], 100),
        [255, 255, 255, 255]
    );
    assert_eq!(mix([0, 0, 0, 0], [100, 200, 50, 255], 50), [50, 100, 25, 128]);
}

#[test]
fn mixing_by_percent_rounds_like_single_precision() {
    for a in 0..=255u8 {
        for b in 0..=255u8 {
            let exact = (f32::from(a) + (f32::from(b) - f32::from(a)) * 0.45).round() as u8;
            assert_eq!(mix([a; 4], [b; 4], 45), [exact; 4]);
        }
    }
}

#[test]
fn contrast_follows_the_luminance() {
    let linear = linear();
    for gray in 0..=255u8 {
        let light = luminance([gray; 4], &linear) as f64 / (10_000.0 * FULL_LIGHT as f64);
        let dark = (light + 0.05) / 0.05 > 1.05 / (light + 0.05);
        let expected = if dark { 0x1d } else { 0xf5 };
        assert_eq!(contrasting([gray; 4], &linear)[0], expected);
    }
    assert_eq!(luminance([255; 4], &linear), 10_000 * FULL_LIGHT);
}

#[test]
fn colors_are_composited() {
    assert_eq!(over([10, 20, 30, 255], [90, 90, 90, 255]), [10, 20, 30, 255]);
    assert_eq!(over([0, 0, 0, 0], [90, 80, 70, 255]), [90, 80, 70, 255]);
    assert_eq!(over([64, 0, 0, 128], [100, 100, 100, 255]), [114, 50, 50, 255]);
    assert_eq!(with_alpha([1, 2, 3, 4], 9), [1, 2, 3, 9]);
    assert_eq!(average_row(&vec![10, 0, 0, 255, 20, 1, 0, 254]), [15, 0, 0, 254]);
    assert_eq!(average_row(&Vec::new()), [0; 4]);
    assert_eq!(premultiply(&vec![9, 9, 9, 255, 1, 2]), vec![9, 9, 9, 255]);
}

#[test]
fn clip_only_affects_geometry_touching_corners_or_edges() {
    let clip = RoundedClip {
        rect: rect(100, 100, 400, 300),
        radii: Corners {
            top_left: 0,
            top_right: 0,
            bottom_right: 12,
            bottom_left: 12,
        },
        viewport: Size { w: 1920, h: 1080 },
    };
    assert!(!clip.affects(rect(100, 100, 50, 50)));
    assert!(clip.affects(rect(450, 350, 50, 50)));
    assert!(clip.affects(rect(90, 150, 50, 50)));
    assert!(!clip.affects(rect(150, 150, 100, 100)));
}

#[test]
fn opaque_regions_leave_the_corners_out() {
    let clip = RoundedClip {
        rect: rect(10, 10, 20, 20),
        radii: Corners {
            top_left: 4,
            top_right: 0,
            bottom_right: 0,
            bottom_left: 0,
        },
        viewport: Size { w: 100, h: 100 },
    };
    let area = rect(10, 10, 30, 20);
    let regions = clip.opaque_regions(area, &vec![rect(0, 0, 30, 10)]);
    let holds = |x: i32, y: i32| {
        regions
            .iter()
            .any(|r| r.x <= x && x < r.x + r.width && r.y <= y && y < r.y + r.height)
    };
    for x in 0..30 {
        for y in 0..20 {
            let expected = x < 20 && y < 10 && !(x < 4 && y < 4);
            assert_eq!(holds(x, y), expected);
        }
    }
    let away = rect(200, 200, 5, 5);
    assert!(clip.opaque_regions(away, &vec![rect(0, 0, 5, 5)]).is_empty());
}

#[test]
fn only_damage_on_the_titlebar_is_repainted() {
    let frame = rect(50, 60, 200, 100);
    let repaint = titlebar_repaint(frame, 2, 30, &vec![rect(0, 0, 10, 10), rect(0, 90, 5, 5)]);
    let repaint = repaint.unwrap();
    assert_eq!(repaint.area, rect(52, 62, 196, 30));
    assert_eq!(repaint.damage, vec![rect(0, 0, 8, 8)]);
    assert!(titlebar_repaint(frame, 2, 0, &vec![rect(0, 0, 10, 10)]).is_none());
    assert!(titlebar_repaint(frame, 2, 30, &vec![rect(0, 90, 5, 5)]).is_none());
}

#[test]
fn captures_are_cut_to_the_output() {
    let full = Size { w: 100, h: 50 };
    assert_eq!(capture_part(full, None), Some(rect(0, 0, 100, 50)));
    assert_eq!(
        capture_part(full, Some(rect(90, 40, 30, 30))),
        Some(rect(90, 40, 10, 10))
    );
    assert_eq!(capture_part(full, Some(rect(100, 0, 10, 10))), None);
    assert_eq!(capture_part(full, Some(rect(10, 10, 0, 5))), None);
    assert_eq!(row_bytes(100), 400);
}

#[test]
fn a_frame_is_copied_once() {
    let mut data = ScreencopyFrameData::default();
    assert!(data.copy(false).is_none());
    data.prepare(PendingFrame {
        output: 3,
        region: rect(0, 0, 2, 2),
        overlay_cursor: true,
    });
    let request = data.copy(true).unwrap();
    assert!(request.with_damage && request.output == 3);
    assert_eq!(request.cursor_mode(), CursorMode::Composited);
    assert!(data.copy(true).is_none());
}

#[test]
fn rows_are_laid_into_the_buffer() {
    let pixels: Vec<u8> = (1..=16).collect();
    let layout = BufferLayout {
        width: 2,
        height: 2,
        stride: 10,
        offset: 3,
    };
    let mut memory = vec![0u8; 24];
    assert!(copy_rows(&pixels, 2, 2, layout, &mut memory));
    assert_eq!(&memory[..3], &[0, 0, 0]);
    assert_eq!(&memory[3..11], &[1, 2, 3, 4, 5, 6, 7, 8]);
    assert_eq!(&memory[11..13], &[0, 0]);
    assert_eq!(&memory[13..21], &[9, 10, 11, 12, 13, 14, 15, 16]);
    let mut small = vec![7u8; 22];
    assert!(!copy_rows(&pixels, 2, 2, layout, &mut small));
    assert_eq!(small, vec![7u8; 22]);
    assert_eq!(ready_time(0x1_0000_0005, 9), (1, 5, 9));
}

#[test]
fn screenshots_become_files() {
    let pixels = vec![255, 0, 0, 255, 0, 255, 0, 128];
    let file = encode_png(2, 1, &pixels).unwrap();
    let decoded = image::load_from_memory_with_format(&file, image::ImageFormat::Png)
        .unwrap()
        .into_rgba8();
    assert_eq!(decoded.dimensions(), (2, 1));
    assert_eq!(decoded.into_raw(), pixels);
    assert_eq!(encode_png(0, 1, &pixels), Err(PngFault::Header));
    assert_eq!(encode_png(3, 1, &pixels), Err(PngFault::Data));
    assert!(is_screenshot_of(&None, "DP-1"));
    assert!(!is_screenshot_of(&Some("HDMI-A-1".to_owned()), "DP-1"));
}

#[test]
fn blur_takes_effect_on_commit() {
    let mut surface = SurfaceBlur::new();
    let mut object = BlurObject::new();
    object.commit(&mut surface);
    assert_eq!(surface.active, Some(Blur { region: None }));
    let region = vec![
        RegionRect {
            added: true,
            rect: rect(0, 0, 10, 10),
        },
        RegionRect {
            added: false,
            rect: rect(-50, 0, 10, 10),
        },
        RegionRect {
            added: true,
            rect: rect(20, 5, 10, 10),
        },
    ];
    assert_eq!(region_bounds(&region), rect(0, 0, 30, 15));
    assert_eq!(region_bounds(&Vec::new()), rect(0, 0, 0, 0));
    object.set_region(&Some(region));
    assert_eq!(surface.active, Some(Blur { region: None }));
    object.commit(&mut surface);
    let client = rect(100, 100, 300, 200);
    let inset = Location { x: 5, y: 6 };
    let output = Location { x: 10, y: 20 };
    assert_eq!(
        window_blur(true, surface, client, inset, output),
        Some(rect(85, 74, 30, 15))
    );
    assert_eq!(window_blur(false, surface, client, inset, output), None);
    surface.unset();
    assert_eq!(window_blur(true, surface, client, inset, output), None);
}

#[test]
fn nothing_is_blurred_outside_of_the_output() {
    let viewport = Size { w: 100, h: 100 };
    assert_eq!(
        backdrop_area(true, true, rect(90, 90, 20, 20), viewport),
        Some(rect(90, 90, 10, 10))
    );
    assert_eq!(
        backdrop_area(true, true, rect(100, 0, 20, 20), viewport),
        None
    );
    assert_eq!(
        backdrop_area(true, false, rect(0, 0, 20, 20), viewport),
        None
    );
    assert_eq!(
        backdrop_area(false, true, rect(0, 0, 20, 20), viewport),
        None
    );
}

#[test]
fn the_host_draws_named_pointers() {
    let named = PointerImage::Named("text".to_owned());
    assert_eq!(
        cursor_plan(CursorMode::Composited, true, &named),
        CursorPlan::Named("text".to_owned())
    );
    assert_eq!(
        cursor_plan(CursorMode::HostNamed, true, &named),
        CursorPlan::Nothing
    );
    assert_eq!(
        cursor_plan(CursorMode::HostNamed, true, &PointerImage::Surface(true)),
        CursorPlan::Surface
    );
    assert_eq!(
        cursor_plan(CursorMode::Composited, true, &PointerImage::Surface(false)),
        CursorPlan::Named("default".to_owned())
    );
    assert_eq!(
        cursor_plan(CursorMode::Composited, false, &named),
        CursorPlan::Nothing
    );
    assert_eq!(
        cursor_plan(CursorMode::Hidden, true, &named),
        CursorPlan::Nothing
    );
}

#[test]
fn backdrops_hold_what_is_behind() {
    let windows = vec![WindowId(1), WindowId(2), WindowId(3)];
    assert_eq!(
        backdrop_plan(&windows, 2),
        vec![
            SceneItem::Window(WindowId(2)),
            SceneItem::Window(WindowId(1)),
            SceneItem::Layer(SceneLayer::Bottom),
            SceneItem::Layer(SceneLayer::Background),
        ]
    );
}

#[test]
fn titlebars_contrast_with_their_background() {
    let linear = linear();
    let focused = titlebar_palette(&theme(), true, None, &linear);
    assert_eq!(focused.background, [250, 250, 250, 255]);
    assert_eq!(focused.foreground, [0x1d, 0x1d, 0x1f, 0xff]);
    assert_eq!(focused.muted, focused.foreground);
    let unfocused = titlebar_palette(&theme(), false, None, &linear);
    assert_eq!(unfocused.foreground, [0xf5, 0xf5, 0xf7, 0xff]);
    assert_eq!(
        unfocused.muted,
        mix(unfocused.foreground, unfocused.background, 45)
    );
    let sampled = titlebar_palette(&theme(), true, Some([0, 0, 0, 255]), &linear);
    assert_eq!(sampled.background, [0, 0, 0, 255]);
    let hovered = button_look(
        ButtonGlyph::Close,
        [200, 0, 0, 255],
        true,
        true,
        &focused,
        &linear,
    );
    assert_eq!(hovered.disc, [200, 0, 0, 255]);
    let idle = button_look(
        ButtonGlyph::Close,
        [200, 0, 0, 255],
        false,
        false,
        &focused,
        &linear,
    );
    assert_eq!(idle.disc[3], 0x10);
    assert_eq!(idle.glyph_color[3], 0xd8);
}

#[test]
fn a_decorated_window_is_clipped_below_its_titlebar() {
    let linear = linear();
    let plan = window_plan(
        decorated(),
        &theme(),
        true,
        Some(DecorationButton::Close),
        true,
        None,
        12,
        &linear,
    );
    let titlebar = plan.titlebar.unwrap();
    assert_eq!(titlebar.buttons.len(), 2);
    assert_eq!((titlebar.buttons[0].slot, titlebar.buttons[1].slot), (0, 2));
    assert_eq!(titlebar.buttons[0].look.disc, [200, 0, 0, 255]);
    assert_eq!(plan.clip, Some(ContentClip { top: 0, bottom: 10 }));
    assert_eq!(
        plan.frame,
        Some(FrameParams {
            radius: 12,
            border_width: 2,
            titlebar_height: 30,
            border_color: [1, 2, 3, 255],
            titlebar_color: [250, 250, 250, 255],
        })
    );
    let bare = window_plan(
        decorated(),
        &theme(),
        true,
        None,
        false,
        None,
        12,
        &linear,
    );
    assert!(bare.titlebar.is_none() && bare.clip.is_none() && bare.frame.is_none());
    let mut blended = theme();
    blended.titlebar_mode = TitlebarColorMode::Blend;
    assert!(samples_titlebar(decorated(), &blended, true));
    assert!(!samples_titlebar(decorated(), &theme(), true));
    assert!(!samples_titlebar(decorated(), &blended, false));
}

#[test]
fn windows_can_be_drawn_by_hand() {
    let steps = draw_window(decorated(), &theme(), false, true);
    assert!(matches!(steps[0], DrawStep::BeginClip(12)));
    assert!(matches!(steps[1], DrawStep::Content));
    assert!(matches!(steps[2], DrawStep::Fill(_, [20, 20, 30, 255])));
    assert!(matches!(
        steps[steps.len() - 2],
        DrawStep::Ring(12, 10, [4, 5, 6, 255])
    ));
    assert!(matches!(steps[steps.len() - 1], DrawStep::EndClip));
    let flat = draw_window(decorated(), &theme(), false, false);
    assert!(matches!(flat[flat.len() - 1], DrawStep::Bars(_)));
}

#[test]
fn unchanged_decorations_are_kept() {
    let mut decoration = WindowDecoration::default();
    let params = FrameParams {
        radius: 12,
        border_width: 2,
        titlebar_height: 30,
        border_color: [1; 4],
        titlebar_color: [2; 4],
    };
    assert_eq!(decoration.damage_titlebar(), None);
    assert!(decoration.update(rect(0, 0, 100, 80), params));
    assert!(!decoration.update(rect(0, 0, 100, 80), params));
    assert!(decoration.update(rect(1, 0, 100, 80), params));
    assert_eq!(decoration.damage_titlebar(), Some(rect(2, 2, 96, 30)));

    let title = |text: &str| TitleKey {
        title: text.to_owned(),
        size: Real32 {
            bits: 12.0f32.to_bits(),
        },
        color: [3; 4],
        max_width: 100,
        height: 20,
        centered: false,
        buffer_scale: 1,
    };
    assert_eq!(decoration.update_title(title("a")), Refresh::Draw);
    assert_eq!(decoration.update_title(title("a")), Refresh::Keep);
    assert_eq!(decoration.update_title(title("b")), Refresh::Draw);

    let key = icon_key(&Some("foot".to_owned()), 18, 2);
    assert_eq!(key, "foot|18|2");
    assert_eq!(icon_key(&None, 18, 2), "|18|2");
    assert_eq!(decoration.update_icon(key.clone(), false), Refresh::Clear);
    assert_eq!(decoration.update_icon(key, true), Refresh::Keep);
    assert_eq!(
        decoration.update_icon("bar|18|2".to_owned(), true),
        Refresh::Draw
    );

    let look = button_look(
        ButtonGlyph::Minimize,
        [1; 4],
        true,
        true,
        &titlebar_palette(&theme(), true, None, &linear()),
        &linear(),
    );
    let button = |size: i32| ButtonKey {
        look,
        size,
        buffer_scale: 1,
    };
    assert_eq!(refresh_button(&mut decoration.close, button(20)), Refresh::Draw);
    assert_eq!(refresh_button(&mut decoration.close, button(20)), Refresh::Keep);
    assert_eq!(refresh_button(&mut decoration.close, button(0)), Refresh::Clear);
}

#[test]
fn a_strip_is_kept_while_its_width_and_scale_last() {
    let scale = Real64 {
        bits: 1.5f64.to_bits(),
    };
    let mut strip = None;
    assert!(prepare_strip(&mut strip, Size { w: 300, h: 200 }, scale));
    let kept = strip.as_mut().unwrap();
    assert_eq!(kept.age(), 0);
    assert!(kept.needs_average(false));
    kept.drawn(true, &Some(vec![10, 20, 30, 40, 20, 40, 60, 80]));
    assert_eq!(kept.average, Some([15, 30, 45, 60]));
    assert_eq!(kept.age(), 1);
    assert!(!kept.needs_average(false));
    assert!(!prepare_strip(&mut strip, Size { w: 300, h: 100 }, scale));
    assert!(prepare_strip(&mut strip, Size { w: 301, h: 100 }, scale));
    assert!(!prepare_strip(&mut strip, Size { w: 0, h: 100 }, scale));
    assert!(strip.is_none());
    assert_eq!(sample_depth(3, 2), 1);
    assert_eq!(sample_depth(3, 200), 3);
}

#[test]
fn every_surface_gets_its_callback() {
    let tree = |surface: u64, popups: &[u64]| SurfaceTree {
        surface,
        popups: popups.to_vec(),
    };
    assert_eq!(
        surface_roots(
            &vec![tree(1, &[2, 3]), tree(4, &[])],
            &vec![tree(5, &[6])],
            None,
            Some(7),
        ),
        vec![1, 2, 3, 4, 5, 6, 7]
    );
}
