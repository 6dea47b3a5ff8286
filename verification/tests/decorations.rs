use blair::frame::{DecorationFrame, ICON_PADDING};
use blair::geometry::{Location, Point, Rect, Size};
use blair::grabs::{
    quadrant_edges, resize_edges, resized, ResizeAnchor, ResizeEdges, ResizeGrab, XdgResizeEdge,
};
use blair::hit_test::{hit_test_frame, DecorationPart};
use blair::theme::{DecorationButton, DecorationButtonSide, DecorationTheme, TitlebarColorMode};

const CLIENT: Rect = Rect {
    x: 100,
    y: 100,
    width: 300,
    height: 200,
};

fn bare_theme(border_width: i32) -> DecorationTheme {
    DecorationTheme {
        titlebar_height: 30,
        border_width,
        corner_radius: 0,
        titlebar_mode: TitlebarColorMode::Theme,
        active_titlebar: [0; 4],
        inactive_titlebar: [0; 4],
        active_border: [0; 4],
        inactive_border: [0; 4],
        close_button: [0; 4],
        maximize_button: [0; 4],
        minimize_button: [0; 4],
        button_layout: vec![
            DecorationButton::Minimize,
            DecorationButton::Maximize,
            DecorationButton::Close,
        ],
        button_side: DecorationButtonSide::Right,
        title_centered: false,
        show_icon: true,
        drag_margin: 0,
    }
}

fn hit_theme(drag_margin: i32) -> DecorationTheme {
    DecorationTheme {
        button_layout: vec![DecorationButton::Close],
        show_icon: false,
        drag_margin,
        ..bare_theme(4)
    }
}

/// A coordinate as positions keep it.
fn coordinate(value: f64) -> i64 {
    let doubled = value * 2.0;
    let whole = doubled.floor();
    2 * whole as i64 + i64::from(doubled != whole)
}

fn point(x: f64, y: f64) -> Point {
    Point {
        x: coordinate(x),
        y: coordinate(y),
    }
}

#[test]
fn frame_wraps_the_titlebar_as_well_as_the_client() {
    let geom = DecorationFrame::compute(CLIENT, &bare_theme(4), true);

    assert_eq!(geom.frame.y, CLIENT.y - 30 - 4);
    assert_eq!(geom.frame.x, CLIENT.x - 4);
    assert_eq!(geom.frame.width, CLIENT.width + 8);
    assert_eq!(geom.frame.height, CLIENT.height + 30 + 8);
    assert_eq!(geom.titlebar.x, CLIENT.x);
    assert_eq!(geom.titlebar.width, CLIENT.width);
}

#[test]
fn zero_border_width_keeps_the_titlebar() {
    let geom = DecorationFrame::compute(CLIENT, &bare_theme(0), true);

    assert_eq!(geom.frame.y, CLIENT.y - 30);
    assert_eq!(geom.titlebar.height, 30);
}

#[test]
fn without_a_titlebar_the_frame_only_grows_by_the_border() {
    let geom = DecorationFrame::compute(CLIENT, &bare_theme(4), false);

    assert_eq!(geom.titlebar.height, 0);
    assert_eq!(geom.frame.y, CLIENT.y - 4);
    assert_eq!(geom.frame.height, CLIENT.height + 8);
}

#[test]
fn buttons_sit_inside_the_titlebar_on_the_configured_side() {
    let geom = DecorationFrame::compute(CLIENT, &bare_theme(4), true);
    let titlebar_end = geom.titlebar.x + geom.titlebar.width;

    assert!(geom.close_btn.x + geom.close_btn.width <= titlebar_end);
    assert!(geom.minimize_btn.x < geom.maximize_btn.x);
    assert!(geom.maximize_btn.x < geom.close_btn.x);
    assert_eq!(geom.close_btn.y, CLIENT.y - 30 + 4);
}

#[test]
fn icon_sits_at_the_very_left_regardless_of_button_side() {
    let mut theme = bare_theme(4);
    theme.button_side = DecorationButtonSide::Left;
    let geom = DecorationFrame::compute(CLIENT, &theme, true);

    assert_eq!(geom.icon.x, geom.titlebar.x + ICON_PADDING);
    assert!(geom.title.x > geom.minimize_btn.x + geom.minimize_btn.width);
}

#[test]
fn left_side_buttons_never_overlap_the_icon() {
    let mut theme = bare_theme(4);
    theme.button_side = DecorationButtonSide::Left;
    let geom = DecorationFrame::compute(CLIENT, &theme, true);

    assert!(geom.minimize_btn.x >= geom.icon.x + geom.icon.width);
}

#[test]
fn hiding_the_icon_gives_its_space_to_the_title() {
    let mut theme = bare_theme(4);
    theme.show_icon = false;
    let geom = DecorationFrame::compute(CLIENT, &theme, true);

    assert_eq!(geom.icon, Rect::default());
    assert!(geom.title.x < geom.titlebar.x + ICON_PADDING * 2);
}

#[test]
fn drag_margin_shrinks_the_draggable_region_symmetrically() {
    let mut theme = bare_theme(4);
    theme.drag_margin = 10;
    let geom = DecorationFrame::compute(CLIENT, &theme, true);

    assert_eq!(geom.drag.x, geom.titlebar.x + 10);
    assert_eq!(geom.drag.width, geom.titlebar.width - 20);
}

#[test]
fn titlebar_center_is_draggable_without_a_margin() {
    let theme = hit_theme(0);
    let center = point(
        (CLIENT.x + CLIENT.width / 2) as f64,
        (CLIENT.y - 15) as f64,
    );
    assert_eq!(
        hit_test_frame(CLIENT, center, &theme, true),
        DecorationPart::Titlebar
    );
}

#[test]
fn a_drag_margin_excludes_the_titlebar_edges_from_dragging() {
    let theme = hit_theme(40);
    let near_left_edge = point((CLIENT.x + 5) as f64, (CLIENT.y - 15) as f64);
    assert_eq!(
        hit_test_frame(CLIENT, near_left_edge, &theme, true),
        DecorationPart::Nothing
    );
    let center = point(
        (CLIENT.x + CLIENT.width / 2) as f64,
        (CLIENT.y - 15) as f64,
    );
    assert_eq!(
        hit_test_frame(CLIENT, center, &theme, true),
        DecorationPart::Titlebar
    );
}

#[test]
fn corners_win_over_edges() {
    let theme = hit_theme(0);
    let frame = DecorationFrame::compute(CLIENT, &theme, true).frame;
    let corner = point(frame.x as f64 + 0.5, frame.y as f64 + 0.5);
    assert_eq!(
        hit_test_frame(CLIENT, corner, &theme, true),
        DecorationPart::ResizeTopLeft
    );
    let inside = point(250.0, 200.0);
    assert_eq!(
        hit_test_frame(CLIENT, inside, &theme, true),
        DecorationPart::Client
    );
    assert_eq!(
        hit_test_frame(CLIENT, point(0.0, 0.0), &theme, true),
        DecorationPart::Nothing
    );
}

#[test]
fn anchor_keeps_opposite_edges_fixed() {
    let anchor = ResizeAnchor {
        edges: ResizeEdges {
            top: true,
            bottom: false,
            left: true,
            right: false,
        },
        initial: Rect {
            x: 100,
            y: 100,
            width: 400,
            height: 300,
        },
    };
    assert_eq!(
        anchor.location_for(Size { w: 350, h: 320 }),
        Location { x: 150, y: 80 }
    );
    let bottom_right = ResizeAnchor {
        edges: ResizeEdges {
            top: false,
            bottom: true,
            left: false,
            right: true,
        },
        ..anchor
    };
    assert_eq!(
        bottom_right.location_for(Size { w: 10, h: 10 }),
        Location { x: 100, y: 100 }
    );
}

#[test]
fn xdg_edges_map_to_flags() {
    let edges = ResizeEdges::from_xdg(XdgResizeEdge::BottomLeft);
    assert!(edges.bottom && edges.left && !edges.top && !edges.right);
    assert!(ResizeEdges::from_xdg(XdgResizeEdge::NoEdge).is_empty());
}

#[test]
fn decoration_parts_map_to_resize_edges() {
    let edges = resize_edges(DecorationPart::ResizeTopRight).unwrap();
    assert!(edges.top && edges.right && !edges.bottom && !edges.left);
    assert!(resize_edges(DecorationPart::Titlebar).is_none());
    assert!(resize_edges(DecorationPart::Client).is_none());
}

#[test]
fn resizing_respects_the_limits_of_the_client() {
    let anchor = ResizeAnchor {
        edges: ResizeEdges {
            top: false,
            bottom: true,
            left: false,
            right: true,
        },
        initial: CLIENT,
    };
    let min = Size { w: 250, h: 150 };
    let max = Size { w: 320, h: 0 };
    let size = resized(&anchor, Location { x: 500, y: -500 }, min, max);
    assert_eq!(size, Size { w: 320, h: 150 });
    let mut grab = ResizeGrab {
        anchor,
        last_size: Size { w: 300, h: 200 },
    };
    assert_eq!(
        grab.motion(Location { x: 10, y: 20 }, min, max),
        Some(Size { w: 310, h: 220 })
    );
    assert_eq!(grab.motion(Location { x: 10, y: 20 }, min, max), None);
}

#[test]
fn the_nearest_corner_is_resized() {
    let edges = quadrant_edges(CLIENT, point(110.0, 290.0));
    assert!(edges.left && edges.bottom && !edges.top && !edges.right);
    let edges = quadrant_edges(CLIENT, point(390.0, 110.0));
    assert!(edges.right && edges.top && !edges.left && !edges.bottom);
}

#[test]
fn contains_treats_the_far_edge_as_exclusive() {
    let rect = Rect {
        x: 10,
        y: 10,
        width: 20,
        height: 20,
    };
    assert!(rect.contains(point(10.0, 10.0)));
    assert!(rect.contains(point(29.9, 29.9)));
    assert!(!rect.contains(point(30.0, 10.0)));
    assert!(!rect.contains(point(9.9, 10.0)));
}

#[test]
fn anchors_know_which_sizes_they_can_place() {
    let edges = ResizeEdges {
        top: true,
        bottom: false,
        left: false,
        right: true,
    };
    let initial = Rect {
        x: i32::MIN,
        y: i32::MIN,
        width: 10,
        height: 10,
    };
    let anchor = ResizeAnchor { edges, initial };
    assert!(anchor.reaches(Size { w: 500, h: 10 }));
    assert!(!anchor.reaches(Size { w: 10, h: 11 }));
    assert_eq!(
        anchor.location_for(Size { w: 500, h: 4 }),
        Location { x: i32::MIN, y: i32::MIN + 6 }
    );
}
