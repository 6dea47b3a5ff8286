use blair::geometry::{intersection, merge, overlaps, Rect, Size};
use blair::layout::{center_in, master_stack, tile_gap, tiled_area};
use blair::reals::{share_of, Real64};
use blair::stats::{FrameTimer, RenderStats, REPORT_INTERVAL};

fn area() -> Rect {
    Rect {
        x: 10,
        y: 20,
        width: 1000,
        height: 600,
    }
}

fn bits_of(value: f64) -> Real64 {
    Real64 {
        bits: value.to_bits(),
    }
}

#[test]
fn a_single_window_fills_the_area() {
    assert_eq!(master_stack(area(), 1, 8, bits_of(0.5)), vec![area()]);
}

#[test]
fn the_master_keeps_its_share_and_the_stack_splits_the_rest() {
    let rectangles = master_stack(area(), 3, 8, bits_of(0.5));
    assert_eq!(rectangles.len(), 3);
    assert_eq!(
        rectangles[0],
        Rect {
            x: 10,
            y: 20,
            width: 496,
            height: 600
        }
    );
    assert_eq!((rectangles[1].x, rectangles[1].y), (514, 20));
    assert_eq!((rectangles[1].width, rectangles[1].height), (496, 296));
    assert_eq!((rectangles[2].x, rectangles[2].y), (514, 324));
    // The last tile absorbs the rounding so the stack ends at the area edge.
    assert_eq!(rectangles[2].y + rectangles[2].height, 620);
}

#[test]
fn extreme_ratios_are_clamped_to_a_usable_split() {
    let rectangles = master_stack(area(), 2, 0, bits_of(5.0));
    assert!(rectangles[0].width < 1000);
    assert!(rectangles[1].width >= 1);
    let narrow = master_stack(
        Rect {
            x: 0,
            y: 0,
            width: 4,
            height: 4,
        },
        3,
        8,
        bits_of(0.5),
    );
    assert!(narrow.iter().all(|rect| rect.width >= 1 && rect.height >= 1));
}

#[test]
fn a_share_is_rounded_like_the_product_of_doubles() {
    assert_eq!(share_of(992, bits_of(0.5)), 496);
    for length in [0u32, 1, 7, 333, 1919, 65_535, 1_000_003] {
        for ratio in [0.1, 0.3, 0.55, 0.6180339887498949, 0.7, 0.9] {
            let expected = (f64::from(length) * ratio).round() as u32;
            assert_eq!(share_of(length, bits_of(ratio)), expected);
        }
    }
}

#[test]
fn without_windows_the_whole_area_is_a_tile() {
    assert_eq!(master_stack(area(), 0, 8, bits_of(0.5)), vec![area()]);
}

#[test]
fn padding_and_gaps_shrink_with_the_area() {
    assert_eq!(
        tiled_area(area(), 16),
        Rect {
            x: 26,
            y: 36,
            width: 968,
            height: 568
        }
    );
    assert_eq!(tile_gap(area(), 8), 8);
}

#[test]
fn windows_are_centered() {
    let place = center_in(area(), Size { w: 200, h: 100 }, 0);
    assert_eq!((place.x, place.y), (410, 270));
}

#[test]
fn rectangles_meet_where_both_are() {
    let left = Rect {
        x: 0,
        y: 0,
        width: 10,
        height: 10,
    };
    let right = Rect {
        x: 6,
        y: 4,
        width: 10,
        height: 10,
    };
    let beside = Rect {
        x: 10,
        y: 0,
        width: 5,
        height: 5,
    };
    assert_eq!(
        intersection(left, right),
        Some(Rect {
            x: 6,
            y: 4,
            width: 4,
            height: 6
        })
    );
    assert!(!overlaps(left, beside));
    assert_eq!(intersection(left, beside), None);
    assert_eq!(
        merge(left, right),
        Rect {
            x: 0,
            y: 0,
            width: 16,
            height: 14
        }
    );
}

const MILLISECOND: u64 = 1_000_000;

#[test]
fn summarizes_a_report_window() {
    let now = 100 * REPORT_INTERVAL;
    let mut timer = FrameTimer::new("test", now);
    timer.window_start = now - REPORT_INTERVAL;
    timer.record_frame(MILLISECOND, 4 * MILLISECOND, true);
    timer.record_frame(3 * MILLISECOND, 8 * MILLISECOND, true);
    timer.record_frame(0, 0, false);
    timer.record_presented(now);
    timer.record_presented(now + 16 * MILLISECOND);
    let mut stats = RenderStats::default();
    timer.maybe_report(&mut stats, now);
    assert_eq!(stats.frames, 2);
    assert_eq!(stats.empty_frames, 1);
    let milliseconds = |total: f64| total / MILLISECOND as f64;
    assert!((milliseconds(stats.render_max as f64) - 8.0).abs() < 1e-6);
    let average = stats.render_total as f64 / f64::from(stats.attempts);
    assert!((milliseconds(average) - 4.0).abs() < 1e-6);
    let presented = stats.present_total as f64 / f64::from(stats.presents);
    assert!((milliseconds(presented) - 16.0).abs() < 1e-6);
    assert!(f64::from(stats.interval_frames) / (stats.interval as f64) > 0.0);
    assert_eq!(timer.frames, 0);
}

#[test]
fn does_not_report_before_the_interval() {
    let mut timer = FrameTimer::new("test", 0);
    timer.record_frame(MILLISECOND, MILLISECOND, true);
    let mut stats = RenderStats::default();
    timer.maybe_report(&mut stats, REPORT_INTERVAL - 1);
    assert_eq!(stats, RenderStats::default());
    assert_eq!(timer.frames, 1);
}

#[test]
fn a_reset_forgets_the_last_presentation() {
    let mut timer = FrameTimer::new("test", 0);
    timer.record_presented(MILLISECOND);
    timer.reset_presentation();
    timer.record_presented(900 * MILLISECOND);
    assert_eq!(timer.presents, 0);
}
