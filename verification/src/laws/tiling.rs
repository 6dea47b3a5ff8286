//! What the tiled layout is for, in plain numbers.

use vstd::prelude::*;

use crate::geometry::Rect;
use crate::geometry;
use crate::layout;
use crate::reals::Real64;
use crate::reals;

verus! {

/// The digits of a ratio between a tenth and nine tenths, as a whole number.
pub open spec fn digits(ratio: Real64) -> int {
    ratio.bits % 0x10_0000_0000_0000 + 0x10_0000_0000_0000
}

/// What the digits of such a ratio are divided by.
pub open spec fn scale(ratio: Real64) -> int {
    let exponent = ratio.bits / 0x10_0000_0000_0000;
    if exponent == 1022 {
        0x20_0000_0000_0000
    } else if exponent == 1021 {
        0x40_0000_0000_0000
    } else if exponent == 1020 {
        0x80_0000_0000_0000
    } else {
        0x100_0000_0000_0000
    }
}

/// The master column gets its configured share of what the gap leaves, to
/// within half a pixel, and the stack gets the rest.
pub proof fn the_master_gets_its_share(
    area: Rect,
    windows: int,
    gap: int,
    ratio: Real64,
    index: int,
)
    requires
        1 <= index < windows,
        10 <= area.width - gap <= 0x7fff_ffff,
        0x3fb9_9999_9999_999a <= ratio.bits <= 0x3fec_cccc_cccc_cccd,
    ensures
        ({
            let available = area.width - gap;
            let master = layout::tile(area, windows, gap, ratio, 0).width;
            let stack = layout::tile(area, windows, gap, ratio, index).width;
            &&& master + stack == available
            &&& 2 * (master * scale(ratio)) <= 2 * (available * digits(ratio)) + scale(ratio)
                + 0x8000_0000
            &&& 2 * (master * scale(ratio)) >= 2 * (available * digits(ratio)) - scale(ratio)
                - 0x8000_0000
        }),
{
    let n = digits(ratio);
    let d = scale(ratio);
    let available = area.width - gap;
    let exponent = ratio.bits / 0x10_0000_0000_0000;
    assert(1019 <= exponent <= 1022);
    let s = reals::share(available as nat, ratio) as int;
    reals::a_share_is_within_half_a_unit(available as nat, ratio, n as nat, d as nat);
    assert(d <= 10 * n && 10 * n <= 9 * d + 8);
    assert(available * n >= d) by (nonlinear_arith)
        requires
            available >= 10,
            10 * n >= d,
            n >= 0,
    ;
    assert(s >= 1) by (nonlinear_arith)
        requires
            2 * (s * d) >= 2 * (available * n) - d - 0x8000_0000,
            available * n >= d,
            d >= 0x20_0000_0000_0000,
    ;
    assert(10 * (available * n) <= available * (9 * d + 8)) by (nonlinear_arith)
        requires
            10 * n <= 9 * d + 8,
            available >= 0,
    ;
    if s >= available {
        assert(s * d >= available * d) by (nonlinear_arith)
            requires
                s >= available,
                d >= 0,
        ;
        assert(available * (9 * d + 8) == 9 * (available * d) + 8 * available) by (nonlinear_arith);
        assert(available * d >= 10 * d) by (nonlinear_arith)
            requires
                available >= 10,
                d >= 0,
        ;
        assert(available * d >= available * 0x20_0000_0000_0000) by (nonlinear_arith)
            requires
                available >= 0,
                d >= 0x20_0000_0000_0000,
        ;
    }
    assert(layout::usable_ratio(ratio) == ratio);
}

/// A ratio of a half or more makes the master at least as wide as the stack,
/// but for the pixel that rounding may take; one of a half or less does not
/// make it wider, but for that pixel.
pub proof fn the_larger_share_is_wider(area: Rect, windows: int, gap: int, ratio: Real64, index: int)
    requires
        1 <= index < windows,
        10 <= area.width - gap <= 0x7fff_ffff,
        0x3fb9_9999_9999_999a <= ratio.bits <= 0x3fec_cccc_cccc_cccd,
    ensures
        ratio.bits >= 0x3fe0_0000_0000_0000 ==> layout::tile(area, windows, gap, ratio, 0).width + 1
            >= layout::tile(area, windows, gap, ratio, index).width,
        ratio.bits <= 0x3fe0_0000_0000_0000 ==> layout::tile(area, windows, gap, ratio, 0).width
            <= layout::tile(area, windows, gap, ratio, index).width + 1,
{
    the_master_gets_its_share(area, windows, gap, ratio, index);
    let n = digits(ratio);
    let d = scale(ratio);
    let available = area.width - gap;
    let master = layout::tile(area, windows, gap, ratio, 0).width;
    if ratio.bits >= 0x3fe0_0000_0000_0000 {
        assert(2 * n >= d);
        assert(2 * master >= available - 1) by (nonlinear_arith)
            requires
                2 * (master * d) >= 2 * (available * n) - d - 0x8000_0000,
                2 * n >= d,
                available >= 0,
                d >= 0x20_0000_0000_0000,
        ;
    }
    if ratio.bits <= 0x3fe0_0000_0000_0000 {
        assert(2 * n <= d);
        assert(2 * master <= available + 1) by (nonlinear_arith)
            requires
                2 * (master * d) <= 2 * (available * n) + d + 0x8000_0000,
                2 * n <= d,
                available >= 0,
                d >= 0x20_0000_0000_0000,
        ;
    }
}

/// A ratio below a tenth, negative ones too, works like a tenth, and one above
/// nine tenths works like nine tenths.
pub proof fn extreme_ratios_work_like_the_nearest_usable_one(
    area: Rect,
    windows: int,
    gap: int,
    ratio: Real64,
    index: int,
)
    ensures
        ratio.bits < 0x3fb9_9999_9999_999a || 0x8000_0000_0000_0000 <= ratio.bits
            <= 0xfff0_0000_0000_0000 ==> layout::tile(area, windows, gap, ratio, index)
            == layout::tile(
            area,
            windows,
            gap,
            Real64 { bits: 0x3fb9_9999_9999_999a },
            index,
        ),
        0x3fec_cccc_cccc_cccd < ratio.bits <= 0x7ff0_0000_0000_0000 ==> layout::tile(
            area,
            windows,
            gap,
            ratio,
            index,
        ) == layout::tile(area, windows, gap, Real64 { bits: 0x3fec_cccc_cccc_cccd }, index),
{
}

/// A single window gets the whole area; the first of several gets the whole
/// height at the left edge.
pub proof fn the_master_is_at_the_left(area: Rect, windows: int, gap: int, ratio: Real64)
    ensures
        ({
            let first = layout::tile(area, windows, gap, ratio, 0);
            &&& first.x == area.x && first.y == area.y && first.height == area.height
            &&& windows <= 1 ==> first.width == area.width
        }),
{
}

/// The stack begins at the top. All of its tiles are equally high, but for the
/// last one, which gets the pixels that are left over, fewer than there are
/// tiles.
pub proof fn the_stack_is_shared_evenly(
    area: Rect,
    windows: int,
    gap: int,
    ratio: Real64,
    i: int,
    j: int,
)
    requires
        1 <= i < j < windows,
        area.height - gap * (windows - 2) >= windows - 1,
    ensures
        layout::tile(area, windows, gap, ratio, 1).y == area.y,
        layout::tile(area, windows, gap, ratio, i).height <= layout::tile(
            area,
            windows,
            gap,
            ratio,
            j,
        ).height,
        j < windows - 1 ==> layout::tile(area, windows, gap, ratio, i).height == layout::tile(
            area,
            windows,
            gap,
            ratio,
            j,
        ).height,
        layout::tile(area, windows, gap, ratio, j).height < layout::tile(
            area,
            windows,
            gap,
            ratio,
            i,
        ).height + windows - 1,
{
    let stacked = windows - 1;
    let free = area.height - gap * (stacked - 1);
    let h = free / stacked;
    assert(1 <= h && h * stacked <= free && free < h * stacked + stacked) by (nonlinear_arith)
        requires
            h == free / stacked,
            free >= stacked,
            stacked >= 1,
    ;
    assert(layout::stack_height(area.height as int, gap, stacked) == h);
    assert((stacked - 1) * (h + gap) == h * stacked - h + gap * (stacked - 1)) by (nonlinear_arith);
    assert((1 - 1) * (h + gap) == 0) by (nonlinear_arith);
}

/// Tiling leaves the padding free on all four sides, or as much of it as
/// leaves a pixel.
pub proof fn padding_is_left_free_on_every_side(full: Rect, padding: int)
    requires
        full.width >= 1,
        full.height >= 1,
        padding >= 0,
    ensures
        ({
            let area = layout::padded(full, padding);
            &&& 2 * padding < full.width && 2 * padding < full.height ==> area.x == full.x + padding
                && area.y == full.y + padding && area.x + area.width == full.x + full.width
                - padding && area.y + area.height == full.y + full.height - padding
            &&& area.width >= 1 && area.height >= 1
            &&& full.x <= area.x && full.y <= area.y
        }),
{
}

/// The configured gap is used as long as four of them fit.
pub proof fn the_configured_gap_is_used(full: Rect, gap: int)
    requires
        0 <= gap,
    ensures
        4 * gap <= full.width && 4 * gap <= full.height ==> layout::usable_gap(full, gap) == gap,
        full.width >= 0 && full.height >= 0 ==> 0 <= layout::usable_gap(full, gap) <= gap,
        full.width >= 0 && full.height >= 0 ==> 4 * layout::usable_gap(full, gap) <= full.width
            && 4 * layout::usable_gap(full, gap) <= full.height,
{
}

/// The frame of a window fills its tile: what the border and the titlebar
/// leave goes to the client.
pub proof fn a_frame_fills_its_tile(tile: Rect, decorated: bool, tiling: bool, titlebar: i32, border: i32)
    requires
        0 <= titlebar <= 96,
        0 <= border <= 16,
        tile.width > 2 * border,
        tile.height > 2 * border + titlebar,
    ensures
        ({
            let client = layout::client_box(
                tile,
                layout::insets_of(decorated, tiling, titlebar, border),
            );
            let left = client.x - tile.x;
            let top = client.y - tile.y;
            let right = tile.x + tile.width - client.x - client.width;
            let bottom = tile.y + tile.height - client.y - client.height;
            &&& decorated ==> left == border && right == border && bottom == border
            &&& decorated && tiling ==> top == border
            &&& decorated && !tiling ==> top == border + titlebar
            &&& !decorated ==> left == 0 && right == 0 && top == 0 && bottom == 0
        }),
{
}

/// A window without a place of its own is centered: as much of the area is
/// left of it as right of it, and as much above its frame as below it, to the
/// pixel, where the frame fits.
pub proof fn windows_are_centered(area: Rect, size: geometry::Size, top: int)
    requires
        size.w >= 0,
        size.h >= 0,
        0 <= top,
    ensures
        ({
            let (x, y) = layout::centered(area, size, top);
            &&& -1 <= (area.x + area.width - x - size.w) - (x - area.x) <= 1
            &&& size.h + top <= area.height ==> -1 <= (area.y + area.height - y - size.h) - (y - top
                - area.y) <= 1
        }),
{
}

} // verus!
