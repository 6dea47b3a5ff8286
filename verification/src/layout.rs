//! Tiled layout and window placement.

use vstd::prelude::*;

use crate::geometry::{Box2, Location, Rect, Size};
use crate::geometry;
use crate::model;
use crate::reals::Real64;
use crate::reals;

verus! {

/// A share of the width that is usable as one.
pub open spec fn usable_ratio(ratio: Real64) -> Real64 {
    if ratio.rank() < reals::TENTH {
        Real64 { bits: reals::TENTH }
    } else if ratio.rank() > reals::NINE_TENTHS {
        Real64 { bits: reals::NINE_TENTHS }
    } else {
        ratio
    }
}

/// Width of the master column: its share of what the gap leaves, at least
/// one pixel, and at least one pixel less than there is.
pub open spec fn master_width(width: int, gap: int, ratio: Real64) -> int {
    let available = width - gap;
    let wanted = if available <= 0 || ratio.nan() {
        0
    } else {
        reals::share(available as nat, usable_ratio(ratio)) as int
    };
    geometry::clamped(wanted, 1, geometry::greatest(available - 1, 1))
}

/// Height of a tile of the stack; the last tile takes what is left.
pub open spec fn stack_height(height: int, gap: int, stacked: int) -> int {
    geometry::greatest(geometry::quotient(height - gap * (stacked - 1), stacked), 1)
}

/// The tile of the window with the given index: the master column first, the
/// others stacked beside it.
pub open spec fn tile(area: Rect, windows: int, gap: int, ratio: Real64, index: int) -> Box2 {
    let master = master_width(area.width as int, gap, ratio);
    let height = stack_height(area.height as int, gap, windows - 1);
    if windows <= 1 {
        Box2 {
            x: area.x as int,
            y: area.y as int,
            width: area.width as int,
            height: area.height as int,
        }
    } else if index == 0 {
        Box2 { x: area.x as int, y: area.y as int, width: master, height: area.height as int }
    } else {
        let y = area.y + (index - 1) * (height + gap);
        Box2 {
            x: area.x + master + gap,
            y,
            width: geometry::greatest(area.width - master - gap, 1),
            height: if index == windows - 1 {
                geometry::greatest(area.bottom() - y, 1)
            } else {
                height
            },
        }
    }
}

/// All tiles have machine coordinates.
pub open spec fn tiles_fit(area: Rect, windows: int, gap: int, ratio: Real64) -> bool {
    forall|i: int| 0 <= i < windows ==> (#[trigger] tile(area, windows, gap, ratio, i)).fits()
}

/// Clamps a share to the usable range.
fn clamp_ratio(ratio: Real64) -> (r: Real64)
    requires
        !ratio.nan(),
    ensures
        r == usable_ratio(ratio),
        reals::TENTH <= r.bits <= reals::NINE_TENTHS,
{
    let tenth = Real64 { bits: reals::TENTH };
    let most = Real64 { bits: reals::NINE_TENTHS };
    if !tenth.le(ratio) {
        tenth
    } else if !ratio.le(most) {
        most
    } else {
        ratio
    }
}

fn compute_master_width(width: i32, gap: i32, ratio: Real64) -> (r: i32)
    requires
        geometry::fits(width - gap),
    ensures
        r == master_width(width as int, gap as int, ratio),
        r >= 1,
{
    let available: i32 = width - gap;
    if available <= 1 {
        return 1;
    }
    let most: i32 = available - 1;
    if ratio.is_nan() {
        return 1;
    }
    let wanted: u32 = reals::share_of(available as u32, clamp_ratio(ratio));
    if wanted < 1 {
        1
    } else if wanted > most as u32 {
        most
    } else {
        wanted as i32
    }
}

/// Splits `area` into a master column and a stack beside it, `gap` pixels
/// apart. A single window gets the whole area.
pub fn master_stack(area: Rect, windows: usize, gap: i32, master_ratio: Real64) -> (tiles: Vec<
    Rect,
>)
    requires
        windows <= i32::MAX,
        windows > 1 ==> geometry::fits(area.width - gap),
        tiles_fit(area, windows as int, gap as int, master_ratio),
    ensures
        tiles@.len() == (if windows <= 1 {
            1
        } else {
            windows as int
        }),
        forall|i: int|
            0 <= i < tiles@.len() ==> #[trigger] tiles@[i] == tile(
                area,
                windows as int,
                gap as int,
                master_ratio,
                i,
            ).rect(),
{
    let mut tiles: Vec<Rect> = Vec::new();
    if windows <= 1 {
        tiles.push(area);
        return tiles;
    }
    let stacked: i64 = windows as i64 - 1;
    let master: i32 = compute_master_width(area.width, gap, master_ratio);
    let ghost n = windows as int;
    let ghost g = gap as int;
    assert(tile(area, n, g, master_ratio, 0).fits());
    assert(tile(area, n, g, master_ratio, 1).fits());
    let x: i64 = area.x as i64 + master as i64 + gap as i64;
    let rest: i64 = area.width as i64 - master as i64 - gap as i64;
    let width: i64 = if rest >= 1 { rest } else { 1 };
    assert(-0x8000_0000 * 0x8000_0000 <= gap * (stacked - 1) <= 0x8000_0000 * 0x8000_0000)
        by (nonlinear_arith)
        requires
            -0x8000_0000 <= gap <= 0x7fff_ffff,
            0 <= stacked - 1 <= 0x7fff_ffff,
    ;
    let free: i64 = area.height as i64 - gap as i64 * (stacked - 1);
    let even: i64 = if free >= 0 { free / stacked } else { 0 };
    proof {
        if free < 0 {
            assert((-free) / (stacked as int) >= 0) by (nonlinear_arith)
                requires
                    free < 0,
                    stacked > 0,
            ;
        }
    }
    let height: i64 = if even >= 1 { even } else { 1 };
    assert(height == stack_height(area.height as int, g, n - 1));
    assert(height <= 0x8000_0000 * 0x8000_0000 + 0x8000_0000) by (nonlinear_arith)
        requires
            height == free / stacked || height == 1,
            free <= 0x8000_0000 * 0x8000_0000 + 0x8000_0000,
            stacked >= 1,
            free >= 0 || height == 1,
    ;
    tiles.push(Rect { x: area.x, y: area.y, width: master, height: area.height });
    let bottom: i64 = area.y as i64 + area.height as i64;
    let mut y: i64 = area.y as i64;
    let mut index: usize = 1;
    while index < windows
        invariant
            1 <= index <= windows,
            windows <= i32::MAX,
            n == windows,
            g == gap,
            tiles_fit(area, n, g, master_ratio),
            height == stack_height(area.height as int, g, n - 1),
            1 <= height <= 0x8000_0000 * 0x8000_0000 + 0x8000_0000,
            x == area.x + master_width(area.width as int, g, master_ratio) + g,
            width == geometry::greatest(
                area.width - master_width(area.width as int, g, master_ratio) - g,
                1,
            ),
            bottom == area.bottom(),
            index < windows ==> y == area.y + (index - 1) * (height + g),
            tiles@.len() == index,
            forall|i: int|
                0 <= i < index ==> #[trigger] tiles@[i] == tile(
                    area,
                    n,
                    g,
                    master_ratio,
                    i,
                ).rect(),
        decreases windows - index,
    {
        assert(tile(area, n, g, master_ratio, index as int).fits());
        let tile_height: i64 = if index == windows - 1 {
            if bottom - y >= 1 {
                bottom - y
            } else {
                1
            }
        } else {
            height
        };
        tiles.push(
            Rect { x: x as i32, y: y as i32, width: width as i32, height: tile_height as i32 },
        );
        assert(index * (height + g) == (index - 1) * (height + g) + (height + g))
            by (nonlinear_arith);
        index = index + 1;
        if index < windows {
            y = y + height + gap as i64;
        }
    }
    tiles
}

/// The area that tiling leaves free around its edges.
pub open spec fn padded(full: Rect, padding: int) -> Box2 {
    let inset = geometry::clamped(
        padding,
        0,
        geometry::quotient(geometry::least(full.width as int, full.height as int), 2),
    );
    Box2 {
        x: full.x + inset,
        y: full.y + inset,
        width: geometry::greatest(full.width - 2 * inset, 1),
        height: geometry::greatest(full.height - 2 * inset, 1),
    }
}

/// The spacing between tiles that an area has room for.
pub open spec fn usable_gap(full: Rect, gap: int) -> int {
    geometry::clamped(
        gap,
        0,
        geometry::quotient(geometry::least(full.width as int, full.height as int), 4),
    )
}

/// The part of the work area that is tiled.
pub fn tiled_area(full: Rect, padding: i32) -> (r: Rect)
    requires
        full.width >= 0,
        full.height >= 0,
        full.representable(),
    ensures
        r == padded(full, padding as int).rect(),
        padded(full, padding as int).fits(),
{
    let smaller: i32 = geometry::min_i32(full.width, full.height);
    let inset: i32 = geometry::clamp_i32(padding, 0, smaller / 2);
    Rect {
        x: full.x + inset,
        y: full.y + inset,
        width: geometry::max_i32(full.width - inset * 2, 1),
        height: geometry::max_i32(full.height - inset * 2, 1),
    }
}

/// The spacing between tiles that the work area has room for.
pub fn tile_gap(full: Rect, gap: i32) -> (r: i32)
    requires
        full.width >= 0,
        full.height >= 0,
    ensures
        r == usable_gap(full, gap as int),
{
    let smaller: i32 = geometry::min_i32(full.width, full.height);
    geometry::clamp_i32(gap, 0, smaller / 4)
}

/// Space that a frame takes around its client.
#[derive(Debug, Clone, Copy, PartialEq, Eq, Structural)]
pub struct Insets {
    pub horizontal: i32,
    pub vertical: i32,
    pub left: i32,
    pub top: i32,
}

/// The insets of a frame, or none.
pub open spec fn insets_of(decorated: bool, tiling: bool, titlebar: i32, border: i32) -> Insets {
    let row = if tiling {
        0
    } else {
        titlebar as int
    };
    if decorated {
        Insets {
            horizontal: (2 * border) as i32,
            vertical: (2 * border + row) as i32,
            left: border,
            top: (border + row) as i32,
        }
    } else {
        Insets { horizontal: 0, vertical: 0, left: 0, top: 0 }
    }
}

/// What of a tile is left for the client.
pub open spec fn client_box(tile: Rect, insets: Insets) -> Box2 {
    Box2 {
        x: tile.x + insets.left,
        y: tile.y + insets.top,
        width: geometry::greatest(tile.width - insets.horizontal, 1),
        height: geometry::greatest(tile.height - insets.vertical, 1),
    }
}

/// Puts a client into a tile, inside of its frame.
pub fn client_in_tile(tile: Rect, insets: Insets) -> (r: Rect)
    requires
        client_box(tile, insets).fits(),
    ensures
        r == client_box(tile, insets).rect(),
{
    let width: i64 = tile.width as i64 - insets.horizontal as i64;
    let height: i64 = tile.height as i64 - insets.vertical as i64;
    Rect {
        x: (tile.x as i64 + insets.left as i64) as i32,
        y: (tile.y as i64 + insets.top as i64) as i32,
        width: if width >= 1 { width as i32 } else { 1 },
        height: if height >= 1 { height as i32 } else { 1 },
    }
}

/// The middle of an area for a window of the given size, with its frame's
/// top edge never above the area.
pub open spec fn centered(area: Rect, size: Size, top: int) -> (int, int) {
    (
        area.x + geometry::quotient(area.width - size.w, 2),
        area.y + geometry::greatest(geometry::quotient(area.height - size.h + top, 2), top),
    )
}

fn half_of(v: i64) -> (r: i64)
    requires
        -0x1_0000_0000 <= v <= 0x1_0000_0000,
    ensures
        r == geometry::quotient(v as int, 2),
        -0x8000_0000 <= r <= 0x8000_0000,
{
    if v >= 0 {
        v / 2
    } else {
        0 - (0 - v) / 2
    }
}

/// Centers a new window in the work area.
pub fn center_in(area: Rect, size: Size, top: i32) -> (r: Location)
    requires
        geometry::fits(centered(area, size, top as int).0),
        geometry::fits(centered(area, size, top as int).1),
        0 <= top <= 0x1000_0000,
        area.width >= 0,
        area.height >= 0,
        size.w >= 0,
        size.h >= 0,
    ensures
        r.x == centered(area, size, top as int).0,
        r.y == centered(area, size, top as int).1,
{
    let dx: i64 = half_of(area.width as i64 - size.w as i64);
    let dy: i64 = half_of(area.height as i64 - size.h as i64 + top as i64);
    let down: i64 = if dy >= top as i64 { dy } else { top as i64 };
    Location { x: (area.x as i64 + dx) as i32, y: (area.y as i64 + down) as i32 }
}

/// A box whose coordinates leave room for a frame.
pub open spec fn roomy_box(b: Box2) -> bool {
    &&& geometry::fits(b.x) && geometry::fits(b.x + model::FRAME_ROOM - 8)
    &&& geometry::fits(b.y) && geometry::fits(b.y + model::FRAME_ROOM - 8)
    &&& 0 <= b.width <= i32::MAX
    &&& 0 <= b.height <= i32::MAX
}

/// All tiles leave room for a frame.
pub open spec fn tiles_roomy(area: Rect, windows: int, gap: int, ratio: Real64) -> bool {
    forall|i: int| 0 <= i < windows ==> roomy_box(#[trigger] tile(area, windows, gap, ratio, i))
}

/// The sums that tiling a work area needs have machine numbers.
pub open spec fn tileable(full: Rect, windows: int) -> bool {
    &&& full.width >= 0 && full.height >= 0
    &&& geometry::fits(full.x + full.width + model::FRAME_ROOM)
    &&& geometry::fits(full.y + full.height + windows * (model::MAX_GAP + 1) + model::FRAME_ROOM)
}

/// The tiles of a work area with room for them have machine coordinates.
pub proof fn lemma_tiles_fit(full: Rect, padding: int, gap: int, ratio: Real64, windows: int)
    requires
        tileable(full, windows),
        0 <= gap <= model::MAX_GAP,
        0 <= windows,
    ensures
        tiles_roomy(padded(full, padding).rect(), windows, usable_gap(full, gap), ratio),
        tiles_fit(padded(full, padding).rect(), windows, usable_gap(full, gap), ratio),
        geometry::fits(padded(full, padding).rect().width - usable_gap(full, gap)),
        windows <= i32::MAX,
{
    let area = padded(full, padding).rect();
    let g = usable_gap(full, gap);
    let stacked = windows - 1;
    let h = stack_height(area.height as int, g, stacked);
    assert(0 <= g <= 512);
    assert(area.x as int == padded(full, padding).x);
    assert(area.y as int == padded(full, padding).y);
    assert(area.x + area.width <= full.x + full.width + 1);
    assert(area.y + area.height <= full.y + full.height + 1);
    assert(4 * g <= full.width && 4 * g <= full.height);
    assert(1 <= area.width && 1 <= area.height);
    assert forall|i: int| 0 <= i < windows implies roomy_box(
        #[trigger] tile(area, windows, g, ratio, i),
    ) by {
        if windows > 1 {
            let master = master_width(area.width as int, g, ratio);
            assert(1 <= master <= geometry::greatest(area.width - g - 1, 1));
        }
        if windows > 1 && i > 0 {
            let free = area.height - g * (stacked - 1);
            assert(h == 1 || (h >= 1 && h * stacked <= free)) by {
                if free >= 0 {
                    assert((free / stacked) * stacked <= free) by (nonlinear_arith)
                        requires
                            stacked >= 1,
                            free >= 0,
                    ;
                } else {
                    assert((-free) / stacked >= 0) by (nonlinear_arith)
                        requires
                            stacked >= 1,
                            free < 0,
                    ;
                }
            }
            assert(0 <= (i - 1) * (h + g) <= area.height + windows * 513) by (nonlinear_arith)
                requires
                    1 <= i <= stacked,
                    windows == stacked + 1,
                    0 <= g <= 512,
                    free == area.height - g * (stacked - 1),
                    0 <= area.height,
                    h == 1 || (h >= 1 && h * stacked <= free),
            {
                if h == 1 {
                    assert((i - 1) * (h + g) <= windows * 513);
                } else {
                    assert((i - 1) * (h + g) <= (stacked - 1) * (h + g));
                    assert((stacked - 1) * (h + g) == (stacked - 1) * h + (stacked - 1) * g);
                    assert((stacked - 1) * h <= h * stacked);
                    assert(g * (stacked - 1) == (stacked - 1) * g);
                    assert(windows * 513 >= 0);
                }
                assert((i - 1) * (h + g) >= 0);
            }
            assert(h <= area.height) by (nonlinear_arith)
                requires
                    h == 1 || (h >= 1 && h * stacked <= free),
                    stacked >= 1,
                    free == area.height - g * (stacked - 1),
                    g >= 0,
                    1 <= area.height,
            ;
        }
    }
    assert forall|i: int| 0 <= i < windows implies (#[trigger] tile(
        area,
        windows,
        g,
        ratio,
        i,
    )).fits() by {
        assert(roomy_box(tile(area, windows, g, ratio, i)));
    }
}

/// Every tile has an extent.
pub proof fn tiles_are_never_empty(
    area: Rect,
    windows: int,
    gap: int,
    ratio: Real64,
    index: int,
)
    requires
        0 <= index < windows,
        area.width >= 1,
        area.height >= 1,
    ensures
        tile(area, windows, gap, ratio, index).width >= 1,
        tile(area, windows, gap, ratio, index).height >= 1,
{
}

/// The master column and the stack lie side by side, the gap between them.
pub proof fn the_stack_begins_behind_the_master(
    area: Rect,
    windows: int,
    gap: int,
    ratio: Real64,
    index: int,
)
    requires
        1 <= index < windows,
    ensures
        tile(area, windows, gap, ratio, 0).x + tile(area, windows, gap, ratio, 0).width + gap
            == tile(area, windows, gap, ratio, index).x,
        area.width - gap >= 2 ==> tile(area, windows, gap, ratio, index).x + tile(
            area,
            windows,
            gap,
            ratio,
            index,
        ).width == area.right(),
{
}

/// Stacked tiles follow each other, the gap between them.
pub proof fn stacked_tiles_do_not_overlap(
    area: Rect,
    windows: int,
    gap: int,
    ratio: Real64,
    index: int,
)
    requires
        1 <= index,
        index + 1 < windows,
    ensures
        tile(area, windows, gap, ratio, index).y + tile(area, windows, gap, ratio, index).height
            + gap == tile(area, windows, gap, ratio, index + 1).y,
{
    let h = stack_height(area.height as int, gap, windows - 1);
    assert(index * (h + gap) == (index - 1) * (h + gap) + (h + gap)) by (nonlinear_arith);
}

/// The last tile absorbs the rounding: the stack ends at the edge of the
/// area, unless there is less than a pixel for every tile.
pub proof fn the_stack_ends_at_the_area_edge(area: Rect, windows: int, gap: int, ratio: Real64)
    requires
        windows >= 2,
        area.height - gap * (windows - 2) >= windows - 1,
    ensures
        ({
            let last = tile(area, windows, gap, ratio, windows - 1);
            last.y + last.height == area.bottom()
        }),
{
    let stacked = windows - 1;
    let free = area.height - gap * (stacked - 1);
    let h = free / stacked;
    assert(1 <= h && h * stacked <= free) by (nonlinear_arith)
        requires
            h == free / stacked,
            free >= stacked,
            stacked >= 1,
    ;
    assert((stacked - 1) * (h + gap) == h * stacked - h + gap * (stacked - 1)) by (nonlinear_arith);
    assert(stack_height(area.height as int, gap, stacked) == h);
}

} // verus!
