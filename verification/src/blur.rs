//! Background blur: what clients ask for, and which part of an output is
//! blurred behind a window.

use crate::geometry;
use crate::geometry::{Location, Rect, Size};
use vstd::prelude::*;

verus! {

/// The region that is blurred behind a surface; without one, the whole
/// surface.
#[derive(Debug, Clone, Copy, PartialEq, Eq, Structural)]
pub struct Blur {
    pub region: Option<Rect>,
}

/// A rectangle of a client's region, added to it or taken from it.
#[derive(Debug, Clone, Copy, PartialEq, Eq, Structural)]
pub struct RegionRect {
    pub added: bool,
    pub rect: Rect,
}

/// The edges of the smallest rectangle around the added rectangles: left, top,
/// right and bottom. What is taken away does not count.
pub open spec fn edges(rects: Seq<RegionRect>) -> Option<(int, int, int, int)>
    decreases rects.len(),
{
    if rects.len() == 0 {
        None
    } else {
        let rest = edges(rects.drop_last());
        let rect = rects.last().rect;
        if !rects.last().added {
            rest
        } else {
            match rest {
                Some((left, top, right, bottom)) => Some(
                    (
                        geometry::least(left, rect.x as int),
                        geometry::least(top, rect.y as int),
                        geometry::greatest(right, rect.right()),
                        geometry::greatest(bottom, rect.bottom()),
                    ),
                ),
                None => Some((rect.x as int, rect.y as int, rect.right(), rect.bottom())),
            }
        }
    }
}

/// The smallest rectangle around the added rectangles, empty without any.
pub open spec fn bounds(rects: Seq<RegionRect>) -> geometry::Box2 {
    match edges(rects) {
        Some((left, top, right, bottom)) => geometry::Box2 {
            x: left,
            y: top,
            width: right - left,
            height: bottom - top,
        },
        None => geometry::Box2 { x: 0, y: 0, width: 0, height: 0 },
    }
}

proof fn lemma_edges_grow(rects: Seq<RegionRect>, n: int)
    requires
        0 <= n <= rects.len(),
        forall|i: int|
            0 <= i < rects.len() ==> (#[trigger] rects[i]).rect.width >= 0 && rects[i].rect.height
                >= 0,
    ensures
        match (edges(rects.take(n)), edges(rects)) {
            (Some((l, t, r, b)), Some((left, top, right, bottom))) => left <= l && top <= t && r
                <= right && b <= bottom,
            (Some(_), None) => false,
            _ => true,
        },
        match edges(rects) {
            Some((left, top, right, bottom)) => left <= right && top <= bottom,
            None => true,
        },
    decreases rects.len(),
{
    if rects.len() > 0 {
        let shorter = rects.drop_last();
        assert forall|i: int| 0 <= i < shorter.len() implies (#[trigger] shorter[i]).rect.width >= 0
            && shorter[i].rect.height >= 0 by {
            assert(rects[i].rect.width >= 0);
        }
        assert(rects[rects.len() - 1].rect.width >= 0);
        if n < rects.len() {
            lemma_edges_grow(shorter, n);
            assert(shorter.take(n) =~= rects.take(n));
        } else {
            lemma_edges_grow(shorter, n - 1);
            assert(rects.take(n) =~= rects);
        }
    }
}

/// The smallest rectangle around the rectangles that were added to a region;
/// a blur needs no more than an outer bound.
pub fn region_bounds(rects: &Vec<RegionRect>) -> (r: Rect)
    requires
        forall|i: int|
            0 <= i < rects@.len() ==> (#[trigger] rects@[i]).rect.width >= 0
                && rects@[i].rect.height >= 0,
        bounds(rects@).fits(),
    ensures
        r == bounds(rects@).rect(),
{
    let mut found: Option<Rect> = None;
    for i in 0..rects.len()
        invariant
            forall|j: int|
                0 <= j < rects@.len() ==> (#[trigger] rects@[j]).rect.width >= 0
                    && rects@[j].rect.height >= 0,
            bounds(rects@).fits(),
            match found {
                Some(rect) => rect.width >= 0 && rect.height >= 0 && edges(rects@.take(i as int))
                    == Some((rect.x as int, rect.y as int, rect.right(), rect.bottom())),
                None => edges(rects@.take(i as int)) is None,
            },
    {
        let next = rects[i];
        proof {
            assert(next.rect.width >= 0);
            assert(rects@.take(i + 1).drop_last() =~= rects@.take(i as int));
            lemma_edges_grow(rects@, i + 1);
        }
        if next.added {
            found = match found {
                Some(rect) => {
                    Some(geometry::merge(rect, next.rect))
                },
                None => Some(next.rect),
            };
        }
    }
    assert(rects@.take(rects@.len() as int) =~= rects@);
    match found {
        Some(rect) => rect,
        None => Rect { x: 0, y: 0, width: 0, height: 0 },
    }
}

/// No pixel of an added rectangle lies outside of the bounds.
pub proof fn bounds_hold_every_added_rectangle(rects: Seq<RegionRect>, i: int, x: int, y: int)
    requires
        0 <= i < rects.len(),
        rects[i].added,
        rects[i].rect.holds(x, y),
        forall|j: int|
            0 <= j < rects.len() ==> (#[trigger] rects[j]).rect.width >= 0 && rects[j].rect.height
                >= 0,
    ensures
        bounds(rects).x <= x < bounds(rects).x + bounds(rects).width,
        bounds(rects).y <= y < bounds(rects).y + bounds(rects).height,
{
    lemma_edges_grow(rects, i + 1);
    assert(rects.take(i + 1).last() == rects[i]);
}

/// What a client has asked for and not yet committed.
#[derive(Debug, Clone, Copy, PartialEq, Eq, Structural)]
pub struct BlurObject {
    pub pending: Blur,
}

/// The blur behind a surface, if any.
#[derive(Debug, Clone, Copy, PartialEq, Eq, Structural)]
pub struct SurfaceBlur {
    pub active: Option<Blur>,
}

impl BlurObject {
    /// A new request blurs the whole surface.
    pub fn new() -> (r: BlurObject)
        ensures
            r.pending == (Blur { region: None }),
    {
        BlurObject { pending: Blur { region: None } }
    }

    /// The client sets the region, or takes it back to the whole surface.
    pub fn set_region(&mut self, region: &Option<Vec<RegionRect>>)
        requires
            region is Some ==> bounds(region->0@).fits() && forall|i: int|
                0 <= i < region->0@.len() ==> (#[trigger] region->0@[i]).rect.width >= 0
                    && region->0@[i].rect.height >= 0,
        ensures
            final(self).pending == (match *region {
                Some(rects) => Blur { region: Some(bounds(rects@).rect()) },
                None => Blur { region: None },
            }),
    {
        self.pending = Blur {
            region: match region {
                Some(rects) => Some(region_bounds(rects)),
                None => None,
            },
        };
    }

    /// What was asked for takes effect on the surface.
    pub fn commit(&self, surface: &mut SurfaceBlur)
        ensures
            final(surface).active == Some(self.pending),
    {
        surface.active = Some(self.pending);
    }
}

impl SurfaceBlur {
    /// A surface is not blurred until a client asks for it.
    pub fn new() -> (r: SurfaceBlur)
        ensures
            r.active is None,
    {
        SurfaceBlur { active: None }
    }

    /// The client takes the blur away.
    pub fn unset(&mut self)
        ensures
            final(self).active is None,
    {
        self.active = None;
    }
}

/// The blurred area of a window, from the corner of its output. `inset` is
/// where the window's content begins within its surface.
pub open spec fn blurred_area(client: Rect, inset: Location, output: Location, blur: Blur) -> geometry::Box2 {
    let x = client.x - inset.x - output.x;
    let y = client.y - inset.y - output.y;
    match blur.region {
        None => geometry::Box2 {
            x,
            y,
            width: client.width as int,
            height: client.height as int,
        },
        Some(rect) => geometry::Box2 {
            x: x + rect.x,
            y: y + rect.y,
            width: rect.width as int,
            height: rect.height as int,
        },
    }
}

/// The area to blur behind a window, if blurring is enabled and the window's
/// surface asks for it.
pub fn window_blur(
    enabled: bool,
    surface: SurfaceBlur,
    client: Rect,
    inset: Location,
    output: Location,
) -> (r: Option<Rect>)
    requires
        surface.active is Some ==> blurred_area(client, inset, output, surface.active->0).fits(),
    ensures
        r == (match surface.active {
            Some(blur) => if enabled {
                Some(blurred_area(client, inset, output, blur).rect())
            } else {
                None
            },
            None => None,
        }),
{
    if !enabled {
        return None;
    }
    match surface.active {
        Some(blur) => {
            let x: i64 = client.x as i64 - inset.x as i64 - output.x as i64;
            let y: i64 = client.y as i64 - inset.y as i64 - output.y as i64;
            match blur.region {
                None => Some(
                    Rect { x: x as i32, y: y as i32, width: client.width, height: client.height },
                ),
                Some(rect) => Some(
                    Rect {
                        x: (x + rect.x as i64) as i32,
                        y: (y + rect.y as i64) as i32,
                        width: rect.width,
                        height: rect.height,
                    },
                ),
            }
        },
        None => None,
    }
}

/// The part of the output to blur: nothing without a shader, without a radius
/// or outside of the output. `area` is in pixels of the output.
pub fn backdrop_area(shader: bool, radius_is_positive: bool, area: Rect, viewport: Size) -> (r:
    Option<Rect>)
    requires
        area.width >= 0,
        area.height >= 0,
        viewport.w >= 0,
        viewport.h >= 0,
    ensures
        r == (match geometry::overlap(
            area,
            Rect { x: 0, y: 0, width: viewport.w, height: viewport.h },
        ) {
            Some(part) => if shader && radius_is_positive && !part.is_empty() {
                Some(part)
            } else {
                None
            },
            None => None,
        }),
{
    if !shader || !radius_is_positive {
        return None;
    }
    match geometry::intersection(
        area,
        Rect { x: 0, y: 0, width: viewport.w, height: viewport.h },
    ) {
        Some(part) => if part.has_no_area() {
            None
        } else {
            Some(part)
        },
        None => None,
    }
}

} // verus!
