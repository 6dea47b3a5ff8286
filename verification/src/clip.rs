//! Clipping window content to rounded corners.

use crate::geometry;
use crate::geometry::{Rect, Size};
use vstd::prelude::*;

verus! {

/// How far the rounding of each corner reaches, in whole pixels.
#[derive(Debug, Clone, Copy, PartialEq, Eq, Structural)]
pub struct Corners {
    pub top_left: i32,
    pub top_right: i32,
    pub bottom_right: i32,
    pub bottom_left: i32,
}

/// A clip to a rectangle with rounded corners, in pixels of the output.
#[derive(Debug, Clone, Copy, PartialEq, Eq, Structural)]
pub struct RoundedClip {
    pub rect: Rect,
    pub radii: Corners,
    pub viewport: Size,
}

impl RoundedClip {
    /// Every corner square has machine coordinates.
    pub open spec fn wf(self) -> bool {
        &&& self.rect.wf()
        &&& self.radii.top_left >= 0 && geometry::fits(self.rect.x + self.radii.top_left)
            && geometry::fits(self.rect.y + self.radii.top_left)
        &&& self.radii.top_right >= 0 && geometry::fits(self.rect.right() - self.radii.top_right)
            && geometry::fits(self.rect.y + self.radii.top_right)
        &&& self.radii.bottom_right >= 0 && geometry::fits(
            self.rect.right() - self.radii.bottom_right,
        ) && geometry::fits(self.rect.bottom() - self.radii.bottom_right)
        &&& self.radii.bottom_left >= 0 && geometry::fits(
            self.rect.bottom() - self.radii.bottom_left,
        ) && geometry::fits(self.rect.x + self.radii.bottom_left)
    }

    /// The squares that hold the rounding: top left, top right, bottom right
    /// and bottom left.
    pub open spec fn squares(self) -> Seq<Rect> {
        let r = self.radii;
        seq![
            square(self.rect.x as int, self.rect.y as int, r.top_left),
            square(self.rect.right() - r.top_right, self.rect.y as int, r.top_right),
            square(
                self.rect.right() - r.bottom_right,
                self.rect.bottom() - r.bottom_right,
                r.bottom_right,
            ),
            square(self.rect.x as int, self.rect.bottom() - r.bottom_left, r.bottom_left),
        ]
    }

    fn corner_squares(&self) -> (squares: Vec<Rect>)
        requires
            self.wf(),
        ensures
            squares@ == self.squares(),
            forall|i: int| 0 <= i < squares@.len() ==> (#[trigger] squares@[i]).wf(),
    {
        let right: i32 = self.rect.x + self.rect.width;
        let bottom: i32 = self.rect.y + self.rect.height;
        let r = self.radii;
        let mut squares: Vec<Rect> = Vec::new();
        squares.push(Rect { x: self.rect.x, y: self.rect.y, width: r.top_left, height: r.top_left });
        squares.push(
            Rect {
                x: right - r.top_right,
                y: self.rect.y,
                width: r.top_right,
                height: r.top_right,
            },
        );
        squares.push(
            Rect {
                x: right - r.bottom_right,
                y: bottom - r.bottom_right,
                width: r.bottom_right,
                height: r.bottom_right,
            },
        );
        squares.push(
            Rect {
                x: self.rect.x,
                y: bottom - r.bottom_left,
                width: r.bottom_left,
                height: r.bottom_left,
            },
        );
        assert(squares@ =~= self.squares());
        squares
    }

    /// The geometry is not wholly inside, or it reaches into a corner square.
    pub open spec fn changes(self, area: Rect) -> bool {
        ||| geometry::overlap(self.rect, area) != Some(area)
        ||| exists|i: int|
            0 <= i < 4 && !(#[trigger] self.squares()[i]).is_empty() && geometry::overlapping(
                self.squares()[i],
                area,
            )
    }

    /// Whether drawing `area` unclipped would differ from drawing it through
    /// this clip.
    pub fn affects(&self, area: Rect) -> (r: bool)
        requires
            self.wf(),
            area.width >= 0,
            area.height >= 0,
        ensures
            r == self.changes(area),
    {
        match geometry::intersection(self.rect, area) {
            Some(common) => if common != area {
                return true;
            },
            None => {
                return true;
            },
        }
        let squares = self.corner_squares();
        for i in 0..4usize
            invariant
                squares@.len() == 4,
                squares@ == self.squares(),
                forall|j: int|
                    0 <= j < i ==> (#[trigger] self.squares()[j]).is_empty()
                        || !geometry::overlapping(self.squares()[j], area),
        {
            if !squares[i].has_no_area() && geometry::overlaps(squares[i], area) {
                assert(!self.squares()[i as int].is_empty());
                return true;
            }
        }
        false
    }

    /// The pixel of an element at `area` that lies at (`x`, `y`) from the
    /// element's corner is drawn as it is: it is inside the clip and in no
    /// corner square.
    pub open spec fn keeps(self, area: Rect, x: int, y: int) -> bool {
        &&& self.rect.holds(area.x + x, area.y + y)
        &&& area.holds(area.x + x, area.y + y)
        &&& !geometry::covered(self.squares(), area.x + x, area.y + y)
    }

    /// What stays opaque of an element at `area` whose opaque `regions` are
    /// given from the element's corner.
    pub fn opaque_regions(&self, area: Rect, regions: &Vec<Rect>) -> (r: Vec<Rect>)
        requires
            self.wf(),
            area.wf(),
            forall|i: int| 0 <= i < regions@.len() ==> (#[trigger] regions@[i]).wf(),
            forall|i: int|
                0 <= i < 4 ==> moved(#[trigger] self.squares()[i], area).fits()
                    && moved(self.squares()[i], area).rect().wf(),
        ensures
            forall|x: int, y: int| #[trigger]
                geometry::covered(r@, x, y) <==> geometry::covered(regions@, x, y) && self.keeps(
                    area,
                    x,
                    y,
                ),
    {
        let common = match geometry::intersection(self.rect, area) {
            Some(common) => common,
            None => {
                let none: Vec<Rect> = Vec::new();
                proof {
                    assert forall|x: int, y: int| #[trigger]
                        geometry::covered(none@, x, y) <==> geometry::covered(regions@, x, y)
                            && self.keeps(area, x, y) by {
                        assert(!geometry::covered(none@, x, y));
                    }
                }
                return none;
            },
        };
        let visible = Rect {
            x: common.x - area.x,
            y: common.y - area.y,
            width: common.width,
            height: common.height,
        };
        let kept = visible_parts(regions, visible);
        let squares = self.corner_squares();
        let mut corners: Vec<Rect> = Vec::new();
        for i in 0..4usize
            invariant
                squares@.len() == 4,
                squares@ == self.squares(),
                forall|j: int|
                    0 <= j < 4 ==> moved(#[trigger] self.squares()[j], area).fits() && moved(
                        self.squares()[j],
                        area,
                    ).rect().wf(),
                forall|j: int| 0 <= j < corners@.len() ==> (#[trigger] corners@[j]).wf(),
                forall|x: int, y: int| #[trigger]
                    geometry::covered(corners@, x, y) <==> geometry::covered(
                        self.squares().take(i as int),
                        area.x + x,
                        area.y + y,
                    ),
        {
            let square = squares[i];
            let ghost before = corners@;
            assert(square == self.squares()[i as int]);
            assert(moved(self.squares()[i as int], area).fits());
            let ghost former = self.squares().take(i as int);
            assert(self.squares().take(i + 1) =~= former.push(square));
            if !square.has_no_area() {
                let corner = Rect {
                    x: square.x - area.x,
                    y: square.y - area.y,
                    width: square.width,
                    height: square.height,
                };
                corners.push(corner);
                proof {
                    assert forall|x: int, y: int| #[trigger]
                        geometry::covered(corners@, x, y) <==> geometry::covered(
                            self.squares().take(i + 1),
                            area.x + x,
                            area.y + y,
                        ) by {
                        lemma_covered_push(before, corner, x, y);
                        lemma_covered_push(former, square, area.x + x, area.y + y);
                        assert(geometry::covered(before, x, y) <==> geometry::covered(
                            former,
                            area.x + x,
                            area.y + y,
                        ));
                    }
                }
            } else {
                proof {
                    assert forall|x: int, y: int| #[trigger]
                        geometry::covered(corners@, x, y) <==> geometry::covered(
                            self.squares().take(i + 1),
                            area.x + x,
                            area.y + y,
                        ) by {
                        lemma_covered_push(former, square, area.x + x, area.y + y);
                    }
                }
            }
        }
        let ghost parts = kept@;
        let r = subtract_rects(kept, &corners);
        proof {
            assert(self.squares().take(4) =~= self.squares());
            assert forall|x: int, y: int| #[trigger]
                geometry::covered(r@, x, y) <==> geometry::covered(regions@, x, y) && self.keeps(
                    area,
                    x,
                    y,
                ) by {
                assert(geometry::covered(parts, x, y) <==> geometry::covered(regions@, x, y)
                    && visible.holds(x, y));
                assert(geometry::covered(corners@, x, y) <==> geometry::covered(
                    self.squares(),
                    area.x + x,
                    area.y + y,
                ));
                assert(visible.holds(x, y) <==> self.rect.holds(area.x + x, area.y + y)
                    && area.holds(area.x + x, area.y + y));
            }
        }
        r
    }
}

/// The rectangle seen from the corner of another one.
pub open spec fn moved(rect: Rect, from: Rect) -> geometry::Box2 {
    geometry::Box2 {
        x: rect.x - from.x,
        y: rect.y - from.y,
        width: rect.width as int,
        height: rect.height as int,
    }
}

pub open spec fn square(x: int, y: int, side: i32) -> Rect {
    Rect { x: x as i32, y: y as i32, width: side, height: side }
}

proof fn lemma_covered_push(rects: Seq<Rect>, more: Rect, x: int, y: int)
    ensures
        geometry::covered(rects.push(more), x, y) <==> geometry::covered(rects, x, y)
            || more.holds(x, y),
{
    let longer = rects.push(more);
    if geometry::covered(rects, x, y) {
        let i = choose|i: int| 0 <= i < rects.len() && (#[trigger] rects[i]).holds(x, y);
        assert(longer[i].holds(x, y));
    }
    if more.holds(x, y) {
        assert(longer[rects.len() as int].holds(x, y));
    }
    if geometry::covered(longer, x, y) {
        let i = choose|i: int| 0 <= i < longer.len() && (#[trigger] longer[i]).holds(x, y);
        if i < rects.len() {
            assert(rects[i].holds(x, y));
        }
    }
}

proof fn lemma_covered_append(a: Seq<Rect>, b: Seq<Rect>, x: int, y: int)
    ensures
        geometry::covered(a + b, x, y) <==> geometry::covered(a, x, y) || geometry::covered(
            b,
            x,
            y,
        ),
{
    if geometry::covered(a, x, y) {
        let i = choose|i: int| 0 <= i < a.len() && (#[trigger] a[i]).holds(x, y);
        assert((a + b)[i].holds(x, y));
    }
    if geometry::covered(b, x, y) {
        let i = choose|i: int| 0 <= i < b.len() && (#[trigger] b[i]).holds(x, y);
        assert((a + b)[a.len() + i].holds(x, y));
    }
    if geometry::covered(a + b, x, y) {
        let i = choose|i: int| 0 <= i < (a + b).len() && (#[trigger] (a + b)[i]).holds(x, y);
        if i < a.len() {
            assert(a[i].holds(x, y));
        } else {
            assert(b[i - a.len()].holds(x, y));
        }
    }
}

fn visible_parts(regions: &Vec<Rect>, visible: Rect) -> (r: Vec<Rect>)
    requires
        forall|i: int| 0 <= i < regions@.len() ==> (#[trigger] regions@[i]).wf(),
        visible.wf(),
    ensures
        forall|i: int| 0 <= i < r@.len() ==> (#[trigger] r@[i]).wf(),
        forall|x: int, y: int| #[trigger]
            geometry::covered(r@, x, y) <==> geometry::covered(regions@, x, y) && visible.holds(
                x,
                y,
            ),
{
    let mut parts: Vec<Rect> = Vec::new();
    for i in 0..regions.len()
        invariant
            forall|j: int| 0 <= j < regions@.len() ==> (#[trigger] regions@[j]).wf(),
            visible.wf(),
            forall|j: int| 0 <= j < parts@.len() ==> (#[trigger] parts@[j]).wf(),
            forall|x: int, y: int| #[trigger]
                geometry::covered(parts@, x, y) <==> geometry::covered(
                    regions@.take(i as int),
                    x,
                    y,
                ) && visible.holds(x, y),
    {
        let ghost before = parts@;
        let ghost former = regions@.take(i as int);
        let region = regions[i];
        assert(regions@.take(i + 1) =~= former.push(region));
        assert(region.wf());
        match geometry::intersection(region, visible) {
            Some(part) => {
                parts.push(part);
                proof {
                    assert forall|x: int, y: int| #[trigger]
                        geometry::covered(parts@, x, y) <==> geometry::covered(
                            regions@.take(i + 1),
                            x,
                            y,
                        ) && visible.holds(x, y) by {
                        lemma_covered_push(before, part, x, y);
                        lemma_covered_push(former, region, x, y);
                        assert(geometry::covered(before, x, y) <==> geometry::covered(former, x, y)
                            && visible.holds(x, y));
                    }
                }
            },
            None => {
                proof {
                    assert forall|x: int, y: int| #[trigger]
                        geometry::covered(parts@, x, y) <==> geometry::covered(
                            regions@.take(i + 1),
                            x,
                            y,
                        ) && visible.holds(x, y) by {
                        lemma_covered_push(former, region, x, y);
                    }
                }
            },
        }
    }
    assert(regions@.take(regions@.len() as int) =~= regions@);
    parts
}

/// The first rectangles hold exactly the pixels that the second ones hold and
/// the third ones do not.
pub open spec fn is_difference(left: Seq<Rect>, rects: Seq<Rect>, others: Seq<Rect>) -> bool {
    forall|x: int, y: int| #[trigger]
        geometry::covered(left, x, y) <==> geometry::covered(rects, x, y) && !geometry::covered(
            others,
            x,
            y,
        )
}

/// Adds a rectangle that has an area.
fn push_area(rects: &mut Vec<Rect>, more: Rect)
    requires
        forall|i: int| 0 <= i < old(rects)@.len() ==> (#[trigger] old(rects)@[i]).wf(),
        more.wf(),
    ensures
        final(rects)@ == (if more.is_empty() {
            old(rects)@
        } else {
            old(rects)@.push(more)
        }),
        forall|i: int| 0 <= i < final(rects)@.len() ==> (#[trigger] final(rects)@[i]).wf(),
        forall|x: int, y: int| #[trigger]
            geometry::covered(final(rects)@, x, y) <==> geometry::covered(old(rects)@, x, y)
                || more.holds(x, y),
{
    let ghost before = rects@;
    if !more.has_no_area() {
        rects.push(more);
        proof {
            assert forall|x: int, y: int| #[trigger]
                geometry::covered(rects@, x, y) <==> geometry::covered(before, x, y) || more.holds(
                    x,
                    y,
                ) by {
                lemma_covered_push(before, more, x, y);
            }
        }
    }
}

/// Adds what another rectangle leaves of one: the part above their common
/// part, those to the left and to the right of it, and the part below.
fn push_rest(rects: &mut Vec<Rect>, item: Rect, other: Rect, common: Rect)
    requires
        forall|i: int| 0 <= i < old(rects)@.len() ==> (#[trigger] old(rects)@[i]).wf(),
        item.wf(),
        other.wf(),
        geometry::overlap(item, other) == Some(common),
    ensures
        forall|i: int| 0 <= i < final(rects)@.len() ==> (#[trigger] final(rects)@[i]).wf(),
        forall|x: int, y: int| #[trigger]
            geometry::covered(final(rects)@, x, y) <==> geometry::covered(old(rects)@, x, y)
                || item.holds(x, y) && !other.holds(x, y),
{
    let right: i32 = common.x + common.width;
    let bottom: i32 = common.y + common.height;
    push_area(rects, Rect { x: item.x, y: item.y, width: item.width, height: common.y - item.y });
    push_area(
        rects,
        Rect { x: item.x, y: common.y, width: common.x - item.x, height: common.height },
    );
    push_area(
        rects,
        Rect { x: right, y: common.y, width: item.x + item.width - right, height: common.height },
    );
    push_area(
        rects,
        Rect { x: item.x, y: bottom, width: item.width, height: item.y + item.height - bottom },
    );
}

/// What one rectangle leaves of a set of rectangles. Those that it does not
/// touch come first.
fn subtract_rect(rects: &Vec<Rect>, other: Rect) -> (r: Vec<Rect>)
    requires
        forall|i: int| 0 <= i < rects@.len() ==> (#[trigger] rects@[i]).wf(),
        other.wf(),
    ensures
        forall|i: int| 0 <= i < r@.len() ==> (#[trigger] r@[i]).wf(),
        forall|x: int, y: int| #[trigger]
            geometry::covered(r@, x, y) <==> geometry::covered(rects@, x, y) && !other.holds(x, y),
{
    let mut left: Vec<Rect> = Vec::new();
    let mut rest: Vec<Rect> = Vec::new();
    for i in 0..rects.len()
        invariant
            forall|j: int| 0 <= j < rects@.len() ==> (#[trigger] rects@[j]).wf(),
            other.wf(),
            forall|j: int| 0 <= j < left@.len() ==> (#[trigger] left@[j]).wf(),
            forall|j: int| 0 <= j < rest@.len() ==> (#[trigger] rest@[j]).wf(),
            forall|x: int, y: int|
                #![trigger geometry::covered(left@, x, y)]
                #![trigger geometry::covered(rest@, x, y)]
                geometry::covered(left@, x, y) || geometry::covered(rest@, x, y)
                    <==> geometry::covered(rects@.take(i as int), x, y) && !other.holds(x, y),
    {
        let ghost former = rects@.take(i as int);
        let ghost left_before = left@;
        let ghost rest_before = rest@;
        let item = rects[i];
        assert(item.wf());
        assert(rects@.take(i + 1) =~= former.push(item));
        match geometry::intersection(item, other) {
            Some(common) => push_rest(&mut rest, item, other, common),
            None => left.push(item),
        }
        proof {
            assert forall|x: int, y: int|
                #![trigger geometry::covered(left@, x, y)]
                #![trigger geometry::covered(rest@, x, y)]
                geometry::covered(left@, x, y) || geometry::covered(rest@, x, y)
                    <==> geometry::covered(rects@.take(i + 1), x, y) && !other.holds(x, y) by {
                lemma_covered_push(former, item, x, y);
                lemma_covered_push(left_before, item, x, y);
                assert(geometry::covered(left_before, x, y) || geometry::covered(rest_before, x, y)
                    <==> geometry::covered(former, x, y) && !other.holds(x, y));
            }
        }
    }
    assert(rects@.take(rects@.len() as int) =~= rects@);
    let ghost untouched = left@;
    let ghost cut = rest@;
    left.append(&mut rest);
    proof {
        assert(left@ =~= untouched + cut);
        assert forall|x: int, y: int| #[trigger]
            geometry::covered(left@, x, y) <==> geometry::covered(rects@, x, y) && !other.holds(
                x,
                y,
            ) by {
            lemma_covered_append(untouched, cut, x, y);
            assert(geometry::covered(untouched, x, y) || geometry::covered(cut, x, y)
                <==> geometry::covered(rects@, x, y) && !other.holds(x, y));
        }
    }
    left
}

/// What is left of a set of rectangles without another set.
fn subtract_rects(rects: Vec<Rect>, others: &Vec<Rect>) -> (r: Vec<Rect>)
    requires
        forall|i: int| 0 <= i < rects@.len() ==> (#[trigger] rects@[i]).wf(),
        forall|i: int| 0 <= i < others@.len() ==> (#[trigger] others@[i]).wf(),
    ensures
        is_difference(r@, rects@, others@),
{
    let ghost all = rects@;
    let mut left = rects;
    for i in 0..others.len()
        invariant
            forall|j: int| 0 <= j < left@.len() ==> (#[trigger] left@[j]).wf(),
            forall|j: int| 0 <= j < others@.len() ==> (#[trigger] others@[j]).wf(),
            is_difference(left@, all, others@.take(i as int)),
    {
        let ghost former = others@.take(i as int);
        let ghost before = left@;
        let other = others[i];
        assert(other.wf());
        assert(others@.take(i + 1) =~= former.push(other));
        left = subtract_rect(&left, other);
        proof {
            assert forall|x: int, y: int| #[trigger]
                geometry::covered(left@, x, y) <==> geometry::covered(all, x, y)
                    && !geometry::covered(others@.take(i + 1), x, y) by {
                lemma_covered_push(former, other, x, y);
                assert(geometry::covered(before, x, y) <==> geometry::covered(all, x, y)
                    && !geometry::covered(former, x, y));
            }
        }
    }
    assert(others@.take(others@.len() as int) =~= others@);
    left
}

/// What a clip does not affect lies inside of it and away from its corners.
pub proof fn unaffected_content_is_drawn_whole(clip: RoundedClip, area: Rect, x: int, y: int)
    requires
        clip.wf(),
        area.width >= 0,
        area.height >= 0,
        !clip.changes(area),
        area.holds(x, y),
    ensures
        clip.rect.holds(x, y),
        !geometry::covered(clip.squares(), x, y),
{
    assert(geometry::overlap(clip.rect, area) == Some(area));
    if geometry::covered(clip.squares(), x, y) {
        let i = choose|i: int|
            0 <= i < clip.squares().len() && (#[trigger] clip.squares()[i]).holds(x, y);
        assert(!clip.squares()[i].is_empty());
        assert(geometry::overlapping(clip.squares()[i], area));
    }
}

/// Window frames are damaged in their own coordinates; this is the part of the
/// damage that falls on the titlebar, in the titlebar's coordinates.
pub open spec fn damage_on_titlebar(damage: Seq<Rect>, border: int, width: i32, height: i32) -> Seq<
    Rect,
>
    decreases damage.len(),
{
    if damage.len() == 0 {
        Seq::empty()
    } else {
        let rest = damage_on_titlebar(damage.drop_last(), border, width, height);
        let rect = damage.last();
        let local = Rect {
            x: (rect.x - border) as i32,
            y: (rect.y - border) as i32,
            width: rect.width,
            height: rect.height,
        };
        match geometry::overlap(local, Rect { x: 0, y: 0, width, height }) {
            Some(part) => rest.push(part),
            None => rest,
        }
    }
}

/// Where the titlebar of a drawn frame lies and which parts of it to repaint.
#[derive(Debug)]
pub struct TitlebarRepaint {
    pub area: Rect,
    pub damage: Vec<Rect>,
}

/// The titlebar inside of a frame drawn at `frame`.
pub open spec fn titlebar_area(frame: Rect, border: int, height: int) -> geometry::Box2 {
    geometry::Box2 {
        x: frame.x + border,
        y: frame.y + border,
        width: geometry::greatest(frame.width - 2 * border, 0),
        height,
    }
}

/// What to repaint of the titlebar of a frame drawn at `frame`; nothing where
/// the titlebar has no area or none of it is damaged. `border` and `height`
/// are in pixels of the output.
pub fn titlebar_repaint(frame: Rect, border: i32, height: i32, damage: &Vec<Rect>) -> (r: Option<
    TitlebarRepaint,
>)
    requires
        border >= 0,
        height >= 0,
        titlebar_area(frame, border as int, height as int).fits(),
        geometry::fits(frame.width - 2 * border),
        forall|i: int|
            0 <= i < damage@.len() ==> (#[trigger] damage@[i]).width >= 0 && damage@[i].height >= 0
                && geometry::fits(damage@[i].x - border) && geometry::fits(damage@[i].y - border),
    ensures
        ({
            let area = titlebar_area(frame, border as int, height as int);
            let parts = damage_on_titlebar(damage@, border as int, area.width as i32, height);
            if area.width == 0 || height == 0 || parts.len() == 0 {
                r is None
            } else {
                r is Some && r->0.area == area.rect() && r->0.damage@ == parts
            }
        }),
{
    let inner: i64 = frame.width as i64 - 2 * border as i64;
    let width: i32 = if inner > 0 {
        inner as i32
    } else {
        0
    };
    if width == 0 || height == 0 {
        return None;
    }
    let local = Rect { x: 0, y: 0, width, height };
    let mut parts: Vec<Rect> = Vec::new();
    for i in 0..damage.len()
        invariant
            border >= 0,
            width >= 0,
            height >= 0,
            local == (Rect { x: 0, y: 0, width, height }),
            forall|j: int|
                0 <= j < damage@.len() ==> (#[trigger] damage@[j]).width >= 0 && damage@[j].height
                    >= 0 && geometry::fits(damage@[j].x - border) && geometry::fits(
                    damage@[j].y - border,
                ),
            parts@ == damage_on_titlebar(
                damage@.take(i as int),
                border as int,
                width,
                height,
            ),
    {
        let rect = damage[i];
        assert(rect.width >= 0);
        assert(damage@.take(i + 1).drop_last() =~= damage@.take(i as int));
        let here = Rect {
            x: rect.x - border,
            y: rect.y - border,
            width: rect.width,
            height: rect.height,
        };
        match geometry::intersection(here, local) {
            Some(part) => {
                parts.push(part);
            },
            None => {},
        }
    }
    assert(damage@.take(damage@.len() as int) =~= damage@);
    if parts.len() == 0 {
        return None;
    }
    Some(
        TitlebarRepaint {
            area: Rect { x: frame.x + border, y: frame.y + border, width, height },
            damage: parts,
        },
    )
}

} // verus!
