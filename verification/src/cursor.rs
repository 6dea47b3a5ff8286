//! Pointer images: choosing them from a theme, animating them, and the arrow
//! that is drawn without one.

use crate::geometry;
use crate::geometry::Location;
use crate::text;
use vstd::prelude::*;

verus! {

pub const DEFAULT_THEME: &'static str = "default";

pub const DEFAULT_SIZE: u32 = 24;

/// One image of a cursor file.
#[derive(Debug)]
pub struct CursorImage {
    /// The size that the image is meant for.
    pub size: u32,
    pub width: u32,
    pub height: u32,
    pub xhot: u32,
    pub yhot: u32,
    /// How long the image is shown, in milliseconds.
    pub delay: u32,
    /// The pixels, four bytes each.
    pub pixels: Vec<u8>,
}

pub struct ImageModel {
    pub size: u32,
    pub width: u32,
    pub height: u32,
    pub xhot: u32,
    pub yhot: u32,
    pub delay: u32,
    pub pixels: Seq<u8>,
}

impl View for CursorImage {
    type V = ImageModel;

    open spec fn view(&self) -> ImageModel {
        ImageModel {
            size: self.size,
            width: self.width,
            height: self.height,
            xhot: self.xhot,
            yhot: self.yhot,
            delay: self.delay,
            pixels: self.pixels@,
        }
    }
}

impl ImageModel {
    /// The image has an extent, four bytes for every pixel and its hotspot on
    /// it or on its far edge.
    pub open spec fn well_formed(self) -> bool {
        &&& 0 < self.width <= 0x7fff
        &&& 0 < self.height <= 0x7fff
        &&& self.xhot <= self.width
        &&& self.yhot <= self.height
        &&& self.pixels.len() == 4 * self.width * self.height
    }

    /// The image as a frame of a cursor drawn at a buffer scale.
    pub open spec fn frame(self, scale: int) -> FrameModel {
        FrameModel {
            width: self.width,
            height: self.height,
            pixels: self.pixels,
            hotspot: Location {
                x: geometry::quotient((self.xhot as i32) as int, scale) as i32,
                y: geometry::quotient((self.yhot as i32) as int, scale) as i32,
            },
            delay: self.delay as nat,
        }
    }
}

pub open spec fn images(values: Seq<CursorImage>) -> Seq<ImageModel> {
    values.map_values(|image: CursorImage| image@)
}

/// `xcursor::parser::parse_xcursor`: the images of a cursor file.
pub uninterp spec fn xcursor_images(file: Seq<u8>) -> Option<Seq<ImageModel>>;

/// Calls `xcursor::parser::parse_xcursor`, whose result depends on the bytes
/// alone. Every image that it hands out has passed its checks: an extent of at
/// most 0x7fff on each side and none of zero, the hotspot at most at the far
/// edge, and four bytes read for each pixel.
#[verifier::external_body]
fn parse_xcursor(file: &[u8]) -> (r: Option<Vec<CursorImage>>)
    ensures
        match r {
            Some(found) => {
                &&& xcursor_images(file@) == Some(images(found@))
                &&& forall|i: int|
                    0 <= i < found@.len() ==> (#[trigger] images(found@)[i]).well_formed()
            },
            None => xcursor_images(file@) is None,
        },
{
    xcursor::parser::parse_xcursor(file).map(
        |found|
            found.into_iter().map(
                |image| CursorImage {
                    size: image.size,
                    width: image.width,
                    height: image.height,
                    xhot: image.xhot,
                    yhot: image.yhot,
                    delay: image.delay,
                    pixels: image.pixels_rgba,
                },
            ).collect(),
    )
}

/// What is drawn for a pointer at one moment.
#[derive(Debug)]
pub struct CursorFrame {
    pub width: u32,
    pub height: u32,
    pub pixels: Vec<u8>,
    /// The pixel that points, in logical pixels.
    pub hotspot: Location,
    pub delay_ms: u32,
}

pub struct FrameModel {
    pub width: u32,
    pub height: u32,
    pub pixels: Seq<u8>,
    pub hotspot: Location,
    pub delay: nat,
}

impl View for CursorFrame {
    type V = FrameModel;

    open spec fn view(&self) -> FrameModel {
        FrameModel {
            width: self.width,
            height: self.height,
            pixels: self.pixels@,
            hotspot: self.hotspot,
            delay: self.delay_ms as nat,
        }
    }
}

pub open spec fn frames(values: Seq<CursorFrame>) -> Seq<FrameModel> {
    values.map_values(|frame: CursorFrame| frame@)
}

/// How far a size is from the wanted one.
pub open spec fn distance(size: u32, nominal: int) -> int {
    if size >= nominal {
        size - nominal
    } else {
        nominal - size
    }
}

/// The size nearest to the wanted one, the first such where several are.
pub open spec fn closest(found: Seq<ImageModel>, nominal: int) -> Option<u32>
    decreases found.len(),
{
    if found.len() == 0 {
        None
    } else {
        match closest(found.drop_last(), nominal) {
            Some(best) if distance(best, nominal) <= distance(found.last().size, nominal) => Some(
                best,
            ),
            _ => Some(found.last().size),
        }
    }
}

/// The image is meant for the size.
pub open spec fn of_size(size: u32) -> spec_fn(ImageModel) -> bool {
    |image: ImageModel| image.size == size
}

/// The frames of those images that are meant for the size, in order.
pub open spec fn frames_of_size(found: Seq<ImageModel>, size: u32, scale: int) -> Seq<FrameModel> {
    found.filter(of_size(size)).map_values(|image: ImageModel| image.frame(scale))
}

/// How long the first `n` frames are shown together.
pub open spec fn elapsed(shown: Seq<FrameModel>, n: int) -> nat
    decreases n,
{
    if n <= 0 {
        0
    } else {
        elapsed(shown, n - 1) + shown[n - 1].delay
    }
}

/// The frame that is shown at an offset into the animation, counted from the
/// start of frame `from`; the first one past the end.
pub open spec fn shown_at(shown: Seq<FrameModel>, from: int, offset: int) -> int
    decreases shown.len() - from,
{
    if from < 0 || from >= shown.len() {
        0
    } else if offset < shown[from].delay {
        from
    } else {
        shown_at(shown, from + 1, offset - shown[from].delay)
    }
}

/// A pointer image that may be animated.
#[derive(Debug)]
pub struct LoadedCursor {
    pub frames: Vec<CursorFrame>,
    pub duration_ms: u128,
}

pub struct CursorModel {
    pub frames: Seq<FrameModel>,
    pub duration: nat,
}

impl View for LoadedCursor {
    type V = CursorModel;

    open spec fn view(&self) -> CursorModel {
        CursorModel { frames: frames(self.frames@), duration: self.duration_ms as nat }
    }
}

impl CursorModel {
    /// There is something to draw, and the frames fill the duration.
    pub open spec fn wf(self) -> bool {
        &&& self.frames.len() > 0
        &&& self.duration == elapsed(self.frames, self.frames.len() as int)
    }

    /// The cursor with these frames.
    pub open spec fn of(shown: Seq<FrameModel>) -> CursorModel {
        CursorModel { frames: shown, duration: elapsed(shown, shown.len() as int) }
    }

    /// The frame to draw at a time in milliseconds.
    pub open spec fn index_at(self, time: nat) -> int {
        if self.duration == 0 || self.frames.len() == 1 {
            0
        } else {
            shown_at(self.frames, 0, (time % self.duration) as int)
        }
    }

    pub open spec fn animated(self) -> bool {
        self.frames.len() > 1 && self.duration > 0
    }
}

proof fn lemma_shown_at(shown: Seq<FrameModel>, from: int, offset: int)
    requires
        0 <= from <= shown.len(),
        0 <= offset,
    ensures
        ({
            let i = shown_at(shown, from, offset);
            let at = elapsed(shown, from) + offset;
            &&& shown.len() > 0 ==> 0 <= i < shown.len()
            &&& at < elapsed(shown, shown.len() as int) ==> from <= i && elapsed(shown, i) <= at
                < elapsed(shown, i + 1)
        }),
    decreases shown.len() - from,
{
    if from < shown.len() && offset >= shown[from].delay {
        assert(elapsed(shown, from + 1) == elapsed(shown, from) + shown[from].delay);
        lemma_shown_at(shown, from + 1, offset - shown[from].delay);
    }
}

/// Each frame of an animation is shown for its own delay, one after the other,
/// and the animation starts over when all have been shown.
pub proof fn frames_are_shown_for_their_delay(cursor: CursorModel, time: nat)
    requires
        cursor.wf(),
        cursor.animated(),
    ensures
        0 <= cursor.index_at(time) < cursor.frames.len(),
        elapsed(cursor.frames, cursor.index_at(time)) <= time % cursor.duration < elapsed(
            cursor.frames,
            cursor.index_at(time) + 1,
        ),
        cursor.index_at(time + cursor.duration) == cursor.index_at(time),
{
    lemma_shown_at(cursor.frames, 0, (time % cursor.duration) as int);
    vstd::arithmetic::div_mod::lemma_mod_add_multiples_vanish(time as int, cursor.duration as int);
}

/// No image is nearer to the wanted size than those that are chosen.
pub proof fn the_nearest_size_is_chosen(found: Seq<ImageModel>, nominal: int)
    ensures
        match closest(found, nominal) {
            Some(best) => {
                &&& exists|i: int| 0 <= i < found.len() && (#[trigger] found[i]).size == best
                &&& forall|i: int|
                    0 <= i < found.len() ==> distance(best, nominal) <= distance(
                        (#[trigger] found[i]).size,
                        nominal,
                    )
            },
            None => found.len() == 0,
        },
    decreases found.len(),
{
    if found.len() > 0 {
        let fewer = found.drop_last();
        the_nearest_size_is_chosen(fewer, nominal);
        assert(forall|i: int| 0 <= i < fewer.len() ==> fewer[i] == #[trigger] found[i]);
        assert(found[found.len() - 1] == found.last());
        match closest(fewer, nominal) {
            Some(best) => {
                let i = choose|i: int| 0 <= i < fewer.len() && (#[trigger] fewer[i]).size == best;
                assert(found[i].size == best);
            },
            None => {},
        }
    }
}

impl LoadedCursor {
    /// The frame to draw at `time_ms`.
    pub fn frame_at(&self, time_ms: u128) -> (frame: &CursorFrame)
        requires
            self@.wf(),
        ensures
            0 <= self@.index_at(time_ms as nat) < self.frames@.len(),
            *frame == self.frames@[self@.index_at(time_ms as nat)],
    {
        let ghost shown = self@.frames;
        if self.duration_ms == 0 || self.frames.len() == 1 {
            return &self.frames[0];
        }
        let mut offset: u128 = time_ms % self.duration_ms;
        proof {
            lemma_shown_at(shown, 0, offset as int);
        }
        let ghost start = offset;
        for i in 0..self.frames.len()
            invariant
                shown == self@.frames,
                self@.wf(),
                0 <= shown_at(shown, 0, start as int) < self.frames@.len(),
                shown_at(shown, 0, start as int) == shown_at(shown, i as int, offset as int),
                self@.index_at(time_ms as nat) == shown_at(shown, 0, start as int),
        {
            let delay: u128 = self.frames[i].delay_ms as u128;
            assert(shown[i as int].delay == delay);
            if offset < delay {
                return &self.frames[i];
            }
            offset = offset - delay;
        }
        &self.frames[0]
    }

    /// Whether the drawn frame changes over time.
    pub fn is_animated(&self) -> (r: bool)
        ensures
            r == self@.animated(),
    {
        self.frames.len() > 1 && self.duration_ms > 0
    }
}

fn nearest_size(found: &Vec<CursorImage>, nominal: u32) -> (best: Option<u32>)
    ensures
        best == closest(images(found@), nominal as int),
{
    let mut best: Option<u32> = None;
    let ghost all = images(found@);
    for i in 0..found.len()
        invariant
            all == images(found@),
            best == closest(all.take(i as int), nominal as int),
    {
        let size: u32 = found[i].size;
        assert(all.take(i + 1).drop_last() =~= all.take(i as int));
        assert(all.take(i + 1).last() == all[i as int]);
        match best {
            Some(current) => {
                if gap(size, nominal) < gap(current, nominal) {
                    best = Some(size);
                }
            },
            None => {
                best = Some(size);
            },
        }
    }
    assert(all.take(all.len() as int) =~= all);
    best
}

fn gap(size: u32, nominal: u32) -> (r: u32)
    ensures
        r == distance(size, nominal as int),
{
    if size >= nominal {
        size - nominal
    } else {
        nominal - size
    }
}

proof fn lemma_elapsed_prefix(shown: Seq<FrameModel>, more: FrameModel, n: int)
    requires
        n <= shown.len(),
    ensures
        elapsed(shown.push(more), n) == elapsed(shown, n),
    decreases n,
{
    if n > 0 {
        lemma_elapsed_prefix(shown, more, n - 1);
    }
}

fn hotspot_of(hot: u32, scale: i32) -> (r: i32)
    requires
        scale >= 1,
    ensures
        r == geometry::quotient((hot as i32) as int, scale as int),
{
    let place: i32 = #[verifier::truncate]
    (hot as i32);
    if place >= 0 {
        place / scale
    } else {
        let away: i64 = 0 - place as i64;
        proof {
            vstd::arithmetic::div_mod::lemma_div_is_ordered_by_denominator(
                away as int,
                1,
                scale as int,
            );
            vstd::arithmetic::div_mod::lemma_div_basics(away as int);
        }
        (0 - (away / scale as i64)) as i32
    }
}

/// The cursor made of those images that come nearest to the wanted size.
pub fn cursor_from_images(found: Vec<CursorImage>, nominal: u32, scale: i32) -> (cursor: Option<
    LoadedCursor,
>)
    requires
        scale >= 1,
    ensures
        match closest(images(found@), nominal as int) {
            Some(best) => cursor is Some && cursor->0@ == CursorModel::of(
                frames_of_size(images(found@), best, scale as int),
            ) && cursor->0@.wf(),
            None => cursor is None,
        },
{
    let best: u32 = match nearest_size(&found, nominal) {
        Some(best) => best,
        None => {
            return None;
        },
    };
    let ghost all = images(found@);
    let ghost keep = of_size(best);
    let mut shown: Vec<CursorFrame> = Vec::new();
    let mut duration_ms: u128 = 0;
    let count: usize = found.len();
    for image in iter: found
        invariant
            scale >= 1,
            keep == of_size(best),
            all == images(iter.seq()),
            frames(shown@) == frames_of_size(
                all.take(iter.index() as int),
                best,
                scale as int,
            ),
            duration_ms == elapsed(frames(shown@), shown@.len() as int),
            shown@.len() <= iter.index(),
            iter.seq().len() == count,
            duration_ms <= shown@.len() * u32::MAX,
    {
        let ghost i = iter.index() as int;
        let ghost before = frames(shown@);
        proof {
            assert(all[i] == image@);
            crate::seqs::lemma_filter_take(all, i, keep);
            assert(all.take(i + 1) =~= all.take(i).push(all[i]));
            crate::seqs::lemma_filter_push(all.take(i), all[i], keep);
        }
        if image.size == best {
            let frame = CursorFrame {
                width: image.width,
                height: image.height,
                pixels: image.pixels,
                hotspot: Location {
                    x: hotspot_of(image.xhot, scale),
                    y: hotspot_of(image.yhot, scale),
                },
                delay_ms: image.delay,
            };
            proof {
                assert(frame@ == all[i].frame(scale as int));
                assert(shown@.len() * u32::MAX + frame.delay_ms <= (shown@.len() + 1) * u32::MAX)
                    by (nonlinear_arith)
                    requires
                        frame.delay_ms <= u32::MAX,
                ;
                assert(shown@.len() * u32::MAX <= usize::MAX * u32::MAX) by (nonlinear_arith)
                    requires
                        shown@.len() <= usize::MAX,
                ;
                assert(usize::MAX * u32::MAX <= 0xffff_ffff_ffff_ffff * u32::MAX)
                    by (nonlinear_arith)
                    requires
                        usize::MAX <= 0xffff_ffff_ffff_ffff,
                ;
                lemma_elapsed_prefix(before, frame@, before.len() as int);
            }
            duration_ms = duration_ms + image.delay as u128;
            shown.push(frame);
            assert(frames(shown@) =~= before.push(frame@));
            assert(frames_of_size(all.take(i + 1), best, scale as int) =~= frames_of_size(
                all.take(i),
                best,
                scale as int,
            ).push(all[i].frame(scale as int)));
        }
    }
    proof {
        assert(all.take(all.len() as int) =~= all);
        the_nearest_size_is_chosen(all, nominal as int);
        let i = choose|i: int| 0 <= i < all.len() && (#[trigger] all[i]).size == best;
        crate::seqs::lemma_filter_contains(all, keep, all[i]);
        assert(all.contains(all[i]));
    }
    Some(LoadedCursor { frames: shown, duration_ms })
}

/// The row of the built-in arrow: `X` is its outline, `.` its inside.
pub open spec fn arrow_row(y: int) -> Seq<char> {
    if y == 0 {
        "X          "@
    } else if y == 1 {
        "XX         "@
    } else if y == 2 {
        "X.X        "@
    } else if y == 3 {
        "X..X       "@
    } else if y == 4 {
        "X...X      "@
    } else if y == 5 {
        "X....X     "@
    } else if y == 6 {
        "X.....X    "@
    } else if y == 7 {
        "X......X   "@
    } else if y == 8 {
        "X.......X  "@
    } else if y == 9 {
        "X........X "@
    } else if y == 10 {
        "X.....XXXXX"@
    } else if y == 11 {
        "X..X..X    "@
    } else if y == 12 {
        "X.X X..X   "@
    } else if y == 13 {
        "XX  X..X   "@
    } else if y == 14 {
        "X    X..X  "@
    } else if y == 15 {
        "     X..X  "@
    } else {
        "      XX   "@
    }
}

fn arrow_line(y: usize) -> (row: &'static str)
    ensures
        row@ == arrow_row(y as int),
        row@.len() == 11,
{
    proof {
        reveal_strlit("X          ");
        reveal_strlit("XX         ");
        reveal_strlit("X.X        ");
        reveal_strlit("X..X       ");
        reveal_strlit("X...X      ");
        reveal_strlit("X....X     ");
        reveal_strlit("X.....X    ");
        reveal_strlit("X......X   ");
        reveal_strlit("X.......X  ");
        reveal_strlit("X........X ");
        reveal_strlit("X.....XXXXX");
        reveal_strlit("X..X..X    ");
        reveal_strlit("X.X X..X   ");
        reveal_strlit("XX  X..X   ");
        reveal_strlit("X    X..X  ");
        reveal_strlit("     X..X  ");
        reveal_strlit("      XX   ");
    }
    if y == 0 {
        "X          "
    } else if y == 1 {
        "XX         "
    } else if y == 2 {
        "X.X        "
    } else if y == 3 {
        "X..X       "
    } else if y == 4 {
        "X...X      "
    } else if y == 5 {
        "X....X     "
    } else if y == 6 {
        "X.....X    "
    } else if y == 7 {
        "X......X   "
    } else if y == 8 {
        "X.......X  "
    } else if y == 9 {
        "X........X "
    } else if y == 10 {
        "X.....XXXXX"
    } else if y == 11 {
        "X..X..X    "
    } else if y == 12 {
        "X.X X..X   "
    } else if y == 13 {
        "XX  X..X   "
    } else if y == 14 {
        "X    X..X  "
    } else if y == 15 {
        "     X..X  "
    } else {
        "      XX   "
    }
}

/// The four bytes of a pixel that shows a cell of the arrow.
pub open spec fn cell_pixel(cell: char) -> Seq<u8> {
    if cell == 'X' {
        seq![0x10u8, 0x10u8, 0x10u8, 0xffu8]
    } else if cell == '.' {
        seq![0xf0u8, 0xf0u8, 0xf0u8, 0xffu8]
    } else {
        seq![0u8, 0u8, 0u8, 0u8]
    }
}

/// The cell of the arrow that pixel `p` shows when each cell is `factor`
/// pixels wide and high.
pub open spec fn arrow_cell(p: int, factor: int) -> char {
    arrow_row((p / (11 * factor)) / factor)[(p % (11 * factor)) / factor]
}

/// The pixels of the enlarged arrow, row by row.
pub open spec fn arrow_pixels(factor: int) -> Seq<u8> {
    Seq::new(
        (748 * factor * factor) as nat,
        |i: int| cell_pixel(arrow_cell(i / 4, factor))[i % 4],
    )
}

proof fn lemma_cell_inside(p: int, factor: int)
    requires
        factor > 0,
        0 <= p < 187 * factor * factor,
    ensures
        0 <= (p / (11 * factor)) / factor < 17,
        0 <= (p % (11 * factor)) / factor < 11,
{
    let width = 11 * factor;
    let row = p / width;
    let column = p % width;
    assert(p == width * row + column && 0 <= column < width && row >= 0) by (nonlinear_arith)
        requires
            width > 0,
            p >= 0,
            row == p / width,
            column == p % width,
    ;
    assert(row < 17 * factor) by (nonlinear_arith)
        requires
            width == 11 * factor,
            factor > 0,
            p == width * row + column,
            column >= 0,
            p < 187 * factor * factor,
    ;
    assert(0 <= row / factor < 17) by (nonlinear_arith)
        requires
            0 <= row < 17 * factor,
            factor > 0,
    ;
    assert(0 <= column / factor < 11) by (nonlinear_arith)
        requires
            0 <= column < 11 * factor,
            factor > 0,
    ;
}

/// The built-in arrow with each of its cells `factor` pixels wide and high:
/// the pixels, the width and the height.
pub fn fallback_pixels(factor: usize) -> (r: (Vec<u8>, usize, usize))
    requires
        factor >= 1,
        748 * factor * factor <= usize::MAX,
    ensures
        r.0@ == arrow_pixels(factor as int),
        r.1 == 11 * factor,
        r.2 == 17 * factor,
{
    proof {
        assert(11 * factor <= 748 * factor * factor && 17 * factor <= 748 * factor * factor && 187
            * factor * factor <= 748 * factor * factor && 187 * factor <= 187 * factor * factor)
            by (nonlinear_arith)
            requires
                factor >= 1,
        ;
    }
    let width: usize = 11 * factor;
    let height: usize = 17 * factor;
    let count: usize = 187 * factor * factor;
    let mut rows: Vec<Vec<char>> = Vec::new();
    for y in 0..17usize
        invariant
            rows@.len() == y,
            forall|j: int|
                0 <= j < y ==> (#[trigger] rows@[j])@ == arrow_row(j) && rows@[j]@.len() == 11,
    {
        rows.push(text::chars_of(arrow_line(y)));
    }
    let mut pixels: Vec<u8> = Vec::new();
    for p in 0..count
        invariant
            factor >= 1,
            width == 11 * factor,
            count == 187 * factor * factor,
            rows@.len() == 17,
            forall|j: int|
                0 <= j < 17 ==> (#[trigger] rows@[j])@ == arrow_row(j) && rows@[j]@.len() == 11,
            pixels@.len() == 4 * p,
            forall|i: int|
                0 <= i < 4 * p ==> #[trigger] pixels@[i] == cell_pixel(
                    arrow_cell(i / 4, factor as int),
                )[i % 4],
    {
        proof {
            lemma_cell_inside(p as int, factor as int);
        }
        let row: usize = (p / width) / factor;
        let column: usize = (p % width) / factor;
        let cell: char = rows[row][column];
        assert(cell == arrow_cell(p as int, factor as int));
        let value: u8 = if cell == 'X' {
            0x10
        } else if cell == '.' {
            0xf0
        } else {
            0
        };
        let alpha: u8 = if cell == 'X' || cell == '.' {
            0xff
        } else {
            0
        };
        pixels.push(value);
        pixels.push(value);
        pixels.push(value);
        pixels.push(alpha);
    }
    assert(748 * factor * factor == 4 * count) by (nonlinear_arith)
        requires
            count == 187 * factor * factor,
    ;
    assert(pixels@ =~= arrow_pixels(factor as int));
    (pixels, width, height)
}

/// How many pixels a cell of the arrow takes at a wanted size.
pub open spec fn arrow_factor(nominal: int) -> int {
    geometry::greatest(nominal / 16, 1)
}

/// The enlarged arrow fits in memory.
pub open spec fn arrow_fits(nominal: int) -> bool {
    748 * arrow_factor(nominal) * arrow_factor(nominal) <= usize::MAX
}

/// The built-in arrow as a cursor.
pub open spec fn arrow_cursor(nominal: int) -> CursorModel {
    CursorModel {
        frames: seq![
            FrameModel {
                width: (11 * arrow_factor(nominal)) as u32,
                height: (17 * arrow_factor(nominal)) as u32,
                pixels: arrow_pixels(arrow_factor(nominal)),
                hotspot: Location { x: 0, y: 0 },
                delay: 0,
            },
        ],
        duration: 0,
    }
}

/// The cursor that is drawn where the theme has none.
pub fn fallback_cursor(nominal: u32) -> (cursor: LoadedCursor)
    requires
        arrow_fits(nominal as int),
    ensures
        cursor@ == arrow_cursor(nominal as int),
        cursor@.wf(),
        cursor.frames@[0].width == 11 * arrow_factor(nominal as int),
        cursor.frames@[0].height == 17 * arrow_factor(nominal as int),
{
    let sixteenth: usize = nominal as usize / 16;
    let factor: usize = if sixteenth >= 1 {
        sixteenth
    } else {
        1
    };
    let (pixels, width, height) = fallback_pixels(factor);
    assert(17 * factor <= u32::MAX) by (nonlinear_arith)
        requires
            factor <= 0xfff_ffff,
            748 * factor * factor <= 0xffff_ffff_ffff_ffff,
    ;
    let mut shown: Vec<CursorFrame> = Vec::new();
    shown.push(
        CursorFrame {
            width: width as u32,
            height: height as u32,
            pixels,
            hotspot: Location { x: 0, y: 0 },
            delay_ms: 0,
        },
    );
    assert(frames(shown@) =~= arrow_cursor(nominal as int).frames);
    reveal_with_fuel(elapsed, 2);
    LoadedCursor { frames: shown, duration_ms: 0 }
}

/// The cursor in a file, if it holds one.
pub open spec fn cursor_in(file: Seq<u8>, nominal: int, scale: int) -> Option<CursorModel> {
    match xcursor_images(file) {
        Some(found) => match closest(found, nominal) {
            Some(best) => Some(CursorModel::of(frames_of_size(found, best, scale))),
            None => None,
        },
        None => None,
    }
}

/// Reads the cursor in a file.
pub fn cursor_from_file(file: &Vec<u8>, nominal: u32, scale: i32) -> (cursor: Option<LoadedCursor>)
    requires
        scale >= 1,
    ensures
        match cursor {
            Some(cursor) => cursor_in(file@, nominal as int, scale as int) == Some(cursor@)
                && cursor@.wf(),
            None => cursor_in(file@, nominal as int, scale as int) is None,
        },
{
    match parse_xcursor(file.as_slice()) {
        Some(found) => cursor_from_images(found, nominal, scale),
        None => None,
    }
}

/// The first cursor that one of the files holds, the arrow where none does.
pub open spec fn cursor_among(files: Seq<Seq<u8>>, nominal: int, scale: int) -> CursorModel
    decreases files.len(),
{
    if files.len() == 0 {
        arrow_cursor(nominal)
    } else {
        match cursor_in(files[0], nominal, scale) {
            Some(cursor) => cursor,
            None => cursor_among(files.drop_first(), nominal, scale),
        }
    }
}

pub open spec fn contents(files: Seq<Vec<u8>>) -> Seq<Seq<u8>> {
    files.map_values(|file: Vec<u8>| file@)
}

/// The cursor for a pointer of `size` logical pixels, out of the files that
/// the theme has under its names, in order of preference.
pub fn load_cursor(files: &Vec<Vec<u8>>, size: u32, scale: i32) -> (cursor: LoadedCursor)
    requires
        scale >= 1,
        size * scale <= u32::MAX,
        arrow_fits(size * scale),
    ensures
        cursor@ == cursor_among(contents(files@), size * scale, scale as int),
        cursor@.wf(),
{
    let nominal: u32 = size * scale as u32;
    let ghost all = contents(files@);
    assert(all.skip(0) =~= all);
    for i in 0..files.len()
        invariant
            scale >= 1,
            nominal == size * scale,
            all == contents(files@),
            cursor_among(all, nominal as int, scale as int) == cursor_among(
                all.skip(i as int),
                nominal as int,
                scale as int,
            ),
    {
        assert(all.skip(i as int)[0] == files@[i as int]@);
        assert(all.skip(i as int).drop_first() =~= all.skip(i + 1));
        match cursor_from_file(&files[i], nominal, scale) {
            Some(cursor) => {
                return cursor;
            },
            None => {},
        }
    }
    assert(all.skip(files@.len() as int).len() == 0);
    fallback_cursor(nominal)
}

/// The names under which a theme may have a cursor, in order of preference.
pub fn cursor_names(name: &str, alternatives: &Vec<String>) -> (names: Vec<String>)
    ensures
        text::strings(names@) == seq![name@] + text::strings(alternatives@) + seq![
            "default"@,
            "left_ptr"@,
        ],
{
    let mut names: Vec<String> = Vec::new();
    names.push(name.to_owned());
    for i in 0..alternatives.len()
        invariant
            names@.len() == i + 1,
            names@[0]@ == name@,
            forall|j: int| 0 <= j < i ==> (#[trigger] names@[j + 1])@ == alternatives@[j]@,
    {
        names.push(alternatives[i].clone());
    }
    names.push("default".to_owned());
    names.push("left_ptr".to_owned());
    assert(text::strings(names@) =~= seq![name@] + text::strings(alternatives@) + seq![
        "default"@,
        "left_ptr"@,
    ]) by {
        assert forall|k: int| 0 <= k < names@.len() implies text::strings(names@)[k] == (seq![name@]
            + text::strings(alternatives@) + seq!["default"@, "left_ptr"@])[k] by {
            if 1 <= k <= alternatives@.len() {
                assert(names@[(k - 1) + 1]@ == alternatives@[k - 1]@);
            }
        }
    }
    names
}

/// The text unless it is missing or blank.
pub open spec fn unless_blank(value: Option<Seq<char>>) -> Option<Seq<char>> {
    match value {
        Some(name) => if text::blank(name) {
            None
        } else {
            Some(name)
        },
        None => None,
    }
}

/// The theme to use: the configured one, else the one of the environment, else
/// the default one. A blank name counts as none.
pub open spec fn theme_choice(configured: Option<Seq<char>>, environment: Option<Seq<char>>) -> Seq<
    char,
> {
    match unless_blank(configured) {
        Some(name) => name,
        None => match unless_blank(environment) {
            Some(name) => name,
            None => DEFAULT_THEME@,
        },
    }
}

pub fn resolve_theme(configured: &Option<String>, environment: &Option<String>) -> (theme: String)
    ensures
        theme@ == theme_choice(text::option(*configured), text::option(*environment)),
{
    if let Some(name) = configured {
        if !text::is_blank(name.as_str()) {
            return name.clone();
        }
    }
    if let Some(name) = environment {
        if !text::is_blank(name.as_str()) {
            return name.clone();
        }
    }
    DEFAULT_THEME.to_owned()
}

/// The size to use: the configured one, else the number in the environment.
/// One that is missing or not within 8 and 256 gives the default.
pub open spec fn size_choice(configured: Option<u32>, environment: Option<Seq<char>>) -> u32 {
    let wanted: Option<int> = match configured {
        Some(size) => Some(size as int),
        None => match environment {
            Some(number) => match text::unsigned(number, u32::MAX as nat) {
                Some(size) => Some(size as int),
                None => None,
            },
            None => None,
        },
    };
    match wanted {
        Some(size) => if 8 <= size <= 256 {
            size as u32
        } else {
            DEFAULT_SIZE
        },
        None => DEFAULT_SIZE,
    }
}

pub fn resolve_size(configured: Option<u32>, environment: &Option<String>) -> (size: u32)
    ensures
        size == size_choice(configured, text::option(*environment)),
{
    let wanted: Option<u64> = match configured {
        Some(size) => Some(size as u64),
        None => match environment {
            Some(number) => text::parse_unsigned(
                text::chars_of(number.as_str()).as_slice(),
                u32::MAX as u64,
            ),
            None => None,
        },
    };
    match wanted {
        Some(size) => if 8 <= size && size <= 256 {
            size as u32
        } else {
            DEFAULT_SIZE
        },
        None => DEFAULT_SIZE,
    }
}

/// A cursor that was loaded for an icon at a buffer scale.
#[derive(Debug)]
pub struct CachedCursor {
    pub icon: String,
    pub scale: i32,
    pub cursor: LoadedCursor,
}

pub struct EntryModel {
    pub icon: Seq<char>,
    pub scale: int,
    pub cursor: CursorModel,
}

impl View for CachedCursor {
    type V = EntryModel;

    open spec fn view(&self) -> EntryModel {
        EntryModel { icon: self.icon@, scale: self.scale as int, cursor: self.cursor@ }
    }
}

pub open spec fn entries(values: Seq<CachedCursor>) -> Seq<EntryModel> {
    values.map_values(|entry: CachedCursor| entry@)
}

/// The first entry for the icon at the scale.
pub open spec fn lookup(cached: Seq<EntryModel>, icon: Seq<char>, scale: int) -> Option<CursorModel>
    decreases cached.len(),
{
    if cached.len() == 0 {
        None
    } else if cached[0].icon == icon && cached[0].scale == scale {
        Some(cached[0].cursor)
    } else {
        lookup(cached.drop_first(), icon, scale)
    }
}

proof fn lemma_lookup_push(cached: Seq<EntryModel>, more: EntryModel)
    requires
        lookup(cached, more.icon, more.scale) is None,
    ensures
        lookup(cached.push(more), more.icon, more.scale) == Some(more.cursor),
        forall|icon: Seq<char>, scale: int|
            !(icon == more.icon && scale == more.scale) ==> #[trigger] lookup(
                cached.push(more),
                icon,
                scale,
            ) == lookup(cached, icon, scale),
    decreases cached.len(),
{
    assert(cached.push(more)[0] == if cached.len() == 0 {
        more
    } else {
        cached[0]
    });
    if cached.len() > 0 {
        lemma_lookup_push(cached.drop_first(), more);
        assert(cached.push(more).drop_first() =~= cached.drop_first().push(more));
        assert forall|icon: Seq<char>, scale: int|
            !(icon == more.icon && scale == more.scale) implies #[trigger] lookup(
            cached.push(more),
            icon,
            scale,
        ) == lookup(cached, icon, scale) by {
            assert(lookup(cached.drop_first().push(more), icon, scale) == lookup(
                cached.drop_first(),
                icon,
                scale,
            ));
        }
    } else {
        assert(cached.push(more).drop_first() =~= Seq::<EntryModel>::empty());
        assert forall|icon: Seq<char>, scale: int|
            !(icon == more.icon && scale == more.scale) implies #[trigger] lookup(
            cached.push(more),
            icon,
            scale,
        ) == lookup(cached, icon, scale) by {
            assert(lookup(Seq::<EntryModel>::empty(), icon, scale) is None);
        }
    }
}

/// The pointer images in use, each loaded once per icon and buffer scale.
#[derive(Debug)]
pub struct CursorManager {
    pub theme_name: String,
    pub size: u32,
    pub cache: Vec<CachedCursor>,
}

/// The theme, the size and the cursors that were loaded.
pub struct ManagerModel {
    pub theme: Seq<char>,
    pub size: u32,
    pub cache: Seq<EntryModel>,
}

impl View for CursorManager {
    type V = ManagerModel;

    open spec fn view(&self) -> ManagerModel {
        ManagerModel { theme: self.theme_name@, size: self.size, cache: entries(self.cache@) }
    }
}

impl ManagerModel {
    /// The theme has a name, the size can be used, and what was loaded can be
    /// drawn.
    pub open spec fn wf(self) -> bool {
        &&& !text::blank(self.theme)
        &&& 8 <= self.size <= 256
        &&& forall|i: int| 0 <= i < self.cache.len() ==> (#[trigger] self.cache[i]).cursor.wf()
    }

    /// What was loaded for the icon; a scale below one counts as one.
    pub open spec fn cursor(self, icon: Seq<char>, scale: int) -> Option<CursorModel> {
        lookup(self.cache, icon, geometry::greatest(scale, 1))
    }

    /// Nothing was loaded yet.
    pub open spec fn fresh(theme: Seq<char>, size: u32) -> ManagerModel {
        ManagerModel { theme, size, cache: Seq::empty() }
    }
}

impl CursorManager {
    /// The manager for the configured theme and size; what is missing there
    /// comes out of the environment.
    pub fn new(
        theme: &Option<String>,
        size: Option<u32>,
        environment_theme: &Option<String>,
        environment_size: &Option<String>,
    ) -> (manager: CursorManager)
        ensures
            manager@ == ManagerModel::fresh(
                theme_choice(text::option(*theme), text::option(*environment_theme)),
                size_choice(size, text::option(*environment_size)),
            ),
            manager@.wf(),
    {
        let manager = CursorManager {
            theme_name: resolve_theme(theme, environment_theme),
            size: resolve_size(size, environment_size),
            cache: Vec::new(),
        };
        proof {
            reveal_strlit("default");
            assert(!text::white('d'));
            assert("default"@[0] == 'd');
            assert(entries(manager.cache@) =~= Seq::empty());
        }
        manager
    }

    pub fn theme_name(&self) -> (name: &str)
        ensures
            name@ == self@.theme,
    {
        self.theme_name.as_str()
    }

    pub fn size(&self) -> (size: u32)
        ensures
            size == self@.size,
    {
        self.size
    }

    /// Takes over a new configuration and says whether it changed anything;
    /// what was loaded is dropped if so.
    pub fn reconfigure(
        &mut self,
        theme: &Option<String>,
        size: Option<u32>,
        environment_theme: &Option<String>,
        environment_size: &Option<String>,
    ) -> (changed: bool)
        requires
            old(self)@.wf(),
        ensures
            final(self)@.wf(),
            ({
                let name = theme_choice(text::option(*theme), text::option(*environment_theme));
                let number = size_choice(size, text::option(*environment_size));
                &&& changed == !(name == old(self)@.theme && number == old(self)@.size)
                &&& final(self)@ == if changed {
                    ManagerModel::fresh(name, number)
                } else {
                    old(self)@
                }
            }),
    {
        let next = CursorManager::new(theme, size, environment_theme, environment_size);
        if next.size == self.size && text::text_eq(
            next.theme_name.as_str(),
            self.theme_name.as_str(),
        ) {
            return false;
        }
        *self = next;
        true
    }

    fn find(&self, icon: &str, scale: i32) -> (place: Option<usize>)
        requires
            scale >= 1,
        ensures
            match place {
                Some(i) => i < self.cache@.len() && self@.cursor(icon@, scale as int) == Some(
                    self.cache@[i as int].cursor@,
                ),
                None => self@.cursor(icon@, scale as int) is None,
            },
    {
        let ghost all = self@.cache;
        assert(all.skip(0) =~= all);
        for i in 0..self.cache.len()
            invariant
                scale >= 1,
                all == entries(self.cache@),
                all == self@.cache,
                lookup(all, icon@, scale as int) == lookup(
                    all.skip(i as int),
                    icon@,
                    scale as int,
                ),
        {
            assert(all.skip(i as int)[0] == self.cache@[i as int]@);
            assert(all.skip(i as int).drop_first() =~= all.skip(i + 1));
            if self.cache[i].scale == scale && text::text_eq(self.cache[i].icon.as_str(), icon) {
                return Some(i);
            }
        }
        assert(all.skip(self.cache@.len() as int).len() == 0);
        None
    }

    /// Whether the files for the icon have to be read before it can be drawn.
    pub fn is_missing(&self, icon: &str, buffer_scale: i32) -> (r: bool)
        ensures
            r == (self@.cursor(icon@, buffer_scale as int) is None),
    {
        self.find(icon, geometry::max_i32(buffer_scale, 1)).is_none()
    }

    /// Loads the icon from the files that the theme has for it, unless it was
    /// loaded before.
    pub fn load(&mut self, icon: &str, buffer_scale: i32, files: &Vec<Vec<u8>>)
        requires
            old(self)@.wf(),
            old(self)@.size * geometry::greatest(buffer_scale as int, 1) <= u32::MAX,
            arrow_fits(old(self)@.size * geometry::greatest(buffer_scale as int, 1)),
        ensures
            final(self)@.wf(),
            final(self)@.theme == old(self)@.theme,
            final(self)@.size == old(self)@.size,
            final(self)@.cursor(icon@, buffer_scale as int) == (match old(self)@.cursor(
                icon@,
                buffer_scale as int,
            ) {
                Some(cursor) => Some(cursor),
                None => Some(
                    cursor_among(
                        contents(files@),
                        old(self)@.size * geometry::greatest(buffer_scale as int, 1),
                        geometry::greatest(buffer_scale as int, 1),
                    ),
                ),
            }),
            forall|other: Seq<char>, scale: int|
                scale >= 1 && !(other == icon@ && scale == geometry::greatest(
                    buffer_scale as int,
                    1,
                )) ==> #[trigger] final(self)@.cursor(other, scale) == old(self)@.cursor(
                    other,
                    scale,
                ),
    {
        let scale: i32 = geometry::max_i32(buffer_scale, 1);
        if self.find(icon, scale).is_some() {
            return ;
        }
        let cursor = load_cursor(files, self.size, scale);
        let entry = CachedCursor { icon: icon.to_owned(), scale, cursor };
        let ghost before = self@.cache;
        proof {
            lemma_lookup_push(before, entry@);
        }
        let ghost more = entry@;
        self.cache.push(entry);
        proof {
            assert(self@.cache =~= before.push(more));
            assert forall|i: int| 0 <= i < self@.cache.len() implies (
            #[trigger] self@.cache[i]).cursor.wf() by {
                if i < before.len() {
                    assert(self@.cache[i] == before[i]);
                }
            }
        }
    }

    /// What to draw for the icon at `time_ms`, once it was loaded.
    pub fn image(&self, icon: &str, buffer_scale: i32, time_ms: u128) -> (frame: Option<
        &CursorFrame,
    >)
        requires
            self@.wf(),
        ensures
            match self@.cursor(icon@, buffer_scale as int) {
                Some(cursor) => frame is Some && frame->0@ == cursor.frames[cursor.index_at(
                    time_ms as nat,
                )],
                None => frame is None,
            },
    {
        match self.find(icon, geometry::max_i32(buffer_scale, 1)) {
            Some(i) => {
                assert(self@.cache[i as int] == self.cache@[i as int]@);
                Some(self.cache[i].cursor.frame_at(time_ms))
            },
            None => None,
        }
    }

    /// Whether what is drawn for the icon changes over time.
    pub fn is_animated(&self, icon: &str, buffer_scale: i32) -> (r: bool)
        ensures
            r == match self@.cursor(icon@, buffer_scale as int) {
                Some(cursor) => cursor.animated(),
                None => false,
            },
    {
        match self.find(icon, geometry::max_i32(buffer_scale, 1)) {
            Some(i) => self.cache[i].cursor.is_animated(),
            None => false,
        }
    }
}

} // verus!
