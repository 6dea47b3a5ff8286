//! Painting rasterized glyphs into a bitmap.

use crate::geometry;
use crate::text;
use vstd::prelude::*;

verus! {

/// A glyph placed in a bitmap, with the coverage of each of its pixels.
#[derive(Debug)]
pub struct Glyph {
    pub x: i32,
    pub y: i32,
    pub width: usize,
    pub height: usize,
    pub coverage: Vec<u8>,
}

/// A bitmap of four bytes per pixel, with straight alpha.
#[derive(Debug)]
pub struct RasterizedGlyphs {
    pub pixels: Vec<u8>,
    pub width: i32,
    pub height: i32,
}

/// A colour with its alpha.
#[derive(Debug, Clone, Copy, PartialEq, Eq, Structural)]
pub struct Ink {
    pub red: u8,
    pub green: u8,
    pub blue: u8,
    pub alpha: u8,
}

/// There is a title and room to draw it.
pub open spec fn drawable(title: Seq<char>, max_width: int, height: int) -> bool {
    !text::blank(title) && max_width > 0 && height > 0
}

/// Whether there is anything to draw.
pub fn is_drawable(title: &str, max_width: i32, height: i32) -> (r: bool)
    ensures
        r == drawable(title@, max_width as int, height as int),
{
    max_width > 0 && height > 0 && !text::is_blank(title)
}

/// The text is lighter than the middle grey. Such text is thinned, because
/// blending makes it look heavier than its font intends; other text is
/// firmed up.
pub open spec fn light(ink: Ink) -> bool {
    ink.red + ink.green + ink.blue > 3 * 128
}

pub fn is_light(ink: Ink) -> (r: bool)
    ensures
        r == light(ink),
{
    ink.red as u32 + ink.green as u32 + ink.blue as u32 > 3 * 128
}

impl Glyph {
    /// There is one coverage value per pixel.
    pub open spec fn wf(self) -> bool {
        self.coverage@.len() == self.width * self.height
    }

    /// The weight that the glyph gives to a pixel of the bitmap.
    pub open spec fn weight_at(self, weights: Seq<u16>, px: int, py: int) -> nat {
        let column = px - self.x;
        let row = py - self.y;
        if 0 <= column < self.width && 0 <= row < self.height {
            weights[self.coverage@[row * self.width + column] as int] as nat
        } else {
            0
        }
    }
}

/// Some glyph covers the pixel.
pub open spec fn inked(glyphs: Seq<Glyph>, weights: Seq<u16>, px: int, py: int) -> bool
    decreases glyphs.len(),
{
    if glyphs.len() == 0 {
        false
    } else {
        glyphs.last().weight_at(weights, px, py) > 0 || inked(
            glyphs.drop_last(),
            weights,
            px,
            py,
        )
    }
}

/// The alpha of a pixel: that of the glyph which covers it most.
pub open spec fn alpha_at(glyphs: Seq<Glyph>, weights: Seq<u16>, alpha: u8, px: int, py: int) -> int
    decreases glyphs.len(),
{
    if glyphs.len() == 0 {
        0
    } else {
        geometry::greatest(
            alpha_at(glyphs.drop_last(), weights, alpha, px, py),
            glyphs.last().weight_at(weights, px, py) as int * alpha / 255,
        )
    }
}

/// The byte of a painted pixel.
pub open spec fn painted_byte(
    glyphs: Seq<Glyph>,
    weights: Seq<u16>,
    ink: Ink,
    px: int,
    py: int,
    channel: int,
) -> u8 {
    if channel == 3 {
        alpha_at(glyphs, weights, ink.alpha, px, py) as u8
    } else if !inked(glyphs, weights, px, py) {
        0
    } else if channel == 0 {
        ink.red
    } else if channel == 1 {
        ink.green
    } else {
        ink.blue
    }
}

/// The painted bitmap, row by row.
pub open spec fn painted(
    glyphs: Seq<Glyph>,
    weights: Seq<u16>,
    ink: Ink,
    width: int,
    height: int,
) -> Seq<u8> {
    Seq::new(
        (4 * width * height) as nat,
        |i: int|
            painted_byte(glyphs, weights, ink, (i / 4) % width, (i / 4) / width, i % 4),
    )
}

fn weight_of(glyph: &Glyph, weights: &Vec<u16>, px: i64, py: i64) -> (weight: u16)
    requires
        glyph.wf(),
        weights@.len() == 256,
        0 <= px <= i32::MAX,
        0 <= py <= i32::MAX,
    ensures
        weight == glyph.weight_at(weights@, px as int, py as int),
{
    let column: i64 = px - glyph.x as i64;
    let row: i64 = py - glyph.y as i64;
    if column < 0 || row < 0 || column as u64 >= glyph.width as u64 || row as u64
        >= glyph.height as u64 {
        return 0;
    }
    let count: usize = glyph.coverage.len();
    let ghost (w, h, r, c) = (glyph.width as int, glyph.height as int, row as int, column as int);
    assert(0 <= r * w && r * w + c < count) by (nonlinear_arith)
        requires
            0 <= r < h,
            0 <= c < w,
            count == w * h,
    ;
    weights[glyph.coverage[row as usize * glyph.width + column as usize] as usize]
}

fn alpha_of(glyphs: &Vec<Glyph>, weights: &Vec<u16>, alpha: u8, px: i64, py: i64) -> (r: (bool, u8))
    requires
        forall|i: int| 0 <= i < glyphs@.len() ==> (#[trigger] glyphs@[i]).wf(),
        weights@.len() == 256,
        forall|i: int| 0 <= i < 256 ==> #[trigger] weights@[i] <= 255,
        0 <= px <= i32::MAX,
        0 <= py <= i32::MAX,
    ensures
        r.0 == inked(glyphs@, weights@, px as int, py as int),
        r.1 == alpha_at(glyphs@, weights@, alpha, px as int, py as int),
{
    let mut covered = false;
    let mut most: u8 = 0;
    for i in 0..glyphs.len()
        invariant
            forall|i: int| 0 <= i < glyphs@.len() ==> (#[trigger] glyphs@[i]).wf(),
            weights@.len() == 256,
            forall|i: int| 0 <= i < 256 ==> #[trigger] weights@[i] <= 255,
            0 <= px <= i32::MAX,
            0 <= py <= i32::MAX,
            covered == inked(glyphs@.take(i as int), weights@, px as int, py as int),
            most == alpha_at(glyphs@.take(i as int), weights@, alpha, px as int, py as int),
    {
        assert(glyphs@.take(i + 1).drop_last() =~= glyphs@.take(i as int));
        let weight: u16 = weight_of(&glyphs[i], weights, px, py);
        assert(weight <= 255);
        assert(weight * alpha <= 255 * 255) by (nonlinear_arith)
            requires
                weight <= 255,
                alpha <= 255,
        ;
        let shade: u8 = (weight * alpha as u16 / 255) as u8;
        if weight > 0 {
            covered = true;
        }
        if shade > most {
            most = shade;
        }
    }
    assert(glyphs@.take(glyphs@.len() as int) =~= glyphs@);
    (covered, most)
}

/// Paints the glyphs in one colour. `weights` gives the weight of each
/// coverage value.
pub fn paint_glyphs(glyphs: &Vec<Glyph>, weights: &Vec<u16>, ink: Ink, width: i32, height: i32) -> (r:
    RasterizedGlyphs)
    requires
        forall|i: int| 0 <= i < glyphs@.len() ==> (#[trigger] glyphs@[i]).wf(),
        weights@.len() == 256,
        forall|i: int| 0 <= i < 256 ==> #[trigger] weights@[i] <= 255,
        width >= 0,
        height >= 0,
        4 * width * height <= usize::MAX,
    ensures
        r.pixels@ == painted(glyphs@, weights@, ink, width as int, height as int),
        r.width == width,
        r.height == height,
{
    let ghost (w, h) = (width as int, height as int);
    let mut pixels: Vec<u8> = Vec::new();
    assert(4 * w * 0 == 0) by (nonlinear_arith);
    for y in 0..height
        invariant
            w == width,
            h == height,
            forall|i: int| 0 <= i < glyphs@.len() ==> (#[trigger] glyphs@[i]).wf(),
            weights@.len() == 256,
            forall|i: int| 0 <= i < 256 ==> #[trigger] weights@[i] <= 255,
            width >= 0,
            pixels@.len() == 4 * w * y,
            forall|i: int|
                0 <= i < 4 * w * y ==> #[trigger] pixels@[i] == painted_byte(
                    glyphs@,
                    weights@,
                    ink,
                    (i / 4) % w,
                    (i / 4) / w,
                    i % 4,
                ),
    {
        for x in 0..width
            invariant
                w == width,
                h == height,
                0 <= y < height,
                forall|i: int| 0 <= i < glyphs@.len() ==> (#[trigger] glyphs@[i]).wf(),
                weights@.len() == 256,
                forall|i: int| 0 <= i < 256 ==> #[trigger] weights@[i] <= 255,
                pixels@.len() == 4 * w * y + 4 * x,
                forall|i: int|
                    0 <= i < 4 * w * y + 4 * x ==> #[trigger] pixels@[i] == painted_byte(
                        glyphs@,
                        weights@,
                        ink,
                        (i / 4) % w,
                        (i / 4) / w,
                        i % 4,
                    ),
        {
            let (covered, alpha) = alpha_of(glyphs, weights, ink.alpha, x as i64, y as i64);
            let ghost at = w * y + x;
            proof {
                assert(4 * w * y + 4 * x == 4 * at && at == y * w + x) by (nonlinear_arith)
                    requires
                        at == w * y + x,
                ;
                vstd::arithmetic::div_mod::lemma_fundamental_div_mod_converse(
                    at,
                    w,
                    y as int,
                    x as int,
                );
            }
            if covered {
                pixels.push(ink.red);
                pixels.push(ink.green);
                pixels.push(ink.blue);
            } else {
                pixels.push(0);
                pixels.push(0);
                pixels.push(0);
            }
            pixels.push(alpha);
        }
        assert(4 * w * y + 4 * w == 4 * w * (y + 1)) by (nonlinear_arith);
    }
    assert(pixels@ =~= painted(glyphs@, weights@, ink, w, h));
    RasterizedGlyphs { pixels, width, height }
}

/// Painting a title never leaves the box: nothing shows where no glyph lies,
/// and no pixel is more opaque than the colour.
pub proof fn paint_stays_within_the_ink(
    glyphs: Seq<Glyph>,
    weights: Seq<u16>,
    ink: Ink,
    px: int,
    py: int,
)
    requires
        forall|i: int| 0 <= i < glyphs.len() ==> (#[trigger] glyphs[i]).wf(),
        weights.len() == 256,
        forall|i: int| 0 <= i < 256 ==> #[trigger] weights[i] <= 255,
    ensures
        0 <= alpha_at(glyphs, weights, ink.alpha, px, py) <= ink.alpha,
        !inked(glyphs, weights, px, py) ==> alpha_at(glyphs, weights, ink.alpha, px, py) == 0,
    decreases glyphs.len(),
{
    if glyphs.len() > 0 {
        let glyph = glyphs.last();
        assert(glyph == glyphs[glyphs.len() - 1]);
        assert forall|i: int| 0 <= i < glyphs.drop_last().len() implies (
        #[trigger] glyphs.drop_last()[i]).wf() by {
            assert(glyphs[i].wf());
        }
        paint_stays_within_the_ink(glyphs.drop_last(), weights, ink, px, py);
        let weight = glyph.weight_at(weights, px, py) as int;
        let column = px - glyph.x;
        let row = py - glyph.y;
        if 0 <= column < glyph.width && 0 <= row < glyph.height {
            let cover = glyph.coverage@[row * glyph.width + column];
            assert(weights[cover as int] <= 255);
        }
        let shade = weight * ink.alpha / 255;
        assert(0 <= shade <= ink.alpha && (weight == 0 ==> shade == 0)) by (nonlinear_arith)
            requires
                0 <= weight <= 255,
                shade == weight * ink.alpha / 255,
                0 <= ink.alpha,
        ;
    }
}

} // verus!
