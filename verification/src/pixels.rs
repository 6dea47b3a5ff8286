//! Colour arithmetic on bytes. Colours are red, green, blue and alpha.

use crate::geometry;
use vstd::prelude::*;

verus! {

/// A colour channel scaled by the alpha, rounded to the nearest.
pub open spec fn scaled_channel(channel: u8, alpha: u8) -> u8 {
    ((channel * alpha + 127) / 255) as u8
}

fn scale_channel(channel: u8, alpha: u8) -> (r: u8)
    ensures
        r == scaled_channel(channel, alpha),
        r <= alpha,
{
    proof {
        lemma_scaled(channel, alpha);
    }
    ((channel as u16 * alpha as u16 + 127) / 255) as u8
}

proof fn lemma_scaled(channel: u8, alpha: u8)
    ensures
        0 <= channel * alpha <= 255 * 255,
        (channel * alpha + 127) / 255 <= alpha,
{
    assert(0 <= channel * alpha <= 255 * alpha) by (nonlinear_arith)
        requires
            0 <= channel <= 255,
            0 <= alpha,
    ;
}

/// The pixels with every colour channel scaled by the pixel's alpha; bytes
/// that do not make up a whole pixel are dropped.
pub open spec fn premultiplied(pixels: Seq<u8>) -> Seq<u8> {
    Seq::new(
        4 * (pixels.len() / 4),
        |i: int|
            if i % 4 == 3 {
                pixels[i]
            } else {
                scaled_channel(pixels[i], pixels[i - i % 4 + 3])
            },
    )
}

/// Scales every colour channel by the pixel's alpha.
pub fn premultiply(pixels: &Vec<u8>) -> (r: Vec<u8>)
    ensures
        r@ == premultiplied(pixels@),
{
    let total: usize = pixels.len();
    let count: usize = total / 4;
    let mut out: Vec<u8> = Vec::new();
    for p in 0..count
        invariant
            total == pixels@.len(),
            count == total / 4,
            out@.len() == 4 * p,
            forall|i: int|
                0 <= i < 4 * p ==> #[trigger] out@[i] == premultiplied(pixels@)[i],
    {
        let alpha: u8 = pixels[4 * p + 3];
        out.push(scale_channel(pixels[4 * p], alpha));
        out.push(scale_channel(pixels[4 * p + 1], alpha));
        out.push(scale_channel(pixels[4 * p + 2], alpha));
        out.push(alpha);
    }
    assert(out@ =~= premultiplied(pixels@));
    out
}

/// No colour channel of a premultiplied pixel exceeds its alpha, and the alpha
/// stays.
pub proof fn premultiplied_channels_stay_below_alpha(pixels: Seq<u8>, pixel: int, channel: int)
    requires
        0 <= pixel < pixels.len() / 4,
        0 <= channel <= 3,
    ensures
        premultiplied(pixels)[4 * pixel + channel] <= premultiplied(pixels)[4 * pixel + 3],
        premultiplied(pixels)[4 * pixel + 3] == pixels[4 * pixel + 3],
{
    let i = 4 * pixel + channel;
    assert((4 * pixel + 3) % 4 == 3);
    if channel < 3 {
        assert(i % 4 == channel);
        lemma_scaled(pixels[i], pixels[4 * pixel + 3]);
    }
}

/// A premultiplied channel on top of an opaque one.
pub open spec fn composited(top: u8, base: u8, alpha: u8) -> u8 {
    geometry::least(top + (base * (255 - alpha) + 127) / 255, 255) as u8
}

/// A premultiplied colour over an opaque one.
pub open spec fn over_color(top: [u8; 4], base: [u8; 4]) -> [u8; 4] {
    [
        composited(top[0], base[0], top[3]),
        composited(top[1], base[1], top[3]),
        composited(top[2], base[2], top[3]),
        255,
    ]
}

fn composite(top: u8, base: u8, alpha: u8) -> (r: u8)
    ensures
        r == composited(top, base, alpha),
{
    let inverse: u16 = 255 - alpha as u16;
    assert(0 <= base * inverse <= 255 * 255) by (nonlinear_arith)
        requires
            0 <= base <= 255,
            0 <= inverse <= 255,
    ;
    let sum: u16 = top as u16 + (base as u16 * inverse + 127) / 255;
    if sum <= 255 {
        sum as u8
    } else {
        255
    }
}

/// Composites a premultiplied colour over an opaque one.
pub fn over(top: [u8; 4], base: [u8; 4]) -> (r: [u8; 4])
    ensures
        r == over_color(top, base),
{
    let r = [
        composite(top[0], base[0], top[3]),
        composite(top[1], base[1], top[3]),
        composite(top[2], base[2], top[3]),
        255,
    ];
    assert(r@ =~= over_color(top, base)@);
    r
}

/// Under an opaque colour nothing shows; without one the base shows.
pub proof fn compositing_extremes(top: [u8; 4], base: [u8; 4])
    ensures
        top[3] == 255 ==> over_color(top, base) == [top[0], top[1], top[2], 255u8],
        top[0] == 0 && top[1] == 0 && top[2] == 0 && top[3] == 0 ==> over_color(top, base) == [
            base[0],
            base[1],
            base[2],
            255u8,
        ],
{
    if top[3] == 255 {
        assert(over_color(top, base)@ =~= [top[0], top[1], top[2], 255u8]@);
    }
    if top[0] == 0 && top[1] == 0 && top[2] == 0 && top[3] == 0 {
        assert(over_color(top, base)@ =~= [base[0], base[1], base[2], 255u8]@);
    }
}

/// The colour with another alpha.
pub fn with_alpha(color: [u8; 4], alpha: u8) -> (r: [u8; 4])
    ensures
        r == [color[0], color[1], color[2], alpha],
{
    [color[0], color[1], color[2], alpha]
}

/// The sum of one channel over the first `n` pixels.
pub open spec fn channel_sum(pixels: Seq<u8>, channel: int, n: int) -> nat
    decreases n,
{
    if n <= 0 {
        0
    } else {
        channel_sum(pixels, channel, n - 1) + pixels[4 * (n - 1) + channel] as nat
    }
}

/// The average of one channel, rounded down; zero without a pixel.
pub open spec fn channel_average(pixels: Seq<u8>, channel: int) -> u8 {
    let count = pixels.len() / 4;
    (channel_sum(pixels, channel, count as int) / geometry::greatest(count as int, 1) as nat) as u8
}

fn average_channel(pixels: &Vec<u8>, channel: usize) -> (r: u8)
    requires
        channel < 4,
    ensures
        r == channel_average(pixels@, channel as int),
{
    let total: usize = pixels.len();
    let count: usize = total / 4;
    let mut sum: u128 = 0;
    for p in 0..count
        invariant
            channel < 4,
            total == pixels@.len(),
            count == total / 4,
            sum == channel_sum(pixels@, channel as int, p as int),
            sum <= 255 * p,
    {
        sum = sum + pixels[4 * p + channel] as u128;
    }
    if count == 0 {
        return 0;
    }
    assert(sum / count as u128 <= 255) by (nonlinear_arith)
        requires
            sum <= 255 * count,
            count > 0,
    ;
    (sum / count as u128) as u8
}

/// The average colour of a row of pixels.
pub fn average_row(pixels: &Vec<u8>) -> (r: [u8; 4])
    ensures
        forall|channel: int|
            0 <= channel < 4 ==> #[trigger] r[channel] == channel_average(pixels@, channel),
{
    [
        average_channel(pixels, 0),
        average_channel(pixels, 1),
        average_channel(pixels, 2),
        average_channel(pixels, 3),
    ]
}

/// The value `percent` of the way from `a` to `b`, rounded to the nearest,
/// halves up.
pub open spec fn mixed_channel(a: u8, b: u8, percent: int) -> u8 {
    ((a * (100 - percent) + b * percent + 50) / 100) as u8
}

pub open spec fn mixed(a: [u8; 4], b: [u8; 4], percent: int) -> [u8; 4] {
    let percent = geometry::clamped(percent, 0, 100);
    [
        mixed_channel(a[0], b[0], percent),
        mixed_channel(a[1], b[1], percent),
        mixed_channel(a[2], b[2], percent),
        mixed_channel(a[3], b[3], percent),
    ]
}

proof fn lemma_mixed(a: u8, b: u8, percent: int)
    requires
        0 <= percent <= 100,
    ensures
        0 <= a * (100 - percent) <= 25500,
        0 <= b * percent <= 25500,
        geometry::least(a as int, b as int) <= (a * (100 - percent) + b * percent + 50) / 100
            <= geometry::greatest(a as int, b as int),
{
    let low = geometry::least(a as int, b as int);
    let high = geometry::greatest(a as int, b as int);
    let x = a as int;
    let y = b as int;
    assert(low * 100 <= x * (100 - percent) + y * percent <= high * 100 && 0 <= x * (100 - percent)
        <= 25500 && 0 <= y * percent <= 25500) by (nonlinear_arith)
        requires
            0 <= percent <= 100,
            0 <= x <= 255,
            0 <= y <= 255,
            low <= x <= high,
            low <= y <= high,
    ;
}

fn mix_channel(a: u8, b: u8, percent: u32) -> (r: u8)
    requires
        percent <= 100,
    ensures
        r == mixed_channel(a, b, percent as int),
{
    proof {
        lemma_mixed(a, b, percent as int);
    }
    ((a as u32 * (100 - percent) + b as u32 * percent + 50) / 100) as u8
}

/// Blends `a` towards `b`: nothing at zero percent, all the way at a hundred.
pub fn mix(a: [u8; 4], b: [u8; 4], percent: i32) -> (r: [u8; 4])
    ensures
        r == mixed(a, b, percent as int),
{
    let share: u32 = geometry::clamp_i32(percent, 0, 100) as u32;
    let r = [
        mix_channel(a[0], b[0], share),
        mix_channel(a[1], b[1], share),
        mix_channel(a[2], b[2], share),
        mix_channel(a[3], b[3], share),
    ];
    assert(r@ =~= mixed(a, b, percent as int)@);
    r
}

/// A mixture lies between its colours in every channel, and is one of them at
/// the ends.
pub proof fn mixing_stays_between(a: [u8; 4], b: [u8; 4], percent: int, channel: int)
    requires
        0 <= channel < 4,
    ensures
        geometry::least(a[channel] as int, b[channel] as int) <= mixed(a, b, percent)[channel]
            <= geometry::greatest(a[channel] as int, b[channel] as int),
        percent <= 0 ==> mixed(a, b, percent)[channel] == a[channel],
        percent >= 100 ==> mixed(a, b, percent)[channel] == b[channel],
{
    let share = geometry::clamped(percent, 0, 100);
    lemma_mixed(a[channel], b[channel], share);
    assert(mixed(a, b, percent)[channel] == mixed_channel(a[channel], b[channel], share));
    let x = a[channel] as int;
    let y = b[channel] as int;
    assert((share == 0 ==> x * (100 - share) + y * share == 100 * x) && (share == 100 ==> x * (100
        - share) + y * share == 100 * y)) by (nonlinear_arith);
}

/// The linear light of every channel value is at most this.
pub const FULL_LIGHT: u64 = 1_000_000_000;

/// The weighted light of a colour, in units of a ten-thousandth of a channel's
/// unit.
pub open spec fn luminance_of(color: [u8; 4], linear: Seq<u64>) -> int {
    2126 * linear[color[0] as int] + 7152 * linear[color[1] as int] + 722 * linear[color[2] as int]
}

/// A dark foreground contrasts more with the colour than a light one. With the
/// luminance `l` as a share of full light, that is
/// `(l + 0.05) / 0.05 > 1.05 / (l + 0.05)`.
pub open spec fn wants_dark(luminance: int) -> bool {
    let full = 10_000 * FULL_LIGHT;
    (20 * luminance + full) * (20 * luminance + full) > 21 * full * full
}

/// The foreground that contrasts more with the background: near-black or
/// near-white.
pub open spec fn foreground_on(background: [u8; 4], linear: Seq<u64>) -> [u8; 4] {
    if wants_dark(luminance_of(background, linear)) {
        [0x1du8, 0x1du8, 0x1fu8, 0xffu8]
    } else {
        [0xf5u8, 0xf5u8, 0xf7u8, 0xffu8]
    }
}

/// There is a value for each channel value, and none beyond full light.
pub open spec fn is_light_table(linear: Seq<u64>) -> bool {
    linear.len() == 256 && forall|i: int| 0 <= i < 256 ==> #[trigger] linear[i] <= FULL_LIGHT
}

/// The relative luminance of a colour, without its alpha. `linear` gives the
/// linear light of each channel value.
pub fn luminance(color: [u8; 4], linear: &Vec<u64>) -> (r: u64)
    requires
        is_light_table(linear@),
    ensures
        r == luminance_of(color, linear@),
        r <= 10_000 * FULL_LIGHT,
{
    let red: u64 = linear[color[0] as usize];
    let green: u64 = linear[color[1] as usize];
    let blue: u64 = linear[color[2] as usize];
    2126 * red + 7152 * green + 722 * blue
}

/// A near-black or a near-white foreground, whichever contrasts more with the
/// background.
pub fn contrasting(background: [u8; 4], linear: &Vec<u64>) -> (r: [u8; 4])
    requires
        is_light_table(linear@),
    ensures
        r == foreground_on(background, linear@),
{
    let light: u128 = luminance(background, linear) as u128;
    let full: u128 = 10_000_000_000_000;
    let offset: u128 = 20 * light + full;
    assert(0 <= offset * offset <= 210_000_000_000_000 * 210_000_000_000_000) by (nonlinear_arith)
        requires
            0 <= offset <= 210_000_000_000_000,
    ;
    if offset * offset > 21 * full * full {
        [0x1d, 0x1d, 0x1f, 0xff]
    } else {
        [0xf5, 0xf5, 0xf7, 0xff]
    }
}

/// Where black text is chosen on a background, it is chosen on every lighter
/// one.
pub proof fn contrast_is_monotone(darker: int, lighter: int)
    requires
        0 <= darker <= lighter,
    ensures
        wants_dark(darker) ==> wants_dark(lighter),
{
    let full = 10_000 * FULL_LIGHT as int;
    assert((20 * darker + full) * (20 * darker + full) <= (20 * lighter + full) * (20 * lighter
        + full)) by (nonlinear_arith)
        requires
            0 <= darker <= lighter,
            full >= 0,
    ;
}

} // verus!
