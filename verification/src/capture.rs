//! Reading an output back: what part of it a client gets, how the pixels are
//! laid into the client's buffer, and screenshots as files.

use crate::geometry;
use crate::geometry::{Rect, Size};
use crate::text;
use vstd::prelude::*;

verus! {

/// Who draws the pointer. A host that draws named pointers leaves only those
/// that clients provide.
#[derive(Debug, Clone, Copy, PartialEq, Eq, Structural)]
pub enum CursorMode {
    Composited,
    HostNamed,
    Hidden,
}

/// The part of an output that a capture shows, or nothing if the wanted part
/// lies outside.
pub open spec fn captured_part(full: Size, requested: Option<Rect>) -> Option<Rect> {
    let whole = Rect { x: 0, y: 0, width: full.w, height: full.h };
    match requested {
        None => Some(whole),
        Some(part) => match geometry::overlap(part, whole) {
            Some(common) => if common.is_empty() {
                None
            } else {
                Some(common)
            },
            None => None,
        },
    }
}

/// The part of an output of size `full` that a capture shows.
pub fn capture_part(full: Size, requested: Option<Rect>) -> (r: Option<Rect>)
    requires
        full.w >= 0,
        full.h >= 0,
        requested is Some ==> requested->0.width >= 0 && requested->0.height >= 0,
    ensures
        r == captured_part(full, requested),
{
    let whole = Rect { x: 0, y: 0, width: full.w, height: full.h };
    match requested {
        None => Some(whole),
        Some(part) => match geometry::intersection(part, whole) {
            Some(common) => if common.has_no_area() {
                None
            } else {
                Some(common)
            },
            None => None,
        },
    }
}

/// A capture shows nothing but the output, and all of it that was asked for.
pub proof fn captures_stay_on_the_output(full: Size, requested: Rect, x: int, y: int)
    requires
        full.w >= 0,
        full.h >= 0,
        requested.width >= 0,
        requested.height >= 0,
    ensures
        (match captured_part(full, Some(requested)) {
            Some(part) => part.holds(x, y),
            None => false,
        }) <==> 0 <= x < full.w && 0 <= y < full.h && requested.holds(x, y),
{
}

/// The bytes from one row of a buffer to the next.
pub fn row_bytes(width: i32) -> (r: u32)
    requires
        0 <= width <= 0x3fff_ffff,
    ensures
        r == 4 * width,
{
    width as u32 * 4
}

/// A capture that a client prepared but has not given a buffer for.
#[derive(Debug, Clone, Copy, PartialEq, Eq, Structural)]
pub struct PendingFrame {
    /// The number of the output.
    pub output: u64,
    pub region: Rect,
    pub overlay_cursor: bool,
}

/// A capture to carry out.
#[derive(Debug, Clone, Copy, PartialEq, Eq, Structural)]
pub struct ScreencopyRequest {
    pub output: u64,
    pub region: Rect,
    pub overlay_cursor: bool,
    pub with_damage: bool,
}

/// The state of a client's capture object.
#[derive(Debug, Clone, Copy, PartialEq, Eq, Structural)]
pub struct ScreencopyFrameData {
    pub pending: Option<PendingFrame>,
}

impl Default for ScreencopyFrameData {
    fn default() -> (r: Self)
        ensures
            r.pending is None,
    {
        ScreencopyFrameData { pending: None }
    }
}

impl ScreencopyFrameData {
    /// The client was told what buffer the capture needs.
    pub fn prepare(&mut self, frame: PendingFrame)
        ensures
            final(self).pending == Some(frame),
    {
        self.pending = Some(frame);
    }

    /// The client hands in a buffer. A frame can be copied once; after that
    /// the client is told so.
    pub fn copy(&mut self, with_damage: bool) -> (r: Option<ScreencopyRequest>)
        ensures
            final(self).pending is None,
            r == (match old(self).pending {
                Some(frame) => Some(
                    ScreencopyRequest {
                        output: frame.output,
                        region: frame.region,
                        overlay_cursor: frame.overlay_cursor,
                        with_damage,
                    },
                ),
                None => None,
            }),
    {
        match self.pending {
            Some(frame) => {
                self.pending = None;
                Some(
                    ScreencopyRequest {
                        output: frame.output,
                        region: frame.region,
                        overlay_cursor: frame.overlay_cursor,
                        with_damage,
                    },
                )
            },
            None => None,
        }
    }
}

impl ScreencopyRequest {
    /// How the pointer is drawn for this request.
    pub open spec fn pointer_drawn(self) -> CursorMode {
        if self.overlay_cursor {
            CursorMode::Composited
        } else {
            CursorMode::Hidden
        }
    }

    /// Who draws the pointer in the capture.
    pub fn cursor_mode(&self) -> (r: CursorMode)
        ensures
            r == (if self.overlay_cursor {
                CursorMode::Composited
            } else {
                CursorMode::Hidden
            }),
            r == self.pointer_drawn(),
    {
        if self.overlay_cursor {
            CursorMode::Composited
        } else {
            CursorMode::Hidden
        }
    }
}

/// How a client laid out its buffer.
#[derive(Debug, Clone, Copy, PartialEq, Eq, Structural)]
pub struct BufferLayout {
    pub width: usize,
    pub height: usize,
    /// The bytes from one row to the next.
    pub stride: usize,
    /// Where the first row begins.
    pub offset: usize,
}

impl BufferLayout {
    /// The buffer has the captured size and lies within `length` bytes.
    pub open spec fn accepts(self, width: int, height: int, length: int) -> bool {
        self.width == width && self.height == height && self.offset + self.stride * height <= length
    }

    /// The byte at `i` after the pixels were laid into a buffer.
    pub open spec fn byte(self, pixels: Seq<u8>, before: Seq<u8>, i: int) -> u8 {
        let k = i - self.offset;
        if 0 <= k < self.stride * self.height && k % (self.stride as int) < 4 * self.width {
            pixels[(k / self.stride as int) * (4 * self.width) + k % (self.stride as int)]
        } else {
            before[i]
        }
    }
}

proof fn lemma_row(k: int, stride: int, row: int, column: int)
    requires
        k == row * stride + column,
        0 <= column < stride,
        0 <= row,
    ensures
        k / stride == row,
        k % stride == column,
{
    vstd::arithmetic::div_mod::lemma_fundamental_div_mod_converse(k, stride, row, column);
}

/// Lays tightly packed pixels, `width` by `height`, into a client's buffer.
/// A buffer of another size, or one that does not fit its memory, stays as it
/// is.
pub fn copy_rows(
    pixels: &Vec<u8>,
    width: usize,
    height: usize,
    layout: BufferLayout,
    memory: &mut Vec<u8>,
) -> (copied: bool)
    requires
        pixels@.len() >= 4 * width * height,
        width > 0,
        layout.width == width ==> 4 * width <= layout.stride,
    ensures
        copied == layout.accepts(width as int, height as int, old(memory)@.len() as int),
        final(memory)@ == (if copied {
            Seq::new(old(memory)@.len(), |i: int| layout.byte(pixels@, old(memory)@, i))
        } else {
            old(memory)@
        }),
{
    let ghost before = memory@;
    let ghost (w, h, s, o) = (
        width as int,
        height as int,
        layout.stride as int,
        layout.offset as int,
    );
    if layout.width != width || layout.height != height {
        return false;
    }
    let length: usize = memory.len();
    assert(0 <= s * h <= 0xffff_ffff_ffff_ffff * 0xffff_ffff_ffff_ffff) by (nonlinear_arith)
        requires
            0 <= s <= 0xffff_ffff_ffff_ffff,
            0 <= h <= 0xffff_ffff_ffff_ffff,
    ;
    let end: u128 = layout.offset as u128 + layout.stride as u128 * height as u128;
    if end > length as u128 {
        return false;
    }
    let packed: usize = pixels.len();
    proof {
        assert(4 * w * 0 == 0 && s * 0 == 0) by (nonlinear_arith);
        assert forall|i: int| 0 <= i < length implies #[trigger] before[i] == part_byte(
            layout,
            pixels@,
            before,
            0,
            i,
        ) by {}
    }
    for row in 0..height
        invariant
            w == width,
            h == height,
            s == layout.stride,
            o == layout.offset,
            w > 0,
            layout.width == width,
            layout.height == height,
            4 * w <= s,
            o + s * h <= length,
            length == before.len(),
            memory@.len() == length,
            packed == pixels@.len(),
            packed >= 4 * w * h,
            forall|i: int|
                0 <= i < length ==> #[trigger] memory@[i] == part_byte(
                    layout,
                    pixels@,
                    before,
                    s * row,
                    i,
                ),
    {
        let ghost r = row as int;
        proof {
            assert(r * s + s <= s * h && 4 * w * r + 4 * w <= 4 * w * h && 0 <= 4 * w * r && 0 <= r
                * s && r * s == s * r) by (nonlinear_arith)
                requires
                    0 <= r < h,
                    s >= 0,
                    w >= 0,
            ;
            assert((4 * width) * row == 4 * w * r) by (nonlinear_arith)
                requires
                    w == width,
                    r == row,
            ;
        }
        let from: usize = (4 * width) * row;
        let to: usize = layout.offset + row * layout.stride;
        let span: usize = 4 * width;
        for column in 0..span
            invariant
                w == width,
                h == height,
                s == layout.stride,
                o == layout.offset,
                r == row,
                0 <= r < h,
                layout.width == width,
                layout.height == height,
                span == 4 * w,
                span <= s,
                from == 4 * w * r,
                to == o + r * s,
                r * s + s <= s * h,
                0 <= r * s,
                r * s == s * r,
                4 * w * r + 4 * w <= packed,
                o + s * h <= length,
                length == before.len(),
                memory@.len() == length,
                packed == pixels@.len(),
                forall|i: int|
                    0 <= i < length ==> #[trigger] memory@[i] == part_byte(
                        layout,
                        pixels@,
                        before,
                        s * r + column,
                        i,
                    ),
        {
            let ghost previous = memory@;
            let value: u8 = pixels[from + column];
            memory.set(to + column, value);
            proof {
                let ghost c = column as int;
                assert forall|i: int| 0 <= i < length implies #[trigger] memory@[i] == part_byte(
                    layout,
                    pixels@,
                    before,
                    s * r + c + 1,
                    i,
                ) by {
                    assert(previous[i] == part_byte(layout, pixels@, before, s * r + c, i));
                    if i == o + r * s + c {
                        lemma_row(r * s + c, s, r, c);
                        assert(r * (4 * w) == 4 * w * r) by (nonlinear_arith);
                    }
                }
            }
        }
        proof {
            assert(s * r + s == s * (r + 1)) by (nonlinear_arith);
            assert forall|i: int| 0 <= i < length implies #[trigger] memory@[i] == part_byte(
                layout,
                pixels@,
                before,
                s * (r + 1),
                i,
            ) by {
                assert(memory@[i] == part_byte(layout, pixels@, before, s * r + 4 * w, i));
                let k = i - o;
                if s * r + 4 * w <= k < s * r + s {
                    lemma_row(k, s, r, k - r * s);
                }
            }
        }
    }
    proof {
        assert forall|i: int| 0 <= i < length implies #[trigger] memory@[i] == layout.byte(
            pixels@,
            before,
            i,
        ) by {
            assert(memory@[i] == part_byte(layout, pixels@, before, s * h, i));
        }
        assert(memory@ =~= Seq::new(before.len(), |i: int| layout.byte(pixels@, before, i)));
    }
    true
}

/// The byte at `i` once the first `done` bytes of the buffer's rows were laid
/// in.
pub open spec fn part_byte(
    layout: BufferLayout,
    pixels: Seq<u8>,
    before: Seq<u8>,
    done: int,
    i: int,
) -> u8 {
    if i - layout.offset < done {
        layout.byte(pixels, before, i)
    } else {
        before[i]
    }
}

/// The pixels that a client reads from its buffer are those of the capture:
/// the byte at a column of a row of the buffer is the packed one.
pub proof fn captured_pixels_read_back(
    layout: BufferLayout,
    pixels: Seq<u8>,
    before: Seq<u8>,
    row: int,
    column: int,
)
    requires
        0 <= row < layout.height,
        0 <= column < 4 * layout.width,
        4 * layout.width <= layout.stride,
    ensures
        layout.byte(pixels, before, layout.offset + row * layout.stride + column) == pixels[row * (4
            * layout.width) + column],
{
    let stride = layout.stride as int;
    lemma_row(row * stride + column, stride, row, column);
    assert(0 <= row * stride && row * stride + column < stride * layout.height)
        by (nonlinear_arith)
        requires
            0 <= row < layout.height,
            0 <= column < stride,
    ;
}

/// A time as a capture reports it: the seconds in two halves, and the
/// nanoseconds.
pub fn ready_time(seconds: u64, nanoseconds: u32) -> (r: (u32, u32, u32))
    ensures
        r.0 == seconds / 0x1_0000_0000,
        r.1 == seconds % 0x1_0000_0000,
        r.2 == nanoseconds,
{
    ((seconds / 0x1_0000_0000) as u32, (seconds % 0x1_0000_0000) as u32, nanoseconds)
}

/// Whether a screenshot that may name an output is one of this output.
pub fn is_screenshot_of(requested: &Option<String>, output: &str) -> (r: bool)
    ensures
        r == (text::option(*requested) is None || text::option(*requested) == Some(output@)),
{
    match requested {
        Some(name) => text::text_eq(name.as_str(), output),
        None => true,
    }
}

/// The image has an extent, and four bytes for each of its places.
pub open spec fn encodable(width: u32, height: u32, pixels: Seq<u8>) -> bool {
    width != 0 && height != 0 && pixels.len() == 4 * width * height
}

/// The file that `png::Encoder` writes for pixels of four bytes.
pub uninterp spec fn png_file(width: u32, height: u32, pixels: Seq<u8>) -> Seq<u8>;

/// Calls `png::Encoder` for eight-bit pixels with alpha, writing to memory. It
/// refuses an image without an extent, and pixels that are not four bytes for
/// each place; the file depends on the arguments alone.
#[verifier::external_body]
fn write_png(width: u32, height: u32, pixels: &Vec<u8>) -> (r: Option<Vec<u8>>)
    requires
        5 * width * height <= usize::MAX,
    ensures
        match r {
            Some(file) => encodable(width, height, pixels@) && file@ == png_file(
                width,
                height,
                pixels@,
            ),
            None => !encodable(width, height, pixels@),
        },
{
    let mut file = Vec::new();
    let mut encoder = png::Encoder::new(&mut file, width, height);
    encoder.set_color(png::ColorType::Rgba);
    encoder.set_depth(png::BitDepth::Eight);
    encoder.write_header().ok()?.write_image_data(pixels).ok()?;
    Some(file)
}

/// Why a screenshot could not be made into a file.
#[derive(Debug, Clone, Copy, PartialEq, Eq, Structural)]
pub enum PngFault {
    /// The image has no extent.
    Header,
    /// The pixels do not fill the image.
    Data,
}

/// The screenshot as a PNG file.
pub fn encode_png(width: u32, height: u32, pixels: &Vec<u8>) -> (r: Result<Vec<u8>, PngFault>)
    requires
        5 * width * height <= usize::MAX,
    ensures
        if width == 0 || height == 0 {
            r == Err::<Vec<u8>, PngFault>(PngFault::Header)
        } else if pixels@.len() != 4 * width * height {
            r == Err::<Vec<u8>, PngFault>(PngFault::Data)
        } else {
            r is Ok && r->Ok_0@ == png_file(width, height, pixels@)
        },
{
    match write_png(width, height, pixels) {
        Some(file) => Ok(file),
        None => if width == 0 || height == 0 {
            Err(PngFault::Header)
        } else {
            Err(PngFault::Data)
        },
    }
}

} // verus!
