//! Layout of the RGBA display buffer built from a raw frame: size limits,
//! buffer sizing, per-sample painting and the unknown-depth error pattern.

use vstd::prelude::*;
use crate::histogram::{frame_samples, frame_sample, sample_total};
use crate::pixels::is_wide_depth;

verus! {

/// Largest accepted frame width or height.
pub const MAX_FRAME_DIMENSION: u32 = 65536;

/// Largest accepted raw frame size in bytes (100 MiB).
pub const MAX_FRAME_BYTES: u64 = 104857600;

/// Bytes per stored pixel for a bit depth (2 above 8 bits, else 1).
pub open spec fn bytes_per_pixel(bit_depth: u32) -> int {
    if bit_depth > 8 {
        2
    } else {
        1
    }
}

/// Whether a frame of these dimensions is rendered: both sides non-zero and
/// at most 65536, and the raw frame at most 100 MiB.
pub open spec fn frame_accepted(width: u32, height: u32, bit_depth: u32) -> bool {
    &&& width > 0
    &&& height > 0
    &&& width <= MAX_FRAME_DIMENSION
    &&& height <= MAX_FRAME_DIMENSION
    &&& width * height * bytes_per_pixel(bit_depth) <= MAX_FRAME_BYTES
}

/// Number of pixels to render, or `None` when the frame is rejected (the
/// display buffer is then emptied and the contrast range reset to 0..1).
pub fn frame_pixel_budget(width: u32, height: u32, bit_depth: u32) -> (r: Option<usize>)
    ensures
        r is Some <==> frame_accepted(width, height, bit_depth),
        r matches Some(n) ==> n == width * height,
{
    if width == 0 || height == 0 {
        return None;
    }
    if width > MAX_FRAME_DIMENSION || height > MAX_FRAME_DIMENSION {
        return None;
    }
    proof {
        assert((width as int) * (height as int) <= 65536 * 65536) by (nonlinear_arith)
            requires
                width <= 65536,
                height <= 65536,
        ;
    }
    let pixels: u64 = (width as u64) * (height as u64);
    let bpp: u64 = if bit_depth > 8 { 2 } else { 1 };
    let frame_bytes: u64 = pixels * bpp;
    if frame_bytes > MAX_FRAME_BYTES {
        return None;
    }
    Some(pixels as usize)
}

/// Sizes the RGBA buffer to four bytes per pixel: existing bytes are kept,
/// new bytes are 255 (opaque alpha), extra bytes are dropped.
pub fn prepare_rgba_buffer(buffer: &mut Vec<u8>, pixel_count: usize)
    requires
        pixel_count * 4 <= usize::MAX,
    ensures
        final(buffer)@.len() == pixel_count * 4,
        forall|j: int|
            0 <= j < pixel_count * 4 ==> #[trigger] final(buffer)@[j] == (if j < old(buffer)@.len() {
                old(buffer)@[j]
            } else {
                255u8
            }),
{
    buffer.resize(pixel_count * 4, 255u8);
}

/// Colour of the error pattern at pixel `i` of a frame `width` pixels wide:
/// 16x16 tiles alternating between 255 and 128.
pub open spec fn checker_level(i: int, width: int) -> u8 {
    if ((i % width) / 16 + (i / width) / 16) % 2 == 0 {
        255u8
    } else {
        128u8
    }
}

/// Paints the error pattern shown for unsupported bit depths: every pixel
/// gets red = blue = its tile level and green 0; alpha bytes are untouched.
pub fn fill_checkerboard(buffer: &mut Vec<u8>, width: u32, pixel_count: usize)
    requires
        width > 0,
        old(buffer)@.len() == pixel_count * 4,
    ensures
        final(buffer)@.len() == old(buffer)@.len(),
        forall|i: int|
            0 <= i < pixel_count ==> {
                &&& #[trigger] final(buffer)@[4 * i] == checker_level(i, width as int)
                &&& final(buffer)@[4 * i + 1] == 0u8
                &&& final(buffer)@[4 * i + 2] == checker_level(i, width as int)
            },
        forall|i: int| 0 <= i < pixel_count ==> #[trigger] final(buffer)@[4 * i + 3] == old(buffer)@[4 * i + 3],
{
    let w = width as usize;
    let blen = buffer.len();
    assert(pixel_count * 4 == blen);
    let mut i: usize = 0;
    while i < pixel_count
        invariant
            pixel_count * 4 <= usize::MAX,
            w == width,
            w > 0,
            buffer@.len() == pixel_count * 4,
            i <= pixel_count,
            forall|q: int|
                0 <= q < i ==> {
                    &&& #[trigger] buffer@[4 * q] == checker_level(q, w as int)
                    &&& buffer@[4 * q + 1] == 0u8
                    &&& buffer@[4 * q + 2] == checker_level(q, w as int)
                },
            forall|q: int| 0 <= q < pixel_count ==> #[trigger] buffer@[4 * q + 3] == old(buffer)@[4 * q + 3],
            forall|j: int| 4 * i <= j < buffer@.len() ==> #[trigger] buffer@[j] == old(buffer)@[j],
        decreases pixel_count - i,
    {
        let tile = ((i % w) / 16 + (i / w) / 16) % 2;
        let color: u8 = if tile == 0 { 255 } else { 128 };
        buffer.set(4 * i, color);
        buffer.set(4 * i + 1, 0);
        buffer.set(4 * i + 2, color);
        i = i + 1;
    }
}

/// Paints the first `min(pixel_count, sample count)` pixels of the RGBA
/// buffer with `colorize` applied to the corresponding sample; later pixels
/// and all alpha bytes keep their previous values.
pub fn paint_samples<F: Fn(u16) -> (u8, u8, u8)>(
    data: &[u8],
    bit_depth: u32,
    pixel_count: usize,
    buffer: &mut Vec<u8>,
    colorize: F,
)
    requires
        old(buffer)@.len() == pixel_count * 4,
        forall|v: u16| colorize.requires((v,)),
    ensures
        final(buffer)@.len() == old(buffer)@.len(),
        forall|i: int|
            0 <= i < pixel_count && i < frame_samples(data@, bit_depth).len() ==> colorize.ensures(
                (frame_samples(data@, bit_depth)[i] as u16,),
                (#[trigger] final(buffer)@[4 * i], final(buffer)@[4 * i + 1], final(buffer)@[4 * i + 2]),
            ),
        forall|i: int|
            0 <= i < pixel_count && !(i < frame_samples(data@, bit_depth).len()) ==> {
                &&& #[trigger] final(buffer)@[4 * i] == old(buffer)@[4 * i]
                &&& final(buffer)@[4 * i + 1] == old(buffer)@[4 * i + 1]
                &&& final(buffer)@[4 * i + 2] == old(buffer)@[4 * i + 2]
            },
        forall|i: int| 0 <= i < pixel_count ==> #[trigger] final(buffer)@[4 * i + 3] == old(buffer)@[4 * i + 3],
{
    let ghost vals = frame_samples(data@, bit_depth);
    let n = sample_total(data, bit_depth);
    let limit = if n < pixel_count { n } else { pixel_count };
    let blen = buffer.len();
    assert(pixel_count * 4 == blen);
    let mut i: usize = 0;
    while i < limit
        invariant
            pixel_count * 4 <= usize::MAX,
            vals == frame_samples(data@, bit_depth),
            n == vals.len(),
            limit <= n,
            limit <= pixel_count,
            limit == n || limit == pixel_count,
            buffer@.len() == pixel_count * 4,
            forall|v: u16| colorize.requires((v,)),
            i <= limit,
            forall|q: int|
                0 <= q < i ==> colorize.ensures(
                    (vals[q] as u16,),
                    (#[trigger] buffer@[4 * q], buffer@[4 * q + 1], buffer@[4 * q + 2]),
                ),
            forall|q: int| 0 <= q < pixel_count ==> #[trigger] buffer@[4 * q + 3] == old(buffer)@[4 * q + 3],
            forall|j: int| 4 * i <= j < buffer@.len() ==> #[trigger] buffer@[j] == old(buffer)@[j],
        decreases limit - i,
    {
        let v = frame_sample(data, i, bit_depth);
        let (r, g, b) = colorize(v);
        buffer.set(4 * i, r);
        buffer.set(4 * i + 1, g);
        buffer.set(4 * i + 2, b);
        i = i + 1;
    }
    proof {
        assert forall|q: int|
            0 <= q < pixel_count && !(q < vals.len()) implies {
                &&& #[trigger] buffer@[4 * q] == old(buffer)@[4 * q]
                &&& buffer@[4 * q + 1] == old(buffer)@[4 * q + 1]
                &&& buffer@[4 * q + 2] == old(buffer)@[4 * q + 2]
            } by {
            assert(4 * i <= 4 * q);
        }
    }
}

/// Byte `j` of a buffer grown or cut to a new length: kept where the old
/// buffer had it, 255 where it is new.
pub open spec fn resized_byte(old_buffer: Seq<u8>, j: int) -> u8 {
    if j < old_buffer.len() {
        old_buffer[j]
    } else {
        255u8
    }
}

/// Every one of the first `n` pixels is opaque (alpha 255).
pub open spec fn alpha_opaque(after: Seq<u8>, n: int) -> bool {
    forall|i: int| 0 <= i < n ==> #[trigger] after[4 * i + 3] == 255u8
}

/// Sets the alpha byte of each of the first `n` pixels to 255, leaving the
/// colour bytes alone.
pub fn set_opaque_alpha(buffer: &mut Vec<u8>, n: usize)
    requires
        old(buffer)@.len() == n * 4,
    ensures
        final(buffer)@.len() == old(buffer)@.len(),
        alpha_opaque(final(buffer)@, n as int),
        forall|i: int|
            0 <= i < n ==> {
                &&& #[trigger] final(buffer)@[4 * i] == old(buffer)@[4 * i]
                &&& final(buffer)@[4 * i + 1] == old(buffer)@[4 * i + 1]
                &&& final(buffer)@[4 * i + 2] == old(buffer)@[4 * i + 2]
            },
{
    let blen = buffer.len();
    assert(n * 4 == blen);
    let mut i: usize = 0;
    while i < n
        invariant
            n * 4 <= usize::MAX,
            buffer@.len() == n * 4,
            i <= n,
            forall|q: int| 0 <= q < i ==> #[trigger] buffer@[4 * q + 3] == 255u8,
            forall|q: int|
                0 <= q < n ==> {
                    &&& #[trigger] buffer@[4 * q] == old(buffer)@[4 * q]
                    &&& buffer@[4 * q + 1] == old(buffer)@[4 * q + 1]
                    &&& buffer@[4 * q + 2] == old(buffer)@[4 * q + 2]
                },
        decreases n - i,
    {
        let ghost prev = buffer@;
        buffer.set(4 * i + 3, 255);
        proof {
            assert forall|q: int| 0 <= q < n implies {
                &&& #[trigger] buffer@[4 * q] == old(buffer)@[4 * q]
                &&& buffer@[4 * q + 1] == old(buffer)@[4 * q + 1]
                &&& buffer@[4 * q + 2] == old(buffer)@[4 * q + 2]
            } by {
                assert(4 * q != 4 * i + 3 && 4 * q + 1 != 4 * i + 3 && 4 * q + 2 != 4 * i + 3);
                assert(prev[4 * q] == old(buffer)@[4 * q]);
            }
            assert forall|q: int| 0 <= q < i + 1 implies #[trigger] buffer@[4 * q + 3] == 255u8 by {
                if q < i {
                    assert(4 * q + 3 != 4 * i + 3);
                    assert(prev[4 * q + 3] == 255u8);
                }
            }
        }
        i = i + 1;
    }
}

/// Each of the first `n` pixels that has a sample shows `colorize` of it.
pub open spec fn samples_painted<F: Fn(u16) -> (u8, u8, u8)>(
    samples: Seq<int>,
    after: Seq<u8>,
    n: int,
    colorize: F,
) -> bool {
    forall|i: int|
        0 <= i < n && i < samples.len() ==> colorize.ensures(
            (samples[i] as u16,),
            (#[trigger] after[4 * i], after[4 * i + 1], after[4 * i + 2]),
        )
}

/// Each of the first `n` pixels without a sample keeps its colour bytes as
/// resizing left them.
pub open spec fn unsampled_as_resized(before: Seq<u8>, after: Seq<u8>, n: int, samples: int) -> bool {
    forall|i: int|
        0 <= i < n && !(i < samples) ==> {
            &&& #[trigger] after[4 * i] == resized_byte(before, 4 * i)
            &&& after[4 * i + 1] == resized_byte(before, 4 * i + 1)
            &&& after[4 * i + 2] == resized_byte(before, 4 * i + 2)
        }
}

/// The first `n` pixels show the checkerboard error pattern.
pub open spec fn shows_error_pattern(after: Seq<u8>, width: u32, n: int) -> bool {
    forall|i: int|
        0 <= i < n ==> {
            &&& #[trigger] after[4 * i] == checker_level(i, width as int)
            &&& after[4 * i + 1] == 0u8
            &&& after[4 * i + 2] == checker_level(i, width as int)
        }
}

/// Sizes the buffer for `n` pixels and paints each pixel that has a sample.
fn render_samples_into<F: Fn(u16) -> (u8, u8, u8)>(
    data: &[u8],
    bit_depth: u32,
    n: usize,
    buffer: &mut Vec<u8>,
    colorize: F,
)
    requires
        n * 4 <= usize::MAX,
        forall|v: u16| colorize.requires((v,)),
    ensures
        final(buffer)@.len() == n * 4,
        alpha_opaque(final(buffer)@, n as int),
        samples_painted(frame_samples(data@, bit_depth), final(buffer)@, n as int, colorize),
        unsampled_as_resized(
            old(buffer)@,
            final(buffer)@,
            n as int,
            frame_samples(data@, bit_depth).len() as int,
        ),
{
    let ghost before = buffer@;
    prepare_rgba_buffer(buffer, n);
    let ghost prepared = buffer@;
    paint_samples(data, bit_depth, n, buffer, colorize);
    let ghost painted = buffer@;
    set_opaque_alpha(buffer, n);
    assert forall|i: int| 0 <= i < n && i < frame_samples(data@, bit_depth).len() implies colorize.ensures(
        (frame_samples(data@, bit_depth)[i] as u16,),
        (#[trigger] buffer@[4 * i], buffer@[4 * i + 1], buffer@[4 * i + 2]),
    ) by {
        assert(painted[4 * i] == buffer@[4 * i]);
    }
    assert forall|i: int| 0 <= i < n && !(i < frame_samples(data@, bit_depth).len()) implies {
        &&& #[trigger] buffer@[4 * i] == resized_byte(before, 4 * i)
        &&& buffer@[4 * i + 1] == resized_byte(before, 4 * i + 1)
        &&& buffer@[4 * i + 2] == resized_byte(before, 4 * i + 2)
    } by {
        assert(painted[4 * i] == buffer@[4 * i]);
        assert(prepared[4 * i] == resized_byte(before, 4 * i));
        assert(prepared[4 * i + 1] == resized_byte(before, 4 * i + 1));
        assert(prepared[4 * i + 2] == resized_byte(before, 4 * i + 2));
    }
}

/// Sizes the buffer for `n` pixels and paints the error pattern.
fn render_error_pattern_into(width: u32, n: usize, buffer: &mut Vec<u8>)
    requires
        width > 0,
        n * 4 <= usize::MAX,
    ensures
        final(buffer)@.len() == n * 4,
        alpha_opaque(final(buffer)@, n as int),
        shows_error_pattern(final(buffer)@, width, n as int),
{
    prepare_rgba_buffer(buffer, n);
    fill_checkerboard(buffer, width, n);
    let ghost patterned = buffer@;
    set_opaque_alpha(buffer, n);
    assert forall|i: int| 0 <= i < n implies {
        &&& #[trigger] buffer@[4 * i] == checker_level(i, width as int)
        &&& buffer@[4 * i + 1] == 0u8
        &&& buffer@[4 * i + 2] == checker_level(i, width as int)
    } by {
        assert(patterned[4 * i] == buffer@[4 * i]);
    }
}

/// Renders a raw frame into an RGBA buffer, four bytes per pixel.
///
/// A rejected frame (see `frame_accepted`) empties the buffer and returns
/// `false`. Otherwise the buffer is sized to `width * height * 4` bytes, each
/// pixel that has a sample of an 8, 12 or 16-bit frame gets
/// `colorize(sample)` as its colour, pixels past the end of the data keep
/// their colour bytes, any other bit depth gets the checkerboard error
/// pattern, and every pixel is opaque (alpha 255).
pub fn render_frame_into<F: Fn(u16) -> (u8, u8, u8)>(
    data: &[u8],
    width: u32,
    height: u32,
    bit_depth: u32,
    buffer: &mut Vec<u8>,
    colorize: F,
) -> (accepted: bool)
    requires
        forall|v: u16| colorize.requires((v,)),
    ensures
        accepted == frame_accepted(width, height, bit_depth),
        !accepted ==> final(buffer)@.len() == 0,
        accepted ==> final(buffer)@.len() == width * height * 4,
        accepted ==> alpha_opaque(final(buffer)@, width * height),
        accepted && (bit_depth == 8 || is_wide_depth(bit_depth)) ==> samples_painted(
            frame_samples(data@, bit_depth),
            final(buffer)@,
            width * height,
            colorize,
        ),
        accepted && (bit_depth == 8 || is_wide_depth(bit_depth)) ==> unsampled_as_resized(
            old(buffer)@,
            final(buffer)@,
            width * height,
            frame_samples(data@, bit_depth).len() as int,
        ),
        accepted && !(bit_depth == 8 || is_wide_depth(bit_depth)) ==> shows_error_pattern(
            final(buffer)@,
            width,
            width * height,
        ),
{
    match frame_pixel_budget(width, height, bit_depth) {
        None => {
            buffer.clear();
            false
        },
        Some(n) => {
            assert(n * 4 <= usize::MAX) by {
                assert(n <= 65536 * 65536);
            }
            if bit_depth == 8 || bit_depth == 12 || bit_depth == 16 {
                render_samples_into(data, bit_depth, n, buffer, colorize);
            } else {
                render_error_pattern_into(width, n, buffer);
            }
            true
        },
    }
}

} // verus!
