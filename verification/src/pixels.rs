//! Pixel access for raw camera frames (8-bit, or 12/16-bit little-endian).

use vstd::prelude::*;

verus! {

/// Value of a little-endian 16-bit sample made of two bytes.
pub open spec fn le_u16(lo: u8, hi: u8) -> int {
    lo as int + 256 * (hi as int)
}

/// Whether a bit depth is stored as two bytes per pixel.
pub open spec fn is_wide_depth(bit_depth: u32) -> bool {
    bit_depth == 12 || bit_depth == 16
}

/// The value of pixel number `idx` (row-major) of a frame with the given
/// bit depth, if the data holds it and the depth is supported.
pub open spec fn sample_at(data: Seq<u8>, idx: int, bit_depth: u32) -> Option<int> {
    if bit_depth == 8 {
        if 0 <= idx < data.len() {
            Some(data[idx] as int)
        } else {
            None
        }
    } else if is_wide_depth(bit_depth) {
        if 0 <= idx && 2 * idx + 1 < data.len() {
            Some(le_u16(data[2 * idx], data[2 * idx + 1]))
        } else {
            None
        }
    } else {
        None
    }
}

/// The value at image coordinates `(x, y)`; `None` outside the frame.
pub open spec fn pixel_value(
    data: Seq<u8>,
    x: int,
    y: int,
    width: int,
    height: int,
    bit_depth: u32,
) -> Option<int> {
    if x >= width || y >= height {
        None
    } else {
        sample_at(data, y * width + x, bit_depth)
    }
}

/// Decodes one little-endian 16-bit sample.
pub fn decode_le_u16(lo: u8, hi: u8) -> (v: u16)
    ensures
        v as int == le_u16(lo, hi),
{
    let v: u16 = (lo as u16) | ((hi as u16) << 8u16);
    assert(v as int == lo as int + 256 * (hi as int)) by (bit_vector)
        requires
            v == ((lo as u16) | ((hi as u16) << 8u16)),
    ;
    v
}

/// Reads the pixel at `(x, y)` of a row-major frame.
///
/// Returns `None` when the coordinates are outside `width` x `height`, when
/// the data is too short, or when the bit depth is not 8, 12 or 16.
pub fn get_pixel_value_inline(
    frame_data: &[u8],
    x: u32,
    y: u32,
    width: u32,
    height: u32,
    bit_depth: u32,
) -> (r: Option<u32>)
    requires
        x < width && y < height ==> y * width + x <= u32::MAX,
    ensures
        r matches Some(v) ==> pixel_value(frame_data@, x as int, y as int, width as int, height as int, bit_depth) == Some(v as int),
        r is None ==> pixel_value(frame_data@, x as int, y as int, width as int, height as int, bit_depth) is None,
{
    if x >= width || y >= height {
        return None;
    }
    proof {
        vstd::arithmetic::mul::lemma_mul_inequality(y as int, (height - 1) as int, width as int);
    }
    let pixel_index: u32 = y * width + x;
    let idx = pixel_index as usize;
    if bit_depth == 8 {
        if idx < frame_data.len() {
            Some(frame_data[idx] as u32)
        } else {
            None
        }
    } else if bit_depth == 12 || bit_depth == 16 {
        if idx < frame_data.len() / 2 {
            let v = decode_le_u16(frame_data[2 * idx], frame_data[2 * idx + 1]);
            Some(v as u32)
        } else {
            None
        }
    } else {
        None
    }
}

} // verus!
