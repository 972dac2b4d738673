//! Image geometry and the RGBA display buffer.
use vstd::prelude::*;

verus! {

/// Largest number of pixels an image may have: its RGBA buffer must have a
/// length that fits in a `u32`.
pub const MAX_PIXELS: u32 = 0x3fff_ffff;

/// Height of a 16:9 image of the given width, at least one row.
pub open spec fn height_for_width_spec(width: u32) -> u32 {
    if width * 9 / 16 < 1 {
        1
    } else {
        (width * 9 / 16) as u32
    }
}

/// Computes the height of a 16:9 image of the given width, at least one row.
pub fn height_for_width(width: u32) -> (r: u32)
    ensures
        r == height_for_width_spec(width),
        r >= 1,
{
    let h = (width as u64 * 9 / 16) as u32;
    if h < 1 {
        1
    } else {
        h
    }
}

/// Column and row of pixel `index` of an image `width` pixels wide, counted
/// from the top-left corner.
pub fn pixel_coords(width: u32, index: u32) -> (r: (u32, u32))
    requires
        width >= 1,
    ensures
        r.0 == index % width,
        r.1 == index / width,
        r.1 * width + r.0 == index,
{
    proof {
        vstd::arithmetic::div_mod::lemma_fundamental_div_mod(index as int, width as int);
        vstd::arithmetic::mul::lemma_mul_is_commutative(width as int, index as int / width as int);
    }
    (index % width, index / width)
}

/// Flat, row-major index of the pixel at column `x` and row `y`.
pub fn pixel_index(width: u32, height: u32, x: u32, y: u32) -> (r: usize)
    requires
        x < width,
        y < height,
        width * height <= MAX_PIXELS,
    ensures
        r == y * width + x,
        r < width * height,
{
    assert(y * width + x < width * height) by (nonlinear_arith)
        requires
            x < width,
            y < height,
    ;
    (y * width + x) as usize
}

/// Byte `k` of a display buffer whose pixels carry the colour bytes `rgb`,
/// three per pixel, and full opacity.
pub open spec fn rgba_byte(rgb: Seq<u8>, k: int) -> u8 {
    if k % 4 == 3 {
        255
    } else {
        rgb[(k / 4) * 3 + k % 4]
    }
}

/// The display buffer of `pixels` black, opaque pixels.
pub fn black_frame(pixels: u32) -> (r: Vec<u8>)
    requires
        pixels <= MAX_PIXELS,
    ensures
        r@.len() == pixels * 4,
        forall|k: int| 0 <= k < r@.len() ==> r@[k] == (if k % 4 == 3 { 255u8 } else { 0u8 }),
{
    let n: usize = pixels as usize * 4;
    let mut out: Vec<u8> = Vec::with_capacity(n);
    let mut k: usize = 0;
    while k < n
        invariant
            n == pixels * 4,
            k <= n,
            out@.len() == k,
            forall|j: int| 0 <= j < k ==> out@[j] == (if j % 4 == 3 { 255u8 } else { 0u8 }),
        decreases n - k,
    {
        if k % 4 == 3 {
            out.push(255);
        } else {
            out.push(0);
        }
        k = k + 1;
    }
    out
}

/// Packs colour bytes, three per pixel, into an RGBA buffer with every alpha
/// byte at 255.
pub fn pack_rgba(rgb: &Vec<u8>) -> (r: Vec<u8>)
    requires
        rgb@.len() % 3 == 0,
        rgb@.len() / 3 <= MAX_PIXELS,
    ensures
        r@.len() == rgb@.len() / 3 * 4,
        forall|k: int| 0 <= k < r@.len() ==> r@[k] == rgba_byte(rgb@, k),
{
    let pixels: usize = rgb.len() / 3;
    let mut out: Vec<u8> = Vec::with_capacity(pixels * 4);
    let mut p: usize = 0;
    while p < pixels
        invariant
            pixels == rgb@.len() / 3,
            rgb@.len() % 3 == 0,
            pixels <= MAX_PIXELS,
            p <= pixels,
            out@.len() == p * 4,
            forall|k: int| 0 <= k < out@.len() ==> out@[k] == rgba_byte(rgb@, k),
        decreases pixels - p,
    {
        let base: usize = p * 3;
        out.push(rgb[base]);
        out.push(rgb[base + 1]);
        out.push(rgb[base + 2]);
        out.push(255);
        assert forall|k: int| 0 <= k < out@.len() implies out@[k] == rgba_byte(rgb@, k) by {
            if k >= p * 4 {
                assert(k / 4 == p);
                assert(k % 4 == k - p * 4);
            }
        }
        p = p + 1;
    }
    out
}

} // verus!
