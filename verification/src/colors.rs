//! Alpha-weighted compositing of RGBA pixels.
//!
//! A color is four bytes `[r, g, b, a]`.  Compositing a source color onto
//! a destination color is asymmetric: a fully opaque source replaces the
//! destination, a fully transparent source leaves it alone, and anything
//! in between is a truncated weighted average of the channels, weighted
//! by the two alpha values.

use vstd::prelude::*;

verus! {

/// Truncated alpha-weighted average of one channel: the channels `ca` and
/// `cb` weighted by the alpha values `aa` and `ab`.
pub open spec fn blended_channel(ca: u8, aa: u8, cb: u8, ab: u8) -> u8
    recommends
        aa + ab > 0,
{
    (((ca * aa) + (cb * ab)) / (aa + ab)) as u8
}

/// The color produced by compositing source `b` onto destination `a`,
/// as length-4 byte sequences.
pub open spec fn blend_colors(a: Seq<u8>, b: Seq<u8>) -> Seq<u8> {
    if a[3] == 0 || b[3] == 255 {
        b
    } else if b[3] == 0 {
        a
    } else {
        seq![
            blended_channel(a[0], a[3], b[0], b[3]),
            blended_channel(a[1], a[3], b[1], b[3]),
            blended_channel(a[2], a[3], b[2], b[3]),
            if a[3] + b[3] < 255 { (a[3] + b[3]) as u8 } else { 255u8 },
        ]
    }
}

/// The four bytes of pixel `i` of a flat buffer.
pub open spec fn pixel_at(buf: Seq<u8>, i: int) -> Seq<u8> {
    buf.subrange(4 * i, 4 * i + 4)
}

/// The buffer with pixel `i` replaced by color `c`.  A pixel outside the
/// buffer is left untouched, so the result always has the buffer's length.
pub open spec fn write_pixel(buf: Seq<u8>, i: int, c: Seq<u8>) -> Seq<u8> {
    if 0 <= i && 4 * i + 4 <= buf.len() {
        buf.update(4 * i, c[0]).update(4 * i + 1, c[1]).update(4 * i + 2, c[2]).update(
            4 * i + 3,
            c[3],
        )
    } else {
        buf
    }
}

/// The buffer with color `c` composited onto pixel `i`.
pub open spec fn blend_pixel(buf: Seq<u8>, i: int, c: Seq<u8>) -> Seq<u8> {
    write_pixel(buf, i, blend_colors(pixel_at(buf, i), c))
}

/// Compositing one pixel never changes the buffer's length.
pub broadcast proof fn lemma_blend_pixel_len(buf: Seq<u8>, i: int, c: Seq<u8>)
    ensures
        (#[trigger] blend_pixel(buf, i, c)).len() == buf.len(),
{
}

/// A fully opaque source replaces the destination: compositing `src`
/// with alpha 255 onto any `dst` yields `src`.
pub proof fn lemma_composite_opaque_source(dst: Seq<u8>, src: Seq<u8>)
    requires
        dst.len() == 4,
        src.len() == 4,
        src[3] == 255,
    ensures
        blend_colors(dst, src) == src,
{
}

/// A fully transparent source leaves the destination alone: compositing
/// `src` with alpha 0 onto `dst` yields `dst` — except onto a fully
/// transparent destination with different channels, which the
/// replace-transparent rule overwrites with `src`.
pub proof fn lemma_composite_transparent_source(dst: Seq<u8>, src: Seq<u8>)
    requires
        dst.len() == 4,
        src.len() == 4,
        src[3] == 0,
        dst[3] != 0 || dst == src,
    ensures
        blend_colors(dst, src) == dst,
{
}

/// Composite color `b` onto color `a`.
pub fn add_color(a: &[u8; 4], b: &[u8; 4]) -> (r: [u8; 4])
    ensures
        r@ == blend_colors(a@, b@),
{
    if a[3] == 0 || b[3] == 255 {
        return *b;
    }
    if b[3] == 0 {
        return *a;
    }
    let sum_alpha: u32 = a[3] as u32 + b[3] as u32;
    proof {
        assert(forall|x: u8, y: u8| #[trigger] (x as u32 * y as u32) <= 65025u32)
            by (nonlinear_arith);
    }
    let c0: u32 = (a[0] as u32 * a[3] as u32 + b[0] as u32 * b[3] as u32) / sum_alpha;
    let c1: u32 = (a[1] as u32 * a[3] as u32 + b[1] as u32 * b[3] as u32) / sum_alpha;
    let c2: u32 = (a[2] as u32 * a[3] as u32 + b[2] as u32 * b[3] as u32) / sum_alpha;
    let c3: u32 = if sum_alpha < 255 {
        sum_alpha
    } else {
        255
    };
    proof {
        lemma_blend_channel_bound(a[0], a[3], b[0], b[3]);
        lemma_blend_channel_bound(a[1], a[3], b[1], b[3]);
        lemma_blend_channel_bound(a[2], a[3], b[2], b[3]);
    }
    let r = [c0 as u8, c1 as u8, c2 as u8, c3 as u8];
    proof {
        assert(r@ =~= blend_colors(a@, b@));
    }
    r
}

/// A weighted average of two channels never exceeds the largest channel
/// value, so it always fits in one byte.
proof fn lemma_blend_channel_bound(ca: u8, aa: u8, cb: u8, ab: u8)
    requires
        aa + ab > 0,
    ensures
        0 <= (ca * aa + cb * ab) / (aa + ab) <= 255,
{
    assert(ca * aa <= 255 * aa) by (nonlinear_arith)
        requires ca <= 255,
    ;
    assert(cb * ab <= 255 * ab) by (nonlinear_arith)
        requires cb <= 255,
    ;
    assert(255 * aa + 255 * ab == 255 * (aa + ab));
    assert((ca * aa + cb * ab) / (aa + ab) <= (255 * (aa + ab)) / (aa + ab)) by (nonlinear_arith)
        requires
            aa + ab > 0,
            ca * aa + cb * ab <= 255 * (aa + ab),
    ;
    assert((255 * (aa + ab)) / (aa + ab) == 255) by (nonlinear_arith)
        requires aa + ab > 0,
    ;
}

/// Composite color `color` onto pixel `index` of the flat buffer `values`.
pub fn add_color_set_pixel(values: &mut Vec<u8>, index: &usize, color: &[u8; 4])
    requires
        4 * *index + 4 <= old(values)@.len(),
    ensures
        final(values)@ == blend_pixel(old(values)@, *index as int, color@),
{
    let i: usize = *index;
    let n: usize = values.len();
    assert(4 * i + 4 <= n);
    let dst = [values[i * 4], values[i * 4 + 1], values[i * 4 + 2], values[i * 4 + 3]];
    proof {
        assert(dst@ =~= pixel_at(values@, i as int));
    }
    let c = add_color(&dst, color);
    values.set(i * 4, c[0]);
    values.set(i * 4 + 1, c[1]);
    values.set(i * 4 + 2, c[2]);
    values.set(i * 4 + 3, c[3]);
    proof {
        assert(values@ =~= blend_pixel(old(values)@, i as int, color@));
    }
}

/// Composite color `color` onto the pixel at column `x`, row `y` of a
/// row-major buffer that is `width` pixels wide.
pub fn add_color_set_pixel_x_y(
    values: &mut Vec<u8>,
    x: &u16,
    y: &u16,
    color: &[u8; 4],
    width: &u16,
)
    requires
        4 * (*y * *width + *x) + 4 <= old(values)@.len(),
    ensures
        final(values)@ == blend_pixel(old(values)@, *y * *width + *x, color@),
{
    let i = crate::xy_to_i(width, x, y);
    add_color_set_pixel(values, &i, color);
}

} // verus!
