//! Tiled polygon pattern operations.
//!
//! A [`SpriteorPolyOp`] partitions the current region's inner box into
//! `x_count x y_count` equal cells and fills every cell with the same
//! polygon, scaled from unit coordinates to the cell's pixel size.
//! Containment is evaluated once per cell offset and the resulting
//! classification is replicated across every tile through precomputed
//! per-tile base indices: the geometry of equal cells is identical, so
//! re-deriving it per tile would be wasted work.

use vstd::prelude::*;
use vstd::arithmetic::div_mod::{lemma_fundamental_div_mod, lemma_fundamental_div_mod_converse};
use vstd::arithmetic::mul::lemma_mul_inequality;
use crate::colors::{add_color_set_pixel, blend_pixel, lemma_blend_pixel_len};
use crate::maths::{poly_class, poly_coords_bounded, poly_contains, ContainsResult, lemma_abs_mul_le};
use crate::rect_ops::{color_or, default_border_color, default_fill_color, region_wf, RectOpUnw};

verus! {

/// A tiled polygon fill over the current region's inner box.
#[derive(Debug, Clone)]
pub struct SpriteorPolyOp {
    /// Number of tile columns, in `[1, 4096]`.
    pub x_count: u16,
    /// Number of tile rows, in `[1, 4096]`.
    pub y_count: u16,
    /// Unit polygon vertices in thousandths of a cell: `(500, 0)` is the
    /// middle of a cell's top edge, `(1000, 1000)` its bottom-right corner.
    pub polygon: Vec<(u16, u16)>,
    pub border_thickness: u8,
    /// Border color override; absent means `[255, 255, 255, 255]`.
    pub border_color: Option<[u8; 4]>,
    /// Fill color override; absent means `[200, 200, 200, 255]`.
    pub fill_color: Option<[u8; 4]>,
}

/// Tile counts in range and a nonempty unit polygon with coordinates in
/// `[0, 1000]`.
pub open spec fn poly_op_valid(op: SpriteorPolyOp) -> bool {
    &&& 1 <= op.x_count <= 4096
    &&& 1 <= op.y_count <= 4096
    &&& op.polygon@.len() >= 1
    &&& forall|i: int|
        0 <= i < op.polygon@.len() ==> (#[trigger] op.polygon@[i]).0 <= 1000 && op.polygon@[i].1
            <= 1000
}

/// Width in pixels of one tile cell of the container's inner box.
pub open spec fn tile_w(op: SpriteorPolyOp, c: RectOpUnw) -> int {
    (c.border_box_right - c.border_box_left + 1) / (op.x_count as int)
}

/// Height in pixels of one tile cell of the container's inner box.
pub open spec fn tile_h(op: SpriteorPolyOp, c: RectOpUnw) -> int {
    (c.border_box_bottom - c.border_box_top + 1) / (op.y_count as int)
}

/// The unit polygon scaled to one cell's pixel dimensions, each
/// coordinate scaled from thousandths and floored.
pub open spec fn scaled_poly_spec(tw: int, th: int, pts: Seq<(u16, u16)>) -> Seq<(i32, i32)> {
    Seq::new(
        pts.len(),
        |i: int| (((pts[i].0 * tw) / 1000) as i32, ((pts[i].1 * th) / 1000) as i32),
    )
}

/// Pixel index of the top-left pixel of tile `t`, tiles numbered in
/// row-major order over the tile grid.
pub open spec fn tile_base(op: SpriteorPolyOp, c: RectOpUnw, sprite_width: u16, t: int) -> int {
    let ty = t / (op.x_count as int);
    let tx = t % (op.x_count as int);
    (c.border_box_top + ty * tile_h(op, c)) * sprite_width + c.border_box_left + tx * tile_w(
        op,
        c,
    )
}

/// The buffer after `color` is composited at cell offset `(ox, oy)` of
/// each of the first `t` tiles.
pub open spec fn blend_tiles(
    op: SpriteorPolyOp,
    c: RectOpUnw,
    sprite_width: u16,
    buf: Seq<u8>,
    ox: int,
    oy: int,
    color: [u8; 4],
    t: nat,
) -> Seq<u8>
    decreases t,
{
    if t == 0 {
        buf
    } else {
        blend_pixel(
            blend_tiles(op, c, sprite_width, buf, ox, oy, color, (t - 1) as nat),
            tile_base(op, c, sprite_width, t - 1) + oy * sprite_width + ox,
            color@,
        )
    }
}

/// The buffer after the classification of cell offset `(ox, oy)` is
/// painted into every tile: fill color inside, border color on the
/// border, nothing outside.
pub open spec fn paint_offset(
    op: SpriteorPolyOp,
    c: RectOpUnw,
    sprite_width: u16,
    buf: Seq<u8>,
    ox: int,
    oy: int,
) -> Seq<u8> {
    let tiles = (op.x_count * op.y_count) as nat;
    let class = poly_class(
        scaled_poly_spec(tile_w(op, c), tile_h(op, c), op.polygon@),
        (ox as u16, oy as u16),
        op.border_thickness,
    );
    match class {
        ContainsResult::Inside => blend_tiles(
            op,
            c,
            sprite_width,
            buf,
            ox,
            oy,
            color_or(op.fill_color, default_fill_color()),
            tiles,
        ),
        ContainsResult::Border => blend_tiles(
            op,
            c,
            sprite_width,
            buf,
            ox,
            oy,
            color_or(op.border_color, default_border_color()),
            tiles,
        ),
        ContainsResult::Outside => buf,
    }
}

/// The buffer after the first `n` cell offsets of offset row `oy` are
/// painted, left to right.
pub open spec fn paint_offset_row(
    op: SpriteorPolyOp,
    c: RectOpUnw,
    sprite_width: u16,
    buf: Seq<u8>,
    oy: int,
    n: nat,
) -> Seq<u8>
    decreases n,
{
    if n == 0 {
        buf
    } else {
        paint_offset(
            op,
            c,
            sprite_width,
            paint_offset_row(op, c, sprite_width, buf, oy, (n - 1) as nat),
            n - 1,
            oy,
        )
    }
}

/// The buffer after the first `m` cell offset rows are painted.
pub open spec fn paint_offset_rows(
    op: SpriteorPolyOp,
    c: RectOpUnw,
    sprite_width: u16,
    buf: Seq<u8>,
    m: nat,
) -> Seq<u8>
    decreases m,
{
    if m == 0 {
        buf
    } else {
        paint_offset_row(
            op,
            c,
            sprite_width,
            paint_offset_rows(op, c, sprite_width, buf, (m - 1) as nat),
            m - 1,
            tile_w(op, c) as nat,
        )
    }
}

/// The buffer after the whole tiled pattern is painted.  Inner boxes too
/// small for even one cell paint nothing.
pub open spec fn poly_paint(op: SpriteorPolyOp, c: RectOpUnw, sprite_width: u16, buf: Seq<u8>) -> (Seq<u8>) {
    if tile_w(op, c) >= 1 && tile_h(op, c) >= 1 {
        paint_offset_rows(op, c, sprite_width, buf, tile_h(op, c) as nat)
    } else {
        buf
    }
}

/// Replicating one offset across tiles never changes the buffer's length.
pub proof fn lemma_blend_tiles_len(
    op: SpriteorPolyOp,
    c: RectOpUnw,
    sprite_width: u16,
    buf: Seq<u8>,
    ox: int,
    oy: int,
    color: [u8; 4],
    t: nat,
)
    ensures
        blend_tiles(op, c, sprite_width, buf, ox, oy, color, t).len() == buf.len(),
    decreases t,
{
    broadcast use crate::colors::lemma_blend_pixel_len;

    if t > 0 {
        lemma_blend_tiles_len(op, c, sprite_width, buf, ox, oy, color, (t - 1) as nat);
    }
}

/// Painting one offset row never changes the buffer's length.
pub proof fn lemma_paint_offset_row_len(
    op: SpriteorPolyOp,
    c: RectOpUnw,
    sprite_width: u16,
    buf: Seq<u8>,
    oy: int,
    n: nat,
)
    ensures
        paint_offset_row(op, c, sprite_width, buf, oy, n).len() == buf.len(),
    decreases n,
{
    if n > 0 {
        lemma_paint_offset_row_len(op, c, sprite_width, buf, oy, (n - 1) as nat);
        let prev = paint_offset_row(op, c, sprite_width, buf, oy, (n - 1) as nat);
        let tiles = (op.x_count * op.y_count) as nat;
        lemma_blend_tiles_len(
            op,
            c,
            sprite_width,
            prev,
            n - 1,
            oy,
            color_or(op.fill_color, default_fill_color()),
            tiles,
        );
        lemma_blend_tiles_len(
            op,
            c,
            sprite_width,
            prev,
            n - 1,
            oy,
            color_or(op.border_color, default_border_color()),
            tiles,
        );
    }
}

/// Painting offset rows never changes the buffer's length.
pub proof fn lemma_paint_offset_rows_len(
    op: SpriteorPolyOp,
    c: RectOpUnw,
    sprite_width: u16,
    buf: Seq<u8>,
    m: nat,
)
    ensures
        paint_offset_rows(op, c, sprite_width, buf, m).len() == buf.len(),
    decreases m,
{
    if m > 0 {
        lemma_paint_offset_rows_len(op, c, sprite_width, buf, (m - 1) as nat);
        lemma_paint_offset_row_len(
            op,
            c,
            sprite_width,
            paint_offset_rows(op, c, sprite_width, buf, (m - 1) as nat),
            m - 1,
            tile_w(op, c) as nat,
        );
    }
}

/// The unit polygon scaled to one cell's pixel dimensions.
#[verifier::loop_isolation(false)]
fn scale_poly(x: u16, y: u16, pts: &Vec<(u16, u16)>) -> (r: Vec<(i32, i32)>)
    requires
        x <= 4096,
        y <= 4096,
        forall|i: int| 0 <= i < pts@.len() ==> (#[trigger] pts@[i]).0 <= 1000 && pts@[i].1 <= 1000,
    ensures
        r@ =~= scaled_poly_spec(x as int, y as int, pts@),
        r@.len() == pts@.len(),
        poly_coords_bounded(r@),
{
    let mut r: Vec<(i32, i32)> = Vec::new();
    let n: usize = pts.len();
    for i in 0..n
        invariant
            r@.len() == i,
            x <= 4096,
            y <= 4096,
            forall|j: int|
                0 <= j < pts@.len() ==> (#[trigger] pts@[j]).0 <= 1000 && pts@[j].1 <= 1000,
            forall|j: int|
                0 <= j < i ==> #[trigger] r@[j] == (((pts@[j].0 * x) / 1000) as i32, ((pts@[j].1
                    * y) / 1000) as i32),
            forall|j: int|
                0 <= j < i ==> 0 <= (#[trigger] r@[j]).0 <= 100000 && 0 <= r@[j].1 <= 100000,
    {
        let p = pts[i];
        proof {
            lemma_abs_mul_le(p.0 as int, x as int, 1000, 4096);
            lemma_abs_mul_le(p.1 as int, y as int, 1000, 4096);
        }
        let sx: u32 = (p.0 as u32 * x as u32) / 1000;
        let sy: u32 = (p.1 as u32 * y as u32) / 1000;
        r.push((sx as i32, sy as i32));
    }
    r
}

impl SpriteorPolyOp {
    /// Paint the tiled pattern into `values` over the container's inner
    /// box: the inner box is split into `x_count x y_count` equal cells,
    /// each cell offset is classified once against the scaled polygon,
    /// and the classified color is composited at that offset in every
    /// tile.
    #[verifier::loop_isolation(false)]
    #[verifier::rlimit(100)]
    pub(crate) fn add_to(&self, values: &mut Vec<u8>, container: &RectOpUnw, sprite_width: &u16)
        requires
            poly_op_valid(*self),
            region_wf(*container),
            container.right < 4096,
            container.bottom < 4096,
            4 * ((container.bottom as int) * (*sprite_width as int) + container.right) + 4 <= old(
                values,
            )@.len(),
        ensures
            final(values)@ == poly_paint(*self, *container, *sprite_width, old(values)@),
            final(values)@.len() == old(values)@.len(),
    {
        let buf_len: usize = values.len();
        let inner_w: u16 = container.border_box_right - container.border_box_left + 1;
        let inner_h: u16 = container.border_box_bottom - container.border_box_top + 1;
        let tw: u16 = inner_w / self.x_count;
        let th: u16 = inner_h / self.y_count;
        if tw == 0 || th == 0 {
            return ;
        }
        proof {
            assert(tw <= inner_w && th <= inner_h) by (nonlinear_arith)
                requires
                    tw == inner_w as int / (self.x_count as int),
                    th == inner_h as int / (self.y_count as int),
                    self.x_count >= 1,
                    self.y_count >= 1,
                    inner_w >= 0,
                    inner_h >= 0,
            ;
            lemma_abs_mul_le(self.x_count as int, self.y_count as int, 4096, 4096);
        }
        let poly: Vec<(i32, i32)> = scale_poly(tw, th, &self.polygon);
        let sw: u16 = *sprite_width;
        let tile_count: usize = self.x_count as usize * self.y_count as usize;
        proof {
            lemma_fundamental_div_mod(inner_h as int, self.y_count as int);
            lemma_fundamental_div_mod(inner_w as int, self.x_count as int);
            assert(inner_h as int == (self.y_count as int) * (th as int) + (inner_h as int) % (
            self.y_count as int));
            assert(inner_w as int == (self.x_count as int) * (tw as int) + (inner_w as int) % (
            self.x_count as int));
        }
        let mut tile_index_offsets: Vec<usize> = Vec::new();
        for ty in 0..self.y_count
            invariant
                tile_index_offsets@.len() == ty as int * self.x_count as int,
                forall|t: int|
                    0 <= t < tile_index_offsets@.len() ==> #[trigger] tile_index_offsets@[t]
                        == tile_base(*self, *container, sw, t),
                forall|t: int|
                    0 <= t < tile_index_offsets@.len() ==> #[trigger] tile_index_offsets@[t] + (
                    th - 1) * sw + tw - 1 <= (container.border_box_bottom as int) * sw
                        + container.border_box_right,
        {
            for tx in 0..self.x_count
                invariant
                    tile_index_offsets@.len() == ty as int * self.x_count as int + tx as int,
                    forall|t: int|
                        0 <= t < tile_index_offsets@.len() ==> #[trigger] tile_index_offsets@[t]
                            == tile_base(*self, *container, sw, t),
                    forall|t: int|
                        0 <= t < tile_index_offsets@.len() ==> #[trigger] tile_index_offsets@[t]
                            + (th - 1) * sw + tw - 1 <= (container.border_box_bottom as int) * sw
                            + container.border_box_right,
            {
                proof {
                    lemma_mul_inequality(ty as int + 1, self.y_count as int, th as int);
                    lemma_mul_inequality(tx as int + 1, self.x_count as int, tw as int);
                    lemma_abs_mul_le(ty as int, th as int, 4096, 65535);
                    lemma_abs_mul_le(tx as int, tw as int, 4096, 65535);
                    assert((ty as int + 1) * th as int == ty as int * th as int + th as int)
                        by (nonlinear_arith);
                    assert((tx as int + 1) * tw as int == tx as int * tw as int + tw as int)
                        by (nonlinear_arith);
                }
                let row: usize = container.border_box_top as usize + ty as usize * th as usize;
                let col: usize = container.border_box_left as usize + tx as usize * tw as usize;
                proof {
                    assert(row + th - 1 <= container.border_box_bottom);
                    assert(col + tw - 1 <= container.border_box_right);
                    lemma_abs_mul_le(row as int, sw as int, 0xFFFF, 0xFFFF);
                    lemma_mul_inequality(row as int, container.border_box_bottom as int - th + 1, sw as int);
                    lemma_fundamental_div_mod_converse(
                        ty as int * self.x_count as int + tx as int,
                        self.x_count as int,
                        ty as int,
                        tx as int,
                    );
                }
                let idx: usize = row * sw as usize + col;
                proof {
                    assert(idx == tile_base(*self, *container, sw, tile_index_offsets@.len() as int));
                    lemma_mul_inequality((row + th - 1) as int, container.border_box_bottom as int, sw as int);
                    assert((row as int + th - 1) * sw as int == row as int * sw as int + (th as int
                        - 1) * sw as int) by (nonlinear_arith);
                }
                tile_index_offsets.push(idx);
            }
            proof {
                assert((ty as int + 1) * self.x_count as int == ty as int * self.x_count as int
                    + self.x_count as int) by (nonlinear_arith);
            }
        }
        proof {
            assert(self.y_count as int * self.x_count as int == self.x_count as int
                * self.y_count as int) by (nonlinear_arith);
        }
        let fill_color: [u8; 4] = match self.fill_color {
            Some(c) => c,
            None => [200, 200, 200, 255],
        };
        let border_color: [u8; 4] = match self.border_color {
            Some(c) => c,
            None => [255, 255, 255, 255],
        };
        proof {
            lemma_paint_offset_rows_len(*self, *container, sw, old(values)@, th as nat);
        }
        for tile_y in 0..th
            invariant
                values@.len() == old(values)@.len(),
                values@ == paint_offset_rows(*self, *container, sw, old(values)@, tile_y as nat),
        {
            let ghost rows_state: Seq<u8> = values@;
            for tile_x in 0..tw
                invariant
                    values@.len() == old(values)@.len(),
                    values@ == paint_offset_row(
                        *self,
                        *container,
                        sw,
                        rows_state,
                        tile_y as int,
                        tile_x as nat,
                    ),
            {
                proof {
                    lemma_paint_offset_row_len(*self, *container, sw, rows_state, tile_y as int, tile_x as nat);
                }
                let p: (u16, u16) = (tile_x, tile_y);
                let contains = poly_contains(&poly, &p, self.border_thickness);
                if contains == ContainsResult::Outside {
                    proof {
                        assert(values@ == paint_offset_row(
                            *self,
                            *container,
                            sw,
                            rows_state,
                            tile_y as int,
                            (tile_x + 1) as nat,
                        ));
                    }
                } else {
                    let color: [u8; 4] = match contains {
                        ContainsResult::Inside => fill_color,
                        ContainsResult::Border => border_color,
                        _ => [0, 0, 0, 0],
                    };
                    let ghost cell_state: Seq<u8> = values@;
                    let n_offsets: usize = tile_index_offsets.len();
                    for t in 0..n_offsets
                        invariant
                            values@.len() == old(values)@.len(),
                            values@ == blend_tiles(
                                *self,
                                *container,
                                sw,
                                cell_state,
                                tile_x as int,
                                tile_y as int,
                                color,
                                t as nat,
                            ),
                    {
                        proof {
                            lemma_blend_tiles_len(
                                *self,
                                *container,
                                sw,
                                cell_state,
                                tile_x as int,
                                tile_y as int,
                                color,
                                t as nat,
                            );
                            lemma_abs_mul_le(tile_y as int, sw as int, 0xFFFF, 0xFFFF);
                            lemma_mul_inequality(tile_y as int, th as int - 1, sw as int);
                            lemma_mul_inequality(container.border_box_bottom as int, container.bottom as int, sw as int);
                        }
                        let offset: usize = tile_index_offsets[t];
                        proof {
                            assert(tile_index_offsets@[t as int] + (th - 1) * sw + tw - 1 <= (
                            container.border_box_bottom as int) * sw
                                + container.border_box_right);
                            assert(offset + tile_y as int * sw as int + tile_x as int <= (
                            container.bottom as int) * (sw as int) + container.right);
                            assert(4 * ((container.bottom as int) * (sw as int) + container.right)
                                + 4 <= buf_len);
                        }
                        let index: usize = offset + tile_y as usize * sw as usize + tile_x as usize;
                        add_color_set_pixel(values, &index, &color);
                    }
                    proof {
                        assert(tile_count == (self.x_count * self.y_count) as nat);
                        assert(n_offsets == tile_count);
                        assert(values@ == paint_offset(
                            *self,
                            *container,
                            sw,
                            paint_offset_row(*self, *container, sw, rows_state, tile_y as int, tile_x as nat),
                            tile_x as int,
                            tile_y as int,
                        ));
                        assert(values@ == paint_offset_row(
                            *self,
                            *container,
                            sw,
                            rows_state,
                            tile_y as int,
                            (tile_x + 1) as nat,
                        ));
                    }
                }
            }
            proof {
                assert(values@ == paint_offset_rows(
                    *self,
                    *container,
                    sw,
                    old(values)@,
                    (tile_y + 1) as nat,
                ));
            }
        }
    }
}

impl Default for SpriteorPolyOp {
    /// The default pattern: one tile holding a diamond with the default
    /// colors and no border band.
    fn default() -> (r: Self)
        ensures
            r.x_count == 1,
            r.y_count == 1,
            r.polygon@ =~= diamond_poly_spec(),
            r.border_thickness == 0,
            r.border_color is None,
            r.fill_color is None,
    {
        SpriteorPolyOp {
            x_count: 1,
            y_count: 1,
            polygon: diamond_poly(),
            border_thickness: 0,
            border_color: None,
            fill_color: None,
        }
    }
}

/// The unit diamond: vertices at the middle of each cell edge.
pub open spec fn diamond_poly_spec() -> Seq<(u16, u16)> {
    seq![(500u16, 0u16), (1000u16, 500u16), (500u16, 1000u16), (0u16, 500u16)]
}

/// The unit diamond as a vertex list.
pub fn diamond_poly() -> (r: Vec<(u16, u16)>)
    ensures
        r@ =~= diamond_poly_spec(),
{
    let mut r: Vec<(u16, u16)> = Vec::new();
    r.push((500, 0));
    r.push((1000, 500));
    r.push((500, 1000));
    r.push((0, 500));
    r
}

} // verus!
