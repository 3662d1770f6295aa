//! Rectangle operations and the resolved region model.
//!
//! A [`SpriteorRectOp`] carries relative geometry: two corner points
//! (negative coordinates measured from the parent region's far edge), a
//! corner radius, a border width and optional colors.  Resolving it
//! against a parent region yields a [`RectOpUnw`], an absolute region
//! with clamped bounds that classifies every pixel as inside, border or
//! outside, and paints itself into a buffer clipped by its parent.

use vstd::prelude::*;
use vstd::math::{max, min};
use crate::colors::{add_color_set_pixel, blend_pixel};
use crate::maths::{dist_sq, distance_sq_u16, xy_to_i, ContainsResult};

verus! {

/// A rectangle painting operation with geometry relative to the current
/// region.  Negative point coordinates are measured from the parent
/// region's far edge.  Coordinates must lie in `[-4096, 4096]`.
#[derive(Debug, Clone)]
pub struct SpriteorRectOp {
    /// First corner `(x, y)`.  Defaults to the parent's top-left corner.
    pub point_a: Option<(i16, i16)>,
    /// Second corner `(x, y)`.  Defaults to the parent's top-left corner,
    /// except when `point_a` is also absent: then the parent's
    /// bottom-right corner, so a default op covers the whole parent.
    pub point_b: Option<(i16, i16)>,
    pub corner_radius: u16,
    pub border_width: u16,
    /// Fill color override; absent means `[200, 200, 200, 255]`.
    pub fill_color: Option<[u8; 4]>,
    /// Border color override; absent means `[255, 255, 255, 255]`.
    pub border_color: Option<[u8; 4]>,
    pub debug: bool,
}

/// The default rectangle operation: no points, no radius, no border,
/// default colors.
pub open spec fn rect_op_default() -> SpriteorRectOp {
    SpriteorRectOp {
        point_a: None,
        point_b: None,
        corner_radius: 0,
        border_width: 0,
        fill_color: None,
        border_color: None,
        debug: false,
    }
}

impl Default for SpriteorRectOp {
    fn default() -> (r: Self)
        ensures
            r == rect_op_default(),
    {
        SpriteorRectOp {
            point_a: None,
            point_b: None,
            corner_radius: 0,
            border_width: 0,
            fill_color: None,
            border_color: None,
            debug: false,
        }
    }
}

/// The point coordinates of a rectangle operation lie in `[-4096, 4096]`.
pub open spec fn rect_op_valid(op: SpriteorRectOp) -> bool {
    &&& match op.point_a {
        Some(p) => -4096 <= p.0 <= 4096 && -4096 <= p.1 <= 4096,
        None => true,
    }
    &&& match op.point_b {
        Some(p) => -4096 <= p.0 <= 4096 && -4096 <= p.1 <= 4096,
        None => true,
    }
}

/// Default fill color.
pub open spec fn default_fill_color() -> [u8; 4] {
    [200u8, 200u8, 200u8, 255u8]
}

/// Default border color.
pub open spec fn default_border_color() -> [u8; 4] {
    [255u8, 255u8, 255u8, 255u8]
}

/// Transparent black.
pub open spec fn no_color() -> [u8; 4] {
    [0u8, 0u8, 0u8, 0u8]
}

/// An optional color, or the given default when absent.
pub open spec fn color_or(c: Option<[u8; 4]>, d: [u8; 4]) -> [u8; 4] {
    match c {
        Some(v) => v,
        None => d,
    }
}

/// A resolved, absolute region: pixel bounds, rounded-corner radius,
/// border width, colors, the four corner circle centers, and the bounds
/// of the box inside the border.
#[derive(Debug)]
pub struct RectOpUnw {
    pub top: u16,
    pub right: u16,
    pub bottom: u16,
    pub left: u16,
    pub border_color: [u8; 4],
    pub fill_color: [u8; 4],
    pub radius: u16,
    pub border_width: u16,
    pub corners: [(u16, u16); 4],
    /// Left edge inside of border.
    pub border_box_left: u16,
    /// Right edge inside of border.
    pub border_box_right: u16,
    /// Top edge inside of border.
    pub border_box_top: u16,
    /// Bottom edge inside of border.
    pub border_box_bottom: u16,
}

/// The radius of the inner edge of the border ring around a rounded
/// corner, clamped at zero when the border is wider than the radius.
pub open spec fn inner_radius(radius: u16, border_width: u16) -> int {
    if border_width <= radius {
        radius - border_width
    } else {
        0
    }
}

/// Classification of a point against one rounded corner: outside the
/// corner circle, on its border ring, or inside it.  The Euclidean
/// comparisons `d <= radius` and `d >= radius - border` are decided
/// exactly on squared distances.
pub open spec fn corner_class(
    radius: u16,
    border_width: u16,
    corner: (u16, u16),
    x: u16,
    y: u16,
) -> ContainsResult {
    let d2 = dist_sq(x as int, y as int, corner.0 as int, corner.1 as int);
    if d2 <= radius * radius {
        if d2 >= inner_radius(radius, border_width) * inner_radius(radius, border_width) {
            ContainsResult::Border
        } else {
            ContainsResult::Inside
        }
    } else {
        ContainsResult::Outside
    }
}

/// Classification of pixel `(x, y)` against region `r`: outside the
/// bounds, in one of the four radius-sized corner squares (decided by
/// the corner circle), in the border band, or inside.
pub open spec fn rect_contains(r: RectOpUnw, x: u16, y: u16) -> ContainsResult {
    if x < r.left || x > r.right || y < r.top || y > r.bottom {
        ContainsResult::Outside
    } else if r.radius > 0 && x < r.corners[0].0 && y < r.corners[0].1 {
        corner_class(r.radius, r.border_width, r.corners[0], x, y)
    } else if r.radius > 0 && x > r.corners[1].0 && y < r.corners[1].1 {
        corner_class(r.radius, r.border_width, r.corners[1], x, y)
    } else if r.radius > 0 && x > r.corners[2].0 && y > r.corners[2].1 {
        corner_class(r.radius, r.border_width, r.corners[2], x, y)
    } else if r.radius > 0 && x < r.corners[3].0 && y > r.corners[3].1 {
        corner_class(r.radius, r.border_width, r.corners[3], x, y)
    } else if r.border_width > 0 && ((x >= r.left && x < r.border_box_left) || (x <= r.right && x
        > r.border_box_right) || (y >= r.top && y < r.border_box_top) || (y <= r.bottom && y
        > r.border_box_bottom)) {
        ContainsResult::Border
    } else {
        ContainsResult::Inside
    }
}

/// The buffer after compositing `color` onto pixel `(x, y)`, but only
/// when the pixel is strictly inside the clipping region `c`.
pub open spec fn clip_blend(
    c: RectOpUnw,
    sprite_width: u16,
    buf: Seq<u8>,
    x: u16,
    y: u16,
    color: [u8; 4],
) -> Seq<u8> {
    if rect_contains(c, x, y) == ContainsResult::Inside {
        blend_pixel(buf, y * sprite_width + x, color@)
    } else {
        buf
    }
}

/// The buffer after region `r` paints pixel `(x, y)`: its border color on
/// the border band, its fill color inside, nothing outside; every write
/// clipped by the region `c`.
pub open spec fn paint_pixel(
    r: RectOpUnw,
    c: RectOpUnw,
    sprite_width: u16,
    buf: Seq<u8>,
    x: u16,
    y: u16,
) -> Seq<u8> {
    match rect_contains(r, x, y) {
        ContainsResult::Border => clip_blend(c, sprite_width, buf, x, y, r.border_color),
        ContainsResult::Inside => clip_blend(c, sprite_width, buf, x, y, r.fill_color),
        ContainsResult::Outside => buf,
    }
}

/// The number of integers in the closed span `[lo, hi]`.
pub open spec fn span_len(lo: u16, hi: u16) -> nat {
    if lo <= hi {
        (hi + 1 - lo) as nat
    } else {
        0
    }
}

/// The buffer after region `r` paints the first `n` pixels of row `y`,
/// left to right from `r.left`.
pub open spec fn paint_row(
    r: RectOpUnw,
    c: RectOpUnw,
    sprite_width: u16,
    buf: Seq<u8>,
    y: u16,
    n: nat,
) -> Seq<u8>
    decreases n,
{
    if n == 0 {
        buf
    } else {
        paint_pixel(
            r,
            c,
            sprite_width,
            paint_row(r, c, sprite_width, buf, y, (n - 1) as nat),
            (r.left + n - 1) as u16,
            y,
        )
    }
}

/// The buffer after region `r` paints its first `m` rows, top to bottom
/// from `r.top`.
pub open spec fn paint_rows(
    r: RectOpUnw,
    c: RectOpUnw,
    sprite_width: u16,
    buf: Seq<u8>,
    m: nat,
) -> Seq<u8>
    decreases m,
{
    if m == 0 {
        buf
    } else {
        paint_row(
            r,
            c,
            sprite_width,
            paint_rows(r, c, sprite_width, buf, (m - 1) as nat),
            (r.top + m - 1) as u16,
            span_len(r.left, r.right),
        )
    }
}

/// The buffer after region `r` paints all pixels in its bounds, row by
/// row, clipped by region `c`.
pub open spec fn rect_paint(r: RectOpUnw, c: RectOpUnw, sprite_width: u16, buf: Seq<u8>) -> (Seq<u8>) {
    paint_rows(r, c, sprite_width, buf, span_len(r.top, r.bottom))
}

/// Painting one row never changes the buffer's length.
pub proof fn lemma_paint_row_len(
    r: RectOpUnw,
    c: RectOpUnw,
    sprite_width: u16,
    buf: Seq<u8>,
    y: u16,
    n: nat,
)
    ensures
        paint_row(r, c, sprite_width, buf, y, n).len() == buf.len(),
    decreases n,
{
    broadcast use crate::colors::lemma_blend_pixel_len;

    if n > 0 {
        lemma_paint_row_len(r, c, sprite_width, buf, y, (n - 1) as nat);
    }
}

/// Painting rows never changes the buffer's length.
pub proof fn lemma_paint_rows_len(
    r: RectOpUnw,
    c: RectOpUnw,
    sprite_width: u16,
    buf: Seq<u8>,
    m: nat,
)
    ensures
        paint_rows(r, c, sprite_width, buf, m).len() == buf.len(),
    decreases m,
{
    if m > 0 {
        lemma_paint_rows_len(r, c, sprite_width, buf, (m - 1) as nat);
        lemma_paint_row_len(
            r,
            c,
            sprite_width,
            paint_rows(r, c, sprite_width, buf, (m - 1) as nat),
            (r.top + m - 1) as u16,
            span_len(r.left, r.right),
        );
    }
}

/// A resolved region is well formed: ordered bounds, border box edges
/// derived from the bounds by the border width, and a border no wider
/// than half the region.
pub open spec fn region_wf(r: RectOpUnw) -> bool {
    &&& r.left <= r.right
    &&& r.top <= r.bottom
    &&& r.border_box_left == r.left + r.border_width
    &&& r.border_box_top == r.top + r.border_width
    &&& r.border_box_right == r.right - r.border_width
    &&& r.border_box_bottom == r.bottom - r.border_width
    &&& 2 * r.border_width <= r.right - r.left
    &&& 2 * r.border_width <= r.bottom - r.top
}

/// A negative coordinate counts from the far edge of a parent span of
/// the given extent; the result is clamped at zero.
pub open spec fn resolved_coord(v: i16, extent: int) -> int {
    if v < 0 {
        if extent + v >= 0 {
            extent + v
        } else {
            0
        }
    } else {
        v as int
    }
}

/// `v` clamped into the closed interval `[lo, hi]`.
pub open spec fn clamp(v: int, lo: int, hi: int) -> int {
    if v < lo {
        lo
    } else if v > hi {
        hi
    } else {
        v
    }
}

/// The first corner point of a rectangle operation, resolved against the
/// parent extents: absent means the parent's top-left corner.
pub open spec fn resolved_a(op: SpriteorRectOp, pt: u16, pr: u16, pb: u16, pl: u16) -> (int, int) {
    let a = match op.point_a {
        Some(p) => p,
        None => (pl as i16, pt as i16),
    };
    (resolved_coord(a.0, pr - pl), resolved_coord(a.1, pb - pt))
}

/// The second corner point, resolved: absent means the parent's top-left
/// corner, or its bottom-right corner when the first point is also absent.
pub open spec fn resolved_b(op: SpriteorRectOp, pt: u16, pr: u16, pb: u16, pl: u16) -> (int, int) {
    let b = match op.point_b {
        Some(p) => p,
        None => match op.point_a {
            Some(_) => (pl as i16, pt as i16),
            None => (pr as i16, pb as i16),
        },
    };
    (resolved_coord(b.0, pr - pl), resolved_coord(b.1, pb - pt))
}

/// The resolved left bound: the smaller resolved x, clamped into the parent.
pub open spec fn resolved_left(op: SpriteorRectOp, pt: u16, pr: u16, pb: u16, pl: u16) -> u16 {
    clamp(
        min(resolved_a(op, pt, pr, pb, pl).0, resolved_b(op, pt, pr, pb, pl).0),
        pl as int,
        pr as int,
    ) as u16
}

/// The resolved right bound: the larger resolved x, clamped into the parent.
pub open spec fn resolved_right(op: SpriteorRectOp, pt: u16, pr: u16, pb: u16, pl: u16) -> u16 {
    clamp(
        max(resolved_a(op, pt, pr, pb, pl).0, resolved_b(op, pt, pr, pb, pl).0),
        pl as int,
        pr as int,
    ) as u16
}

/// The resolved top bound: the smaller resolved y, clamped into the parent.
pub open spec fn resolved_top(op: SpriteorRectOp, pt: u16, pr: u16, pb: u16, pl: u16) -> u16 {
    clamp(
        min(resolved_a(op, pt, pr, pb, pl).1, resolved_b(op, pt, pr, pb, pl).1),
        pt as int,
        pb as int,
    ) as u16
}

/// The resolved bottom bound: the larger resolved y, clamped into the parent.
pub open spec fn resolved_bottom(op: SpriteorRectOp, pt: u16, pr: u16, pb: u16, pl: u16) -> u16 {
    clamp(
        max(resolved_a(op, pt, pr, pb, pl).1, resolved_b(op, pt, pr, pb, pl).1),
        pt as int,
        pb as int,
    ) as u16
}

/// The corner radius clamped to the resolved region's extent.
pub open spec fn resolved_radius(op: SpriteorRectOp, pt: u16, pr: u16, pb: u16, pl: u16) -> u16 {
    let w = resolved_right(op, pt, pr, pb, pl) - resolved_left(op, pt, pr, pb, pl);
    let h = resolved_bottom(op, pt, pr, pb, pl) - resolved_top(op, pt, pr, pb, pl);
    min(op.corner_radius as int, min(w, h)) as u16
}

/// The border width clamped to half the resolved region's extent.
pub open spec fn resolved_border_width(
    op: SpriteorRectOp,
    pt: u16,
    pr: u16,
    pb: u16,
    pl: u16,
) -> u16 {
    let w = resolved_right(op, pt, pr, pb, pl) - resolved_left(op, pt, pr, pb, pl);
    let h = resolved_bottom(op, pt, pr, pb, pl) - resolved_top(op, pt, pr, pb, pl);
    min(op.border_width as int, min(w / 2, h / 2)) as u16
}

/// The region that a rectangle operation resolves to against the parent
/// bounds `[pl, pr] x [pt, pb]`: points resolved (negative values from
/// the far edge), bounds ordered and clamped into the parent, radius
/// clamped to the region's extent and border width to half of it.
pub open spec fn from_rect_op_spec(
    op: SpriteorRectOp,
    pt: u16,
    pr: u16,
    pb: u16,
    pl: u16,
) -> RectOpUnw {
    let left = resolved_left(op, pt, pr, pb, pl);
    let right = resolved_right(op, pt, pr, pb, pl);
    let top = resolved_top(op, pt, pr, pb, pl);
    let bottom = resolved_bottom(op, pt, pr, pb, pl);
    let r = resolved_radius(op, pt, pr, pb, pl);
    let bw = resolved_border_width(op, pt, pr, pb, pl);
    RectOpUnw {
        top,
        right,
        bottom,
        left,
        radius: r,
        border_width: bw,
        fill_color: color_or(op.fill_color, default_fill_color()),
        border_color: color_or(op.border_color, default_border_color()),
        corners: [
            ((left + r) as u16, (top + r) as u16),
            ((right - r) as u16, (top + r) as u16),
            ((right - r) as u16, (bottom - r) as u16),
            ((left + r) as u16, (bottom - r) as u16),
        ],
        border_box_left: (left + bw) as u16,
        border_box_right: (right - bw) as u16,
        border_box_top: (top + bw) as u16,
        border_box_bottom: (bottom - bw) as u16,
    }
}

/// The full-canvas region used as the first parent and after a layer
/// reset: the canvas bounds inset by the margin, with no radius, no
/// border and transparent colors.
pub open spec fn empty_rect_spec(w: u16, h: u16, margin: u16) -> RectOpUnw {
    RectOpUnw {
        top: margin,
        right: (w - margin - 1) as u16,
        bottom: (h - margin - 1) as u16,
        left: margin,
        radius: 0,
        border_width: 0,
        fill_color: no_color(),
        border_color: no_color(),
        corners: [(0u16, 0u16), (0u16, 0u16), (0u16, 0u16), (0u16, 0u16)],
        border_box_left: margin,
        border_box_right: (w - margin - 1) as u16,
        border_box_top: margin,
        border_box_bottom: (h - margin - 1) as u16,
    }
}

/// A bare region with the given bounds and fill color, no radius and no
/// border, as the line operations build.
pub open spec fn rect_new_spec(top: u16, right: u16, bottom: u16, left: u16, fill: [u8; 4]) -> RectOpUnw {
    RectOpUnw {
        top,
        right,
        bottom,
        left,
        radius: 0,
        border_width: 0,
        fill_color: fill,
        border_color: no_color(),
        corners: [(0u16, 0u16), (0u16, 0u16), (0u16, 0u16), (0u16, 0u16)],
        border_box_left: 0,
        border_box_right: 0,
        border_box_top: 0,
        border_box_bottom: 0,
    }
}

impl RectOpUnw {
    /// A bare region with the given bounds and fill color.
    pub fn new(top: u16, right: u16, bottom: u16, left: u16, fill: [u8; 4]) -> (r: RectOpUnw)
        ensures
            r == rect_new_spec(top, right, bottom, left, fill),
    {
        RectOpUnw {
            top,
            right,
            bottom,
            left,
            radius: 0,
            border_width: 0,
            fill_color: fill,
            border_color: [0, 0, 0, 0],
            corners: [(0, 0), (0, 0), (0, 0), (0, 0)],
            border_box_left: 0,
            border_box_right: 0,
            border_box_top: 0,
            border_box_bottom: 0,
        }
    }

    /// The full-canvas region: canvas bounds inset by the margin.
    pub fn empty(sprite_width: &u16, sprite_height: &u16, margin: &u16) -> (r: RectOpUnw)
        requires
            2 * *margin + 2 <= *sprite_width,
            2 * *margin + 2 <= *sprite_height,
        ensures
            r == empty_rect_spec(*sprite_width, *sprite_height, *margin),
            region_wf(r),
    {
        RectOpUnw {
            top: *margin,
            right: sprite_width - margin - 1,
            bottom: sprite_height - margin - 1,
            left: *margin,
            radius: 0,
            border_width: 0,
            fill_color: [0, 0, 0, 0],
            border_color: [0, 0, 0, 0],
            corners: [(0, 0), (0, 0), (0, 0), (0, 0)],
            border_box_left: *margin,
            border_box_right: sprite_width - margin - 1,
            border_box_top: *margin,
            border_box_bottom: sprite_height - margin - 1,
        }
    }

    /// Resolve a rectangle operation against the parent bounds
    /// `[parent_left, parent_right] x [parent_top, parent_bottom]`.
    #[verifier::rlimit(50)]
    pub fn from_rect_op(
        op: &SpriteorRectOp,
        parent_top: u16,
        parent_right: u16,
        parent_bottom: u16,
        parent_left: u16,
    ) -> (r: RectOpUnw)
        requires
            rect_op_valid(*op),
            parent_left <= parent_right <= 4095,
            parent_top <= parent_bottom <= 4095,
        ensures
            r == from_rect_op_spec(*op, parent_top, parent_right, parent_bottom, parent_left),
            region_wf(r),
            parent_left <= r.left,
            r.right <= parent_right,
            parent_top <= r.top,
            r.bottom <= parent_bottom,
    {
        let bounds = resolve_bounds(op, parent_top, parent_right, parent_bottom, parent_left);
        let left: u16 = bounds.0;
        let right: u16 = bounds.1;
        let top: u16 = bounds.2;
        let bottom: u16 = bounds.3;
        let w: u16 = right - left;
        let h: u16 = bottom - top;
        let wh: u16 = if w < h {
            w
        } else {
            h
        };
        let r: u16 = if op.corner_radius < wh {
            op.corner_radius
        } else {
            wh
        };
        let half: u16 = if w / 2 < h / 2 {
            w / 2
        } else {
            h / 2
        };
        let bw: u16 = if op.border_width < half {
            op.border_width
        } else {
            half
        };
        proof {
            assert(r == resolved_radius(*op, parent_top, parent_right, parent_bottom, parent_left));
            assert(bw == resolved_border_width(*op, parent_top, parent_right, parent_bottom, parent_left));
            assert(2 * (bw as int) <= right - left && 2 * (bw as int) <= bottom - top);
        }
        RectOpUnw {
            top,
            right,
            bottom,
            left,
            radius: r,
            border_width: bw,
            fill_color: match op.fill_color {
                Some(c) => c,
                None => [200, 200, 200, 255],
            },
            border_color: match op.border_color {
                Some(c) => c,
                None => [255, 255, 255, 255],
            },
            corners: [
                (left + r, top + r),
                (right - r, top + r),
                (right - r, bottom - r),
                (left + r, bottom - r),
            ],
            border_box_left: left + bw,
            border_box_right: right - bw,
            border_box_top: top + bw,
            border_box_bottom: bottom - bw,
        }
    }

    /// Paint this region into `values`: every pixel in its bounds is
    /// classified and composited with the border or fill color, clipped
    /// to the inside of `container`.
    #[verifier::loop_isolation(false)]
    pub fn add_to(&self, values: &mut Vec<u8>, container: &RectOpUnw, sprite_width: &u16)
        requires
            self.left <= self.right < 0xFFFF,
            self.top <= self.bottom < 0xFFFF,
            4 * ((container.bottom as int) * (*sprite_width as int) + container.right) + 4 <= old(
                values,
            )@.len(),
        ensures
            final(values)@ == rect_paint(*self, *container, *sprite_width, old(values)@),
            final(values)@.len() == old(values)@.len(),
    {
        let bottom_end: u16 = self.bottom + 1;
        let right_end: u16 = self.right + 1;
        proof {
            lemma_paint_rows_len(*self, *container, *sprite_width, old(values)@, span_len(self.top, self.bottom));
        }
        for y in self.top..bottom_end
            invariant
                self.top <= y <= bottom_end,
                bottom_end == self.bottom + 1,
                right_end == self.right + 1,
                self.right < 0xFFFF,
                self.bottom < 0xFFFF,
                4 * ((container.bottom as int) * (*sprite_width as int) + container.right) + 4
                    <= values@.len(),
                values@.len() == old(values)@.len(),
                values@ == paint_rows(*self, *container, *sprite_width, old(values)@, (y
                    - self.top) as nat),
        {
            let ghost row_start: Seq<u8> = values@;
            for x in self.left..right_end
                invariant
                    self.left <= x <= right_end,
                    right_end == self.right + 1,
                    self.right < 0xFFFF,
                    4 * ((container.bottom as int) * (*sprite_width as int) + container.right) + 4
                        <= values@.len(),
                    values@.len() == row_start.len(),
                    values@ == paint_row(*self, *container, *sprite_width, row_start, y, (x
                        - self.left) as nat),
            {
                proof {
                    lemma_paint_row_len(*self, *container, *sprite_width, row_start, y, (x
                        - self.left) as nat);
                    if rect_contains(*container, x, y) == ContainsResult::Inside {
                        assert((y as int) * (*sprite_width as int) <= (container.bottom as int) * (
                        *sprite_width as int)) by (nonlinear_arith)
                            requires
                                0 <= y <= container.bottom,
                                0 <= *sprite_width,
                        ;
                    }
                }
                let contained = self.contains(&x, &y);
                match contained {
                    ContainsResult::Border => container.add_to_pixel_if_inside(
                        values,
                        sprite_width,
                        &x,
                        &y,
                        &self.border_color,
                    ),
                    ContainsResult::Inside => container.add_to_pixel_if_inside(
                        values,
                        sprite_width,
                        &x,
                        &y,
                        &self.fill_color,
                    ),
                    _ => (),
                }
                proof {
                    assert(values@ == paint_row(*self, *container, *sprite_width, row_start, y, (x
                        + 1 - self.left) as nat));
                }
            }
            proof {
                assert(values@ == paint_rows(*self, *container, *sprite_width, old(values)@, (y + 1
                    - self.top) as nat));
            }
        }
    }

    /// Composite `color` onto pixel `(x, y)` only when the pixel is
    /// strictly inside this region.
    pub fn add_to_pixel_if_inside(
        &self,
        values: &mut Vec<u8>,
        sprite_width: &u16,
        x: &u16,
        y: &u16,
        color: &[u8; 4],
    )
        requires
            rect_contains(*self, *x, *y) == ContainsResult::Inside ==> 4 * (*y * *sprite_width
                + *x) + 4 <= old(values)@.len(),
        ensures
            final(values)@ == clip_blend(*self, *sprite_width, old(values)@, *x, *y, *color),
    {
        if self.contains(x, y) == ContainsResult::Inside {
            add_color_set_pixel(values, &xy_to_i(sprite_width, x, y), color);
        }
    }

    /// Classify pixel `(x, y)` against this region.
    pub fn contains(&self, x: &u16, y: &u16) -> (c: ContainsResult)
        ensures
            c == rect_contains(*self, *x, *y),
    {
        if x < &self.left || x > &self.right || y < &self.top || y > &self.bottom {
            return ContainsResult::Outside;
        }
        if self.radius > 0 {
            let c0 = self.corners[0];
            if *x < c0.0 && *y < c0.1 {
                return check_corner_pixel(x, y, &c0, self);
            }
            let c1 = self.corners[1];
            if *x > c1.0 && *y < c1.1 {
                return check_corner_pixel(x, y, &c1, self);
            }
            let c2 = self.corners[2];
            if *x > c2.0 && *y > c2.1 {
                return check_corner_pixel(x, y, &c2, self);
            }
            let c3 = self.corners[3];
            if *x < c3.0 && *y > c3.1 {
                return check_corner_pixel(x, y, &c3, self);
            }
        }
        if self.border_width > 0 {
            let border_x_valid = (*x >= self.left && *x < self.border_box_left) || (*x
                <= self.right && *x > self.border_box_right);
            let border_y_valid = (*y >= self.top && *y < self.border_box_top) || (*y
                <= self.bottom && *y > self.border_box_bottom);
            if border_x_valid || border_y_valid {
                return ContainsResult::Border;
            }
        }
        ContainsResult::Inside
    }
}

/// Classify a pixel that lies in one of the radius-sized corner squares
/// by its distance to that corner's circle center.
pub fn check_corner_pixel(x: &u16, y: &u16, corner: &(u16, u16), rect: &RectOpUnw) -> (c: ContainsResult)
    ensures
        c == corner_class(rect.radius, rect.border_width, *corner, *x, *y),
{
    let d2: u64 = distance_sq_u16(*x, *y, corner.0, corner.1);
    let r: u64 = rect.radius as u64;
    let ir: u64 = if rect.border_width <= rect.radius {
        (rect.radius - rect.border_width) as u64
    } else {
        0
    };
    proof {
        assert(r * r < 0x1_0000_0000 && ir * ir < 0x1_0000_0000) by (nonlinear_arith)
            requires
                0 <= r < 0x1_0000,
                0 <= ir < 0x1_0000,
        ;
    }
    if d2 <= r * r {
        if d2 >= ir * ir {
            return ContainsResult::Border;
        }
        return ContainsResult::Inside;
    }
    ContainsResult::Outside
}

/// One relative point resolved against the parent extents: a negative
/// coordinate counts from the far edge and is clamped at zero.
fn resolve_point(p: (i16, i16), pt: u16, pr: u16, pb: u16, pl: u16) -> (q: (i32, i32))
    requires
        -4096 <= p.0 <= 4096,
        -4096 <= p.1 <= 4096,
        pl <= pr <= 4095,
        pt <= pb <= 4095,
    ensures
        q.0 == resolved_coord(p.0, pr - pl),
        q.1 == resolved_coord(p.1, pb - pt),
        0 <= q.0 <= 4096,
        0 <= q.1 <= 4096,
{
    let pw: i32 = pr as i32 - pl as i32;
    let ph: i32 = pb as i32 - pt as i32;
    let q_x: i32 = if p.0 < 0 {
        if pw + p.0 as i32 >= 0 {
            pw + p.0 as i32
        } else {
            0
        }
    } else {
        p.0 as i32
    };
    let q_y: i32 = if p.1 < 0 {
        if ph + p.1 as i32 >= 0 {
            ph + p.1 as i32
        } else {
            0
        }
    } else {
        p.1 as i32
    };
    (q_x, q_y)
}

/// The resolved, ordered, parent-clamped bounds of a rectangle operation:
/// `(left, right, top, bottom)`.
fn resolve_bounds(op: &SpriteorRectOp, pt: u16, pr: u16, pb: u16, pl: u16) -> (bounds: (u16, u16, u16, u16))
    requires
        rect_op_valid(*op),
        pl <= pr <= 4095,
        pt <= pb <= 4095,
    ensures
        bounds.0 == resolved_left(*op, pt, pr, pb, pl),
        bounds.1 == resolved_right(*op, pt, pr, pb, pl),
        bounds.2 == resolved_top(*op, pt, pr, pb, pl),
        bounds.3 == resolved_bottom(*op, pt, pr, pb, pl),
        pl <= bounds.0 <= bounds.1 <= pr,
        pt <= bounds.2 <= bounds.3 <= pb,
{
    let a: (i16, i16) = match op.point_a {
        Some(p) => p,
        None => (pl as i16, pt as i16),
    };
    let b: (i16, i16) = match op.point_b {
        Some(p) => p,
        None => match op.point_a {
            Some(_) => (pl as i16, pt as i16),
            None => (pr as i16, pb as i16),
        },
    };
    let ra = resolve_point(a, pt, pr, pb, pl);
    let rb = resolve_point(b, pt, pr, pb, pl);
    proof {
        assert(ra.0 == resolved_a(*op, pt, pr, pb, pl).0);
        assert(ra.1 == resolved_a(*op, pt, pr, pb, pl).1);
        assert(rb.0 == resolved_b(*op, pt, pr, pb, pl).0);
        assert(rb.1 == resolved_b(*op, pt, pr, pb, pl).1);
    }
    let lo_x: i32 = if ra.0 < rb.0 {
        ra.0
    } else {
        rb.0
    };
    let hi_x: i32 = if ra.0 > rb.0 {
        ra.0
    } else {
        rb.0
    };
    let lo_y: i32 = if ra.1 < rb.1 {
        ra.1
    } else {
        rb.1
    };
    let hi_y: i32 = if ra.1 > rb.1 {
        ra.1
    } else {
        rb.1
    };
    let left: u16 = clamp_u16(lo_x, pl, pr);
    let right: u16 = clamp_u16(hi_x, pl, pr);
    let top: u16 = clamp_u16(lo_y, pt, pb);
    let bottom: u16 = clamp_u16(hi_y, pt, pb);
    (left, right, top, bottom)
}

/// A u16 clamp of an `i32` into `[lo, hi]`.
fn clamp_u16(v: i32, lo: u16, hi: u16) -> (r: u16)
    requires
        lo <= hi <= 4095,
    ensures
        r == clamp(v as int, lo as int, hi as int),
{
    if v < lo as i32 {
        lo
    } else if v > hi as i32 {
        hi
    } else {
        v as u16
    }
}

} // verus!
