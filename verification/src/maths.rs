//! Geometric kernel: containment classification, exact squared-distance
//! comparisons, segment intersection and ray-cast point-in-polygon tests,
//! all in integer arithmetic.

use vstd::prelude::*;

verus! {

/// The result of a containment query: a point is strictly inside a shape,
/// on its border band, or outside it.
#[derive(Debug, Clone, Copy, PartialEq, Eq, Structural)]
pub enum ContainsResult {
    Inside,
    Outside,
    Border,
}

/// Pixel index of the pixel at column `x`, row `y` of a row-major image
/// that is `width` pixels wide.
pub fn xy_to_i(width: &u16, x: &u16, y: &u16) -> (i: usize)
    ensures
        i == *y * *width + *x,
{
    proof {
        assert(0 <= (*y as int) * (*width as int) <= 65535 * 65535) by (nonlinear_arith)
            requires 0 <= *y <= 65535 && 0 <= *width <= 65535,
        ;
    }
    (*y as usize) * (*width as usize) + (*x as usize)
}

/// Squared Euclidean distance between `(ax, ay)` and `(bx, by)`.
pub open spec fn dist_sq(ax: int, ay: int, bx: int, by: int) -> int {
    (ax - bx) * (ax - bx) + (ay - by) * (ay - by)
}

/// Squared Euclidean distance between two points with 16-bit coordinates.
pub fn distance_sq_u16(ax: u16, ay: u16, bx: u16, by: u16) -> (d2: u64)
    ensures
        d2 == dist_sq(ax as int, ay as int, bx as int, by as int),
{
    let dx: i64 = ax as i64 - bx as i64;
    let dy: i64 = ay as i64 - by as i64;
    proof {
        assert(dx * dx + dy * dy == dist_sq(ax as int, ay as int, bx as int, by as int));
        assert(0 <= dx * dx < 0x1_0000_0000 && 0 <= dy * dy < 0x1_0000_0000)
            by (nonlinear_arith)
            requires -0x1_0000 < dx < 0x1_0000 && -0x1_0000 < dy < 0x1_0000,
        ;
    }
    (dx * dx + dy * dy) as u64
}

/// All coordinates of a polygon lie in `[-100000, 100000]`, so that the
/// intersection arithmetic stays within machine bounds.
pub open spec fn poly_coords_bounded(poly: Seq<(i32, i32)>) -> bool {
    forall|i: int|
        0 <= i < poly.len() ==> -100000 <= (#[trigger] poly[i]).0 <= 100000 && -100000 <= poly[i].1
            <= 100000
}

/// The denominator of the parametric intersection of segments `a1 -> a2`
/// and `b1 -> b2`: the cross product of their direction vectors.  Zero
/// for parallel or degenerate segments.
pub open spec fn seg_denom(a1: (int, int), a2: (int, int), b1: (int, int), b2: (int, int)) -> int {
    (a2.0 - a1.0) * (b2.1 - b1.1) - (b2.0 - b1.0) * (a2.1 - a1.1)
}

/// Numerator of the parametric factor along `b1 -> b2`.
pub open spec fn seg_s_num(a1: (int, int), a2: (int, int), b1: (int, int), b2: (int, int)) -> int {
    (a2.0 - a1.0) * (a1.1 - b1.1) - (a2.1 - a1.1) * (a1.0 - b1.0)
}

/// Numerator of the parametric factor along `a1 -> a2`.
pub open spec fn seg_t_num(a1: (int, int), a2: (int, int), b1: (int, int), b2: (int, int)) -> int {
    (b2.0 - b1.0) * (a1.1 - b1.1) - (b2.1 - b1.1) * (a1.0 - b1.0)
}

/// The exact fraction `num / den` lies in `[0, 1]`.
pub open spec fn frac_in_unit(num: int, den: int) -> bool {
    if den > 0 {
        0 <= num <= den
    } else {
        den <= num <= 0
    }
}

/// The two segments intersect: non-parallel, and both parametric factors
/// lie in `[0, 1]`.
pub open spec fn segs_intersect(
    a1: (int, int),
    a2: (int, int),
    b1: (int, int),
    b2: (int, int),
) -> bool {
    let den = seg_denom(a1, a2, b1, b2);
    den != 0 && frac_in_unit(seg_s_num(a1, a2, b1, b2), den) && frac_in_unit(
        seg_t_num(a1, a2, b1, b2),
        den,
    )
}

/// The intersection point of the two segments equals `p` exactly, as a
/// rational identity: `a1 + t * (a2 - a1) == p` cross-multiplied by the
/// denominator.
pub open spec fn intersection_is(
    a1: (int, int),
    a2: (int, int),
    b1: (int, int),
    b2: (int, int),
    p: (int, int),
) -> bool {
    let den = seg_denom(a1, a2, b1, b2);
    let t = seg_t_num(a1, a2, b1, b2);
    t * (a2.0 - a1.0) == (p.0 - a1.0) * den && t * (a2.1 - a1.1) == (p.1 - a1.1) * den
}

/// The squared distance from point `p` to segment `a -> b` is strictly
/// less than `bound` squared, decided exactly on integers: the foot of
/// the perpendicular is clamped into the segment, and the comparison is
/// cross-multiplied by the squared segment length.
pub open spec fn seg_dist_sq_lt(a: (int, int), b: (int, int), p: (int, int), bound: int) -> bool {
    let dx = b.0 - a.0;
    let dy = b.1 - a.1;
    let wx = p.0 - a.0;
    let wy = p.1 - a.1;
    let len2 = dx * dx + dy * dy;
    let dot = wx * dx + wy * dy;
    if len2 == 0 {
        wx * wx + wy * wy < bound * bound
    } else if dot <= 0 {
        wx * wx + wy * wy < bound * bound
    } else if dot >= len2 {
        (p.0 - b.0) * (p.0 - b.0) + (p.1 - b.1) * (p.1 - b.1) < bound * bound
    } else {
        (wx * wx + wy * wy) * len2 - dot * dot < bound * bound * len2
    }
}

/// Parametric intersection of segments `a1 -> a2` and `b1 -> b2`.
/// Returns `None` for parallel segments or when either parametric factor
/// falls outside `[0, 1]`; otherwise the intersection point as an exact
/// rational `(x_num, y_num, den)` with `x == x_num / den` and
/// `y == y_num / den`.
pub fn path_intersection(
    a1: &(i32, i32),
    a2: &(i32, i32),
    b1: &(i32, i32),
    b2: &(i32, i32),
) -> (r: Option<(i64, i64, i64)>)
    requires
        -100000 <= a1.0 <= 100000 && -100000 <= a1.1 <= 100000,
        -100000 <= a2.0 <= 100000 && -100000 <= a2.1 <= 100000,
        -100000 <= b1.0 <= 100000 && -100000 <= b1.1 <= 100000,
        -100000 <= b2.0 <= 100000 && -100000 <= b2.1 <= 100000,
    ensures
        ({
            let ia1 = (a1.0 as int, a1.1 as int);
            let ia2 = (a2.0 as int, a2.1 as int);
            let ib1 = (b1.0 as int, b1.1 as int);
            let ib2 = (b2.0 as int, b2.1 as int);
            match r {
                None => !segs_intersect(ia1, ia2, ib1, ib2),
                Some(q) => {
                    &&& segs_intersect(ia1, ia2, ib1, ib2)
                    &&& q.2 == seg_denom(ia1, ia2, ib1, ib2)
                    &&& q.2 != 0
                    &&& q.0 == a1.0 * q.2 + seg_t_num(ia1, ia2, ib1, ib2) * (a2.0 - a1.0)
                    &&& q.1 == a1.1 * q.2 + seg_t_num(ia1, ia2, ib1, ib2) * (a2.1 - a1.1)
                },
            }
        }),
{
    let s1x: i64 = a2.0 as i64 - a1.0 as i64;
    let s1y: i64 = a2.1 as i64 - a1.1 as i64;
    let s2x: i64 = b2.0 as i64 - b1.0 as i64;
    let s2y: i64 = b2.1 as i64 - b1.1 as i64;
    proof {
        lemma_abs_mul_le(s1x as int, s2y as int, 200000, 200000);
        lemma_abs_mul_le(s2x as int, s1y as int, 200000, 200000);
        lemma_abs_mul_le(s1y as int, (a1.0 - b1.0) as int, 200000, 200000);
        lemma_abs_mul_le(s1x as int, (a1.1 - b1.1) as int, 200000, 200000);
        lemma_abs_mul_le(s2x as int, (a1.1 - b1.1) as int, 200000, 200000);
        lemma_abs_mul_le(s2y as int, (a1.0 - b1.0) as int, 200000, 200000);
    }
    let den: i64 = s1x * s2y - s2x * s1y;
    if den == 0 {
        return None;
    }
    let dxab: i64 = a1.0 as i64 - b1.0 as i64;
    let dyab: i64 = a1.1 as i64 - b1.1 as i64;
    let s_num: i64 = s1x * dyab - s1y * dxab;
    let t_num: i64 = s2x * dyab - s2y * dxab;
    let s_ok: bool = if den > 0 {
        0 <= s_num && s_num <= den
    } else {
        den <= s_num && s_num <= 0
    };
    let t_ok: bool = if den > 0 {
        0 <= t_num && t_num <= den
    } else {
        den <= t_num && t_num <= 0
    };
    if s_ok && t_ok {
        proof {
            lemma_abs_mul_le(a1.0 as int, den as int, 100000, 0x1_40_0000_0000);
            lemma_abs_mul_le(a1.1 as int, den as int, 100000, 0x1_40_0000_0000);
            lemma_abs_mul_le(t_num as int, s1x as int, 0x1_40_0000_0000, 200000);
            lemma_abs_mul_le(t_num as int, s1y as int, 0x1_40_0000_0000, 200000);
        }
        Some((a1.0 as i64 * den + t_num * s1x, a1.1 as i64 * den + t_num * s1y, den))
    } else {
        None
    }
}

/// The product of two integers is bounded by the product of their bounds.
pub proof fn lemma_abs_mul_le(a: int, b: int, ba: int, bb: int)
    requires
        -ba <= a <= ba,
        -bb <= b <= bb,
        0 <= ba,
        0 <= bb,
    ensures
        -(ba * bb) <= a * b <= ba * bb,
{
    assert(-(ba * bb) <= a * b <= ba * bb) by (nonlinear_arith)
        requires
            -ba <= a <= ba,
            -bb <= b <= bb,
            0 <= ba,
            0 <= bb,
    ;
}

/// Vertex `i` of a polygon, as integers.
pub open spec fn vertex_i(poly: Seq<(i32, i32)>, i: int) -> (int, int) {
    (poly[i].0 as int, poly[i].1 as int)
}

/// The start of edge `k`; edges are numbered 1 through `poly.len()`,
/// edge `k` running from vertex `k - 1` to the next vertex.
pub open spec fn edge_a(poly: Seq<(i32, i32)>, k: int) -> (int, int) {
    vertex_i(poly, k - 1)
}

/// The end of edge `k`: the next vertex, wrapping around to vertex 0.
pub open spec fn edge_b(poly: Seq<(i32, i32)>, k: int) -> (int, int) {
    if k < poly.len() {
        vertex_i(poly, k)
    } else {
        vertex_i(poly, 0)
    }
}

/// The fixed exterior anchor that containment rays are cast from.
pub open spec fn ray_origin() -> (int, int) {
    (-1, -1)
}

/// The ray from the anchor to `p` crosses edge `k`.
pub open spec fn edge_crossed(poly: Seq<(i32, i32)>, p: (int, int), k: int) -> bool {
    segs_intersect(ray_origin(), p, edge_a(poly, k), edge_b(poly, k))
}

/// The crossing of edge `k` lands exactly on the edge's start vertex,
/// where it would be counted a second time by the previous edge.
pub open spec fn edge_crossed_at_start(poly: Seq<(i32, i32)>, p: (int, int), k: int) -> bool {
    edge_crossed(poly, p, k) && intersection_is(
        ray_origin(),
        p,
        edge_a(poly, k),
        edge_b(poly, k),
        edge_a(poly, k),
    )
}

/// How many of the first `k` edges the ray crosses.
pub open spec fn crossings(poly: Seq<(i32, i32)>, p: (int, int), k: nat) -> int
    decreases k,
{
    if k == 0 {
        0
    } else {
        crossings(poly, p, (k - 1) as nat) + if edge_crossed(poly, p, k as int) {
            1int
        } else {
            0int
        }
    }
}

/// How many of the first `k` crossings land on an edge-start vertex.
pub open spec fn vertex_crossings(poly: Seq<(i32, i32)>, p: (int, int), k: nat) -> int
    decreases k,
{
    if k == 0 {
        0
    } else {
        vertex_crossings(poly, p, (k - 1) as nat) + if edge_crossed_at_start(poly, p, k as int) {
            1int
        } else {
            0int
        }
    }
}

/// The vertex index starting the last crossed edge among the first `k`
/// edges; zero when none is crossed.
pub open spec fn last_crossing(poly: Seq<(i32, i32)>, p: (int, int), k: nat) -> int
    decreases k,
{
    if k == 0 {
        0
    } else if edge_crossed(poly, p, k as int) {
        k - 1
    } else {
        last_crossing(poly, p, (k - 1) as nat)
    }
}

/// Some polygon vertex coincides with `p`.
pub open spec fn on_vertex(poly: Seq<(i32, i32)>, p: (int, int)) -> bool {
    exists|i: int| 0 <= i < poly.len() && vertex_i(poly, i) == p
}

/// Ray-cast classification of point `p` against a polygon.  A point on a
/// vertex is inside (or border, with a positive border thickness).
/// Otherwise the ray from the exterior anchor to `p` is intersected with
/// every edge; crossings that land on a shared vertex are subtracted once
/// to undo the double count.  Odd parity means inside, refined to border
/// when the distance to the last crossed edge is below the border
/// thickness; even parity means outside.
pub open spec fn poly_class(poly: Seq<(i32, i32)>, p: (u16, u16), border_thickness: u8) -> ContainsResult {
    let pi = (p.0 as int, p.1 as int);
    let n = poly.len() as int;
    if on_vertex(poly, pi) {
        if border_thickness > 0 {
            ContainsResult::Border
        } else {
            ContainsResult::Inside
        }
    } else {
        let eff = crossings(poly, pi, poly.len()) - vertex_crossings(poly, pi, poly.len());
        if eff > 0 && eff % 2 != 0 {
            let li = last_crossing(poly, pi, poly.len());
            let e_a = vertex_i(poly, li);
            let e_b = vertex_i(
                poly,
                if li + 1 < n {
                    li + 1
                } else {
                    0
                },
            );
            if border_thickness > 0 && seg_dist_sq_lt(e_a, e_b, pi, border_thickness as int) {
                ContainsResult::Border
            } else {
                ContainsResult::Inside
            }
        } else {
            ContainsResult::Outside
        }
    }
}

/// Ray-cast point-in-polygon test with an optional border band.
#[verifier::loop_isolation(false)]
pub fn poly_contains(polygon: &Vec<(i32, i32)>, p: &(u16, u16), border_thickness: u8) -> (res: ContainsResult)
    requires
        polygon@.len() >= 1,
        poly_coords_bounded(polygon@),
    ensures
        res == poly_class(polygon@, *p, border_thickness),
{
    let ghost pi: (int, int) = (p.0 as int, p.1 as int);
    let len: usize = polygon.len();
    let target: (i32, i32) = (p.0 as i32, p.1 as i32);
    for i in 0..len
        invariant
            forall|j: int| 0 <= j < i ==> vertex_i(polygon@, j) != pi,
    {
        let v = polygon[i];
        if target.0 == v.0 && target.1 == v.1 {
            proof {
                assert(vertex_i(polygon@, i as int) == pi);
            }
            if border_thickness > 0 {
                return ContainsResult::Border;
            }
            return ContainsResult::Inside;
        }
    }
    proof {
        assert(!on_vertex(polygon@, pi));
    }
    let origin: (i32, i32) = (-1, -1);
    let mut intersections: usize = 0;
    let mut poly_point_intersections: usize = 0;
    let mut last_intersection_seg_index: usize = 0;
    let mut seg_point_a: (i32, i32) = polygon[0];
    for k0 in 0..len
        invariant
            k0 < len ==> seg_point_a == polygon@[k0 as int],
            intersections as int == crossings(polygon@, pi, k0 as nat),
            poly_point_intersections as int == vertex_crossings(polygon@, pi, k0 as nat),
            last_intersection_seg_index as int == last_crossing(polygon@, pi, k0 as nat),
            intersections <= k0,
            poly_point_intersections <= intersections,
            last_intersection_seg_index < len,
    {
        let ghost k: int = k0 + 1;
        let p_index: usize = if k0 + 1 < len {
            k0 + 1
        } else {
            0
        };
        let seg_point_b: (i32, i32) = polygon[p_index];
        proof {
            assert(edge_a(polygon@, k) == (seg_point_a.0 as int, seg_point_a.1 as int));
            assert(edge_b(polygon@, k) == (seg_point_b.0 as int, seg_point_b.1 as int));
        }
        if let Some(q) = path_intersection(&origin, &target, &seg_point_a, &seg_point_b) {
            proof {
                lemma_abs_mul_le(seg_point_a.0 as int, q.2 as int, 0x8000_0000, 0x8000_0000_0000_0000);
                lemma_abs_mul_le(seg_point_a.1 as int, q.2 as int, 0x8000_0000, 0x8000_0000_0000_0000);
            }
            let hit: bool = q.0 as i128 == seg_point_a.0 as i128 * q.2 as i128 && q.1 as i128
                == seg_point_a.1 as i128 * q.2 as i128;
            proof {
                let den = q.2 as int;
                assert((seg_point_a.0 as int - origin.0 as int) * den == seg_point_a.0 as int * den
                    - origin.0 as int * den) by (nonlinear_arith);
                assert((seg_point_a.1 as int - origin.1 as int) * den == seg_point_a.1 as int * den
                    - origin.1 as int * den) by (nonlinear_arith);
                assert(hit == edge_crossed_at_start(polygon@, pi, k));
            }
            if hit {
                poly_point_intersections = poly_point_intersections + 1;
            }
            intersections = intersections + 1;
            last_intersection_seg_index = k0;
        }
        seg_point_a = seg_point_b;
    }
    let eff: usize = intersections - poly_point_intersections;
    if eff > 0 && eff % 2 != 0 {
        if border_thickness > 0 {
            let e_a: (i32, i32) = polygon[last_intersection_seg_index];
            let nb: usize = if last_intersection_seg_index + 1 < len {
                last_intersection_seg_index + 1
            } else {
                0
            };
            let e_b: (i32, i32) = polygon[nb];
            if distance_to_segment_lt(&e_a, &e_b, &target, border_thickness) {
                return ContainsResult::Border;
            }
            return ContainsResult::Inside;
        }
        return ContainsResult::Inside;
    }
    ContainsResult::Outside
}

/// Decide `distance(p, segment a -> b) < bound` exactly.
pub fn distance_to_segment_lt(a: &(i32, i32), b: &(i32, i32), p: &(i32, i32), bound: u8) -> (r:
    bool)
    requires
        -100000 <= a.0 <= 100000 && -100000 <= a.1 <= 100000,
        -100000 <= b.0 <= 100000 && -100000 <= b.1 <= 100000,
        -100000 <= p.0 <= 100000 && -100000 <= p.1 <= 100000,
    ensures
        r == seg_dist_sq_lt(
            (a.0 as int, a.1 as int),
            (b.0 as int, b.1 as int),
            (p.0 as int, p.1 as int),
            bound as int,
        ),
{
    let dx: i64 = b.0 as i64 - a.0 as i64;
    let dy: i64 = b.1 as i64 - a.1 as i64;
    let wx: i64 = p.0 as i64 - a.0 as i64;
    let wy: i64 = p.1 as i64 - a.1 as i64;
    let ux: i64 = p.0 as i64 - b.0 as i64;
    let uy: i64 = p.1 as i64 - b.1 as i64;
    proof {
        lemma_abs_mul_le(bound as int, bound as int, 255, 255);
    }
    let bound2: i64 = bound as i64 * bound as i64;
    proof {
        lemma_abs_mul_le(dx as int, dx as int, 200000, 200000);
        lemma_abs_mul_le(dy as int, dy as int, 200000, 200000);
        lemma_abs_mul_le(wx as int, wx as int, 200000, 200000);
        lemma_abs_mul_le(wy as int, wy as int, 200000, 200000);
        lemma_abs_mul_le(ux as int, ux as int, 200000, 200000);
        lemma_abs_mul_le(uy as int, uy as int, 200000, 200000);
        lemma_abs_mul_le(wx as int, dx as int, 200000, 200000);
        lemma_abs_mul_le(wy as int, dy as int, 200000, 200000);
    }
    let len2: i64 = dx * dx + dy * dy;
    let w2: i64 = wx * wx + wy * wy;
    if len2 == 0 {
        return w2 < bound2;
    }
    let dot: i64 = wx * dx + wy * dy;
    if dot <= 0 {
        return w2 < bound2;
    }
    if dot >= len2 {
        return ux * ux + uy * uy < bound2;
    }
    proof {
        lemma_abs_mul_le(w2 as int, len2 as int, 0x13_0000_0000, 0x13_0000_0000);
        lemma_abs_mul_le(dot as int, dot as int, 0x13_0000_0000, 0x13_0000_0000);
        lemma_abs_mul_le(bound2 as int, len2 as int, 65025, 0x13_0000_0000);
    }
    (w2 as i128) * (len2 as i128) - (dot as i128) * (dot as i128) < (bound2 as i128) * (
    len2 as i128)
}

/// Linear interpolation of `s` from `from_range` into `to_range`,
/// with truncated division.
pub fn map_range(from_range: (i64, i64), to_range: (i64, i64), s: i64) -> (r: i64)
    requires
        from_range.0 < from_range.1,
        from_range.0 <= s,
        to_range.0 <= to_range.1,
        -0x10_0000 <= from_range.0 && from_range.1 <= 0x10_0000,
        -0x10_0000 <= to_range.0 && to_range.1 <= 0x10_0000,
        s <= 0x10_0000,
    ensures
        r == to_range.0 + (s - from_range.0) * (to_range.1 - to_range.0) / (from_range.1
            - from_range.0),
{
    proof {
        assert(0 <= (s - from_range.0) * (to_range.1 - to_range.0) <= 0x4000_0000_0000)
            by (nonlinear_arith)
            requires
                0 <= s - from_range.0 <= 0x20_0000,
                0 <= to_range.1 - to_range.0 <= 0x20_0000,
        ;
    }
    let num: i64 = (s - from_range.0) * (to_range.1 - to_range.0);
    proof {
        assert((num as int) / (from_range.1 - from_range.0) <= num as int) by (nonlinear_arith)
            requires
                num as int >= 0,
                from_range.1 - from_range.0 >= 1,
        ;
    }
    to_range.0 + num / (from_range.1 - from_range.0)
}

} // verus!
