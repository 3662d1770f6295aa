//! Procedural rasterizer for small RGBA sprites: rounded boxes, borders,
//! lines and tiled polygon patterns are painted into a flat, row-major
//! pixel buffer of four bytes per pixel.
//!
//! The crate root holds the legacy symmetry fast path: a quadrant of a
//! mirror-symmetric rounded box is painted and then mirrored into the
//! other three quadrants.  The layered operation canvas lives in
//! [`spriteor`], the geometric kernel in [`maths`], and the compositing
//! rules in [`colors`].

use vstd::prelude::*;
use vstd::math::{max, min};
use vstd::arithmetic::div_mod::lemma_fundamental_div_mod_converse;
use vstd::arithmetic::mul::lemma_mul_inequality;
use crate::colors::write_pixel;
use crate::maths::{distance_sq_u16, lemma_abs_mul_le, ContainsResult};
use crate::rect_ops::{corner_class, color_or, default_border_color, default_fill_color, no_color};

pub mod colors;
pub mod line_ops;
pub mod maths;
pub mod poly_ops;
pub mod rect_ops;
pub mod spriteor;

verus! {

/// A pattern that can fill the inside of a box.
#[derive(Debug, Clone)]
pub enum FillPattern {
    PolygonFillSettings(PolygonFillSettings),
}

/// Parameters of a polygon fill pattern.
#[derive(Debug, Clone)]
pub struct PolygonFillSettings {
    pub x_count: u16,
    pub y_count: u16,
    pub resolution: u8,
}

/// Construction parameters of a symmetric bordered box.
#[derive(Debug, Clone)]
pub struct BoxSettings {
    /// Must be divisible by 2 and in the range `[8, 4096]`.  Default: 32.
    pub width: u16,
    /// Must be divisible by 2 and in the range `[8, 4096]`.  Default: 32.
    pub height: u16,
    /// Default: 3.  Clamped against the half extents and the margin.
    pub corner_radius: u16,
    /// Default: 1.  Clamped to the inset half extents.
    pub border_thickness: u16,
    /// Default: 0.  Clamped to at most `min(width, height) / 2 - 2`.
    pub margin: u16,
    /// RGBA values.  Default: `[255, 255, 255, 255]`.
    pub border_color: Option<[u8; 4]>,
    /// RGBA values.  Default: `[200, 200, 200, 255]`.
    pub inside_color: Option<[u8; 4]>,
    /// RGBA values.  Default: `[0, 0, 0, 0]`.
    pub outside_color: Option<[u8; 4]>,
    pub fill: Option<FillPattern>,
}

impl Default for BoxSettings {
    fn default() -> (r: Self)
        ensures
            r.width == 32,
            r.height == 32,
            r.corner_radius == 3,
            r.border_thickness == 1,
            r.margin == 0,
            r.border_color is None,
            r.inside_color is None,
            r.outside_color is None,
            r.fill is None,
    {
        BoxSettings {
            width: 32,
            height: 32,
            corner_radius: 3,
            border_thickness: 1,
            border_color: None,
            inside_color: None,
            outside_color: None,
            margin: 0,
            fill: None,
        }
    }
}

/// The box dimensions are even and in `[8, 4096]`.
pub open spec fn box_settings_valid(s: BoxSettings) -> bool {
    &&& s.width % 2 == 0
    &&& s.height % 2 == 0
    &&& 8 <= s.width <= 4096
    &&& 8 <= s.height <= 4096
}

/// Box settings with every derived quantity resolved: half extents,
/// clamped margin, radius and thickness, the four corner circle centers
/// and the defaulted colors.
#[derive(Debug)]
pub struct ExpandedBoxSettings {
    pub width: u16,
    pub h_width: u16,
    pub height: u16,
    pub h_height: u16,
    pub radius: u16,
    pub thickness: u16,
    pub margin: u16,
    pub inside_width: u16,
    pub h_inside_width: u16,
    pub inside_height: u16,
    pub h_inside_height: u16,
    pub corner_c: [(u16, u16); 4],
    pub border_color: [u8; 4],
    pub inside_color: [u8; 4],
    pub outside_color: [u8; 4],
}

/// The margin a box keeps: the requested margin clamped to at most
/// `min(width, height) / 2 - 2`.
pub open spec fn ebs_margin(s: BoxSettings) -> u16 {
    min(s.margin as int, min(s.width as int / 2 - 2, s.height as int / 2 - 2)) as u16
}

/// The border thickness clamped so that margin plus border never exceeds
/// either half extent.
pub open spec fn ebs_thickness(s: BoxSettings) -> u16 {
    let m = ebs_margin(s) as int;
    min(s.border_thickness as int, min(s.width as int / 2 - m, s.height as int / 2 - m)) as u16
}

/// The corner radius clamped against the margin-inset half extents.
pub open spec fn ebs_radius(s: BoxSettings) -> u16 {
    let m = ebs_margin(s) as int;
    let rw = max(s.width as int / 2 - 2 * m - 1, 0);
    let rh = max(s.height as int / 2 - 2 * m - 1, 0);
    min(s.corner_radius as int, min(rw, rh)) as u16
}

/// All derived quantities of a box.
pub open spec fn expanded_spec(s: BoxSettings) -> ExpandedBoxSettings {
    let m = ebs_margin(s);
    let t = ebs_thickness(s);
    let r = ebs_radius(s);
    let iw = ((s.width - 2 * (m as int) - 2 * (t as int)) / 2) as u16;
    let ih = ((s.height - 2 * (m as int) - 2 * (t as int)) / 2) as u16;
    ExpandedBoxSettings {
        width: s.width,
        h_width: (s.width / 2) as u16,
        height: s.height,
        h_height: (s.height / 2) as u16,
        radius: r,
        thickness: t,
        margin: m,
        inside_width: iw,
        h_inside_width: iw,
        inside_height: ih,
        h_inside_height: ih,
        corner_c: [
            ((r + m) as u16, (r + m) as u16),
            ((s.width - r - 1 - m) as u16, (r + m) as u16),
            ((r + m) as u16, (s.height - r - 1 - m) as u16),
            ((s.width - r - 1 - m) as u16, (s.height - r - 1 - m) as u16),
        ],
        border_color: color_or(s.border_color, default_border_color()),
        inside_color: color_or(s.inside_color, default_fill_color()),
        outside_color: color_or(s.outside_color, no_color()),
    }
}

/// Derived bounds that the quadrant painter relies on.
pub open spec fn ebs_wf(e: ExpandedBoxSettings) -> bool {
    &&& 8 <= e.width <= 4096
    &&& 8 <= e.height <= 4096
    &&& e.width % 2 == 0
    &&& e.height % 2 == 0
    &&& e.h_width == e.width / 2
    &&& e.h_height == e.height / 2
    &&& e.margin + 2 <= e.h_width
    &&& e.margin + 2 <= e.h_height
    &&& e.margin + e.thickness <= e.h_width
    &&& e.margin + e.thickness <= e.h_height
    &&& e.radius + e.margin < e.h_width
    &&& e.radius + e.margin < e.h_height
    &&& e.corner_c[0] == ((e.radius + e.margin) as u16, (e.radius + e.margin) as u16)
}

impl ExpandedBoxSettings {
    /// Resolve box settings: margin, thickness and radius are clamped,
    /// never rejected; colors fall back to the documented defaults.
    #[verifier::rlimit(100)]
    pub fn from_box_settings(settings: &BoxSettings) -> (e: ExpandedBoxSettings)
        requires
            box_settings_valid(*settings),
        ensures
            e == expanded_spec(*settings),
            ebs_wf(e),
    {
        let hw: u16 = settings.width / 2;
        let hh: u16 = settings.height / 2;
        let margin_max: u16 = if hw - 2 < hh - 2 {
            hw - 2
        } else {
            hh - 2
        };
        let margin: u16 = if settings.margin < margin_max {
            settings.margin
        } else {
            margin_max
        };
        let t_max: u16 = if hw - margin < hh - margin {
            hw - margin
        } else {
            hh - margin
        };
        let thickness: u16 = if settings.border_thickness < t_max {
            settings.border_thickness
        } else {
            t_max
        };
        let rw: i32 = hw as i32 - 2 * margin as i32 - 1;
        let rh: i32 = hh as i32 - 2 * margin as i32 - 1;
        let radius_width_max: u16 = if rw >= 0 {
            rw as u16
        } else {
            0
        };
        let radius_height_max: u16 = if rh >= 0 {
            rh as u16
        } else {
            0
        };
        let r_max: u16 = if radius_width_max < radius_height_max {
            radius_width_max
        } else {
            radius_height_max
        };
        let radius: u16 = if settings.corner_radius < r_max {
            settings.corner_radius
        } else {
            r_max
        };
        proof {
            assert(margin == ebs_margin(*settings));
            assert(thickness == ebs_thickness(*settings));
            assert(radius == ebs_radius(*settings));
        }
        let iw: u16 = (settings.width - 2 * margin - 2 * thickness) / 2;
        let ih: u16 = (settings.height - 2 * margin - 2 * thickness) / 2;
        ExpandedBoxSettings {
            width: settings.width,
            h_width: hw,
            height: settings.height,
            h_height: hh,
            radius,
            thickness,
            margin,
            inside_width: iw,
            h_inside_width: iw,
            inside_height: ih,
            h_inside_height: ih,
            corner_c: [
                (radius + margin, radius + margin),
                (settings.width - radius - 1 - margin, radius + margin),
                (radius + margin, settings.height - radius - 1 - margin),
                (settings.width - radius - 1 - margin, settings.height - radius - 1 - margin),
            ],
            border_color: match settings.border_color {
                Some(c) => c,
                None => [255, 255, 255, 255],
            },
            inside_color: match settings.inside_color {
                Some(c) => c,
                None => [200, 200, 200, 255],
            },
            outside_color: match settings.outside_color {
                Some(c) => c,
                None => [0, 0, 0, 0],
            },
        }
    }
}

/// Overwrite pixel `index` of the flat buffer with color `c`.
pub fn set_pixel(pixels: &mut Vec<u8>, index: &usize, c: &[u8; 4])
    requires
        4 * *index + 4 <= old(pixels)@.len(),
    ensures
        final(pixels)@ == write_pixel(old(pixels)@, *index as int, c@),
{
    let i: usize = *index;
    let n: usize = pixels.len();
    assert(4 * i + 4 <= n);
    pixels.set(i * 4, c[0]);
    pixels.set(i * 4 + 1, c[1]);
    pixels.set(i * 4 + 2, c[2]);
    pixels.set(i * 4 + 3, c[3]);
    proof {
        assert(pixels@ =~= write_pixel(old(pixels)@, i as int, c@));
    }
}

/// The color a corner-square pixel of the quadrant gets: classified by
/// its distance to the corner's circle center, then mapped to the box's
/// border, inside or outside color.
pub open spec fn corner_color(e: ExpandedBoxSettings, corner: int, x: u16, y: u16) -> [u8; 4] {
    match corner_class(e.radius, e.thickness, e.corner_c[corner], x, y) {
        ContainsResult::Border => e.border_color,
        ContainsResult::Inside => e.inside_color,
        ContainsResult::Outside => e.outside_color,
    }
}

/// Classify pixel `(x, y)` of the quadrant against corner circle
/// `corner` and overwrite it with the corresponding color.
fn check_and_set_pixel(pixels: &mut Vec<u8>, s: &ExpandedBoxSettings, x: u16, y: u16, corner: usize)
    requires
        corner < 4,
        4 * (y * s.h_width + x) + 4 <= old(pixels)@.len(),
    ensures
        final(pixels)@ == write_pixel(
            old(pixels)@,
            y * s.h_width + x,
            corner_color(*s, corner as int, x, y)@,
        ),
{
    let c: (u16, u16) = s.corner_c[corner];
    let d2: u64 = distance_sq_u16(x, y, c.0, c.1);
    let r: u64 = s.radius as u64;
    let ir: u64 = if s.thickness <= s.radius {
        (s.radius - s.thickness) as u64
    } else {
        0
    };
    proof {
        lemma_abs_mul_le(r as int, r as int, 0xFFFF, 0xFFFF);
        lemma_abs_mul_le(ir as int, ir as int, 0xFFFF, 0xFFFF);
    }
    let i = xy_to_i(&s.h_width, &x, &y);
    if d2 <= r * r {
        if d2 >= ir * ir {
            set_pixel(pixels, &i, &s.border_color);
            return ;
        }
        set_pixel(pixels, &i, &s.inside_color);
        return ;
    }
    set_pixel(pixels, &i, &s.outside_color);
}

/// The color of pixel `(x, y)` of the top-left quadrant in the edge-line
/// style: single border lines at the margin inset, a rounded top-left
/// corner, inside color elsewhere.  The vertical lines overwrite the
/// horizontal ones, which overwrite the corner.  Note that the second
/// vertical line and both line extents are derived from the half height
/// even for non-square boxes; the band style treats the axes uniformly.
pub open spec fn quarter_color_a(e: ExpandedBoxSettings, x: int, y: int) -> [u8; 4] {
    if (x == e.margin || x == e.h_height - e.margin - 1) && e.radius <= y
        < e.h_height - e.radius - 1 {
        e.border_color
    } else if (y == e.margin || y == e.h_height - e.margin - 1) && e.radius <= x < e.h_width
        - 1 {
        e.border_color
    } else if x <= e.radius && y <= e.radius {
        corner_color(e, 0, x as u16, y as u16)
    } else {
        e.inside_color
    }
}

/// The color of pixel `(x, y)` of the top-left quadrant in the band
/// style: an outside band of the margin's width along the top and left
/// edges, a border band of the thickness inside it, a rounded top-left
/// corner, inside color elsewhere.  The left bands overwrite the top
/// bands, which overwrite the corner.
pub open spec fn quarter_color_b(e: ExpandedBoxSettings, x: int, y: int) -> [u8; 4] {
    if x < e.margin + e.thickness && y >= e.radius {
        if x < e.margin {
            e.outside_color
        } else {
            e.border_color
        }
    } else if y < e.margin + e.thickness && x >= e.radius {
        if y < e.margin {
            e.outside_color
        } else {
            e.border_color
        }
    } else if x <= e.radius && y <= e.radius {
        corner_color(e, 0, x as u16, y as u16)
    } else {
        e.inside_color
    }
}

/// Byte `j` of the quadrant buffer in the edge-line style.
pub open spec fn quarter_byte_a(e: ExpandedBoxSettings, j: int) -> u8 {
    let p = j / 4;
    quarter_color_a(e, p % (e.h_width as int), p / (e.h_width as int))[j % 4]
}

/// Byte `j` of the quadrant buffer in the band style.
pub open spec fn quarter_byte_b(e: ExpandedBoxSettings, j: int) -> u8 {
    let p = j / 4;
    quarter_color_b(e, p % (e.h_width as int), p / (e.h_width as int))[j % 4]
}

/// The painted top-left quadrant in the edge-line style.
pub open spec fn quarter_grid_a(e: ExpandedBoxSettings) -> Seq<u8> {
    Seq::new((e.h_width * e.h_height * 4) as nat, |j: int| quarter_byte_a(e, j))
}

/// The painted top-left quadrant in the band style.
pub open spec fn quarter_grid_b(e: ExpandedBoxSettings) -> Seq<u8> {
    Seq::new((e.h_width * e.h_height * 4) as nat, |j: int| quarter_byte_b(e, j))
}

/// Byte `j` of the full image that mirrors a top-left quadrant across
/// both midlines: the row is reflected at the horizontal midline, the
/// column at the vertical one.
pub open spec fn mirror_src_byte(w: int, h: int, quarter: Seq<u8>, j: int) -> u8 {
    let p = j / 4;
    let ch = j % 4;
    let row = p / w;
    let col = p % w;
    let vrow = if row < h / 2 {
        row
    } else {
        h - 1 - row
    };
    let scol = if col < w / 2 {
        col
    } else {
        w - 1 - col
    };
    quarter[4 * (vrow * (w / 2) + scol) + ch]
}

/// A `w x h` image assembled by mirroring a top-left quadrant into the
/// other three quadrants.
pub open spec fn mirror_spec(w: u16, h: u16, quarter: Seq<u8>) -> Seq<u8> {
    Seq::new((w * h * 4) as nat, |j: int| mirror_src_byte(w as int, h as int, quarter, j))
}

/// Mirror a top-left quadrant into a full image with the closed-form
/// per-pixel source index: for each pixel of the top half, the source
/// column folds at the vertical midline, and the point-reflected pixel of
/// the bottom half receives the same bytes.
#[verifier::loop_isolation(false)]
#[verifier::rlimit(60)]
pub fn mirror(s: ExpandedBoxSettings, quarter: Vec<u8>) -> (r: Vec<u8>)
    requires
        s.width % 2 == 0,
        s.height % 2 == 0,
        2 <= s.width <= 4096,
        2 <= s.height <= 4096,
        quarter@.len() == (s.width / 2) * (s.height / 2) * 4,
    ensures
        r@ == mirror_spec(s.width, s.height, quarter@),
        r@.len() == s.width * s.height * 4,
{
    let w: usize = s.width as usize;
    let h: usize = s.height as usize;
    proof {
        lemma_abs_mul_le(w as int, h as int, 4096, 4096);
    }
    let pixels: usize = w * h;
    let len: usize = pixels * 4;
    let qw: usize = w / 2;
    let mut mirrored: Vec<u8> = Vec::new();
    for j in 0..len
        invariant
            mirrored@.len() == j,
    {
        mirrored.push(0);
    }
    let half: usize = len / 8;
    proof {
        assert(half == pixels / 2) by (nonlinear_arith)
            requires
                len == pixels * 4,
                half == len / 8,
        ;
        assert(pixels / 2 == (w as int) * ((h as int) / 2)) by (nonlinear_arith)
            requires
                pixels == w * h,
                h % 2 == 0,
        ;
    }
    for i in 0..half
        invariant
            mirrored@.len() == len,
            forall|j: int|
                0 <= j < len && (j / 4 < i || j / 4 >= pixels - i) ==> mirrored@[j]
                    == mirror_src_byte(s.width as int, s.height as int, quarter@, j),
    {
        let whole: usize = i / w;
        let remainder: usize = i % w;
        proof {
            vstd::arithmetic::div_mod::lemma_fundamental_div_mod(i as int, w as int);
            assert((w as int) * (whole as int) == (whole as int) * (w as int))
                by (nonlinear_arith);
            if whole as int >= h as int / 2 {
                lemma_mul_inequality(h as int / 2, whole as int, w as int);
                assert(((h as int) / 2) * (w as int) == (w as int) * ((h as int) / 2))
                    by (nonlinear_arith);
                assert(false);
            }
            lemma_abs_mul_le(whole as int, qw as int, 2048, 2048);
        }
        let src_idx: usize = if remainder >= qw {
            qw - 1 - (remainder - qw) + whole * qw
        } else {
            remainder + whole * qw
        };
        mirror_copy_pixel(&mut mirrored, &quarter, s.width, s.height, i, src_idx);
    }
    proof {
        let k = (w as int) / 2;
        assert(w as int == 2 * k);
        assert((2 * k) * (h as int) == 2 * (k * (h as int))) by (nonlinear_arith);
        lemma_fundamental_div_mod_converse(pixels as int, 2, k * (h as int), 0);
        assert(pixels - half <= half);
        assert forall|j: int| 0 <= j < len implies mirrored@[j] == mirror_src_byte(
            s.width as int,
            s.height as int,
            quarter@,
            j,
        ) by {
            assert(j / 4 < half || j / 4 >= pixels - half);
        }
        assert(mirrored@ =~= mirror_spec(s.width, s.height, quarter@));
    }
    mirrored
}

/// The closed-form quadrant source pixel feeding pixel `i` of the top
/// half of the mirrored image.
pub open spec fn mirror_src_pixel(w: int, h: int, i: int) -> int {
    let whole = i / w;
    let remainder = i % w;
    if remainder >= w / 2 {
        w / 2 - 1 - (remainder - w / 2) + whole * (w / 2)
    } else {
        remainder + whole * (w / 2)
    }
}

/// Copy quadrant pixel `src_idx` to pixel `i` of the top half and to its
/// point reflection in the bottom half, keeping every already mirrored
/// byte in place.
#[verifier::loop_isolation(false)]
#[verifier::rlimit(100)]
fn mirror_copy_pixel(mirrored: &mut Vec<u8>, quarter: &Vec<u8>, w: u16, h: u16, i: usize, src_idx: usize)
    requires
        w % 2 == 0,
        h % 2 == 0,
        2 <= w <= 4096,
        2 <= h <= 4096,
        quarter@.len() == (w / 2) * (h / 2) * 4,
        old(mirrored)@.len() == w * h * 4,
        i < (w as int) * ((h as int) / 2),
        src_idx == mirror_src_pixel(w as int, h as int, i as int),
        forall|j: int|
            0 <= j < old(mirrored)@.len() && (j / 4 < i || j / 4 >= w * h - i) ==> old(
                mirrored,
            )@[j] == mirror_src_byte(w as int, h as int, quarter@, j),
    ensures
        final(mirrored)@.len() == old(mirrored)@.len(),
        forall|j: int|
            0 <= j < final(mirrored)@.len() && (j / 4 < i + 1 || j / 4 >= w * h - (i + 1))
                ==> final(mirrored)@[j] == mirror_src_byte(w as int, h as int, quarter@, j),
{
    let w_us: usize = w as usize;
    let h_us: usize = h as usize;
    let qw: usize = w_us / 2;
    proof {
        lemma_abs_mul_le(w_us as int, h_us as int, 4096, 4096);
        vstd::arithmetic::div_mod::lemma_fundamental_div_mod(i as int, w_us as int);
        assert((w_us as int) * ((i as int) / (w_us as int)) == ((i as int) / (w_us as int)) * (
        w_us as int)) by (nonlinear_arith);
        if (i as int) / (w_us as int) >= (h_us as int) / 2 {
            lemma_mul_inequality(h_us as int / 2, (i as int) / (w_us as int), w_us as int);
            assert(((h_us as int) / 2) * (w_us as int) == (w_us as int) * ((h_us as int) / 2))
                by (nonlinear_arith);
            assert(false);
        }
        lemma_mul_inequality((i as int) / (w_us as int), h_us as int / 2 - 1, qw as int);
        assert(((h_us as int) / 2 - 1) * (qw as int) + qw == ((h_us as int) / 2) * (qw as int))
            by (nonlinear_arith);
        assert(src_idx as int <= ((h_us as int) / 2) * (qw as int) - 1);
        assert(quarter@.len() == (qw as int) * ((h_us as int) / 2) * 4);
        assert(((h_us as int) / 2) * (qw as int) == (qw as int) * ((h_us as int) / 2))
            by (nonlinear_arith);
        assert(4 * (src_idx as int) + 4 <= quarter@.len()) by (nonlinear_arith)
            requires
                src_idx as int <= ((h_us as int) / 2) * (qw as int) - 1,
                quarter@.len() == (qw as int) * ((h_us as int) / 2) * 4,
                ((h_us as int) / 2) * (qw as int) == (qw as int) * ((h_us as int) / 2),
        ;
    }
    let qlen_q: usize = quarter.len();
    let pixels: usize = w_us * h_us;
    let len: usize = pixels * 4;
    proof {
        assert((w_us as int) * ((h_us as int) / 2) * 2 == pixels) by (nonlinear_arith)
            requires
                pixels == w_us * h_us,
                h_us % 2 == 0,
                w_us >= 2,
                h_us >= 2,
        ;
    }
    let color: [u8; 4] = [
        quarter[src_idx * 4],
        quarter[src_idx * 4 + 1],
        quarter[src_idx * 4 + 2],
        quarter[src_idx * 4 + 3],
    ];
    let bottom: usize = pixels - 1 - i;
    set_pixel(mirrored, &i, &color);
    set_pixel(mirrored, &bottom, &color);
    proof {
        lemma_mirror_write_matches(w as int, h as int, quarter@, i as int);
        let w_i = w as int;
        let h_i = h as int;
        let src = src_idx as int;
        let b = bottom as int;
        assert(color@[0] == quarter@[4 * src] && color@[1] == quarter@[4 * src + 1] && color@[2]
            == quarter@[4 * src + 2] && color@[3] == quarter@[4 * src + 3]);
        assert forall|ch: int|
            0 <= ch < 4 implies #[trigger] mirror_src_byte(w_i, h_i, quarter@, 4 * (i as int) + ch)
            == color@[ch] && mirror_src_byte(w_i, h_i, quarter@, 4 * b + ch) == color@[ch] by {}
        assert forall|j: int|
            0 <= j < len && (j / 4 < i + 1 || j / 4 >= pixels - (i + 1)) implies mirrored@[j]
            == mirror_src_byte(w_i, h_i, quarter@, j) by {
            if j / 4 == i as int {
                let ch = j % 4;
                assert(j == 4 * (i as int) + ch);
                assert(mirror_src_byte(w_i, h_i, quarter@, 4 * (i as int) + ch) == color@[ch]);
            } else if j / 4 == b {
                let ch = j % 4;
                assert(j == 4 * b + ch);
                assert(mirror_src_byte(w_i, h_i, quarter@, 4 * (i as int) + ch) == color@[ch]);
                assert(mirror_src_byte(w_i, h_i, quarter@, 4 * b + ch) == color@[ch]);
            }
        }
    }
}

/// Mirror a top-left quadrant into a full image with the incremental
/// pointer walk: a running source index advances along each row and
/// reverses direction at the quadrant midpoint, avoiding the per-pixel
/// division of the closed form.  The output is byte-identical to
/// [`mirror`]: both meet [`mirror_spec`].
#[verifier::loop_isolation(false)]
#[verifier::rlimit(100)]
pub fn mirror_b(s: ExpandedBoxSettings, quarter: Vec<u8>) -> (r: Vec<u8>)
    requires
        s.width % 2 == 0,
        s.height % 2 == 0,
        2 <= s.width <= 4096,
        2 <= s.height <= 4096,
        quarter@.len() == (s.width / 2) * (s.height / 2) * 4,
    ensures
        r@ == mirror_spec(s.width, s.height, quarter@),
        r@.len() == s.width * s.height * 4,
{
    let w: usize = s.width as usize;
    let h: usize = s.height as usize;
    proof {
        lemma_abs_mul_le(w as int, h as int, 4096, 4096);
    }
    let pixels: usize = w * h;
    let len: usize = pixels * 4;
    let qw: usize = w / 2;
    let mut mirrored: Vec<u8> = Vec::new();
    for j in 0..len
        invariant
            mirrored@.len() == j,
    {
        mirrored.push(0);
    }
    let half: usize = len / 8;
    proof {
        assert(half == pixels / 2) by (nonlinear_arith)
            requires
                len == pixels * 4,
                half == len / 8,
        ;
        assert(pixels / 2 == (w as int) * ((h as int) / 2)) by (nonlinear_arith)
            requires
                pixels == w * h,
                h % 2 == 0,
        ;
    }
    let mut whole: usize = 0;
    let mut remainder: usize = 0;
    let mut src_idx: usize = 0;
    for i in 0..half
        invariant
            mirrored@.len() == len,
            i > 0 ==> whole == (i - 1) as int / (w as int) + 1,
            i > 0 ==> remainder == (i - 1) as int % (w as int),
            i > 0 ==> src_idx == ((i - 1) as int / (w as int)) * qw + (if (i - 1) as int % (
            w as int) < qw {
                (i - 1) as int % (w as int)
            } else {
                w - 1 - (i - 1) as int % (w as int)
            }),
            i == 0 ==> whole == 0 && remainder == 0 && src_idx == 0,
            forall|j: int|
                0 <= j < len && (j / 4 < i || j / 4 >= pixels - i) ==> mirrored@[j]
                    == mirror_src_byte(s.width as int, s.height as int, quarter@, j),
    {
        proof {
            vstd::arithmetic::div_mod::lemma_fundamental_div_mod(i as int, w as int);
            assert((w as int) * ((i as int) / (w as int)) == ((i as int) / (w as int)) * (
            w as int)) by (nonlinear_arith);
            if (i as int) / (w as int) >= (h as int) / 2 {
                lemma_mul_inequality(h as int / 2, (i as int) / (w as int), w as int);
                assert(((h as int) / 2) * (w as int) == (w as int) * ((h as int) / 2))
                    by (nonlinear_arith);
                assert(false);
            }
            if i > 0 {
                if i as int % (w as int) == 0 {
                    assert(((i as int) / (w as int) - 1) * (w as int) == ((i as int) / (w as int))
                        * (w as int) - w as int) by (nonlinear_arith);
                    lemma_fundamental_div_mod_converse(
                        i as int - 1,
                        w as int,
                        (i as int) / (w as int) - 1,
                        w as int - 1,
                    );
                } else {
                    lemma_fundamental_div_mod_converse(
                        i as int - 1,
                        w as int,
                        (i as int) / (w as int),
                        (i as int) % (w as int) - 1,
                    );
                }
            }
            lemma_abs_mul_le((i as int) / (w as int), qw as int, 2048, 2048);
        }
        if i % w == 0 {
            src_idx = whole * qw;
            remainder = 0;
            whole = whole + 1;
        } else {
            remainder = remainder + 1;
            if remainder < qw {
                src_idx = src_idx + 1;
            } else if remainder > qw {
                src_idx = src_idx - 1;
            }
        }
        proof {
            assert(whole == (i as int) / (w as int) + 1);
            assert(remainder == (i as int) % (w as int));
            assert(src_idx == ((i as int) / (w as int)) * qw + (if remainder < qw {
                remainder as int
            } else {
                w - 1 - remainder
            }));
            lemma_mul_inequality((i as int) / (w as int), h as int / 2 - 1, qw as int);
            assert(((h as int) / 2 - 1) * (qw as int) + qw == ((h as int) / 2) * (qw as int))
                by (nonlinear_arith);
            assert(quarter@.len() == (qw as int) * ((h as int) / 2) * 4);
            assert(((h as int) / 2) * (qw as int) == (qw as int) * ((h as int) / 2))
                by (nonlinear_arith);
            assert(4 * (src_idx as int) + 4 <= quarter@.len()) by (nonlinear_arith)
                requires
                    src_idx as int <= ((h as int) / 2) * (qw as int) - 1,
                    quarter@.len() == (qw as int) * ((h as int) / 2) * 4,
                    ((h as int) / 2) * (qw as int) == (qw as int) * ((h as int) / 2),
            ;
        }
        proof {
            assert(src_idx as int == mirror_src_pixel(s.width as int, s.height as int, i as int));
        }
        mirror_copy_pixel(&mut mirrored, &quarter, s.width, s.height, i, src_idx);
    }
    proof {
        let k = (w as int) / 2;
        assert(w as int == 2 * k);
        assert((2 * k) * (h as int) == 2 * (k * (h as int))) by (nonlinear_arith);
        lemma_fundamental_div_mod_converse(pixels as int, 2, k * (h as int), 0);
        assert(pixels - half <= half);
        assert forall|j: int| 0 <= j < len implies mirrored@[j] == mirror_src_byte(
            s.width as int,
            s.height as int,
            quarter@,
            j,
        ) by {
            assert(j / 4 < half || j / 4 >= pixels - half);
        }
        assert(mirrored@ =~= mirror_spec(s.width, s.height, quarter@));
    }
    mirrored
}

/// For pixel `i` of the top half, the closed-form source index feeding
/// pixel `i` also feeds the point-reflected pixel of the bottom half.
proof fn lemma_mirror_write_matches(w: int, h: int, quarter: Seq<u8>, i: int)
    requires
        w % 2 == 0,
        h % 2 == 0,
        2 <= w,
        2 <= h,
        0 <= i < w * (h / 2),
    ensures
        ({
            let whole = i / w;
            let remainder = i % w;
            let src = if remainder >= w / 2 {
                w / 2 - 1 - (remainder - w / 2) + whole * (w / 2)
            } else {
                remainder + whole * (w / 2)
            };
            forall|ch: int|
                0 <= ch < 4 ==> #[trigger] mirror_src_byte(w, h, quarter, 4 * i + ch) == quarter[4
                    * src + ch] && mirror_src_byte(w, h, quarter, 4 * (w * h - 1 - i) + ch)
                    == quarter[4 * src + ch]
        }),
{
    let whole = i / w;
    let remainder = i % w;
    assert(i == whole * w + remainder) by {
        vstd::arithmetic::div_mod::lemma_fundamental_div_mod(i, w);
        assert(w * (i / w) == (i / w) * w) by (nonlinear_arith);
    }
    assert(whole < h / 2) by {
        if whole >= h / 2 {
            lemma_mul_inequality(h / 2, whole, w);
            assert((h / 2) * w == w * (h / 2)) by (nonlinear_arith);
            assert(whole * w <= i);
        }
    }
    let b = w * h - 1 - i;
    assert(b == (h - 1 - whole) * w + (w - 1 - remainder)) by (nonlinear_arith)
        requires
            i == whole * w + remainder,
            b == w * h - 1 - i,
    ;
    lemma_fundamental_div_mod_converse(b, w, h - 1 - whole, w - 1 - remainder);
    assert forall|ch: int| 0 <= ch < 4 implies #[trigger] mirror_src_byte(w, h, quarter, 4 * i + ch)
        == quarter[4 * (whole * (w / 2) + (if remainder < w / 2 {
        remainder
    } else {
        w - 1 - remainder
    })) + ch] && mirror_src_byte(w, h, quarter, 4 * b + ch) == quarter[4 * (whole * (w / 2) + (
    if remainder < w / 2 {
        remainder
    } else {
        w - 1 - remainder
    })) + ch] by {
        let j = 4 * i + ch;
        assert(j / 4 == i && j % 4 == ch) by {
            lemma_fundamental_div_mod_converse(j, 4, i, ch);
        }
        let jb = 4 * b + ch;
        assert(jb / 4 == b && jb % 4 == ch) by {
            lemma_fundamental_div_mod_converse(jb, 4, b, ch);
        }
        assert(h - 1 - whole >= h / 2);
        assert(h - 1 - (h - 1 - whole) == whole);
    }
    let scol = if remainder < w / 2 {
        remainder
    } else {
        w - 1 - remainder
    };
    let src = if remainder >= w / 2 {
        w / 2 - 1 - (remainder - w / 2) + whole * (w / 2)
    } else {
        remainder + whole * (w / 2)
    };
    assert(whole * (w / 2) + scol == src);
}

/// Render a symmetric bordered box in the edge-line style: the top-left
/// quadrant is painted with single border lines and a rounded corner,
/// then mirrored into the other three quadrants with the closed-form
/// mirror.
#[verifier::loop_isolation(false)]
#[verifier::rlimit(100)]
pub fn border_box_quarter(settings: &BoxSettings) -> (r: Vec<u8>)
    requires
        box_settings_valid(*settings),
    ensures
        r@ == mirror_spec(
            settings.width,
            settings.height,
            quarter_grid_a(expanded_spec(*settings)),
        ),
        r@.len() == settings.width * settings.height * 4,
{
    let s = ExpandedBoxSettings::from_box_settings(settings);
    let quarter = paint_quarter(&s, false);
    mirror(s, quarter)
}

/// Render a symmetric bordered box in the band style: the top-left
/// quadrant is painted with outside and border bands and a rounded
/// corner, then mirrored into the other three quadrants with the
/// incremental mirror.
#[verifier::loop_isolation(false)]
#[verifier::rlimit(100)]
pub fn border_box_quarter_b(settings: &BoxSettings) -> (r: Vec<u8>)
    requires
        box_settings_valid(*settings),
    ensures
        r@ == mirror_spec(
            settings.width,
            settings.height,
            quarter_grid_b(expanded_spec(*settings)),
        ),
        r@.len() == settings.width * settings.height * 4,
{
    let s = ExpandedBoxSettings::from_box_settings(settings);
    let quarter = paint_quarter(&s, true);
    mirror_b(s, quarter)
}

/// Paint the top-left quadrant of a symmetric box: a buffer filled with
/// the inside color, overpainted pixel by pixel with the band style
/// (`bands` true) or the edge-line style (`bands` false).
#[verifier::loop_isolation(false)]
#[verifier::rlimit(100)]
fn paint_quarter(s: &ExpandedBoxSettings, bands: bool) -> (r: Vec<u8>)
    requires
        ebs_wf(*s),
    ensures
        bands ==> r@ == quarter_grid_b(*s),
        !bands ==> r@ == quarter_grid_a(*s),
        r@.len() == s.h_width * s.h_height * 4,
{
    let qw: u16 = s.h_width;
    let qh: u16 = s.h_height;
    proof {
        lemma_abs_mul_le(qw as int, qh as int, 2048, 2048);
    }
    let qlen: usize = qw as usize * qh as usize * 4;
    let mut pixels_v: Vec<u8> = Vec::new();
    for j in 0..qlen
        invariant
            pixels_v@.len() == j,
            forall|k: int| 0 <= k < j ==> pixels_v@[k] == s.inside_color@[k % 4],
    {
        pixels_v.push(s.inside_color[j % 4]);
    }
    let mut y: u16 = 0;
    while y < qh
        invariant
            y <= qh,
            pixels_v@.len() == qlen,
            forall|k: int|
                0 <= k < qlen && k < 4 * ((y as int) * (qw as int)) ==> #[trigger] pixels_v@[k]
                    == (if bands {
                    quarter_byte_b(*s, k)
                } else {
                    quarter_byte_a(*s, k)
                }),
            forall|k: int|
                0 <= k < qlen && k >= 4 * ((y as int) * (qw as int)) ==> #[trigger] pixels_v@[k]
                    == s.inside_color@[k % 4],
        decreases qh - y,
    {
        let mut x: u16 = 0;
        while x < qw
            invariant
                x <= qw,
                y < qh,
                pixels_v@.len() == qlen,
                forall|k: int|
                    0 <= k < qlen && k < 4 * ((y as int) * (qw as int) + x as int)
                        ==> #[trigger] pixels_v@[k] == (if bands {
                        quarter_byte_b(*s, k)
                    } else {
                        quarter_byte_a(*s, k)
                    }),
                forall|k: int|
                    0 <= k < qlen && k >= 4 * ((y as int) * (qw as int) + x as int)
                        ==> #[trigger] pixels_v@[k] == s.inside_color@[k % 4],
            decreases qw - x,
        {
            let ghost p: int = (y as int) * (qw as int) + x as int;
            proof {
                lemma_mul_inequality(y as int, qh as int - 1, qw as int);
                assert((qh as int - 1) * (qw as int) + qw == (qh as int) * (qw as int))
                    by (nonlinear_arith);
                assert(qlen == (qw as int) * (qh as int) * 4);
                assert((qh as int) * (qw as int) == (qw as int) * (qh as int))
                    by (nonlinear_arith);
                assert(4 * p + 4 <= qlen);
                lemma_fundamental_div_mod_converse(p, qw as int, y as int, x as int);
            }
            let i: usize = xy_to_i(&qw, &x, &y);
            if bands {
                if x < s.margin + s.thickness && y >= s.radius {
                    let c: [u8; 4] = if x < s.margin {
                        s.outside_color
                    } else {
                        s.border_color
                    };
                    set_pixel(&mut pixels_v, &i, &c);
                } else if y < s.margin + s.thickness && x >= s.radius {
                    let c: [u8; 4] = if y < s.margin {
                        s.outside_color
                    } else {
                        s.border_color
                    };
                    set_pixel(&mut pixels_v, &i, &c);
                } else if x <= s.radius && y <= s.radius {
                    check_and_set_pixel(&mut pixels_v, s, x, y, 0);
                }
            } else {
                if (x == s.margin || x == s.h_height - s.margin - 1) && s.radius <= y && y
                    < s.h_height - s.radius - 1 {
                    set_pixel(&mut pixels_v, &i, &s.border_color);
                } else if (y == s.margin || y == s.h_height - s.margin - 1) && s.radius <= x && x
                    < qw - 1 {
                    set_pixel(&mut pixels_v, &i, &s.border_color);
                } else if x <= s.radius && y <= s.radius {
                    check_and_set_pixel(&mut pixels_v, s, x, y, 0);
                }
            }
            proof {
                assert forall|k: int|
                    0 <= k < qlen && k < 4 * (p + 1) implies #[trigger] pixels_v@[k] == (if bands {
                    quarter_byte_b(*s, k)
                } else {
                    quarter_byte_a(*s, k)
                }) by {
                    if 4 * p <= k {
                        let ch = k - 4 * p;
                        lemma_fundamental_div_mod_converse(k, 4, p, ch);
                        assert(k == 4 * p + ch);
                    }
                }
                assert forall|k: int|
                    0 <= k < qlen && k >= 4 * (p + 1) implies #[trigger] pixels_v@[k]
                    == s.inside_color@[k % 4] by {}
            }
            x = x + 1;
        }
        proof {
            assert((y as int + 1) * (qw as int) == y as int * (qw as int) + qw)
                by (nonlinear_arith);
        }
        y = y + 1;
    }
    proof {
        assert(4 * ((qh as int) * (qw as int)) == (qw as int) * (qh as int) * 4)
            by (nonlinear_arith);
        if bands {
            assert(pixels_v@ =~= quarter_grid_b(*s));
        } else {
            assert(pixels_v@ =~= quarter_grid_a(*s));
        }
    }
    pixels_v
}

/// Render a symmetric bordered box with default styling and the given
/// corner radius: four bytes per pixel, row-major.
pub fn border_box(width: u16, height: u16, corner_radius: u16) -> (r: Vec<u8>)
    requires
        width % 2 == 0,
        height % 2 == 0,
        8 <= width <= 4096,
        8 <= height <= 4096,
    ensures
        ({
            let settings = BoxSettings {
                width,
                height,
                corner_radius,
                border_thickness: 1,
                margin: 0,
                border_color: None,
                inside_color: None,
                outside_color: None,
                fill: None,
            };
            r@ == mirror_spec(width, height, quarter_grid_b(expanded_spec(settings)))
        }),
        r@.len() == width * height * 4,
{
    border_box_quarter_b(
        &BoxSettings {
            width,
            height,
            corner_radius,
            border_thickness: 1,
            margin: 0,
            border_color: None,
            inside_color: None,
            outside_color: None,
            fill: None,
        },
    )
}

/// Pixel index of the pixel at column `x`, row `y` of a row-major image
/// that is `width` pixels wide.
pub fn xy_to_i(width: &u16, x: &u16, y: &u16) -> (i: usize)
    ensures
        i == *y * *width + *x,
{
    proof {
        assert(0 <= (*y as int) * (*width as int) <= 65535 * 65535) by (nonlinear_arith)
            requires 0 <= *y <= 65535 && 0 <= *width <= 65535,
        ;
    }
    (*y as usize) * (*width as usize) + (*x as usize)
}

} // verus!
