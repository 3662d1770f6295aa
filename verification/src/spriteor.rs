//! The layered operation canvas.
//!
//! A [`Spriteor`] owns the pixel buffer and an ordered operation list.
//! Finalizing runs one forward pass over the list: every operation paints
//! into the buffer clipped by the current region, rectangle operations
//! become the new current region (nested clipping), and a layer reset
//! restores the full canvas area inset by the margin.

use vstd::prelude::*;
use vstd::math::min;
use crate::line_ops::{
    hline_op_valid, hline_rect, vline_op_valid, vline_rect, SpriteorHLineOp, SpriteorVLineOp,
};
use crate::maths::lemma_abs_mul_le;
use crate::poly_ops::{poly_op_valid, poly_paint, SpriteorPolyOp};
use crate::rect_ops::{
    empty_rect_spec, from_rect_op_spec, rect_op_default, rect_op_valid, rect_paint, region_wf,
    RectOpUnw, SpriteorRectOp,
};
use vstd::arithmetic::mul::lemma_mul_inequality;

verus! {

/// One entry of a canvas's operation list.
#[derive(Debug, Clone)]
pub enum SpriteorOperation {
    SpriteorVLineOp(SpriteorVLineOp),
    SpriteorHLineOp(SpriteorHLineOp),
    SpriteorRectOp(SpriteorRectOp),
    SpriteorPolyOp(SpriteorPolyOp),
    NewLayer,
}

/// The operation's parameters lie in their documented ranges.
pub open spec fn op_valid(op: SpriteorOperation) -> bool {
    match op {
        SpriteorOperation::SpriteorVLineOp(l) => vline_op_valid(l),
        SpriteorOperation::SpriteorHLineOp(l) => hline_op_valid(l),
        SpriteorOperation::SpriteorRectOp(r) => rect_op_valid(r),
        SpriteorOperation::SpriteorPolyOp(p) => poly_op_valid(p),
        SpriteorOperation::NewLayer => true,
    }
}

/// Canvas construction parameters.
pub struct SpriteorSettings {
    /// Must be even and in `[8, 4096]`.  Default: 32.
    pub width: u16,
    /// Must be even and in `[8, 4096]`.  Default: 32.
    pub height: u16,
    /// Clamped to at most `min(width, height) / 2 - 2`.  Default: 0.
    pub margin: u16,
    /// Initial buffer fill; absent means fully transparent black.
    pub background_color: Option<[u8; 4]>,
}

impl Default for SpriteorSettings {
    fn default() -> (r: Self)
        ensures
            r.width == 32,
            r.height == 32,
            r.margin == 0,
            r.background_color is None,
    {
        SpriteorSettings { width: 32, height: 32, margin: 0, background_color: None }
    }
}

/// A sprite canvas: dimensions, margin, the flat RGBA pixel buffer and
/// the ordered operation list.
pub struct Spriteor {
    pub width: u16,
    pub height: u16,
    pub margin: u16,
    pub values: Vec<u8>,
    pub ops: Vec<SpriteorOperation>,
}

/// The canvas invariant: even dimensions in range, a margin that leaves
/// at least a four-pixel interior, a buffer of exactly four bytes per
/// pixel, and only valid operations in the list.
pub open spec fn canvas_wf(s: Spriteor) -> bool {
    &&& 8 <= s.width <= 4096
    &&& 8 <= s.height <= 4096
    &&& s.width % 2 == 0
    &&& s.height % 2 == 0
    &&& 2 * s.margin + 4 <= s.width
    &&& 2 * s.margin + 4 <= s.height
    &&& s.values@.len() == s.width * s.height * 4
    &&& forall|i: int| 0 <= i < s.ops@.len() ==> op_valid(#[trigger] s.ops@[i])
}

/// One byte of the background fill: the color's channels repeated, or
/// zero without a background color.
pub open spec fn bg_byte(bg: Option<[u8; 4]>, i: int) -> u8 {
    match bg {
        Some(c) => c[i % 4],
        None => 0u8,
    }
}

/// A freshly filled buffer for a `w x h` canvas.
pub open spec fn bg_buffer(w: u16, h: u16, bg: Option<[u8; 4]>) -> Seq<u8> {
    Seq::new((w * h * 4) as nat, |i: int| bg_byte(bg, i))
}

/// The margin a canvas keeps: the requested margin clamped to at most
/// `min(width, height) / 2 - 2`.
pub open spec fn margin_spec(settings: SpriteorSettings) -> u16 {
    min(
        settings.margin as int,
        min(settings.width as int / 2 - 2, settings.height as int / 2 - 2),
    ) as u16
}

/// The first current region: the canvas bounds inset by the margin, as a
/// default rectangle operation resolves against them.
pub open spec fn init_region(w: u16, h: u16, margin: u16) -> RectOpUnw {
    from_rect_op_spec(
        rect_op_default(),
        margin,
        (w - margin - 1) as u16,
        (h - margin - 1) as u16,
        margin,
    )
}

/// One step of the interpreter: the buffer after the operation paints,
/// and the current region it leaves behind.  A rectangle becomes the new
/// current region; lines and patterns leave it unchanged; a layer reset
/// paints nothing and restores the full canvas area.
pub open spec fn apply_op(
    op: SpriteorOperation,
    cur: RectOpUnw,
    w: u16,
    h: u16,
    margin: u16,
    buf: Seq<u8>,
) -> (RectOpUnw, Seq<u8>) {
    match op {
        SpriteorOperation::SpriteorRectOp(r) => {
            let rect = from_rect_op_spec(
                r,
                cur.border_box_top,
                cur.border_box_right,
                cur.border_box_bottom,
                cur.border_box_left,
            );
            (rect, rect_paint(rect, cur, w, buf))
        },
        SpriteorOperation::SpriteorHLineOp(l) => (cur, rect_paint(hline_rect(l, cur), cur, w, buf)),
        SpriteorOperation::SpriteorVLineOp(l) => (cur, rect_paint(vline_rect(l, cur), cur, w, buf)),
        SpriteorOperation::SpriteorPolyOp(p) => (cur, poly_paint(p, cur, w, buf)),
        SpriteorOperation::NewLayer => (empty_rect_spec(w, h, margin), buf),
    }
}

/// The interpreter folded over an operation list.
pub open spec fn run_ops(
    ops: Seq<SpriteorOperation>,
    cur: RectOpUnw,
    w: u16,
    h: u16,
    margin: u16,
    buf: Seq<u8>,
) -> (RectOpUnw, Seq<u8>)
    decreases ops.len(),
{
    if ops.len() == 0 {
        (cur, buf)
    } else {
        let step = apply_op(ops[0], cur, w, h, margin, buf);
        run_ops(ops.drop_first(), step.0, w, h, margin, step.1)
    }
}

/// The buffer a canvas holds after one finalizing pass.
pub open spec fn finalize_spec(s: Spriteor) -> Seq<u8> {
    run_ops(
        s.ops@,
        init_region(s.width, s.height, s.margin),
        s.width,
        s.height,
        s.margin,
        s.values@,
    ).1
}

/// Finalizing is deterministic: two canvases built alike — the same
/// dimensions, margin, starting buffer and operation list — finalize to
/// the same buffer.
pub proof fn lemma_finalize_deterministic(a: Spriteor, b: Spriteor)
    requires
        a.width == b.width,
        a.height == b.height,
        a.margin == b.margin,
        a.values@ == b.values@,
        a.ops@ == b.ops@,
    ensures
        finalize_spec(a) == finalize_spec(b),
{
}

impl Spriteor {
    /// The canvas height in pixels.
    pub fn height(&self) -> (h: u16)
        ensures
            h == self.height,
    {
        self.height
    }

    /// The canvas width in pixels.
    pub fn width(&self) -> (w: u16)
        ensures
            w == self.width,
    {
        self.width
    }

    /// The margin the canvas keeps around its paint area.
    pub fn margin(&self) -> (m: u16)
        ensures
            m == self.margin,
    {
        self.margin
    }

    /// The number of pixels in the buffer.
    pub fn pixel_count(&self) -> (n: usize)
        ensures
            n == self.values@.len() / 4,
    {
        self.values.len() / 4
    }

    /// Append a layer reset: the next operations resolve against the full
    /// canvas area again.
    pub fn new_layer(&mut self)
        ensures
            final(self).ops@ == old(self).ops@.push(SpriteorOperation::NewLayer),
            final(self).width == old(self).width,
            final(self).height == old(self).height,
            final(self).margin == old(self).margin,
            final(self).values == old(self).values,
    {
        self.ops.push(SpriteorOperation::NewLayer);
    }

    /// Append an operation to the list.
    pub fn add_operation(&mut self, operation: SpriteorOperation)
        requires
            op_valid(operation),
        ensures
            final(self).ops@ == old(self).ops@.push(operation),
            final(self).width == old(self).width,
            final(self).height == old(self).height,
            final(self).margin == old(self).margin,
            final(self).values == old(self).values,
    {
        self.ops.push(operation);
    }

    /// Build a canvas.  The dimensions must be even and in `[8, 4096]`;
    /// the margin is clamped, and the buffer is filled with the
    /// background color (transparent black by default).
    #[verifier::loop_isolation(false)]
    pub fn new(settings: &SpriteorSettings) -> (s: Spriteor)
        requires
            settings.width % 2 == 0,
            settings.height % 2 == 0,
            8 <= settings.width <= 4096,
            8 <= settings.height <= 4096,
        ensures
            s.width == settings.width,
            s.height == settings.height,
            s.margin == margin_spec(*settings),
            s.ops@.len() == 0,
            s.values@ == bg_buffer(settings.width, settings.height, settings.background_color),
            s.values@.len() == settings.width * settings.height * 4,
            canvas_wf(s),
    {
        let a: u16 = settings.width / 2 - 2;
        let b: u16 = settings.height / 2 - 2;
        let margin_max: u16 = if a < b {
            a
        } else {
            b
        };
        let margin: u16 = if settings.margin < margin_max {
            settings.margin
        } else {
            margin_max
        };
        proof {
            lemma_abs_mul_le(settings.width as int, settings.height as int, 4096, 4096);
        }
        let total: usize = settings.width as usize * settings.height as usize * 4;
        let bg: Option<[u8; 4]> = settings.background_color;
        let mut values: Vec<u8> = Vec::new();
        for i in 0..total
            invariant
                values@.len() == i,
                forall|j: int| 0 <= j < i ==> values@[j] == bg_byte(bg, j),
        {
            let byte: u8 = match bg {
                Some(c) => c[i % 4],
                None => 0,
            };
            values.push(byte);
        }
        proof {
            assert(values@ =~= bg_buffer(settings.width, settings.height, bg));
        }
        Spriteor {
            width: settings.width,
            height: settings.height,
            margin,
            values,
            ops: Vec::new(),
        }
    }

    /// Run the operation list once over the buffer and hand the buffer
    /// out.  The current region starts as the full canvas area inset by
    /// the margin; every rectangle operation paints and becomes the new
    /// current region, lines and patterns paint without replacing it, and
    /// a layer reset restores the initial area.  Running a second time
    /// replays the paints onto the already painted buffer.
    #[verifier::loop_isolation(false)]
    #[verifier::rlimit(100)]
    pub fn finalize(&mut self) -> (out: &Vec<u8>)
        requires
            canvas_wf(*old(self)),
        ensures
            final(self).values@ == finalize_spec(*old(self)),
            out@ == final(self).values@,
            final(self).width == old(self).width,
            final(self).height == old(self).height,
            final(self).margin == old(self).margin,
            final(self).ops@ == old(self).ops@,
            final(self).values@.len() == old(self).values@.len(),
    {
        let w: u16 = self.width;
        let h: u16 = self.height;
        let margin: u16 = self.margin;
        let mut current_rect = RectOpUnw::from_rect_op(
            &SpriteorRectOp::default(),
            margin,
            w - margin - 1,
            h - margin - 1,
            margin,
        );
        proof {
            assert(current_rect == init_region(w, h, margin));
        }
        let ghost total_run = run_ops(
            old(self).ops@,
            init_region(w, h, margin),
            w,
            h,
            margin,
            old(self).values@,
        );
        proof {
            assert(self.ops@.skip(0) =~= self.ops@);
        }
        let n: usize = self.ops.len();
        for i in 0..n
            invariant
                self.width == old(self).width,
                self.height == old(self).height,
                self.margin == old(self).margin,
                self.ops@ == old(self).ops@,
                n == self.ops@.len(),
                self.values@.len() == old(self).values@.len(),
                region_wf(current_rect),
                current_rect.right < w,
                current_rect.bottom < h,
                run_ops(self.ops@.skip(i as int), current_rect, w, h, margin, self.values@)
                    == total_run,
        {
            proof {
                assert(op_valid(self.ops@[i as int]));
                assert(self.ops@.skip(i as int).drop_first() =~= self.ops@.skip(i as int + 1));
                assert(self.ops@.skip(i as int)[0] == self.ops@[i as int]);
                lemma_mul_inequality(current_rect.bottom as int, h as int - 1, w as int);
                assert((h as int - 1) * (w as int) + w == (h as int) * (w as int))
                    by (nonlinear_arith);
            }
            let op = &self.ops[i];
            match op {
                SpriteorOperation::SpriteorRectOp(rect_op) => {
                    let rect = RectOpUnw::from_rect_op(
                        rect_op,
                        current_rect.border_box_top,
                        current_rect.border_box_right,
                        current_rect.border_box_bottom,
                        current_rect.border_box_left,
                    );
                    rect.add_to(&mut self.values, &current_rect, &w);
                    current_rect = rect;
                },
                SpriteorOperation::SpriteorHLineOp(hline_op) => {
                    hline_op.add_to(&mut self.values, &current_rect, &w);
                },
                SpriteorOperation::SpriteorPolyOp(poly_op) => {
                    poly_op.add_to(&mut self.values, &current_rect, &w);
                },
                SpriteorOperation::SpriteorVLineOp(vline_op) => {
                    vline_op.add_to(&mut self.values, &current_rect, &w);
                },
                SpriteorOperation::NewLayer => {
                    current_rect = RectOpUnw::empty(&w, &h, &margin);
                },
            }
            proof {
                assert(run_ops(self.ops@.skip(i as int + 1), current_rect, w, h, margin, self.values@)
                    == total_run);
            }
        }
        proof {
            assert(self.ops@.skip(n as int) =~= Seq::<SpriteorOperation>::empty());
            assert(self.values@ == total_run.1);
        }
        &self.values
    }
}

} // verus!
