//! Horizontal and vertical line operations.
//!
//! A line is sugar for a bare rectangle whose bounds derive from a
//! thickness and an offset against the current region's inner box.  It
//! paints with the same clipping contract as a rectangle but never
//! becomes the current region itself.

use vstd::prelude::*;
use vstd::math::min;
use crate::rect_ops::{
    color_or, default_border_color, rect_new_spec, rect_paint, RectOpUnw,
};

verus! {

/// A vertical line over the current region's inner box.
#[derive(Debug, Clone)]
pub struct SpriteorVLineOp {
    /// Width of line, must be in range `[1, 4096]`.
    pub width: u16,
    /// X position from the left edge.
    pub x: u16,
    /// Color override; absent means `[255, 255, 255, 255]`.
    pub color: Option<[u8; 4]>,
}

/// A horizontal line over the current region's inner box.
#[derive(Debug, Clone)]
pub struct SpriteorHLineOp {
    /// Width of line, must be in range `[1, 4096]`.
    pub width: u16,
    /// Y position from the top edge.
    pub y: u16,
    /// Color override; absent means `[255, 255, 255, 255]`.
    pub color: Option<[u8; 4]>,
}

/// A vertical line's thickness and offset lie in the documented ranges.
pub open spec fn vline_op_valid(op: SpriteorVLineOp) -> bool {
    1 <= op.width <= 4096 && op.x <= 4096
}

/// A horizontal line's thickness and offset lie in the documented ranges.
pub open spec fn hline_op_valid(op: SpriteorHLineOp) -> bool {
    1 <= op.width <= 4096 && op.y <= 4096
}

/// The bare rectangle that a vertical line paints: a column of the given
/// width at offset `x` inside the container's inner box, capped at the
/// inner box's right edge.
pub open spec fn vline_rect(op: SpriteorVLineOp, c: RectOpUnw) -> RectOpUnw {
    rect_new_spec(
        0,
        min(c.border_box_left + op.x + op.width - 1, c.border_box_right as int) as u16,
        c.border_box_bottom,
        min(c.border_box_left + op.x, c.border_box_right as int) as u16,
        color_or(op.color, default_border_color()),
    )
}

/// The bare rectangle that a horizontal line paints: a row band of the
/// given width at offset `y` inside the container's inner box, capped at
/// the inner box's bottom edge.
pub open spec fn hline_rect(op: SpriteorHLineOp, c: RectOpUnw) -> RectOpUnw {
    rect_new_spec(
        min(c.border_box_top + op.y, c.border_box_bottom as int) as u16,
        c.border_box_right,
        min(c.border_box_top + op.y + op.width - 1, c.border_box_bottom as int) as u16,
        0,
        color_or(op.color, default_border_color()),
    )
}

impl SpriteorVLineOp {
    /// Paint the line into `values`, clipped to the inside of `container`.
    pub(crate) fn add_to(&self, values: &mut Vec<u8>, container: &RectOpUnw, sprite_width: &u16)
        requires
            vline_op_valid(*self),
            container.border_box_left <= 4096,
            container.border_box_right < 0xFFFF,
            container.border_box_bottom < 0xFFFF,
            4 * ((container.bottom as int) * (*sprite_width as int) + container.right) + 4 <= old(
                values,
            )@.len(),
        ensures
            final(values)@ == rect_paint(
                vline_rect(*self, *container),
                *container,
                *sprite_width,
                old(values)@,
            ),
            final(values)@.len() == old(values)@.len(),
    {
        let lo: u16 = container.border_box_left + self.x;
        let hi: u16 = lo + self.width - 1;
        let rect = RectOpUnw::new(
            0,
            if hi < container.border_box_right {
                hi
            } else {
                container.border_box_right
            },
            container.border_box_bottom,
            if lo < container.border_box_right {
                lo
            } else {
                container.border_box_right
            },
            match self.color {
                Some(c) => c,
                None => [255, 255, 255, 255],
            },
        );
        proof {
            assert(rect == vline_rect(*self, *container));
        }
        rect.add_to(values, container, sprite_width);
    }
}

impl Default for SpriteorVLineOp {
    fn default() -> (r: Self)
        ensures
            r == (SpriteorVLineOp { width: 1, x: 0, color: None }),
    {
        SpriteorVLineOp { width: 1, x: 0, color: None }
    }
}

impl SpriteorHLineOp {
    /// Paint the line into `values`, clipped to the inside of `container`.
    pub(crate) fn add_to(&self, values: &mut Vec<u8>, container: &RectOpUnw, sprite_width: &u16)
        requires
            hline_op_valid(*self),
            container.border_box_top <= 4096,
            container.border_box_right < 0xFFFF,
            container.border_box_bottom < 0xFFFF,
            4 * ((container.bottom as int) * (*sprite_width as int) + container.right) + 4 <= old(
                values,
            )@.len(),
        ensures
            final(values)@ == rect_paint(
                hline_rect(*self, *container),
                *container,
                *sprite_width,
                old(values)@,
            ),
            final(values)@.len() == old(values)@.len(),
    {
        let lo: u16 = container.border_box_top + self.y;
        let hi: u16 = lo + self.width - 1;
        let rect = RectOpUnw::new(
            if lo < container.border_box_bottom {
                lo
            } else {
                container.border_box_bottom
            },
            container.border_box_right,
            if hi < container.border_box_bottom {
                hi
            } else {
                container.border_box_bottom
            },
            0,
            match self.color {
                Some(c) => c,
                None => [255, 255, 255, 255],
            },
        );
        proof {
            assert(rect == hline_rect(*self, *container));
        }
        rect.add_to(values, container, sprite_width);
    }
}

impl Default for SpriteorHLineOp {
    fn default() -> (r: Self)
        ensures
            r == (SpriteorHLineOp { width: 1, y: 0, color: None }),
    {
        SpriteorHLineOp { width: 1, y: 0, color: None }
    }
}

} // verus!
