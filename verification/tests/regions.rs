use spriteor::colors::add_color_set_pixel;
use spriteor::maths::{map_range, ContainsResult};
use spriteor::rect_ops::{RectOpUnw, SpriteorRectOp};
use spriteor::set_pixel;
use spriteor::spriteor::{Spriteor, SpriteorSettings};

#[test]
fn from_rect_op_resolves_negative_coords() {
    // negative coordinates count from the parent's far edge
    let rect = RectOpUnw::from_rect_op(
        &SpriteorRectOp {
            point_a: Some((1, 1)),
            point_b: Some((-1, -1)),
            ..Default::default()
        },
        0,
        15,
        15,
        0,
    );
    assert_eq!(rect.left, 1);
    assert_eq!(rect.top, 1);
    assert_eq!(rect.right, 14);
    assert_eq!(rect.bottom, 14);
}

#[test]
fn from_rect_op_clamps_into_parent() {
    let rect = RectOpUnw::from_rect_op(
        &SpriteorRectOp {
            point_a: Some((-4096, -4096)),
            point_b: Some((4096, 4096)),
            ..Default::default()
        },
        2,
        10,
        12,
        3,
    );
    assert_eq!(rect.left, 3);
    assert_eq!(rect.top, 2);
    assert_eq!(rect.right, 10);
    assert_eq!(rect.bottom, 12);
}

#[test]
fn from_rect_op_clamps_radius_and_border() {
    // an oversized radius is clamped to the region extent, an oversized
    // border to half of it
    let rect = RectOpUnw::from_rect_op(
        &SpriteorRectOp {
            corner_radius: 50,
            border_width: 50,
            ..Default::default()
        },
        0,
        10,
        10,
        0,
    );
    assert_eq!(rect.radius, 10);
    assert_eq!(rect.border_width, 5);
    assert_eq!(rect.border_box_left, 5);
    assert_eq!(rect.border_box_right, 5);
}

#[test]
fn contains_classifies_rounded_border_box() {
    let rect = RectOpUnw::from_rect_op(
        &SpriteorRectOp {
            border_width: 1,
            corner_radius: 4,
            ..Default::default()
        },
        0,
        15,
        15,
        0,
    );
    // corner square pixels outside the corner circle
    assert_eq!(rect.contains(&0, &0), ContainsResult::Outside);
    assert_eq!(rect.contains(&3, &0), ContainsResult::Outside);
    // inside the corner circle's border ring
    assert_eq!(rect.contains(&1, &2), ContainsResult::Border);
    // on the straight border band
    assert_eq!(rect.contains(&8, &0), ContainsResult::Border);
    // well inside
    assert_eq!(rect.contains(&8, &8), ContainsResult::Inside);
    // outside the bounds
    assert_eq!(rect.contains(&16, &8), ContainsResult::Outside);
}

#[test]
fn map_range_scales_alpha_levels() {
    assert_eq!(map_range((0, 255), (0, 99), 0), 0);
    assert_eq!(map_range((0, 255), (0, 99), 255), 99);
    assert_eq!(map_range((0, 255), (0, 99), 128), 49);
}

#[test]
fn canvas_getters_report_the_clamped_margin() {
    let spriteor = Spriteor::new(&SpriteorSettings {
        width: 16,
        height: 8,
        margin: 5,
        background_color: None,
    });
    assert_eq!(spriteor.width(), 16);
    assert_eq!(spriteor.height(), 8);
    assert_eq!(spriteor.margin(), 2);
    assert_eq!(spriteor.pixel_count(), 16 * 8);
}

#[test]
fn set_pixel_overwrites_one_pixel() {
    let mut values = vec![9u8; 12];
    set_pixel(&mut values, &1, &[1, 2, 3, 4]);
    assert_eq!(values, vec![9, 9, 9, 9, 1, 2, 3, 4, 9, 9, 9, 9]);
}

#[test]
fn add_color_set_pixel_composites_in_place() {
    let mut values = vec![0, 0, 255, 255, 7, 7, 7, 7];
    add_color_set_pixel(&mut values, &0, &[255, 0, 0, 127]);
    assert_eq!(values, vec![84, 0, 170, 255, 7, 7, 7, 7]);
}
