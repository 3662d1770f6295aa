use spriteor::{border_box, border_box_quarter, border_box_quarter_b, mirror, mirror_b, xy_to_i, BoxSettings};
use spriteor::ExpandedBoxSettings;
use spriteor::maths::ContainsResult;
use spriteor::rect_ops::{check_corner_pixel, RectOpUnw};

#[test]
fn mirror_b_16by16() {
    let result = mirror_b(
        ExpandedBoxSettings::from_box_settings(&BoxSettings {
            width: 16,
            height: 16,
            corner_radius: 2,
            ..Default::default()
        }),
        vec![
        10, 10, 10, 255, 20, 20, 20, 255,
        30, 30, 30, 255, 40, 40, 40, 255,
        50, 50, 50, 255, 60, 60, 60, 255,
        70, 70, 70, 255, 80, 80, 80, 255,
        11, 11, 11, 255, 21, 21, 21, 255,
        31, 31, 31, 255, 41, 41, 41, 255,
        51, 51, 51, 255, 61, 61, 61, 255,
        71, 71, 71, 255, 81, 81, 81, 255,
        12, 12, 12, 255, 22, 22, 22, 255,
        32, 32, 32, 255, 42, 42, 42, 255,
        52, 52, 52, 255, 62, 62, 62, 255,
        72, 72, 72, 255, 82, 82, 82, 255,
        13, 13, 13, 255, 23, 23, 23, 255,
        33, 33, 33, 255, 43, 43, 43, 255,
        53, 53, 53, 255, 63, 63, 63, 255,
        73, 73, 73, 255, 83, 83, 83, 255,
        14, 14, 14, 255, 24, 24, 24, 255,
        34, 34, 34, 255, 44, 44, 44, 255,
        54, 54, 54, 255, 64, 64, 64, 255,
        74, 74, 74, 255, 84, 84, 84, 255,
        15, 15, 15, 255, 25, 25, 25, 255,
        35, 35, 35, 255, 45, 45, 45, 255,
        55, 55, 55, 255, 65, 65, 65, 255,
        75, 75, 75, 255, 85, 85, 85, 255,
        16, 16, 16, 255, 26, 26, 26, 255,
        36, 36, 36, 255, 46, 46, 46, 255,
        56, 56, 56, 255, 66, 66, 66, 255,
        76, 76, 76, 255, 86, 86, 86, 255,
        17, 17, 17, 255, 27, 27, 27, 255,
        37, 37, 37, 255, 47, 47, 47, 255,
        57, 57, 57, 255, 67, 67, 67, 255,
        77, 77, 77, 255, 87, 87, 87, 255,
        ],
    );
    assert_eq!(result, vec![
        10, 10, 10, 255, 20, 20, 20, 255, 30, 30, 30, 255, 40, 40, 40, 255,
        50, 50, 50, 255, 60, 60, 60, 255, 70, 70, 70, 255, 80, 80, 80, 255,
        80, 80, 80, 255, 70, 70, 70, 255, 60, 60, 60, 255, 50, 50, 50, 255,
        40, 40, 40, 255, 30, 30, 30, 255, 20, 20, 20, 255, 10, 10, 10, 255,
        11, 11, 11, 255, 21, 21, 21, 255, 31, 31, 31, 255, 41, 41, 41, 255,
        51, 51, 51, 255, 61, 61, 61, 255, 71, 71, 71, 255, 81, 81, 81, 255,
        81, 81, 81, 255, 71, 71, 71, 255, 61, 61, 61, 255, 51, 51, 51, 255,
        41, 41, 41, 255, 31, 31, 31, 255, 21, 21, 21, 255, 11, 11, 11, 255,
        12, 12, 12, 255, 22, 22, 22, 255, 32, 32, 32, 255, 42, 42, 42, 255,
        52, 52, 52, 255, 62, 62, 62, 255, 72, 72, 72, 255, 82, 82, 82, 255,
        82, 82, 82, 255, 72, 72, 72, 255, 62, 62, 62, 255, 52, 52, 52, 255,
        42, 42, 42, 255, 32, 32, 32, 255, 22, 22, 22, 255, 12, 12, 12, 255,
        13, 13, 13, 255, 23, 23, 23, 255, 33, 33, 33, 255, 43, 43, 43, 255,
        53, 53, 53, 255, 63, 63, 63, 255, 73, 73, 73, 255, 83, 83, 83, 255,
        83, 83, 83, 255, 73, 73, 73, 255, 63, 63, 63, 255, 53, 53, 53, 255,
        43, 43, 43, 255, 33, 33, 33, 255, 23, 23, 23, 255, 13, 13, 13, 255,
        14, 14, 14, 255, 24, 24, 24, 255, 34, 34, 34, 255, 44, 44, 44, 255,
        54, 54, 54, 255, 64, 64, 64, 255, 74, 74, 74, 255, 84, 84, 84, 255,
        84, 84, 84, 255, 74, 74, 74, 255, 64, 64, 64, 255, 54, 54, 54, 255,
        44, 44, 44, 255, 34, 34, 34, 255, 24, 24, 24, 255, 14, 14, 14, 255,
        15, 15, 15, 255, 25, 25, 25, 255, 35, 35, 35, 255, 45, 45, 45, 255,
        55, 55, 55, 255, 65, 65, 65, 255, 75, 75, 75, 255, 85, 85, 85, 255,
        85, 85, 85, 255, 75, 75, 75, 255, 65, 65, 65, 255, 55, 55, 55, 255,
        45, 45, 45, 255, 35, 35, 35, 255, 25, 25, 25, 255, 15, 15, 15, 255,
        16, 16, 16, 255, 26, 26, 26, 255, 36, 36, 36, 255, 46, 46, 46, 255,
        56, 56, 56, 255, 66, 66, 66, 255, 76, 76, 76, 255, 86, 86, 86, 255,
        86, 86, 86, 255, 76, 76, 76, 255, 66, 66, 66, 255, 56, 56, 56, 255,
        46, 46, 46, 255, 36, 36, 36, 255, 26, 26, 26, 255, 16, 16, 16, 255,
        17, 17, 17, 255, 27, 27, 27, 255, 37, 37, 37, 255, 47, 47, 47, 255,
        57, 57, 57, 255, 67, 67, 67, 255, 77, 77, 77, 255, 87, 87, 87, 255,
        87, 87, 87, 255, 77, 77, 77, 255, 67, 67, 67, 255, 57, 57, 57, 255,
        47, 47, 47, 255, 37, 37, 37, 255, 27, 27, 27, 255, 17, 17, 17, 255,
        17, 17, 17, 255, 27, 27, 27, 255, 37, 37, 37, 255, 47, 47, 47, 255,
        57, 57, 57, 255, 67, 67, 67, 255, 77, 77, 77, 255, 87, 87, 87, 255,
        87, 87, 87, 255, 77, 77, 77, 255, 67, 67, 67, 255, 57, 57, 57, 255,
        47, 47, 47, 255, 37, 37, 37, 255, 27, 27, 27, 255, 17, 17, 17, 255,
        16, 16, 16, 255, 26, 26, 26, 255, 36, 36, 36, 255, 46, 46, 46, 255,
        56, 56, 56, 255, 66, 66, 66, 255, 76, 76, 76, 255, 86, 86, 86, 255,
        86, 86, 86, 255, 76, 76, 76, 255, 66, 66, 66, 255, 56, 56, 56, 255,
        46, 46, 46, 255, 36, 36, 36, 255, 26, 26, 26, 255, 16, 16, 16, 255,
        15, 15, 15, 255, 25, 25, 25, 255, 35, 35, 35, 255, 45, 45, 45, 255,
        55, 55, 55, 255, 65, 65, 65, 255, 75, 75, 75, 255, 85, 85, 85, 255,
        85, 85, 85, 255, 75, 75, 75, 255, 65, 65, 65, 255, 55, 55, 55, 255,
        45, 45, 45, 255, 35, 35, 35, 255, 25, 25, 25, 255, 15, 15, 15, 255,
        14, 14, 14, 255, 24, 24, 24, 255, 34, 34, 34, 255, 44, 44, 44, 255,
        54, 54, 54, 255, 64, 64, 64, 255, 74, 74, 74, 255, 84, 84, 84, 255,
        84, 84, 84, 255, 74, 74, 74, 255, 64, 64, 64, 255, 54, 54, 54, 255,
        44, 44, 44, 255, 34, 34, 34, 255, 24, 24, 24, 255, 14, 14, 14, 255,
        13, 13, 13, 255, 23, 23, 23, 255, 33, 33, 33, 255, 43, 43, 43, 255,
        53, 53, 53, 255, 63, 63, 63, 255, 73, 73, 73, 255, 83, 83, 83, 255,
        83, 83, 83, 255, 73, 73, 73, 255, 63, 63, 63, 255, 53, 53, 53, 255,
        43, 43, 43, 255, 33, 33, 33, 255, 23, 23, 23, 255, 13, 13, 13, 255,
        12, 12, 12, 255, 22, 22, 22, 255, 32, 32, 32, 255, 42, 42, 42, 255,
        52, 52, 52, 255, 62, 62, 62, 255, 72, 72, 72, 255, 82, 82, 82, 255,
        82, 82, 82, 255, 72, 72, 72, 255, 62, 62, 62, 255, 52, 52, 52, 255,
        42, 42, 42, 255, 32, 32, 32, 255, 22, 22, 22, 255, 12, 12, 12, 255,
        11, 11, 11, 255, 21, 21, 21, 255, 31, 31, 31, 255, 41, 41, 41, 255,
        51, 51, 51, 255, 61, 61, 61, 255, 71, 71, 71, 255, 81, 81, 81, 255,
        81, 81, 81, 255, 71, 71, 71, 255, 61, 61, 61, 255, 51, 51, 51, 255,
        41, 41, 41, 255, 31, 31, 31, 255, 21, 21, 21, 255, 11, 11, 11, 255,
        10, 10, 10, 255, 20, 20, 20, 255, 30, 30, 30, 255, 40, 40, 40, 255,
        50, 50, 50, 255, 60, 60, 60, 255, 70, 70, 70, 255, 80, 80, 80, 255,
        80, 80, 80, 255, 70, 70, 70, 255, 60, 60, 60, 255, 50, 50, 50, 255,
        40, 40, 40, 255, 30, 30, 30, 255, 20, 20, 20, 255, 10, 10, 10, 255,
    ]);
}

#[test]
fn border_box_quarter_8by8() {
    let result = border_box_quarter_b(&BoxSettings {
        width: 8,
        height: 8,
        corner_radius: 2,
        ..Default::default()
    });
    assert_eq!(result, vec![
        0, 0, 0, 0, 0, 0, 0, 0, 255, 255, 255, 255, 255, 255, 255, 255,
        255, 255, 255, 255, 255, 255, 255, 255, 0, 0, 0, 0, 0, 0, 0, 0,
        0, 0, 0, 0, 255, 255, 255, 255, 255, 255, 255, 255, 200, 200, 200, 255,
        200, 200, 200, 255, 255, 255, 255, 255, 255, 255, 255, 255, 0, 0, 0, 0,
        255, 255, 255, 255, 255, 255, 255, 255, 200, 200, 200, 255, 200, 200, 200, 255,
        200, 200, 200, 255, 200, 200, 200, 255, 255, 255, 255, 255, 255, 255, 255, 255,
        255, 255, 255, 255, 200, 200, 200, 255, 200, 200, 200, 255, 200, 200, 200, 255,
        200, 200, 200, 255, 200, 200, 200, 255, 200, 200, 200, 255, 255, 255, 255, 255,
        255, 255, 255, 255, 200, 200, 200, 255, 200, 200, 200, 255, 200, 200, 200, 255,
        200, 200, 200, 255, 200, 200, 200, 255, 200, 200, 200, 255, 255, 255, 255, 255,
        255, 255, 255, 255, 255, 255, 255, 255, 200, 200, 200, 255, 200, 200, 200, 255,
        200, 200, 200, 255, 200, 200, 200, 255, 255, 255, 255, 255, 255, 255, 255, 255,
        0, 0, 0, 0, 255, 255, 255, 255, 255, 255, 255, 255, 200, 200, 200, 255,
        200, 200, 200, 255, 255, 255, 255, 255, 255, 255, 255, 255, 0, 0, 0, 0,
        0, 0, 0, 0, 0, 0, 0, 0, 255, 255, 255, 255, 255, 255, 255, 255,
        255, 255, 255, 255, 255, 255, 255, 255, 0, 0, 0, 0, 0, 0, 0, 0,
    ]);
}

#[test]
fn should_correct_radius_larger_than_half_width() {
    let result = ExpandedBoxSettings::from_box_settings(&BoxSettings {
        width: 32,
        corner_radius: 32,
        ..Default::default()
    });
    assert_eq!(result.radius, 15);
}

#[test]
fn should_correct_radius_larger_than_half_height() {
    let result = ExpandedBoxSettings::from_box_settings(&BoxSettings {
        height: 16,
        corner_radius: 32,
        ..Default::default()
    });
    assert_eq!(result.radius, 7);
}

#[test]
fn should_correct_margin_larger_than_half_width() {
    let result = ExpandedBoxSettings::from_box_settings(&BoxSettings {
        width: 32,
        margin: 32,
        ..Default::default()
    });
    assert_eq!(result.margin, 14);
}

#[test]
fn should_correct_margin_larger_than_half_height() {
    let result = ExpandedBoxSettings::from_box_settings(&BoxSettings {
        height: 32,
        margin: 32,
        ..Default::default()
    });
    assert_eq!(result.margin, 14);
}

#[test]
fn should_correct_radius_if_margin_squeezes_it() {
    let result = ExpandedBoxSettings::from_box_settings(&BoxSettings {
        height: 128,
        width: 128,
        margin: 64,
        corner_radius: 12,
        ..Default::default()
    });
    assert_eq!(result.radius, 0);
}

#[test]
fn xy_to_index_0() {
    let result = xy_to_i(&10, &0, &0);
    assert_eq!(result, 0);
}

#[test]
fn xy_to_index() {
    let result = xy_to_i(&10, &0, &1);
    assert_eq!(result, 10);
}

#[test]
fn mirror_paths_produce_identical_output() {
    // the closed-form and the incremental mirror must agree byte for byte
    for (w, h, r) in [(8u16, 8u16, 2u16), (16, 16, 3), (16, 8, 1), (32, 16, 5)] {
        let settings = BoxSettings {
            width: w,
            height: h,
            corner_radius: r,
            ..Default::default()
        };
        let s_a = ExpandedBoxSettings::from_box_settings(&settings);
        let s_b = ExpandedBoxSettings::from_box_settings(&settings);
        let quarter: Vec<u8> = (0..(w as usize / 2) * (h as usize / 2) * 4)
            .map(|i| (i % 251) as u8)
            .collect();
        let out_a = mirror(s_a, quarter.clone());
        let out_b = mirror_b(s_b, quarter);
        assert_eq!(out_a, out_b);
    }
}

#[test]
fn border_box_buffer_length() {
    // four bytes per pixel for the whole requested size
    for (w, h) in [(8u16, 8u16), (16, 32), (64, 10)] {
        let result = border_box(w, h, 3);
        assert_eq!(result.len(), w as usize * h as usize * 4);
    }
    let quarter_styled = border_box_quarter(&BoxSettings {
        width: 16,
        height: 16,
        corner_radius: 2,
        ..Default::default()
    });
    assert_eq!(quarter_styled.len(), 16 * 16 * 4);
}

#[test]
fn corner_pixel_at_exact_radius_is_border() {
    let mut rect = RectOpUnw::new(0, 20, 20, 0, [200, 200, 200, 255]);
    rect.radius = 5;
    rect.border_width = 0;
    // the point (5, 10) lies at distance exactly 5 from the center (10, 10)
    let result = check_corner_pixel(&5, &10, &(10, 10), &rect);
    assert_eq!(result, ContainsResult::Border);
}

#[test]
fn corner_pixel_at_center_is_inside() {
    let mut rect = RectOpUnw::new(0, 20, 20, 0, [200, 200, 200, 255]);
    rect.radius = 5;
    rect.border_width = 0;
    let result = check_corner_pixel(&10, &10, &(10, 10), &rect);
    assert_eq!(result, ContainsResult::Inside);
}
