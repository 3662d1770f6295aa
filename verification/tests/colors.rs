use spriteor::colors::add_color;

#[test]
fn red_half_on_blue_full() {
    let a = [0, 0, 255, 255];
    let b = [255, 0, 0, 127];
    let result = add_color(&a, &b);
    assert_eq!(result, [84, 0, 170, 255]);
}

#[test]
fn red_half_on_blue_half() {
    let a = [0, 0, 255, 128];
    let b = [255, 0, 0, 128];
    let result = add_color(&a, &b);
    assert_eq!(result, [127, 0, 127, 255]);
}

#[test]
fn red_half_on_none() {
    let a = [0, 0, 0, 0];
    let b = [255, 0, 0, 128];
    let result = add_color(&a, &b);
    assert_eq!(result, [255, 0, 0, 128]);
}

#[test]
fn white_half_on_black_full() {
    let a = [0, 0, 0, 255];
    let b = [255, 255, 255, 128];
    let result = add_color(&a, &b);
    assert_eq!(result, [85, 85, 85, 255]);
}

#[test]
fn none_on_none() {
    let a = [0, 0, 0, 0];
    let b = [0, 0, 0, 0];
    let result = add_color(&a, &b);
    assert_eq!(result, [0, 0, 0, 0]);
}

#[test]
fn green_full_on_blue_full() {
    let a = [0, 0, 255, 255];
    let b = [0, 255, 0, 255];
    let result = add_color(&a, &b);
    assert_eq!(result, [0, 255, 0, 255]);
}

#[test]
fn opaque_source_wins_for_any_destination() {
    let src = [10, 20, 30, 255];
    for d in [0u8, 1, 127, 200, 255] {
        let dst = [d, d, d, d];
        assert_eq!(add_color(&dst, &src), src);
    }
}

#[test]
fn transparent_source_keeps_destination() {
    let dst = [10, 20, 30, 99];
    let src = [200, 100, 50, 0];
    assert_eq!(add_color(&dst, &src), dst);
}
