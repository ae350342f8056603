use pixelsort::config::{Bound, Config, Direction, Mode};
use pixelsort::pixel::{get_value, meets_threshold, pixel_value, sort_key, Pixel};

fn config(mode: Mode, threshold: u8, bound: Bound) -> Config {
    Config { direction: Direction::Right, mode, threshold, bound }
}

#[test]
fn channel_values() {
    let p = Pixel { r: 1, g: 2, b: 3, a: 4 };
    assert_eq!(pixel_value(Mode::Red, &p), 1);
    assert_eq!(pixel_value(Mode::Green, &p), 2);
    assert_eq!(pixel_value(Mode::Blue, &p), 3);
    assert_eq!(pixel_value(Mode::Alpha, &p), 4);
    assert_eq!(get_value(&config(Mode::Blue, 0, Bound::Min), &p), 3);
}

#[test]
fn luma_values() {
    assert_eq!(pixel_value(Mode::Luma, &Pixel { r: 0, g: 0, b: 0, a: 255 }), 0);
    assert_eq!(pixel_value(Mode::Luma, &Pixel { r: 255, g: 255, b: 255, a: 0 }), 255);
    assert_eq!(pixel_value(Mode::Luma, &Pixel { r: 255, g: 0, b: 0, a: 0 }), 54);
    assert_eq!(pixel_value(Mode::Luma, &Pixel { r: 0, g: 255, b: 0, a: 0 }), 182);
    assert_eq!(pixel_value(Mode::Luma, &Pixel { r: 0, g: 0, b: 255, a: 0 }), 18);
    assert_eq!(pixel_value(Mode::Luma, &Pixel { r: 10, g: 200, b: 30, a: 9 }), 147);
    assert_eq!(pixel_value(Mode::Luma, &Pixel { r: 0, g: 28, b: 152, a: 9 }), 31);
}

#[test]
fn luma_of_grey_is_the_grey() {
    for v in 0..=255u8 {
        assert_eq!(pixel_value(Mode::Luma, &Pixel { r: v, g: v, b: v, a: 0 }), v);
    }
}

#[test]
fn luma_ignores_alpha() {
    for a in [0u8, 1, 128, 255] {
        assert_eq!(pixel_value(Mode::Luma, &Pixel { r: 90, g: 14, b: 201, a }), 43);
    }
}

#[test]
fn min_bound_is_strictly_above() {
    for t in 0..=255u8 {
        for v in 0..=255u8 {
            let p = Pixel { r: v, g: 0, b: 0, a: 0 };
            assert_eq!(meets_threshold(&config(Mode::Red, t, Bound::Min), &p), v > t);
        }
    }
}

#[test]
fn max_bound_is_strictly_below() {
    for t in 0..=255u8 {
        for v in 0..=255u8 {
            let p = Pixel { r: 0, g: 0, b: 0, a: v };
            assert_eq!(meets_threshold(&config(Mode::Alpha, t, Bound::Max), &p), v < t);
        }
    }
}

#[test]
fn threshold_itself_never_meets() {
    let p = Pixel { r: 50, g: 50, b: 50, a: 50 };
    assert!(!meets_threshold(&config(Mode::Luma, 50, Bound::Min), &p));
    assert!(!meets_threshold(&config(Mode::Luma, 50, Bound::Max), &p));
    assert!(meets_threshold(&config(Mode::Luma, 49, Bound::Min), &p));
    assert!(meets_threshold(&config(Mode::Luma, 51, Bound::Max), &p));
}

#[test]
fn sort_key_negates_where_reversed() {
    let p = Pixel { r: 255, g: 0, b: 7, a: 0 };
    assert_eq!(sort_key(Mode::Red, false, &p), 255);
    assert_eq!(sort_key(Mode::Red, true, &p), -255);
    assert_eq!(sort_key(Mode::Blue, true, &p), -7);
    assert_eq!(sort_key(Mode::Green, true, &p), 0);
}
