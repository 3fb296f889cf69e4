use planet_sketch::common::{distance, isqrt, lerp, map_range, norm, rotate, sdiv, Vec2i};
use planet_sketch::trig::{angle_of, cosine_fx, sine_fx};

#[test]
fn isqrt_exact_squares() {
    assert_eq!(isqrt(0), 0);
    assert_eq!(isqrt(1), 1);
    assert_eq!(isqrt(4), 2);
    assert_eq!(isqrt(144), 12);
    assert_eq!(isqrt(1 << 40), 1 << 20);
}

#[test]
fn isqrt_rounds_down() {
    assert_eq!(isqrt(2), 1);
    assert_eq!(isqrt(3), 1);
    assert_eq!(isqrt(8), 2);
    assert_eq!(isqrt(99), 9);
    assert_eq!(isqrt(u64::from(u32::MAX)), 65535);
}

#[test]
fn distance_pythagorean() {
    let a = Vec2i { x: 0, y: 0 };
    let b = Vec2i { x: 3, y: 4 };
    assert_eq!(distance(a, b), 5);
    let c = Vec2i { x: -3, y: -4 };
    assert_eq!(distance(a, c), 5);
    assert_eq!(distance(b, b), 0);
}

#[test]
fn lerp_midpoint_and_ends() {
    assert_eq!(lerp(10, 20, 1, 2), 15);
    assert_eq!(lerp(10, 20, 0, 2), 10);
    assert_eq!(lerp(10, 20, 2, 2), 20);
    // Descending interpolation rounds toward the first endpoint.
    assert_eq!(lerp(20, 10, 1, 4), 18);
}

#[test]
fn map_range_examples() {
    assert_eq!(map_range(5, 0, 10, 0, 100), 50);
    assert_eq!(map_range(0, 0, 10, 50, 60), 50);
    assert_eq!(map_range(10, 0, 10, 50, 60), 60);
    assert_eq!(map_range(-5, -10, 0, 0, 100), 50);
}

#[test]
fn norm_scales_to_fixed_point_one() {
    assert_eq!(norm(0, 0, 10), 0);
    assert_eq!(norm(10, 0, 10), 1024);
    assert_eq!(norm(5, 0, 10), 512);
}

#[test]
fn sdiv_rounds_toward_zero() {
    assert_eq!(sdiv(7, 2), 3);
    assert_eq!(sdiv(-7, 2), -3);
    assert_eq!(sdiv(0, 5), 0);
    assert_eq!(sdiv(-1, 5), 0);
}

#[test]
fn sine_quarter_points() {
    // A 1024-unit turn: quarter turn 256, half 512.
    assert_eq!(sine_fx(0, 1024), 0);
    assert_eq!(sine_fx(256, 1024), 4096);
    assert_eq!(sine_fx(512, 1024), 0);
    assert_eq!(sine_fx(768, 1024), -4096);
}

#[test]
fn cosine_quarter_points() {
    assert_eq!(cosine_fx(0, 1024), 4096);
    assert_eq!(cosine_fx(256, 1024), 0);
    assert_eq!(cosine_fx(512, 1024), -4096);
    assert_eq!(cosine_fx(768, 1024), 0);
}

#[test]
fn sine_stays_within_unit() {
    for a in 0..1024u64 {
        let s = sine_fx(a, 1024);
        assert!(-4096 <= s && s <= 4096);
        let c = cosine_fx(a, 1024);
        assert!(-4096 <= c && c <= 4096);
    }
}

#[test]
fn angle_of_cardinal_directions() {
    // Angle is measured clockwise from the positive y axis.
    assert_eq!(angle_of(0, 9, 1024), 0);
    assert_eq!(angle_of(5, 0, 1024), 256);
    assert_eq!(angle_of(0, -7, 1024), 512);
    assert_eq!(angle_of(-3, 0, 1024), 768);
    assert_eq!(angle_of(0, 0, 1024), 0);
}

#[test]
fn angle_of_diagonals() {
    assert_eq!(angle_of(5, 5, 1024), 128);
    assert_eq!(angle_of(5, -5, 1024), 384);
    assert_eq!(angle_of(-5, -5, 1024), 640);
    assert_eq!(angle_of(-5, 5, 1024), 896);
}

#[test]
fn rotate_quarter_turn() {
    let v = Vec2i { x: 100, y: 0 };
    let r = rotate(v, 256, 1024);
    assert_eq!(r, Vec2i { x: 0, y: 100 });
    let half = rotate(v, 512, 1024);
    assert_eq!(half, Vec2i { x: -100, y: 0 });
}

#[test]
fn rotate_by_zero_is_identity() {
    let v = Vec2i { x: 3, y: 4 };
    assert_eq!(rotate(v, 0, 1024), v);
}
