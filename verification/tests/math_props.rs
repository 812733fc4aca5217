//! Concrete checks of the fixed-point math: trig values, rotation round
//! trips, normalisation, wrapping and the integer square root.

use asteroids::fx::{isqrt, div_trunc, clamp};
use asteroids::trig::{sin_bam, cos_bam};
use asteroids::vec2::vec2;
use asteroids::{wrap_coord, ARENA_W, ARENA_H, FX};

#[test]
fn sin_known_values() {
    assert_eq!(sin_bam(0), 0);
    assert_eq!(sin_bam(1024), 1024);
    assert_eq!(sin_bam(2048), 0);
    assert_eq!(sin_bam(3072), -1024);
    // sin of an eighth revolution: close to 1024 / sqrt(2)
    let s = sin_bam(512);
    assert!(s >= 715 && s <= 730, "sin(512) = {s}");
}

#[test]
fn cos_known_values() {
    assert_eq!(cos_bam(0), 1024);
    assert_eq!(cos_bam(1024), 0);
    assert_eq!(cos_bam(2048), -1024);
    assert_eq!(cos_bam(3072), 0);
}

#[test]
fn rotate_round_trip_within_tolerance() {
    // rotating by an angle and then by its mirror is the identity up to
    // the trig approximation and truncation
    for &(x, y) in [(10000i64, 20000i64), (-5000, 12345), (300, -40000)].iter() {
        for &a in [1i64, 313, 512, 1000, 2047, 2500, 3333, 4095].iter() {
            let v = vec2(x, y);
            let once = v.rotate(a);
            let back = once.rotate(4096 - a);
            let dx = (back.x - x).abs();
            let dy = (back.y - y).abs();
            assert!(dx <= 300 && dy <= 300, "angle {a}: ({x},{y}) came back as ({},{})", back.x, back.y);
        }
    }
}

#[test]
fn normalize_three_four_five() {
    let n = vec2(3000, 4000).normalise();
    assert_eq!(n.x, 614);
    assert_eq!(n.y, 819);
    let len2 = n.x * n.x + n.y * n.y;
    assert!(len2 >= 1044482, "squared length {len2}");
    assert!(len2 <= 1049000, "squared length {len2}");
    let len = ((len2 as f32).sqrt()) / (FX as f32);
    assert!(len > 0.99 && len < 1.01, "length {len}");
}

#[test]
fn normalize_axis_exact() {
    let n = vec2(5000, 0).normalise();
    assert_eq!(n.x, 1024);
    assert_eq!(n.y, 0);
    let m = vec2(0, -7).normalise();
    assert_eq!(m.x, 0);
    assert_eq!(m.y, -1024);
}

#[test]
fn wrap_coord_behaviour() {
    assert_eq!(wrap_coord(-5, ARENA_W), ARENA_W - 1024);
    assert_eq!(wrap_coord(ARENA_W, ARENA_W), 0);
    assert_eq!(wrap_coord(ARENA_W - 1023, ARENA_H), 0);
    assert_eq!(wrap_coord(12345, ARENA_W), 12345);
    assert_eq!(wrap_coord(0, ARENA_H), 0);
}

#[test]
fn isqrt_values() {
    assert_eq!(isqrt(0), 0);
    assert_eq!(isqrt(1), 1);
    assert_eq!(isqrt(24), 4);
    assert_eq!(isqrt(25), 5);
    assert_eq!(isqrt(u64::MAX), 0xFFFF_FFFF);
}

#[test]
fn div_trunc_rounds_toward_zero() {
    assert_eq!(div_trunc(7, 2), 3);
    assert_eq!(div_trunc(-7, 2), -3);
    assert_eq!(div_trunc(1023, 1024), 0);
    assert_eq!(div_trunc(-1023, 1024), 0);
}

#[test]
fn clamp_behaviour() {
    assert_eq!(clamp(5, 0, 10), 5);
    assert_eq!(clamp(-5, 0, 10), 0);
    assert_eq!(clamp(50, 0, 10), 10);
}
