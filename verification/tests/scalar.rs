//! Fixed-point scalar and trigonometry sanity checks (65536 = 1.0).

use ray_tracer::fixed::{fx_abs, fx_add, fx_div, fx_floor, fx_mul, fx_neg, fx_sqrt, fx_sub};
use ray_tracer::trig::{angle_frac, fx_cos, fx_sin, mod_two_pi, PI_FX, TWO_PI};

#[test]
fn scalar_exact_arithmetic() {
    assert_eq!(fx_add(65536, 131072), 196608);
    assert_eq!(fx_sub(65536, 131072), -65536);
    assert_eq!(fx_neg(65536), -65536);
    // 1.5 * 2 = 3.
    assert_eq!(fx_mul(98304, 131072), 196608);
    // 3 / 2 = 1.5.
    assert_eq!(fx_div(196608, 131072), 98304);
    assert_eq!(fx_abs(-42), 42);
}

#[test]
fn scalar_saturates_instead_of_wrapping() {
    assert_eq!(fx_add(i64::MAX, i64::MAX), i64::MAX);
    assert_eq!(fx_sub(-i64::MAX, i64::MAX), -i64::MAX);
    assert_eq!(fx_neg(i64::MIN), i64::MAX);
    assert_eq!(fx_mul(i64::MAX, i64::MAX), i64::MAX);
    assert_eq!(fx_mul(i64::MAX, -i64::MAX), -i64::MAX);
}

#[test]
fn scalar_floor_rounds_down() {
    assert_eq!(fx_floor(0), 0);
    assert_eq!(fx_floor(65535), 0);
    assert_eq!(fx_floor(65536), 1);
    assert_eq!(fx_floor(-1), -1);
    assert_eq!(fx_floor(-65536), -1);
    assert_eq!(fx_floor(-65537), -2);
}

#[test]
fn scalar_sqrt_is_floor_of_root() {
    assert_eq!(fx_sqrt(0), 0);
    assert_eq!(fx_sqrt(-5), 0);
    assert_eq!(fx_sqrt(65536), 65536);
    // sqrt(4) = 2.
    assert_eq!(fx_sqrt(262144), 131072);
    // sqrt(2) rounds down to 92681/65536.
    assert_eq!(fx_sqrt(131072), 92681);
}

#[test]
fn sine_quarters() {
    assert_eq!(fx_sin(0), 0);
    let tol = 300;
    assert!((fx_sin(PI_FX / 2) - 65536).abs() <= tol);
    assert!(fx_sin(PI_FX).abs() <= tol);
    assert!((fx_sin(PI_FX + PI_FX / 2) + 65536).abs() <= tol);
    assert!((fx_cos(0) - 65536).abs() <= tol);
    // Reduction far outside the principal range still lands in [-1, 1].
    for k in -20..20i64 {
        let s = fx_sin(k * 99991);
        assert!(-65536 <= s && s <= 65536);
        let m = mod_two_pi(k * 99991);
        assert!(0 <= m && m < TWO_PI);
    }
}

#[test]
fn angle_fraction_quadrants() {
    // +x axis, +y axis, -x axis, -y axis as fractions of a turn.
    assert_eq!(angle_frac(0, 65536), 0);
    assert_eq!(angle_frac(65536, 0), 16384);
    assert_eq!(angle_frac(0, -65536), 32768);
    assert_eq!(angle_frac(-65536, 0), 49152);
    // The diagonal of the first quadrant is an eighth of a turn.
    assert_eq!(angle_frac(65536, 65536), 8192);
}
