//! Fixed-point trigonometric approximations.
//!
//! `fx_sin` reduces its argument modulo 2π and evaluates a fifth-order
//! polynomial on the first quadrant; `angle_frac` turns a direction into a
//! fraction of a full turn by octant reduction over a quadratic arctangent
//! approximation. Each function's contract is its own computation, stated
//! exactly; range facts are guaranteed by a final clamp.

use vstd::prelude::*;
use crate::fixed::{
    fx_add, fx_add_spec, fx_div, fx_div_spec, fx_max, fx_max_spec, fx_min, fx_min_spec, fx_mul,
    fx_mul_spec, fx_neg, fx_neg_spec, fx_sub, fx_sub_spec, fx_sqrt, fx_sqrt_spec, SCALE,
};

verus! {

/// 2π in raw units (2π · 65536, rounded).
pub const TWO_PI: i64 = 411775;

/// π in raw units.
pub const PI_FX: i64 = 205887;

/// π/2 in raw units.
pub const HALF_PI: i64 = 102944;

/// Euclidean remainder modulo 2π: always in [0, 2π).
pub open spec fn mod_two_pi_spec(x: int) -> int {
    x % (TWO_PI as int)
}

pub fn mod_two_pi(x: i64) -> (r: i64)
    ensures
        r as int == mod_two_pi_spec(x as int),
        0 <= r < TWO_PI,
{
    if x >= 0 {
        x % TWO_PI
    } else {
        let nx: i128 = -(x as i128);
        let m: i64 = (nx % (TWO_PI as i128)) as i64;
        proof {
            vstd::arithmetic::div_mod::lemma_fundamental_div_mod(x as int, TWO_PI as int);
            vstd::arithmetic::div_mod::lemma_fundamental_div_mod(-(x as int), TWO_PI as int);
        }
        if m == 0 {
            0
        } else {
            TWO_PI - m
        }
    }
}

/// Fifth-order sine on the first quadrant: s - s³/6 + s⁵/120.
pub open spec fn sin_poly_spec(s: int) -> int {
    let s2 = fx_mul_spec(s, s);
    let s3 = fx_mul_spec(s2, s);
    let s5 = fx_mul_spec(s3, s2);
    fx_add_spec(fx_sub_spec(s, fx_div_spec(s3, 6 * SCALE as int)), fx_div_spec(s5, 120 * SCALE
        as int))
}

/// Sine by quadrant folding of the reduced argument, clamped into [-1, 1].
pub open spec fn fx_sin_spec(x: int) -> int {
    let r = mod_two_pi_spec(x);
    let (q, neg) = if r < PI_FX as int {
        (r, false)
    } else {
        (r - PI_FX as int, true)
    };
    let f = if q > HALF_PI as int {
        PI_FX as int - q
    } else {
        q
    };
    let s = sin_poly_spec(f);
    let s = if neg {
        fx_neg_spec(s)
    } else {
        s
    };
    fx_max_spec(-(SCALE as int), fx_min_spec(SCALE as int, s))
}

fn sin_poly(s: i64) -> (r: i64)
    ensures
        r as int == sin_poly_spec(s as int),
{
    let s2 = fx_mul(s, s);
    let s3 = fx_mul(s2, s);
    let s5 = fx_mul(s3, s2);
    fx_add(fx_sub(s, fx_div(s3, 6 * SCALE)), fx_div(s5, 120 * SCALE))
}

pub fn fx_sin(x: i64) -> (r: i64)
    ensures
        r as int == fx_sin_spec(x as int),
        -(SCALE as int) <= r as int <= SCALE as int,
{
    let red = mod_two_pi(x);
    let neg = red >= PI_FX;
    let q = if neg {
        red - PI_FX
    } else {
        red
    };
    let f = if q > HALF_PI {
        PI_FX - q
    } else {
        q
    };
    let s = sin_poly(f);
    let s = if neg {
        fx_neg(s)
    } else {
        s
    };
    fx_max(-SCALE, fx_min(SCALE, s))
}

/// Cosine as a shifted sine.
pub open spec fn fx_cos_spec(x: int) -> int {
    fx_sin_spec(fx_add_spec(x, HALF_PI as int))
}

pub fn fx_cos(x: i64) -> (r: i64)
    ensures
        r as int == fx_cos_spec(x as int),
        -(SCALE as int) <= r as int <= SCALE as int,
{
    fx_sin(fx_add(x, HALF_PI))
}

/// Arctangent of `z` in [0, 1] as a fraction of a turn, clamped into
/// [0, 1/8] of a turn: z/8 + C z (1 - z) with C = 0.273/(2π).
pub open spec fn atan_frac_spec(z: int) -> int {
    let a = fx_add_spec(fx_mul_spec(z, 8192), fx_mul_spec(2847, fx_mul_spec(z, fx_sub_spec(
        SCALE as int, z))));
    fx_max_spec(0, fx_min_spec(8192, a))
}

fn atan_frac(z: i64) -> (r: i64)
    ensures
        r as int == atan_frac_spec(z as int),
        0 <= r <= 8192,
{
    let a = fx_add(fx_mul(z, 8192), fx_mul(2847, fx_mul(z, fx_sub(SCALE, z))));
    fx_max(0, fx_min(8192, a))
}

/// The angle of the direction (x, y) as a fraction of a full turn in
/// [0, 1), by octant reduction; (0, 0) gives 0.
pub open spec fn angle_frac_spec(y: int, x: int) -> int {
    let ax = if x < 0 { fx_neg_spec(x) } else { x };
    let ay = if y < 0 { fx_neg_spec(y) } else { y };
    if ax == 0 && ay == 0 {
        0
    } else {
        let a = if ax >= ay {
            atan_frac_spec(fx_div_spec(ay, ax))
        } else {
            16384 - atan_frac_spec(fx_div_spec(ax, ay))
        };
        if x >= 0 && y >= 0 {
            a
        } else if x < 0 && y >= 0 {
            32768 - a
        } else if x < 0 {
            32768 + a
        } else {
            if a == 0 {
                0
            } else {
                65536 - a
            }
        }
    }
}

/// A direction with a nonnegative second component lies in the upper half
/// plane: its angle is at most half a turn.
pub proof fn lemma_angle_frac_upper_half(y: int, x: int)
    requires
        y >= 0,
    ensures
        0 <= angle_frac_spec(y, x) <= 32768,
{
}

pub fn angle_frac(y: i64, x: i64) -> (r: i64)
    ensures
        r as int == angle_frac_spec(y as int, x as int),
        0 <= r < SCALE as int,
{
    let ax = if x < 0 {
        fx_neg(x)
    } else {
        x
    };
    let ay = if y < 0 {
        fx_neg(y)
    } else {
        y
    };
    if ax == 0 && ay == 0 {
        return 0;
    }
    let a = if ax >= ay {
        atan_frac(fx_div(ay, ax))
    } else {
        16384 - atan_frac(fx_div(ax, ay))
    };
    if x >= 0 && y >= 0 {
        a
    } else if x < 0 && y >= 0 {
        32768 - a
    } else if x < 0 {
        32768 + a
    } else {
        if a == 0 {
            0
        } else {
            65536 - a
        }
    }
}

} // verus!
