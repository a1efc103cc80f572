//! The renderer's only source of randomness: `rand::random`.
//!
//! Nothing is promised of a random draw itself; the helpers below only bound
//! the range of what they hand out, which holds of every outcome.

use vstd::prelude::*;
use crate::fixed::{fx_sub, tdiv, FX_MAX, SCALE};

verus! {

/// Relies on rand::random: a draw from the thread-local generator through the
/// Standard distribution. Nothing can be promised of the value.
pub assume_specification<T>[ rand::random::<T> ]() -> (r: T)
    where
        rand::distributions::Standard: rand::distributions::Distribution<T>,
;

/// Uniform fixed-point fraction in [0, 1): the low 16 bits of a draw.
pub fn random_frac() -> (r: i64)
    ensures
        0 <= r < SCALE as int,
{
    let x: u32 = rand::random::<u32>();
    (x % 65536) as i64
}

/// Uniform index below `n`, for axis choices and shuffles.
pub fn random_below(n: usize) -> (r: usize)
    requires
        n > 0,
    ensures
        r < n,
{
    let x: u64 = rand::random::<u64>();
    proof {
        assert((x as int) % (n as int) < n as int) by (nonlinear_arith)
            requires n as int > 0, x as int >= 0,
        ;
    }
    (x % (n as u64)) as usize
}

/// Uniform fixed-point value in [min, max).
pub fn random_range(min: i64, max: i64) -> (r: i64)
    requires
        min < max,
        max - min <= FX_MAX as int,
    ensures
        min <= r < max,
{
    let span: i64 = fx_sub(max, min);
    let frac: i64 = random_frac();
    proof {
        assert(0 <= span as int * frac as int && (span as int * frac as int) / 65536
            < span as int) by (nonlinear_arith)
            requires
                span as int >= 1,
                0 <= frac as int,
                (frac as int) < 65536,
        ;
        assert(tdiv(span as int * frac as int, SCALE as int) == (span as int * frac as int)
            / 65536);
    }
    let step: i64 = crate::fixed::fx_mul(span, frac);
    min + step
}

} // verus!
