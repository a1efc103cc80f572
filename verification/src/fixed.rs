//! Fixed-point scalar arithmetic.
//!
//! Every scalar of the renderer is an `i64` holding a real number scaled by
//! `SCALE` (2^16): the raw value `65536` stands for `1.0`. All operations
//! saturate at `±i64::MAX` instead of wrapping, so they are total, and each
//! one is specified exactly by a spec function over `int`.

use vstd::prelude::*;

verus! {

/// Raw units per 1.0: results of `*`, `/` and `sqrt` are rounded toward zero
/// to a multiple of 1/SCALE.
pub const SCALE: i64 = 65536;

/// Largest representable magnitude; the saturation bound is symmetric so that
/// negation never overflows.
pub const FX_MAX: i64 = 9223372036854775807;

/// Saturate a mathematical integer into the symmetric representable range.
pub open spec fn sat(x: int) -> int {
    if x > FX_MAX as int {
        FX_MAX as int
    } else if x < -(FX_MAX as int) {
        -(FX_MAX as int)
    } else {
        x
    }
}

/// Division rounding toward zero, as Rust's `/` computes it; `/` on `int` is
/// Euclidean, whence the sign split.
pub open spec fn tdiv(a: int, b: int) -> int {
    if a >= 0 {
        a / b
    } else {
        -((-a) / b)
    }
}

pub open spec fn fx_add_spec(a: int, b: int) -> int {
    sat(a + b)
}

pub open spec fn fx_sub_spec(a: int, b: int) -> int {
    sat(a - b)
}

pub open spec fn fx_neg_spec(a: int) -> int {
    sat(-a)
}

pub open spec fn fx_mul_spec(a: int, b: int) -> int {
    sat(tdiv(a * b, SCALE as int))
}

pub open spec fn fx_div_spec(a: int, b: int) -> int {
    sat(tdiv(a * (SCALE as int), b))
}

pub open spec fn fx_abs_spec(a: int) -> int {
    sat(if a < 0 { -a } else { a })
}

pub open spec fn fx_min_spec(a: int, b: int) -> int {
    if a < b { a } else { b }
}

pub open spec fn fx_max_spec(a: int, b: int) -> int {
    if a > b { a } else { b }
}

/// Floor of the square root: the unique `r >= 0` with `r² <= n < (r+1)²`.
pub open spec fn sqrt_floor(n: int) -> int {
    choose|r: int| 0 <= r && #[trigger] (r * r) <= n && n < (r + 1) * (r + 1)
}

/// `fx_sqrt` computes `sqrt(a/SCALE)*SCALE = sqrt(a*SCALE)` rounded down;
/// nonpositive inputs give 0.
pub open spec fn fx_sqrt_spec(a: int) -> int {
    if a <= 0 {
        0
    } else {
        sqrt_floor(a * (SCALE as int))
    }
}

/// Every nonnegative integer has a floor square root.
pub proof fn lemma_sqrt_floor_exists(n: int)
    requires
        n >= 0,
    ensures
        exists|r: int| 0 <= r && #[trigger] (r * r) <= n && n < (r + 1) * (r + 1),
    decreases n,
{
    if n == 0 {
        let w: int = 0;
        assert(w * w <= n && n < (w + 1) * (w + 1)) by (nonlinear_arith)
            requires n == 0, w == 0,
        ;
    } else {
        lemma_sqrt_floor_exists(n - 1);
        let r = choose|r: int| 0 <= r && #[trigger] (r * r) <= n - 1 && n - 1 < (r + 1) * (r + 1);
        if n < (r + 1) * (r + 1) {
            assert(0 <= r && r * r <= n && n < (r + 1) * (r + 1));
        } else {
            assert(n == (r + 1) * (r + 1));
            let w = r + 1;
            assert(w * w <= n && n < (w + 1) * (w + 1)) by (nonlinear_arith)
                requires r >= 0, w == r + 1, n == (r + 1) * (r + 1),
            ;
            assert(0 <= w && w * w <= n && n < (w + 1) * (w + 1));
        }
    }
}

/// The square root of anything at least one raw unit is positive.
pub proof fn lemma_sqrt_floor_positive(a: int)
    requires
        a >= 1,
    ensures
        fx_sqrt_spec(a) > 0,
{
    lemma_sqrt_floor_exists(a * (SCALE as int));
    let r = sqrt_floor(a * (SCALE as int));
    assert(0 <= r && r * r <= a * (SCALE as int) && a * (SCALE as int) < (r + 1) * (r + 1));
    if r == 0 {
        assert(a * (SCALE as int) >= 65536);
        assert((r + 1) * (r + 1) == 1) by (nonlinear_arith)
            requires r == 0,
        ;
        assert(false);
    }
}

pub proof fn lemma_sqrt_floor_unique(n: int, r: int)
    requires
        0 <= r,
        r * r <= n,
        n < (r + 1) * (r + 1),
    ensures
        sqrt_floor(n) == r,
{
    assert(exists|q: int| 0 <= q && #[trigger] (q * q) <= n && n < (q + 1) * (q + 1)) by {
        assert(0 <= r && r * r <= n && n < (r + 1) * (r + 1));
    }
    let q = sqrt_floor(n);
    assert(0 <= q && q * q <= n && n < (q + 1) * (q + 1));
    if q < r {
        assert((q + 1) * (q + 1) <= r * r) by (nonlinear_arith)
            requires 0 <= q, q < r,
        ;
    }
    if r < q {
        assert((r + 1) * (r + 1) <= q * q) by (nonlinear_arith)
            requires 0 <= r, r < q,
        ;
    }
}

/// Saturation and truncating division both commute with negation; the fixed
/// point operations below inherit this symmetry.
pub proof fn lemma_sat_neg(x: int)
    ensures
        sat(-x) == -sat(x),
{
}

pub proof fn lemma_tdiv_neg_divisor(a: int, b: int)
    requires
        b != 0,
    ensures
        tdiv(a, -b) == -tdiv(a, b),
{
    if a >= 0 {
        assert(a / (-b) == -(a / b)) by (nonlinear_arith)
            requires b != 0, a >= 0,
        ;
    } else {
        assert((-a) / (-b) == -((-a) / b)) by (nonlinear_arith)
            requires b != 0, a < 0,
        ;
    }
}

pub proof fn lemma_mul_neg_neg(a: int, b: int)
    ensures
        (-a) * (-b) == a * b,
{
    assert((-a) * (-b) == a * b) by (nonlinear_arith);
}

/// Multiplying two negated factors gives the original fixed-point product.
pub proof fn lemma_fx_mul_neg_both(a: int, b: int)
    ensures
        fx_mul_spec(-a, -b) == fx_mul_spec(a, b),
{
    lemma_mul_neg_neg(a, b);
}

/// A product bound carries through the fixed-point multiply: if |a·b| is at
/// most bound·SCALE, the scaled product is at most bound in magnitude.
pub proof fn lemma_fx_mul_abs(a: int, b: int, bound: int)
    requires
        0 <= bound <= FX_MAX as int,
        -(bound * (SCALE as int)) <= a * b <= bound * (SCALE as int),
    ensures
        -bound <= fx_mul_spec(a, b) <= bound,
{
    let p = a * b;
    if p >= 0 {
        vstd::arithmetic::div_mod::lemma_fundamental_div_mod(p, 65536);
        assert((p / 65536) * 65536 <= p);
        assert(0 <= p / 65536 <= bound) by (nonlinear_arith)
            requires
                0 <= p,
                p <= bound * 65536,
                (p / 65536) * 65536 <= p,
                0 <= bound,
        ;
    } else {
        vstd::arithmetic::div_mod::lemma_fundamental_div_mod(-p, 65536);
        assert(((-p) / 65536) * 65536 <= -p);
        assert(0 <= (-p) / 65536 <= bound) by (nonlinear_arith)
            requires
                0 <= -p,
                -p <= bound * 65536,
                ((-p) / 65536) * 65536 <= -p,
                0 <= bound,
        ;
    }
}

fn sat_i128(x: i128) -> (r: i64)
    ensures
        r as int == sat(x as int),
{
    if x > i64::MAX as i128 {
        i64::MAX
    } else if x < -(i64::MAX as i128) {
        -i64::MAX
    } else {
        x as i64
    }
}

pub fn fx_add(a: i64, b: i64) -> (r: i64)
    ensures
        r as int == fx_add_spec(a as int, b as int),
{
    sat_i128(a as i128 + b as i128)
}

pub fn fx_sub(a: i64, b: i64) -> (r: i64)
    ensures
        r as int == fx_sub_spec(a as int, b as int),
{
    sat_i128(a as i128 - b as i128)
}

pub fn fx_neg(a: i64) -> (r: i64)
    ensures
        r as int == fx_neg_spec(a as int),
{
    sat_i128(-(a as i128))
}

/// The quotient of a truncating division is no larger in magnitude than the
/// dividend.
proof fn lemma_tdiv_bound(a: int, b: int)
    requires
        b != 0,
        a >= 0,
    ensures
        0 <= a / b || b < 0,
        b > 0 ==> 0 <= a / b <= a,
        b < 0 ==> -a <= a / b <= 0,
{
    if b > 0 {
        assert(0 <= a / b <= a) by (nonlinear_arith)
            requires a >= 0, b >= 1,
        ;
    } else {
        assert(-a <= a / b <= 0) by (nonlinear_arith)
            requires a >= 0, b <= -1,
        ;
    }
}

fn tdiv_i128(p: i128, d: i128) -> (q: i128)
    requires
        d != 0,
        p > i128::MIN,
    ensures
        q as int == tdiv(p as int, d as int),
{
    proof {
        if p >= 0 {
            lemma_tdiv_bound(p as int, d as int);
        } else {
            lemma_tdiv_bound(-(p as int), d as int);
        }
    }
    p / d
}

pub fn fx_mul(a: i64, b: i64) -> (r: i64)
    ensures
        r as int == fx_mul_spec(a as int, b as int),
{
    proof {
        assert(-0x40000000000000000000000000000000 <= (a as int) * (b as int)
            <= 0x40000000000000000000000000000000) by (nonlinear_arith)
            requires
                -0x8000000000000000 <= a as int <= 0x7fffffffffffffff,
                -0x8000000000000000 <= b as int <= 0x7fffffffffffffff,
        ;
    }
    let p: i128 = (a as i128) * (b as i128);
    let q: i128 = tdiv_i128(p, SCALE as i128);
    sat_i128(q)
}

pub fn fx_div(a: i64, b: i64) -> (r: i64)
    requires
        b != 0,
    ensures
        r as int == fx_div_spec(a as int, b as int),
{
    proof {
        assert(-0x40000000000000000000000000000000 <= (a as int) * (SCALE as int)
            <= 0x40000000000000000000000000000000) by (nonlinear_arith)
            requires
                -0x8000000000000000 <= a as int <= 0x7fffffffffffffff,
                SCALE as int == 65536,
        ;
    }
    let p: i128 = (a as i128) * (SCALE as i128);
    let q: i128 = tdiv_i128(p, b as i128);
    sat_i128(q)
}

pub fn fx_abs(a: i64) -> (r: i64)
    ensures
        r as int == fx_abs_spec(a as int),
{
    if a < 0 {
        fx_neg(a)
    } else {
        a
    }
}

pub fn fx_min(a: i64, b: i64) -> (r: i64)
    ensures
        r as int == fx_min_spec(a as int, b as int),
{
    if a < b {
        a
    } else {
        b
    }
}

pub fn fx_max(a: i64, b: i64) -> (r: i64)
    ensures
        r as int == fx_max_spec(a as int, b as int),
{
    if a > b {
        a
    } else {
        b
    }
}

pub fn fx_sqrt(a: i64) -> (r: i64)
    ensures
        r as int == fx_sqrt_spec(a as int),
        r >= 0,
{
    if a <= 0 {
        return 0;
    }
    proof {
        assert(0 < (a as int) * (SCALE as int) < 0x80000000000000000000) by (nonlinear_arith)
            requires
                0 < a as int <= 0x7fffffffffffffff,
                SCALE as int == 65536,
        ;
    }
    let n: u128 = (a as u128) * (SCALE as u128);
    let mut lo: u64 = 0;
    // 2^40 squared is 2^80, above any n = a * SCALE < 2^79.
    let mut hi: u64 = 1099511627776;
    assert((hi as int) * (hi as int) > n as int) by (nonlinear_arith)
        requires
            hi == 1099511627776u64,
            n as int == (a as int) * (SCALE as int),
            0 < a as int <= i64::MAX as int,
            SCALE as int == 65536,
    ;
    while lo + 1 < hi
        invariant
            lo < hi,
            hi <= 1099511627776,
            (lo as int) * (lo as int) <= n as int,
            (n as int) < (hi as int) * (hi as int),
        decreases hi - lo,
    {
        let mid: u64 = lo + (hi - lo) / 2;
        proof {
            assert(mid < hi);
            assert((mid as int) * (mid as int) < 0x100000000000000000000) by (nonlinear_arith)
                requires 0 <= mid as int <= 1099511627775,
            ;
        }
        if (mid as u128) * (mid as u128) <= n {
            lo = mid;
        } else {
            hi = mid;
        }
    }
    proof {
        lemma_sqrt_floor_unique(n as int, lo as int);
    }
    lo as i64
}

/// Floor of `a / SCALE` as a grid index (rounds toward minus infinity).
pub open spec fn fx_floor_spec(a: int) -> int {
    a / (SCALE as int)
}

pub fn fx_floor(a: i64) -> (r: i64)
    ensures
        r as int == fx_floor_spec(a as int),
        -140737488355328 <= r <= 140737488355327,
{
    proof {
        vstd::arithmetic::div_mod::lemma_fundamental_div_mod(a as int, SCALE as int);
    }
    if a >= 0 {
        a / SCALE
    } else if a == i64::MIN {
        proof {
            vstd::arithmetic::div_mod::lemma_fundamental_div_mod_converse(
                a as int, 65536, -140737488355328, 0);
        }
        -140737488355328
    } else {
        let m: i64 = (-a) % SCALE;
        if m == 0 {
            -((-a) / SCALE)
        } else {
            let q: i64 = (-a) / SCALE;
            proof {
                assert((-a) as int == ((-a) as int / (SCALE as int)) * (SCALE as int) + (
                (-a) as int % (SCALE as int))) by (nonlinear_arith)
                    requires SCALE as int == 65536,
                ;
                assert(a as int / (SCALE as int) == -(q as int) - 1) by (nonlinear_arith)
                    requires
                        a < 0,
                        SCALE as int == 65536,
                        q as int == (-a) as int / (SCALE as int),
                        (-a) as int % (SCALE as int) != 0,
                        (-a) as int == q as int * (SCALE as int) + ((-a) as int % (SCALE as int)),
                        0 <= (-a) as int % (SCALE as int) < SCALE as int,
                ;
            }
            -q - 1
        }
    }
}

} // verus!
