//! 3-vectors over fixed-point scalars, used as points, directions and linear
//! RGB colors.
//!
//! The mathematical model of a vector is [`V3`], a triple of unbounded
//! integers in raw fixed-point units; every operation is specified exactly by
//! a `v3_*` spec function built from the scalar specs in [`crate::fixed`].

use vstd::prelude::*;
use crate::fixed::{
    fx_add, fx_add_spec, fx_div, fx_div_spec, fx_mul, fx_mul_spec, fx_neg, fx_neg_spec,
    fx_sqrt, fx_sqrt_spec, fx_sub, fx_sub_spec, tdiv, FX_MAX, SCALE,
};
use crate::rng::random_range;

verus! {

/// A coordinate axis tag, usable to index a vector.
#[derive(Clone, Copy, PartialEq, Eq, Structural, Debug)]
pub enum Axis {
    X,
    Y,
    Z,
}

/// Mathematical view of a vector: raw fixed-point coordinates as unbounded
/// integers.
pub ghost struct V3 {
    pub x: int,
    pub y: int,
    pub z: int,
}

#[derive(Clone, Copy, PartialEq, Eq, Structural, Debug)]
pub struct Vec3 {
    pub x: i64,
    pub y: i64,
    pub z: i64,
}

impl View for Vec3 {
    type V = V3;

    open spec fn view(&self) -> V3 {
        V3 { x: self.x as int, y: self.y as int, z: self.z as int }
    }
}

pub open spec fn v3_add(a: V3, b: V3) -> V3 {
    V3 {
        x: fx_add_spec(a.x, b.x),
        y: fx_add_spec(a.y, b.y),
        z: fx_add_spec(a.z, b.z),
    }
}

pub open spec fn v3_sub(a: V3, b: V3) -> V3 {
    V3 {
        x: fx_sub_spec(a.x, b.x),
        y: fx_sub_spec(a.y, b.y),
        z: fx_sub_spec(a.z, b.z),
    }
}

pub open spec fn v3_neg(a: V3) -> V3 {
    V3 { x: fx_neg_spec(a.x), y: fx_neg_spec(a.y), z: fx_neg_spec(a.z) }
}

/// Component-wise product (used for color attenuation).
pub open spec fn v3_mul(a: V3, b: V3) -> V3 {
    V3 {
        x: fx_mul_spec(a.x, b.x),
        y: fx_mul_spec(a.y, b.y),
        z: fx_mul_spec(a.z, b.z),
    }
}

pub open spec fn v3_scale(a: V3, k: int) -> V3 {
    V3 {
        x: fx_mul_spec(a.x, k),
        y: fx_mul_spec(a.y, k),
        z: fx_mul_spec(a.z, k),
    }
}

pub open spec fn v3_div(a: V3, k: int) -> V3 {
    V3 {
        x: fx_div_spec(a.x, k),
        y: fx_div_spec(a.y, k),
        z: fx_div_spec(a.z, k),
    }
}

pub open spec fn v3_dot(a: V3, b: V3) -> int {
    fx_add_spec(
        fx_add_spec(fx_mul_spec(a.x, b.x), fx_mul_spec(a.y, b.y)),
        fx_mul_spec(a.z, b.z),
    )
}

pub open spec fn v3_cross(a: V3, b: V3) -> V3 {
    V3 {
        x: fx_sub_spec(fx_mul_spec(a.y, b.z), fx_mul_spec(a.z, b.y)),
        y: fx_sub_spec(fx_mul_spec(a.z, b.x), fx_mul_spec(a.x, b.z)),
        z: fx_sub_spec(fx_mul_spec(a.x, b.y), fx_mul_spec(a.y, b.x)),
    }
}

pub open spec fn v3_length_squared(a: V3) -> int {
    v3_dot(a, a)
}

pub open spec fn v3_length(a: V3) -> int {
    fx_sqrt_spec(v3_length_squared(a))
}

pub open spec fn v3_normalize(a: V3) -> V3 {
    v3_div(a, v3_length(a))
}

/// All components vanish at the fixed-point resolution (the 1e-8 threshold of
/// a floating-point implementation lies far below one raw unit).
pub open spec fn v3_near_zero(a: V3) -> bool {
    a.x == 0 && a.y == 0 && a.z == 0
}

/// `v - 2 (v·n) n`.
pub open spec fn v3_reflect(v: V3, n: V3) -> V3 {
    v3_sub(v, v3_scale(n, fx_add_spec(v3_dot(v, n), v3_dot(v, n))))
}

/// Refraction of unit `v` about unit normal `n` with index ratio `ratio`:
/// perp = ratio (v + cos θ n), parallel = -sqrt(|1 - |perp|²|) n.
pub open spec fn v3_refract(v: V3, n: V3, ratio: int) -> V3 {
    let cos_theta = crate::fixed::fx_min_spec(v3_dot(v3_neg(v), n), SCALE as int);
    let perp = v3_scale(v3_add(v, v3_scale(n, cos_theta)), ratio);
    let parallel = v3_scale(
        n,
        fx_neg_spec(fx_sqrt_spec(crate::fixed::fx_abs_spec(
            fx_sub_spec(SCALE as int, v3_length_squared(perp)),
        ))),
    );
    v3_add(perp, parallel)
}

/// Dividing a component by a computed length of at least one keeps the
/// quotient within twice the unit, provided the component is below twice the
/// length.
proof fn lemma_normalize_component(x: int, len: int)
    requires
        1 <= len,
        -(2 * len) < x < 2 * len,
    ensures
        -(2 * SCALE as int) <= crate::fixed::fx_div_spec(x, len) <= 2 * SCALE as int,
{
    if x >= 0 {
        assert(x * 65536 < (2 * 65536) * len) by (nonlinear_arith)
            requires x < 2 * len, len >= 1,
        ;
        assert(0 <= (x * 65536) / len && (x * 65536) / len < 2 * 65536) by (nonlinear_arith)
            requires 0 <= x, x * 65536 < (2 * 65536) * len, len >= 1,
        ;
    } else {
        assert((-x) * 65536 < (2 * 65536) * len) by (nonlinear_arith)
            requires -x < 2 * len, len >= 1,
        ;
        assert(0 <= ((-x) * 65536) / len && ((-x) * 65536) / len < 2 * 65536)
            by (nonlinear_arith)
            requires 0 <= -x, (-x) * 65536 < (2 * 65536) * len, len >= 1,
        ;
        assert(tdiv(x * 65536, len) == -(((-x) * 65536) / len)) by {
            assert((-x) * 65536 == -(x * 65536));
        }
    }
}

/// One squared component of an in-cube sample, related to its fixed-point
/// square: tq·S <= x² < (tq+1)·S with tq in [0, S].
proof fn lemma_square_term(x: int)
    requires
        -(SCALE as int) <= x < SCALE as int,
    ensures
        0 <= fx_mul_spec(x, x) <= SCALE as int,
        fx_mul_spec(x, x) * (SCALE as int) <= x * x,
        x * x < (fx_mul_spec(x, x) + 1) * (SCALE as int),
{
    assert(0 <= x * x && x * x <= 65536 * 65536) by (nonlinear_arith)
        requires -65536 <= x, x < 65536,
    ;
    vstd::arithmetic::div_mod::lemma_fundamental_div_mod(x * x, 65536);
    assert(tdiv(x * x, 65536) == (x * x) / 65536);
}

/// The components of a normalized in-sphere sample lie within [-2, 2]: the
/// sample's squared length couples each component to the computed length.
proof fn lemma_normalize_in_sphere_bounds(p: V3)
    requires
        0 < v3_length_squared(p) < SCALE as int,
        -(SCALE as int) <= p.x < SCALE as int,
        -(SCALE as int) <= p.y < SCALE as int,
        -(SCALE as int) <= p.z < SCALE as int,
    ensures
        -(2 * SCALE as int) <= v3_normalize(p).x <= 2 * SCALE as int,
        -(2 * SCALE as int) <= v3_normalize(p).y <= 2 * SCALE as int,
        -(2 * SCALE as int) <= v3_normalize(p).z <= 2 * SCALE as int,
{
    let ls = v3_length_squared(p);
    let tx = fx_mul_spec(p.x, p.x);
    let ty = fx_mul_spec(p.y, p.y);
    let tz = fx_mul_spec(p.z, p.z);
    lemma_square_term(p.x);
    lemma_square_term(p.y);
    lemma_square_term(p.z);
    assert(ls == tx + ty + tz);
    crate::fixed::lemma_sqrt_floor_exists(ls * (SCALE as int));
    let root = crate::fixed::sqrt_floor(ls * (SCALE as int));
    assert(v3_length(p) == root);
    assert(0 <= root && root * root <= ls * (SCALE as int) && ls * (SCALE as int) < (root + 1) * (
    root + 1));
    assert(65536 <= ls * 65536) by (nonlinear_arith)
        requires ls >= 1,
    ;
    assert(256 <= root) by (nonlinear_arith)
        requires
            0 <= root,
            65536 <= ls * 65536,
            ls * 65536 < (root + 1) * (root + 1),
    ;
    lemma_component_below_twice_len(p.x, tx, ls, root);
    lemma_component_below_twice_len(p.y, ty, ls, root);
    lemma_component_below_twice_len(p.z, tz, ls, root);
    lemma_normalize_component(p.x, root);
    lemma_normalize_component(p.y, root);
    lemma_normalize_component(p.z, root);
}

/// A component whose fixed-point square is part of a squared length below
/// one stays below twice the floor square root of that length.
proof fn lemma_component_below_twice_len(x: int, tq: int, ls: int, root: int)
    requires
        1 <= ls,
        0 <= tq <= ls,
        x * x < (tq + 1) * (SCALE as int),
        256 <= root,
        ls * (SCALE as int) < (root + 1) * (root + 1),
    ensures
        -(2 * root) < x < 2 * root,
{
    assert(2 * ((root + 1) * (root + 1)) <= 4 * (root * root)) by (nonlinear_arith)
        requires 256 <= root,
    ;
    assert(x * x < 4 * (root * root)) by (nonlinear_arith)
        requires
            x * x < (tq + 1) * 65536,
            tq <= ls,
            1 <= ls,
            ls * 65536 < (root + 1) * (root + 1),
            2 * ((root + 1) * (root + 1)) <= 4 * (root * root),
    ;
    assert(-(2 * root) < x < 2 * root) by (nonlinear_arith)
        requires x * x < 4 * (root * root), root >= 1,
    ;
}

pub open spec fn v3_component(a: V3, axis: Axis) -> int {
    match axis {
        Axis::X => a.x,
        Axis::Y => a.y,
        Axis::Z => a.z,
    }
}

impl Vec3 {
    pub fn new(x: i64, y: i64, z: i64) -> (r: Vec3)
        ensures
            r@ == (V3 { x: x as int, y: y as int, z: z as int }),
    {
        Vec3 { x, y, z }
    }

    pub fn zero() -> (r: Vec3)
        ensures
            r@ == (V3 { x: 0, y: 0, z: 0 }),
    {
        Vec3 { x: 0, y: 0, z: 0 }
    }

    pub fn one() -> (r: Vec3)
        ensures
            r@ == (V3 { x: SCALE as int, y: SCALE as int, z: SCALE as int }),
    {
        Vec3 { x: SCALE, y: SCALE, z: SCALE }
    }

    pub fn right() -> (r: Vec3)
        ensures
            r@ == (V3 { x: SCALE as int, y: 0, z: 0 }),
    {
        Vec3 { x: SCALE, y: 0, z: 0 }
    }

    pub fn up() -> (r: Vec3)
        ensures
            r@ == (V3 { x: 0, y: SCALE as int, z: 0 }),
    {
        Vec3 { x: 0, y: SCALE, z: 0 }
    }

    pub fn forward() -> (r: Vec3)
        ensures
            r@ == (V3 { x: 0, y: 0, z: SCALE as int }),
    {
        Vec3 { x: 0, y: 0, z: SCALE }
    }

    pub fn add(self, other: Vec3) -> (r: Vec3)
        ensures
            r@ == v3_add(self@, other@),
    {
        Vec3 { x: fx_add(self.x, other.x), y: fx_add(self.y, other.y), z: fx_add(self.z, other.z) }
    }

    pub fn sub(self, other: Vec3) -> (r: Vec3)
        ensures
            r@ == v3_sub(self@, other@),
    {
        Vec3 { x: fx_sub(self.x, other.x), y: fx_sub(self.y, other.y), z: fx_sub(self.z, other.z) }
    }

    pub fn neg(self) -> (r: Vec3)
        ensures
            r@ == v3_neg(self@),
    {
        Vec3 { x: fx_neg(self.x), y: fx_neg(self.y), z: fx_neg(self.z) }
    }

    pub fn mul(self, other: Vec3) -> (r: Vec3)
        ensures
            r@ == v3_mul(self@, other@),
    {
        Vec3 { x: fx_mul(self.x, other.x), y: fx_mul(self.y, other.y), z: fx_mul(self.z, other.z) }
    }

    pub fn scale(self, k: i64) -> (r: Vec3)
        ensures
            r@ == v3_scale(self@, k as int),
    {
        Vec3 { x: fx_mul(self.x, k), y: fx_mul(self.y, k), z: fx_mul(self.z, k) }
    }

    pub fn div(self, k: i64) -> (r: Vec3)
        requires
            k != 0,
        ensures
            r@ == v3_div(self@, k as int),
    {
        Vec3 { x: fx_div(self.x, k), y: fx_div(self.y, k), z: fx_div(self.z, k) }
    }

    pub fn dot(&self, other: Vec3) -> (r: i64)
        ensures
            r as int == v3_dot(self@, other@),
    {
        fx_add(fx_add(fx_mul(self.x, other.x), fx_mul(self.y, other.y)), fx_mul(self.z, other.z))
    }

    pub fn cross(&self, other: Vec3) -> (r: Vec3)
        ensures
            r@ == v3_cross(self@, other@),
    {
        Vec3 {
            x: fx_sub(fx_mul(self.y, other.z), fx_mul(self.z, other.y)),
            y: fx_sub(fx_mul(self.z, other.x), fx_mul(self.x, other.z)),
            z: fx_sub(fx_mul(self.x, other.y), fx_mul(self.y, other.x)),
        }
    }

    pub fn length_squared(&self) -> (r: i64)
        ensures
            r as int == v3_length_squared(self@),
    {
        self.dot(*self)
    }

    pub fn length(&self) -> (r: i64)
        ensures
            r as int == v3_length(self@),
            r >= 0,
    {
        fx_sqrt(self.length_squared())
    }

    pub fn normalize(&self) -> (r: Vec3)
        requires
            v3_length(self@) > 0,
        ensures
            r@ == v3_normalize(self@),
    {
        let length = self.length();
        self.div(length)
    }

    pub fn near_zero(&self) -> (r: bool)
        ensures
            r == v3_near_zero(self@),
    {
        self.x == 0 && self.y == 0 && self.z == 0
    }

    pub fn reflect(&self, axis: Vec3) -> (r: Vec3)
        ensures
            r@ == v3_reflect(self@, axis@),
    {
        let d = self.dot(axis);
        self.sub(axis.scale(fx_add(d, d)))
    }

    pub fn refract(&self, normal: Vec3, ratio: i64) -> (r: Vec3)
        ensures
            r@ == v3_refract(self@, normal@, ratio as int),
    {
        let cos_theta = crate::fixed::fx_min(self.neg().dot(normal), SCALE);
        let perp = self.add(normal.scale(cos_theta)).scale(ratio);
        let parallel = normal.scale(
            fx_neg(fx_sqrt(crate::fixed::fx_abs(fx_sub(SCALE, perp.length_squared())))),
        );
        perp.add(parallel)
    }

    pub fn component(&self, axis: Axis) -> (r: i64)
        ensures
            r as int == v3_component(self@, axis),
    {
        match axis {
            Axis::X => self.x,
            Axis::Y => self.y,
            Axis::Z => self.z,
        }
    }

    /// All three components set to the same value.
    pub fn from(x: i64) -> (r: Vec3)
        ensures
            r@ == (V3 { x: x as int, y: x as int, z: x as int }),
    {
        Vec3 { x, y: x, z: x }
    }

    pub fn x(&self) -> (r: i64)
        ensures
            r as int == self@.x,
    {
        self.x
    }

    pub fn y(&self) -> (r: i64)
        ensures
            r as int == self@.y,
    {
        self.y
    }

    pub fn z(&self) -> (r: i64)
        ensures
            r as int == self@.z,
    {
        self.z
    }

    /// The red channel of a color.
    pub fn r(&self) -> (r: i64)
        ensures
            r as int == self@.x,
    {
        self.x
    }

    /// The green channel of a color.
    pub fn g(&self) -> (r: i64)
        ensures
            r as int == self@.y,
    {
        self.y
    }

    /// The blue channel of a color.
    pub fn b(&self) -> (r: i64)
        ensures
            r as int == self@.z,
    {
        self.z
    }

    /// Each component drawn uniformly from [min, max).
    pub fn random(min: i64, max: i64) -> (r: Vec3)
        requires
            min < max,
            max - min <= FX_MAX as int,
        ensures
            min <= r@.x < max,
            min <= r@.y < max,
            min <= r@.z < max,
    {
        Vec3 { x: random_range(min, max), y: random_range(min, max), z: random_range(min, max) }
    }

    /// Rejection-samples the cube [-1, 1)³ until the squared length is
    /// positive and below one.
    pub fn random_in_unit_sphere() -> (r: Vec3)
        ensures
            0 < v3_length_squared(r@) < SCALE as int,
            -(SCALE as int) <= r@.x < SCALE as int,
            -(SCALE as int) <= r@.y < SCALE as int,
            -(SCALE as int) <= r@.z < SCALE as int,
    {
        // A run of 64 rejections has no realistic chance of happening; the
        // fallback keeps the sampler total without touching the distribution.
        let mut tries: u32 = 0;
        while tries < 64
            invariant
                true,
            decreases 64 - tries,
        {
            let p = Vec3::random(-SCALE, SCALE);
            let ls = p.length_squared();
            if 0 < ls && ls < SCALE {
                return p;
            }
            tries = tries + 1;
        }
        let f = Vec3 { x: 32768, y: 0, z: 0 };
        assert(v3_length_squared(f@) == 16384);
        f
    }

    pub fn random_unit_vector() -> (r: Vec3)
        ensures
            exists|v: V3| 0 < v3_length_squared(v) < SCALE as int && r@ == v3_normalize(v),
            -(2 * SCALE as int) <= r@.x <= 2 * SCALE as int,
            -(2 * SCALE as int) <= r@.y <= 2 * SCALE as int,
            -(2 * SCALE as int) <= r@.z <= 2 * SCALE as int,
    {
        let p = Vec3::random_in_unit_sphere();
        proof {
            crate::fixed::lemma_sqrt_floor_positive(v3_length_squared(p@));
        }
        let r = p.normalize();
        proof {
            let ghost pv = p@;
            assert(0 < v3_length_squared(pv) < SCALE as int && r@ == v3_normalize(pv));
            lemma_normalize_in_sphere_bounds(pv);
        }
        r
    }


    /// Rejection-samples {(x, y, 0) : x, y in [-1, 1)} until the squared
    /// length is below one.
    pub fn random_in_unit_disk() -> (r: Vec3)
        ensures
            v3_length_squared(r@) < SCALE as int,
            r@.z == 0,
            -(SCALE as int) <= r@.x < SCALE as int,
            -(SCALE as int) <= r@.y < SCALE as int,
    {
        // Bounded rejection sampling, as for the unit sphere.
        let mut tries: u32 = 0;
        while tries < 64
            invariant
                true,
            decreases 64 - tries,
        {
            let p = Vec3 { x: random_range(-SCALE, SCALE), y: random_range(-SCALE, SCALE), z: 0 };
            let ls = p.length_squared();
            if ls < SCALE {
                return p;
            }
            tries = tries + 1;
        }
        Vec3 { x: 0, y: 0, z: 0 }
    }
}

} // verus!
