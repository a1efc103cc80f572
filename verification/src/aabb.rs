//! Axis-aligned bounding boxes and the slab-test ray intersection.

use vstd::prelude::*;
use crate::fixed::{
    fx_max, fx_max_spec, fx_min, fx_min_spec, fx_mul, fx_mul_spec, fx_neg_spec, fx_sub,
    fx_sub_spec, lemma_fx_mul_neg_both, lemma_sat_neg, lemma_tdiv_neg_divisor, sat, tdiv,
    FX_MAX, SCALE,
};
use crate::ray::{inv_comp_spec, ray_derived_ok, Ray, RayV};
use crate::vec3::{Vec3, V3};

verus! {

/// Mathematical view of a box: the two corners, minimum first.
pub ghost struct AabbV {
    pub minimum: V3,
    pub maximum: V3,
}

#[derive(Clone, Copy, PartialEq, Eq, Structural, Debug)]
pub struct Aabb {
    pub minimum: Vec3,
    pub maximum: Vec3,
}

impl View for Aabb {
    type V = AabbV;

    open spec fn view(&self) -> AabbV {
        AabbV { minimum: self.minimum@, maximum: self.maximum@ }
    }
}

/// The corners are ordered component-wise.
pub open spec fn aabb_wf(b: AabbV) -> bool {
    &&& b.minimum.x <= b.maximum.x
    &&& b.minimum.y <= b.maximum.y
    &&& b.minimum.z <= b.maximum.z
}

/// `outer` encloses `inner` component-wise.
pub open spec fn aabb_contains_box(outer: AabbV, inner: AabbV) -> bool {
    &&& outer.minimum.x <= inner.minimum.x
    &&& outer.minimum.y <= inner.minimum.y
    &&& outer.minimum.z <= inner.minimum.z
    &&& inner.maximum.x <= outer.maximum.x
    &&& inner.maximum.y <= outer.maximum.y
    &&& inner.maximum.z <= outer.maximum.z
}

/// Entry of the slab interval on one axis: distance to the near corner,
/// scaled by the reciprocal direction; `s` picks the near corner.
pub open spec fn axis_near(lo: int, hi: int, o: int, inv: int, s: bool) -> int {
    fx_mul_spec(fx_sub_spec(if s { hi } else { lo }, o), inv)
}

/// Exit of the slab interval on one axis.
pub open spec fn axis_far(lo: int, hi: int, o: int, inv: int, s: bool) -> int {
    fx_mul_spec(fx_sub_spec(if s { lo } else { hi }, o), inv)
}

/// The slab test: fold the per-axis intervals together, rejecting as soon as
/// the running interval inverts, and report overlap with (t_min, t_max).
pub open spec fn aabb_hit_spec(b: AabbV, r: RayV, t_min: int, t_max: int) -> bool {
    let tx0 = axis_near(b.minimum.x, b.maximum.x, r.origin.x, r.inv_direction.x, r.sign_x);
    let tx1 = axis_far(b.minimum.x, b.maximum.x, r.origin.x, r.inv_direction.x, r.sign_x);
    let ty0 = axis_near(b.minimum.y, b.maximum.y, r.origin.y, r.inv_direction.y, r.sign_y);
    let ty1 = axis_far(b.minimum.y, b.maximum.y, r.origin.y, r.inv_direction.y, r.sign_y);
    if tx0 > ty1 || ty0 > tx1 {
        false
    } else {
        let t0 = fx_max_spec(tx0, ty0);
        let t1 = fx_min_spec(tx1, ty1);
        let tz0 = axis_near(b.minimum.z, b.maximum.z, r.origin.z, r.inv_direction.z, r.sign_z);
        let tz1 = axis_far(b.minimum.z, b.maximum.z, r.origin.z, r.inv_direction.z, r.sign_z);
        if t0 > tz1 || tz0 > t1 {
            false
        } else {
            fx_max_spec(t0, tz0) < t_max && fx_min_spec(t1, tz1) > t_min
        }
    }
}

/// Union box: component-wise minimum and maximum of the corners.
pub open spec fn aabb_surround_spec(a: AabbV, b: AabbV) -> AabbV {
    AabbV {
        minimum: V3 {
            x: fx_min_spec(a.minimum.x, b.minimum.x),
            y: fx_min_spec(a.minimum.y, b.minimum.y),
            z: fx_min_spec(a.minimum.z, b.minimum.z),
        },
        maximum: V3 {
            x: fx_max_spec(a.maximum.x, b.maximum.x),
            y: fx_max_spec(a.maximum.y, b.maximum.y),
            z: fx_max_spec(a.maximum.z, b.maximum.z),
        },
    }
}

impl Aabb {
    pub fn new(minimum: Vec3, maximum: Vec3) -> (r: Aabb)
        ensures
            r@ == (AabbV { minimum: minimum@, maximum: maximum@ }),
    {
        Aabb { minimum, maximum }
    }

    /// Select a corner: `false` is the minimum, `true` the maximum.
    pub fn corner(&self, s: bool) -> (r: Vec3)
        ensures
            r@ == if s { self@.maximum } else { self@.minimum },
    {
        if s {
            self.maximum
        } else {
            self.minimum
        }
    }

    pub fn hit(&self, ray: &Ray, t_min: i64, t_max: i64) -> (r: bool)
        ensures
            r == aabb_hit_spec(self@, ray@, t_min as int, t_max as int),
    {
        let tx0 = fx_mul(fx_sub(self.corner(ray.sign_x).x, ray.origin.x), ray.inv_direction.x);
        let tx1 = fx_mul(fx_sub(self.corner(!ray.sign_x).x, ray.origin.x), ray.inv_direction.x);
        let ty0 = fx_mul(fx_sub(self.corner(ray.sign_y).y, ray.origin.y), ray.inv_direction.y);
        let ty1 = fx_mul(fx_sub(self.corner(!ray.sign_y).y, ray.origin.y), ray.inv_direction.y);
        if tx0 > ty1 || ty0 > tx1 {
            return false;
        }
        let t0 = fx_max(tx0, ty0);
        let t1 = fx_min(tx1, ty1);
        let tz0 = fx_mul(fx_sub(self.corner(ray.sign_z).z, ray.origin.z), ray.inv_direction.z);
        let tz1 = fx_mul(fx_sub(self.corner(!ray.sign_z).z, ray.origin.z), ray.inv_direction.z);
        if t0 > tz1 || tz0 > t1 {
            return false;
        }
        fx_max(t0, tz0) < t_max && fx_min(t1, tz1) > t_min
    }

    pub fn surrounding_box(&self, other: &Aabb) -> (r: Aabb)
        ensures
            r@ == aabb_surround_spec(self@, other@),
            aabb_contains_box(r@, self@),
            aabb_contains_box(r@, other@),
    {
        let small = Vec3 {
            x: fx_min(self.minimum.x, other.minimum.x),
            y: fx_min(self.minimum.y, other.minimum.y),
            z: fx_min(self.minimum.z, other.minimum.z),
        };
        let big = Vec3 {
            x: fx_max(self.maximum.x, other.maximum.x),
            y: fx_max(self.maximum.y, other.maximum.y),
            z: fx_max(self.maximum.z, other.maximum.z),
        };
        Aabb { minimum: small, maximum: big }
    }
}

/// Negate the chosen components of a vector.
pub open spec fn v3_negate_axes(v: V3, nx: bool, ny: bool, nz: bool) -> V3 {
    V3 {
        x: if nx { fx_neg_spec(v.x) } else { v.x },
        y: if ny { fx_neg_spec(v.y) } else { v.y },
        z: if nz { fx_neg_spec(v.z) } else { v.z },
    }
}

/// Negate the chosen axes of a box; a negated axis swaps its corners so the
/// minimum stays the minimum.
pub open spec fn aabb_negate_axes(b: AabbV, nx: bool, ny: bool, nz: bool) -> AabbV {
    AabbV {
        minimum: V3 {
            x: if nx { fx_neg_spec(b.maximum.x) } else { b.minimum.x },
            y: if ny { fx_neg_spec(b.maximum.y) } else { b.minimum.y },
            z: if nz { fx_neg_spec(b.maximum.z) } else { b.minimum.z },
        },
        maximum: V3 {
            x: if nx { fx_neg_spec(b.minimum.x) } else { b.maximum.x },
            y: if ny { fx_neg_spec(b.minimum.y) } else { b.maximum.y },
            z: if nz { fx_neg_spec(b.minimum.z) } else { b.maximum.z },
        },
    }
}

/// Negate the chosen axes of a ray, recomputing the reciprocal and sign bits
/// from the negated direction.
pub open spec fn ray_negate_axes(r: RayV, nx: bool, ny: bool, nz: bool) -> RayV {
    let d = v3_negate_axes(r.direction, nx, ny, nz);
    RayV {
        origin: v3_negate_axes(r.origin, nx, ny, nz),
        direction: d,
        time: r.time,
        inv_direction: V3 { x: inv_comp_spec(d.x), y: inv_comp_spec(d.y), z: inv_comp_spec(d.z) },
        sign_x: d.x < 0,
        sign_y: d.y < 0,
        sign_z: d.z < 0,
    }
}

pub open spec fn in_sym_range(x: int) -> bool {
    -(FX_MAX as int) <= x <= FX_MAX as int
}

pub open spec fn v3_in_sym_range(v: V3) -> bool {
    in_sym_range(v.x) && in_sym_range(v.y) && in_sym_range(v.z)
}

/// On one axis, negating slab bounds, origin and direction together leaves
/// both slab interval ends unchanged.
proof fn lemma_axis_negate(lo: int, hi: int, o: int, d: int)
    requires
        d != 0,
        in_sym_range(lo),
        in_sym_range(hi),
        in_sym_range(o),
        in_sym_range(d),
    ensures
        axis_near(-hi, -lo, -o, inv_comp_spec(-d), (-d) < 0) == axis_near(
            lo, hi, o, inv_comp_spec(d), d < 0),
        axis_far(-hi, -lo, -o, inv_comp_spec(-d), (-d) < 0) == axis_far(
            lo, hi, o, inv_comp_spec(d), d < 0),
{
    let inv = inv_comp_spec(d);
    assert(inv_comp_spec(-d) == -inv) by {
        lemma_tdiv_neg_divisor((SCALE as int) * (SCALE as int), d);
        lemma_sat_neg(tdiv((SCALE as int) * (SCALE as int), d));
    }
    let s = d < 0;
    let cn = if s { hi } else { lo };
    let cf = if s { lo } else { hi };
    // The negated ray selects the negated near corner.
    assert((if (-d) < 0 { -lo } else { -hi }) == -cn);
    assert((if (-d) < 0 { -hi } else { -lo }) == -cf);
    assert(fx_sub_spec(-cn, -o) == -fx_sub_spec(cn, o)) by {
        lemma_sat_neg(cn - o);
    }
    assert(fx_sub_spec(-cf, -o) == -fx_sub_spec(cf, o)) by {
        lemma_sat_neg(cf - o);
    }
    lemma_fx_mul_neg_both(fx_sub_spec(cn, o), inv);
    lemma_fx_mul_neg_both(fx_sub_spec(cf, o), inv);
}

/// AABB slab symmetry: the slab decision is invariant under independent
/// negation of axis components of the box and the ray, provided the ray's
/// reciprocal and sign bits are recomputed consistently and no direction
/// component is zero. (A zero component saturates to the same pseudo-infinity
/// for either orientation, which can flip a boundary case, exactly as the
/// 0 * infinity products of a floating-point slab test do.)
pub proof fn lemma_slab_symmetry(
    b: AabbV,
    r: RayV,
    t_min: int,
    t_max: int,
    nx: bool,
    ny: bool,
    nz: bool,
)
    requires
        ray_derived_ok(r),
        r.direction.x != 0,
        r.direction.y != 0,
        r.direction.z != 0,
        v3_in_sym_range(b.minimum),
        v3_in_sym_range(b.maximum),
        v3_in_sym_range(r.origin),
        v3_in_sym_range(r.direction),
    ensures
        aabb_hit_spec(aabb_negate_axes(b, nx, ny, nz), ray_negate_axes(r, nx, ny, nz), t_min,
            t_max) == aabb_hit_spec(b, r, t_min, t_max),
{
    let bn = aabb_negate_axes(b, nx, ny, nz);
    let rn = ray_negate_axes(r, nx, ny, nz);
    if nx {
        lemma_axis_negate(b.minimum.x, b.maximum.x, r.origin.x, r.direction.x);
    }
    if ny {
        lemma_axis_negate(b.minimum.y, b.maximum.y, r.origin.y, r.direction.y);
    }
    if nz {
        lemma_axis_negate(b.minimum.z, b.maximum.z, r.origin.z, r.direction.z);
    }
    assert(axis_near(bn.minimum.x, bn.maximum.x, rn.origin.x, rn.inv_direction.x, rn.sign_x)
        == axis_near(b.minimum.x, b.maximum.x, r.origin.x, r.inv_direction.x, r.sign_x));
    assert(axis_far(bn.minimum.x, bn.maximum.x, rn.origin.x, rn.inv_direction.x, rn.sign_x)
        == axis_far(b.minimum.x, b.maximum.x, r.origin.x, r.inv_direction.x, r.sign_x));
    assert(axis_near(bn.minimum.y, bn.maximum.y, rn.origin.y, rn.inv_direction.y, rn.sign_y)
        == axis_near(b.minimum.y, b.maximum.y, r.origin.y, r.inv_direction.y, r.sign_y));
    assert(axis_far(bn.minimum.y, bn.maximum.y, rn.origin.y, rn.inv_direction.y, rn.sign_y)
        == axis_far(b.minimum.y, b.maximum.y, r.origin.y, r.inv_direction.y, r.sign_y));
    assert(axis_near(bn.minimum.z, bn.maximum.z, rn.origin.z, rn.inv_direction.z, rn.sign_z)
        == axis_near(b.minimum.z, b.maximum.z, r.origin.z, r.inv_direction.z, r.sign_z));
    assert(axis_far(bn.minimum.z, bn.maximum.z, rn.origin.z, rn.inv_direction.z, rn.sign_z)
        == axis_far(b.minimum.z, b.maximum.z, r.origin.z, r.inv_direction.z, r.sign_z));
}

} // verus!
