//! Rays: origin, normalized direction, shutter time, and the precomputed
//! reciprocal direction and sign bits that the AABB slab test reads.
//!
//! The reciprocal and the sign bits are derived from the normalized direction
//! (deriving them from the raw input would leave them inconsistent with the
//! stored direction).

use vstd::prelude::*;
use crate::fixed::{fx_div, fx_div_spec, FX_MAX, SCALE};
use crate::vec3::{v3_add, v3_length, v3_normalize, v3_scale, Vec3, V3};

verus! {

/// Reciprocal of one direction component. A zero component gets the largest
/// representable value, which the saturating slab arithmetic treats the way a
/// floating-point implementation treats a signed infinity.
pub open spec fn inv_comp_spec(d: int) -> int {
    if d == 0 {
        FX_MAX as int
    } else {
        fx_div_spec(SCALE as int, d)
    }
}

/// Mathematical view of a ray.
pub ghost struct RayV {
    pub origin: V3,
    pub direction: V3,
    pub time: int,
    pub inv_direction: V3,
    pub sign_x: bool,
    pub sign_y: bool,
    pub sign_z: bool,
}

pub struct Ray {
    pub origin: Vec3,
    pub direction: Vec3,
    pub time: i64,
    pub inv_direction: Vec3,
    pub sign_x: bool,
    pub sign_y: bool,
    pub sign_z: bool,
}

impl View for Ray {
    type V = RayV;

    open spec fn view(&self) -> RayV {
        RayV {
            origin: self.origin@,
            direction: self.direction@,
            time: self.time as int,
            inv_direction: self.inv_direction@,
            sign_x: self.sign_x,
            sign_y: self.sign_y,
            sign_z: self.sign_z,
        }
    }
}

/// The cached reciprocal and sign bits agree with the stored direction.
pub open spec fn ray_derived_ok(r: RayV) -> bool {
    &&& r.inv_direction.x == inv_comp_spec(r.direction.x)
    &&& r.inv_direction.y == inv_comp_spec(r.direction.y)
    &&& r.inv_direction.z == inv_comp_spec(r.direction.z)
    &&& r.sign_x == (r.direction.x < 0)
    &&& r.sign_y == (r.direction.y < 0)
    &&& r.sign_z == (r.direction.z < 0)
}

/// The point `origin + t * direction`.
pub open spec fn ray_at_spec(r: RayV, t: int) -> V3 {
    v3_add(r.origin, v3_scale(r.direction, t))
}

fn inv_comp(d: i64) -> (r: i64)
    ensures
        r as int == inv_comp_spec(d as int),
{
    if d == 0 {
        FX_MAX
    } else {
        fx_div(SCALE, d)
    }
}

impl Ray {
    pub fn new(origin: Vec3, direction: Vec3, time: i64) -> (r: Ray)
        requires
            v3_length(direction@) > 0,
        ensures
            r@.origin == origin@,
            r@.direction == v3_normalize(direction@),
            r@.time == time as int,
            ray_derived_ok(r@),
    {
        let d = direction.normalize();
        Ray {
            origin,
            direction: d,
            time,
            inv_direction: Vec3 { x: inv_comp(d.x), y: inv_comp(d.y), z: inv_comp(d.z) },
            sign_x: d.x < 0,
            sign_y: d.y < 0,
            sign_z: d.z < 0,
        }
    }

    pub fn origin(&self) -> (r: Vec3)
        ensures
            r == self.origin,
    {
        self.origin
    }

    pub fn direction(&self) -> (r: Vec3)
        ensures
            r == self.direction,
    {
        self.direction
    }

    pub fn at(&self, t: i64) -> (p: Vec3)
        ensures
            p@ == ray_at_spec(self@, t as int),
    {
        self.origin.add(self.direction.scale(t))
    }
}

} // verus!
