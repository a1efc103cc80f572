//! The motion-blurred sphere: its center slides linearly between two
//! endpoints over its own time interval.

use vstd::prelude::*;
use crate::aabb::{aabb_surround_spec, Aabb, AabbV};
use crate::fixed::{
    fx_add, fx_add_spec, fx_div, fx_div_spec, fx_mul, fx_mul_spec, fx_neg, fx_neg_spec,
    fx_sqrt, fx_sqrt_spec, fx_sub, fx_sub_spec, SCALE,
};
use crate::hittable::{hit_data_new, Hittable, HitData, HitRecord};
use crate::materials::Material;
use crate::ray::{ray_at_spec, Ray, RayV};
use crate::vec3::{v3_add, v3_div, v3_dot, v3_length_squared, v3_scale, v3_sub, Vec3, V3};

verus! {

pub struct MovingSphere {
    pub center0: Vec3,
    pub center1: Vec3,
    pub time0: i64,
    pub time1: i64,
    pub radius: i64,
    pub material: Material,
}

/// The center at a shutter time, interpolated linearly between the
/// endpoints.
pub open spec fn moving_center_spec(s: MovingSphere, time: int) -> V3 {
    let alpha = fx_div_spec(fx_sub_spec(time, s.time0 as int), fx_sub_spec(s.time1 as int,
        s.time0 as int));
    v3_add(s.center0@, v3_scale(v3_sub(s.center1@, s.center0@), alpha))
}

/// Intersection against the sphere centered where the ray's time puts it.
pub open spec fn moving_hit_spec(s: MovingSphere, r: RayV, t_min: int, t_max: int)
    -> Option<HitData> {
    let center = moving_center_spec(s, r.time);
    let oc = v3_sub(r.origin, center);
    let b = v3_dot(oc, r.direction);
    let c = fx_sub_spec(v3_length_squared(oc), fx_mul_spec(s.radius as int, s.radius as int));
    let disc = fx_sub_spec(fx_mul_spec(b, b), c);
    if disc < 0 {
        None
    } else {
        let sq = fx_sqrt_spec(disc);
        let root1 = fx_sub_spec(fx_neg_spec(b), sq);
        let root2 = fx_add_spec(fx_neg_spec(b), sq);
        let root = if root1 < t_min || t_max < root1 {
            root2
        } else {
            root1
        };
        if root < t_min || t_max < root {
            None
        } else {
            let p = ray_at_spec(r, root);
            let outward = v3_div(v3_sub(p, center), s.radius as int);
            Some(hit_data_new(p, outward, root, 0, 0, r.direction, s.material))
        }
    }
}

impl MovingSphere {
    pub fn new(
        center0: Vec3,
        center1: Vec3,
        time0: i64,
        time1: i64,
        radius: i64,
        material: Material,
    ) -> (r: MovingSphere)
        ensures
            r.center0 == center0,
            r.center1 == center1,
            r.time0 == time0,
            r.time1 == time1,
            r.radius == radius,
            r.material == material,
    {
        MovingSphere { center0, center1, time0, time1, radius, material }
    }

    pub fn center(&self, time: i64) -> (r: Vec3)
        requires
            self.time0 != self.time1,
            self.time1 - self.time0 <= crate::fixed::FX_MAX as int,
            self.time0 - self.time1 <= crate::fixed::FX_MAX as int,
        ensures
            r@ == moving_center_spec(*self, time as int),
    {
        let alpha = fx_div(fx_sub(time, self.time0), fx_sub(self.time1, self.time0));
        self.center0.add(self.center1.sub(self.center0).scale(alpha))
    }
}

impl Hittable for MovingSphere {
    open spec fn wf(&self) -> bool {
        &&& self.radius > 0
        &&& crate::materials::material_wf(self.material)
        &&& self.time0 != self.time1
        &&& self.time1 - self.time0 <= crate::fixed::FX_MAX as int
        &&& self.time0 - self.time1 <= crate::fixed::FX_MAX as int
    }

    open spec fn hit_spec(&self, r: RayV, t_min: int, t_max: int) -> Option<HitData> {
        moving_hit_spec(*self, r, t_min, t_max)
    }

    /// The box of the swept sphere over the queried interval: the union of
    /// the boxes at its two ends.
    open spec fn box_spec(&self, time0: int, time1: int) -> Option<AabbV> {
        let rv = V3 { x: self.radius as int, y: self.radius as int, z: self.radius as int };
        let c0 = moving_center_spec(*self, time0);
        let c1 = moving_center_spec(*self, time1);
        Some(aabb_surround_spec(
            AabbV { minimum: v3_sub(c0, rv), maximum: v3_add(c0, rv) },
            AabbV { minimum: v3_sub(c1, rv), maximum: v3_add(c1, rv) },
        ))
    }

    fn hit(&self, ray: &Ray, t_min: i64, t_max: i64) -> (r: Option<HitRecord<'_>>) {
        let center = self.center(ray.time);
        let oc = ray.origin.sub(center);
        let b = oc.dot(ray.direction);
        let c = fx_sub(oc.length_squared(), fx_mul(self.radius, self.radius));
        let disc = fx_sub(fx_mul(b, b), c);
        if disc < 0 {
            return None;
        }
        let sq = fx_sqrt(disc);
        let root1 = fx_sub(fx_neg(b), sq);
        let mut root = root1;
        if root < t_min || t_max < root {
            root = fx_add(fx_neg(b), sq);
        }
        if root < t_min || t_max < root {
            return None;
        }
        let p = ray.at(root);
        let outward = p.sub(center).div(self.radius);
        Some(HitRecord::new(p, outward, root, 0, 0, ray, &self.material))
    }

    fn bounding_box(&self, time0: i64, time1: i64) -> (r: Option<Aabb>) {
        let rv = Vec3 { x: self.radius, y: self.radius, z: self.radius };
        let c0 = self.center(time0);
        let c1 = self.center(time1);
        let box0 = Aabb { minimum: c0.sub(rv), maximum: c0.add(rv) };
        let box1 = Aabb { minimum: c1.sub(rv), maximum: c1.add(rv) };
        Some(box0.surrounding_box(&box1))
    }
}

} // verus!
