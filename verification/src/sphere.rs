//! The static sphere primitive.

use vstd::prelude::*;
use crate::aabb::{Aabb, AabbV};
use crate::fixed::{
    fx_add, fx_add_spec, fx_mul, fx_mul_spec, fx_neg, fx_neg_spec, fx_sqrt, fx_sqrt_spec,
    fx_sub, fx_sub_spec, SCALE,
};
use crate::hittable::{hit_data_new, Hittable, HitData, HitRecord};
use crate::materials::Material;
use crate::ray::{ray_at_spec, Ray, RayV};
use crate::trig::{angle_frac, angle_frac_spec};
use crate::vec3::{v3_div, v3_dot, v3_length_squared, v3_sub, Vec3, V3};

verus! {

pub struct Sphere {
    pub center: Vec3,
    pub radius: i64,
    pub material: Material,
}

/// Texture coordinates of a unit outward normal: the polar angle from the
/// south pole over π gives v, the azimuth over 2π (shifted by half a turn)
/// gives u.
pub open spec fn sphere_uv_spec(p: V3) -> (int, int) {
    let w = fx_neg_spec(p.y);
    let s = fx_sqrt_spec(fx_sub_spec(SCALE as int, fx_mul_spec(p.y, p.y)));
    let vhalf = angle_frac_spec(s, w);
    let a = angle_frac_spec(fx_neg_spec(p.z), p.x);
    let u = if a >= 32768 {
        a - 32768
    } else {
        a + 32768
    };
    (u, 2 * vhalf)
}

/// The quadratic-formula intersection: with a unit ray direction the
/// parameter solves t² + 2bt + c = 0; the nearer admissible root wins.
pub open spec fn sphere_hit_spec(
    center: V3,
    radius: int,
    material: Material,
    r: RayV,
    t_min: int,
    t_max: int,
) -> Option<HitData> {
    let oc = v3_sub(r.origin, center);
    let b = v3_dot(oc, r.direction);
    let c = fx_sub_spec(v3_length_squared(oc), fx_mul_spec(radius, radius));
    let disc = fx_sub_spec(fx_mul_spec(b, b), c);
    if disc < 0 {
        None
    } else {
        let sq = fx_sqrt_spec(disc);
        let root1 = fx_sub_spec(fx_neg_spec(b), sq);
        let root2 = fx_add_spec(fx_neg_spec(b), sq);
        let root = if root1 < t_min || t_max < root1 {
            root2
        } else {
            root1
        };
        if root < t_min || t_max < root {
            None
        } else {
            let p = ray_at_spec(r, root);
            let outward = v3_div(v3_sub(p, center), radius);
            let uv = sphere_uv_spec(outward);
            Some(hit_data_new(p, outward, root, uv.0, uv.1, r.direction, material))
        }
    }
}

impl Sphere {
    pub fn new(center: Vec3, radius: i64, material: Material) -> (r: Sphere)
        ensures
            r.center == center,
            r.radius == radius,
            r.material == material,
    {
        Sphere { center, radius, material }
    }

    pub fn get_uv(p: Vec3) -> (r: (i64, i64))
        ensures
            (r.0 as int, r.1 as int) == sphere_uv_spec(p@),
            0 <= r.0 < SCALE as int,
            0 <= r.1 <= SCALE as int,
    {
        let w = fx_neg(p.y);
        let s = fx_sqrt(fx_sub(SCALE, fx_mul(p.y, p.y)));
        let vhalf = angle_frac(s, w);
        let a = angle_frac(fx_neg(p.z), p.x);
        let u = if a >= 32768 {
            a - 32768
        } else {
            a + 32768
        };
        proof {
            assert(angle_frac_spec(s as int, w as int) <= 32768) by {
                crate::trig::lemma_angle_frac_upper_half(s as int, w as int);
            }
        }
        (u, 2 * vhalf)
    }
}


/// Sphere normal law: a reported hit lies at the ray parameter it carries,
/// its stored normal is the outward normal (p - c)/r turned against the
/// incident direction, and the front-face flag says which way it went.
/// (That |p - c| recovers r exactly is a property of real arithmetic; the
/// fixed-point parameter is the rounded root, so the distance holds only to
/// the rounding of the computation.)
pub proof fn lemma_sphere_hit_normal(s: Sphere, r: RayV, t_min: int, t_max: int)
    requires
        s.hit_spec(r, t_min, t_max) is Some,
    ensures
        ({
            let h = s.hit_spec(r, t_min, t_max).unwrap();
            let outward = v3_div(v3_sub(h.p, s.center@), s.radius as int);
            &&& h.p == ray_at_spec(r, h.t)
            &&& t_min <= h.t <= t_max
            &&& h.front_face == (v3_dot(r.direction, outward) < 0)
            &&& h.normal == if h.front_face {
                outward
            } else {
                crate::vec3::v3_neg(outward)
            }
        }),
{
}

impl Hittable for Sphere {
    open spec fn wf(&self) -> bool {
        self.radius > 0 && crate::materials::material_wf(self.material)
    }

    open spec fn hit_spec(&self, r: RayV, t_min: int, t_max: int) -> Option<HitData> {
        sphere_hit_spec(self.center@, self.radius as int, self.material, r, t_min, t_max)
    }

    open spec fn box_spec(&self, time0: int, time1: int) -> Option<AabbV> {
        Some(AabbV {
            minimum: v3_sub(self.center@, V3 { x: self.radius as int, y: self.radius as int,
                z: self.radius as int }),
            maximum: crate::vec3::v3_add(self.center@, V3 { x: self.radius as int,
                y: self.radius as int, z: self.radius as int }),
        })
    }

    fn hit(&self, ray: &Ray, t_min: i64, t_max: i64) -> (r: Option<HitRecord<'_>>) {
        let oc = ray.origin.sub(self.center);
        let b = oc.dot(ray.direction);
        let c = fx_sub(oc.length_squared(), fx_mul(self.radius, self.radius));
        let disc = fx_sub(fx_mul(b, b), c);
        if disc < 0 {
            return None;
        }
        let sq = fx_sqrt(disc);
        let root1 = fx_sub(fx_neg(b), sq);
        let mut root = root1;
        if root < t_min || t_max < root {
            root = fx_add(fx_neg(b), sq);
        }
        if root < t_min || t_max < root {
            return None;
        }
        let p = ray.at(root);
        let outward = p.sub(self.center).div(self.radius);
        let uv = Sphere::get_uv(outward);
        Some(HitRecord::new(p, outward, root, uv.0, uv.1, ray, &self.material))
    }

    fn bounding_box(&self, time0: i64, time1: i64) -> (r: Option<Aabb>) {
        let rv = Vec3 { x: self.radius, y: self.radius, z: self.radius };
        Some(Aabb { minimum: self.center.sub(rv), maximum: self.center.add(rv) })
    }
}

} // verus!
