//! The sampled thin-lens camera with a motion-blur shutter.

use vstd::prelude::*;
use crate::fixed::{
    fx_add, fx_add_spec, fx_div, fx_div_spec, fx_mul, fx_mul_spec, FX_MAX, SCALE,
};
use crate::ray::{ray_derived_ok, Ray, RayV};
use crate::rng::random_range;
use crate::trig::{fx_cos, fx_cos_spec, fx_sin, fx_sin_spec, PI_FX};
use crate::vec3::{
    v3_add, v3_cross, v3_length, v3_normalize, v3_scale, v3_sub, Vec3, V3,
};

verus! {

/// Mathematical view of a camera.
pub ghost struct CameraV {
    pub origin: V3,
    pub lower_left_corner: V3,
    pub horizontal: V3,
    pub vertical: V3,
    pub u: V3,
    pub v: V3,
    pub lens_radius: int,
    pub time0: int,
    pub time1: int,
}

pub struct Camera {
    pub origin: Vec3,
    pub lower_left_corner: Vec3,
    pub horizontal: Vec3,
    pub vertical: Vec3,
    pub u: Vec3,
    pub v: Vec3,
    pub lens_radius: i64,
    pub time0: i64,
    pub time1: i64,
}

impl View for Camera {
    type V = CameraV;

    open spec fn view(&self) -> CameraV {
        CameraV {
            origin: self.origin@,
            lower_left_corner: self.lower_left_corner@,
            horizontal: self.horizontal@,
            vertical: self.vertical@,
            u: self.u@,
            v: self.v@,
            lens_radius: self.lens_radius as int,
            time0: self.time0 as int,
            time1: self.time1 as int,
        }
    }
}

/// Degrees to radians: deg · π / 180.
pub open spec fn degrees_radians_spec(deg: int) -> int {
    fx_div_spec(fx_mul_spec(deg, PI_FX as int), 180 * SCALE as int)
}

/// tan of half the field of view; a vanishing cosine saturates.
pub open spec fn half_fov_tan_spec(fov: int) -> int {
    let half = fx_mul_spec(degrees_radians_spec(fov), (SCALE / 2) as int);
    let s = fx_sin_spec(half);
    let c = fx_cos_spec(half);
    if c == 0 {
        FX_MAX as int
    } else {
        fx_div_spec(s, c)
    }
}

/// The camera a constructor call produces. The basis (u, v, w) is built from
/// the view direction and the up vector; the viewport spans are pre-scaled by
/// the focus distance.
pub open spec fn camera_spec(
    position: V3,
    look_at: V3,
    up: V3,
    fov: int,
    aspect_ratio: int,
    aperture: int,
    focus_dist: int,
    time0: int,
    time1: int,
) -> CameraV {
    let h = half_fov_tan_spec(fov);
    let viewport_height = fx_add_spec(h, h);
    let viewport_width = fx_mul_spec(aspect_ratio, viewport_height);
    let w = v3_normalize(v3_sub(position, look_at));
    let u = v3_normalize(v3_cross(up, w));
    let v = v3_cross(w, u);
    let horizontal = v3_scale(u, fx_mul_spec(focus_dist, viewport_width));
    let vertical = v3_scale(v, fx_mul_spec(focus_dist, viewport_height));
    let lower_left_corner = v3_sub(
        v3_sub(
            v3_sub(position, v3_scale(horizontal, (SCALE / 2) as int)),
            v3_scale(vertical, (SCALE / 2) as int),
        ),
        v3_scale(w, focus_dist),
    );
    CameraV {
        origin: position,
        lower_left_corner,
        horizontal,
        vertical,
        u,
        v,
        lens_radius: fx_mul_spec(aperture, (SCALE / 2) as int),
        time0,
        time1,
    }
}

/// What the lens and shutter sampling guarantees of a draw.
pub open spec fn disk_sample(v: V3) -> bool {
    crate::vec3::v3_length_squared(v) < SCALE as int && v.z == 0
}

/// A shutter sample: uniform in the interval, or its start when the
/// interval is empty.
pub open spec fn time_sample(c: CameraV, tau: int) -> bool {
    if c.time0 < c.time1 {
        c.time0 <= tau < c.time1
    } else {
        tau == c.time0
    }
}

/// The sampled ray origin: position plus the lens offset.
pub open spec fn cam_ray_origin_spec(c: CameraV, rd: V3) -> V3 {
    let rdl = v3_scale(rd, c.lens_radius);
    let offset = v3_add(v3_scale(c.u, rdl.x), v3_scale(c.v, rdl.y));
    v3_add(c.origin, offset)
}

/// What one primary-ray draw guarantees: a lens sample and a shutter sample
/// exist for which the ray's origin, time and (where representable)
/// direction follow the thin-lens construction at screen point (s, t).
pub open spec fn camera_ray_sample(c: CameraV, s: int, t: int, rv: RayV) -> bool {
    exists|rd: V3, tau: int|
        #![trigger disk_sample(rd), time_sample(c, tau)]
        {
            &&& disk_sample(rd)
            &&& time_sample(c, tau)
            &&& rv.time == tau
            &&& rv.origin == cam_ray_origin_spec(c, rd)
            &&& {
                let dir = cam_ray_dir_spec(c, s, t, rd);
                v3_length(dir) > 0 ==> rv.direction == v3_normalize(dir)
            }
        }
}

/// The sampled, unnormalized ray direction through screen point (s, t).
pub open spec fn cam_ray_dir_spec(c: CameraV, s: int, t: int, rd: V3) -> V3 {
    let rdl = v3_scale(rd, c.lens_radius);
    let offset = v3_add(v3_scale(c.u, rdl.x), v3_scale(c.v, rdl.y));
    v3_sub(
        v3_sub(
            v3_add(v3_add(c.lower_left_corner, v3_scale(c.horizontal, s)), v3_scale(c.vertical,
                t)),
            c.origin,
        ),
        offset,
    )
}

impl Camera {
    pub fn new(
        position: Vec3,
        look_at: Vec3,
        up: Vec3,
        fov: i64,
        aspect_ratio: i64,
        aperture: i64,
        focus_dist: i64,
        time0: i64,
        time1: i64,
    ) -> (r: Camera)
        requires
            v3_length(v3_sub(position@, look_at@)) > 0,
            v3_length(v3_cross(up@, v3_normalize(v3_sub(position@, look_at@)))) > 0,
        ensures
            r@ == camera_spec(position@, look_at@, up@, fov as int, aspect_ratio as int,
                aperture as int, focus_dist as int, time0 as int, time1 as int),
    {
        let half = fx_mul(fx_div(fx_mul(fov, PI_FX), 180 * SCALE), SCALE / 2);
        let c = fx_cos(half);
        let h = if c == 0 {
            FX_MAX
        } else {
            fx_div(fx_sin(half), c)
        };
        let viewport_height = fx_add(h, h);
        let viewport_width = fx_mul(aspect_ratio, viewport_height);
        let w = position.sub(look_at).normalize();
        let u = up.cross(w).normalize();
        let v = w.cross(u);
        let horizontal = u.scale(fx_mul(focus_dist, viewport_width));
        let vertical = v.scale(fx_mul(focus_dist, viewport_height));
        let lower_left_corner = position.sub(horizontal.scale(SCALE / 2)).sub(vertical.scale(
            SCALE / 2)).sub(w.scale(focus_dist));
        Camera {
            origin: position,
            lower_left_corner,
            horizontal,
            vertical,
            u,
            v,
            lens_radius: fx_mul(aperture, SCALE / 2),
            time0,
            time1,
        }
    }

    /// Turn normalized screen coordinates and fresh lens/shutter samples into
    /// a primary ray. A shutter interval of zero width always uses its start;
    /// a degenerate direction falls back to the forward axis so that the ray
    /// stays well-formed.
    pub fn get_ray(&self, s: i64, t: i64) -> (r: Ray)
        requires
            self.time1 - self.time0 <= FX_MAX as int,
        ensures
            camera_ray_sample(self@, s as int, t as int, r@),
            ray_derived_ok(r@),
    {
        let rd = Vec3::random_in_unit_disk();
        let ghost rdv = rd@;
        let rdl = rd.scale(self.lens_radius);
        let offset = self.u.scale(rdl.x).add(self.v.scale(rdl.y));
        let origin2 = self.origin.add(offset);
        let dir = self.lower_left_corner.add(self.horizontal.scale(s)).add(self.vertical.scale(
            t)).sub(self.origin).sub(offset);
        let tau = if self.time0 < self.time1 {
            random_range(self.time0, self.time1)
        } else {
            self.time0
        };
        let dir = if dir.length() == 0 {
            Vec3::forward()
        } else {
            dir
        };
        proof {
            crate::fixed::lemma_sqrt_floor_positive(crate::vec3::v3_length_squared(dir@));
        }
        let r = Ray::new(origin2, dir, tau);
        proof {
            let ghost tau_g = tau as int;
            assert(disk_sample(rdv) && time_sample(self@, tau_g) && r@.time == tau_g
                && r@.origin == cam_ray_origin_spec(self@, rdv) && {
                let dir2 = cam_ray_dir_spec(self@, s as int, t as int, rdv);
                v3_length(dir2) > 0 ==> r@.direction == v3_normalize(dir2)
            });
        }
        r
    }
}

} // verus!
