//! Scattering laws: Lambertian diffuse, metallic reflection with roughness,
//! and the Schlick-approximated dielectric.
//!
//! Scattering draws a random sample — a unit vector, a fuzz vector, or a
//! Schlick coin — so each `scatter` contract quantifies over the draw, while
//! the `scatter_given` functions take the draw as an argument and pin the
//! outcome completely: attenuation, shutter time, origin, the scattered
//! direction, and exactly when the bounce is absorbed.

use vstd::prelude::*;
use crate::fixed::{
    fx_add, fx_add_spec, fx_div, fx_div_spec, fx_min, fx_min_spec, fx_mul, fx_mul_spec,
    fx_sqrt, fx_sqrt_spec, fx_sub, fx_sub_spec, SCALE,
};
use crate::hittable::HitRecord;
use crate::ray::{ray_derived_ok, Ray, RayV};
use crate::rng::random_frac;
use crate::textures::{
    color_in_unit, lemma_texture_value_in_unit, texture_value_spec, texture_wf, SolidColor,
    Texture,
};
use crate::vec3::{
    v3_add, v3_dot, v3_length, v3_length_squared, v3_near_zero, v3_neg, v3_normalize,
    v3_reflect, v3_refract, v3_scale, Vec3, V3,
};

verus! {

pub struct Lambertian {
    pub albedo: Box<Texture>,
}

pub struct Metal {
    pub albedo: Vec3,
    pub roughness: i64,
}

pub struct Dielectric {
    pub ir: i64,
}

pub enum Material {
    Lambertian(Lambertian),
    Metal(Metal),
    Dielectric(Dielectric),
}

pub open spec fn material_wf(m: Material) -> bool {
    match m {
        Material::Lambertian(l) => texture_wf(*l.albedo),
        Material::Metal(mt) => color_in_unit(mt.albedo@) && 0 <= mt.roughness <= SCALE as int,
        Material::Dielectric(d) => d.ir > 0,
    }
}

/// The ghost view of a scatter result.
pub open spec fn opt_scatter_view(r: Option<(Ray, Vec3)>) -> Option<(RayV, V3)> {
    match r {
        Some((s, a)) => Some((s@, a@)),
        None => None,
    }
}

/// What `random_unit_vector` guarantees of its draw.
pub open spec fn unit_sample(u: V3) -> bool {
    exists|v: V3| 0 < v3_length_squared(v) < SCALE as int && u == v3_normalize(v)
}

/// What `random_in_unit_sphere` guarantees of its draw.
pub open spec fn sphere_sample(v: V3) -> bool {
    0 < v3_length_squared(v) < SCALE as int
}

/// Lambertian direction before normalization: normal plus unit sample, with
/// the normal substituted when the sum vanishes.
pub open spec fn lambertian_dir_spec(n: V3, u: V3) -> V3 {
    let d = v3_add(n, u);
    if v3_near_zero(d) {
        n
    } else {
        d
    }
}

/// The Lambertian contract for one drawn unit vector: scattering succeeds
/// with the texture's color as attenuation unless the direction degenerates
/// below the representable resolution.
pub open spec fn lambertian_scatter_ok(
    l: Lambertian,
    rayv: RayV,
    hit: HitData,
    r: Option<(RayV, V3)>,
    u: V3,
) -> bool {
    let d = lambertian_dir_spec(hit.normal, u);
    if v3_length(d) > 0 {
        match r {
            Some((sray, att)) => {
                &&& att == texture_value_spec(*l.albedo, hit.u, hit.v, hit.p)
                &&& sray.time == rayv.time
                &&& sray.origin == hit.p
                &&& ray_derived_ok(sray)
                &&& sray.direction == v3_normalize(d)
            },
            None => false,
        }
    } else {
        r is None
    }
}

/// The metal contract for one drawn fuzz vector: absorbed exactly when the
/// mirror direction points into the surface, specular when roughness is
/// zero.
pub open spec fn metal_scatter_ok(
    m: Metal,
    rayv: RayV,
    hit: HitData,
    r: Option<(RayV, V3)>,
    fz: V3,
) -> bool {
    let refl = v3_reflect(rayv.direction, hit.normal);
    let d = v3_add(refl, v3_scale(fz, m.roughness as int));
    if v3_dot(refl, hit.normal) <= 0 {
        r is None
    } else if v3_length(d) > 0 {
        match r {
            Some((sray, att)) => {
                &&& att == m.albedo@
                &&& sray.time == rayv.time
                &&& sray.origin == hit.p
                &&& ray_derived_ok(sray)
                &&& sray.direction == v3_normalize(d)
            },
            None => false,
        }
    } else {
        r is None
    }
}

/// Schlick's reflectance approximation.
pub open spec fn reflectance_spec(cosine: int, ref_idx: int) -> int {
    let r0 = fx_div_spec(fx_sub_spec(SCALE as int, ref_idx), fx_add_spec(SCALE as int, ref_idx));
    let r0 = fx_mul_spec(r0, r0);
    let omc = fx_sub_spec(SCALE as int, cosine);
    let p2 = fx_mul_spec(omc, omc);
    let p4 = fx_mul_spec(p2, p2);
    let p5 = fx_mul_spec(p4, omc);
    fx_add_spec(r0, fx_mul_spec(fx_sub_spec(SCALE as int, r0), p5))
}

pub open spec fn refraction_ratio_spec(d: Dielectric, front_face: bool) -> int {
    if front_face {
        fx_div_spec(SCALE as int, d.ir as int)
    } else {
        d.ir as int
    }
}

pub open spec fn dielectric_cos_spec(dir: V3, n: V3) -> int {
    fx_min_spec(v3_dot(v3_neg(dir), n), SCALE as int)
}

pub open spec fn dielectric_sin_spec(dir: V3, n: V3) -> int {
    let cos = dielectric_cos_spec(dir, n);
    fx_sqrt_spec(fx_sub_spec(SCALE as int, fx_mul_spec(cos, cos)))
}

/// Total internal reflection is forced when ratio · sin θ exceeds one.
pub open spec fn cannot_refract_spec(d: Dielectric, front_face: bool, dir: V3, n: V3) -> bool {
    fx_mul_spec(refraction_ratio_spec(d, front_face), dielectric_sin_spec(dir, n))
        > SCALE as int
}

/// The dielectric contract for one drawn Schlick coin: attenuation is white
/// and the direction is forced — the reflection under total internal
/// reflection or when the reflectance beats the coin, the refraction
/// otherwise; absorbed only if the chosen direction degenerates below the
/// fixed-point resolution.
pub open spec fn dielectric_scatter_ok(
    d: Dielectric,
    rayv: RayV,
    hit: HitData,
    r: Option<(RayV, V3)>,
    coin: int,
) -> bool {
    let ratio = refraction_ratio_spec(d, hit.front_face);
    let refl = v3_reflect(rayv.direction, hit.normal);
    let refr = v3_refract(rayv.direction, hit.normal, ratio);
    let cannot = cannot_refract_spec(d, hit.front_face, rayv.direction, hit.normal);
    let schlick = reflectance_spec(dielectric_cos_spec(rayv.direction, hit.normal), ratio);
    let chosen = if cannot || schlick > coin {
        refl
    } else {
        refr
    };
    if v3_length(chosen) > 0 {
        match r {
            Some((sray, att)) => {
                &&& att == (V3 { x: SCALE as int, y: SCALE as int, z: SCALE as int })
                &&& sray.time == rayv.time
                &&& sray.origin == hit.p
                &&& ray_derived_ok(sray)
                &&& sray.direction == v3_normalize(chosen)
            },
            None => false,
        }
    } else {
        r is None
    }
}

/// What `Material::scatter` promises: the per-variant contract holds for
/// some value of that variant's random draw.
#[verifier::opaque]
pub open spec fn material_scatter_ok(
    m: Material,
    rayv: RayV,
    hit: HitData,
    r: Option<(RayV, V3)>,
) -> bool {
    match m {
        Material::Lambertian(l) => exists|u: V3| #[trigger] unit_sample(u)
            && lambertian_scatter_ok(l, rayv, hit, r, u),
        Material::Metal(mt) => exists|fz: V3| #[trigger] sphere_sample(fz)
            && metal_scatter_ok(mt, rayv, hit, r, fz),
        Material::Dielectric(d) => exists|coin: int| 0 <= coin < SCALE as int
            && #[trigger] dielectric_scatter_ok(d, rayv, hit, r, coin),
    }
}

use crate::hittable::HitData;
use crate::hittable::record_data;

impl Lambertian {
    pub fn new(texture: Box<Texture>) -> (r: Lambertian)
        ensures
            r.albedo == texture,
    {
        Lambertian { albedo: texture }
    }

    pub fn new_from_color(albedo: Vec3) -> (r: Lambertian)
        ensures
            *r.albedo == Texture::Solid(SolidColor { color: albedo }),
    {
        Lambertian { albedo: Box::new(Texture::Solid(SolidColor { color: albedo })) }
    }

    /// The deterministic part of Lambertian scattering, with the drawn unit
    /// vector as an argument: succeeds with the normal-plus-sample direction
    /// (the normal alone when the sum vanishes) and the texture's color,
    /// absorbing only when even that direction has no representable length.
    pub fn scatter_given(&self, ray: &Ray, hit: &HitRecord<'_>, u: Vec3) -> (r: Option<(Ray,
        Vec3)>)
        requires
            texture_wf(*self.albedo),
        ensures
            lambertian_scatter_ok(*self, ray@, record_data(*hit), opt_scatter_view(r), u@),
            match r {
                Some((sray, att)) => color_in_unit(att@),
                None => true,
            },
    {
        let mut scatter_direction = hit.normal.add(u);
        if scatter_direction.near_zero() {
            scatter_direction = hit.normal;
        }
        if scatter_direction.length() == 0 {
            return None;
        }
        let scattered_ray = Ray::new(hit.p, scatter_direction, ray.time);
        let attenuation = self.albedo.value(hit.u, hit.v, hit.p);
        proof {
            lemma_texture_value_in_unit(*self.albedo, hit.u as int, hit.v as int, hit.p@);
        }
        Some((scattered_ray, attenuation))
    }

    pub fn scatter(&self, ray: &Ray, hit: &HitRecord<'_>) -> (r: Option<(Ray, Vec3)>)
        requires
            texture_wf(*self.albedo),
        ensures
            exists|u: V3| #[trigger] unit_sample(u) && lambertian_scatter_ok(*self, ray@,
                record_data(*hit), opt_scatter_view(r), u),
            match r {
                Some((sray, att)) => color_in_unit(att@),
                None => true,
            },
    {
        let ruv = Vec3::random_unit_vector();
        let r = self.scatter_given(ray, hit, ruv);
        proof {
            assert(unit_sample(ruv@) && lambertian_scatter_ok(*self, ray@, record_data(*hit),
                opt_scatter_view(r), ruv@));
        }
        r
    }
}

impl Metal {
    pub fn new(albedo: Vec3, roughness: i64) -> (r: Metal)
        ensures
            r.albedo == albedo,
            r.roughness == roughness,
    {
        Metal { albedo, roughness }
    }

    /// The deterministic part of metallic scattering, with the drawn fuzz
    /// vector as an argument: absorbs exactly when the mirror direction
    /// points into the surface, otherwise reflects with the fuzzed
    /// direction and the metal's albedo.
    pub fn scatter_given(&self, ray: &Ray, hit: &HitRecord<'_>, fz: Vec3) -> (r: Option<(Ray,
        Vec3)>)
        ensures
            metal_scatter_ok(*self, ray@, record_data(*hit), opt_scatter_view(r), fz@),
    {
        let reflected = ray.direction.reflect(hit.normal);
        if reflected.dot(hit.normal) <= 0 {
            return None;
        }
        let direction = reflected.add(fz.scale(self.roughness));
        if direction.length() == 0 {
            return None;
        }
        let scattered_ray = Ray::new(hit.p, direction, ray.time);
        Some((scattered_ray, self.albedo))
    }

    pub fn scatter(&self, ray: &Ray, hit: &HitRecord<'_>) -> (r: Option<(Ray, Vec3)>)
        ensures
            exists|fz: V3| #[trigger] sphere_sample(fz) && metal_scatter_ok(*self, ray@,
                record_data(*hit), opt_scatter_view(r), fz),
    {
        let fuzz = Vec3::random_in_unit_sphere();
        let r = self.scatter_given(ray, hit, fuzz);
        proof {
            assert(sphere_sample(fuzz@) && metal_scatter_ok(*self, ray@, record_data(*hit),
                opt_scatter_view(r), fuzz@));
        }
        r
    }
}

impl Dielectric {
    pub fn new(ir: i64) -> (r: Dielectric)
        ensures
            r.ir == ir,
    {
        Dielectric { ir }
    }

    fn reflectance(cosine: i64, ref_idx: i64) -> (r: i64)
        requires
            ref_idx >= 0,
        ensures
            r as int == reflectance_spec(cosine as int, ref_idx as int),
    {
        let r0 = fx_div(fx_sub(SCALE, ref_idx), fx_add(SCALE, ref_idx));
        let r0 = fx_mul(r0, r0);
        let omc = fx_sub(SCALE, cosine);
        let p2 = fx_mul(omc, omc);
        let p4 = fx_mul(p2, p2);
        let p5 = fx_mul(p4, omc);
        fx_add(r0, fx_mul(fx_sub(SCALE, r0), p5))
    }

    /// The deterministic part of dielectric scattering, with the drawn
    /// Schlick coin as an argument: reflects under total internal reflection
    /// or when the reflectance beats the coin, refracts otherwise, always
    /// with white attenuation.
    pub fn scatter_given(&self, ray: &Ray, hit: &HitRecord<'_>, coin: i64) -> (r: Option<(Ray,
        Vec3)>)
        requires
            self.ir > 0,
        ensures
            dielectric_scatter_ok(*self, ray@, record_data(*hit), opt_scatter_view(r),
                coin as int),
    {
        let refraction_ratio = if hit.front_face {
            fx_div(SCALE, self.ir)
        } else {
            self.ir
        };
        proof {
            if hit.front_face {
                assert(0 <= (65536int * 65536int) / (self.ir as int)) by (nonlinear_arith)
                    requires self.ir as int > 0,
                ;
            }
        }
        let unit_direction = ray.direction;
        let cos_theta = fx_min(unit_direction.neg().dot(hit.normal), SCALE);
        let sin_theta = fx_sqrt(fx_sub(SCALE, fx_mul(cos_theta, cos_theta)));
        let cannot_refract = fx_mul(refraction_ratio, sin_theta) > SCALE;
        let schlick = Dielectric::reflectance(cos_theta, refraction_ratio);
        let direction = if cannot_refract || schlick > coin {
            unit_direction.reflect(hit.normal)
        } else {
            unit_direction.refract(hit.normal, refraction_ratio)
        };
        if direction.length() == 0 {
            return None;
        }
        let scattered_ray = Ray::new(hit.p, direction, ray.time);
        Some((scattered_ray, Vec3::one()))
    }

    pub fn scatter(&self, ray: &Ray, hit: &HitRecord<'_>) -> (r: Option<(Ray, Vec3)>)
        requires
            self.ir > 0,
        ensures
            exists|coin: int| 0 <= coin < SCALE as int && #[trigger] dielectric_scatter_ok(
                *self, ray@, record_data(*hit), opt_scatter_view(r), coin),
    {
        let coin = random_frac();
        let r = self.scatter_given(ray, hit, coin);
        proof {
            assert(0 <= (coin as int) && (coin as int) < SCALE as int && dielectric_scatter_ok(
                *self, ray@, record_data(*hit), opt_scatter_view(r), coin as int));
        }
        r
    }
}

impl Material {
    /// Dispatch to the scattering law of the variant; the contract is the
    /// variant's `*_scatter_ok` for some value of its random draw.
    pub fn scatter(&self, ray: &Ray, hit: &HitRecord<'_>) -> (r: Option<(Ray, Vec3)>)
        requires
            material_wf(*self),
        ensures
            material_scatter_ok(*self, ray@, record_data(*hit), opt_scatter_view(r)),
            match r {
                Some((sray, att)) => ray_derived_ok(sray@) && sray@.time == ray@.time
                    && color_in_unit(att@),
                None => true,
            },
    {
        let r = match self {
            Material::Lambertian(l) => l.scatter(ray, hit),
            Material::Metal(m) => m.scatter(ray, hit),
            Material::Dielectric(d) => d.scatter(ray, hit),
        };
        proof {
            reveal(material_scatter_ok);
            if r is Some {
                match self {
                    Material::Lambertian(l) => {},
                    Material::Metal(m) => {
                        let fz = choose|fz: V3| #[trigger] sphere_sample(fz)
                            && metal_scatter_ok(*m, ray@, record_data(*hit),
                            opt_scatter_view(r), fz);
                        assert(metal_scatter_ok(*m, ray@, record_data(*hit),
                            opt_scatter_view(r), fz));
                    },
                    Material::Dielectric(d) => {
                        let coin = choose|coin: int| 0 <= coin < SCALE as int
                            && #[trigger] dielectric_scatter_ok(*d, ray@, record_data(*hit),
                            opt_scatter_view(r), coin);
                        assert(dielectric_scatter_ok(*d, ray@, record_data(*hit),
                            opt_scatter_view(r), coin));
                    },
                }
            }
        }
        r
    }
}

} // verus!
