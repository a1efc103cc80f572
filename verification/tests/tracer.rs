//! Scene-level tests: slab test, BVH behaviour, materials, textures, and the
//! PPM output. Values are raw fixed-point units (65536 = 1.0).

use ray_tracer::aabb::Aabb;
use ray_tracer::bvh::Bvh;
use ray_tracer::camera::Camera;
use ray_tracer::config::Config;
use ray_tracer::hittable::{HitRecord, Hittable, Primitive};
use ray_tracer::materials::{Dielectric, Lambertian, Material, Metal};
use ray_tracer::moving_sphere::MovingSphere;
use ray_tracer::ray::Ray;
use ray_tracer::render::render_image;
use ray_tracer::sphere::Sphere;
use ray_tracer::textures::{CheckerTexture, ImageTexture, PerlinTexture, SolidColor, Texture};
use ray_tracer::vec3::Vec3;

fn gray_material() -> Material {
    Material::Lambertian(Lambertian::new_from_color(Vec3::new(32768, 32768, 32768)))
}

#[test]
fn slab_test_axis_ray() {
    let b = Aabb::new(Vec3::zero(), Vec3::one());
    // Origin (-1, 0.5, 0.5), direction +x: enters at t=1, leaves at t=2.
    let ray = Ray::new(Vec3::new(-65536, 32768, 32768), Vec3::new(65536, 0, 0), 0);
    assert!(b.hit(&ray, 6554, 655360));
    // A window that ends before the entry, or starts after the exit, misses.
    assert!(!b.hit(&ray, 196608, 655360));
    assert!(!b.hit(&ray, 6554, 32768));

    // Origin (0.5, 0.5, -1), direction -z: the box lies behind the ray.
    let ray2 = Ray::new(Vec3::new(32768, 32768, -65536), Vec3::new(0, 0, -65536), 0);
    assert!(!b.hit(&ray2, 66, 655360));
}

#[test]
fn slab_symmetry_concrete() {
    // Negating the x components of box and ray leaves the decision alone.
    let b = Aabb::new(Vec3::zero(), Vec3::one());
    let bn = Aabb::new(Vec3::new(-65536, 0, 0), Vec3::new(0, 65536, 65536));
    let dir = Vec3::new(65536, 13107, 6554);
    let ray = Ray::new(Vec3::new(-65536, 32768, 32768), dir, 0);
    let rayn = Ray::new(
        Vec3::new(65536, 32768, 32768),
        Vec3::new(-65536, 13107, 6554),
        0,
    );
    for (lo, hi) in [(66, 655360), (131072, 327680), (6554, 98304)] {
        assert_eq!(b.hit(&ray, lo, hi), bn.hit(&rayn, lo, hi));
    }
}

#[test]
fn sphere_hit_and_normal() {
    // Unit ray along -z toward a sphere of radius 0.5 centered at (0,0,-3).
    let s = Sphere::new(Vec3::new(0, 0, -196608), 32768, gray_material());
    let ray = Ray::new(Vec3::zero(), Vec3::new(0, 0, -65536), 0);
    let hit = s.hit(&ray, 66, 6553600).expect("must hit");
    // Enters at t = 2.5.
    assert_eq!(hit.t, 163840);
    assert!(hit.front_face);
    // The outward normal at the near pole points back along +z.
    assert_eq!(hit.normal, Vec3::new(0, 0, 65536));
    // The hit point sits on the sphere: |p - c| = r exactly here.
    assert_eq!(hit.p, Vec3::new(0, 0, -163840));

    // A ray pointing away misses.
    let ray2 = Ray::new(Vec3::zero(), Vec3::new(0, 0, 65536), 0);
    assert!(s.hit(&ray2, 66, 6553600).is_none());
}

#[test]
fn sphere_uv_poles() {
    // The +x point of the unit sphere maps to the middle of the map.
    let (u, v) = Sphere::get_uv(Vec3::new(65536, 0, 0));
    assert_eq!(u, 32768);
    assert_eq!(v, 32768);
    // Top and bottom rows.
    let (_, v_top) = Sphere::get_uv(Vec3::new(0, 65536, 0));
    let (_, v_bot) = Sphere::get_uv(Vec3::new(0, -65536, 0));
    assert_eq!(v_top, 65536);
    assert_eq!(v_bot, 0);
}

#[test]
fn moving_sphere_center_interpolates() {
    let m = MovingSphere::new(
        Vec3::zero(),
        Vec3::new(65536, 0, 0),
        0,
        65536,
        32768,
        gray_material(),
    );
    assert_eq!(m.center(0), Vec3::zero());
    assert_eq!(m.center(32768), Vec3::new(32768, 0, 0));
    assert_eq!(m.center(65536), Vec3::new(65536, 0, 0));
}

#[test]
fn bvh_closest_hit() {
    // Two spheres of radius 0.5 at (-1, 0, -3) and (1, 0, -3); a ray aimed at
    // the right one must return the right sphere's own parameter, whatever
    // axis the build chose.
    let direct = Sphere::new(Vec3::new(65536, 0, -196608), 32768, gray_material());

    let ray = Ray::new(Vec3::zero(), Vec3::new(65536, 0, -196608), 0);
    let expected = direct.hit(&ray, 66, 6553600).expect("direct hit");

    for _ in 0..8 {
        let world = vec![
            Primitive::Sphere(Sphere::new(Vec3::new(-65536, 0, -196608), 32768, gray_material())),
            Primitive::Sphere(Sphere::new(Vec3::new(65536, 0, -196608), 32768, gray_material())),
        ];
        let bvh = Bvh::new(world, 0, 65536);
        let got = bvh.hit(&ray, 66, 6553600).expect("bvh hit");
        assert_eq!(got.t, expected.t);
        assert_eq!(got.p, expected.p);
    }
}

#[test]
fn bvh_box_encloses_children() {
    let world = vec![
        Primitive::Sphere(Sphere::new(Vec3::new(-65536, 0, -196608), 32768, gray_material())),
        Primitive::Sphere(Sphere::new(Vec3::new(65536, 0, -196608), 32768, gray_material())),
    ];
    let bvh = Bvh::new(world, 0, 65536);
    let b = bvh.bounding_box(0, 65536).expect("bvh box");
    assert_eq!(b.minimum, Vec3::new(-98304, -32768, -229376));
    assert_eq!(b.maximum, Vec3::new(98304, 32768, -163840));
}

#[test]
fn list_returns_closest() {
    // The scan over a list must return the nearer of two spheres on the axis.
    let world = vec![
        Primitive::Sphere(Sphere::new(Vec3::new(0, 0, -327680), 32768, gray_material())),
        Primitive::Sphere(Sphere::new(Vec3::new(0, 0, -196608), 32768, gray_material())),
    ];
    let ray = Ray::new(Vec3::zero(), Vec3::new(0, 0, -65536), 0);
    let hit = world.hit(&ray, 66, 6553600).expect("must hit");
    assert_eq!(hit.t, 163840);
}

#[test]
fn metal_zero_roughness_is_specular() {
    let mat = Material::Metal(Metal::new(Vec3::new(45875, 39321, 32768), 0));
    let ray = Ray::new(Vec3::new(0, 65536, 0), Vec3::new(65536, -65536, 0), 0);
    let rec = HitRecord {
        p: Vec3::zero(),
        normal: Vec3::new(0, 65536, 0),
        t: 65536,
        front_face: true,
        u: 0,
        v: 0,
        material: &mat,
    };
    let (scattered, att) = mat.scatter(&ray, &rec).expect("reflects upward");
    let mirror = ray.direction.reflect(rec.normal);
    assert_eq!(scattered.direction, mirror.normalize());
    assert_eq!(att, Vec3::new(45875, 39321, 32768));
    assert_eq!(scattered.time, ray.time);

    // Reflecting into the surface absorbs.
    let rec_down = HitRecord {
        p: Vec3::zero(),
        normal: Vec3::new(0, -65536, 0),
        t: 65536,
        front_face: true,
        u: 0,
        v: 0,
        material: &mat,
    };
    assert!(mat.scatter(&ray, &rec_down).is_none());
}

#[test]
fn lambertian_attenuation_is_texture_color() {
    let mat = gray_material();
    let ray = Ray::new(Vec3::new(0, 65536, 0), Vec3::new(0, -65536, 0), 42);
    let rec = HitRecord {
        p: Vec3::zero(),
        normal: Vec3::new(0, 65536, 0),
        t: 65536,
        front_face: true,
        u: 0,
        v: 0,
        material: &mat,
    };
    for _ in 0..32 {
        let (scattered, att) = mat.scatter(&ray, &rec).expect("scatters");
        assert_eq!(att, Vec3::new(32768, 32768, 32768));
        assert!(0 <= att.x && att.x <= 65536);
        assert_eq!(scattered.time, 42);
        assert_eq!(scattered.origin, rec.p);
    }
}

#[test]
fn dielectric_total_internal_reflection() {
    // Grazing ray inside glass: ratio * sin(theta) = 1.5 > 1 forces a clean
    // reflection, with no degenerate values.
    let mat = Material::Dielectric(Dielectric::new(98304));
    let ray = Ray::new(Vec3::zero(), Vec3::new(65536, 0, 0), 0);
    let rec = HitRecord {
        p: Vec3::zero(),
        normal: Vec3::new(0, 65536, 0),
        t: 65536,
        front_face: false,
        u: 0,
        v: 0,
        material: &mat,
    };
    let (scattered, att) = mat.scatter(&ray, &rec).expect("reflects");
    assert_eq!(att, Vec3::one());
    // reflect((1,0,0), (0,1,0)) leaves the direction unchanged.
    assert_eq!(scattered.direction, Vec3::new(65536, 0, 0));
}

#[test]
fn dielectric_snell_round_trip() {
    // Enter glass through the top plane and leave through a parallel plane:
    // the exit direction matches the entry direction up to rounding.
    let entering = Vec3::new(65536, -65536, 0).normalize();
    let n_top = Vec3::new(0, 65536, 0);
    let inside = entering.refract(n_top, 43691); // 1/1.5
    let inside_unit = inside.normalize();
    let exit = inside_unit.refract(n_top, 98304); // 1.5
    let exit_unit = exit.normalize();
    let tolerance = 900; // about 0.014 of a unit component
    assert!((exit_unit.x - entering.x).abs() <= tolerance);
    assert!((exit_unit.y - entering.y).abs() <= tolerance);
    assert!((exit_unit.z - entering.z).abs() <= tolerance);
}

#[test]
fn checker_parity_is_positional() {
    let t = Texture::Checker(CheckerTexture::new_from_colors(
        Vec3::new(13107, 19661, 6554),
        Vec3::new(58982, 58982, 58982),
    ));
    let even = Vec3::new(13107, 19661, 6554);
    // (0.05, 0.05, 0.05): all three sines positive.
    assert_eq!(t.value(0, 0, Vec3::new(3277, 3277, 3277)), even);
    // (pi/20, 0.05, 0.05): sin(10 x) = 1, still the even square.
    assert_eq!(t.value(0, 0, Vec3::new(10294, 3277, 3277)), even);
    // (0.2, 0.05, 0.05): sin(2) > 0, still even.
    assert_eq!(t.value(0, 0, Vec3::new(13107, 3277, 3277)), even);
}

#[test]
fn solid_color_ignores_coordinates() {
    let t = Texture::Solid(SolidColor::new(Vec3::new(100, 200, 300)));
    assert_eq!(t.value(0, 0, Vec3::zero()), Vec3::new(100, 200, 300));
    assert_eq!(t.value(12345, 678, Vec3::new(-9, 9, 9)), Vec3::new(100, 200, 300));
}

#[test]
fn perlin_texture_stays_in_unit_range() {
    let t = Texture::Noise(PerlinTexture::new_with_scale(262144));
    for k in 0..64i64 {
        let p = Vec3::new(k * 9999, -k * 777, k * 31000 - 555555);
        let c = t.value(0, 0, p);
        assert!(0 <= c.x && c.x <= 65536);
        assert_eq!(c.x, c.y);
        assert_eq!(c.y, c.z);
    }
}

#[test]
fn image_texture_lookup_and_fallback() {
    // A 2x1 bitmap: a red texel then a blue texel.
    let t = Texture::Image(ImageTexture::from_rgb8(2, 1, vec![255, 0, 0, 0, 0, 255]));
    let red = t.value(0, 32768, Vec3::zero());
    assert_eq!(red, Vec3::new(65536, 0, 0));
    let blue = t.value(65536, 32768, Vec3::zero());
    assert_eq!(blue, Vec3::new(0, 0, 65536));

    // Mismatched dimensions fall back to the magenta/black checker.
    let bad = Texture::Image(ImageTexture::from_rgb8(4, 4, vec![1, 2, 3]));
    let c = bad.value(0, 0, Vec3::new(3277, 3277, 3277));
    assert_eq!(c, Vec3::new(65536, 0, 65536));
}

#[test]
fn gamma_encoding_round_trip() {
    // Four identical samples of linear 0.25 average back to 0.25; sqrt gives
    // 0.5 and the byte is 128.
    let sum = Vec3::new(4 * 16384, 4 * 16384, 4 * 16384);
    assert_eq!(sum.write_color(4), "128 128 128\n");
    // Pure white clips to 255, never beyond.
    let white = Vec3::new(10 * 65536, 10 * 65536, 10 * 65536);
    assert_eq!(white.write_color(10), "255 255 255\n");
    let black = Vec3::zero();
    assert_eq!(black.write_color(7), "0 0 0\n");
}

#[test]
fn ppm_header_bit_exact() {
    // Empty world, 4x2 image, one sample: the header is literal and the sky
    // fills the body.
    let world: Vec<Primitive> = vec![];
    let camera = Camera::new(
        Vec3::zero(),
        Vec3::new(0, 0, -65536),
        Vec3::up(),
        90 * 65536,
        131072,
        0,
        65536,
        0,
        0,
    );
    let config = Config::new(world, camera, 4, 131072).set_samples_per_pixel(1);
    let out = render_image(&config);
    assert!(out.starts_with("P3\n4 2\n255\n"));
    let lines: Vec<&str> = out.lines().collect();
    assert_eq!(lines[0], "P3");
    assert_eq!(lines[1], "4 2");
    assert_eq!(lines[2], "255");
    assert_eq!(lines.len(), 3 + 8);

    // The top row looks farther up the sky gradient: more blue relative to
    // red than the bottom row.
    let excess = |line: &str| -> i64 {
        let ch: Vec<i64> = line.split(' ').map(|w| w.parse().unwrap()).collect();
        ch[2] - ch[0]
    };
    let top: i64 = lines[3..7].iter().map(|l| excess(l)).sum();
    let bottom: i64 = lines[7..11].iter().map(|l| excess(l)).sum();
    assert!(top > bottom);
}

#[test]
fn single_sphere_depth_one_is_black() {
    // One bounce of a Lambertian sphere exhausts the depth: the pixel is
    // black no matter what the scatter draw was.
    let world = vec![Primitive::Sphere(Sphere::new(Vec3::zero(), 65536, gray_material()))];
    let camera = Camera::new(
        Vec3::new(0, 0, 65536),
        Vec3::zero(),
        Vec3::up(),
        90 * 65536,
        65536,
        0,
        65536,
        0,
        0,
    );
    let config = Config::new(world, camera, 1, 65536)
        .set_samples_per_pixel(1)
        .set_max_depth(1);
    let out = render_image(&config);
    assert_eq!(out, "P3\n1 1\n255\n0 0 0\n");
}

#[test]
fn moving_sphere_hit_follows_shutter_time() {
    // Radius 0.5, sliding from (0,0,-3) at time 0 to (2,0,-3) at time 1.
    let m = MovingSphere::new(
        Vec3::new(0, 0, -196608),
        Vec3::new(131072, 0, -196608),
        0,
        65536,
        32768,
        gray_material(),
    );
    // At shutter time 0 the -z ray meets it at t = 2.5.
    let early = Ray::new(Vec3::zero(), Vec3::new(0, 0, -65536), 0);
    let hit = m.hit(&early, 66, 6553600).expect("hits at the start position");
    assert_eq!(hit.t, 163840);
    // At shutter time 1 the sphere has moved out of the ray's path.
    let late = Ray::new(Vec3::zero(), Vec3::new(0, 0, -65536), 65536);
    assert!(m.hit(&late, 66, 6553600).is_none());
}

#[test]
fn perlin_noise_is_deterministic_per_table() {
    let t = PerlinTexture::new();
    let p = Vec3::new(123456, -654321, 424242);
    assert_eq!(t.noise.noise(p), t.noise.noise(p));
    assert_eq!(t.noise.turb(p, 7), t.noise.turb(p, 7));
    assert!(t.noise.turb(p, 7) >= 0);
}

#[test]
fn scatter_given_is_deterministic_in_the_sample() {
    // Lambertian: with the drawn unit vector fixed, the bounce is fully
    // determined — direction is the normalized normal-plus-sample.
    let lam = Lambertian::new_from_color(Vec3::new(13107, 19661, 26214));
    let ray = Ray::new(Vec3::new(0, 65536, 0), Vec3::new(0, -65536, 0), 7);
    let mat = Material::Lambertian(Lambertian::new_from_color(Vec3::new(13107, 19661, 26214)));
    let rec = HitRecord {
        p: Vec3::new(65536, 0, 0),
        normal: Vec3::new(0, 65536, 0),
        t: 65536,
        front_face: true,
        u: 0,
        v: 0,
        material: &mat,
    };
    let u = Vec3::new(65536, 0, 0);
    let (sray, att) = lam.scatter_given(&ray, &rec, u).expect("scatters");
    assert_eq!(sray.direction, Vec3::new(65536, 65536, 0).normalize());
    assert_eq!(att, Vec3::new(13107, 19661, 26214));
    assert_eq!(sray.origin, rec.p);
    assert_eq!(sray.time, 7);
    // A sample that exactly cancels the normal substitutes the normal.
    let cancel = Vec3::new(0, -65536, 0);
    let (sub, _) = lam.scatter_given(&ray, &rec, cancel).expect("substitutes the normal");
    assert_eq!(sub.direction, Vec3::new(0, 65536, 0));
    // A sample leaving only a sub-resolution direction absorbs.
    let sliver = Vec3::new(1, -65536, 0);
    assert!(lam.scatter_given(&ray, &rec, sliver).is_none());

    // Dielectric: the Schlick coin picks the branch. At normal incidence on
    // glass the reflectance is tiny, so a large coin refracts straight
    // through and a losing coin reflects straight back.
    let die = Dielectric::new(98304);
    let dray = Ray::new(Vec3::new(0, 65536, 0), Vec3::new(0, -65536, 0), 0);
    let drec = HitRecord {
        p: Vec3::zero(),
        normal: Vec3::new(0, 65536, 0),
        t: 65536,
        front_face: true,
        u: 0,
        v: 0,
        material: &mat,
    };
    let (through, _) = die.scatter_given(&dray, &drec, 65535).expect("refracts");
    assert_eq!(through.direction, Vec3::new(0, -65536, 0));
    let (back, _) = die.scatter_given(&dray, &drec, 0).expect("reflects");
    assert_eq!(back.direction, Vec3::new(0, 65536, 0));
}
