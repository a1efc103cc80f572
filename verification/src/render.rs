//! The integrator and the render driver: recursive path tracing with a depth
//! bound, gamma-2 channel encoding, and assembly of the ASCII PPM stream.

use vstd::prelude::*;
use crate::camera::{camera_ray_sample, CameraV};
use crate::config::Config;
use crate::fixed::{
    fx_add, fx_add_spec, fx_div, fx_mul, fx_mul_spec, fx_sqrt, fx_sqrt_spec, fx_sub,
    fx_sub_spec, tdiv, FX_MAX, SCALE,
};
use crate::hittable::Hittable;
use crate::materials::{material_scatter_ok, opt_scatter_view};
use crate::ray::{Ray, RayV};
use crate::rng::random_frac;
use crate::vec3::{v3_add, v3_mul, v3_scale, Vec3, V3};
use vstd::string::StringExecFns;

verus! {

/// Lower intersection bound of secondary rays, preventing shadow-acne
/// self-intersection (about 0.001).
pub const SHADOW_EPS: i64 = 66;

/// The sky gradient for a miss: white blended toward light blue by the
/// height of the ray direction.
pub open spec fn sky_color_spec(dir: V3) -> V3 {
    let t = fx_mul_spec((SCALE / 2) as int, fx_add_spec(dir.y, SCALE as int));
    v3_add(
        v3_scale(V3 { x: SCALE as int, y: SCALE as int, z: SCALE as int }, fx_sub_spec(
            SCALE as int, t)),
        v3_scale(V3 { x: 32768, y: 45875, z: 65536 }, t),
    )
}

/// The relation the integrator's result satisfies: black at depth zero; the
/// sky gradient on a miss; on a hit, black if the scatter absorbed, else the
/// attenuation times a sub-color that itself satisfies the relation for the
/// scattered ray at one less depth. The scatter outcome is quantified
/// because the draw decides it; everything after the draw is pinned by the
/// per-material contracts.
pub open spec fn ray_color_rel<T: Hittable>(world: T, r: RayV, depth: nat, c: V3) -> bool
    decreases depth, 0int,
{
    if depth == 0 {
        c == (V3 { x: 0, y: 0, z: 0 })
    } else if world.hit_spec(r, SHADOW_EPS as int, FX_MAX as int) is None {
        c == sky_color_spec(r.direction)
    } else {
        ray_color_hit_rel(world, r, (depth - 1) as nat, world.hit_spec(r, SHADOW_EPS as int,
            FX_MAX as int).unwrap(), c)
    }
}

/// The hit case of the radiance relation, for the record the world reported;
/// `depth_sub` is the remaining depth after this bounce.
pub open spec fn ray_color_hit_rel<T: Hittable>(
    world: T,
    r: RayV,
    depth_sub: nat,
    h: crate::hittable::HitData,
    c: V3,
) -> bool
    decreases depth_sub, 1int,
{
    exists|sc: Option<(RayV, V3)>|
        #[trigger] material_scatter_ok(h.material, r, h, sc) && if sc is None {
            c == (V3 { x: 0, y: 0, z: 0 })
        } else {
            exists|sub: V3| ray_color_rel(world, sc.unwrap().0, depth_sub, sub) && c
                == #[trigger] v3_mul(sc.unwrap().1, sub)
        }
}

/// One step of the radiance relation for the hit case, for a known scatter
/// outcome.
proof fn lemma_ray_color_rel_hit<T: Hittable>(
    world: T,
    r: RayV,
    depth: nat,
    hd: crate::hittable::HitData,
    scv: Option<(RayV, V3)>,
    c: V3,
    sub: V3,
)
    requires
        depth > 0,
        world.hit_spec(r, SHADOW_EPS as int, FX_MAX as int) == Some(hd),
        material_scatter_ok(hd.material, r, hd, scv),
        match scv {
            None => c == (V3 { x: 0, y: 0, z: 0 }),
            Some((sray, att)) => ray_color_rel(world, sray, (depth - 1) as nat, sub) && c
                == v3_mul(att, sub),
        },
    ensures
        ray_color_rel(world, r, depth, c),
{
    let dsub = (depth - 1) as nat;
    if scv is Some {
        let sray = scv.unwrap().0;
        let att = scv.unwrap().1;
        assert(ray_color_rel(world, sray, dsub, sub) && c == v3_mul(att, sub));
        assert(exists|s2: V3| ray_color_rel(world, sray, dsub, s2) && c == #[trigger] v3_mul(
            att, s2));
    }
    assert(material_scatter_ok(hd.material, r, hd, scv) && if scv is None {
        c == (V3 { x: 0, y: 0, z: 0 })
    } else {
        exists|s2: V3| ray_color_rel(world, scv.unwrap().0, dsub, s2) && c
            == #[trigger] v3_mul(scv.unwrap().1, s2)
    });
    assert(ray_color_hit_rel(world, r, dsub, hd, c));
    assert(world.hit_spec(r, SHADOW_EPS as int, FX_MAX as int).unwrap() == hd);
}

pub fn ray_color<T: Hittable>(ray: &Ray, world: &T, depth: u32) -> (c: Vec3)
    requires
        world.wf(),
    ensures
        ray_color_rel(*world, ray@, depth as nat, c@),
        depth == 0 ==> c@ == (V3 { x: 0, y: 0, z: 0 }),
        depth > 0 && world.hit_spec(ray@, SHADOW_EPS as int, FX_MAX as int) is None ==> c@
            == sky_color_spec(ray@.direction),
    decreases depth,
{
    if depth == 0 {
        return Vec3::zero();
    }
    let h = world.hit(ray, SHADOW_EPS, FX_MAX);
    match h {
        Some(hit) => {
            let ghost hd = crate::hittable::record_data(hit);
            let sc = hit.material.scatter(ray, &hit);
            match sc {
                None => {
                    let c = Vec3::zero();
                    proof {
                        lemma_ray_color_rel_hit(*world, ray@, depth as nat, hd,
                            opt_scatter_view(None), c@, c@);
                    }
                    c
                },
                Some((scattered_ray, attenuation)) => {
                    let sub = ray_color(&scattered_ray, world, depth - 1);
                    let c = attenuation.mul(sub);
                    proof {
                        lemma_ray_color_rel_hit(*world, ray@, depth as nat, hd,
                            opt_scatter_view(Some((scattered_ray, attenuation))), c@, sub@);
                    }
                    c
                },
            }
        },
        None => {
            let t = fx_mul(SCALE / 2, fx_add(ray.direction.y, SCALE));
            Vec3::one().scale(fx_sub(SCALE, t)).add(Vec3::new(32768, 45875, 65536).scale(t))
        },
    }
}

/// One output channel: mean over the samples, gamma-2 correction by square
/// root, soft white clip at 0.999, and scaling to a byte.
pub open spec fn encode_channel_spec(sum: int, n: int) -> int {
    let mean = tdiv(sum, n);
    let root = fx_sqrt_spec(mean);
    let clamped = if root < 0 {
        0
    } else if root > 65470 {
        65470
    } else {
        root
    };
    clamped / 256
}

pub fn encode_channel(sum: i64, n: u32) -> (b: u8)
    requires
        n > 0,
    ensures
        b as int == encode_channel_spec(sum as int, n as int),
        b <= 255,
{
    let mean = sum / (n as i64);
    let root = fx_sqrt(mean);
    let clamped = if root > 65470 {
        65470
    } else {
        root
    };
    proof {
        vstd::arithmetic::div_mod::lemma_fundamental_div_mod(clamped as int, 256);
    }
    (clamped / 256) as u8
}

pub open spec fn digit_char(d: int) -> char {
    if d == 0 {
        '0'
    } else if d == 1 {
        '1'
    } else if d == 2 {
        '2'
    } else if d == 3 {
        '3'
    } else if d == 4 {
        '4'
    } else if d == 5 {
        '5'
    } else if d == 6 {
        '6'
    } else if d == 7 {
        '7'
    } else if d == 8 {
        '8'
    } else {
        '9'
    }
}

/// Decimal rendering of a nonnegative integer, most significant digit first.
pub open spec fn dec_spec(n: int) -> Seq<char>
    decreases n,
{
    if n < 0 {
        Seq::empty()
    } else if n < 10 {
        seq![digit_char(n)]
    } else {
        dec_spec(n / 10).push(digit_char(n % 10))
    }
}

fn digit_str(d: u32) -> (r: &'static str)
    requires
        d < 10,
    ensures
        r@ == seq![digit_char(d as int)],
{
    proof {
        reveal_strlit("0");
        reveal_strlit("1");
        reveal_strlit("2");
        reveal_strlit("3");
        reveal_strlit("4");
        reveal_strlit("5");
        reveal_strlit("6");
        reveal_strlit("7");
        reveal_strlit("8");
        reveal_strlit("9");
    }
    match d {
        0 => "0",
        1 => "1",
        2 => "2",
        3 => "3",
        4 => "4",
        5 => "5",
        6 => "6",
        7 => "7",
        8 => "8",
        _ => "9",
    }
}

pub fn fmt_u32(n: u32) -> (s: String)
    ensures
        s@ == dec_spec(n as int),
    decreases n,
{
    if n < 10 {
        String::from_str(digit_str(n))
    } else {
        let mut s = fmt_u32(n / 10);
        s.append(digit_str(n % 10));
        s
    }
}

/// One PPM body line: the three encoded channels, space-separated.
pub open spec fn color_line_spec(c: V3, n: int) -> Seq<char> {
    dec_spec(encode_channel_spec(c.x, n)) + seq![' '] + dec_spec(encode_channel_spec(c.y, n))
        + seq![' '] + dec_spec(encode_channel_spec(c.z, n)) + seq!['\n']
}

impl Vec3 {
    /// Encode an accumulated color as one PPM line, averaging over the
    /// sample count.
    pub fn write_color(self, samples_per_pixel: u32) -> (s: String)
        requires
            samples_per_pixel > 0,
        ensures
            s@ == color_line_spec(self@, samples_per_pixel as int),
    {
        proof {
            reveal_strlit(" ");
            reveal_strlit("\n");
        }
        let mut s = fmt_u32(encode_channel(self.x, samples_per_pixel) as u32);
        s.append(" ");
        let g = fmt_u32(encode_channel(self.y, samples_per_pixel) as u32);
        s.append(g.as_str());
        s.append(" ");
        let b = fmt_u32(encode_channel(self.z, samples_per_pixel) as u32);
        s.append(b.as_str());
        s.append("\n");
        s
    }
}

/// The PPM body for a row-major pixel sequence: one color line per pixel.
pub open spec fn ppm_body_spec(px: Seq<V3>, n: int) -> Seq<char>
    decreases px.len(),
{
    if px.len() == 0 {
        Seq::empty()
    } else {
        ppm_body_spec(px.drop_last(), n) + color_line_spec(px.last(), n)
    }
}

/// The PPM header: the magic line, the dimensions, and the channel maximum.
pub open spec fn ppm_header_spec(w: int, h: int) -> Seq<char> {
    seq!['P', '3', '\n'] + dec_spec(w) + seq![' '] + dec_spec(h) + seq!['\n', '2', '5', '5',
        '\n']
}

pub fn ppm_header(width: u32, height: u32) -> (s: String)
    ensures
        s@ == ppm_header_spec(width as int, height as int),
{
    proof {
        reveal_strlit("P3\n");
        reveal_strlit(" ");
        reveal_strlit("\n255\n");
    }
    let mut s = String::from_str("P3\n");
    let w = fmt_u32(width);
    s.append(w.as_str());
    s.append(" ");
    let h = fmt_u32(height);
    s.append(h.as_str());
    s.append("\n255\n");
    proof {
        assert(s@ =~= ppm_header_spec(width as int, height as int));
    }
    s
}

/// Render the configured scene to a complete PPM stream: the exact header,
/// then one line per pixel in row order, top scanline first.
pub fn render_image<T: Hittable>(config: &Config<T>) -> (s: String)
    requires
        config.world.wf(),
        config.samples_per_pixel > 0,
        config.camera.time1 - config.camera.time0 <= FX_MAX as int,
    ensures
        exists|px: Seq<V3>|
            {
                &&& px.len() == config.image_size.0 as int * config.image_size.1 as int
                &&& forall|k: int| 0 <= k < px.len() ==> pixel_sample_rel(config.world,
                    config.camera@, config.max_depth as nat, config.image_size.0 as int,
                    config.image_size.1 as int, k % (config.image_size.0 as int),
                    config.image_size.1 as int - 1 - k / (config.image_size.0 as int),
                    config.samples_per_pixel as nat, #[trigger] px[k])
                &&& s@ == ppm_header_spec(config.image_size.0 as int,
                    config.image_size.1 as int) + ppm_body_spec(px,
                    config.samples_per_pixel as int)
            },
{
    let width = config.image_size.0;
    let height = config.image_size.1;
    let mut out = ppm_header(width, height);
    let ghost header = out@;
    let ghost mut px: Seq<V3> = Seq::empty();
    proof {
        assert(out@ =~= header + ppm_body_spec(px, config.samples_per_pixel as int));
    }
    let mut j: u32 = height;
    while j > 0
        invariant
            config.world.wf(),
            config.samples_per_pixel > 0,
            config.camera.time1 - config.camera.time0 <= FX_MAX as int,
            j <= height,
            px.len() == (height - j) * (width as int),
            forall|k: int| 0 <= k < px.len() ==> pixel_sample_rel(config.world,
                config.camera@, config.max_depth as nat, width as int, height as int, k % (
                width as int), height as int - 1 - k / (width as int),
                config.samples_per_pixel as nat, #[trigger] px[k]),
            out@ == header + ppm_body_spec(px, config.samples_per_pixel as int),
        decreases j,
    {
        j = j - 1;
        let ghost row_base = px.len() as int;
        let mut i: u32 = 0;
        while i < width
            invariant
                config.world.wf(),
                config.samples_per_pixel > 0,
                config.camera.time1 - config.camera.time0 <= FX_MAX as int,
                i <= width,
                j < height,
                row_base == (height - j - 1) * (width as int),
                px.len() == row_base + i,
                forall|k: int| 0 <= k < px.len() ==> pixel_sample_rel(config.world,
                    config.camera@, config.max_depth as nat, width as int, height as int, k % (
                    width as int), height as int - 1 - k / (width as int),
                    config.samples_per_pixel as nat, #[trigger] px[k]),
            out@ == header + ppm_body_spec(px, config.samples_per_pixel as int),
            decreases width - i,
        {
            let mut pixel_color = Vec3::zero();
            let mut sample: u32 = 0;
            while sample < config.samples_per_pixel
                invariant
                    config.world.wf(),
                    config.samples_per_pixel > 0,
                    config.camera.time1 - config.camera.time0 <= FX_MAX as int,
                    i < width,
                    j < height,
                    sample <= config.samples_per_pixel,
                    pixel_sample_rel(config.world, config.camera@, config.max_depth as nat,
                        width as int, height as int, i as int, j as int, sample as nat,
                        pixel_color@),
                decreases config.samples_per_pixel - sample,
            {
                let su = screen_coord(i, width);
                let sv = screen_coord(j, height);
                let ray = config.camera.get_ray(su, sv);
                let ghost prev = pixel_color@;
                let rc = ray_color(&ray, &config.world, config.max_depth);
                pixel_color = pixel_color.add(rc);
                proof {
                    assert(pixel_sample_rel(config.world, config.camera@,
                        config.max_depth as nat, width as int, height as int, i as int,
                        j as int, sample as nat, prev) && screen_sample(i as int, width as int,
                        su as int) && screen_sample(j as int, height as int, sv as int)
                        && camera_ray_sample(config.camera@, su as int, sv as int, ray@)
                        && ray_color_rel(config.world, ray@, config.max_depth as nat, rc@)
                        && pixel_color@ == v3_add(prev, rc@));
                    assert(pixel_sample_rel(config.world, config.camera@,
                        config.max_depth as nat, width as int, height as int, i as int,
                        j as int, (sample + 1) as nat, pixel_color@));
                }
                sample = sample + 1;
            }
            let line = pixel_color.write_color(config.samples_per_pixel);
            out.append(line.as_str());
            proof {
                let old_px = px;
                px = px.push(pixel_color@);
                assert(px.drop_last() =~= old_px);
                assert(px.last() == pixel_color@);
                assert(out@ =~= header + ppm_body_spec(px, config.samples_per_pixel as int));
                vstd::arithmetic::div_mod::lemma_fundamental_div_mod_converse(
                    row_base + i as int, width as int, height as int - 1 - j as int, i as int);
                assert forall|k: int| 0 <= k < px.len() implies pixel_sample_rel(config.world,
                    config.camera@, config.max_depth as nat, width as int, height as int, k % (
                    width as int), height as int - 1 - k / (width as int),
                    config.samples_per_pixel as nat, #[trigger] px[k]) by {
                    if k < old_px.len() {
                        assert(px[k] == old_px[k]);
                    } else {
                        assert(px[k] == pixel_color@);
                        assert(k % (width as int) == i as int);
                        assert(height as int - 1 - k / (width as int) == j as int);
                    }
                }
            }
            i = i + 1;
        }
        proof {
            assert(((height - j - 1) as int) * (width as int) + (width as int) == ((height
                - j) as int) * (width as int)) by (nonlinear_arith);
        }
    }
    proof {
        assert(px.len() == (height as int) * (width as int)) by (nonlinear_arith)
            requires j == 0, px.len() == ((height - j) as int) * (width as int),
        ;
        assert((height as int) * (width as int) == (width as int) * (height as int))
            by (nonlinear_arith);
    }
    out
}

/// The jittered normalized coordinate (k + ξ)/(extent - 1) for one drawn
/// sub-pixel offset ξ in [0, 1).
pub open spec fn jitter_coord(k: int, extent: int, xi: int) -> int {
    crate::fixed::fx_div_spec(k * SCALE as int + xi, (extent - 1) * SCALE as int)
}

/// What one screen-coordinate draw guarantees: a one-pixel extent collapses
/// to zero, otherwise the coordinate is the jittered fraction for some
/// sub-pixel offset.
pub open spec fn screen_sample(k: int, extent: int, r: int) -> bool {
    if extent <= 1 {
        r == 0
    } else {
        exists|xi: int| 0 <= xi < SCALE as int && r == #[trigger] jitter_coord(k, extent, xi)
    }
}

pub fn screen_coord(k: u32, extent: u32) -> (r: i64)
    requires
        k <= extent,
    ensures
        screen_sample(k as int, extent as int, r as int),
        r >= 0,
{
    if extent <= 1 {
        0
    } else {
        let num = (k as i64) * SCALE + random_frac();
        let den = ((extent - 1) as i64) * SCALE;
        proof {
            assert(0 <= ((num as int) * 65536) / (den as int)) by (nonlinear_arith)
                requires num as int >= 0, den as int >= 1,
            ;
            assert(tdiv(num as int * (SCALE as int), den as int) == (num as int * 65536) / (
            den as int));
        }
        let r = fx_div(num, den);
        proof {
            let ghost xi = num as int - (k as int) * (SCALE as int);
            assert(0 <= xi < SCALE as int && r as int == jitter_coord(k as int, extent as int,
                xi));
        }
        r
    }
}

/// What one fully sampled pixel guarantees: the sum of `n` radiance samples,
/// each taken along a camera ray drawn for the jittered coordinates of the
/// pixel at column i, row j.
pub open spec fn pixel_sample_rel<T: Hittable>(
    world: T,
    cam: CameraV,
    depth: nat,
    width: int,
    height: int,
    i: int,
    j: int,
    n: nat,
    c: V3,
) -> bool
    decreases n,
{
    if n == 0 {
        c == (V3 { x: 0, y: 0, z: 0 })
    } else {
        exists|prev: V3, su: int, sv: int, rv: RayV, rc: V3|
            #![trigger v3_add(prev, rc), screen_sample(i, width, su), screen_sample(j, height,
                sv), camera_ray_sample(cam, su, sv, rv)]
            {
                &&& pixel_sample_rel(world, cam, depth, width, height, i, j, (n - 1) as nat,
                    prev)
                &&& screen_sample(i, width, su)
                &&& screen_sample(j, height, sv)
                &&& camera_ray_sample(cam, su, sv, rv)
                &&& ray_color_rel(world, rv, depth, rc)
                &&& c == v3_add(prev, rc)
            }
    }
}

/// Encoding a uniform gray pixel recovers the gamma-corrected byte exactly:
/// averaging the identical samples gives back the linear value, and the byte
/// never exceeds 255.
pub proof fn lemma_gamma_round_trip(c: int, n: int)
    requires
        n > 0,
        c >= 0,
    ensures
        encode_channel_spec(n * c, n) == ({
            let root = fx_sqrt_spec(c);
            (if root > 65470 { 65470int } else { root }) / 256
        }),
        0 <= encode_channel_spec(n * c, n) <= 255,
{
    assert(n * c >= 0) by (nonlinear_arith)
        requires n > 0, c >= 0,
    ;
    if c > 0 {
        crate::fixed::lemma_sqrt_floor_exists(c * (SCALE as int));
    }
    assert((n * c) / n == c) by (nonlinear_arith)
        requires n > 0,
    ;
    let root = fx_sqrt_spec(c);
    let clamped = if root < 0 { 0int } else if root > 65470 { 65470int } else { root };
    assert(root >= 0);
    assert(0 <= clamped <= 65470);
    assert(0 <= clamped / 256 <= 255) by (nonlinear_arith)
        requires 0 <= clamped <= 65470,
    ;
}

} // verus!
