//! Procedural textures: solid color, world-space checker, Perlin turbulence
//! marble, and bitmap lookup.

use vstd::prelude::*;
use crate::fixed::{
    fx_add, fx_add_spec, fx_max, fx_max_spec, fx_min, fx_min_spec, fx_mul, fx_mul_spec, fx_sub,
    fx_sub_spec, tdiv, SCALE,
};
use crate::perlin::{perlin_wf, turb_spec, Perlin};
use crate::trig::{fx_sin, fx_sin_spec};
use crate::vec3::{Vec3, V3};

verus! {

pub struct SolidColor {
    pub color: Vec3,
}

pub struct CheckerTexture {
    pub even: Box<Texture>,
    pub odd: Box<Texture>,
}

pub struct PerlinTexture {
    pub noise: Perlin,
    pub scale: i64,
}

/// A decoded 8-bit RGB bitmap, or the high-contrast fallback shown when the
/// asset could not be decoded.
pub enum ImageData {
    Bitmap { pixels: Vec<u8>, width: u32, height: u32 },
    Fallback(CheckerTexture),
}

pub struct ImageTexture {
    pub image: ImageData,
}

pub enum Texture {
    Solid(SolidColor),
    Checker(CheckerTexture),
    Noise(PerlinTexture),
    Image(ImageTexture),
}

/// Structural well-formedness: Perlin tables have their size, bitmaps have
/// matching dimensions, and every stored color lies in [0, 1].
pub open spec fn texture_wf(t: Texture) -> bool
    decreases t,
{
    match t {
        Texture::Solid(s) => color_in_unit(s.color@),
        Texture::Checker(c) => texture_wf(*c.even) && texture_wf(*c.odd),
        Texture::Noise(n) => perlin_wf(n.noise),
        Texture::Image(i) => match i.image {
            ImageData::Bitmap { pixels, width, height } => {
                &&& 1 <= width < 32768
                &&& 1 <= height < 32768
                &&& pixels@.len() == 3 * (width as int) * (height as int)
            },
            ImageData::Fallback(c) => texture_wf(*c.even) && texture_wf(*c.odd),
        },
    }
}

pub open spec fn color_in_unit(c: V3) -> bool {
    &&& 0 <= c.x <= SCALE as int
    &&& 0 <= c.y <= SCALE as int
    &&& 0 <= c.z <= SCALE as int
}

/// One bitmap channel as a fixed-point fraction: value/255.
pub open spec fn channel_spec(p: int) -> int {
    (p * SCALE as int) / 255
}

/// Bitmap lookup: clamp u into [0,1], flip v, scale to texel coordinates,
/// clamp to the last texel, and read the RGB triple.
pub open spec fn image_value_spec(pixels: Seq<u8>, width: int, height: int, u: int, v: int)
    -> V3 {
    let uc = fx_max_spec(0, fx_min_spec(SCALE as int, u));
    let vc = fx_sub_spec(SCALE as int, fx_max_spec(0, fx_min_spec(SCALE as int, v)));
    let i0 = fx_mul_spec(uc, width);
    let j0 = fx_mul_spec(vc, height);
    let i = if i0 >= width { width - 1 } else { i0 };
    let j = if j0 >= height { height - 1 } else { j0 };
    let base = 3 * (j * width + i);
    V3 {
        x: channel_spec(pixels[base] as int),
        y: channel_spec(pixels[base + 1] as int),
        z: channel_spec(pixels[base + 2] as int),
    }
}

/// The texture's color at surface coordinates (u, v) and world point p.
pub open spec fn texture_value_spec(t: Texture, u: int, v: int, p: V3) -> V3
    decreases t,
{
    match t {
        Texture::Solid(s) => s.color@,
        Texture::Checker(c) => {
            let sines = fx_mul_spec(
                fx_mul_spec(fx_sin_spec(fx_mul_spec(p.x, 10 * SCALE as int)), fx_sin_spec(
                    fx_mul_spec(p.y, 10 * SCALE as int))),
                fx_sin_spec(fx_mul_spec(p.z, 10 * SCALE as int)),
            );
            if sines < 0 {
                texture_value_spec(*c.odd, u, v, p)
            } else {
                texture_value_spec(*c.even, u, v, p)
            }
        },
        Texture::Noise(n) => {
            let s = fx_sin_spec(fx_add_spec(fx_mul_spec(n.scale as int, p.z), fx_mul_spec(10
                * SCALE as int, turb_spec(n.noise, crate::vec3::v3_scale(p, n.scale as int),
                7))));
            let g = fx_mul_spec((SCALE / 2) as int, fx_add_spec(SCALE as int, s));
            V3 { x: g, y: g, z: g }
        },
        Texture::Image(im) => match im.image {
            ImageData::Bitmap { pixels, width, height } => image_value_spec(pixels@,
                width as int, height as int, u, v),
            ImageData::Fallback(c) => {
                let sines = fx_mul_spec(
                    fx_mul_spec(fx_sin_spec(fx_mul_spec(p.x, 10 * SCALE as int)), fx_sin_spec(
                        fx_mul_spec(p.y, 10 * SCALE as int))),
                    fx_sin_spec(fx_mul_spec(p.z, 10 * SCALE as int)),
                );
                if sines < 0 {
                    texture_value_spec(*c.odd, u, v, p)
                } else {
                    texture_value_spec(*c.even, u, v, p)
                }
            },
        },
    }
}

impl SolidColor {
    pub fn new(c: Vec3) -> (r: SolidColor)
        ensures
            r.color == c,
    {
        SolidColor { color: c }
    }
}

impl CheckerTexture {
    pub fn new(even: Box<Texture>, odd: Box<Texture>) -> (r: CheckerTexture)
        ensures
            r.even == even,
            r.odd == odd,
    {
        CheckerTexture { even, odd }
    }

    pub fn new_from_colors(c1: Vec3, c2: Vec3) -> (r: CheckerTexture)
        ensures
            *r.even == Texture::Solid(SolidColor { color: c1 }),
            *r.odd == Texture::Solid(SolidColor { color: c2 }),
    {
        CheckerTexture {
            even: Box::new(Texture::Solid(SolidColor { color: c1 })),
            odd: Box::new(Texture::Solid(SolidColor { color: c2 })),
        }
    }
}

impl PerlinTexture {
    pub fn new() -> (r: PerlinTexture)
        ensures
            perlin_wf(r.noise),
            r.scale == SCALE,
    {
        PerlinTexture { noise: Perlin::new(), scale: SCALE }
    }

    pub fn new_with_scale(scale: i64) -> (r: PerlinTexture)
        ensures
            perlin_wf(r.noise),
            r.scale == scale,
    {
        PerlinTexture { noise: Perlin::new(), scale }
    }
}

/// The image texture holds the high-contrast substitute for an undecodable
/// asset: a checker of solid magenta and solid black.
pub open spec fn is_magenta_fallback(r: ImageTexture) -> bool {
    match r.image {
        ImageData::Fallback(c) => {
            &&& *c.even == Texture::Solid(SolidColor { color: Vec3 { x: SCALE, y: 0, z: SCALE } })
            &&& *c.odd == Texture::Solid(SolidColor { color: Vec3 { x: 0, y: 0, z: 0 } })
        },
        ImageData::Bitmap { .. } => false,
    }
}

impl ImageTexture {
    /// Wrap an already-decoded 8-bit RGB bitmap; dimensions that do not match
    /// the pixel data give the magenta/black fallback checker instead.
    pub fn from_rgb8(width: u32, height: u32, pixels: Vec<u8>) -> (r: ImageTexture)
        ensures
            texture_wf(Texture::Image(r)),
            if 1 <= width < 32768 && 1 <= height < 32768 && pixels@.len() == 3 * (width as int)
                * (height as int) {
                r.image == (ImageData::Bitmap { pixels, width, height })
            } else {
                is_magenta_fallback(r)
            },
    {
        if width >= 1 && height >= 1 && width < 32768 && height < 32768 {
            proof {
                assert(3 * (width as int) * (height as int) < 4294967295) by (nonlinear_arith)
                    requires
                        1 <= width as int,
                        (width as int) < 32768,
                        1 <= height as int,
                        (height as int) < 32768,
                ;
            }
            if pixels.len() == 3 * (width as usize) * (height as usize) {
                ImageTexture { image: ImageData::Bitmap { pixels, width, height } }
            } else {
                ImageTexture::fallback()
            }
        } else {
            ImageTexture::fallback()
        }
    }

    /// The substitute for an asset that could not be decoded: a magenta/black
    /// checker.
    pub fn fallback() -> (r: ImageTexture)
        ensures
            texture_wf(Texture::Image(r)),
            is_magenta_fallback(r),
    {
        let ct = CheckerTexture::new_from_colors(
            Vec3 { x: SCALE, y: 0, z: SCALE },
            Vec3 { x: 0, y: 0, z: 0 },
        );
        proof {
            assert(texture_wf(*ct.even));
            assert(texture_wf(*ct.odd));
        }
        ImageTexture { image: ImageData::Fallback(ct) }
    }
}

impl Texture {
    pub fn value(&self, u: i64, v: i64, p: Vec3) -> (r: Vec3)
        requires
            texture_wf(*self),
        ensures
            r@ == texture_value_spec(*self, u as int, v as int, p@),
        decreases *self,
    {
        match self {
            Texture::Solid(s) => s.color,
            Texture::Checker(c) => {
                let sines = fx_mul(
                    fx_mul(fx_sin(fx_mul(p.x, 10 * SCALE)), fx_sin(fx_mul(p.y, 10 * SCALE))),
                    fx_sin(fx_mul(p.z, 10 * SCALE)),
                );
                if sines < 0 {
                    c.odd.value(u, v, p)
                } else {
                    c.even.value(u, v, p)
                }
            },
            Texture::Noise(n) => {
                let s = fx_sin(fx_add(fx_mul(n.scale, p.z), fx_mul(10 * SCALE, n.noise.turb(
                    p.scale(n.scale), 7))));
                let g = fx_mul(SCALE / 2, fx_add(SCALE, s));
                Vec3 { x: g, y: g, z: g }
            },
            Texture::Image(im) => match &im.image {
                ImageData::Bitmap { pixels, width, height } => {
                    image_lookup(pixels, *width, *height, u, v)
                },
                ImageData::Fallback(c) => {
                    let sines = fx_mul(
                        fx_mul(fx_sin(fx_mul(p.x, 10 * SCALE)), fx_sin(fx_mul(p.y, 10 * SCALE))),
                        fx_sin(fx_mul(p.z, 10 * SCALE)),
                    );
                    if sines < 0 {
                        c.odd.value(u, v, p)
                    } else {
                        c.even.value(u, v, p)
                    }
                },
            },
        }
    }
}

fn channel(p: u8) -> (r: i64)
    ensures
        r as int == channel_spec(p as int),
        0 <= r <= SCALE as int,
{
    proof {
        vstd::arithmetic::div_mod::lemma_fundamental_div_mod((p as int) * (SCALE as int), 255);
    }
    ((p as i64) * SCALE) / 255
}

fn image_lookup(pixels: &Vec<u8>, width: u32, height: u32, u: i64, v: i64) -> (r: Vec3)
    requires
        1 <= width < 32768,
        1 <= height < 32768,
        pixels@.len() == 3 * (width as int) * (height as int),
    ensures
        r@ == image_value_spec(pixels@, width as int, height as int, u as int, v as int),
{
    let uc = fx_max(0, fx_min(SCALE, u));
    let vc = fx_sub(SCALE, fx_max(0, fx_min(SCALE, v)));
    let i0 = fx_mul(uc, width as i64);
    let j0 = fx_mul(vc, height as i64);
    let i = if i0 >= width as i64 {
        width as i64 - 1
    } else {
        i0
    };
    let j = if j0 >= height as i64 {
        height as i64 - 1
    } else {
        j0
    };
    proof {
        assert(0 <= tdiv(uc as int * (width as int), SCALE as int) <= width as int)
            by (nonlinear_arith)
            requires
                0 <= uc as int <= 65536,
                1 <= width as int,
                SCALE as int == 65536,
                tdiv(uc as int * (width as int), SCALE as int) == (uc as int * (width as int))
                    / 65536,
        ;
        assert(tdiv(uc as int * (width as int), SCALE as int) == (uc as int * (width as int))
            / 65536);
        assert(0 <= tdiv(vc as int * (height as int), SCALE as int) <= height as int)
            by (nonlinear_arith)
            requires
                0 <= vc as int <= 65536,
                1 <= height as int,
                SCALE as int == 65536,
                tdiv(vc as int * (height as int), SCALE as int) == (vc as int * (height as int))
                    / 65536,
        ;
        assert(tdiv(vc as int * (height as int), SCALE as int) == (vc as int * (height as int))
            / 65536);
        assert(3 * ((j as int) * (width as int) + (i as int)) + 2 < 3 * (width as int) * (
        height as int) && (j as int) * (width as int) + (i as int) < 1073741824)
            by (nonlinear_arith)
            requires
                0 <= i as int <= (width as int) - 1,
                0 <= j as int <= (height as int) - 1,
                1 <= width as int,
                (width as int) < 32768,
                1 <= height as int,
                (height as int) < 32768,
        ;
    }
    let base: usize = 3 * ((j as usize) * (width as usize) + (i as usize));
    Vec3 {
        x: channel(pixels[base]),
        y: channel(pixels[base + 1]),
        z: channel(pixels[base + 2]),
    }
}

/// Every texture value has its components in [0, 1]: solid colors carry the
/// bound by well-formedness, the marble value is an average of sines, and
/// bitmap channels are eight-bit fractions.
pub proof fn lemma_texture_value_in_unit(t: Texture, u: int, v: int, p: V3)
    requires
        texture_wf(t),
    ensures
        color_in_unit(texture_value_spec(t, u, v, p)),
    decreases t,
{
    match t {
        Texture::Solid(s) => {},
        Texture::Checker(c) => {
            lemma_texture_value_in_unit(*c.even, u, v, p);
            lemma_texture_value_in_unit(*c.odd, u, v, p);
        },
        Texture::Noise(n) => {},
        Texture::Image(im) => match im.image {
            ImageData::Bitmap { pixels, width, height } => {
                lemma_channel_in_unit(pixels@, width as int, height as int, u, v);
            },
            ImageData::Fallback(c) => {
                lemma_texture_value_in_unit(*c.even, u, v, p);
                lemma_texture_value_in_unit(*c.odd, u, v, p);
            },
        },
    }
}

proof fn lemma_one_channel(p: int)
    requires
        0 <= p <= 255,
    ensures
        0 <= channel_spec(p) <= SCALE as int,
{
    assert(0 <= (p * 65536) / 255 <= 65536) by (nonlinear_arith)
        requires 0 <= p <= 255,
    ;
}

proof fn lemma_channel_in_unit(pixels: Seq<u8>, width: int, height: int, u: int, v: int)
    ensures
        color_in_unit(image_value_spec(pixels, width, height, u, v)),
{
    let uc = fx_max_spec(0, fx_min_spec(SCALE as int, u));
    let vc = fx_sub_spec(SCALE as int, fx_max_spec(0, fx_min_spec(SCALE as int, v)));
    let i0 = fx_mul_spec(uc, width);
    let j0 = fx_mul_spec(vc, height);
    let i = if i0 >= width { width - 1 } else { i0 };
    let j = if j0 >= height { height - 1 } else { j0 };
    let base = 3 * (j * width + i);
    lemma_one_channel(pixels[base] as int);
    lemma_one_channel(pixels[base + 1] as int);
    lemma_one_channel(pixels[base + 2] as int);
}

} // verus!
