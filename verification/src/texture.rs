//! Procedural and lookup textures: constant colour, 3D checker, gradient
//! noise, and decoded image data.

use vstd::prelude::*;
use crate::fixed::{
    Fx, SCALE, COORD_MAX, mul_raw, div_raw, lemma_mul_bound, lemma_mul_raw_bound,
    lemma_div_raw_ratio,
};
use crate::vec3::{Vec3, fits, fits1, clamp1};
use crate::perlin::{Perlin, turb_spec};
use crate::trig::{sin, sin_raw};

verus! {

/// Upper clamp of an image coordinate, just under one.
pub const UV_CLAMP: i64 = 64880;

/// Always the same colour.
pub struct SolidColor {
    pub color_value: Vec3,
}

/// A 3D checkerboard: the sign of a product of sines picks one of two
/// colours, independent of the surface parameterization.
pub struct CheckerTexture {
    pub odd: SolidColor,
    pub even: SolidColor,
}

/// Marble-like bands driven by turbulent gradient noise.
pub struct NoiseTexture {
    pub noise: Perlin,
    pub scale: Fx,
}

/// Decoded 8-bit RGB pixel data, row 0 at the top.
pub struct ImageTexture {
    pub width: usize,
    pub height: usize,
    pub data: Vec<u8>,
}

/// A colour lookup by surface coordinates and hit point.
pub enum Texture {
    SolidColor(SolidColor),
    CheckerTexture(CheckerTexture),
    NoiseTexture(NoiseTexture),
    ImageTexture(ImageTexture),
}

/// A nonnegative colour within the given componentwise raw bound.
pub open spec fn color_ok(c: Vec3, b: int) -> bool {
    0 <= c.x.raw <= b && 0 <= c.y.raw <= b && 0 <= c.z.raw <= b
}

/// What a texture needs to be queried safely; bounds on its colours are
/// stated through `tex_max`.
pub open spec fn tex_wf(t: Texture) -> bool {
    match t {
        Texture::SolidColor(s) => color_ok(s.color_value, 0x8000000000000000),
        Texture::CheckerTexture(c) => color_ok(c.odd.color_value, 0x8000000000000000) && color_ok(
            c.even.color_value,
            0x8000000000000000,
        ),
        Texture::NoiseTexture(n) => n.noise.wf() && 0 <= n.scale.raw <= 1048576,
        Texture::ImageTexture(im) => 1 <= im.width <= 4096 && 1 <= im.height <= 4096
            && im.data@.len() == im.width * im.height * 3,
    }
}

/// The largest raw value any channel of this texture can report.
pub open spec fn tex_max(t: Texture) -> int {
    match t {
        Texture::SolidColor(s) => vmax3(s.color_value),
        Texture::CheckerTexture(c) => crate::hittable::imax(
            vmax3(c.odd.color_value),
            vmax3(c.even.color_value),
        ),
        Texture::NoiseTexture(_) => SCALE as int,
        Texture::ImageTexture(_) => SCALE as int,
    }
}

/// The largest raw component of a vector.
pub open spec fn vmax3(c: Vec3) -> int {
    crate::hittable::imax(
        c.x.raw as int,
        crate::hittable::imax(c.y.raw as int, c.z.raw as int),
    )
}

/// The checker sign: the product of the sines of ten times each clamped
/// coordinate.
pub open spec fn checker_sines(p: Vec3) -> int {
    let x = clamp1(p.x.raw as int, COORD_MAX as int);
    let y = clamp1(p.y.raw as int, COORD_MAX as int);
    let z = clamp1(p.z.raw as int, COORD_MAX as int);
    mul_raw(mul_raw(sin_raw(10 * x), sin_raw(10 * y)), sin_raw(10 * z))
}

/// An image coordinate clamped into `[0, 1)`.
pub open spec fn clamp01(x: int) -> int {
    if x < 0 {
        0
    } else if x > UV_CLAMP {
        UV_CLAMP as int
    } else {
        x
    }
}

/// The pixel column of a `u` coordinate.
pub open spec fn img_col(im: ImageTexture, u: int) -> int {
    (clamp01(u) * im.width) / (SCALE as int)
}

/// The pixel row of a `v` coordinate, flipped because row 0 is the top.
pub open spec fn img_row(im: ImageTexture, v: int) -> int {
    im.height - 1 - (clamp01(v) * im.height) / (SCALE as int)
}

/// An 8-bit channel scaled into `[0, 1]`.
pub open spec fn channel(b: u8, s: int) -> int {
    ((b as int) * s) / 255
}

/// The grey level of the noise texture at a point: half of one plus the
/// sine of the scaled z coordinate plus ten turbulence octaves.
pub open spec fn noise_band(n: NoiseTexture, p: Vec3) -> int {
    let q = Vec3 {
        x: Fx { raw: clamp1(p.x.raw as int, COORD_MAX as int) as i64 },
        y: Fx { raw: clamp1(p.y.raw as int, COORD_MAX as int) as i64 },
        z: Fx { raw: clamp1(p.z.raw as int, COORD_MAX as int) as i64 },
    };
    mul_raw(
        (SCALE as int) + sin_raw(
            mul_raw(n.scale.raw as int, q.z.raw as int) + 10 * turb_spec(n.noise, q, 7),
        ),
        32768,
    )
}

/// The colour a texture reports, as a function of the texture, the surface
/// coordinates and the hit point.
pub open spec fn value_spec(t: Texture, u: Fx, v: Fx, p: Vec3) -> Vec3 {
    match t {
        Texture::SolidColor(s) => s.color_value,
        Texture::CheckerTexture(c) => if checker_sines(p) < 0 {
            c.odd.color_value
        } else {
            c.even.color_value
        },
        Texture::NoiseTexture(n) => {
            let g = Fx { raw: noise_band(n, p) as i64 };
            Vec3 { x: g, y: g, z: g }
        },
        Texture::ImageTexture(im) => {
            let base = 3 * (img_row(im, v.raw as int) * im.width + img_col(im, u.raw as int));
            Vec3 {
                x: Fx { raw: channel(im.data@[base], SCALE as int) as i64 },
                y: Fx { raw: channel(im.data@[base + 1], SCALE as int) as i64 },
                z: Fx { raw: channel(im.data@[base + 2], SCALE as int) as i64 },
            }
        },
    }
}

impl SolidColor {
    pub fn new(c: Vec3) -> (t: Self)
        ensures
            t.color_value == c,
    {
        SolidColor { color_value: c }
    }
}

impl CheckerTexture {
    pub fn new(a: Vec3, b: Vec3) -> (t: Self)
        ensures
            t.odd.color_value == a,
            t.even.color_value == b,
    {
        CheckerTexture { odd: SolidColor::new(a), even: SolidColor::new(b) }
    }
}

impl NoiseTexture {
    /// Build the noise lattice from the generator and keep the band scale.
    pub fn new(sc: Fx, rng: &mut rand::rngs::StdRng) -> (t: Self)
        ensures
            t.noise.wf(),
            t.scale == sc,
    {
        NoiseTexture { noise: Perlin::new(rng), scale: sc }
    }
}

impl ImageTexture {
    /// Wrap decoded RGB data: three bytes per pixel, rows from the top.
    pub fn new(width: usize, height: usize, data: Vec<u8>) -> (t: Self)
        requires
            1 <= width <= 4096,
            1 <= height <= 4096,
            data@.len() == width * height * 3,
        ensures
            t.width == width,
            t.height == height,
            t.data == data,
            tex_wf(Texture::ImageTexture(t)),
    {
        ImageTexture { width, height, data }
    }
}

impl Texture {
    /// The colour of the texture at surface coordinates `(u, v)` and hit
    /// point `p`: exactly `value_spec`, and within the texture's bound per
    /// channel.
    pub fn value(&self, u: Fx, v: Fx, p: &Vec3) -> (r: Vec3)
        requires
            tex_wf(*self),
            fits(*p, crate::hittable::P_MAX as int),
        ensures
            r == value_spec(*self, u, v, *p),
            color_ok(r, tex_max(*self)),
    {
        match self {
            Texture::SolidColor(s) => s.color_value,
            Texture::CheckerTexture(c) => {
                let q = p.clamp_sym(Fx::from_raw(COORD_MAX));
                let s1 = sin(Fx::from_raw(10 * q.x.raw));
                let s2 = sin(Fx::from_raw(10 * q.y.raw));
                let s3 = sin(Fx::from_raw(10 * q.z.raw));
                proof {
                    lemma_mul_bound(s1.raw as int, s2.raw as int, SCALE as int, SCALE as int);
                    lemma_mul_raw_bound(s1.raw as int, s2.raw as int, SCALE as int, SCALE as int);
                    lemma_mul_bound(mul_raw(s1.raw as int, s2.raw as int), s3.raw as int,
                        SCALE as int, SCALE as int);
                    lemma_mul_raw_bound(mul_raw(s1.raw as int, s2.raw as int), s3.raw as int,
                        SCALE as int, SCALE as int);
                }
                let sines = s1.mul(s2).mul(s3);
                if sines.raw < 0 {
                    c.odd.color_value
                } else {
                    c.even.color_value
                }
            },
            Texture::NoiseTexture(n) => {
                let q = p.clamp_sym(Fx::from_raw(COORD_MAX));
                proof {
                    lemma_mul_bound(n.scale.raw as int, q.z.raw as int, 1048576, COORD_MAX as int);
                    lemma_mul_raw_bound(n.scale.raw as int, q.z.raw as int, 1048576,
                        COORD_MAX as int);
                }
                let band = n.scale.mul(q.z);
                let t = n.noise.turb(&q, 7);
                let arg = band.add(Fx::from_raw(10 * t.raw));
                let s = sin(arg);
                proof {
                    lemma_mul_raw_bound(SCALE as int + s.raw, 32768, 2 * (SCALE as int), 32768);
                    vstd::arithmetic::div_mod::lemma_div_pos_is_pos(
                        (SCALE as int + s.raw) * 32768,
                        SCALE as int,
                    );
                    assert((SCALE as int + s.raw) * 32768 <= (SCALE as int) * (SCALE as int))
                        by (nonlinear_arith)
                        requires
                            s.raw <= SCALE,
                    ;
                    vstd::arithmetic::div_mod::lemma_div_is_ordered(
                        (SCALE as int + s.raw) * 32768,
                        (SCALE as int) * (SCALE as int),
                        SCALE as int,
                    );
                    vstd::arithmetic::div_mod::lemma_div_multiples_vanish(
                        SCALE as int,
                        SCALE as int,
                    );
                    assert((SCALE as int) * (SCALE as int) == (SCALE as int) * (SCALE as int));
                }
                let g = Fx::one().add(s).mul(Fx::from_raw(32768));
                Vec3::new(g, g, g)
            },
            Texture::ImageTexture(im) => {
                let cu = u.max(Fx::zero()).min(Fx::from_raw(UV_CLAMP));
                let cv = v.max(Fx::zero()).min(Fx::from_raw(UV_CLAMP));
                proof {
                    assert(0 <= (cu.raw as int) * (im.width as int) < (im.width as int) * (
                    SCALE as int)) by (nonlinear_arith)
                        requires
                            0 <= cu.raw < SCALE,
                            1 <= im.width <= 4096,
                    ;
                    assert(0 <= (cv.raw as int) * (im.height as int) < (im.height as int) * (
                    SCALE as int)) by (nonlinear_arith)
                        requires
                            0 <= cv.raw < SCALE,
                            1 <= im.height <= 4096,
                    ;
                    assert((im.width as int) * (SCALE as int) <= 268435456) by (nonlinear_arith)
                        requires
                            im.width <= 4096,
                    ;
                    assert((im.height as int) * (SCALE as int) <= 268435456) by (nonlinear_arith)
                        requires
                            im.height <= 4096,
                    ;
                    vstd::arithmetic::div_mod::lemma_multiply_divide_lt(
                        (cu.raw as int) * (im.width as int),
                        im.width as int,
                        SCALE as int,
                    );
                    vstd::arithmetic::div_mod::lemma_multiply_divide_lt(
                        (cv.raw as int) * (im.height as int),
                        im.height as int,
                        SCALE as int,
                    );
                    vstd::arithmetic::div_mod::lemma_div_pos_is_pos(
                        (cu.raw as int) * (im.width as int),
                        SCALE as int,
                    );
                    vstd::arithmetic::div_mod::lemma_div_pos_is_pos(
                        (cv.raw as int) * (im.height as int),
                        SCALE as int,
                    );
                }
                let i = (((cu.raw as u64) * (im.width as u64)) / 65536) as usize;
                let jv = (((cv.raw as u64) * (im.height as u64)) / 65536) as usize;
                let j = im.height - 1 - jv;
                proof {
                    assert(0 <= (j as int) * (im.width as int) + (i as int) && 3 * ((j as int) * (
                    im.width as int) + (i as int)) + 2 < 3 * ((im.width as int) * (
                    im.height as int)) <= 50331648) by (nonlinear_arith)
                        requires
                            0 <= i < im.width <= 4096,
                            0 <= j < im.height <= 4096,
                    ;
                    assert((im.width as int) * (im.height as int) * 3 == 3 * ((im.width as int) * (
                    im.height as int))) by (nonlinear_arith);
                }
                let base = 3 * (j * im.width + i);
                let rb = self_channel(im.data[base]);
                let gb = self_channel(im.data[base + 1]);
                let bb = self_channel(im.data[base + 2]);
                Vec3::new(rb, gb, bb)
            },
        }
    }
}

/// One 8-bit channel scaled into `[0, 1]`.
fn self_channel(b: u8) -> (r: Fx)
    ensures
        r.raw == channel(b, SCALE as int),
        0 <= r.raw <= SCALE,
{
    proof {
        vstd::arithmetic::div_mod::lemma_div_pos_is_pos((b as int) * (SCALE as int), 255);
        vstd::arithmetic::div_mod::lemma_div_is_ordered(
            (b as int) * (SCALE as int),
            255 * (SCALE as int),
            255,
        );
        vstd::arithmetic::div_mod::lemma_div_multiples_vanish(SCALE as int, 255);
    }
    Fx::from_raw((((b as u64) * 65536) / 255) as i64)
}

} // verus!
