//! Scattering: how a ray continues after a hit.  Each variant's decision is
//! a function of the hit and its injected random samples, so the sampled
//! versions here are pinned exactly and only the draws stay free.

use vstd::prelude::*;
use crate::fixed::{
    Fx, SCALE, T_MAX, mul_raw, div_raw, isqrt, lemma_mul_bound, lemma_mul_raw_bound,
    lemma_div_raw_ratio, lemma_mul_raw_neg,
};
use crate::vec3::{
    Vec3, fits, fits1, clamp1, dot_raw, unit_spec, reflect_x, reflect_y, reflect_z, refract_out_x,
    refract_out_y, refract_out_z, schlick_raw, UNIT_MIN_SQ, UNIT_MAX, lemma_sq_nonneg,
};
use crate::ray::{Ray, ray_fits};
use crate::hittable::{HitRecord, NORMAL_MAX, P_MAX};
use crate::texture::{Texture, tex_wf, tex_max, color_ok, value_spec};
use crate::rng::rand_unit;

verus! {

/// Raw bound on emitted light per channel.
pub const EMIT_MAX: i64 = 67108864;

/// Diffuse: scatter about the normal, tinted by a texture.
pub struct Lambertian {
    pub albedo: Texture,
}

/// Specular: mirror reflection, optionally fuzzed, tinted by a colour.
pub struct Metal {
    pub albedo: Vec3,
    pub fuzz: Fx,
}

/// Refractive glass with one index; never absorbs.
pub struct Dielectric {
    pub ref_idx: Fx,
}

/// Emits its texture's colour and never scatters.
pub struct DiffuseLight {
    pub emit: Texture,
}

/// The phase function of a constant medium: scatters uniformly.
pub struct Isotropic {
    pub albedo: Texture,
}

/// A scattering policy.
pub enum Material {
    Lambertian(Lambertian),
    Metal(Metal),
    Dielectric(Dielectric),
    DiffuseLight(DiffuseLight),
    Isotropic(Isotropic),
}

/// What a material needs to be queried safely: textures well formed,
/// albedos within one, emission bounded, refractive index moderate.
pub open spec fn m_wf(m: Material) -> bool {
    match m {
        Material::Lambertian(l) => tex_wf(l.albedo) && tex_max(l.albedo) <= SCALE,
        Material::Metal(mt) => color_ok(mt.albedo, SCALE as int) && 0 <= mt.fuzz.raw <= SCALE,
        Material::Dielectric(d) => 1024 <= d.ref_idx.raw <= 4194304,
        Material::DiffuseLight(dl) => tex_wf(dl.emit) && tex_max(dl.emit) <= EMIT_MAX,
        Material::Isotropic(i) => tex_wf(i.albedo) && tex_max(i.albedo) <= SCALE,
    }
}

/// Every material of the scene's table is well formed.
pub open spec fn mats_wf(s: Seq<Material>) -> bool {
    forall|i: int| 0 <= i < s.len() ==> m_wf(#[trigger] s[i])
}

/// The diffuse scatter direction: normal plus the sampled unit vector,
/// falling back to the bare normal when the sum degenerates to zero.
pub open spec fn lambertian_dir(normal: Vec3, ruv: Vec3) -> Vec3 {
    let sx = normal.x.raw + ruv.x.raw;
    let sy = normal.y.raw + ruv.y.raw;
    let sz = normal.z.raw + ruv.z.raw;
    if sx == 0 && sy == 0 && sz == 0 {
        normal
    } else {
        Vec3 { x: Fx { raw: sx as i64 }, y: Fx { raw: sy as i64 }, z: Fx { raw: sz as i64 } }
    }
}

/// With the degenerate sample (the zero vector) injected, the diffuse
/// scatter direction is exactly the surface normal.
pub proof fn lemma_lambertian_degenerate(normal: Vec3)
    ensures
        lambertian_dir(normal, Vec3 { x: Fx { raw: 0 }, y: Fx { raw: 0 }, z: Fx { raw: 0 } })
            == normal,
{
}

/// The metal scatter direction: the reflection of the normalised incoming
/// direction, perturbed by `fuzz` times the sampled point, clamped into the
/// direction range.
pub open spec fn metal_dir(dir: Vec3, normal: Vec3, fuzz: Fx, rnd: Vec3) -> Vec3 {
    let u = unit_spec(dir);
    Vec3 {
        x: Fx {
            raw: clamp1(
                reflect_x(u, normal) + mul_raw(rnd.x.raw as int, fuzz.raw as int),
                crate::fixed::DIR_MAX as int,
            ) as i64,
        },
        y: Fx {
            raw: clamp1(
                reflect_y(u, normal) + mul_raw(rnd.y.raw as int, fuzz.raw as int),
                crate::fixed::DIR_MAX as int,
            ) as i64,
        },
        z: Fx {
            raw: clamp1(
                reflect_z(u, normal) + mul_raw(rnd.z.raw as int, fuzz.raw as int),
                crate::fixed::DIR_MAX as int,
            ) as i64,
        },
    }
}

/// The normal the dielectric works with: clamped into two units so the
/// refraction formulas stay in range; unit normals pass unchanged.
pub open spec fn diel_n(normal: Vec3) -> Vec3 {
    Vec3 {
        x: Fx { raw: clamp1(normal.x.raw as int, 131072) as i64 },
        y: Fx { raw: clamp1(normal.y.raw as int, 131072) as i64 },
        z: Fx { raw: clamp1(normal.z.raw as int, 131072) as i64 },
    }
}

/// The relative refractive-index ratio at the hit.
pub open spec fn diel_etai(ref_idx: Fx, front_face: bool) -> int {
    if front_face {
        div_raw(SCALE as int, ref_idx.raw as int)
    } else {
        ref_idx.raw as int
    }
}

/// Cosine of incidence, clamped into `[-1, 1]`.
pub open spec fn diel_cos(dir: Vec3, normal: Vec3) -> int {
    let c = -dot_raw(unit_spec(dir), diel_n(normal));
    let c1 = if c <= SCALE {
        c
    } else {
        SCALE as int
    };
    if c1 < -SCALE {
        -(SCALE as int)
    } else {
        c1
    }
}

/// Whether Snell's law has no real solution: total internal reflection.
pub open spec fn diel_tir(dir: Vec3, normal: Vec3, etai: int) -> bool {
    let cos = diel_cos(dir, normal);
    let sin = isqrt((SCALE - mul_raw(cos, cos)) * (SCALE as int));
    mul_raw(etai, sin) > SCALE
}

/// A vector clamped componentwise into the direction range.
pub open spec fn clamp_dir(x: int, y: int, z: int) -> Vec3 {
    Vec3 {
        x: Fx { raw: clamp1(x, crate::fixed::DIR_MAX as int) as i64 },
        y: Fx { raw: clamp1(y, crate::fixed::DIR_MAX as int) as i64 },
        z: Fx { raw: clamp1(z, crate::fixed::DIR_MAX as int) as i64 },
    }
}

/// The dielectric's reflected direction.
pub open spec fn diel_reflect(dir: Vec3, normal: Vec3) -> Vec3 {
    let u = unit_spec(dir);
    let n2 = diel_n(normal);
    clamp_dir(reflect_x(u, n2), reflect_y(u, n2), reflect_z(u, n2))
}

/// The dielectric's refracted direction.
pub open spec fn diel_refract(dir: Vec3, normal: Vec3, etai: int) -> Vec3 {
    let u = unit_spec(dir);
    let n2 = diel_n(normal);
    let e = Fx { raw: etai as i64 };
    clamp_dir(refract_out_x(u, n2, e), refract_out_y(u, n2, e), refract_out_z(u, n2, e))
}

/// The dielectric scatter direction for a given reflectance draw: reflect
/// on total internal reflection or when Schlick's reflectance exceeds the
/// draw, refract otherwise.
pub open spec fn diel_dir(ref_idx: Fx, dir: Vec3, normal: Vec3, front_face: bool, draw: int)
    -> Vec3 {
    let etai = diel_etai(ref_idx, front_face);
    if diel_tir(dir, normal, etai) {
        diel_reflect(dir, normal)
    } else if draw < schlick_raw(diel_cos(dir, normal), etai) {
        diel_reflect(dir, normal)
    } else {
        diel_refract(dir, normal, etai)
    }
}

impl Lambertian {
    pub fn new(color: Texture) -> (m: Self)
        ensures
            m.albedo == color,
    {
        Lambertian { albedo: color }
    }

    /// Scatter with an injected unit-sphere sample: always bounces, with
    /// the direction pinned by `lambertian_dir`.
    pub fn scatter(&self, r_in: &Ray, rec: &HitRecord, rand_unit_vec: Vec3) -> (res: Option<
        (Ray, Vec3),
    >)
        requires
            tex_wf(self.albedo),
            fits(rec.normal, NORMAL_MAX as int),
            fits(rand_unit_vec, 2 * (SCALE as int)),
            fits(rec.p, P_MAX as int),
        ensures
            res matches Some(sa) ==> sa.0.origin == rec.p && sa.0.time == r_in.time
                && sa.0.direction == lambertian_dir(rec.normal, rand_unit_vec) && fits(
                sa.0.direction,
                crate::fixed::DIR_MAX as int,
            ) && sa.1 == value_spec(self.albedo, rec.u, rec.v, rec.p) && color_ok(
                sa.1,
                tex_max(self.albedo),
            ),
            res is Some,
    {
        let mut scatter_direction = rec.normal.add(rand_unit_vec);
        if scatter_direction.near_zero() {
            scatter_direction = rec.normal;
        }
        let scattered = Ray::new(rec.p, scatter_direction, r_in.time);
        let attenuation = self.albedo.value(rec.u, rec.v, &rec.p);
        Some((scattered, attenuation))
    }
}

impl Metal {
    /// Fuzz above one is clamped down to one.
    pub fn new(color: Vec3, f: Fx) -> (m: Self)
        requires
            f.raw >= 0,
        ensures
            m.albedo == color,
            m.fuzz.raw == if f.raw < SCALE {
                f.raw as int
            } else {
                SCALE as int
            },
    {
        Metal { albedo: color, fuzz: f.min(Fx::one()) }
    }

    /// Scatter with an injected unit-sphere sample: reflect and perturb;
    /// absorbed exactly when the result points into the surface.
    pub fn scatter(&self, r_in: &Ray, rec: &HitRecord, rand_in_sphere: Vec3) -> (res: Option<
        (Ray, Vec3),
    >)
        requires
            0 <= self.fuzz.raw <= SCALE,
            ray_fits(*r_in),
            fits(rec.normal, NORMAL_MAX as int),
            fits(rand_in_sphere, SCALE as int),
            fits(rec.p, P_MAX as int),
        ensures
            dot_raw(r_in.direction, r_in.direction) < UNIT_MIN_SQ ==> res is None,
            dot_raw(r_in.direction, r_in.direction) >= UNIT_MIN_SQ ==> {
                let d = metal_dir(r_in.direction, rec.normal, self.fuzz, rand_in_sphere);
                &&& (res is Some) == (dot_raw(d, rec.normal) > 0)
                &&& (res matches Some(sa) ==> sa.0.origin == rec.p && sa.0.time == r_in.time
                    && sa.0.direction == d && sa.1 == self.albedo)
            },
    {
        let sq = r_in.direction.squared_length();
        if sq.raw < UNIT_MIN_SQ {
            return None;
        }
        let unit_ray_direction = Vec3::unit_vector(r_in.direction);
        proof {
            lemma_reflect_bounds(unit_ray_direction, rec.normal);
            lemma_mul_raw_bound(rand_in_sphere.x.raw as int, self.fuzz.raw as int, SCALE as int,
                SCALE as int);
            lemma_mul_raw_bound(rand_in_sphere.y.raw as int, self.fuzz.raw as int, SCALE as int,
                SCALE as int);
            lemma_mul_raw_bound(rand_in_sphere.z.raw as int, self.fuzz.raw as int, SCALE as int,
                SCALE as int);
        }
        let reflected = Vec3::reflect(unit_ray_direction, rec.normal);
        let scattered_dir = reflected.add(rand_in_sphere.scale(self.fuzz)).clamp_sym(
            Fx::from_raw(crate::fixed::DIR_MAX),
        );
        let scattered = Ray::new(rec.p, scattered_dir, r_in.time);
        if Vec3::dot(scattered.direction, rec.normal).raw > 0 {
            Some((scattered, self.albedo))
        } else {
            None
        }
    }
}

/// Bound every component of a reflection of a normalised direction about a
/// bounded normal.
proof fn lemma_reflect_bounds(u: Vec3, n: Vec3)
    requires
        fits(u, UNIT_MAX as int),
        fits(n, NORMAL_MAX as int),
    ensures
        fits1(reflect_x(u, n), 0x10000000),
        fits1(reflect_y(u, n), 0x10000000),
        fits1(reflect_z(u, n), 0x10000000),
        fits1(dot_raw(u, n), 0x400000),
{
    lemma_mul_raw_bound(u.x.raw as int, n.x.raw as int, UNIT_MAX as int, NORMAL_MAX as int);
    lemma_mul_raw_bound(u.y.raw as int, n.y.raw as int, UNIT_MAX as int, NORMAL_MAX as int);
    lemma_mul_raw_bound(u.z.raw as int, n.z.raw as int, UNIT_MAX as int, NORMAL_MAX as int);
    lemma_mul_raw_bound(n.x.raw as int, 2 * dot_raw(u, n), NORMAL_MAX as int, 0x800000);
    lemma_mul_raw_bound(n.y.raw as int, 2 * dot_raw(u, n), NORMAL_MAX as int, 0x800000);
    lemma_mul_raw_bound(n.z.raw as int, 2 * dot_raw(u, n), NORMAL_MAX as int, 0x800000);
}

impl Dielectric {
    pub fn new(ri: Fx) -> (m: Self)
        ensures
            m.ref_idx == ri,
    {
        Dielectric { ref_idx: ri }
    }

    /// Scatter with an injected reflectance draw in `[0, 1)`: always
    /// bounces (attenuation is white), reflecting or refracting as
    /// `diel_dir` says.
    pub fn scatter(&self, r_in: &Ray, rec: &HitRecord, draw: Fx) -> (res: Option<(Ray, Vec3)>)
        requires
            1024 <= self.ref_idx.raw <= 4194304,
            ray_fits(*r_in),
            fits(rec.normal, NORMAL_MAX as int),
            fits(rec.p, P_MAX as int),
            0 <= draw.raw < SCALE,
        ensures
            dot_raw(r_in.direction, r_in.direction) < UNIT_MIN_SQ ==> res is None,
            dot_raw(r_in.direction, r_in.direction) >= UNIT_MIN_SQ ==> (res matches Some(sa)
                && sa.0.origin == rec.p && sa.0.time == r_in.time && sa.0.direction == diel_dir(
                self.ref_idx,
                r_in.direction,
                rec.normal,
                rec.front_face,
                draw.raw as int,
            ) && sa.1.x.raw == SCALE && sa.1.y.raw == SCALE && sa.1.z.raw == SCALE),
    {
        let sq = r_in.direction.squared_length();
        if sq.raw < UNIT_MIN_SQ {
            return None;
        }
        let attenuation = Vec3::one();
        let etai_over_etat = if rec.front_face {
            proof {
                vstd::arithmetic::div_mod::lemma_div_pos_is_pos(
                    (SCALE as int) * (SCALE as int),
                    self.ref_idx.raw as int,
                );
                vstd::arithmetic::div_mod::lemma_div_is_ordered_by_denominator(
                    (SCALE as int) * (SCALE as int),
                    1024,
                    self.ref_idx.raw as int,
                );
            }
            Fx::one().div(self.ref_idx)
        } else {
            self.ref_idx
        };
        let n2 = rec.normal.clamp_sym(Fx::from_raw(131072));
        let unit_direction = Vec3::unit_vector(r_in.direction);
        proof {
            lemma_mul_raw_neg(unit_direction.x.raw as int, n2.x.raw as int);
            lemma_mul_raw_neg(unit_direction.y.raw as int, n2.y.raw as int);
            lemma_mul_raw_neg(unit_direction.z.raw as int, n2.z.raw as int);
            lemma_mul_raw_bound(unit_direction.x.raw as int, n2.x.raw as int, UNIT_MAX as int,
                131072);
            lemma_mul_raw_bound(unit_direction.y.raw as int, n2.y.raw as int, UNIT_MAX as int,
                131072);
            lemma_mul_raw_bound(unit_direction.z.raw as int, n2.z.raw as int, UNIT_MAX as int,
                131072);
        }
        let cos0 = Vec3::dot(unit_direction.neg(), n2);
        let cos_theta = cos0.min(Fx::one()).max(Fx::one().neg());
        proof {
            lemma_mul_raw_bound(cos_theta.raw as int, cos_theta.raw as int, SCALE as int,
                SCALE as int);
            lemma_sq_nonneg(cos_theta.raw as int);
        }
        let sin_theta = Fx::one().sub(cos_theta.mul(cos_theta)).sqrt();
        proof {
            assert(sin_theta.raw <= SCALE) by (nonlinear_arith)
                requires
                    0 <= sin_theta.raw,
                    (sin_theta.raw as int) * (sin_theta.raw as int) <= (SCALE as int) * (
                    SCALE as int),
            ;
            lemma_mul_bound(etai_over_etat.raw as int, sin_theta.raw as int, 4194304,
                SCALE as int);
            lemma_mul_raw_bound(etai_over_etat.raw as int, sin_theta.raw as int, 4194304,
                SCALE as int);
        }
        if etai_over_etat.mul(sin_theta).raw > SCALE {
            proof {
                lemma_reflect_bounds(unit_direction, n2);
            }
            let reflected = Vec3::reflect(unit_direction, n2).clamp_sym(
                Fx::from_raw(crate::fixed::DIR_MAX),
            );
            return Some((Ray::new(rec.p, reflected, r_in.time), attenuation));
        }
        let reflect_prob = Vec3::schlick(cos_theta, etai_over_etat);
        if draw.raw < reflect_prob.raw {
            proof {
                lemma_reflect_bounds(unit_direction, n2);
            }
            let reflected = Vec3::reflect(unit_direction, n2).clamp_sym(
                Fx::from_raw(crate::fixed::DIR_MAX),
            );
            return Some((Ray::new(rec.p, reflected, r_in.time), attenuation));
        }
        let refracted = Vec3::refract(unit_direction, n2, etai_over_etat).clamp_sym(
            Fx::from_raw(crate::fixed::DIR_MAX),
        );
        Some((Ray::new(rec.p, refracted, r_in.time), attenuation))
    }
}

impl DiffuseLight {
    pub fn new(emit: Texture) -> (m: Self)
        ensures
            m.emit == emit,
    {
        DiffuseLight { emit }
    }

    /// A light never scatters.
    pub fn scatter(&self, r_in: &Ray, rec: &HitRecord) -> (res: Option<(Ray, Vec3)>)
        ensures
            res is None,
    {
        None
    }
}

impl Isotropic {
    pub fn new(color: Texture) -> (m: Self)
        ensures
            m.albedo == color,
    {
        Isotropic { albedo: color }
    }

    /// Scatter with an injected unit-sphere sample: continue in that
    /// direction, tinted by the texture.
    pub fn scatter(&self, r_in: &Ray, rec: &HitRecord, rand_in_sphere: Vec3) -> (res: Option<
        (Ray, Vec3),
    >)
        requires
            tex_wf(self.albedo),
            fits(rand_in_sphere, SCALE as int),
            fits(rec.p, P_MAX as int),
        ensures
            res matches Some(sa) && sa.0.origin == rec.p && sa.0.time == r_in.time
                && sa.0.direction == rand_in_sphere && sa.1 == value_spec(
                self.albedo,
                rec.u,
                rec.v,
                rec.p,
            ) && color_ok(sa.1, tex_max(self.albedo)),
    {
        let scattered = Ray::new(rec.p, rand_in_sphere, r_in.time);
        let attenuation = self.albedo.value(rec.u, rec.v, &rec.p);
        Some((scattered, attenuation))
    }
}

impl Material {
    /// Decide how the ray continues: draw this material's samples and apply
    /// its deterministic scattering rule.  Whatever was drawn, a scattered
    /// ray starts at the hit point, keeps the ray's time, has a direction
    /// within bounds, and carries an attenuation within one per channel.
    pub fn scatter(&self, r_in: &Ray, rec: &HitRecord, rng: &mut rand::rngs::StdRng) -> (res:
        Option<(Ray, Vec3)>)
        requires
            m_wf(*self),
            ray_fits(*r_in),
            fits(rec.normal, NORMAL_MAX as int),
            fits(rec.p, P_MAX as int),
        ensures
            res matches Some(sa) ==> sa.0.origin == rec.p && sa.0.time == r_in.time && fits(
                sa.0.direction,
                crate::fixed::DIR_MAX as int,
            ) && color_ok(sa.1, SCALE as int),
            *self matches Material::DiffuseLight(_) ==> res is None,
            *self matches Material::Lambertian(_) ==> res is Some,
            *self matches Material::Dielectric(_) ==> (res is Some) == (dot_raw(
                r_in.direction,
                r_in.direction,
            ) >= UNIT_MIN_SQ),
            *self matches Material::Metal(mt) ==> (res matches Some(sa) ==> dot_raw(
                sa.0.direction,
                rec.normal,
            ) > 0 && sa.1 == mt.albedo),
            *self matches Material::Isotropic(_) ==> res is Some,
            *self matches Material::Lambertian(l) ==> (res matches Some(sa) ==> sa.1
                == value_spec(l.albedo, rec.u, rec.v, rec.p)),
            *self matches Material::Isotropic(i) ==> (res matches Some(sa) ==> sa.1 == value_spec(
                i.albedo,
                rec.u,
                rec.v,
                rec.p,
            )),
    {
        match self {
            Material::Lambertian(l) => {
                let ruv = Vec3::random_unit_vector(rng);
                l.scatter(r_in, rec, ruv)
            },
            Material::Metal(mt) => {
                let rs = Vec3::random_in_unit_sphere(rng);
                mt.scatter(r_in, rec, rs)
            },
            Material::Dielectric(d) => {
                let draw = rand_unit(rng);
                d.scatter(r_in, rec, draw)
            },
            Material::DiffuseLight(dl) => dl.scatter(r_in, rec),
            Material::Isotropic(i) => {
                let rs = Vec3::random_in_unit_sphere(rng);
                i.scatter(r_in, rec, rs)
            },
        }
    }

    /// The light this material adds on its own: the emission texture's
    /// colour for a light, black for everything else.
    pub fn emitted(&self, u: Fx, v: Fx, p: &Vec3) -> (r: Vec3)
        requires
            m_wf(*self),
            fits(*p, P_MAX as int),
        ensures
            color_ok(r, EMIT_MAX as int),
            *self matches Material::DiffuseLight(dl) ==> r == value_spec(dl.emit, u, v, *p),
            !(*self matches Material::DiffuseLight(_)) ==> r.x.raw == 0 && r.y.raw == 0
                && r.z.raw == 0,
    {
        match self {
            Material::DiffuseLight(dl) => dl.emit.value(u, v, p),
            _ => Vec3::zero(),
        }
    }
}

} // verus!
