//! Constant-density participating media: the wrapped shape is only a
//! boundary; inside it, a free-flight distance is sampled and the ray either
//! scatters there or passes through.

use vstd::prelude::*;
use crate::fixed::{Fx, SCALE, T_MAX, mul_raw, div_raw, isqrt, lemma_mul_bound,
    lemma_mul_raw_bound, lemma_div_raw_bound};
use crate::vec3::{Vec3, fits, fits1, dot_raw};
use crate::ray::{Ray, ray_fits};
use crate::hittable::{Hittable, HitRecord, NORMAL_MAX, oriented_rec};
use crate::sphere::{px_at, py_at, pz_at};
use crate::trig::{log2_unit, log2_unit_spec, LN_2};

verus! {

/// The fixed-point length of a direction vector.
pub open spec fn ray_len_spec(dir: Vec3) -> int {
    isqrt(dot_raw(dir, dir) * (SCALE as int))
}

/// The natural logarithm of a uniform draw from `[0, 1)`, mapped into
/// `(0, 1]` by one raw unit so the logarithm is defined.
pub open spec fn ln_unit_spec(draw: int) -> int {
    mul_raw(log2_unit_spec(draw + 1), LN_2 as int)
}

/// The ray parameter at which the medium scatters, as a function of the
/// boundary's entry and exit parameters and the uniform draw: clamp the
/// segment to the window (missing when it empties or the direction has no
/// length), sample the free-flight distance, and miss when it overshoots
/// the segment.
pub open spec fn medium_hit_t(neg_inv: int, dir: Vec3, t_min: int, t_max: int, te: int, tx: int,
    draw: int) -> Option<int> {
    let t1a = if te < t_min {
        t_min
    } else {
        te
    };
    let t2 = if tx > t_max {
        t_max
    } else {
        tx
    };
    if t1a >= t2 {
        None
    } else {
        let t1 = if t1a < 0 {
            0
        } else {
            t1a
        };
        if t1 >= t2 {
            None
        } else {
            let len = ray_len_spec(dir);
            if len == 0 {
                None
            } else {
                let dist = mul_raw(t2 - t1, len);
                let hd = mul_raw(neg_inv, ln_unit_spec(draw));
                if hd > dist {
                    None
                } else {
                    Some(t1 + div_raw(hd, len))
                }
            }
        }
    }
}

/// The full record of a medium scatter for a given draw: the point at the
/// sampled parameter, the entry hit's surface coordinates, a fixed
/// arbitrary normal (direction is irrelevant inside an isotropic medium),
/// and the phase material.
pub open spec fn medium_full(neg_inv: int, phase: usize, r: Ray, t_min: int, t_max: int, te: int,
    tx: int, u: Fx, v: Fx, draw: int) -> Option<HitRecord> {
    match medium_hit_t(neg_inv, r.direction, t_min, t_max, te, tx, draw) {
        Option::None => None,
        Option::Some(t) => Some(
            oriented_rec(
                Vec3 {
                    x: Fx { raw: px_at(r, t) as i64 },
                    y: Fx { raw: py_at(r, t) as i64 },
                    z: Fx { raw: pz_at(r, t) as i64 },
                },
                Fx { raw: t as i64 },
                u,
                v,
                Vec3 { x: Fx { raw: SCALE }, y: Fx { raw: 0 }, z: Fx { raw: 0 } },
                r,
                phase,
            ),
        ),
    }
}

/// A medium of constant density bounded by an arbitrary shape, scattering
/// with the phase material at the given table index.
pub struct ConstantMedium {
    pub neg_inv_density: Fx,
    pub boundary: Box<Hittable>,
    pub phase_function: usize,
}

impl ConstantMedium {
    /// Precompute `-1 / density`; the density must be positive.
    pub fn new(d: Fx, b: Box<Hittable>, a: usize) -> (m: Self)
        requires
            d.raw > 0,
        ensures
            m.neg_inv_density.raw == div_raw(-(SCALE as int), d.raw as int),
            m.neg_inv_density.raw <= 0,
            fits1(m.neg_inv_density.raw as int, 0x100000000),
            m.boundary == b,
            m.phase_function == a,
    {
        proof {
            lemma_div_raw_bound(-(SCALE as int), d.raw as int, SCALE as int);
            vstd::arithmetic::div_mod::lemma_div_pos_is_pos(
                (SCALE as int) * (SCALE as int),
                d.raw as int,
            );
            assert((-(SCALE as int)) * (SCALE as int) == -((SCALE as int) * (SCALE as int)))
                by (nonlinear_arith);
        }
        ConstantMedium { neg_inv_density: Fx::one().neg().div(d), boundary: b, phase_function: a }
    }

    /// Given the boundary's entry and exit parameters and the uniform draw
    /// in `[0, 1)`, clamp the segment to the query window, sample a
    /// free-flight distance, and scatter inside the segment or miss —
    /// exactly as `medium_full` says, for every value of the draw.
    pub fn sample_interior(&self, r: Ray, t_min: Fx, t_max: Fx, t_enter: Fx, t_exit: Fx, u: Fx,
        v: Fx, draw: Fx) -> (res: Option<HitRecord>)
        requires
            ray_fits(r),
            fits1(t_min.raw as int, T_MAX as int),
            fits1(t_max.raw as int, T_MAX as int),
            fits1(t_enter.raw as int, T_MAX as int),
            fits1(t_exit.raw as int, T_MAX as int),
            self.neg_inv_density.raw <= 0,
            fits1(self.neg_inv_density.raw as int, 0x100000000),
            0 <= draw.raw < SCALE,
        ensures
            res == medium_full(
                self.neg_inv_density.raw as int,
                self.phase_function,
                r,
                t_min.raw as int,
                t_max.raw as int,
                t_enter.raw as int,
                t_exit.raw as int,
                u,
                v,
                draw.raw as int,
            ),
            res matches Some(rec) ==> {
                let entry = if t_enter.raw < t_min.raw {
                    t_min.raw as int
                } else {
                    t_enter.raw as int
                };
                let entry0 = if entry < 0 {
                    0
                } else {
                    entry
                };
                let exit = if t_exit.raw > t_max.raw {
                    t_max.raw as int
                } else {
                    t_exit.raw as int
                };
                &&& entry0 <= rec.t.raw <= exit
                &&& t_min.raw <= rec.t.raw <= t_max.raw
                &&& rec.mat == self.phase_function
                &&& rec.u == u
                &&& rec.v == v
                &&& rec.p.x.raw == px_at(r, rec.t.raw as int)
                &&& rec.p.y.raw == py_at(r, rec.t.raw as int)
                &&& rec.p.z.raw == pz_at(r, rec.t.raw as int)
                &&& fits(rec.normal, NORMAL_MAX as int)
            },
    {
        let mut t1 = t_enter;
        let mut t2 = t_exit;
        if t1.raw < t_min.raw {
            t1 = t_min;
        }
        if t2.raw > t_max.raw {
            t2 = t_max;
        }
        if t1.raw >= t2.raw {
            return None;
        }
        if t1.raw < 0 {
            t1 = Fx::zero();
        }
        if t1.raw >= t2.raw {
            return None;
        }
        let ray_length = r.direction.length();
        if ray_length.raw == 0 {
            return None;
        }
        proof {
            lemma_mul_raw_bound(
                r.direction.x.raw as int,
                r.direction.x.raw as int,
                0x200000,
                0x200000,
            );
            lemma_mul_raw_bound(
                r.direction.y.raw as int,
                r.direction.y.raw as int,
                0x200000,
                0x200000,
            );
            lemma_mul_raw_bound(
                r.direction.z.raw as int,
                r.direction.z.raw as int,
                0x200000,
                0x200000,
            );
            crate::vec3::lemma_sq_nonneg(r.direction.x.raw as int);
            crate::vec3::lemma_sq_nonneg(r.direction.y.raw as int);
            crate::vec3::lemma_sq_nonneg(r.direction.z.raw as int);
            crate::fixed::lemma_isqrt_bounds(
                crate::vec3::dot_raw(r.direction, r.direction) * (SCALE as int),
            );
            assert(ray_length.raw < 0x400000) by (nonlinear_arith)
                requires
                    0 <= ray_length.raw,
                    (ray_length.raw as int) * (ray_length.raw as int) <= crate::vec3::dot_raw(
                        r.direction,
                        r.direction,
                    ) * (SCALE as int),
                    crate::vec3::dot_raw(r.direction, r.direction) * (SCALE as int)
                        < 0x400000 * 0x400000,
            ;
            lemma_mul_bound(t2.raw - t1.raw, ray_length.raw as int, 0x80000000, 0x400000);
            lemma_mul_raw_bound(t2.raw - t1.raw, ray_length.raw as int, 0x80000000, 0x400000);
        }
        let dist_inside = t2.sub(t1).mul(ray_length);
        let lg = log2_unit(Fx::from_raw(draw.raw + 1));
        proof {
            lemma_mul_bound(lg.raw as int, LN_2 as int, 17 * (SCALE as int), LN_2 as int);
            lemma_mul_raw_bound(lg.raw as int, LN_2 as int, 17 * (SCALE as int), LN_2 as int);
            assert((lg.raw as int) * (LN_2 as int) <= 0) by (nonlinear_arith)
                requires
                    lg.raw <= 0,
            ;
            vstd::arithmetic::div_mod::lemma_div_pos_is_pos(
                -((lg.raw as int) * (LN_2 as int)),
                SCALE as int,
            );
        }
        let ln_val = lg.mul(Fx::from_raw(LN_2));
        proof {
            lemma_mul_bound(self.neg_inv_density.raw as int, ln_val.raw as int, 0x100000000,
                0x100000);
            lemma_mul_raw_bound(self.neg_inv_density.raw as int, ln_val.raw as int, 0x100000000,
                0x100000);
            assert((self.neg_inv_density.raw as int) * (ln_val.raw as int) >= 0)
                by (nonlinear_arith)
                requires
                    self.neg_inv_density.raw <= 0,
                    ln_val.raw <= 0,
            ;
            vstd::arithmetic::div_mod::lemma_div_pos_is_pos(
                (self.neg_inv_density.raw as int) * (ln_val.raw as int),
                SCALE as int,
            );
        }
        let hit_distance = self.neg_inv_density.mul(ln_val);
        if hit_distance.raw > dist_inside.raw {
            return None;
        }
        proof {
            let delta = t2.raw - t1.raw;
            let len = ray_length.raw as int;
            let s = SCALE as int;
            assert(delta * len >= 0) by (nonlinear_arith)
                requires
                    delta >= 0,
                    len >= 0,
            ;
            vstd::arithmetic::div_mod::lemma_fundamental_div_mod(delta * len, s);
            vstd::arithmetic::div_mod::lemma_mod_division_less_than_divisor(delta * len, s);
            vstd::arithmetic::div_mod::lemma_div_pos_is_pos(delta * len, s);
            assert((dist_inside.raw as int) * s <= delta * len);
            assert((hit_distance.raw as int) * s <= delta * len);
            vstd::arithmetic::div_mod::lemma_div_is_ordered(
                (hit_distance.raw as int) * s,
                delta * len,
                len,
            );
            vstd::arithmetic::div_mod::lemma_div_multiples_vanish(delta, len);
            assert(len * delta == delta * len) by (nonlinear_arith);
            vstd::arithmetic::div_mod::lemma_div_pos_is_pos((hit_distance.raw as int) * s, len);
        }
        let step = hit_distance.div(ray_length);
        let t = t1.add(step);
        proof {
            lemma_mul_raw_bound(
                r.direction.x.raw as int,
                t.raw as int,
                crate::fixed::DIR_MAX as int,
                T_MAX as int,
            );
            lemma_mul_raw_bound(
                r.direction.y.raw as int,
                t.raw as int,
                crate::fixed::DIR_MAX as int,
                T_MAX as int,
            );
            lemma_mul_raw_bound(
                r.direction.z.raw as int,
                t.raw as int,
                crate::fixed::DIR_MAX as int,
                T_MAX as int,
            );
        }
        let p = r.at(t);
        let outward = Vec3::new(Fx::one(), Fx::zero(), Fx::zero());
        Some(HitRecord::new(p, t, u, v, outward, r, self.phase_function))
    }
}

} // verus!
