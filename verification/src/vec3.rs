//! Three-component fixed-point vectors: points, offsets and colours.
//!
//! Every operation states its result exactly, raw component by raw
//! component, over the `mul_raw` / `div_raw` rounding model of `fixed`.

use vstd::prelude::*;
use crate::fixed::{
    Fx, SCALE, mul_raw, div_raw, isqrt, lemma_mul_bound, lemma_mul_raw_bound, lemma_isqrt_bounds,
    lemma_mul_raw_neg, lemma_div_raw_ratio,
};
use crate::rng::{rand_unit, rand_range};

verus! {

/// Raw bound accepted by a fixed-point dot product.
pub const DOT_ARG: i64 = 274877906944;

/// Raw bound accepted by componentwise products and scalings.
pub const MUL_ARG: i64 = 549755813888;

/// Raw bound accepted by componentwise sums and differences.
pub const SUM_ARG: i64 = 4611686018427387903;

/// Least squared length a vector may have to be normalised.
pub const UNIT_MIN_SQ: i64 = 16384;

/// Raw component bound of a normalised vector: 1.0 plus rounding slack.
pub const UNIT_MAX: i64 = 65552;

/// A triple of fixed-point scalars; a point, direction or colour.
#[derive(Clone, Copy, Debug, PartialEq, Eq, Structural)]
pub struct Vec3 {
    pub x: Fx,
    pub y: Fx,
    pub z: Fx,
}

/// `-b <= a <= b`.
pub open spec fn fits1(a: int, b: int) -> bool {
    -b <= a <= b
}

/// `a` clamped into `[-b, b]`.
pub open spec fn clamp1(a: int, b: int) -> int {
    if a < -b {
        -b
    } else if a > b {
        b
    } else {
        a
    }
}

/// Every raw component of `v` lies within `-b ..= b`.
pub open spec fn fits(v: Vec3, b: int) -> bool {
    fits1(v.x.raw as int, b) && fits1(v.y.raw as int, b) && fits1(v.z.raw as int, b)
}

/// The normalised form of a vector: each component divided by the
/// fixed-point length.
pub open spec fn unit_spec(v: Vec3) -> Vec3 {
    let len = isqrt(dot_raw(v, v) * (SCALE as int));
    Vec3 {
        x: Fx { raw: div_raw(v.x.raw as int, len) as i64 },
        y: Fx { raw: div_raw(v.y.raw as int, len) as i64 },
        z: Fx { raw: div_raw(v.z.raw as int, len) as i64 },
    }
}

/// Raw value of the fixed-point dot product.
pub open spec fn dot_raw(u: Vec3, v: Vec3) -> int {
    mul_raw(u.x.raw as int, v.x.raw as int) + mul_raw(u.y.raw as int, v.y.raw as int) + mul_raw(
        u.z.raw as int,
        v.z.raw as int,
    )
}

/// A fixed-point square is never negative.
pub proof fn lemma_sq_nonneg(a: int)
    ensures
        mul_raw(a, a) >= 0,
{
    assert(a * a >= 0) by (nonlinear_arith);
    if a * a >= 0 {
        vstd::arithmetic::div_mod::lemma_div_pos_is_pos(a * a, SCALE as int);
    }
}

/// Scaling by exactly 1.0 is exact.
pub proof fn lemma_mul_one(a: int)
    ensures
        mul_raw(a, SCALE as int) == a,
{
    let s = SCALE as int;
    if a >= 0 {
        vstd::arithmetic::div_mod::lemma_div_multiples_vanish(a, s);
    } else {
        vstd::arithmetic::div_mod::lemma_div_multiples_vanish(-a, s);
        assert((-a) * s == -(a * s)) by (nonlinear_arith);
    }
}

impl Vec3 {
    pub fn x(&self) -> (r: Fx)
        ensures
            r == self.x,
    {
        self.x
    }

    pub fn y(&self) -> (r: Fx)
        ensures
            r == self.y,
    {
        self.y
    }

    pub fn z(&self) -> (r: Fx)
        ensures
            r == self.z,
    {
        self.z
    }

    pub fn new(x: Fx, y: Fx, z: Fx) -> (r: Self)
        ensures
            r.x == x,
            r.y == y,
            r.z == z,
    {
        Vec3 { x, y, z }
    }

    /// The vector (1, 1, 1).
    pub fn one() -> (r: Self)
        ensures
            r.x.raw == SCALE,
            r.y.raw == SCALE,
            r.z.raw == SCALE,
    {
        Vec3 { x: Fx::one(), y: Fx::one(), z: Fx::one() }
    }

    /// The vector (0, 0, 0).
    pub fn zero() -> (r: Self)
        ensures
            r.x.raw == 0,
            r.y.raw == 0,
            r.z.raw == 0,
    {
        Vec3 { x: Fx::zero(), y: Fx::zero(), z: Fx::zero() }
    }

    pub fn add(self, o: Self) -> (r: Self)
        requires
            fits(self, SUM_ARG as int),
            fits(o, SUM_ARG as int),
        ensures
            r.x.raw == self.x.raw + o.x.raw,
            r.y.raw == self.y.raw + o.y.raw,
            r.z.raw == self.z.raw + o.z.raw,
    {
        Vec3 { x: self.x.add(o.x), y: self.y.add(o.y), z: self.z.add(o.z) }
    }

    /// Add the other vector in place.
    pub fn add_assign(&mut self, o: Self)
        requires
            fits(*old(self), SUM_ARG as int),
            fits(o, SUM_ARG as int),
        ensures
            final(self).x.raw == old(self).x.raw + o.x.raw,
            final(self).y.raw == old(self).y.raw + o.y.raw,
            final(self).z.raw == old(self).z.raw + o.z.raw,
    {
        *self = Vec3 { x: self.x.add(o.x), y: self.y.add(o.y), z: self.z.add(o.z) };
    }

    pub fn sub(self, o: Self) -> (r: Self)
        requires
            fits(self, SUM_ARG as int),
            fits(o, SUM_ARG as int),
        ensures
            r.x.raw == self.x.raw - o.x.raw,
            r.y.raw == self.y.raw - o.y.raw,
            r.z.raw == self.z.raw - o.z.raw,
    {
        Vec3 { x: self.x.sub(o.x), y: self.y.sub(o.y), z: self.z.sub(o.z) }
    }

    /// Subtract the other vector in place.
    pub fn sub_assign(&mut self, o: Self)
        requires
            fits(*old(self), SUM_ARG as int),
            fits(o, SUM_ARG as int),
        ensures
            final(self).x.raw == old(self).x.raw - o.x.raw,
            final(self).y.raw == old(self).y.raw - o.y.raw,
            final(self).z.raw == old(self).z.raw - o.z.raw,
    {
        *self = Vec3 { x: self.x.sub(o.x), y: self.y.sub(o.y), z: self.z.sub(o.z) };
    }

    /// Subtract the scalar from every component.
    pub fn sub_scalar(self, o: Fx) -> (r: Self)
        requires
            fits(self, SUM_ARG as int),
            fits1(o.raw as int, SUM_ARG as int),
        ensures
            r.x.raw == self.x.raw - o.raw,
            r.y.raw == self.y.raw - o.raw,
            r.z.raw == self.z.raw - o.raw,
    {
        Vec3 { x: self.x.sub(o), y: self.y.sub(o), z: self.z.sub(o) }
    }

    /// Scale every component by the scalar in place.
    pub fn mul_assign(&mut self, t: Fx)
        requires
            fits(*old(self), MUL_ARG as int),
            fits1(t.raw as int, MUL_ARG as int),
        ensures
            final(self).x.raw == mul_raw(old(self).x.raw as int, t.raw as int),
            final(self).y.raw == mul_raw(old(self).y.raw as int, t.raw as int),
            final(self).z.raw == mul_raw(old(self).z.raw as int, t.raw as int),
    {
        *self = self.scale(t);
    }

    /// Divide every component by the scalar in place.
    pub fn div_assign(&mut self, t: Fx)
        requires
            t.raw != 0,
            fits(*old(self), 0x400000000000),
        ensures
            final(self).x.raw == div_raw(old(self).x.raw as int, t.raw as int),
            final(self).y.raw == div_raw(old(self).y.raw as int, t.raw as int),
            final(self).z.raw == div_raw(old(self).z.raw as int, t.raw as int),
    {
        *self = self.div_scalar(t);
    }

    pub fn neg(self) -> (r: Self)
        requires
            fits(self, SUM_ARG as int),
        ensures
            r.x.raw == -self.x.raw,
            r.y.raw == -self.y.raw,
            r.z.raw == -self.z.raw,
    {
        Vec3 { x: self.x.neg(), y: self.y.neg(), z: self.z.neg() }
    }

    /// Add the scalar to every component.
    pub fn add_scalar(self, o: Fx) -> (r: Self)
        requires
            fits(self, SUM_ARG as int),
            fits1(o.raw as int, SUM_ARG as int),
        ensures
            r.x.raw == self.x.raw + o.raw,
            r.y.raw == self.y.raw + o.raw,
            r.z.raw == self.z.raw + o.raw,
    {
        Vec3 { x: self.x.add(o), y: self.y.add(o), z: self.z.add(o) }
    }

    /// Componentwise product; used for colour attenuation.
    pub fn mul(self, o: Self) -> (r: Self)
        requires
            fits(self, MUL_ARG as int),
            fits(o, MUL_ARG as int),
        ensures
            r.x.raw == mul_raw(self.x.raw as int, o.x.raw as int),
            r.y.raw == mul_raw(self.y.raw as int, o.y.raw as int),
            r.z.raw == mul_raw(self.z.raw as int, o.z.raw as int),
    {
        proof {
            lemma_mul_bound(self.x.raw as int, o.x.raw as int, MUL_ARG as int, MUL_ARG as int);
            lemma_mul_bound(self.y.raw as int, o.y.raw as int, MUL_ARG as int, MUL_ARG as int);
            lemma_mul_bound(self.z.raw as int, o.z.raw as int, MUL_ARG as int, MUL_ARG as int);
        }
        Vec3 { x: self.x.mul(o.x), y: self.y.mul(o.y), z: self.z.mul(o.z) }
    }

    /// Scale every component by the scalar `t`.
    pub fn scale(self, t: Fx) -> (r: Self)
        requires
            fits(self, MUL_ARG as int),
            fits1(t.raw as int, MUL_ARG as int),
        ensures
            r.x.raw == mul_raw(self.x.raw as int, t.raw as int),
            r.y.raw == mul_raw(self.y.raw as int, t.raw as int),
            r.z.raw == mul_raw(self.z.raw as int, t.raw as int),
    {
        proof {
            lemma_mul_bound(self.x.raw as int, t.raw as int, MUL_ARG as int, MUL_ARG as int);
            lemma_mul_bound(self.y.raw as int, t.raw as int, MUL_ARG as int, MUL_ARG as int);
            lemma_mul_bound(self.z.raw as int, t.raw as int, MUL_ARG as int, MUL_ARG as int);
        }
        Vec3 { x: self.x.mul(t), y: self.y.mul(t), z: self.z.mul(t) }
    }

    /// Divide every component by the scalar `t`.
    pub fn div_scalar(self, t: Fx) -> (r: Self)
        requires
            t.raw != 0,
            fits(self, 0x400000000000),
        ensures
            r.x.raw == div_raw(self.x.raw as int, t.raw as int),
            r.y.raw == div_raw(self.y.raw as int, t.raw as int),
            r.z.raw == div_raw(self.z.raw as int, t.raw as int),
    {
        Vec3 { x: self.x.div(t), y: self.y.div(t), z: self.z.div(t) }
    }

    pub fn dot(u: Vec3, v: Vec3) -> (r: Fx)
        requires
            fits(u, DOT_ARG as int),
            fits(v, DOT_ARG as int),
        ensures
            r.raw == dot_raw(u, v),
    {
        proof {
            lemma_mul_bound(u.x.raw as int, v.x.raw as int, DOT_ARG as int, DOT_ARG as int);
            lemma_mul_bound(u.y.raw as int, v.y.raw as int, DOT_ARG as int, DOT_ARG as int);
            lemma_mul_bound(u.z.raw as int, v.z.raw as int, DOT_ARG as int, DOT_ARG as int);
            lemma_mul_raw_bound(u.x.raw as int, v.x.raw as int, DOT_ARG as int, DOT_ARG as int);
            lemma_mul_raw_bound(u.y.raw as int, v.y.raw as int, DOT_ARG as int, DOT_ARG as int);
            lemma_mul_raw_bound(u.z.raw as int, v.z.raw as int, DOT_ARG as int, DOT_ARG as int);
        }
        let a = u.x.mul(v.x);
        let b = u.y.mul(v.y);
        let c = u.z.mul(v.z);
        a.add(b).add(c)
    }

    pub fn squared_length(&self) -> (r: Fx)
        requires
            fits(*self, DOT_ARG as int),
        ensures
            r.raw == dot_raw(*self, *self),
            r.raw >= 0,
    {
        proof {
            lemma_sq_nonneg(self.x.raw as int);
            lemma_sq_nonneg(self.y.raw as int);
            lemma_sq_nonneg(self.z.raw as int);
        }
        Vec3::dot(*self, *self)
    }

    /// Fixed-point length: the floor square root of the squared length.
    pub fn length(&self) -> (r: Fx)
        requires
            fits(*self, DOT_ARG as int),
        ensures
            r.raw >= 0,
            r.raw == isqrt(dot_raw(*self, *self) * (SCALE as int)),
    {
        self.squared_length().sqrt()
    }

    pub fn cross(u: Vec3, v: Vec3) -> (r: Self)
        requires
            fits(u, DOT_ARG as int),
            fits(v, DOT_ARG as int),
        ensures
            r.x.raw == mul_raw(u.y.raw as int, v.z.raw as int) - mul_raw(
                u.z.raw as int,
                v.y.raw as int,
            ),
            r.y.raw == mul_raw(u.z.raw as int, v.x.raw as int) - mul_raw(
                u.x.raw as int,
                v.z.raw as int,
            ),
            r.z.raw == mul_raw(u.x.raw as int, v.y.raw as int) - mul_raw(
                u.y.raw as int,
                v.x.raw as int,
            ),
    {
        proof {
            lemma_mul_bound(u.y.raw as int, v.z.raw as int, DOT_ARG as int, DOT_ARG as int);
            lemma_mul_bound(u.z.raw as int, v.y.raw as int, DOT_ARG as int, DOT_ARG as int);
            lemma_mul_bound(u.z.raw as int, v.x.raw as int, DOT_ARG as int, DOT_ARG as int);
            lemma_mul_bound(u.x.raw as int, v.z.raw as int, DOT_ARG as int, DOT_ARG as int);
            lemma_mul_bound(u.x.raw as int, v.y.raw as int, DOT_ARG as int, DOT_ARG as int);
            lemma_mul_bound(u.y.raw as int, v.x.raw as int, DOT_ARG as int, DOT_ARG as int);
            lemma_mul_raw_bound(u.y.raw as int, v.z.raw as int, DOT_ARG as int, DOT_ARG as int);
            lemma_mul_raw_bound(u.z.raw as int, v.y.raw as int, DOT_ARG as int, DOT_ARG as int);
            lemma_mul_raw_bound(u.z.raw as int, v.x.raw as int, DOT_ARG as int, DOT_ARG as int);
            lemma_mul_raw_bound(u.x.raw as int, v.z.raw as int, DOT_ARG as int, DOT_ARG as int);
            lemma_mul_raw_bound(u.x.raw as int, v.y.raw as int, DOT_ARG as int, DOT_ARG as int);
            lemma_mul_raw_bound(u.y.raw as int, v.x.raw as int, DOT_ARG as int, DOT_ARG as int);
        }
        Vec3 {
            x: u.y.mul(v.z).sub(u.z.mul(v.y)),
            y: u.z.mul(v.x).sub(u.x.mul(v.z)),
            z: u.x.mul(v.y).sub(u.y.mul(v.x)),
        }
    }

    /// Clamp every component into `[-b, b]`.
    pub fn clamp_sym(self, b: Fx) -> (r: Self)
        requires
            b.raw >= 0,
        ensures
            r.x.raw == clamp1(self.x.raw as int, b.raw as int),
            r.y.raw == clamp1(self.y.raw as int, b.raw as int),
            r.z.raw == clamp1(self.z.raw as int, b.raw as int),
            fits(r, b.raw as int),
    {
        Vec3 {
            x: self.x.max(b.neg()).min(b),
            y: self.y.max(b.neg()).min(b),
            z: self.z.max(b.neg()).min(b),
        }
    }

    /// True exactly when every component rounds to zero at this resolution.
    pub fn near_zero(&self) -> (r: bool)
        ensures
            r == (self.x.raw == 0 && self.y.raw == 0 && self.z.raw == 0),
    {
        self.x.raw == 0 && self.y.raw == 0 && self.z.raw == 0
    }

    /// Normalise: divide by the fixed-point length.  The squared length must
    /// be at least `UNIT_MIN_SQ` so the division is by a nonzero scalar.
    pub fn unit_vector(v: Self) -> (r: Self)
        requires
            fits(v, DOT_ARG as int),
            dot_raw(v, v) >= UNIT_MIN_SQ as int,
        ensures
            r.x.raw == div_raw(v.x.raw as int, isqrt(dot_raw(v, v) * (SCALE as int))),
            r.y.raw == div_raw(v.y.raw as int, isqrt(dot_raw(v, v) * (SCALE as int))),
            r.z.raw == div_raw(v.z.raw as int, isqrt(dot_raw(v, v) * (SCALE as int))),
            r == unit_spec(v),
            fits(r, UNIT_MAX as int),
    {
        let len = v.length();
        proof {
            let d = dot_raw(v, v);
            lemma_sq_nonneg(v.x.raw as int);
            lemma_sq_nonneg(v.y.raw as int);
            lemma_sq_nonneg(v.z.raw as int);
            lemma_isqrt_bounds(d * (SCALE as int));
            lemma_unit_len_lower(d, len.raw as int);
            lemma_unit_component(v.x.raw as int, d, len.raw as int);
            lemma_unit_component(v.y.raw as int, d, len.raw as int);
            lemma_unit_component(v.z.raw as int, d, len.raw as int);
        }
        v.div_scalar(len)
    }

    /// Mirror `v` about the normal `n`: `v - 2 (v . n) n`.
    pub fn reflect(v: Vec3, n: Vec3) -> (r: Vec3)
        requires
            fits(v, 16777216),
            fits(n, 16777216),
        ensures
            r.x.raw == reflect_x(v, n),
            r.y.raw == reflect_y(v, n),
            r.z.raw == reflect_z(v, n),
    {
        proof {
            lemma_mul_raw_bound(v.x.raw as int, n.x.raw as int, 16777216, 16777216);
            lemma_mul_raw_bound(v.y.raw as int, n.y.raw as int, 16777216, 16777216);
            lemma_mul_raw_bound(v.z.raw as int, n.z.raw as int, 16777216, 16777216);
        }
        let d = Vec3::dot(v, n);
        let k = d.add(d);
        proof {
            lemma_mul_raw_bound(n.x.raw as int, k.raw as int, 16777216, 25769803776);
            lemma_mul_raw_bound(n.y.raw as int, k.raw as int, 16777216, 25769803776);
            lemma_mul_raw_bound(n.z.raw as int, k.raw as int, 16777216, 25769803776);
        }
        v.sub(n.scale(k))
    }

    /// Snell refraction of the unit direction `uv` at normal `n`, for the
    /// refractive-index ratio `etai_over_etat`; the radicand is clamped at
    /// zero where rounding would push it below.
    pub fn refract(uv: Vec3, n: Vec3, etai_over_etat: Fx) -> (r: Vec3)
        requires
            fits(uv, 131072),
            fits(n, 131072),
            0 <= etai_over_etat.raw <= 4194304,
        ensures
            r.x.raw == refract_out_x(uv, n, etai_over_etat),
            r.y.raw == refract_out_y(uv, n, etai_over_etat),
            r.z.raw == refract_out_z(uv, n, etai_over_etat),
    {
        proof {
            lemma_mul_raw_neg(uv.x.raw as int, n.x.raw as int);
            lemma_mul_raw_neg(uv.y.raw as int, n.y.raw as int);
            lemma_mul_raw_neg(uv.z.raw as int, n.z.raw as int);
            lemma_mul_raw_bound(uv.x.raw as int, n.x.raw as int, 131072, 131072);
            lemma_mul_raw_bound(uv.y.raw as int, n.y.raw as int, 131072, 131072);
            lemma_mul_raw_bound(uv.z.raw as int, n.z.raw as int, 131072, 131072);
        }
        let cos_theta = Vec3::dot(uv.neg(), n);
        proof {
            lemma_mul_raw_bound(n.x.raw as int, cos_theta.raw as int, 131072, 786432);
            lemma_mul_raw_bound(n.y.raw as int, cos_theta.raw as int, 131072, 786432);
            lemma_mul_raw_bound(n.z.raw as int, cos_theta.raw as int, 131072, 786432);
        }
        let mid = uv.add(n.scale(cos_theta));
        proof {
            lemma_mul_raw_bound(mid.x.raw as int, etai_over_etat.raw as int, 1703936, 4194304);
            lemma_mul_raw_bound(mid.y.raw as int, etai_over_etat.raw as int, 1703936, 4194304);
            lemma_mul_raw_bound(mid.z.raw as int, etai_over_etat.raw as int, 1703936, 4194304);
        }
        let par = mid.scale(etai_over_etat);
        let sq = par.squared_length();
        let k = if SCALE - sq.raw >= 0 {
            Fx::from_raw(SCALE - sq.raw)
        } else {
            Fx::zero()
        };
        let sqrt_k = k.sqrt();
        proof {
            assert(sqrt_k.raw <= SCALE) by (nonlinear_arith)
                requires
                    0 <= sqrt_k.raw,
                    (sqrt_k.raw as int) * (sqrt_k.raw as int) <= (k.raw as int) * (SCALE as int),
                    0 <= k.raw <= SCALE,
            ;
            lemma_mul_raw_bound(n.x.raw as int, sqrt_k.raw as int, 131072, SCALE as int);
            lemma_mul_raw_bound(n.y.raw as int, sqrt_k.raw as int, 131072, SCALE as int);
            lemma_mul_raw_bound(n.z.raw as int, sqrt_k.raw as int, 131072, SCALE as int);
        }
        par.sub(n.scale(sqrt_k))
    }

    /// Schlick's reflectance approximation.
    pub fn schlick(cosine: Fx, ref_idx: Fx) -> (r: Fx)
        requires
            fits1(cosine.raw as int, 3 * (SCALE as int)),
            0 <= ref_idx.raw <= 4194304,
        ensures
            r.raw == schlick_raw(cosine.raw as int, ref_idx.raw as int),
    {
        let ghost s = SCALE as int;
        let denom = Fx::one().add(ref_idx);
        let r_0 = Fx::one().sub(ref_idx).div(denom);
        proof {
            lemma_div_raw_ratio(s - ref_idx.raw, s + ref_idx.raw);
            lemma_sq_nonneg(r_0.raw as int);
            lemma_mul_raw_bound(r_0.raw as int, r_0.raw as int, s, s);
        }
        let r0sq = r_0.mul(r_0);
        let p = Fx::one().sub(cosine);
        proof {
            lemma_mul_raw_bound(p.raw as int, p.raw as int, 4 * s, 4 * s);
            lemma_mul_raw_bound(mul_raw(p.raw as int, p.raw as int), p.raw as int, 16 * s, 4 * s);
            lemma_mul_raw_bound(
                mul_raw(mul_raw(p.raw as int, p.raw as int), p.raw as int),
                p.raw as int,
                64 * s,
                4 * s,
            );
            lemma_mul_raw_bound(
                mul_raw(mul_raw(mul_raw(p.raw as int, p.raw as int), p.raw as int), p.raw as int),
                p.raw as int,
                256 * s,
                4 * s,
            );
        }
        let p5 = p.mul(p).mul(p).mul(p).mul(p);
        proof {
            lemma_mul_raw_bound(s - r0sq.raw, p5.raw as int, s, 1024 * s);
        }
        r0sq.add(Fx::one().sub(r0sq).mul(p5))
    }

    /// A vector with components drawn from `[0, 1)`.
    pub fn random(rng: &mut rand::rngs::StdRng) -> (r: Vec3)
        ensures
            0 <= r.x.raw < SCALE,
            0 <= r.y.raw < SCALE,
            0 <= r.z.raw < SCALE,
    {
        let x = rand_unit(rng);
        let y = rand_unit(rng);
        let z = rand_unit(rng);
        Vec3 { x, y, z }
    }

    /// A vector with components drawn from `[min, max)`.
    pub fn random_(rng: &mut rand::rngs::StdRng, min: Fx, max: Fx) -> (r: Vec3)
        requires
            min.raw < max.raw,
            max.raw - min.raw <= i64::MAX,
        ensures
            min.raw <= r.x.raw < max.raw,
            min.raw <= r.y.raw < max.raw,
            min.raw <= r.z.raw < max.raw,
    {
        let x = rand_range(rng, min, max);
        let y = rand_range(rng, min, max);
        let z = rand_range(rng, min, max);
        Vec3 { x, y, z }
    }

    /// A point strictly inside the unit ball.  Rejection sampling with a
    /// bounded number of attempts; the origin is the (extremely unlikely)
    /// fallback, and every outcome satisfies the contract.
    pub fn random_in_unit_sphere(rng: &mut rand::rngs::StdRng) -> (r: Vec3)
        ensures
            fits(r, SCALE as int),
            dot_raw(r, r) < SCALE,
            dot_raw(r, r) >= 0,
    {
        let mut i: usize = 0;
        while i < 64
            invariant
                i <= 64,
            decreases 64 - i,
        {
            let p = Vec3::random_(rng, Fx::from_raw(-SCALE), Fx::from_raw(SCALE));
            let sq = p.squared_length();
            if sq.raw < SCALE {
                return p;
            }
            i = i + 1;
        }
        proof {
            lemma_sq_nonneg(0);
        }
        Vec3::zero()
    }

    /// A normalised direction drawn from the unit sphere.
    pub fn random_unit_vector(rng: &mut rand::rngs::StdRng) -> (r: Vec3)
        ensures
            fits(r, UNIT_MAX as int),
    {
        let mut i: usize = 0;
        while i < 64
            invariant
                i <= 64,
            decreases 64 - i,
        {
            let p = Vec3::random_(rng, Fx::from_raw(-SCALE), Fx::from_raw(SCALE));
            let sq = p.squared_length();
            if sq.raw >= UNIT_MIN_SQ && sq.raw < SCALE {
                return Vec3::unit_vector(p);
            }
            i = i + 1;
        }
        Vec3::new(Fx::one(), Fx::zero(), Fx::zero())
    }

    /// A point in the unit ball on the same side of the surface as `normal`.
    pub fn random_in_hemisphere(rng: &mut rand::rngs::StdRng, normal: Vec3) -> (r: Vec3)
        requires
            fits(normal, DOT_ARG as int),
        ensures
            fits(r, SCALE as int),
            dot_raw(r, r) < SCALE,
    {
        let in_unit_sphere = Vec3::random_in_unit_sphere(rng);
        if Vec3::dot(in_unit_sphere, normal).raw > 0 {
            in_unit_sphere
        } else {
            proof {
                lemma_mul_raw_neg(in_unit_sphere.x.raw as int, in_unit_sphere.x.raw as int);
                lemma_mul_raw_neg(in_unit_sphere.y.raw as int, in_unit_sphere.y.raw as int);
                lemma_mul_raw_neg(in_unit_sphere.z.raw as int, in_unit_sphere.z.raw as int);
            }
            in_unit_sphere.neg()
        }
    }

    /// A point strictly inside the unit disk of the xy-plane.
    pub fn random_in_unit_disk(rng: &mut rand::rngs::StdRng) -> (r: Vec3)
        ensures
            fits(r, SCALE as int),
            dot_raw(r, r) < SCALE,
            r.z.raw == 0,
    {
        let mut i: usize = 0;
        while i < 64
            invariant
                i <= 64,
            decreases 64 - i,
        {
            let p = Vec3::new(
                rand_range(rng, Fx::from_raw(-SCALE), Fx::from_raw(SCALE)),
                rand_range(rng, Fx::from_raw(-SCALE), Fx::from_raw(SCALE)),
                Fx::zero(),
            );
            let sq = p.squared_length();
            if sq.raw < SCALE {
                return p;
            }
            i = i + 1;
        }
        proof {
            lemma_sq_nonneg(0);
        }
        Vec3::zero()
    }
}

/// x-component of the mirror reflection `v - 2 (v . n) n`.
pub open spec fn reflect_x(v: Vec3, n: Vec3) -> int {
    v.x.raw - mul_raw(n.x.raw as int, 2 * dot_raw(v, n))
}

/// y-component of the mirror reflection.
pub open spec fn reflect_y(v: Vec3, n: Vec3) -> int {
    v.y.raw - mul_raw(n.y.raw as int, 2 * dot_raw(v, n))
}

/// z-component of the mirror reflection.
pub open spec fn reflect_z(v: Vec3, n: Vec3) -> int {
    v.z.raw - mul_raw(n.z.raw as int, 2 * dot_raw(v, n))
}

/// Cosine of incidence used by refraction: `(-uv) . n`.
pub open spec fn refract_cos(uv: Vec3, n: Vec3) -> int {
    -dot_raw(uv, n)
}

/// x-component of the refracted ray's tangential part.
pub open spec fn refract_par_x(uv: Vec3, n: Vec3, e: Fx) -> int {
    mul_raw(uv.x.raw + mul_raw(n.x.raw as int, refract_cos(uv, n)), e.raw as int)
}

/// y-component of the refracted ray's tangential part.
pub open spec fn refract_par_y(uv: Vec3, n: Vec3, e: Fx) -> int {
    mul_raw(uv.y.raw + mul_raw(n.y.raw as int, refract_cos(uv, n)), e.raw as int)
}

/// z-component of the refracted ray's tangential part.
pub open spec fn refract_par_z(uv: Vec3, n: Vec3, e: Fx) -> int {
    mul_raw(uv.z.raw + mul_raw(n.z.raw as int, refract_cos(uv, n)), e.raw as int)
}

/// Radicand of the refracted ray's normal part, clamped at zero.
pub open spec fn refract_k(uv: Vec3, n: Vec3, e: Fx) -> int {
    let px = refract_par_x(uv, n, e);
    let py = refract_par_y(uv, n, e);
    let pz = refract_par_z(uv, n, e);
    let sq = mul_raw(px, px) + mul_raw(py, py) + mul_raw(pz, pz);
    if SCALE - sq >= 0 {
        SCALE - sq
    } else {
        0
    }
}

/// x-component of the full refracted direction.
pub open spec fn refract_out_x(uv: Vec3, n: Vec3, e: Fx) -> int {
    refract_par_x(uv, n, e) - mul_raw(n.x.raw as int, isqrt(refract_k(uv, n, e) * (SCALE as int)))
}

/// y-component of the full refracted direction.
pub open spec fn refract_out_y(uv: Vec3, n: Vec3, e: Fx) -> int {
    refract_par_y(uv, n, e) - mul_raw(n.y.raw as int, isqrt(refract_k(uv, n, e) * (SCALE as int)))
}

/// z-component of the full refracted direction.
pub open spec fn refract_out_z(uv: Vec3, n: Vec3, e: Fx) -> int {
    refract_par_z(uv, n, e) - mul_raw(n.z.raw as int, isqrt(refract_k(uv, n, e) * (SCALE as int)))
}

/// Schlick's reflectance, in raw fixed-point form.
pub open spec fn schlick_raw(cos: int, ri: int) -> int {
    let s = SCALE as int;
    let r0 = div_raw(s - ri, s + ri);
    let r0sq = mul_raw(r0, r0);
    let p = s - cos;
    let p5 = mul_raw(mul_raw(mul_raw(mul_raw(p, p), p), p), p);
    r0sq + mul_raw(s - r0sq, p5)
}

/// Refraction with an index ratio of exactly one does not bend a head-on
/// ray: for any vector `n` of fixed-point-unit squared length, refracting
/// the opposite direction `-n` about `n` returns `-n` unchanged.
pub proof fn lemma_refract_head_on(uv: Vec3, n: Vec3)
    requires
        uv.x.raw == -n.x.raw,
        uv.y.raw == -n.y.raw,
        uv.z.raw == -n.z.raw,
        dot_raw(n, n) == SCALE as int,
    ensures
        refract_out_x(uv, n, Fx { raw: SCALE }) == uv.x.raw,
        refract_out_y(uv, n, Fx { raw: SCALE }) == uv.y.raw,
        refract_out_z(uv, n, Fx { raw: SCALE }) == uv.z.raw,
{
    let s = SCALE as int;
    let e = Fx { raw: SCALE };
    lemma_mul_raw_neg(n.x.raw as int, n.x.raw as int);
    lemma_mul_raw_neg(n.y.raw as int, n.y.raw as int);
    lemma_mul_raw_neg(n.z.raw as int, n.z.raw as int);
    assert(refract_cos(uv, n) == s);
    lemma_mul_one(n.x.raw as int);
    lemma_mul_one(n.y.raw as int);
    lemma_mul_one(n.z.raw as int);
    lemma_mul_one(0);
    assert(refract_par_x(uv, n, e) == 0);
    assert(refract_par_y(uv, n, e) == 0);
    assert(refract_par_z(uv, n, e) == 0);
    assert(refract_k(uv, n, e) == s) by {
        lemma_mul_one(0);
        assert(mul_raw(0, 0) == 0) by {
            vstd::arithmetic::div_mod::lemma_div_of0(s);
        }
    }
    crate::fixed::lemma_isqrt_is(s * s, s);
}

/// The fixed-point length of a vector with squared length at least
/// `UNIT_MIN_SQ` is at least one half.
proof fn lemma_unit_len_lower(d: int, len: int)
    requires
        d >= UNIT_MIN_SQ as int,
        len == isqrt(d * (SCALE as int)),
    ensures
        len >= 32768,
{
    let s = SCALE as int;
    lemma_isqrt_bounds(d * s);
    assert(d * s >= 1073741824) by (nonlinear_arith)
        requires
            d >= 16384,
            s == 65536,
    ;
    assert(len >= 32768) by (nonlinear_arith)
        requires
            0 <= len,
            d * s < (len + 1) * (len + 1),
            d * s >= 1073741824,
    ;
}

/// Each component of a vector, divided by the vector's fixed-point length,
/// stays within `UNIT_MAX`.
proof fn lemma_unit_component(c: int, d: int, len: int)
    requires
        mul_raw(c, c) <= d,
        0 <= d,
        len == isqrt(d * (SCALE as int)),
        d >= UNIT_MIN_SQ as int,
    ensures
        fits1(div_raw(c, len), UNIT_MAX as int),
{
    let s = SCALE as int;
    lemma_isqrt_bounds(d * s);
    lemma_unit_len_lower(d, len);
    assert(c * c >= 0) by (nonlinear_arith);
    vstd::arithmetic::div_mod::lemma_fundamental_div_mod(c * c, s);
    vstd::arithmetic::div_mod::lemma_mod_division_less_than_divisor(c * c, s);
    assert(c * c == s * ((c * c) / s) + ((c * c) % s));
    assert(s * ((c * c) / s) <= s * d) by (nonlinear_arith)
        requires
            (c * c) / s <= d,
            s == 65536,
    ;
    assert(c * c < (len + 1) * (len + 1) + s) by (nonlinear_arith)
        requires
            c * c <= s * d + s - 1,
            s * d < (len + 1) * (len + 1),
    ;
    assert(-(len + 4) <= c <= len + 4) by (nonlinear_arith)
        requires
            c * c < (len + 1) * (len + 1) + 65536,
            len >= 32768,
    ;
    assert(-((len + 4) * s) <= c * s <= (len + 4) * s) by (nonlinear_arith)
        requires
            -(len + 4) <= c <= len + 4,
            s == 65536,
    ;
    crate::fixed::lemma_div_trunc_bound(c * s, (len + 4) * s, len);
    assert((len + 4) * s <= len * (s + 8)) by (nonlinear_arith)
        requires
            len >= 32768,
            s == 65536,
    ;
    vstd::arithmetic::div_mod::lemma_div_is_ordered((len + 4) * s, len * (s + 8), len);
    vstd::arithmetic::div_mod::lemma_div_multiples_vanish(s + 8, len);
}

} // verus!
