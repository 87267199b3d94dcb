//! Spheres: the ray-sphere quadratic, spherical surface coordinates and the
//! enclosing box.

use vstd::prelude::*;
use crate::fixed::{
    Fx, SCALE, COORD_MAX, T_MAX, mul_raw, div_raw, isqrt, lemma_mul_bound, lemma_mul_raw_bound,
    lemma_div_raw_ratio,
};
use crate::vec3::{Vec3, fits, fits1, clamp1, dot_raw, lemma_sq_nonneg};
use crate::ray::{Ray, ray_fits};
use crate::aabb::AABB;
use crate::hittable::{HitRecord, NORMAL_MAX};
use crate::trig::{atan2, atan2_raw, PI_FX, TWO_PI};

verus! {

/// A sphere with its material's index in the scene's material table.
#[derive(Clone, Copy, Debug, PartialEq, Eq, Structural)]
pub struct Sphere {
    pub center: Vec3,
    pub radius: Fx,
    pub mat_ptr: usize,
}

/// x-component of the point reached at raw parameter `t`.
pub open spec fn px_at(r: Ray, t: int) -> int {
    r.origin.x.raw + mul_raw(r.direction.x.raw as int, t)
}

/// y-component of the point reached at raw parameter `t`.
pub open spec fn py_at(r: Ray, t: int) -> int {
    r.origin.y.raw + mul_raw(r.direction.y.raw as int, t)
}

/// z-component of the point reached at raw parameter `t`.
pub open spec fn pz_at(r: Ray, t: int) -> int {
    r.origin.z.raw + mul_raw(r.direction.z.raw as int, t)
}

/// The quadratic coefficient `|direction|^2`.
pub open spec fn sph_a(r: Ray) -> int {
    dot_raw(r.direction, r.direction)
}

/// Half the linear coefficient: `(origin - center) . direction`.
pub open spec fn sph_half_b(s: Sphere, r: Ray) -> int {
    mul_raw(r.origin.x.raw - s.center.x.raw, r.direction.x.raw as int) + mul_raw(
        r.origin.y.raw - s.center.y.raw,
        r.direction.y.raw as int,
    ) + mul_raw(r.origin.z.raw - s.center.z.raw, r.direction.z.raw as int)
}

/// The constant coefficient: `|origin - center|^2 - radius^2`.
pub open spec fn sph_c(s: Sphere, r: Ray) -> int {
    mul_raw(r.origin.x.raw - s.center.x.raw, r.origin.x.raw - s.center.x.raw) + mul_raw(
        r.origin.y.raw - s.center.y.raw,
        r.origin.y.raw - s.center.y.raw,
    ) + mul_raw(r.origin.z.raw - s.center.z.raw, r.origin.z.raw - s.center.z.raw) - mul_raw(
        s.radius.raw as int,
        s.radius.raw as int,
    )
}

/// The quarter discriminant `half_b^2 - a c`.
pub open spec fn sph_disc(s: Sphere, r: Ray) -> int {
    mul_raw(sph_half_b(s, r), sph_half_b(s, r)) - mul_raw(sph_a(r), sph_c(s, r))
}

/// The ray parameter of the nearest root inside `[t_min, t_max]`, if any:
/// the smaller quadratic root is tried first, then the larger.
pub open spec fn sphere_hit_t(s: Sphere, r: Ray, t_min: int, t_max: int) -> Option<int> {
    let a = sph_a(r);
    if a == 0 {
        None
    } else {
        let disc = sph_disc(s, r);
        if disc < 0 {
            None
        } else {
            let sq = isqrt(disc * (SCALE as int));
            let hb = sph_half_b(s, r);
            let r1 = div_raw(-hb - sq, a);
            if t_min <= r1 && r1 <= t_max {
                Some(r1)
            } else {
                let r2 = div_raw(-hb + sq, a);
                if t_min <= r2 && r2 <= t_max {
                    Some(r2)
                } else {
                    None
                }
            }
        }
    }
}

/// x-component of the outward normal at parameter `t`, clamped.
pub open spec fn sph_out_x(s: Sphere, r: Ray, t: int) -> int {
    clamp1(div_raw(px_at(r, t) - s.center.x.raw, s.radius.raw as int), NORMAL_MAX as int)
}

/// y-component of the outward normal at parameter `t`, clamped.
pub open spec fn sph_out_y(s: Sphere, r: Ray, t: int) -> int {
    clamp1(div_raw(py_at(r, t) - s.center.y.raw, s.radius.raw as int), NORMAL_MAX as int)
}

/// z-component of the outward normal at parameter `t`, clamped.
pub open spec fn sph_out_z(s: Sphere, r: Ray, t: int) -> int {
    clamp1(div_raw(pz_at(r, t) - s.center.z.raw, s.radius.raw as int), NORMAL_MAX as int)
}

/// The outward normal at parameter `t` as a vector.
pub open spec fn sph_outward(s: Sphere, r: Ray, t: int) -> Vec3 {
    Vec3 {
        x: Fx { raw: sph_out_x(s, r, t) as i64 },
        y: Fx { raw: sph_out_y(s, r, t) as i64 },
        z: Fx { raw: sph_out_z(s, r, t) as i64 },
    }
}

/// A raw value clamped to `[-2, 2]`, the domain the surface-coordinate
/// formulas accept.
pub open spec fn cl2(a: int) -> int {
    clamp1(a, 131072)
}

/// Longitude of a point on the unit sphere, mapped to `[0, 1]`.
pub open spec fn sphere_u_of(nx: int, nz: int) -> int {
    div_raw(atan2_raw(cl2(-nz), cl2(nx)) + PI_FX as int, TWO_PI as int)
}

/// Latitude of a point on the unit sphere, mapped to `[0, 1]`.
pub open spec fn sphere_v_of(ny: int) -> int {
    let y = cl2(ny);
    let ys = mul_raw(y, y);
    let k = if SCALE - ys >= 0 {
        SCALE - ys
    } else {
        0
    };
    div_raw(atan2_raw(isqrt(k * (SCALE as int)), -y), PI_FX as int)
}

/// The full record a sphere reports at root `t`: hit point, oriented
/// clamped outward normal, spherical surface coordinates, material index.
pub open spec fn sphere_hit_rec(s: Sphere, r: Ray, t: int) -> HitRecord {
    let out = sph_outward(s, r, t);
    crate::hittable::oriented_rec(
        Vec3 {
            x: Fx { raw: px_at(r, t) as i64 },
            y: Fx { raw: py_at(r, t) as i64 },
            z: Fx { raw: pz_at(r, t) as i64 },
        },
        Fx { raw: t as i64 },
        Fx { raw: sphere_u_of(out.x.raw as int, out.z.raw as int) as i64 },
        Fx { raw: sphere_v_of(out.y.raw as int) as i64 },
        out,
        r,
        s.mat_ptr,
    )
}

/// The sphere's whole query result: the record at the chosen root, if any.
pub open spec fn sphere_hit_full(s: Sphere, r: Ray, t_min: int, t_max: int) -> Option<HitRecord> {
    match sphere_hit_t(s, r, t_min, t_max) {
        Option::None => None,
        Option::Some(t) => Some(sphere_hit_rec(s, r, t)),
    }
}

/// The box `center +- radius` on every axis.
pub open spec fn sphere_bbox(s: Sphere) -> AABB {
    AABB {
        minimum: Vec3 {
            x: Fx { raw: (s.center.x.raw - s.radius.raw) as i64 },
            y: Fx { raw: (s.center.y.raw - s.radius.raw) as i64 },
            z: Fx { raw: (s.center.z.raw - s.radius.raw) as i64 },
        },
        maximum: Vec3 {
            x: Fx { raw: (s.center.x.raw + s.radius.raw) as i64 },
            y: Fx { raw: (s.center.y.raw + s.radius.raw) as i64 },
            z: Fx { raw: (s.center.z.raw + s.radius.raw) as i64 },
        },
    }
}

impl Sphere {
    /// Centre in bounds, radius positive and in bounds.
    pub open spec fn wf(self) -> bool {
        fits(self.center, crate::fixed::CENTER_MAX as int) && 0 < self.radius.raw <= COORD_MAX
    }

    pub fn new(cen: Vec3, r: Fx, m: usize) -> (s: Self)
        ensures
            s.center == cen,
            s.radius == r,
            s.mat_ptr == m,
    {
        Sphere { center: cen, radius: r, mat_ptr: m }
    }

    /// Spherical surface coordinates of a point on the unit sphere, each in
    /// `[0, 1]`; the point is clamped into `[-2, 2]` per component first.
    pub fn get_sphere_uv(p: &Vec3) -> (uv: (Fx, Fx))
        requires
            fits(*p, 2097152),
        ensures
            uv.0.raw == sphere_u_of(p.x.raw as int, p.z.raw as int),
            uv.1.raw == sphere_v_of(p.y.raw as int),
            0 <= uv.0.raw <= SCALE,
            0 <= uv.1.raw <= SCALE,
    {
        let q = p.clamp_sym(Fx::from_raw(131072));
        let phi = atan2(q.z.neg(), q.x);
        let unum = phi.add(Fx::from_raw(PI_FX));
        proof {
            lemma_div_raw_ratio(unum.raw as int, TWO_PI as int);
            vstd::arithmetic::div_mod::lemma_div_pos_is_pos(
                (unum.raw as int) * (SCALE as int),
                TWO_PI as int,
            );
        }
        let u = unum.div(Fx::from_raw(TWO_PI));
        proof {
            lemma_mul_raw_bound(q.y.raw as int, q.y.raw as int, 131072, 131072);
            lemma_sq_nonneg(q.y.raw as int);
        }
        let ys = q.y.mul(q.y);
        let k = if SCALE - ys.raw >= 0 {
            Fx::from_raw(SCALE - ys.raw)
        } else {
            Fx::zero()
        };
        let sk = k.sqrt();
        proof {
            assert(sk.raw <= SCALE) by (nonlinear_arith)
                requires
                    0 <= sk.raw,
                    (sk.raw as int) * (sk.raw as int) <= (k.raw as int) * (SCALE as int),
                    0 <= k.raw <= SCALE,
            ;
        }
        let theta = atan2(sk, q.y.neg());
        proof {
            lemma_div_raw_ratio(theta.raw as int, PI_FX as int);
            vstd::arithmetic::div_mod::lemma_div_pos_is_pos(
                (theta.raw as int) * (SCALE as int),
                PI_FX as int,
            );
        }
        let v = theta.div(Fx::from_raw(PI_FX));
        (u, v)
    }

    /// Intersect: solve the quadratic, try the near root then the far root
    /// inside the window, and report the surface data at the chosen root.
    pub fn hit(&self, r: Ray, t_min: Fx, t_max: Fx) -> (res: Option<HitRecord>)
        requires
            self.wf(),
            ray_fits(r),
            fits1(t_min.raw as int, T_MAX as int),
            fits1(t_max.raw as int, T_MAX as int),
        ensures
            res == sphere_hit_full(*self, r, t_min.raw as int, t_max.raw as int),
            (res is Some) == (sphere_hit_t(*self, r, t_min.raw as int, t_max.raw as int)
                is Some),
            res matches Some(rec) ==> Some(rec.t.raw as int) == sphere_hit_t(
                *self,
                r,
                t_min.raw as int,
                t_max.raw as int,
            ) && self.hit_rec_ok(r, rec),
            res matches Some(rec) ==> t_min.raw <= rec.t.raw <= t_max.raw,
    {
        proof {
            self.lemma_coeff_bounds(r);
        }
        let oc = r.origin.sub(self.center);
        let a = r.direction.squared_length();
        let half_b = Vec3::dot(oc, r.direction);
        proof {
            lemma_mul_bound(
                self.radius.raw as int,
                self.radius.raw as int,
                COORD_MAX as int,
                COORD_MAX as int,
            );
        }
        let c = oc.squared_length().sub(self.radius.mul(self.radius));
        if a.raw == 0 {
            return None;
        }
        proof {
            lemma_mul_bound(half_b.raw as int, half_b.raw as int, 0x6000000000, 0x6000000000);
            lemma_mul_raw_bound(half_b.raw as int, half_b.raw as int, 0x6000000000, 0x6000000000);
            lemma_mul_bound(a.raw as int, c.raw as int, 0xC000000, 0x4000000000000);
            lemma_mul_raw_bound(a.raw as int, c.raw as int, 0xC000000, 0x4000000000000);
        }
        let disc = half_b.mul(half_b).sub(a.mul(c));
        if disc.raw < 0 {
            return None;
        }
        let sqrtd = disc.sqrt();
        proof {
            assert(sqrtd.raw < 0x20000000000) by (nonlinear_arith)
                requires
                    0 <= sqrtd.raw,
                    (sqrtd.raw as int) * (sqrtd.raw as int) <= (disc.raw as int) * (SCALE as int),
                    0 <= disc.raw <= 0x5800000000000000,
            ;
        }
        let root1 = half_b.neg().sub(sqrtd).div(a);
        if t_min.raw <= root1.raw && root1.raw <= t_max.raw {
            return Some(self.rec_at(r, root1));
        }
        let root2 = half_b.neg().add(sqrtd).div(a);
        if t_min.raw <= root2.raw && root2.raw <= t_max.raw {
            return Some(self.rec_at(r, root2));
        }
        None
    }

    /// The fields of a record this sphere reports at parameter `rec.t`.
    pub open spec fn hit_rec_ok(self, r: Ray, rec: HitRecord) -> bool {
        let t = rec.t.raw as int;
        let out = sph_outward(self, r, t);
        &&& rec.mat == self.mat_ptr
        &&& rec.p.x.raw == px_at(r, t)
        &&& rec.p.y.raw == py_at(r, t)
        &&& rec.p.z.raw == pz_at(r, t)
        &&& rec.front_face == (dot_raw(r.direction, out) < 0)
        &&& (rec.front_face ==> rec.normal == out)
        &&& (!rec.front_face ==> rec.normal.x.raw == -out.x.raw && rec.normal.y.raw == -out.y.raw
            && rec.normal.z.raw == -out.z.raw)
        &&& rec.u.raw == sphere_u_of(out.x.raw as int, out.z.raw as int)
        &&& rec.v.raw == sphere_v_of(out.y.raw as int)
        &&& fits(rec.normal, NORMAL_MAX as int)
    }

    /// Build the record at a root already known to lie in the window.
    fn rec_at(&self, r: Ray, root: Fx) -> (rec: HitRecord)
        requires
            self.wf(),
            ray_fits(r),
            fits1(root.raw as int, T_MAX as int),
        ensures
            rec.t == root,
            self.hit_rec_ok(r, rec),
            rec == sphere_hit_rec(*self, r, root.raw as int),
    {
        let p = r.at(root);
        proof {
            crate::fixed::lemma_mul_raw_bound(
                r.direction.x.raw as int,
                root.raw as int,
                crate::fixed::DIR_MAX as int,
                T_MAX as int,
            );
            crate::fixed::lemma_mul_raw_bound(
                r.direction.y.raw as int,
                root.raw as int,
                crate::fixed::DIR_MAX as int,
                T_MAX as int,
            );
            crate::fixed::lemma_mul_raw_bound(
                r.direction.z.raw as int,
                root.raw as int,
                crate::fixed::DIR_MAX as int,
                T_MAX as int,
            );
        }
        let outward = p.sub(self.center).div_scalar(self.radius).clamp_sym(
            Fx::from_raw(NORMAL_MAX),
        );
        let uv = Sphere::get_sphere_uv(&outward);
        HitRecord::new(p, root, uv.0, uv.1, outward, r, self.mat_ptr)
    }

    /// Bound every quadratic coefficient, so each arithmetic step of `hit`
    /// stays in range.
    proof fn lemma_coeff_bounds(self, r: Ray)
        requires
            self.wf(),
            ray_fits(r),
        ensures
            fits1(sph_a(r), 0xC000000),
            sph_a(r) >= 0,
            fits1(sph_half_b(self, r), 0x6000000000),
            fits1(sph_c(self, r), 0x4000000000000),
            fits1(sph_disc(self, r), 0x5800000000000000),
    {
        let dx = r.direction.x.raw as int;
        let dy = r.direction.y.raw as int;
        let dz = r.direction.z.raw as int;
        let ox = r.origin.x.raw - self.center.x.raw;
        let oy = r.origin.y.raw - self.center.y.raw;
        let oz = r.origin.z.raw - self.center.z.raw;
        lemma_mul_raw_bound(dx, dx, 0x200000, 0x200000);
        lemma_mul_raw_bound(dy, dy, 0x200000, 0x200000);
        lemma_mul_raw_bound(dz, dz, 0x200000, 0x200000);
        lemma_sq_nonneg(dx);
        lemma_sq_nonneg(dy);
        lemma_sq_nonneg(dz);
        lemma_mul_raw_bound(ox, dx, 0x100000000, 0x200000);
        lemma_mul_raw_bound(oy, dy, 0x100000000, 0x200000);
        lemma_mul_raw_bound(oz, dz, 0x100000000, 0x200000);
        lemma_mul_raw_bound(ox, ox, 0x100000000, 0x100000000);
        lemma_mul_raw_bound(oy, oy, 0x100000000, 0x100000000);
        lemma_mul_raw_bound(oz, oz, 0x100000000, 0x100000000);
        lemma_mul_raw_bound(self.radius.raw as int, self.radius.raw as int, COORD_MAX as int,
            COORD_MAX as int);
        lemma_mul_raw_bound(sph_half_b(self, r), sph_half_b(self, r), 0x6000000000, 0x6000000000);
        lemma_mul_raw_bound(sph_a(r), sph_c(self, r), 0xC000000, 0x4000000000000);
    }

    /// The enclosing box: `center +- radius` on every axis, at all times.
    pub fn bounding_box(&self, time0: Fx, time1: Fx) -> (res: Option<AABB>)
        requires
            self.wf(),
        ensures
            res == Some(sphere_bbox(*self)),
    {
        let rv = Vec3::new(self.radius, self.radius, self.radius);
        Some(AABB::new(self.center.sub(rv), self.center.add(rv)))
    }
}

} // verus!
