//! Spheres whose centre moves linearly between two keyframes; the ray's own
//! time picks the centre, and the rest is the stationary-sphere quadratic.

use vstd::prelude::*;
use crate::fixed::{
    Fx, SCALE, COORD_MAX, CENTER_MAX, T_MAX, mul_raw, div_raw, lemma_mul_bound, lemma_mul_raw_bound,
};
use crate::vec3::{Vec3, fits, fits1, clamp1};
use crate::ray::{Ray, ray_fits};
use crate::aabb::{AABB, surrounding_spec};
use crate::hittable::HitRecord;
use crate::sphere::{Sphere, sphere_hit_t, sphere_hit_full, sphere_bbox};

verus! {

/// A sphere travelling from `center0` at `time0` to `center1` at `time1`.
#[derive(Clone, Copy, Debug, PartialEq, Eq, Structural)]
pub struct MovingSphere {
    pub center0: Vec3,
    pub center1: Vec3,
    pub time0: Fx,
    pub time1: Fx,
    pub radius: Fx,
    pub mat_ptr: usize,
}

/// Interpolation weight for a query time, clamped to the keyframe interval.
pub open spec fn ms_frac(s: MovingSphere, time: int) -> int {
    clamp1(div_raw(time - s.time0.raw, s.time1.raw - s.time0.raw), SCALE as int)
}

/// The centre at a query time.
pub open spec fn ms_center(s: MovingSphere, time: int) -> Vec3 {
    let f = ms_frac(s, time);
    Vec3 {
        x: Fx { raw: (s.center0.x.raw + mul_raw(s.center1.x.raw - s.center0.x.raw, f)) as i64 },
        y: Fx { raw: (s.center0.y.raw + mul_raw(s.center1.y.raw - s.center0.y.raw, f)) as i64 },
        z: Fx { raw: (s.center0.z.raw + mul_raw(s.center1.z.raw - s.center0.z.raw, f)) as i64 },
    }
}

/// The stationary sphere a query at the given time sees.
pub open spec fn ms_sphere(s: MovingSphere, time: int) -> Sphere {
    Sphere { center: ms_center(s, time), radius: s.radius, mat_ptr: s.mat_ptr }
}

impl MovingSphere {
    /// Keyframe centres in bounds, radius positive, keyframe times strictly
    /// ordered (coincident keyframes would leave interpolation undefined).
    pub open spec fn wf(self) -> bool {
        &&& fits(self.center0, COORD_MAX as int)
        &&& fits(self.center1, COORD_MAX as int)
        &&& 0 < self.radius.raw <= COORD_MAX
        &&& fits1(self.time0.raw as int, T_MAX as int)
        &&& fits1(self.time1.raw as int, T_MAX as int)
        &&& self.time0.raw < self.time1.raw
    }

    pub fn new(cen0: Vec3, cen1: Vec3, time0: Fx, time1: Fx, r: Fx, m: usize) -> (s: Self)
        ensures
            s == (MovingSphere {
                center0: cen0,
                center1: cen1,
                time0,
                time1,
                radius: r,
                mat_ptr: m,
            }),
    {
        MovingSphere { center0: cen0, center1: cen1, time0, time1, radius: r, mat_ptr: m }
    }

    /// The centre at `time`, interpolated between the keyframes; the weight
    /// is clamped to the keyframe interval so the centre stays on the
    /// segment between the two keyframe centres.
    fn center(&self, time: Fx) -> (c: Vec3)
        requires
            self.wf(),
            fits1(time.raw as int, T_MAX as int),
        ensures
            c == ms_center(*self, time.raw as int),
            fits(c, CENTER_MAX as int),
    {
        let f0 = time.sub(self.time0).div(self.time1.sub(self.time0));
        let f = f0.max(Fx::from_raw(-SCALE)).min(Fx::one());
        proof {
            assert(f.raw == clamp1(f0.raw as int, SCALE as int));
            lemma_mul_bound(
                self.center1.x.raw - self.center0.x.raw,
                f.raw as int,
                0x40000000,
                SCALE as int,
            );
            lemma_mul_bound(
                self.center1.y.raw - self.center0.y.raw,
                f.raw as int,
                0x40000000,
                SCALE as int,
            );
            lemma_mul_bound(
                self.center1.z.raw - self.center0.z.raw,
                f.raw as int,
                0x40000000,
                SCALE as int,
            );
            lemma_mul_raw_bound(
                self.center1.x.raw - self.center0.x.raw,
                f.raw as int,
                0x40000000,
                SCALE as int,
            );
            lemma_mul_raw_bound(
                self.center1.y.raw - self.center0.y.raw,
                f.raw as int,
                0x40000000,
                SCALE as int,
            );
            lemma_mul_raw_bound(
                self.center1.z.raw - self.center0.z.raw,
                f.raw as int,
                0x40000000,
                SCALE as int,
            );
        }
        self.center0.add(self.center1.sub(self.center0).scale(f))
    }

    /// Spherical surface coordinates; identical to the stationary sphere's.
    pub fn get_sphere_uv(p: &Vec3) -> (uv: (Fx, Fx))
        requires
            fits(*p, 2097152),
        ensures
            uv.0.raw == crate::sphere::sphere_u_of(p.x.raw as int, p.z.raw as int),
            uv.1.raw == crate::sphere::sphere_v_of(p.y.raw as int),
            0 <= uv.0.raw <= SCALE,
            0 <= uv.1.raw <= SCALE,
    {
        Sphere::get_sphere_uv(p)
    }

    /// Intersect: the stationary-sphere test against the centre at the
    /// ray's own time.
    pub fn hit(&self, r: Ray, t_min: Fx, t_max: Fx) -> (res: Option<HitRecord>)
        requires
            self.wf(),
            ray_fits(r),
            fits1(t_min.raw as int, T_MAX as int),
            fits1(t_max.raw as int, T_MAX as int),
            fits1(r.time.raw as int, T_MAX as int),
        ensures
            res == sphere_hit_full(
                ms_sphere(*self, r.time.raw as int),
                r,
                t_min.raw as int,
                t_max.raw as int,
            ),
            (res is Some) == (sphere_hit_t(
                ms_sphere(*self, r.time.raw as int),
                r,
                t_min.raw as int,
                t_max.raw as int,
            ) is Some),
            res matches Some(rec) ==> Some(rec.t.raw as int) == sphere_hit_t(
                ms_sphere(*self, r.time.raw as int),
                r,
                t_min.raw as int,
                t_max.raw as int,
            ) && ms_sphere(*self, r.time.raw as int).hit_rec_ok(r, rec) && t_min.raw <= rec.t.raw
                <= t_max.raw,
    {
        let cen = self.center(r.time);
        let sph = Sphere::new(cen, self.radius, self.mat_ptr);
        sph.hit(r, t_min, t_max)
    }

    /// The union of the enclosing boxes at the two query times.
    pub fn bounding_box(&self, time0: Fx, time1: Fx) -> (res: Option<AABB>)
        requires
            self.wf(),
            fits1(time0.raw as int, T_MAX as int),
            fits1(time1.raw as int, T_MAX as int),
        ensures
            res == Some(
                surrounding_spec(
                    sphere_bbox(ms_sphere(*self, time0.raw as int)),
                    sphere_bbox(ms_sphere(*self, time1.raw as int)),
                ),
            ),
            res matches Some(b) ==> fits(b.minimum, 0x100000000) && fits(b.maximum, 0x100000000),
    {
        let rv = Vec3::new(self.radius, self.radius, self.radius);
        let c0 = self.center(time0);
        let c1 = self.center(time1);
        let box0 = AABB::new(c0.sub(rv), c0.add(rv));
        let box1 = AABB::new(c1.sub(rv), c1.add(rv));
        Some(AABB::surrounding_box(box0, box1))
    }
}

} // verus!
