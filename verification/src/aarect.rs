//! Axis-aligned rectangles, one orientation per dropped axis: planar
//! intersection, in-plane bounds test, and an epsilon-thickened box.

use vstd::prelude::*;
use crate::fixed::{Fx, COORD_MAX, T_MAX, div_raw, lemma_div_raw_ratio};
use crate::vec3::{Vec3, fits1, dot_raw};
use crate::ray::{Ray, ray_fits};
use crate::aabb::AABB;
use crate::hittable::{HitRecord, NORMAL_MAX};
use crate::sphere::{px_at, py_at, pz_at};

verus! {

/// Thickness added to a rectangle's box along its dropped axis, so the box
/// never degenerates to zero volume.
pub const RECT_PAD: i64 = 7;

/// A rectangle in a z = k plane.
#[derive(Clone, Copy, Debug, PartialEq, Eq, Structural)]
pub struct XyRect {
    pub x0: Fx,
    pub x1: Fx,
    pub y0: Fx,
    pub y1: Fx,
    pub k: Fx,
    pub mp: usize,
}

/// A rectangle in a y = k plane.
#[derive(Clone, Copy, Debug, PartialEq, Eq, Structural)]
pub struct XzRect {
    pub x0: Fx,
    pub x1: Fx,
    pub z0: Fx,
    pub z1: Fx,
    pub k: Fx,
    pub mp: usize,
}

/// A rectangle in an x = k plane.
#[derive(Clone, Copy, Debug, PartialEq, Eq, Structural)]
pub struct YzRect {
    pub y0: Fx,
    pub y1: Fx,
    pub z0: Fx,
    pub z1: Fx,
    pub k: Fx,
    pub mp: usize,
}

/// The ray parameter at which an xy rectangle is struck, if any.
pub open spec fn xy_rect_hit_t(q: XyRect, r: Ray, t_min: int, t_max: int) -> Option<int> {
    let dz = r.direction.z.raw as int;
    if dz == 0 {
        None
    } else {
        let t = div_raw(q.k.raw - r.origin.z.raw, dz);
        if t < t_min || t > t_max {
            None
        } else {
            let x = px_at(r, t);
            let y = py_at(r, t);
            if x < q.x0.raw || x > q.x1.raw || y < q.y0.raw || y > q.y1.raw {
                None
            } else {
                Some(t)
            }
        }
    }
}

/// The ray parameter at which an xz rectangle is struck, if any.
pub open spec fn xz_rect_hit_t(q: XzRect, r: Ray, t_min: int, t_max: int) -> Option<int> {
    let dy = r.direction.y.raw as int;
    if dy == 0 {
        None
    } else {
        let t = div_raw(q.k.raw - r.origin.y.raw, dy);
        if t < t_min || t > t_max {
            None
        } else {
            let x = px_at(r, t);
            let z = pz_at(r, t);
            if x < q.x0.raw || x > q.x1.raw || z < q.z0.raw || z > q.z1.raw {
                None
            } else {
                Some(t)
            }
        }
    }
}

/// The ray parameter at which a yz rectangle is struck, if any.
pub open spec fn yz_rect_hit_t(q: YzRect, r: Ray, t_min: int, t_max: int) -> Option<int> {
    let dx = r.direction.x.raw as int;
    if dx == 0 {
        None
    } else {
        let t = div_raw(q.k.raw - r.origin.x.raw, dx);
        if t < t_min || t > t_max {
            None
        } else {
            let y = py_at(r, t);
            let z = pz_at(r, t);
            if y < q.y0.raw || y > q.y1.raw || z < q.z0.raw || z > q.z1.raw {
                None
            } else {
                Some(t)
            }
        }
    }
}


/// The full record an xy rectangle reports at parameter `t`.
pub open spec fn xy_rect_hit_rec(q: XyRect, r: Ray, t: int) -> HitRecord {
    let out = Vec3 { x: Fx { raw: 0 }, y: Fx { raw: 0 }, z: Fx { raw: crate::fixed::SCALE } };
    crate::hittable::oriented_rec(
        Vec3 {
            x: Fx { raw: px_at(r, t) as i64 },
            y: Fx { raw: py_at(r, t) as i64 },
            z: Fx { raw: pz_at(r, t) as i64 },
        },
        Fx { raw: t as i64 },
        Fx { raw: div_raw(px_at(r, t) - q.x0.raw, q.x1.raw - q.x0.raw) as i64 },
        Fx { raw: div_raw(py_at(r, t) - q.y0.raw, q.y1.raw - q.y0.raw) as i64 },
        out,
        r,
        q.mp,
    )
}

/// The xy rectangle's whole query result.
pub open spec fn xy_rect_hit_full(q: XyRect, r: Ray, t_min: int, t_max: int) -> Option<HitRecord> {
    match xy_rect_hit_t(q, r, t_min, t_max) {
        Option::None => None,
        Option::Some(t) => Some(xy_rect_hit_rec(q, r, t)),
    }
}

/// The full record an xz rectangle reports at parameter `t`.
pub open spec fn xz_rect_hit_rec(q: XzRect, r: Ray, t: int) -> HitRecord {
    let out = Vec3 { x: Fx { raw: 0 }, y: Fx { raw: crate::fixed::SCALE }, z: Fx { raw: 0 } };
    crate::hittable::oriented_rec(
        Vec3 {
            x: Fx { raw: px_at(r, t) as i64 },
            y: Fx { raw: py_at(r, t) as i64 },
            z: Fx { raw: pz_at(r, t) as i64 },
        },
        Fx { raw: t as i64 },
        Fx { raw: div_raw(px_at(r, t) - q.x0.raw, q.x1.raw - q.x0.raw) as i64 },
        Fx { raw: div_raw(pz_at(r, t) - q.z0.raw, q.z1.raw - q.z0.raw) as i64 },
        out,
        r,
        q.mp,
    )
}

/// The xz rectangle's whole query result.
pub open spec fn xz_rect_hit_full(q: XzRect, r: Ray, t_min: int, t_max: int) -> Option<HitRecord> {
    match xz_rect_hit_t(q, r, t_min, t_max) {
        Option::None => None,
        Option::Some(t) => Some(xz_rect_hit_rec(q, r, t)),
    }
}

/// The full record a yz rectangle reports at parameter `t`.
pub open spec fn yz_rect_hit_rec(q: YzRect, r: Ray, t: int) -> HitRecord {
    let out = Vec3 { x: Fx { raw: crate::fixed::SCALE }, y: Fx { raw: 0 }, z: Fx { raw: 0 } };
    crate::hittable::oriented_rec(
        Vec3 {
            x: Fx { raw: px_at(r, t) as i64 },
            y: Fx { raw: py_at(r, t) as i64 },
            z: Fx { raw: pz_at(r, t) as i64 },
        },
        Fx { raw: t as i64 },
        Fx { raw: div_raw(py_at(r, t) - q.y0.raw, q.y1.raw - q.y0.raw) as i64 },
        Fx { raw: div_raw(pz_at(r, t) - q.z0.raw, q.z1.raw - q.z0.raw) as i64 },
        out,
        r,
        q.mp,
    )
}

/// The yz rectangle's whole query result.
pub open spec fn yz_rect_hit_full(q: YzRect, r: Ray, t_min: int, t_max: int) -> Option<HitRecord> {
    match yz_rect_hit_t(q, r, t_min, t_max) {
        Option::None => None,
        Option::Some(t) => Some(yz_rect_hit_rec(q, r, t)),
    }
}

impl XyRect {
    /// Edges ordered and strictly apart, everything within bounds.
    pub open spec fn wf(self) -> bool {
        &&& fits1(self.x0.raw as int, COORD_MAX as int)
        &&& fits1(self.x1.raw as int, COORD_MAX as int)
        &&& fits1(self.y0.raw as int, COORD_MAX as int)
        &&& fits1(self.y1.raw as int, COORD_MAX as int)
        &&& fits1(self.k.raw as int, COORD_MAX as int)
        &&& self.x0.raw < self.x1.raw
        &&& self.y0.raw < self.y1.raw
    }

    pub fn new(x0: Fx, x1: Fx, y0: Fx, y1: Fx, k: Fx, mp: usize) -> (q: Self)
        ensures
            q == (XyRect { x0, x1, y0, y1, k, mp }),
    {
        XyRect { x0, x1, y0, y1, k, mp }
    }

    /// The fields of a record this rectangle reports at parameter `rec.t`.
    pub open spec fn hit_rec_ok(self, r: Ray, rec: HitRecord) -> bool {
        let t = rec.t.raw as int;
        let out = Vec3 { x: Fx { raw: 0 }, y: Fx { raw: 0 }, z: Fx { raw: crate::fixed::SCALE } };
        &&& rec.mat == self.mp
        &&& rec.p.x.raw == px_at(r, t)
        &&& rec.p.y.raw == py_at(r, t)
        &&& rec.p.z.raw == pz_at(r, t)
        &&& rec.u.raw == div_raw(px_at(r, t) - self.x0.raw, self.x1.raw - self.x0.raw)
        &&& rec.v.raw == div_raw(py_at(r, t) - self.y0.raw, self.y1.raw - self.y0.raw)
        &&& 0 <= rec.u.raw <= crate::fixed::SCALE
        &&& 0 <= rec.v.raw <= crate::fixed::SCALE
        &&& rec.front_face == (dot_raw(r.direction, out) < 0)
        &&& (rec.front_face ==> rec.normal == out)
        &&& (!rec.front_face ==> rec.normal.x.raw == 0 && rec.normal.y.raw == 0
            && rec.normal.z.raw == -(crate::fixed::SCALE as int))
        &&& crate::vec3::fits(rec.normal, NORMAL_MAX as int)
    }

    pub fn hit(&self, r: Ray, t_min: Fx, t_max: Fx) -> (res: Option<HitRecord>)
        requires
            self.wf(),
            ray_fits(r),
            fits1(t_min.raw as int, T_MAX as int),
            fits1(t_max.raw as int, T_MAX as int),
        ensures
            res == xy_rect_hit_full(*self, r, t_min.raw as int, t_max.raw as int),
            (res is Some) == (xy_rect_hit_t(*self, r, t_min.raw as int, t_max.raw as int)
                is Some),
            res matches Some(rec) ==> Some(rec.t.raw as int) == xy_rect_hit_t(
                *self,
                r,
                t_min.raw as int,
                t_max.raw as int,
            ) && self.hit_rec_ok(r, rec) && t_min.raw <= rec.t.raw <= t_max.raw,
    {
        if r.direction.z.raw == 0 {
            return None;
        }
        let t = self.k.sub(r.origin.z).div(r.direction.z);
        if t.raw < t_min.raw || t.raw > t_max.raw {
            return None;
        }
        proof {
            crate::fixed::lemma_mul_raw_bound(
                r.direction.x.raw as int,
                t.raw as int,
                crate::fixed::DIR_MAX as int,
                T_MAX as int,
            );
            crate::fixed::lemma_mul_raw_bound(
                r.direction.y.raw as int,
                t.raw as int,
                crate::fixed::DIR_MAX as int,
                T_MAX as int,
            );
            crate::fixed::lemma_mul_raw_bound(
                r.direction.z.raw as int,
                t.raw as int,
                crate::fixed::DIR_MAX as int,
                T_MAX as int,
            );
        }
        let p = r.at(t);
        if p.x.raw < self.x0.raw || p.x.raw > self.x1.raw || p.y.raw < self.y0.raw || p.y.raw
            > self.y1.raw {
            return None;
        }
        proof {
            lemma_div_raw_ratio(p.x.raw - self.x0.raw, self.x1.raw - self.x0.raw);
            lemma_div_raw_ratio(p.y.raw - self.y0.raw, self.y1.raw - self.y0.raw);
            vstd::arithmetic::div_mod::lemma_div_pos_is_pos(
                (p.x.raw - self.x0.raw) * (crate::fixed::SCALE as int),
                self.x1.raw - self.x0.raw,
            );
            vstd::arithmetic::div_mod::lemma_div_pos_is_pos(
                (p.y.raw - self.y0.raw) * (crate::fixed::SCALE as int),
                self.y1.raw - self.y0.raw,
            );
        }
        let u = p.x.sub(self.x0).div(self.x1.sub(self.x0));
        let v = p.y.sub(self.y0).div(self.y1.sub(self.y0));
        let outward_normal = Vec3::new(Fx::zero(), Fx::zero(), Fx::one());
        Some(HitRecord::new(p, t, u, v, outward_normal, r, self.mp))
    }

    /// The rectangle thickened by `RECT_PAD` along z.
    pub fn bounding_box(&self, time0: Fx, time1: Fx) -> (res: Option<AABB>)
        requires
            self.wf(),
        ensures
            res matches Some(b) && b.minimum.x == self.x0 && b.minimum.y == self.y0
                && b.minimum.z.raw == self.k.raw - RECT_PAD && b.maximum.x == self.x1
                && b.maximum.y == self.y1 && b.maximum.z.raw == self.k.raw + RECT_PAD,
    {
        Some(
            AABB::new(
                Vec3::new(self.x0, self.y0, Fx::from_raw(self.k.raw - RECT_PAD)),
                Vec3::new(self.x1, self.y1, Fx::from_raw(self.k.raw + RECT_PAD)),
            ),
        )
    }
}

impl XzRect {
    /// Edges ordered and strictly apart, everything within bounds.
    pub open spec fn wf(self) -> bool {
        &&& fits1(self.x0.raw as int, COORD_MAX as int)
        &&& fits1(self.x1.raw as int, COORD_MAX as int)
        &&& fits1(self.z0.raw as int, COORD_MAX as int)
        &&& fits1(self.z1.raw as int, COORD_MAX as int)
        &&& fits1(self.k.raw as int, COORD_MAX as int)
        &&& self.x0.raw < self.x1.raw
        &&& self.z0.raw < self.z1.raw
    }

    pub fn new(x0: Fx, x1: Fx, z0: Fx, z1: Fx, k: Fx, mp: usize) -> (q: Self)
        ensures
            q == (XzRect { x0, x1, z0, z1, k, mp }),
    {
        XzRect { x0, x1, z0, z1, k, mp }
    }

    /// The fields of a record this rectangle reports at parameter `rec.t`.
    pub open spec fn hit_rec_ok(self, r: Ray, rec: HitRecord) -> bool {
        let t = rec.t.raw as int;
        let out = Vec3 { x: Fx { raw: 0 }, y: Fx { raw: crate::fixed::SCALE }, z: Fx { raw: 0 } };
        &&& rec.mat == self.mp
        &&& rec.p.x.raw == px_at(r, t)
        &&& rec.p.y.raw == py_at(r, t)
        &&& rec.p.z.raw == pz_at(r, t)
        &&& rec.u.raw == div_raw(px_at(r, t) - self.x0.raw, self.x1.raw - self.x0.raw)
        &&& rec.v.raw == div_raw(pz_at(r, t) - self.z0.raw, self.z1.raw - self.z0.raw)
        &&& 0 <= rec.u.raw <= crate::fixed::SCALE
        &&& 0 <= rec.v.raw <= crate::fixed::SCALE
        &&& rec.front_face == (dot_raw(r.direction, out) < 0)
        &&& (rec.front_face ==> rec.normal == out)
        &&& (!rec.front_face ==> rec.normal.x.raw == 0 && rec.normal.y.raw == -(
        crate::fixed::SCALE as int) && rec.normal.z.raw == 0)
        &&& crate::vec3::fits(rec.normal, NORMAL_MAX as int)
    }

    pub fn hit(&self, r: Ray, t_min: Fx, t_max: Fx) -> (res: Option<HitRecord>)
        requires
            self.wf(),
            ray_fits(r),
            fits1(t_min.raw as int, T_MAX as int),
            fits1(t_max.raw as int, T_MAX as int),
        ensures
            res == xz_rect_hit_full(*self, r, t_min.raw as int, t_max.raw as int),
            (res is Some) == (xz_rect_hit_t(*self, r, t_min.raw as int, t_max.raw as int)
                is Some),
            res matches Some(rec) ==> Some(rec.t.raw as int) == xz_rect_hit_t(
                *self,
                r,
                t_min.raw as int,
                t_max.raw as int,
            ) && self.hit_rec_ok(r, rec) && t_min.raw <= rec.t.raw <= t_max.raw,
    {
        if r.direction.y.raw == 0 {
            return None;
        }
        let t = self.k.sub(r.origin.y).div(r.direction.y);
        if t.raw < t_min.raw || t.raw > t_max.raw {
            return None;
        }
        proof {
            crate::fixed::lemma_mul_raw_bound(
                r.direction.x.raw as int,
                t.raw as int,
                crate::fixed::DIR_MAX as int,
                T_MAX as int,
            );
            crate::fixed::lemma_mul_raw_bound(
                r.direction.y.raw as int,
                t.raw as int,
                crate::fixed::DIR_MAX as int,
                T_MAX as int,
            );
            crate::fixed::lemma_mul_raw_bound(
                r.direction.z.raw as int,
                t.raw as int,
                crate::fixed::DIR_MAX as int,
                T_MAX as int,
            );
        }
        let p = r.at(t);
        if p.x.raw < self.x0.raw || p.x.raw > self.x1.raw || p.z.raw < self.z0.raw || p.z.raw
            > self.z1.raw {
            return None;
        }
        proof {
            lemma_div_raw_ratio(p.x.raw - self.x0.raw, self.x1.raw - self.x0.raw);
            lemma_div_raw_ratio(p.z.raw - self.z0.raw, self.z1.raw - self.z0.raw);
            vstd::arithmetic::div_mod::lemma_div_pos_is_pos(
                (p.x.raw - self.x0.raw) * (crate::fixed::SCALE as int),
                self.x1.raw - self.x0.raw,
            );
            vstd::arithmetic::div_mod::lemma_div_pos_is_pos(
                (p.z.raw - self.z0.raw) * (crate::fixed::SCALE as int),
                self.z1.raw - self.z0.raw,
            );
        }
        let u = p.x.sub(self.x0).div(self.x1.sub(self.x0));
        let v = p.z.sub(self.z0).div(self.z1.sub(self.z0));
        let outward_normal = Vec3::new(Fx::zero(), Fx::one(), Fx::zero());
        Some(HitRecord::new(p, t, u, v, outward_normal, r, self.mp))
    }

    /// The rectangle thickened by `RECT_PAD` along y.
    pub fn bounding_box(&self, time0: Fx, time1: Fx) -> (res: Option<AABB>)
        requires
            self.wf(),
        ensures
            res matches Some(b) && b.minimum.x == self.x0 && b.minimum.z == self.z0
                && b.minimum.y.raw == self.k.raw - RECT_PAD && b.maximum.x == self.x1
                && b.maximum.z == self.z1 && b.maximum.y.raw == self.k.raw + RECT_PAD,
    {
        Some(
            AABB::new(
                Vec3::new(self.x0, Fx::from_raw(self.k.raw - RECT_PAD), self.z0),
                Vec3::new(self.x1, Fx::from_raw(self.k.raw + RECT_PAD), self.z1),
            ),
        )
    }
}

impl YzRect {
    /// Edges ordered and strictly apart, everything within bounds.
    pub open spec fn wf(self) -> bool {
        &&& fits1(self.y0.raw as int, COORD_MAX as int)
        &&& fits1(self.y1.raw as int, COORD_MAX as int)
        &&& fits1(self.z0.raw as int, COORD_MAX as int)
        &&& fits1(self.z1.raw as int, COORD_MAX as int)
        &&& fits1(self.k.raw as int, COORD_MAX as int)
        &&& self.y0.raw < self.y1.raw
        &&& self.z0.raw < self.z1.raw
    }

    pub fn new(y0: Fx, y1: Fx, z0: Fx, z1: Fx, k: Fx, mp: usize) -> (q: Self)
        ensures
            q == (YzRect { y0, y1, z0, z1, k, mp }),
    {
        YzRect { y0, y1, z0, z1, k, mp }
    }

    /// The fields of a record this rectangle reports at parameter `rec.t`.
    pub open spec fn hit_rec_ok(self, r: Ray, rec: HitRecord) -> bool {
        let t = rec.t.raw as int;
        let out = Vec3 { x: Fx { raw: crate::fixed::SCALE }, y: Fx { raw: 0 }, z: Fx { raw: 0 } };
        &&& rec.mat == self.mp
        &&& rec.p.x.raw == px_at(r, t)
        &&& rec.p.y.raw == py_at(r, t)
        &&& rec.p.z.raw == pz_at(r, t)
        &&& rec.u.raw == div_raw(py_at(r, t) - self.y0.raw, self.y1.raw - self.y0.raw)
        &&& rec.v.raw == div_raw(pz_at(r, t) - self.z0.raw, self.z1.raw - self.z0.raw)
        &&& 0 <= rec.u.raw <= crate::fixed::SCALE
        &&& 0 <= rec.v.raw <= crate::fixed::SCALE
        &&& rec.front_face == (dot_raw(r.direction, out) < 0)
        &&& (rec.front_face ==> rec.normal == out)
        &&& (!rec.front_face ==> rec.normal.x.raw == -(crate::fixed::SCALE as int)
            && rec.normal.y.raw == 0 && rec.normal.z.raw == 0)
        &&& crate::vec3::fits(rec.normal, NORMAL_MAX as int)
    }

    pub fn hit(&self, r: Ray, t_min: Fx, t_max: Fx) -> (res: Option<HitRecord>)
        requires
            self.wf(),
            ray_fits(r),
            fits1(t_min.raw as int, T_MAX as int),
            fits1(t_max.raw as int, T_MAX as int),
        ensures
            res == yz_rect_hit_full(*self, r, t_min.raw as int, t_max.raw as int),
            (res is Some) == (yz_rect_hit_t(*self, r, t_min.raw as int, t_max.raw as int)
                is Some),
            res matches Some(rec) ==> Some(rec.t.raw as int) == yz_rect_hit_t(
                *self,
                r,
                t_min.raw as int,
                t_max.raw as int,
            ) && self.hit_rec_ok(r, rec) && t_min.raw <= rec.t.raw <= t_max.raw,
    {
        if r.direction.x.raw == 0 {
            return None;
        }
        let t = self.k.sub(r.origin.x).div(r.direction.x);
        if t.raw < t_min.raw || t.raw > t_max.raw {
            return None;
        }
        proof {
            crate::fixed::lemma_mul_raw_bound(
                r.direction.x.raw as int,
                t.raw as int,
                crate::fixed::DIR_MAX as int,
                T_MAX as int,
            );
            crate::fixed::lemma_mul_raw_bound(
                r.direction.y.raw as int,
                t.raw as int,
                crate::fixed::DIR_MAX as int,
                T_MAX as int,
            );
            crate::fixed::lemma_mul_raw_bound(
                r.direction.z.raw as int,
                t.raw as int,
                crate::fixed::DIR_MAX as int,
                T_MAX as int,
            );
        }
        let p = r.at(t);
        if p.y.raw < self.y0.raw || p.y.raw > self.y1.raw || p.z.raw < self.z0.raw || p.z.raw
            > self.z1.raw {
            return None;
        }
        proof {
            lemma_div_raw_ratio(p.y.raw - self.y0.raw, self.y1.raw - self.y0.raw);
            lemma_div_raw_ratio(p.z.raw - self.z0.raw, self.z1.raw - self.z0.raw);
            vstd::arithmetic::div_mod::lemma_div_pos_is_pos(
                (p.y.raw - self.y0.raw) * (crate::fixed::SCALE as int),
                self.y1.raw - self.y0.raw,
            );
            vstd::arithmetic::div_mod::lemma_div_pos_is_pos(
                (p.z.raw - self.z0.raw) * (crate::fixed::SCALE as int),
                self.z1.raw - self.z0.raw,
            );
        }
        let u = p.y.sub(self.y0).div(self.y1.sub(self.y0));
        let v = p.z.sub(self.z0).div(self.z1.sub(self.z0));
        let outward_normal = Vec3::new(Fx::one(), Fx::zero(), Fx::zero());
        Some(HitRecord::new(p, t, u, v, outward_normal, r, self.mp))
    }

    /// The rectangle thickened by `RECT_PAD` along x.
    pub fn bounding_box(&self, time0: Fx, time1: Fx) -> (res: Option<AABB>)
        requires
            self.wf(),
        ensures
            res matches Some(b) && b.minimum.y == self.y0 && b.minimum.z == self.z0
                && b.minimum.x.raw == self.k.raw - RECT_PAD && b.maximum.y == self.y1
                && b.maximum.z == self.z1 && b.maximum.x.raw == self.k.raw + RECT_PAD,
    {
        Some(
            AABB::new(
                Vec3::new(Fx::from_raw(self.k.raw - RECT_PAD), self.y0, self.z0),
                Vec3::new(Fx::from_raw(self.k.raw + RECT_PAD), self.y1, self.z1),
            ),
        )
    }
}

} // verus!
