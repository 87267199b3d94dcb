//! Axis-aligned bounding boxes: the slab intersection test and the
//! componentwise union of two boxes.

use vstd::prelude::*;
use crate::fixed::{Fx, COORD_MAX, div_raw};
use crate::vec3::{Vec3, fits, fits1};
use crate::ray::{Ray, ray_fits};

verus! {

/// An axis-aligned box between two corner points.
#[derive(Clone, Copy, Debug, PartialEq, Eq, Structural)]
pub struct AABB {
    pub minimum: Vec3,
    pub maximum: Vec3,
}

/// Both corners lie within the coordinate bounds.
pub open spec fn box_fits(b: AABB) -> bool {
    fits(b.minimum, COORD_MAX as int) && fits(b.maximum, COORD_MAX as int)
}

/// `outer` contains `inner`, componentwise on both corners.
pub open spec fn contains(outer: AABB, inner: AABB) -> bool {
    &&& outer.minimum.x.raw <= inner.minimum.x.raw
    &&& outer.minimum.y.raw <= inner.minimum.y.raw
    &&& outer.minimum.z.raw <= inner.minimum.z.raw
    &&& inner.maximum.x.raw <= outer.maximum.x.raw
    &&& inner.maximum.y.raw <= outer.maximum.y.raw
    &&& inner.maximum.z.raw <= outer.maximum.z.raw
}

/// The smaller of two raw values.
pub open spec fn raw_min(a: i64, b: i64) -> i64 {
    if a <= b {
        a
    } else {
        b
    }
}

/// The larger of two raw values.
pub open spec fn raw_max(a: i64, b: i64) -> i64 {
    if a >= b {
        a
    } else {
        b
    }
}

/// The componentwise union of two boxes.
pub open spec fn surrounding_spec(box0: AABB, box1: AABB) -> AABB {
    AABB {
        minimum: Vec3 {
            x: Fx { raw: raw_min(box0.minimum.x.raw, box1.minimum.x.raw) },
            y: Fx { raw: raw_min(box0.minimum.y.raw, box1.minimum.y.raw) },
            z: Fx { raw: raw_min(box0.minimum.z.raw, box1.minimum.z.raw) },
        },
        maximum: Vec3 {
            x: Fx { raw: raw_max(box0.maximum.x.raw, box1.maximum.x.raw) },
            y: Fx { raw: raw_max(box0.maximum.y.raw, box1.maximum.y.raw) },
            z: Fx { raw: raw_max(box0.maximum.z.raw, box1.maximum.z.raw) },
        },
    }
}

/// Whether the slab of one axis admits the ray at all: a ray parallel to the
/// slab must start between its planes.
pub open spec fn slab_ok(min_c: int, max_c: int, o: int, d: int) -> bool {
    d != 0 || (min_c <= o && o <= max_c)
}

/// The lower end of the ray-parameter window after one axis's slab.
pub open spec fn slab_lo(min_c: int, max_c: int, o: int, d: int, lo: int) -> int {
    if d == 0 {
        lo
    } else {
        let ta = div_raw(min_c - o, d);
        let tb = div_raw(max_c - o, d);
        let t0 = if ta <= tb {
            ta
        } else {
            tb
        };
        if lo >= t0 {
            lo
        } else {
            t0
        }
    }
}

/// The upper end of the ray-parameter window after one axis's slab.
pub open spec fn slab_hi(min_c: int, max_c: int, o: int, d: int, hi: int) -> int {
    if d == 0 {
        hi
    } else {
        let ta = div_raw(min_c - o, d);
        let tb = div_raw(max_c - o, d);
        let t1 = if ta >= tb {
            ta
        } else {
            tb
        };
        if hi <= t1 {
            hi
        } else {
            t1
        }
    }
}

/// The slab test: intersect the per-axis parameter windows with
/// `[t_min, t_max]`, failing as soon as a window closes.
pub open spec fn aabb_hit_spec(b: AABB, r: Ray, t_min: int, t_max: int) -> bool {
    let mnx = b.minimum.x.raw as int;
    let mxx = b.maximum.x.raw as int;
    let ox = r.origin.x.raw as int;
    let dx = r.direction.x.raw as int;
    let lo1 = slab_lo(mnx, mxx, ox, dx, t_min);
    let hi1 = slab_hi(mnx, mxx, ox, dx, t_max);
    let mny = b.minimum.y.raw as int;
    let mxy = b.maximum.y.raw as int;
    let oy = r.origin.y.raw as int;
    let dy = r.direction.y.raw as int;
    let lo2 = slab_lo(mny, mxy, oy, dy, lo1);
    let hi2 = slab_hi(mny, mxy, oy, dy, hi1);
    let mnz = b.minimum.z.raw as int;
    let mxz = b.maximum.z.raw as int;
    let oz = r.origin.z.raw as int;
    let dz = r.direction.z.raw as int;
    let lo3 = slab_lo(mnz, mxz, oz, dz, lo2);
    let hi3 = slab_hi(mnz, mxz, oz, dz, hi2);
    &&& slab_ok(mnx, mxx, ox, dx)
    &&& lo1 < hi1
    &&& slab_ok(mny, mxy, oy, dy)
    &&& lo2 < hi2
    &&& slab_ok(mnz, mxz, oz, dz)
    &&& lo3 < hi3
}

/// One axis of the slab test: the narrowed window and whether a parallel
/// ray is admitted at all.
fn slab_axis(min_c: Fx, max_c: Fx, o: Fx, d: Fx, lo: Fx, hi: Fx) -> (res: (Fx, Fx, bool))
    requires
        fits1(min_c.raw as int, COORD_MAX as int),
        fits1(max_c.raw as int, COORD_MAX as int),
        fits1(o.raw as int, COORD_MAX as int),
    ensures
        res.0.raw == slab_lo(min_c.raw as int, max_c.raw as int, o.raw as int, d.raw as int, lo.raw as int),
        res.1.raw == slab_hi(min_c.raw as int, max_c.raw as int, o.raw as int, d.raw as int, hi.raw as int),
        res.2 == slab_ok(min_c.raw as int, max_c.raw as int, o.raw as int, d.raw as int),
{
    if d.raw == 0 {
        (lo, hi, min_c.raw <= o.raw && o.raw <= max_c.raw)
    } else {
        let ta = min_c.sub(o).div(d);
        let tb = max_c.sub(o).div(d);
        let t0 = ta.min(tb);
        let t1 = ta.max(tb);
        (lo.max(t0), hi.min(t1), true)
    }
}

impl AABB {
    pub fn new(a: Vec3, b: Vec3) -> (r: Self)
        ensures
            r.minimum == a,
            r.maximum == b,
    {
        AABB { minimum: a, maximum: b }
    }

    /// Slab intersection test against the window `[t_min, t_max]`.
    pub fn hit(&self, r: Ray, t_min: Fx, t_max: Fx) -> (res: bool)
        requires
            box_fits(*self),
            ray_fits(r),
        ensures
            res == aabb_hit_spec(*self, r, t_min.raw as int, t_max.raw as int),
    {
        let (lo1, hi1, ok1) = slab_axis(
            self.minimum.x,
            self.maximum.x,
            r.origin.x,
            r.direction.x,
            t_min,
            t_max,
        );
        if !ok1 || hi1.raw <= lo1.raw {
            return false;
        }
        let (lo2, hi2, ok2) = slab_axis(
            self.minimum.y,
            self.maximum.y,
            r.origin.y,
            r.direction.y,
            lo1,
            hi1,
        );
        if !ok2 || hi2.raw <= lo2.raw {
            return false;
        }
        let (lo3, hi3, ok3) = slab_axis(
            self.minimum.z,
            self.maximum.z,
            r.origin.z,
            r.direction.z,
            lo2,
            hi2,
        );
        if !ok3 || hi3.raw <= lo3.raw {
            return false;
        }
        true
    }

    /// The componentwise union: minimum of minima, maximum of maxima.
    pub fn surrounding_box(box0: AABB, box1: AABB) -> (r: AABB)
        ensures
            r == surrounding_spec(box0, box1),
    {
        let small = Vec3::new(
            box0.minimum.x.min(box1.minimum.x),
            box0.minimum.y.min(box1.minimum.y),
            box0.minimum.z.min(box1.minimum.z),
        );
        let big = Vec3::new(
            box0.maximum.x.max(box1.maximum.x),
            box0.maximum.y.max(box1.maximum.y),
            box0.maximum.z.max(box1.maximum.z),
        );
        AABB::new(small, big)
    }
}

/// The union of two boxes contains each of them, and taking the union is
/// commutative.
pub proof fn lemma_surrounding_box(a: AABB, b: AABB)
    ensures
        contains(surrounding_spec(a, b), a),
        contains(surrounding_spec(a, b), b),
        surrounding_spec(a, b) == surrounding_spec(b, a),
{
}

/// The union is associative as well, so folding a list of boxes into one
/// does not depend on grouping.
pub proof fn lemma_surrounding_box_assoc(a: AABB, b: AABB, c: AABB)
    ensures
        surrounding_spec(surrounding_spec(a, b), c) == surrounding_spec(a, surrounding_spec(b, c)),
{
}

} // verus!
