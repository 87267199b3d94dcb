//! The geometric query shared by every shape: `hit` over a ray-parameter
//! window, and `bounding_box` over a time interval.

use vstd::prelude::*;
use crate::fixed::{
    Fx, SCALE, COORD_MAX, T_MAX, mul_raw, lemma_mul_bound, lemma_mul_raw_bound,
};
use crate::vec3::{Vec3, fits, fits1, dot_raw};
use crate::ray::{Ray, ray_fits};
use crate::aabb::{AABB, surrounding_spec};
use crate::sphere::{Sphere, sphere_hit_t, sphere_hit_full, sphere_bbox};
use crate::moving_sphere::{MovingSphere, ms_sphere};
use crate::aarect::{
    XyRect, XzRect, YzRect, xy_rect_hit_t, xz_rect_hit_t, yz_rect_hit_t, xy_rect_hit_full,
    xz_rect_hit_full, yz_rect_hit_full, RECT_PAD,
};
use crate::vec3::clamp1;
use crate::box_::Box_;
use crate::hittable_list::HittableList;
use crate::constant_medium::{ConstantMedium, medium_full};

verus! {

/// Raw bound on the corners of every bounding box a shape reports.
pub const BB_MAX: i64 = 4294967296;

/// Raw bound on the hit points every shape reports.
pub const P_MAX: i64 = 2199023255552;

/// Raw bound every surface normal handed to shading satisfies; outward
/// normals are clamped here, which leaves geometrically meaningful normals
/// (unit length up to rounding) untouched.
pub const NORMAL_MAX: i64 = 1048576;

/// The result of a successful intersection: hit point, oriented normal,
/// ray parameter, surface coordinates and the material's index in the
/// scene's material table.
#[derive(Clone, Copy, Debug, PartialEq, Eq, Structural)]
pub struct HitRecord {
    pub p: Vec3,
    pub normal: Vec3,
    pub t: Fx,
    pub u: Fx,
    pub v: Fx,
    pub front_face: bool,
    pub mat: usize,
}

/// The record built from an outward normal, oriented against the incoming
/// ray, exactly as `HitRecord::new` builds it.
pub open spec fn oriented_rec(p: Vec3, t: Fx, u: Fx, v: Fx, outward: Vec3, r: Ray, mat: usize)
    -> HitRecord {
    let ff = dot_raw(r.direction, outward) < 0;
    HitRecord {
        p,
        normal: if ff {
            outward
        } else {
            Vec3 {
                x: Fx { raw: (-(outward.x.raw as int)) as i64 },
                y: Fx { raw: (-(outward.y.raw as int)) as i64 },
                z: Fx { raw: (-(outward.z.raw as int)) as i64 },
            }
        },
        t,
        u,
        v,
        front_face: ff,
        mat,
    }
}

impl HitRecord {
    /// Build a record, orienting the normal against the incoming ray:
    /// `front_face` remembers whether the outward normal already did.
    pub fn new(p: Vec3, t: Fx, u: Fx, v: Fx, outward_normal: Vec3, r: Ray, mat: usize) -> (rec:
        Self)
        requires
            fits(outward_normal, NORMAL_MAX as int),
            fits(r.direction, crate::vec3::DOT_ARG as int),
        ensures
            rec == oriented_rec(p, t, u, v, outward_normal, r, mat),
            rec.p == p,
            rec.t == t,
            rec.u == u,
            rec.v == v,
            rec.mat == mat,
            rec.front_face == (dot_raw(r.direction, outward_normal) < 0),
            rec.front_face ==> rec.normal == outward_normal,
            !rec.front_face ==> rec.normal.x.raw == -outward_normal.x.raw
                && rec.normal.y.raw == -outward_normal.y.raw && rec.normal.z.raw
                == -outward_normal.z.raw,
            fits(rec.normal, NORMAL_MAX as int),
    {
        let front_face = Vec3::dot(r.direction, outward_normal).raw < 0;
        let normal = if front_face {
            outward_normal
        } else {
            outward_normal.neg()
        };
        HitRecord { p, normal, t, u, v, front_face, mat }
    }
}

/// A shape shifted by a constant offset.
pub struct Translate {
    pub offset: Vec3,
    pub ptr: Box<Hittable>,
}

impl Translate {
    pub fn new(offset: Vec3, ptr: Box<Hittable>) -> (t: Self)
        ensures
            t.offset == offset,
            t.ptr == ptr,
    {
        Translate { offset, ptr }
    }
}

/// A shape rotated about the y axis; the sine and cosine of the fixed angle
/// and the world-space bounding box are precomputed at construction.
pub struct RotateY {
    pub sin_theta: Fx,
    pub cos_theta: Fx,
    pub bbox: AABB,
    pub ptr: Box<Hittable>,
}

/// The smaller of two mathematical integers.
pub open spec fn imin(a: int, b: int) -> int {
    if a <= b {
        a
    } else {
        b
    }
}

/// The larger of two mathematical integers.
pub open spec fn imax(a: int, b: int) -> int {
    if a >= b {
        a
    } else {
        b
    }
}

/// The least of four mathematical integers.
pub open spec fn imin4(a: int, b: int, c: int, d: int) -> int {
    imin(imin(a, b), imin(c, d))
}

/// The greatest of four mathematical integers.
pub open spec fn imax4(a: int, b: int, c: int, d: int) -> int {
    imax(imax(a, b), imax(c, d))
}

/// x-coordinate of a corner rotated about the y axis.
pub open spec fn rot_nx(sin: int, cos: int, x: int, z: int) -> int {
    mul_raw(cos, x) + mul_raw(sin, z)
}

/// z-coordinate of a corner rotated about the y axis.
pub open spec fn rot_nz(sin: int, cos: int, x: int, z: int) -> int {
    mul_raw(cos, z) - mul_raw(sin, x)
}

/// The world-space box of a rotated box: the bounds of the four rotated
/// corner columns on x and z, the child's own bounds on y.
pub open spec fn rot_bbox_spec(b: AABB, sin: int, cos: int) -> AABB {
    let x0 = b.minimum.x.raw as int;
    let x1 = b.maximum.x.raw as int;
    let z0 = b.minimum.z.raw as int;
    let z1 = b.maximum.z.raw as int;
    let xa = rot_nx(sin, cos, x0, z0);
    let xb = rot_nx(sin, cos, x0, z1);
    let xc = rot_nx(sin, cos, x1, z0);
    let xd = rot_nx(sin, cos, x1, z1);
    let za = rot_nz(sin, cos, x0, z0);
    let zb = rot_nz(sin, cos, x0, z1);
    let zc = rot_nz(sin, cos, x1, z0);
    let zd = rot_nz(sin, cos, x1, z1);
    AABB {
        minimum: Vec3 {
            x: Fx { raw: imin4(xa, xb, xc, xd) as i64 },
            y: Fx { raw: imin(b.minimum.y.raw as int, b.maximum.y.raw as int) as i64 },
            z: Fx { raw: imin4(za, zb, zc, zd) as i64 },
        },
        maximum: Vec3 {
            x: Fx { raw: imax4(xa, xb, xc, xd) as i64 },
            y: Fx { raw: imax(b.minimum.y.raw as int, b.maximum.y.raw as int) as i64 },
            z: Fx { raw: imax4(za, zb, zc, zd) as i64 },
        },
    }
}

/// Both corners of the box lie within the reported-box bounds.
pub open spec fn bb_fits(b: AABB) -> bool {
    fits(b.minimum, BB_MAX as int) && fits(b.maximum, BB_MAX as int)
}

/// A geometric shape: a primitive, an aggregate, or a wrapper that
/// transforms another shape.
pub enum Hittable {
    Sphere(Sphere),
    MovingSphere(MovingSphere),
    XyRect(XyRect),
    XzRect(XzRect),
    YzRect(YzRect),
    Box_(Box_),
    List(HittableList),
    Translate(Translate),
    RotateY(RotateY),
    ConstantMedium(ConstantMedium),
}

/// Every shape in the tree is well formed: parameters in bounds, rectangle
/// edges ordered, keyframe times apart, densities positive.
pub open spec fn h_wf(h: Hittable) -> bool
    decreases h,
{
    match h {
        Hittable::Sphere(s) => s.wf(),
        Hittable::MovingSphere(s) => s.wf(),
        Hittable::XyRect(q) => q.wf(),
        Hittable::XzRect(q) => q.wf(),
        Hittable::YzRect(q) => q.wf(),
        Hittable::Box_(b) => Box_::corners_wf(b.box_min, b.box_max) && seq_wf(
            b.sides.hittable_list@,
        ),
        Hittable::List(l) => seq_wf(l.hittable_list@),
        Hittable::Translate(t) => fits(t.offset, COORD_MAX as int) && h_wf(*t.ptr),
        Hittable::RotateY(ry) => fits1(ry.sin_theta.raw as int, SCALE as int) && fits1(
            ry.cos_theta.raw as int,
            SCALE as int,
        ) && bb_fits(ry.bbox) && h_wf(*ry.ptr),
        Hittable::ConstantMedium(m) => m.neg_inv_density.raw <= 0 && fits1(
            m.neg_inv_density.raw as int,
            0x100000000,
        ) && h_wf(*m.boundary),
    }
}

/// Every element of the sequence is well formed.
pub open spec fn seq_wf(s: Seq<Hittable>) -> bool
    decreases s,
{
    forall|i: int| 0 <= i < s.len() ==> h_wf(#[trigger] s[i])
}

/// No constant medium anywhere in the tree: the query is then a pure
/// function of the shape and the ray, modelled exactly by `det_hit`.
pub open spec fn det_tree(h: Hittable) -> bool
    decreases h,
{
    match h {
        Hittable::ConstantMedium(_) => false,
        Hittable::Box_(b) => seq_det(b.sides.hittable_list@),
        Hittable::List(l) => seq_det(l.hittable_list@),
        Hittable::Translate(t) => det_tree(*t.ptr),
        Hittable::RotateY(ry) => det_tree(*ry.ptr),
        _ => true,
    }
}

/// Every element of the sequence is free of constant media.
pub open spec fn seq_det(s: Seq<Hittable>) -> bool
    decreases s,
{
    forall|i: int| 0 <= i < s.len() ==> det_tree(#[trigger] s[i])
}

/// The exact query result of a media-free shape: the scene invariant of a
/// linear scan.  Aggregates return the closest child hit in the window,
/// transforms map the ray in and the record back out, and every
/// out-of-range guard of the executable query is mirrored.
pub open spec fn det_hit(h: Hittable, r: Ray, t_min: int, t_max: int) -> Option<HitRecord>
    decreases h, 0int,
{
    match h {
        Hittable::Sphere(s) => sphere_hit_full(s, r, t_min, t_max),
        Hittable::MovingSphere(s) => sphere_hit_full(
            ms_sphere(s, r.time.raw as int),
            r,
            t_min,
            t_max,
        ),
        Hittable::XyRect(q) => xy_rect_hit_full(q, r, t_min, t_max),
        Hittable::XzRect(q) => xz_rect_hit_full(q, r, t_min, t_max),
        Hittable::YzRect(q) => yz_rect_hit_full(q, r, t_min, t_max),
        Hittable::Box_(b) => det_list_from(b.sides.hittable_list@, 0, r, t_min, t_max, None),
        Hittable::List(l) => det_list_from(l.hittable_list@, 0, r, t_min, t_max, None),
        Hittable::Translate(tr) => {
            let mo = Vec3 {
                x: Fx { raw: (r.origin.x.raw - tr.offset.x.raw) as i64 },
                y: Fx { raw: (r.origin.y.raw - tr.offset.y.raw) as i64 },
                z: Fx { raw: (r.origin.z.raw - tr.offset.z.raw) as i64 },
            };
            if !fits(mo, COORD_MAX as int) {
                None
            } else {
                let moved = Ray { origin: mo, direction: r.direction, time: r.time };
                match det_hit(*tr.ptr, moved, t_min, t_max) {
                    Option::None => None,
                    Option::Some(rec) => {
                        let sx = rec.p.x.raw + tr.offset.x.raw;
                        let sy = rec.p.y.raw + tr.offset.y.raw;
                        let sz = rec.p.z.raw + tr.offset.z.raw;
                        if fits1(sx, P_MAX as int) && fits1(sy, P_MAX as int) && fits1(
                            sz,
                            P_MAX as int,
                        ) {
                            Some(
                                oriented_rec(
                                    Vec3 {
                                        x: Fx { raw: sx as i64 },
                                        y: Fx { raw: sy as i64 },
                                        z: Fx { raw: sz as i64 },
                                    },
                                    rec.t,
                                    rec.u,
                                    rec.v,
                                    rec.normal,
                                    moved,
                                    rec.mat,
                                ),
                            )
                        } else {
                            None
                        }
                    },
                }
            }
        },
        Hittable::RotateY(ry) => {
            let c = ry.cos_theta.raw as int;
            let sn = ry.sin_theta.raw as int;
            let ox = mul_raw(c, r.origin.x.raw as int) - mul_raw(sn, r.origin.z.raw as int);
            let oz = mul_raw(sn, r.origin.x.raw as int) + mul_raw(c, r.origin.z.raw as int);
            let dx = mul_raw(c, r.direction.x.raw as int) - mul_raw(sn, r.direction.z.raw as int);
            let dz = mul_raw(sn, r.direction.x.raw as int) + mul_raw(c, r.direction.z.raw as int);
            if !(fits1(ox, COORD_MAX as int) && fits1(oz, COORD_MAX as int) && fits1(
                dx,
                crate::fixed::DIR_MAX as int,
            ) && fits1(dz, crate::fixed::DIR_MAX as int)) {
                None
            } else {
                let rotated = Ray {
                    origin: Vec3 { x: Fx { raw: ox as i64 }, y: r.origin.y, z: Fx { raw: oz as i64 } },
                    direction: Vec3 {
                        x: Fx { raw: dx as i64 },
                        y: r.direction.y,
                        z: Fx { raw: dz as i64 },
                    },
                    time: r.time,
                };
                match det_hit(*ry.ptr, rotated, t_min, t_max) {
                    Option::None => None,
                    Option::Some(rec) => {
                        if !(fits1(rec.p.x.raw as int, 1099511627776) && fits1(
                            rec.p.z.raw as int,
                            1099511627776,
                        )) {
                            None
                        } else {
                            let px = mul_raw(c, rec.p.x.raw as int) + mul_raw(
                                sn,
                                rec.p.z.raw as int,
                            );
                            let pz = mul_raw(c, rec.p.z.raw as int) - mul_raw(
                                sn,
                                rec.p.x.raw as int,
                            );
                            let nx = mul_raw(c, rec.normal.x.raw as int) + mul_raw(
                                sn,
                                rec.normal.z.raw as int,
                            );
                            let nz = mul_raw(c, rec.normal.z.raw as int) - mul_raw(
                                sn,
                                rec.normal.x.raw as int,
                            );
                            let normal = Vec3 {
                                x: Fx { raw: clamp1(nx, NORMAL_MAX as int) as i64 },
                                y: Fx {
                                    raw: clamp1(rec.normal.y.raw as int, NORMAL_MAX as int) as i64,
                                },
                                z: Fx { raw: clamp1(nz, NORMAL_MAX as int) as i64 },
                            };
                            Some(
                                oriented_rec(
                                    Vec3 {
                                        x: Fx { raw: px as i64 },
                                        y: rec.p.y,
                                        z: Fx { raw: pz as i64 },
                                    },
                                    rec.t,
                                    rec.u,
                                    rec.v,
                                    normal,
                                    r,
                                    rec.mat,
                                ),
                            )
                        }
                    },
                }
            }
        },
        Hittable::ConstantMedium(_) => None,
    }
}

/// The scan over a list's shapes from index `i`, carrying the closest hit
/// found so far and its narrowed window: later shapes must beat it.
pub open spec fn det_list_from(s: Seq<Hittable>, i: int, r: Ray, t_min: int, cur_max: int,
    cur: Option<HitRecord>) -> Option<HitRecord>
    decreases s, s.len() - i + 1,
{
    if i < 0 || i >= s.len() {
        cur
    } else {
        match det_hit(s[i], r, t_min, cur_max) {
            Option::None => det_list_from(s, i + 1, r, t_min, cur_max, cur),
            Option::Some(rec) => det_list_from(s, i + 1, r, t_min, rec.t.raw as int, Some(rec)),
        }
    }
}

/// The box a shape reports, as a function of the shape and the time
/// interval; `None` where the shape cannot be bounded, or where a shifted
/// or rotated box would leave the representable range.
pub open spec fn bbox_spec(h: Hittable, time0: Fx, time1: Fx) -> Option<AABB>
    decreases h,
{
    match h {
        Hittable::Sphere(s) => Some(sphere_bbox(s)),
        Hittable::MovingSphere(s) => Some(
            surrounding_spec(
                sphere_bbox(ms_sphere(s, time0.raw as int)),
                sphere_bbox(ms_sphere(s, time1.raw as int)),
            ),
        ),
        Hittable::XyRect(q) => Some(
            AABB {
                minimum: Vec3 { x: q.x0, y: q.y0, z: Fx { raw: (q.k.raw - RECT_PAD) as i64 } },
                maximum: Vec3 { x: q.x1, y: q.y1, z: Fx { raw: (q.k.raw + RECT_PAD) as i64 } },
            },
        ),
        Hittable::XzRect(q) => Some(
            AABB {
                minimum: Vec3 { x: q.x0, y: Fx { raw: (q.k.raw - RECT_PAD) as i64 }, z: q.z0 },
                maximum: Vec3 { x: q.x1, y: Fx { raw: (q.k.raw + RECT_PAD) as i64 }, z: q.z1 },
            },
        ),
        Hittable::YzRect(q) => Some(
            AABB {
                minimum: Vec3 { x: Fx { raw: (q.k.raw - RECT_PAD) as i64 }, y: q.y0, z: q.z0 },
                maximum: Vec3 { x: Fx { raw: (q.k.raw + RECT_PAD) as i64 }, y: q.y1, z: q.z1 },
            },
        ),
        Hittable::Box_(b) => Some(AABB { minimum: b.box_min, maximum: b.box_max }),
        Hittable::List(l) => bbox_list_spec(l.hittable_list@, time0, time1),
        Hittable::Translate(t) => match bbox_spec(*t.ptr, time0, time1) {
            Option::None => None,
            Option::Some(b) => {
                let mnx = b.minimum.x.raw + t.offset.x.raw;
                let mny = b.minimum.y.raw + t.offset.y.raw;
                let mnz = b.minimum.z.raw + t.offset.z.raw;
                let mxx = b.maximum.x.raw + t.offset.x.raw;
                let mxy = b.maximum.y.raw + t.offset.y.raw;
                let mxz = b.maximum.z.raw + t.offset.z.raw;
                if fits1(mnx, BB_MAX as int) && fits1(mny, BB_MAX as int) && fits1(
                    mnz,
                    BB_MAX as int,
                ) && fits1(mxx, BB_MAX as int) && fits1(mxy, BB_MAX as int) && fits1(
                    mxz,
                    BB_MAX as int,
                ) {
                    Some(
                        AABB {
                            minimum: Vec3 {
                                x: Fx { raw: mnx as i64 },
                                y: Fx { raw: mny as i64 },
                                z: Fx { raw: mnz as i64 },
                            },
                            maximum: Vec3 {
                                x: Fx { raw: mxx as i64 },
                                y: Fx { raw: mxy as i64 },
                                z: Fx { raw: mxz as i64 },
                            },
                        },
                    )
                } else {
                    None
                }
            },
        },
        Hittable::RotateY(ry) => Some(ry.bbox),
        Hittable::ConstantMedium(m) => bbox_spec(*m.boundary, time0, time1),
    }
}

/// Left fold of `surrounding_spec` over the boxes of the remaining shapes,
/// starting from an accumulator; `None` as soon as one shape is unbounded.
pub open spec fn bbox_fold(acc: AABB, s: Seq<Hittable>, time0: Fx, time1: Fx) -> Option<AABB>
    decreases s,
{
    if s.len() == 0 {
        Some(acc)
    } else {
        match bbox_spec(s[0], time0, time1) {
            Option::None => None,
            Option::Some(b) => bbox_fold(surrounding_spec(acc, b), s.subrange(1, s.len() as int),
                time0, time1),
        }
    }
}

/// The box of a list of shapes: `None` for the empty list or when any
/// element is unbounded, else the fold of the elements' boxes.
pub open spec fn bbox_list_spec(s: Seq<Hittable>, time0: Fx, time1: Fx) -> Option<AABB>
    decreases s,
{
    if s.len() == 0 {
        None
    } else {
        match bbox_spec(s[0], time0, time1) {
            Option::None => None,
            Option::Some(b0) => bbox_fold(b0, s.subrange(1, s.len() as int), time0, time1),
        }
    }
}

/// A box's reported bounds are exactly its two construction corners —
/// not re-derived from the six faces, and independent of the time interval
/// and of which materials the faces carry.
pub proof fn lemma_box_bounding_box(b: Box_, time0: Fx, time1: Fx)
    ensures
        bbox_spec(Hittable::Box_(b), time0, time1) == Some(
            AABB { minimum: b.box_min, maximum: b.box_max },
        ),
{
}

impl RotateY {
    /// Precompute the world-space box by rotating the child's box corners.
    /// `None` when the child cannot be bounded (rotation needs a finite
    /// box), or when a rotated corner would leave the representable range.
    #[verifier::rlimit(60)]
    pub fn new(sin_theta: Fx, cos_theta: Fx, ptr: Box<Hittable>) -> (res: Option<RotateY>)
        requires
            h_wf(*ptr),
            fits1(sin_theta.raw as int, SCALE as int),
            fits1(cos_theta.raw as int, SCALE as int),
        ensures
            bbox_spec(*ptr, Fx { raw: 0 }, Fx { raw: SCALE }) is None ==> res is None,
            (res is Some) == (match bbox_spec(*ptr, Fx { raw: 0 }, Fx { raw: SCALE }) {
                Option::None => false,
                Option::Some(cb) => bb_fits(
                    rot_bbox_spec(cb, sin_theta.raw as int, cos_theta.raw as int),
                ),
            }),
            res matches Some(ry) ==> {
                &&& ry.sin_theta == sin_theta
                &&& ry.cos_theta == cos_theta
                &&& ry.ptr == ptr
                &&& (bbox_spec(*ptr, Fx { raw: 0 }, Fx { raw: SCALE }) matches Some(cb)
                    && ry.bbox == rot_bbox_spec(cb, sin_theta.raw as int, cos_theta.raw as int))
                &&& bb_fits(ry.bbox)
                &&& h_wf(Hittable::RotateY(RotateY {
                    sin_theta,
                    cos_theta,
                    bbox: ry.bbox,
                    ptr: ry.ptr,
                }))
            },
    {
        let cb = match ptr.bounding_box(Fx::zero(), Fx::one()) {
            Option::None => {
                return None;
            },
            Option::Some(b) => b,
        };
        proof {
            lemma_mul_bound(cos_theta.raw as int, cb.minimum.x.raw as int, SCALE as int,
                BB_MAX as int);
            lemma_mul_bound(cos_theta.raw as int, cb.maximum.x.raw as int, SCALE as int,
                BB_MAX as int);
            lemma_mul_bound(cos_theta.raw as int, cb.minimum.z.raw as int, SCALE as int,
                BB_MAX as int);
            lemma_mul_bound(cos_theta.raw as int, cb.maximum.z.raw as int, SCALE as int,
                BB_MAX as int);
            lemma_mul_bound(sin_theta.raw as int, cb.minimum.x.raw as int, SCALE as int,
                BB_MAX as int);
            lemma_mul_bound(sin_theta.raw as int, cb.maximum.x.raw as int, SCALE as int,
                BB_MAX as int);
            lemma_mul_bound(sin_theta.raw as int, cb.minimum.z.raw as int, SCALE as int,
                BB_MAX as int);
            lemma_mul_bound(sin_theta.raw as int, cb.maximum.z.raw as int, SCALE as int,
                BB_MAX as int);
            lemma_mul_raw_bound(cos_theta.raw as int, cb.minimum.x.raw as int, SCALE as int,
                BB_MAX as int);
            lemma_mul_raw_bound(cos_theta.raw as int, cb.maximum.x.raw as int, SCALE as int,
                BB_MAX as int);
            lemma_mul_raw_bound(cos_theta.raw as int, cb.minimum.z.raw as int, SCALE as int,
                BB_MAX as int);
            lemma_mul_raw_bound(cos_theta.raw as int, cb.maximum.z.raw as int, SCALE as int,
                BB_MAX as int);
            lemma_mul_raw_bound(sin_theta.raw as int, cb.minimum.x.raw as int, SCALE as int,
                BB_MAX as int);
            lemma_mul_raw_bound(sin_theta.raw as int, cb.maximum.x.raw as int, SCALE as int,
                BB_MAX as int);
            lemma_mul_raw_bound(sin_theta.raw as int, cb.minimum.z.raw as int, SCALE as int,
                BB_MAX as int);
            lemma_mul_raw_bound(sin_theta.raw as int, cb.maximum.z.raw as int, SCALE as int,
                BB_MAX as int);
        }
        let xa = cos_theta.mul(cb.minimum.x).add(sin_theta.mul(cb.minimum.z));
        let xb = cos_theta.mul(cb.minimum.x).add(sin_theta.mul(cb.maximum.z));
        let xc = cos_theta.mul(cb.maximum.x).add(sin_theta.mul(cb.minimum.z));
        let xd = cos_theta.mul(cb.maximum.x).add(sin_theta.mul(cb.maximum.z));
        let za = cos_theta.mul(cb.minimum.z).sub(sin_theta.mul(cb.minimum.x));
        let zb = cos_theta.mul(cb.maximum.z).sub(sin_theta.mul(cb.minimum.x));
        let zc = cos_theta.mul(cb.minimum.z).sub(sin_theta.mul(cb.maximum.x));
        let zd = cos_theta.mul(cb.maximum.z).sub(sin_theta.mul(cb.maximum.x));
        let xmin = xa.min(xb).min(xc.min(xd));
        let xmax = xa.max(xb).max(xc.max(xd));
        let zmin = za.min(zb).min(zc.min(zd));
        let zmax = za.max(zb).max(zc.max(zd));
        let ymin = cb.minimum.y.min(cb.maximum.y);
        let ymax = cb.minimum.y.max(cb.maximum.y);
        if xmin.raw < -BB_MAX || xmax.raw > BB_MAX || zmin.raw < -BB_MAX || zmax.raw > BB_MAX {
            return None;
        }
        let bbox = AABB::new(Vec3::new(xmin, ymin, zmin), Vec3::new(xmax, ymax, zmax));
        Some(RotateY { sin_theta, cos_theta, bbox, ptr })
    }
}

impl Hittable {
    /// Intersect a ray with this shape over `[t_min, t_max]`: the nearest
    /// acceptable intersection, or `None`.  Constant media draw their
    /// free-flight samples from `rng`; everything else is deterministic.
    #[verifier::loop_isolation(false)]
    pub fn hit(&self, r: Ray, t_min: Fx, t_max: Fx, rng: &mut rand::rngs::StdRng) -> (res: Option<
        HitRecord,
    >)
        requires
            h_wf(*self),
            ray_fits(r),
            fits1(t_min.raw as int, T_MAX as int),
            fits1(t_max.raw as int, T_MAX as int),
            fits1(r.time.raw as int, T_MAX as int),
        ensures
            res matches Some(rec) ==> t_min.raw <= rec.t.raw <= t_max.raw && fits(
                rec.normal,
                NORMAL_MAX as int,
            ) && fits(rec.p, P_MAX as int),
            det_tree(*self) ==> res == det_hit(*self, r, t_min.raw as int, t_max.raw as int),
            match *self {
                Hittable::Sphere(s) => (res is Some) == (sphere_hit_t(
                    s,
                    r,
                    t_min.raw as int,
                    t_max.raw as int,
                ) is Some) && (res matches Some(rec) ==> Some(rec.t.raw as int) == sphere_hit_t(
                    s,
                    r,
                    t_min.raw as int,
                    t_max.raw as int,
                ) && s.hit_rec_ok(r, rec)),
                Hittable::MovingSphere(s) => (res is Some) == (sphere_hit_t(
                    ms_sphere(s, r.time.raw as int),
                    r,
                    t_min.raw as int,
                    t_max.raw as int,
                ) is Some) && (res matches Some(rec) ==> Some(rec.t.raw as int) == sphere_hit_t(
                    ms_sphere(s, r.time.raw as int),
                    r,
                    t_min.raw as int,
                    t_max.raw as int,
                ) && ms_sphere(s, r.time.raw as int).hit_rec_ok(r, rec)),
                Hittable::XyRect(q) => (res is Some) == (xy_rect_hit_t(
                    q,
                    r,
                    t_min.raw as int,
                    t_max.raw as int,
                ) is Some) && (res matches Some(rec) ==> Some(rec.t.raw as int) == xy_rect_hit_t(
                    q,
                    r,
                    t_min.raw as int,
                    t_max.raw as int,
                ) && q.hit_rec_ok(r, rec)),
                Hittable::XzRect(q) => (res is Some) == (xz_rect_hit_t(
                    q,
                    r,
                    t_min.raw as int,
                    t_max.raw as int,
                ) is Some) && (res matches Some(rec) ==> Some(rec.t.raw as int) == xz_rect_hit_t(
                    q,
                    r,
                    t_min.raw as int,
                    t_max.raw as int,
                ) && q.hit_rec_ok(r, rec)),
                Hittable::YzRect(q) => (res is Some) == (yz_rect_hit_t(
                    q,
                    r,
                    t_min.raw as int,
                    t_max.raw as int,
                ) is Some) && (res matches Some(rec) ==> Some(rec.t.raw as int) == yz_rect_hit_t(
                    q,
                    r,
                    t_min.raw as int,
                    t_max.raw as int,
                ) && q.hit_rec_ok(r, rec)),
                Hittable::List(l) => l.hittable_list@.len() == 0 ==> res is None,
                Hittable::ConstantMedium(m) => (res matches Some(rec) ==> rec.mat
                    == m.phase_function) && (det_tree(*m.boundary) ==> (match det_hit(
                    *m.boundary,
                    r,
                    -(T_MAX as int),
                    T_MAX as int,
                ) {
                    Option::None => res is None,
                    Option::Some(e) => if e.t.raw >= T_MAX - 16 {
                        res is None
                    } else {
                        match det_hit(*m.boundary, r, e.t.raw + 16, T_MAX as int) {
                            Option::None => res is None,
                            Option::Some(x) => exists|d: int|
                                0 <= d < SCALE && res == #[trigger] medium_full(
                                    m.neg_inv_density.raw as int,
                                    m.phase_function,
                                    r,
                                    t_min.raw as int,
                                    t_max.raw as int,
                                    e.t.raw as int,
                                    x.t.raw as int,
                                    e.u,
                                    e.v,
                                    d,
                                ),
                        }
                    },
                })),
                _ => true,
            },
        decreases *self,
    {
        match self {
            Hittable::Sphere(s) => {
                let res = s.hit(r, t_min, t_max);
                proof {
                    Self::lemma_at_bounds(r, res);
                }
                res
            },
            Hittable::MovingSphere(s) => {
                let res = s.hit(r, t_min, t_max);
                proof {
                    Self::lemma_at_bounds(r, res);
                }
                res
            },
            Hittable::XyRect(q) => {
                let res = q.hit(r, t_min, t_max);
                proof {
                    Self::lemma_at_bounds(r, res);
                }
                res
            },
            Hittable::XzRect(q) => {
                let res = q.hit(r, t_min, t_max);
                proof {
                    Self::lemma_at_bounds(r, res);
                }
                res
            },
            Hittable::YzRect(q) => {
                let res = q.hit(r, t_min, t_max);
                proof {
                    Self::lemma_at_bounds(r, res);
                }
                res
            },
            Hittable::Box_(b) => Self::hit_list(&b.sides, r, t_min, t_max, rng),
            Hittable::List(l) => Self::hit_list(l, r, t_min, t_max, rng),
            Hittable::Translate(tr) => Self::hit_translate(tr, r, t_min, t_max, rng),
            Hittable::RotateY(ry) => Self::hit_rotate(ry, r, t_min, t_max, rng),
            Hittable::ConstantMedium(m) => Self::hit_medium(m, r, t_min, t_max, rng),

        }
    }

    /// The translate wrapper's query: shift the ray down by the offset,
    /// delegate, and shift the record's point back up; rays or points that
    /// would leave the representable range are dropped.
    fn hit_translate(tr: &Translate, r: Ray, t_min: Fx, t_max: Fx, rng: &mut rand::rngs::StdRng)
        -> (res: Option<HitRecord>)
        requires
            fits(tr.offset, COORD_MAX as int),
            h_wf(*tr.ptr),
            ray_fits(r),
            fits1(t_min.raw as int, T_MAX as int),
            fits1(t_max.raw as int, T_MAX as int),
            fits1(r.time.raw as int, T_MAX as int),
        ensures
            res matches Some(rec) ==> t_min.raw <= rec.t.raw <= t_max.raw && fits(
                rec.normal,
                NORMAL_MAX as int,
            ) && fits(rec.p, P_MAX as int),
            det_tree(*tr.ptr) ==> res == det_hit(
                Hittable::Translate(Translate { offset: tr.offset, ptr: tr.ptr }),
                r,
                t_min.raw as int,
                t_max.raw as int,
            ),
        decreases *tr,
    {
                let moved_origin = r.origin.sub(tr.offset);
                if moved_origin.x.raw < -COORD_MAX || moved_origin.x.raw > COORD_MAX
                    || moved_origin.y.raw < -COORD_MAX || moved_origin.y.raw > COORD_MAX
                    || moved_origin.z.raw < -COORD_MAX || moved_origin.z.raw > COORD_MAX {
                    return None;
                }
                let moved_r = Ray::new(moved_origin, r.direction, r.time);
                match tr.ptr.hit(moved_r, t_min, t_max, rng) {
                    Option::None => None,
                    Option::Some(rec) => {
                        let shifted = rec.p.add(tr.offset);
                        if shifted.x.raw < -P_MAX || shifted.x.raw > P_MAX || shifted.y.raw
                            < -P_MAX || shifted.y.raw > P_MAX || shifted.z.raw < -P_MAX
                            || shifted.z.raw > P_MAX {
                            return None;
                        }
                        Some(
                            HitRecord::new(
                                shifted,
                                rec.t,
                                rec.u,
                                rec.v,
                                rec.normal,
                                moved_r,
                                rec.mat,
                            ),
                        )
                    },
                }
            
    }

    /// The rotation wrapper's query: rotate the ray into the child's frame,
    /// delegate, and rotate the record's point and normal back to the world
    /// frame, re-orienting against the outer ray; anything that would leave
    /// the representable range is dropped.
    fn hit_rotate(ry: &RotateY, r: Ray, t_min: Fx, t_max: Fx, rng: &mut rand::rngs::StdRng)
        -> (res: Option<HitRecord>)
        requires
            fits1(ry.sin_theta.raw as int, SCALE as int),
            fits1(ry.cos_theta.raw as int, SCALE as int),
            h_wf(*ry.ptr),
            ray_fits(r),
            fits1(t_min.raw as int, T_MAX as int),
            fits1(t_max.raw as int, T_MAX as int),
            fits1(r.time.raw as int, T_MAX as int),
        ensures
            res matches Some(rec) ==> t_min.raw <= rec.t.raw <= t_max.raw && fits(
                rec.normal,
                NORMAL_MAX as int,
            ) && fits(rec.p, P_MAX as int),
            det_tree(*ry.ptr) ==> res == det_hit(
                Hittable::RotateY(RotateY {
                    sin_theta: ry.sin_theta,
                    cos_theta: ry.cos_theta,
                    bbox: ry.bbox,
                    ptr: ry.ptr,
                }),
                r,
                t_min.raw as int,
                t_max.raw as int,
            ),
        decreases *ry,
    {
                proof {
                    lemma_mul_bound(ry.cos_theta.raw as int, r.origin.x.raw as int, SCALE as int,
                        COORD_MAX as int);
                    lemma_mul_bound(ry.sin_theta.raw as int, r.origin.z.raw as int, SCALE as int,
                        COORD_MAX as int);
                    lemma_mul_bound(ry.sin_theta.raw as int, r.origin.x.raw as int, SCALE as int,
                        COORD_MAX as int);
                    lemma_mul_bound(ry.cos_theta.raw as int, r.origin.z.raw as int, SCALE as int,
                        COORD_MAX as int);
                    lemma_mul_raw_bound(ry.cos_theta.raw as int, r.origin.x.raw as int,
                        SCALE as int, COORD_MAX as int);
                    lemma_mul_raw_bound(ry.sin_theta.raw as int, r.origin.z.raw as int,
                        SCALE as int, COORD_MAX as int);
                    lemma_mul_raw_bound(ry.sin_theta.raw as int, r.origin.x.raw as int,
                        SCALE as int, COORD_MAX as int);
                    lemma_mul_raw_bound(ry.cos_theta.raw as int, r.origin.z.raw as int,
                        SCALE as int, COORD_MAX as int);
                    lemma_mul_bound(ry.cos_theta.raw as int, r.direction.x.raw as int,
                        SCALE as int, crate::fixed::DIR_MAX as int);
                    lemma_mul_bound(ry.sin_theta.raw as int, r.direction.z.raw as int,
                        SCALE as int, crate::fixed::DIR_MAX as int);
                    lemma_mul_bound(ry.sin_theta.raw as int, r.direction.x.raw as int,
                        SCALE as int, crate::fixed::DIR_MAX as int);
                    lemma_mul_bound(ry.cos_theta.raw as int, r.direction.z.raw as int,
                        SCALE as int, crate::fixed::DIR_MAX as int);
                    lemma_mul_raw_bound(ry.cos_theta.raw as int, r.direction.x.raw as int,
                        SCALE as int, crate::fixed::DIR_MAX as int);
                    lemma_mul_raw_bound(ry.sin_theta.raw as int, r.direction.z.raw as int,
                        SCALE as int, crate::fixed::DIR_MAX as int);
                    lemma_mul_raw_bound(ry.sin_theta.raw as int, r.direction.x.raw as int,
                        SCALE as int, crate::fixed::DIR_MAX as int);
                    lemma_mul_raw_bound(ry.cos_theta.raw as int, r.direction.z.raw as int,
                        SCALE as int, crate::fixed::DIR_MAX as int);
                }
                let ox = ry.cos_theta.mul(r.origin.x).sub(ry.sin_theta.mul(r.origin.z));
                let oz = ry.sin_theta.mul(r.origin.x).add(ry.cos_theta.mul(r.origin.z));
                let dx = ry.cos_theta.mul(r.direction.x).sub(ry.sin_theta.mul(r.direction.z));
                let dz = ry.sin_theta.mul(r.direction.x).add(ry.cos_theta.mul(r.direction.z));
                if ox.raw < -COORD_MAX || ox.raw > COORD_MAX || oz.raw < -COORD_MAX || oz.raw
                    > COORD_MAX || dx.raw < -crate::fixed::DIR_MAX || dx.raw
                    > crate::fixed::DIR_MAX || dz.raw < -crate::fixed::DIR_MAX || dz.raw
                    > crate::fixed::DIR_MAX {
                    return None;
                }
                let rotated_r = Ray::new(
                    Vec3::new(ox, r.origin.y, oz),
                    Vec3::new(dx, r.direction.y, dz),
                    r.time,
                );
                match ry.ptr.hit(rotated_r, t_min, t_max, rng) {
                    Option::None => None,
                    Option::Some(rec) => {
                        if rec.p.x.raw < -1099511627776 || rec.p.x.raw > 1099511627776
                            || rec.p.z.raw < -1099511627776 || rec.p.z.raw > 1099511627776 {
                            return None;
                        }
                        proof {
                            lemma_mul_bound(ry.cos_theta.raw as int, rec.p.x.raw as int,
                                SCALE as int, 1099511627776);
                            lemma_mul_bound(ry.sin_theta.raw as int, rec.p.z.raw as int,
                                SCALE as int, 1099511627776);
                            lemma_mul_bound(ry.sin_theta.raw as int, rec.p.x.raw as int,
                                SCALE as int, 1099511627776);
                            lemma_mul_bound(ry.cos_theta.raw as int, rec.p.z.raw as int,
                                SCALE as int, 1099511627776);
                            lemma_mul_raw_bound(ry.cos_theta.raw as int, rec.p.x.raw as int,
                                SCALE as int, 1099511627776);
                            lemma_mul_raw_bound(ry.sin_theta.raw as int, rec.p.z.raw as int,
                                SCALE as int, 1099511627776);
                            lemma_mul_raw_bound(ry.sin_theta.raw as int, rec.p.x.raw as int,
                                SCALE as int, 1099511627776);
                            lemma_mul_raw_bound(ry.cos_theta.raw as int, rec.p.z.raw as int,
                                SCALE as int, 1099511627776);
                            lemma_mul_bound(ry.cos_theta.raw as int, rec.normal.x.raw as int,
                                SCALE as int, NORMAL_MAX as int);
                            lemma_mul_bound(ry.sin_theta.raw as int, rec.normal.z.raw as int,
                                SCALE as int, NORMAL_MAX as int);
                            lemma_mul_bound(ry.sin_theta.raw as int, rec.normal.x.raw as int,
                                SCALE as int, NORMAL_MAX as int);
                            lemma_mul_bound(ry.cos_theta.raw as int, rec.normal.z.raw as int,
                                SCALE as int, NORMAL_MAX as int);
                            lemma_mul_raw_bound(ry.cos_theta.raw as int, rec.normal.x.raw as int,
                                SCALE as int, NORMAL_MAX as int);
                            lemma_mul_raw_bound(ry.sin_theta.raw as int, rec.normal.z.raw as int,
                                SCALE as int, NORMAL_MAX as int);
                            lemma_mul_raw_bound(ry.sin_theta.raw as int, rec.normal.x.raw as int,
                                SCALE as int, NORMAL_MAX as int);
                            lemma_mul_raw_bound(ry.cos_theta.raw as int, rec.normal.z.raw as int,
                                SCALE as int, NORMAL_MAX as int);
                        }
                        let px = ry.cos_theta.mul(rec.p.x).add(ry.sin_theta.mul(rec.p.z));
                        let pz = ry.cos_theta.mul(rec.p.z).sub(ry.sin_theta.mul(rec.p.x));
                        let nx = ry.cos_theta.mul(rec.normal.x).add(
                            ry.sin_theta.mul(rec.normal.z),
                        );
                        let nz = ry.cos_theta.mul(rec.normal.z).sub(
                            ry.sin_theta.mul(rec.normal.x),
                        );
                        let p = Vec3::new(px, rec.p.y, pz);
                        let normal = Vec3::new(nx, rec.normal.y, nz).clamp_sym(
                            Fx::from_raw(NORMAL_MAX),
                        );
                        Some(HitRecord::new(p, rec.t, rec.u, rec.v, normal, r, rec.mat))
                    },
                }
            
    }

    /// The constant medium's query: find the boundary's entry and exit,
    /// then sample the interior with a fresh uniform draw.  For a
    /// media-free boundary, every outcome is explained by some draw.
    fn hit_medium(m: &ConstantMedium, r: Ray, t_min: Fx, t_max: Fx, rng: &mut rand::rngs::StdRng)
        -> (res: Option<HitRecord>)
        requires
            m.neg_inv_density.raw <= 0,
            fits1(m.neg_inv_density.raw as int, 0x100000000),
            h_wf(*m.boundary),
            ray_fits(r),
            fits1(t_min.raw as int, T_MAX as int),
            fits1(t_max.raw as int, T_MAX as int),
            fits1(r.time.raw as int, T_MAX as int),
        ensures
            res matches Some(rec) ==> t_min.raw <= rec.t.raw <= t_max.raw && fits(
                rec.normal,
                NORMAL_MAX as int,
            ) && fits(rec.p, P_MAX as int),
            res matches Some(rec) ==> rec.mat == m.phase_function,
            det_tree(*m.boundary) ==> (match det_hit(
                *m.boundary,
                r,
                -(T_MAX as int),
                T_MAX as int,
            ) {
                Option::None => res is None,
                Option::Some(e) => if e.t.raw >= T_MAX - 16 {
                    res is None
                } else {
                    match det_hit(*m.boundary, r, e.t.raw + 16, T_MAX as int) {
                        Option::None => res is None,
                        Option::Some(x) => exists|d: int|
                            0 <= d < SCALE && res == #[trigger] medium_full(
                                m.neg_inv_density.raw as int,
                                m.phase_function,
                                r,
                                t_min.raw as int,
                                t_max.raw as int,
                                e.t.raw as int,
                                x.t.raw as int,
                                e.u,
                                e.v,
                                d,
                            ),
                    }
                },
            }),
        decreases *m,
    {
                let whole_min = Fx::from_raw(-T_MAX);
                let whole_max = Fx::from_raw(T_MAX);
                match m.boundary.hit(r, whole_min, whole_max, rng) {
                    Option::None => None,
                    Option::Some(rec1) => {
                        if rec1.t.raw >= T_MAX - 16 {
                            return None;
                        }
                        let past_entry = Fx::from_raw(rec1.t.raw + 16);
                        match m.boundary.hit(r, past_entry, whole_max, rng) {
                            Option::None => None,
                            Option::Some(rec2) => {
                                let draw = crate::rng::rand_unit(rng);
                                let res = m.sample_interior(
                                    r,
                                    t_min,
                                    t_max,
                                    rec1.t,
                                    rec2.t,
                                    rec1.u,
                                    rec1.v,
                                    draw,
                                );
                                proof {
                                    Self::lemma_at_bounds(r, res);
                                }
                                res
                            },
                        }
                    },
                }
            
    }

    /// A hit parameter inside the window keeps the reported point inside
    /// the representable range.
    proof fn lemma_at_bounds(r: Ray, res: Option<HitRecord>)
        requires
            ray_fits(r),
            res matches Some(rec) ==> fits1(rec.t.raw as int, T_MAX as int),
        ensures
            res matches Some(rec) ==> fits1(crate::sphere::px_at(r, rec.t.raw as int), P_MAX as int)
                && fits1(crate::sphere::py_at(r, rec.t.raw as int), P_MAX as int) && fits1(
                crate::sphere::pz_at(r, rec.t.raw as int),
                P_MAX as int,
            ),
    {
        match res {
            Option::Some(rec) => {
                lemma_mul_raw_bound(
                    r.direction.x.raw as int,
                    rec.t.raw as int,
                    crate::fixed::DIR_MAX as int,
                    T_MAX as int,
                );
                lemma_mul_raw_bound(
                    r.direction.y.raw as int,
                    rec.t.raw as int,
                    crate::fixed::DIR_MAX as int,
                    T_MAX as int,
                );
                lemma_mul_raw_bound(
                    r.direction.z.raw as int,
                    rec.t.raw as int,
                    crate::fixed::DIR_MAX as int,
                    T_MAX as int,
                );
            },
            Option::None => {},
        }
    }

    /// Scan every shape of a list, narrowing the window to the closest hit
    /// found so far; the result is that closest hit.
    #[verifier::loop_isolation(false)]
    fn hit_list(l: &HittableList, r: Ray, t_min: Fx, t_max: Fx, rng: &mut rand::rngs::StdRng)
        -> (res: Option<HitRecord>)
        requires
            seq_wf(l.hittable_list@),
            ray_fits(r),
            fits1(t_min.raw as int, T_MAX as int),
            fits1(t_max.raw as int, T_MAX as int),
            fits1(r.time.raw as int, T_MAX as int),
        ensures
            l.hittable_list@.len() == 0 ==> res is None,
            res matches Some(rec) ==> t_min.raw <= rec.t.raw <= t_max.raw && fits(
                rec.normal,
                NORMAL_MAX as int,
            ) && fits(rec.p, P_MAX as int),
            seq_det(l.hittable_list@) ==> res == det_list_from(
                l.hittable_list@,
                0,
                r,
                t_min.raw as int,
                t_max.raw as int,
                None,
            ),
        decreases *l,
    {
        let mut hit_anything: Option<HitRecord> = None;
        let mut closest_so_far = t_max;
        let n = l.hittable_list.len();
        let mut idx: usize = 0;
        while idx < n
            invariant
                0 <= idx <= n,
                fits1(closest_so_far.raw as int, T_MAX as int),
                closest_so_far.raw <= t_max.raw,
                idx == 0 ==> hit_anything is None,
                hit_anything is None ==> closest_so_far == t_max,
                hit_anything matches Some(rec) ==> t_min.raw <= rec.t.raw <= t_max.raw && rec.t
                    == closest_so_far && fits(rec.normal, NORMAL_MAX as int) && fits(
                    rec.p,
                    P_MAX as int,
                ),
                seq_det(l.hittable_list@) ==> det_list_from(
                    l.hittable_list@,
                    0,
                    r,
                    t_min.raw as int,
                    t_max.raw as int,
                    None,
                ) == det_list_from(
                    l.hittable_list@,
                    idx as int,
                    r,
                    t_min.raw as int,
                    closest_so_far.raw as int,
                    hit_anything,
                ),
            decreases n - idx,
        {
            proof {
                assert(h_wf(l.hittable_list@[idx as int]));
            }
            let obj = &l.hittable_list[idx];
            match obj.hit(r, t_min, closest_so_far, rng) {
                Option::None => {},
                Option::Some(temp_rec) => {
                    closest_so_far = temp_rec.t;
                    hit_anything = Some(temp_rec);
                },
            }
            idx = idx + 1;
        }
        hit_anything
    }

    /// The box this shape reports for the time interval, or `None` when it
    /// cannot be bounded.
    #[verifier::loop_isolation(false)]
    pub fn bounding_box(&self, time0: Fx, time1: Fx) -> (res: Option<AABB>)
        requires
            h_wf(*self),
            fits1(time0.raw as int, T_MAX as int),
            fits1(time1.raw as int, T_MAX as int),
        ensures
            res == bbox_spec(*self, time0, time1),
            res matches Some(b) ==> bb_fits(b),
        decreases *self,
    {
        match self {
            Hittable::Sphere(s) => s.bounding_box(time0, time1),
            Hittable::MovingSphere(s) => s.bounding_box(time0, time1),
            Hittable::XyRect(q) => q.bounding_box(time0, time1),
            Hittable::XzRect(q) => q.bounding_box(time0, time1),
            Hittable::YzRect(q) => q.bounding_box(time0, time1),
            Hittable::Box_(b) => Some(AABB::new(b.box_min, b.box_max)),
            Hittable::List(l) => Self::bounding_box_list(l, time0, time1),
            Hittable::Translate(tr) => {
                match tr.ptr.bounding_box(time0, time1) {
                    Option::None => None,
                    Option::Some(b) => {
                        let mn = b.minimum.add(tr.offset);
                        let mx = b.maximum.add(tr.offset);
                        if mn.x.raw < -BB_MAX || mn.x.raw > BB_MAX || mn.y.raw < -BB_MAX
                            || mn.y.raw > BB_MAX || mn.z.raw < -BB_MAX || mn.z.raw > BB_MAX
                            || mx.x.raw < -BB_MAX || mx.x.raw > BB_MAX || mx.y.raw < -BB_MAX
                            || mx.y.raw > BB_MAX || mx.z.raw < -BB_MAX || mx.z.raw > BB_MAX {
                            None
                        } else {
                            Some(AABB::new(mn, mx))
                        }
                    },
                }
            },
            Hittable::RotateY(ry) => Some(AABB::new(ry.bbox.minimum, ry.bbox.maximum)),
            Hittable::ConstantMedium(m) => m.boundary.bounding_box(time0, time1),
        }
    }

    /// Fold the elements' boxes with `surrounding_box`; `None` for an empty
    /// list or when any element is unbounded.
    #[verifier::loop_isolation(false)]
    fn bounding_box_list(l: &HittableList, time0: Fx, time1: Fx) -> (res: Option<AABB>)
        requires
            seq_wf(l.hittable_list@),
            fits1(time0.raw as int, T_MAX as int),
            fits1(time1.raw as int, T_MAX as int),
        ensures
            res == bbox_list_spec(l.hittable_list@, time0, time1),
            res matches Some(b) ==> bb_fits(b),
        decreases *l,
    {
        let ghost s = l.hittable_list@;
        let n = l.hittable_list.len();
        if n == 0 {
            return None;
        }
        proof {
            assert(h_wf(s[0]));
        }
        let first = l.hittable_list[0].bounding_box(time0, time1);
        let mut acc = match first {
            Option::None => {
                return None;
            },
            Option::Some(b0) => b0,
        };
        let mut idx: usize = 1;
        proof {
            assert(s.subrange(1, n as int) =~= s.subrange(idx as int, n as int));
        }
        while idx < n
            invariant
                1 <= idx <= n,
                bb_fits(acc),
                bbox_list_spec(s, time0, time1) == bbox_fold(
                    acc,
                    s.subrange(idx as int, n as int),
                    time0,
                    time1,
                ),
            decreases n - idx,
        {
            proof {
                assert(h_wf(s[idx as int]));
                assert(s.subrange(idx as int, n as int)[0] == s[idx as int]);
            }
            match l.hittable_list[idx].bounding_box(time0, time1) {
                Option::None => {
                    return None;
                },
                Option::Some(bi) => {
                    proof {
                        assert(s.subrange(idx as int, n as int).subrange(
                            1,
                            s.subrange(idx as int, n as int).len() as int,
                        ) =~= s.subrange(idx as int + 1, n as int));
                    }
                    acc = AABB::surrounding_box(acc, bi);
                },
            }
            idx = idx + 1;
        }
        proof {
            assert(s.subrange(n as int, n as int).len() == 0);
        }
        Some(acc)
    }
}

} // verus!
