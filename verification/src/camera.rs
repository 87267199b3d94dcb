//! The camera: lens, viewport and shutter interval, precomputed at
//! construction; `get_ray` turns screen coordinates into a sample ray.

use vstd::prelude::*;
use crate::fixed::{
    Fx, SCALE, COORD_MAX, DIR_MAX, T_MAX, mul_raw, lemma_mul_bound, lemma_mul_raw_bound,
};
use crate::vec3::{
    Vec3, fits, fits1, dot_raw, unit_spec, UNIT_MIN_SQ, UNIT_MAX,
};
use crate::ray::{Ray, ray_fits};
use crate::rng::rand_range;

verus! {

/// Raw bound on a camera origin, leaving room for the lens offset.
pub const CAM_ORIGIN_MAX: i64 = 536739840;

/// Raw bound on the viewport vectors and the corner offset.
pub const CAM_VEC_MAX: i64 = 2097152;

/// The difference of two points, in raw components.
pub open spec fn sub3(a: Vec3, b: Vec3) -> Vec3 {
    Vec3 {
        x: Fx { raw: (a.x.raw - b.x.raw) as i64 },
        y: Fx { raw: (a.y.raw - b.y.raw) as i64 },
        z: Fx { raw: (a.z.raw - b.z.raw) as i64 },
    }
}

/// The cross product, in raw components.
pub open spec fn cross3(u: Vec3, v: Vec3) -> Vec3 {
    Vec3 {
        x: Fx {
            raw: (mul_raw(u.y.raw as int, v.z.raw as int) - mul_raw(
                u.z.raw as int,
                v.y.raw as int,
            )) as i64,
        },
        y: Fx {
            raw: (mul_raw(u.z.raw as int, v.x.raw as int) - mul_raw(
                u.x.raw as int,
                v.z.raw as int,
            )) as i64,
        },
        z: Fx {
            raw: (mul_raw(u.x.raw as int, v.y.raw as int) - mul_raw(
                u.y.raw as int,
                v.x.raw as int,
            )) as i64,
        },
    }
}

/// A vector scaled by a raw factor.
pub open spec fn scale3(v: Vec3, t: int) -> Vec3 {
    Vec3 {
        x: Fx { raw: mul_raw(v.x.raw as int, t) as i64 },
        y: Fx { raw: mul_raw(v.y.raw as int, t) as i64 },
        z: Fx { raw: mul_raw(v.z.raw as int, t) as i64 },
    }
}

/// The camera basis vector pointing backwards along the view direction.
pub open spec fn cam_w(lookfrom: Vec3, lookat: Vec3) -> Vec3 {
    unit_spec(sub3(lookfrom, lookat))
}

/// The camera's horizontal viewport vector.
pub open spec fn cam_horizontal(u: Vec3, half_width: int, focus_dist: Fx) -> Vec3 {
    scale3(scale3(u, 2 * half_width), focus_dist.raw as int)
}

/// The camera's vertical viewport vector.
pub open spec fn cam_vertical(v: Vec3, half_height: Fx, focus_dist: Fx) -> Vec3 {
    scale3(scale3(v, 2 * (half_height.raw as int)), focus_dist.raw as int)
}

/// The viewport's lower-left corner: the origin pushed back by the focus
/// distance and down-left by half the viewport.
pub open spec fn cam_corner(lookfrom: Vec3, u: Vec3, v: Vec3, w: Vec3, half_width: int,
    half_height: Fx, focus_dist: Fx) -> Vec3 {
    let hu = scale3(scale3(u, half_width), focus_dist.raw as int);
    let hv = scale3(scale3(v, half_height.raw as int), focus_dist.raw as int);
    let wf = scale3(w, focus_dist.raw as int);
    Vec3 {
        x: Fx { raw: (lookfrom.x.raw - hu.x.raw - hv.x.raw - wf.x.raw) as i64 },
        y: Fx { raw: (lookfrom.y.raw - hu.y.raw - hv.y.raw - wf.y.raw) as i64 },
        z: Fx { raw: (lookfrom.z.raw - hu.z.raw - hv.z.raw - wf.z.raw) as i64 },
    }
}

/// The direction of the pinhole ray for screen coordinates `(s, t)`:
/// corner plus the scaled viewport vectors, relative to the origin, clamped
/// into the direction range.
pub open spec fn cam_dir0(c: Camera, s: Fx, t: Fx) -> Vec3 {
    Vec3 {
        x: Fx {
            raw: crate::vec3::clamp1(
                c.lower_left_corner.x.raw + mul_raw(c.horizontal.x.raw as int, s.raw as int)
                    + mul_raw(c.vertical.x.raw as int, t.raw as int) - c.origin.x.raw,
                DIR_MAX as int,
            ) as i64,
        },
        y: Fx {
            raw: crate::vec3::clamp1(
                c.lower_left_corner.y.raw + mul_raw(c.horizontal.y.raw as int, s.raw as int)
                    + mul_raw(c.vertical.y.raw as int, t.raw as int) - c.origin.y.raw,
                DIR_MAX as int,
            ) as i64,
        },
        z: Fx {
            raw: crate::vec3::clamp1(
                c.lower_left_corner.z.raw + mul_raw(c.horizontal.z.raw as int, s.raw as int)
                    + mul_raw(c.vertical.z.raw as int, t.raw as int) - c.origin.z.raw,
                DIR_MAX as int,
            ) as i64,
        },
    }
}

/// The camera: origin, viewport frame, lens radius and shutter interval.
#[derive(Clone, Copy, Debug, PartialEq, Eq, Structural)]
pub struct Camera {
    pub origin: Vec3,
    pub horizontal: Vec3,
    pub vertical: Vec3,
    pub lower_left_corner: Vec3,
    pub lens_radius: Fx,
    pub time0: Fx,
    pub time1: Fx,
}

/// What `get_ray` needs: everything in range and the shutter ordered.
pub open spec fn cam_wf(c: Camera) -> bool {
    &&& fits(c.origin, CAM_ORIGIN_MAX as int)
    &&& fits(c.horizontal, CAM_VEC_MAX as int)
    &&& fits(c.vertical, CAM_VEC_MAX as int)
    &&& fits1(c.lower_left_corner.x.raw - c.origin.x.raw, CAM_VEC_MAX as int)
    &&& fits1(c.lower_left_corner.y.raw - c.origin.y.raw, CAM_VEC_MAX as int)
    &&& fits1(c.lower_left_corner.z.raw - c.origin.z.raw, CAM_VEC_MAX as int)
    &&& 0 <= c.lens_radius.raw <= SCALE
    &&& fits1(c.time0.raw as int, T_MAX as int)
    &&& fits1(c.time1.raw as int, T_MAX as int)
    &&& c.time0.raw <= c.time1.raw
}

impl Camera {
    /// Build the camera from view parameters.  `half_height` is the
    /// tangent of half the vertical field of view; a viewport that falls
    /// outside the representable range is rejected with `None`.
    pub fn new(lookfrom: Vec3, lookat: Vec3, vup: Vec3, half_height: Fx, aspect: Fx,
        aperture: Fx, focus_dist: Fx, time0: Fx, time1: Fx) -> (res: Option<Camera>)
        requires
            fits(lookfrom, CAM_ORIGIN_MAX as int),
            fits(lookat, COORD_MAX as int),
            fits(vup, 2 * (SCALE as int)),
            dot_raw(sub3(lookfrom, lookat), sub3(lookfrom, lookat)) >= UNIT_MIN_SQ,
            0 <= half_height.raw <= 524288,
            0 <= aspect.raw <= 524288,
            0 <= aperture.raw <= 2 * (SCALE as int),
            0 < focus_dist.raw <= 4194304,
            fits1(time0.raw as int, T_MAX as int),
            fits1(time1.raw as int, T_MAX as int),
            time0.raw <= time1.raw,
        ensures
            (res is Some) == ({
                let w = cam_w(lookfrom, lookat);
                let u = cross3(vup, w);
                let v = cross3(w, u);
                let hw = mul_raw(aspect.raw as int, half_height.raw as int);
                let h = cam_horizontal(u, hw, focus_dist);
                let vv = cam_vertical(v, half_height, focus_dist);
                let c = cam_corner(lookfrom, u, v, w, hw, half_height, focus_dist);
                fits(h, CAM_VEC_MAX as int) && fits(vv, CAM_VEC_MAX as int) && fits1(
                    c.x.raw - lookfrom.x.raw,
                    CAM_VEC_MAX as int,
                ) && fits1(c.y.raw - lookfrom.y.raw, CAM_VEC_MAX as int) && fits1(
                    c.z.raw - lookfrom.z.raw,
                    CAM_VEC_MAX as int,
                )
            }),
            res matches Some(cam) ==> {
                let w = cam_w(lookfrom, lookat);
                let u = cross3(vup, w);
                let v = cross3(w, u);
                let hw = mul_raw(aspect.raw as int, half_height.raw as int);
                &&& cam.origin == lookfrom
                &&& cam.horizontal == cam_horizontal(u, hw, focus_dist)
                &&& cam.vertical == cam_vertical(v, half_height, focus_dist)
                &&& cam.lower_left_corner == cam_corner(lookfrom, u, v, w, hw, half_height,
                    focus_dist)
                &&& cam.time0 == time0
                &&& cam.time1 == time1
                &&& 2 * cam.lens_radius.raw <= aperture.raw < 2 * cam.lens_radius.raw + 2
                &&& cam_wf(cam)
            },
    {
        let diff = lookfrom.sub(lookat);
        let w = Vec3::unit_vector(diff);
        proof {
            lemma_cross_bounds(vup, w, 2 * (SCALE as int), UNIT_MAX as int);
        }
        let u = Vec3::cross(vup, w);
        proof {
            lemma_cross_bounds(w, u, UNIT_MAX as int, 0x80000);
        }
        let v = Vec3::cross(w, u);
        proof {
            lemma_mul_bound(aspect.raw as int, half_height.raw as int, 524288, 524288);
            lemma_mul_raw_bound(aspect.raw as int, half_height.raw as int, 524288, 524288);
        }
        let half_width = aspect.mul(half_height);
        proof {
            lemma_scale_bounds(u, 2 * (half_width.raw as int), 0x80000, 0x1000000);
            lemma_scale_bounds(v, 2 * (half_height.raw as int), 0x200000, 0x100000);
        }
        let horizontal0 = u.scale(Fx::from_raw(2 * half_width.raw));
        let vertical0 = v.scale(Fx::from_raw(2 * half_height.raw));
        proof {
            lemma_scale_bounds(horizontal0, focus_dist.raw as int, 0x20000000, 0x400000);
            lemma_scale_bounds(vertical0, focus_dist.raw as int, 0x8000000, 0x400000);
        }
        let horizontal = horizontal0.scale(focus_dist);
        let vertical = vertical0.scale(focus_dist);
        proof {
            lemma_scale_bounds(u, half_width.raw as int, 0x80000, 0x800000);
            lemma_scale_bounds(v, half_height.raw as int, 0x200000, 0x80000);
        }
        let hu = u.scale(half_width);
        let hv = v.scale(half_height);
        proof {
            lemma_scale_bounds(hu, focus_dist.raw as int, 0x10000000, 0x400000);
            lemma_scale_bounds(hv, focus_dist.raw as int, 0x4000000, 0x400000);
            lemma_scale_bounds(w, focus_dist.raw as int, UNIT_MAX as int, 0x400000);
        }
        let corner_off = hu.scale(focus_dist).neg().sub(hv.scale(focus_dist)).sub(
            w.scale(focus_dist),
        );
        if horizontal.x.raw < -CAM_VEC_MAX || horizontal.x.raw > CAM_VEC_MAX || horizontal.y.raw
            < -CAM_VEC_MAX || horizontal.y.raw > CAM_VEC_MAX || horizontal.z.raw < -CAM_VEC_MAX
            || horizontal.z.raw > CAM_VEC_MAX {
            return None;
        }
        if vertical.x.raw < -CAM_VEC_MAX || vertical.x.raw > CAM_VEC_MAX || vertical.y.raw
            < -CAM_VEC_MAX || vertical.y.raw > CAM_VEC_MAX || vertical.z.raw < -CAM_VEC_MAX
            || vertical.z.raw > CAM_VEC_MAX {
            return None;
        }
        if corner_off.x.raw < -CAM_VEC_MAX || corner_off.x.raw > CAM_VEC_MAX || corner_off.y.raw
            < -CAM_VEC_MAX || corner_off.y.raw > CAM_VEC_MAX || corner_off.z.raw < -CAM_VEC_MAX
            || corner_off.z.raw > CAM_VEC_MAX {
            return None;
        }
        let lower_left_corner = lookfrom.add(corner_off);
        let lens_radius = Fx::from_raw((((aperture.raw as u64)) / 2) as i64);
        Some(
            Camera {
                origin: lookfrom,
                horizontal,
                vertical,
                lower_left_corner,
                lens_radius,
                time0,
                time1,
            },
        )
    }

    /// A sample ray for screen coordinates `(s, t)` in the unit square:
    /// jittered on the lens disk and in the shutter interval.  Whatever was
    /// drawn, the ray starts near the origin, points into the viewport and
    /// carries a time inside the shutter interval.
    pub fn get_ray(&self, s: Fx, t: Fx, rng: &mut rand::rngs::StdRng) -> (r: Ray)
        requires
            cam_wf(*self),
            0 <= s.raw <= SCALE,
            0 <= t.raw <= SCALE,
        ensures
            ray_fits(r),
            fits1(r.time.raw as int, T_MAX as int),
            self.time0.raw <= r.time.raw <= self.time1.raw,
            fits1(r.origin.x.raw - self.origin.x.raw, 2 * self.lens_radius.raw),
            fits1(r.origin.y.raw - self.origin.y.raw, 2 * self.lens_radius.raw),
            fits1(r.origin.z.raw - self.origin.z.raw, 2 * self.lens_radius.raw),
            self.lens_radius.raw == 0 ==> r.origin == self.origin && r.direction == cam_dir0(
                *self,
                s,
                t,
            ),
    {
        let rd0 = Vec3::random_in_unit_disk(rng);
        proof {
            lemma_scale_bounds(rd0, self.lens_radius.raw as int, SCALE as int, SCALE as int);
            lemma_mul_raw_bound(rd0.x.raw as int, self.lens_radius.raw as int, SCALE as int,
                self.lens_radius.raw as int);
            lemma_mul_raw_bound(rd0.y.raw as int, self.lens_radius.raw as int, SCALE as int,
                self.lens_radius.raw as int);
            vstd::arithmetic::div_mod::lemma_div_multiples_vanish(
                self.lens_radius.raw as int,
                SCALE as int,
            );
        }
        let rd = rd0.scale(self.lens_radius);
        proof {
            lemma_mul_raw_bound(s.raw as int, rd.x.raw as int, SCALE as int,
                self.lens_radius.raw as int);
            lemma_mul_raw_bound(t.raw as int, rd.y.raw as int, SCALE as int,
                self.lens_radius.raw as int);
            vstd::arithmetic::div_mod::lemma_div_multiples_vanish(
                self.lens_radius.raw as int,
                SCALE as int,
            );
        }
        let offset = s.mul(rd.x).add(t.mul(rd.y));
        proof {
            lemma_scale_bounds(self.horizontal, s.raw as int, CAM_VEC_MAX as int, SCALE as int);
            lemma_scale_bounds(self.vertical, t.raw as int, CAM_VEC_MAX as int, SCALE as int);
        }
        let direction = self.lower_left_corner.add(self.horizontal.scale(s)).add(
            self.vertical.scale(t),
        ).sub(self.origin).add_scalar(offset.neg()).clamp_sym(Fx::from_raw(DIR_MAX));
        let time = if self.time0.raw < self.time1.raw {
            rand_range(rng, self.time0, self.time1)
        } else {
            self.time0
        };
        Ray::new(self.origin.add_scalar(offset), direction, time)
    }
}

/// Bound the components of a cross product of bounded vectors.
proof fn lemma_cross_bounds(u: Vec3, v: Vec3, bu: int, bv: int)
    requires
        fits(u, bu),
        fits(v, bv),
        0 <= bu,
        0 <= bv,
        bu * bv <= 0x1000000000000000,
    ensures
        fits1(
            mul_raw(u.y.raw as int, v.z.raw as int) - mul_raw(u.z.raw as int, v.y.raw as int),
            2 * ((bu * bv) / (SCALE as int)),
        ),
        fits1(
            mul_raw(u.z.raw as int, v.x.raw as int) - mul_raw(u.x.raw as int, v.z.raw as int),
            2 * ((bu * bv) / (SCALE as int)),
        ),
        fits1(
            mul_raw(u.x.raw as int, v.y.raw as int) - mul_raw(u.y.raw as int, v.x.raw as int),
            2 * ((bu * bv) / (SCALE as int)),
        ),
{
    lemma_mul_raw_bound(u.y.raw as int, v.z.raw as int, bu, bv);
    lemma_mul_raw_bound(u.z.raw as int, v.y.raw as int, bu, bv);
    lemma_mul_raw_bound(u.z.raw as int, v.x.raw as int, bu, bv);
    lemma_mul_raw_bound(u.x.raw as int, v.z.raw as int, bu, bv);
    lemma_mul_raw_bound(u.x.raw as int, v.y.raw as int, bu, bv);
    lemma_mul_raw_bound(u.y.raw as int, v.x.raw as int, bu, bv);
}

/// Bound the components of a scaling of a bounded vector.
proof fn lemma_scale_bounds(v: Vec3, t: int, bv: int, bt: int)
    requires
        fits(v, bv),
        -bt <= t <= bt,
        0 <= bv,
        0 <= bt,
        bv * bt <= 0x1000000000000000,
    ensures
        fits1(mul_raw(v.x.raw as int, t), (bv * bt) / (SCALE as int)),
        fits1(mul_raw(v.y.raw as int, t), (bv * bt) / (SCALE as int)),
        fits1(mul_raw(v.z.raw as int, t), (bv * bt) / (SCALE as int)),
        -(0x1000000000000000 * (SCALE as int)) <= (v.x.raw as int) * t <= 0x1000000000000000 * (
        SCALE as int),
        -(0x1000000000000000 * (SCALE as int)) <= (v.y.raw as int) * t <= 0x1000000000000000 * (
        SCALE as int),
        -(0x1000000000000000 * (SCALE as int)) <= (v.z.raw as int) * t <= 0x1000000000000000 * (
        SCALE as int),
{
    lemma_mul_bound(v.x.raw as int, t, bv, bt);
    lemma_mul_bound(v.y.raw as int, t, bv, bt);
    lemma_mul_bound(v.z.raw as int, t, bv, bt);
    lemma_mul_raw_bound(v.x.raw as int, t, bv, bt);
    lemma_mul_raw_bound(v.y.raw as int, t, bv, bt);
    lemma_mul_raw_bound(v.z.raw as int, t, bv, bt);
}

} // verus!
