//! The recursive integrator: walk the scene, apply materials, and compose
//! radiance, down to a depth budget.

use vstd::prelude::*;
use crate::fixed::{Fx, SCALE, COORD_MAX, T_MAX, mul_raw};
use crate::vec3::Vec3;
use crate::ray::{Ray, ray_fits};
use crate::vec3::fits1;
use crate::hittable::{Hittable, h_wf, det_tree, det_hit};
use crate::material::{Material, mats_wf, m_wf, EMIT_MAX};
use crate::texture::{color_ok, value_spec};

verus! {

/// Lower bound of every scene query: a bounced ray must not re-hit the
/// surface it starts on ("shadow acne").
pub const HIT_EPS: i64 = 66;

/// Bound on one radiance channel after at most `depth` bounces: each bounce
/// adds at most one emission and attenuates the rest by at most one.
pub open spec fn rad_bound(depth: int) -> int {
    if depth <= 0 {
        0
    } else {
        depth * (EMIT_MAX as int)
    }
}

/// Attenuating a bounded nonnegative channel by a factor of at most one
/// keeps it bounded and nonnegative.
proof fn lemma_attenuate(a: int, b: int, m: int)
    requires
        0 <= a <= SCALE,
        0 <= b <= m,
    ensures
        0 <= mul_raw(a, b) <= m,
{
    let s = SCALE as int;
    assert(0 <= a * b <= s * b) by (nonlinear_arith)
        requires
            0 <= a <= s,
            0 <= b,
    ;
    vstd::arithmetic::div_mod::lemma_div_pos_is_pos(a * b, s);
    vstd::arithmetic::div_mod::lemma_div_is_ordered(a * b, s * b, s);
    vstd::arithmetic::div_mod::lemma_div_multiples_vanish(b, s);
}

/// Estimate the radiance a ray carries back from the scene.
///
/// A zero depth budget yields black; a miss yields the background; a hit
/// yields the material's emission plus its attenuation times the radiance
/// of the scattered ray, one bounce deeper.  A hit whose material index
/// falls outside the table, or whose scattered ray leaves the representable
/// coordinate range, ends the path.  The depth budget is capped so the
/// radiance bound stays within the scalar range.
pub fn estimate_radiance(r: &Ray, background: &Vec3, world: &Hittable, materials: &Vec<Material>,
    depth: i32, rng: &mut rand::rngs::StdRng) -> (color: Vec3)
    requires
        h_wf(*world),
        ray_fits(*r),
        fits1(r.time.raw as int, T_MAX as int),
        color_ok(*background, EMIT_MAX as int),
        mats_wf(materials@),
        depth <= 8192,
    ensures
        color_ok(color, rad_bound(depth as int)),
        depth <= 0 ==> color.x.raw == 0 && color.y.raw == 0 && color.z.raw == 0,
        depth > 0 ==> (*world matches Hittable::List(l) ==> (l.hittable_list@.len() == 0
            ==> color == *background)),
        depth > 0 && det_tree(*world) ==> (match det_hit(
            *world,
            *r,
            HIT_EPS as int,
            T_MAX as int,
        ) {
            Option::None => color == *background,
            Option::Some(rec) => rec.mat < materials@.len() ==> (materials@[rec.mat as int]
                matches Material::DiffuseLight(dl) ==> color == value_spec(
                dl.emit,
                rec.u,
                rec.v,
                rec.p,
            )),
        }),
    decreases depth,
{
    if depth <= 0 {
        return Vec3::zero();
    }
    proof {
        assert((EMIT_MAX as int) <= (depth as int) * (EMIT_MAX as int)) by (nonlinear_arith)
            requires
                depth >= 1,
        ;
        assert((depth as int - 1) * (EMIT_MAX as int) <= 8191 * (EMIT_MAX as int))
            by (nonlinear_arith)
            requires
                depth <= 8192,
        ;
    }
    match world.hit(*r, Fx::from_raw(HIT_EPS), Fx::from_raw(T_MAX), rng) {
        Option::None => *background,
        Option::Some(rec) => {
            if rec.mat >= materials.len() {
                return Vec3::zero();
            }
            proof {
                assert(m_wf(materials@[rec.mat as int]));
            }
            let mat = &materials[rec.mat];
            let emitted = mat.emitted(rec.u, rec.v, &rec.p);
            match mat.scatter(r, &rec, rng) {
                Option::None => emitted,
                Option::Some((scattered, attenuation)) => {
                    if scattered.origin.x.raw < -COORD_MAX || scattered.origin.x.raw > COORD_MAX
                        || scattered.origin.y.raw < -COORD_MAX || scattered.origin.y.raw
                        > COORD_MAX || scattered.origin.z.raw < -COORD_MAX
                        || scattered.origin.z.raw > COORD_MAX {
                        return emitted;
                    }
                    let rec_color = estimate_radiance(
                        &scattered,
                        background,
                        world,
                        materials,
                        depth - 1,
                        rng,
                    );
                    proof {
                        lemma_attenuate(
                            attenuation.x.raw as int,
                            rec_color.x.raw as int,
                            rad_bound(depth as int - 1),
                        );
                        lemma_attenuate(
                            attenuation.y.raw as int,
                            rec_color.y.raw as int,
                            rad_bound(depth as int - 1),
                        );
                        lemma_attenuate(
                            attenuation.z.raw as int,
                            rec_color.z.raw as int,
                            rad_bound(depth as int - 1),
                        );
                        assert((EMIT_MAX as int) + (depth as int - 1) * (EMIT_MAX as int) == (
                        depth as int) * (EMIT_MAX as int)) by (nonlinear_arith);
                    }
                    emitted.add(attenuation.mul(rec_color))
                },
            }
        },
    }
}

} // verus!
