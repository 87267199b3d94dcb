//! A recursive Monte Carlo path tracer over fixed-point arithmetic.
//!
//! Geometry, shading and the recursive radiance estimator are verified;
//! coordinates are fixed-point numbers (64-bit raw values scaled by 2^16),
//! so every arithmetic step carries an exact contract.

pub mod aabb;
pub mod aarect;
pub mod box_;
pub mod camera;
pub mod constant_medium;
pub mod fixed;
pub mod hittable_list;
pub mod material;
pub mod hittable;
pub mod moving_sphere;
pub mod perlin;
pub mod sphere;
pub mod texture;
pub mod tracer;
pub mod ray;
pub mod rng;
pub mod trig;
pub mod vec3;

use vstd::prelude::*;
use vstd::string::StringSliceAdditionalSpecFns;

verus! {

/// True exactly when a CI environment variable carries the text `true`.
pub fn is_ci(ci: Option<&str>) -> (r: bool)
    ensures
        r == (ci matches Some(s) && s.spec_bytes() == seq![116u8, 114u8, 117u8, 101u8]),
{
    match ci {
        Option::None => false,
        Option::Some(s) => {
            let b = s.as_bytes();
            if b.len() == 4 {
                let eq = b[0] == 116 && b[1] == 114 && b[2] == 117 && b[3] == 101;
                proof {
                    if eq {
                        assert(s.spec_bytes() =~= seq![116u8, 114u8, 117u8, 101u8]);
                    }
                }
                eq
            } else {
                false
            }
        },
    }
}

} // verus!
