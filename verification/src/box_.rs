//! A rectangular box: six axis-aligned faces around two opposite corners.
//! Intersection delegates to the face list; the enclosing box is the two
//! corners themselves, exactly.

use vstd::prelude::*;
use crate::fixed::{Fx, COORD_MAX};
use crate::vec3::{Vec3, fits};
use crate::aarect::{XyRect, XzRect, YzRect};
use crate::hittable::Hittable;
use crate::hittable_list::HittableList;

verus! {

/// A box between corners `box_min` and `box_max`, with one material index
/// per face and one spare, as the face constructors take them.
pub struct Box_ {
    pub sides: HittableList,
    pub box_min: Vec3,
    pub box_max: Vec3,
    pub ptr: usize,
}

impl Box_ {
    /// The two corners ordered strictly on every axis and in bounds.
    pub open spec fn corners_wf(p0: Vec3, p1: Vec3) -> bool {
        &&& fits(p0, COORD_MAX as int)
        &&& fits(p1, COORD_MAX as int)
        &&& p0.x.raw < p1.x.raw
        &&& p0.y.raw < p1.y.raw
        &&& p0.z.raw < p1.z.raw
    }

    /// Build the six faces: two z planes, two y planes, two x planes.
    pub fn new(p0: Vec3, p1: Vec3, mp0: usize, mp1: usize, mp2: usize, mp3: usize, mp4: usize,
        mp5: usize, mp6: usize) -> (b: Self)
        requires
            Self::corners_wf(p0, p1),
        ensures
            b.box_min == p0,
            b.box_max == p1,
            b.ptr == mp6,
            b.sides.hittable_list@.len() == 6,
            b.sides.hittable_list@[0] == Hittable::XyRect(
                XyRect { x0: p0.x, x1: p1.x, y0: p0.y, y1: p1.y, k: p0.z, mp: mp0 },
            ),
            b.sides.hittable_list@[1] == Hittable::XyRect(
                XyRect { x0: p0.x, x1: p1.x, y0: p0.y, y1: p1.y, k: p1.z, mp: mp1 },
            ),
            b.sides.hittable_list@[2] == Hittable::XzRect(
                XzRect { x0: p0.x, x1: p1.x, z0: p0.z, z1: p1.z, k: p0.y, mp: mp2 },
            ),
            b.sides.hittable_list@[3] == Hittable::XzRect(
                XzRect { x0: p0.x, x1: p1.x, z0: p0.z, z1: p1.z, k: p1.y, mp: mp3 },
            ),
            b.sides.hittable_list@[4] == Hittable::YzRect(
                YzRect { y0: p0.y, y1: p1.y, z0: p0.z, z1: p1.z, k: p0.x, mp: mp4 },
            ),
            b.sides.hittable_list@[5] == Hittable::YzRect(
                YzRect { y0: p0.y, y1: p1.y, z0: p0.z, z1: p1.z, k: p1.x, mp: mp5 },
            ),
    {
        let mut sides = HittableList::new();
        sides.add(Hittable::XyRect(XyRect::new(p0.x, p1.x, p0.y, p1.y, p0.z, mp0)));
        sides.add(Hittable::XyRect(XyRect::new(p0.x, p1.x, p0.y, p1.y, p1.z, mp1)));
        sides.add(Hittable::XzRect(XzRect::new(p0.x, p1.x, p0.z, p1.z, p0.y, mp2)));
        sides.add(Hittable::XzRect(XzRect::new(p0.x, p1.x, p0.z, p1.z, p1.y, mp3)));
        sides.add(Hittable::YzRect(YzRect::new(p0.y, p1.y, p0.z, p1.z, p0.x, mp4)));
        sides.add(Hittable::YzRect(YzRect::new(p0.y, p1.y, p0.z, p1.z, p1.x, mp5)));
        Box_ { sides, box_min: p0, box_max: p1, ptr: mp6 }
    }
}

} // verus!
