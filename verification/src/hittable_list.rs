//! The aggregate: a growable list of shapes, queried by linear scan.

use vstd::prelude::*;
use crate::hittable::Hittable;

verus! {

/// A list of shapes; the scene root is one of these.
pub struct HittableList {
    pub hittable_list: Vec<Hittable>,
}

impl HittableList {
    pub fn new() -> (l: Self)
        ensures
            l.hittable_list@.len() == 0,
    {
        HittableList { hittable_list: Vec::new() }
    }

    /// Append a shape.
    pub fn add(&mut self, object: Hittable)
        ensures
            final(self).hittable_list@ == old(self).hittable_list@.push(object),
    {
        self.hittable_list.push(object);
    }

    /// Remove every shape.
    pub fn clear(&mut self)
        ensures
            final(self).hittable_list@.len() == 0,
    {
        self.hittable_list.clear();
    }
}

} // verus!
