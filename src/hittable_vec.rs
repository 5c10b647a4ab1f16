use vstd::prelude::*;

use crate::ray::Ray;
use crate::sphere::{crossing_spec, hit_in_range, Crossing, Sphere};

verus! {

/// The objects of a scene, in the order they were added. Two equal spheres
/// are two entries.
pub struct HittableVec {
    pub objects: Vec<Sphere>,
}

impl HittableVec {
    /// The scene's objects in insertion order.
    pub open spec fn view(&self) -> Seq<Sphere> {
        self.objects@
    }

    /// An empty scene.
    pub fn default() -> (w: HittableVec)
        ensures
            w@ == Seq::<Sphere>::empty(),
    {
        HittableVec { objects: Vec::new() }
    }

    /// Appends `s` to the scene.
    pub fn add(&mut self, s: Sphere)
        ensures
            final(self)@ == old(self)@.push(s),
    {
        self.objects.push(s);
    }

    /// Removes every object.
    pub fn clear(&mut self)
        ensures
            final(self)@ == Seq::<Sphere>::empty(),
    {
        self.objects.clear();
    }

    /// Whether some object of the scene has a crossing with `r` strictly
    /// inside `(t_min, t_max)`: the choice between shading a surface and
    /// showing the background.
    pub fn hit_anything(&self, r: &Ray, t_min: i64, t_max: i64) -> (b: bool)
        requires
            forall|i: int|
                0 <= i < self@.len() ==> hit_in_range(
                    #[trigger] self@[i],
                    *r,
                    t_min as int,
                    t_max as int,
                ),
        ensures
            b == exists|i: int|
                0 <= i < self@.len() && crossing_spec(
                    #[trigger] self@[i],
                    *r,
                    t_min as int,
                    t_max as int,
                ) != Crossing::Miss,
    {
        let mut k: usize = 0;
        while k < self.objects.len()
            invariant
                k <= self@.len(),
                forall|i: int|
                    0 <= i < self@.len() ==> hit_in_range(
                        #[trigger] self@[i],
                        *r,
                        t_min as int,
                        t_max as int,
                    ),
                forall|i: int|
                    0 <= i < k ==> crossing_spec(
                        #[trigger] self@[i],
                        *r,
                        t_min as int,
                        t_max as int,
                    ) == Crossing::Miss,
            decreases self@.len() - k,
        {
            if self.objects[k].hit(r, t_min, t_max) != Crossing::Miss {
                return true;
            }
            k = k + 1;
        }
        false
    }
}

} // verus!
