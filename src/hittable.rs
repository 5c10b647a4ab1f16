use vstd::prelude::*;

use crate::ray::Ray;
use crate::vec3::{dot_spec, neg_spec, small, Point3, Vec3};

verus! {

/// Where a ray meets a surface: the point, the normal turned against the
/// ray, whether the ray met the outer side, and the ray parameter.
#[derive(Clone, Copy, Debug, PartialEq, Eq, Structural)]
pub struct HitRecord {
    pub p: Point3,
    pub normal: Vec3,
    pub front_face: bool,
    pub t: i64,
}

/// The normal that `set_face_normal` chooses for a ray direction `d` and an
/// outward normal `n`: `n` itself where the ray meets the outer side, else
/// its opposite.
pub open spec fn facing_normal(d: (int, int, int), n: (int, int, int)) -> (int, int, int) {
    if dot_spec(d, n) < 0 {
        n
    } else {
        neg_spec(n)
    }
}

impl HitRecord {
    /// A record with every field zero and `front_face` false.
    pub fn default() -> (r: HitRecord)
        ensures
            r.p@ == (0int, 0int, 0int),
            r.normal@ == (0int, 0int, 0int),
            !r.front_face,
            r.t == 0,
    {
        HitRecord { p: Vec3::default(), normal: Vec3::default(), front_face: false, t: 0 }
    }

    /// Records on which side the ray met the surface and turns the normal
    /// against the ray.
    pub fn set_face_normal(&mut self, r: &Ray, outward_normal: &Vec3)
        requires
            small(r.direction),
            small(*outward_normal),
        ensures
            final(self).front_face == (dot_spec(r.direction@, outward_normal@) < 0),
            final(self).normal@ == facing_normal(r.direction@, outward_normal@),
            final(self).p == old(self).p,
            final(self).t == old(self).t,
    {
        self.front_face = r.direction.dot(*outward_normal) < 0;
        if self.front_face {
            self.normal = Vec3::from_vec3(outward_normal);
        } else {
            self.normal = Vec3::from_vec3(outward_normal).neg();
        }
    }
}

/// The normal that `set_face_normal` chooses never points along the ray.
pub proof fn lemma_normal_opposes_ray(d: Vec3, n: Vec3)
    ensures
        dot_spec(d@, facing_normal(d@, n@)) <= 0,
{
    let (a, b) = (d@, n@);
    assert(a.0 * (-b.0) + a.1 * (-b.1) + a.2 * (-b.2) == -(a.0 * b.0 + a.1 * b.1 + a.2 * b.2))
        by (nonlinear_arith);
}

} // verus!
