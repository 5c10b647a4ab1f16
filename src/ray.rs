use vstd::prelude::*;

use crate::vec3::{add_spec, fits_vec, scale_spec, Point3, Vec3};

verus! {

/// A half-line `origin + t * direction`.
#[derive(Clone, Copy, Debug)]
pub struct Ray {
    pub origin: Point3,
    pub direction: Vec3,
}

/// The point at parameter `t` along a ray from `o` in direction `d`.
pub open spec fn at_spec(o: (int, int, int), d: (int, int, int), t: int) -> (int, int, int) {
    add_spec(scale_spec(d, t), o)
}

impl Ray {
    pub fn new(origin: Point3, direction: Vec3) -> (r: Ray)
        ensures
            r.origin == origin,
            r.direction == direction,
    {
        Ray { origin, direction }
    }

    /// The point `origin + t * direction`.
    pub fn at(&self, t: i64) -> (r: Vec3)
        requires
            fits_vec(scale_spec(self.direction@, t as int)),
            fits_vec(at_spec(self.origin@, self.direction@, t as int)),
        ensures
            r@ == at_spec(self.origin@, self.direction@, t as int),
    {
        let x = self.direction.smul(t);
        x.add(self.origin)
    }
}

/// At parameter zero a ray is at its origin.
pub proof fn lemma_at_zero(r: Ray)
    ensures
        at_spec(r.origin@, r.direction@, 0) == r.origin@,
{
}

/// The point along a ray is affine in the parameter: moving from `t1` by
/// `t2` adds `t2` times the direction.
pub proof fn lemma_at_affine(r: Ray, t1: int, t2: int)
    ensures
        at_spec(r.origin@, r.direction@, t1 + t2) == add_spec(
            at_spec(r.origin@, r.direction@, t1),
            scale_spec(r.direction@, t2),
        ),
{
    let d = r.direction;
    assert(d.x * (t1 + t2) == d.x * t1 + d.x * t2) by (nonlinear_arith);
    assert(d.y * (t1 + t2) == d.y * t1 + d.y * t2) by (nonlinear_arith);
    assert(d.z * (t1 + t2) == d.z * t1 + d.z * t2) by (nonlinear_arith);
}

} // verus!
