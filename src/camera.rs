use vstd::prelude::*;

use crate::ray::Ray;
use crate::vec3::{add_spec, scale_spec, sub_spec, Point3, Vec3};

verus! {

/// Integer length units in one world unit: with it the reference viewport
/// (aspect ratio 16/9, height 2, focal length 1) has integer corners.
pub const UNIT: i64 = 18;

/// Largest magnitude of a camera coordinate that `get_ray` accepts.
pub const CAMERA_MAX: i64 = 1_000_000;

/// Largest denominator of a viewport coordinate that `get_ray` accepts.
pub const DEN_MAX: i64 = 1_000_000;

/// A pinhole camera looking down the negative z axis: the eye point, the
/// lower-left corner of the viewport and the two edges of the viewport.
#[derive(Clone, Copy, Debug, PartialEq, Eq, Structural)]
pub struct Camera {
    pub origin: Point3,
    pub lower_left_corner: Point3,
    pub horizontal: Vec3,
    pub vertical: Vec3,
}

/// True where every coordinate of `v` lies within `CAMERA_MAX` of zero.
pub open spec fn camera_bounded(v: (int, int, int)) -> bool {
    -CAMERA_MAX <= v.0 <= CAMERA_MAX && -CAMERA_MAX <= v.1 <= CAMERA_MAX && -CAMERA_MAX <= v.2
        <= CAMERA_MAX
}

impl Camera {
    /// True where all four vectors of the camera are within `CAMERA_MAX`.
    pub open spec fn well_formed(self) -> bool {
        &&& camera_bounded(self.origin@)
        &&& camera_bounded(self.lower_left_corner@)
        &&& camera_bounded(self.horizontal@)
        &&& camera_bounded(self.vertical@)
    }

    /// The direction, scaled by `den`, from the eye to the viewport point at
    /// fractions `u / den` across and `v / den` up:
    /// `den * lower_left_corner + u * horizontal + v * vertical - den * origin`.
    pub open spec fn direction_spec(self, u: int, v: int, den: int) -> (int, int, int) {
        sub_spec(
            add_spec(
                add_spec(scale_spec(self.lower_left_corner@, den), scale_spec(self.horizontal@, u)),
                scale_spec(self.vertical@, v),
            ),
            scale_spec(self.origin@, den),
        )
    }

    /// The reference camera, in units of `1 / UNIT` world units: aspect
    /// ratio 16/9, viewport height 2, focal length 1, eye at the origin.
    /// So `horizontal = (32/9, 0, 0)`, `vertical = (0, 2, 0)` and the
    /// lower-left corner is `(-16/9, -1, -1)` in world units.
    pub fn new() -> (c: Camera)
        ensures
            c.origin@ == (0int, 0int, 0int),
            c.horizontal@ == (64int, 0int, 0int),
            c.vertical@ == (0int, 36int, 0int),
            c.lower_left_corner@ == (-32int, -18int, -18int),
            c.well_formed(),
    {
        let viewport_height: i64 = 2 * UNIT;
        let viewport_width: i64 = viewport_height * 16 / 9;
        let focal_length: i64 = UNIT;
        let o = Vec3::new(0, 0, 0);
        let h = Vec3::new(viewport_width, 0, 0);
        let v = Vec3::new(0, viewport_height, 0);
        let llc = o.sub(h.sdiv(2)).sub(v.sdiv(2)).sub(Vec3::new(0, 0, focal_length));
        Camera { origin: o, horizontal: h, vertical: v, lower_left_corner: llc }
    }

    /// The ray from the eye through the viewport point at fractions
    /// `u / den` across and `v / den` up. Its direction is scaled by `den`,
    /// which leaves the ray's points unchanged as a set.
    pub fn get_ray(&self, u: i64, v: i64, den: i64) -> (r: Ray)
        requires
            self.well_formed(),
            0 < den <= DEN_MAX,
            0 <= u <= den,
            0 <= v <= den,
        ensures
            r.origin == self.origin,
            r.direction@ == self.direction_spec(u as int, v as int, den as int),
    {
        proof {
            lemma_scaled_bound(self.lower_left_corner@, den as int);
            lemma_scaled_bound(self.horizontal@, u as int);
            lemma_scaled_bound(self.vertical@, v as int);
            lemma_scaled_bound(self.origin@, den as int);
        }
        let base = self.lower_left_corner.smul(den);
        let across = self.horizontal.smul(u);
        let up = self.vertical.smul(v);
        let eye = self.origin.smul(den);
        Ray::new(self.origin, base.add(across).add(up).sub(eye))
    }
}

proof fn lemma_scaled_bound(w: (int, int, int), k: int)
    requires
        camera_bounded(w),
        0 <= k <= DEN_MAX,
    ensures
        -CAMERA_MAX * DEN_MAX <= w.0 * k <= CAMERA_MAX * DEN_MAX,
        -CAMERA_MAX * DEN_MAX <= w.1 * k <= CAMERA_MAX * DEN_MAX,
        -CAMERA_MAX * DEN_MAX <= w.2 * k <= CAMERA_MAX * DEN_MAX,
{
    assert forall|c: int|
        -CAMERA_MAX <= c <= CAMERA_MAX implies -CAMERA_MAX * DEN_MAX <= #[trigger] (c * k)
        <= CAMERA_MAX * DEN_MAX by {
        assert(-CAMERA_MAX * DEN_MAX <= c * k <= CAMERA_MAX * DEN_MAX) by (nonlinear_arith)
            requires
                -CAMERA_MAX <= c <= CAMERA_MAX,
                0 <= k <= DEN_MAX,
        ;
    }
}

/// The ray through the centre of the reference viewport points straight
/// ahead, along the negative z axis, with no x or y offset.
pub proof fn lemma_center_ray(c: Camera, k: int)
    requires
        c.origin@ == (0int, 0int, 0int),
        c.horizontal@ == (64int, 0int, 0int),
        c.vertical@ == (0int, 36int, 0int),
        c.lower_left_corner@ == (-32int, -18int, -18int),
        k > 0,
    ensures
        c.direction_spec(k, k, 2 * k) == (0int, 0int, -36 * k),
{
    assert(-32 * (2 * k) + 64 * k == 0) by (nonlinear_arith);
    assert(-18 * (2 * k) + 36 * k == 0) by (nonlinear_arith);
    assert(-18 * (2 * k) == -36 * k) by (nonlinear_arith);
}

} // verus!
