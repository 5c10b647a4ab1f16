use vstd::prelude::*;

use crate::ray::Ray;
use crate::hittable::facing_normal;
use crate::vec3::{cross_spec, dot_spec, neg_spec, sub_spec, Point3, COORD_MAX};

verus! {

/// A ball with integer centre and radius. A radius that is not positive
/// makes a degenerate ball: it is kept, not rejected, and no ray hits it.
#[derive(Clone, Copy, Debug, PartialEq, Eq, Structural)]
pub struct Sphere {
    pub center: Point3,
    pub radius: i64,
}

/// Which root of the ray-sphere equation lies inside the open interval
/// asked for. The nearer root is preferred.
#[derive(Clone, Copy, Debug, PartialEq, Eq, Structural)]
pub enum Crossing {
    Miss,
    Near,
    Far,
}

/// True where every coordinate of `v` lies within `COORD_MAX` of zero.
pub open spec fn bounded(v: (int, int, int)) -> bool {
    -COORD_MAX <= v.0 <= COORD_MAX && -COORD_MAX <= v.1 <= COORD_MAX && -COORD_MAX <= v.2
        <= COORD_MAX
}

/// True where `t` lies within `COORD_MAX` of zero.
pub open spec fn bounded_scalar(t: int) -> bool {
    -COORD_MAX <= t <= COORD_MAX
}

/// The coefficients of `q(t) = a t^2 + 2 half_b t + c`, which vanishes where
/// the ray `o + t d` meets the sphere of centre `ctr` and radius `rad`.
pub open spec fn coeff_a(d: (int, int, int)) -> int {
    dot_spec(d, d)
}

pub open spec fn coeff_half_b(o: (int, int, int), d: (int, int, int), ctr: (int, int, int)) -> int {
    dot_spec(sub_spec(o, ctr), d)
}

pub open spec fn coeff_c(o: (int, int, int), ctr: (int, int, int), rad: int) -> int {
    dot_spec(sub_spec(o, ctr), sub_spec(o, ctr)) - rad * rad
}

/// The quarter discriminant `half_b^2 - a c`.
pub open spec fn discriminant_spec(s: Sphere, r: Ray) -> int {
    let a = coeff_a(r.direction@);
    let hb = coeff_half_b(r.origin@, r.direction@, s.center@);
    let c = coeff_c(r.origin@, s.center@, s.radius as int);
    hb * hb - a * c
}

/// The value of `q` at `t`: `a t^2 + 2 half_b t + c`, which is `a` times
/// `(t - t_near) (t - t_far)`.
pub open spec fn quad(s: Sphere, r: Ray, t: int) -> int {
    let a = coeff_a(r.direction@);
    let hb = coeff_half_b(r.origin@, r.direction@, s.center@);
    let c = coeff_c(r.origin@, s.center@, s.radius as int);
    a * t * t + 2 * hb * t + c
}

/// `a t + half_b`: negative before the vertex `-half_b / a` of `q`,
/// positive after it.
pub open spec fn slope(s: Sphere, r: Ray, t: int) -> int {
    coeff_a(r.direction@) * t + coeff_half_b(r.origin@, r.direction@, s.center@)
}

/// `t < t_near`, where `t_near = (-half_b - sqrt(disc)) / a` and `disc > 0`:
/// `t` lies before the vertex and outside the two roots.
pub open spec fn before_near(s: Sphere, r: Ray, t: int) -> bool {
    slope(s, r, t) < 0 && quad(s, r, t) > 0
}

/// `t_near < t`: `t` lies past the vertex, or between the two roots.
pub open spec fn after_near(s: Sphere, r: Ray, t: int) -> bool {
    slope(s, r, t) >= 0 || quad(s, r, t) < 0
}

/// `t < t_far`, where `t_far = (-half_b + sqrt(disc)) / a`: `t` lies at or
/// before the vertex, or between the two roots.
pub open spec fn before_far(s: Sphere, r: Ray, t: int) -> bool {
    slope(s, r, t) <= 0 || quad(s, r, t) < 0
}

/// `t_far < t`: `t` lies past the vertex and outside the two roots.
pub open spec fn after_far(s: Sphere, r: Ray, t: int) -> bool {
    slope(s, r, t) > 0 && quad(s, r, t) > 0
}

/// What `Sphere::hit` reports for the open interval `(t_min, t_max)`.
pub open spec fn crossing_spec(s: Sphere, r: Ray, t_min: int, t_max: int) -> Crossing {
    if s.radius <= 0 || discriminant_spec(s, r) <= 0 {
        Crossing::Miss
    } else if before_near(s, r, t_min) && after_near(s, r, t_max) {
        Crossing::Near
    } else if before_far(s, r, t_min) && after_far(s, r, t_max) {
        Crossing::Far
    } else {
        Crossing::Miss
    }
}

/// The inputs on which the integer arithmetic of `Sphere::hit` stays in range.
pub open spec fn hit_in_range(s: Sphere, r: Ray, t_min: int, t_max: int) -> bool {
    &&& bounded(r.direction@)
    &&& bounded(sub_spec(r.origin@, s.center@))
    &&& bounded_scalar(s.radius as int)
    &&& bounded_scalar(t_min)
    &&& bounded_scalar(t_max)
}

/// Lagrange's identity: `|u x v|^2 = |u|^2 |v|^2 - (u . v)^2`.
pub proof fn lemma_lagrange(u: (int, int, int), v: (int, int, int))
    ensures
        dot_spec(cross_spec(u, v), cross_spec(u, v)) == dot_spec(u, u) * dot_spec(v, v) - dot_spec(
            u,
            v,
        ) * dot_spec(u, v),
{
    lemma_lagrange_coords(u.0, u.1, u.2, v.0, v.1, v.2);
}

proof fn lemma_square_of_difference(p: int, q: int)
    ensures
        (p - q) * (p - q) == p * p - 2 * (p * q) + q * q,
{
    assert((p - q) * (p - q) == p * p - 2 * (p * q) + q * q) by (nonlinear_arith);
}

proof fn lemma_sum3_product(p: int, q: int, r: int, u: int, v: int, w: int)
    ensures
        (p + q + r) * (u + v + w) == p * u + p * v + p * w + q * u + q * v + q * w + r * u + r * v
            + r * w,
{
    assert((p + q + r) * (u + v + w) == p * u + p * v + p * w + q * u + q * v + q * w + r * u + r
        * v + r * w) by (nonlinear_arith);
}

proof fn lemma_sum3_square(p: int, q: int, r: int)
    ensures
        (p + q + r) * (p + q + r) == p * p + q * q + r * r + 2 * (p * q) + 2 * (p * r) + 2 * (q
            * r),
{
    assert((p + q + r) * (p + q + r) == p * p + q * q + r * r + 2 * (p * q) + 2 * (p * r) + 2 * (q
        * r)) by (nonlinear_arith);
}

proof fn lemma_square_of_product(p: int, q: int)
    ensures
        (p * q) * (p * q) == (p * p) * (q * q),
{
    assert((p * q) * (p * q) == (p * p) * (q * q)) by (nonlinear_arith);
}

proof fn lemma_swap_factors(p: int, q: int, r: int, w: int)
    ensures
        (p * q) * (r * w) == (p * w) * (r * q),
{
    assert((p * q) * (r * w) == (p * w) * (r * q)) by (nonlinear_arith);
}

proof fn lemma_lagrange_coords(a: int, b: int, c: int, x: int, y: int, z: int)
    ensures
        (b * z - c * y) * (b * z - c * y) + (c * x - a * z) * (c * x - a * z) + (a * y - b * x) * (a
            * y - b * x) == (a * a + b * b + c * c) * (x * x + y * y + z * z) - (a * x + b * y + c
            * z) * (a * x + b * y + c * z),
{
    lemma_square_of_difference(b * z, c * y);
    lemma_square_of_difference(c * x, a * z);
    lemma_square_of_difference(a * y, b * x);
    lemma_sum3_product(a * a, b * b, c * c, x * x, y * y, z * z);
    lemma_sum3_square(a * x, b * y, c * z);
    lemma_square_of_product(b, z);
    lemma_square_of_product(c, y);
    lemma_square_of_product(c, x);
    lemma_square_of_product(a, z);
    lemma_square_of_product(a, y);
    lemma_square_of_product(b, x);
    lemma_square_of_product(a, x);
    lemma_square_of_product(b, y);
    lemma_square_of_product(c, z);
    lemma_swap_factors(b, z, c, y);
    lemma_swap_factors(c, x, a, z);
    lemma_swap_factors(a, y, b, x);
}

/// The discriminant is `a (r^2 - dist^2)`, where `dist` is the distance from
/// the centre to the line of the ray: `a dist^2 = |oc x d|^2`. So a line
/// that passes farther from the centre than the radius, or exactly at the
/// radius (a tangent), gives no crossing on any interval.
pub proof fn lemma_far_line_misses(s: Sphere, r: Ray, t_min: int, t_max: int)
    ensures
        discriminant_spec(s, r) == coeff_a(r.direction@) * (s.radius * s.radius) - dot_spec(
            cross_spec(sub_spec(r.origin@, s.center@), r.direction@),
            cross_spec(sub_spec(r.origin@, s.center@), r.direction@),
        ),
        dot_spec(
            cross_spec(sub_spec(r.origin@, s.center@), r.direction@),
            cross_spec(sub_spec(r.origin@, s.center@), r.direction@),
        ) >= coeff_a(r.direction@) * (s.radius * s.radius) ==> crossing_spec(s, r, t_min, t_max)
            == Crossing::Miss,
{
    let oc = sub_spec(r.origin@, s.center@);
    let d = r.direction@;
    lemma_lagrange(oc, d);
    let a = dot_spec(d, d);
    let hb = dot_spec(oc, d);
    let o2 = dot_spec(oc, oc);
    let rr = s.radius * s.radius;
    assert(hb * hb - a * (o2 - rr) == a * rr - (o2 * a - hb * hb)) by (nonlinear_arith);
    assert(o2 * a == a * o2) by (nonlinear_arith);
}

/// A ray that starts at the centre of a ball of positive radius, in a
/// direction of unit length, leaves it at `t == radius`: on `(0, t_max)` it
/// crosses the far side exactly when `t_max > radius`, and never the near
/// side. There the outward normal is the direction itself, so the ray meets
/// the inner side and the recorded normal is the opposite of the direction.
pub proof fn lemma_from_center(s: Sphere, r: Ray, t_max: int)
    requires
        r.origin == s.center,
        s.radius > 0,
        coeff_a(r.direction@) == 1,
        t_max > 0,
    ensures
        crossing_spec(s, r, 0, t_max) == (if t_max > s.radius {
            Crossing::Far
        } else {
            Crossing::Miss
        }),
        quad(s, r, s.radius as int) == 0,
        slope(s, r, s.radius as int) > 0,
        facing_normal(r.direction@, r.direction@) == neg_spec(r.direction@),
{
    let rad = s.radius as int;
    assert(sub_spec(r.origin@, s.center@) == (0int, 0int, 0int));
    assert(coeff_half_b(r.origin@, r.direction@, s.center@) == 0);
    assert(coeff_c(r.origin@, s.center@, rad) == -(rad * rad));
    assert(discriminant_spec(s, r) == rad * rad);
    assert(rad * rad > 0) by (nonlinear_arith)
        requires
            rad > 0,
    ;
    assert(quad(s, r, t_max) == t_max * t_max - rad * rad) by (nonlinear_arith)
        requires
            quad(s, r, t_max) == coeff_a(r.direction@) * t_max * t_max + 2 * coeff_half_b(
                r.origin@,
                r.direction@,
                s.center@,
            ) * t_max + coeff_c(r.origin@, s.center@, rad),
            coeff_a(r.direction@) == 1,
            coeff_half_b(r.origin@, r.direction@, s.center@) == 0,
            coeff_c(r.origin@, s.center@, rad) == -(rad * rad),
    ;
    assert(quad(s, r, rad) == 0) by (nonlinear_arith)
        requires
            quad(s, r, rad) == coeff_a(r.direction@) * rad * rad + 2 * coeff_half_b(
                r.origin@,
                r.direction@,
                s.center@,
            ) * rad + coeff_c(r.origin@, s.center@, rad),
            coeff_a(r.direction@) == 1,
            coeff_half_b(r.origin@, r.direction@, s.center@) == 0,
            coeff_c(r.origin@, s.center@, rad) == -(rad * rad),
    ;
    if t_max > rad {
        assert(t_max * t_max > rad * rad) by (nonlinear_arith)
            requires
                t_max > rad,
                rad > 0,
        ;
    } else {
        assert(t_max * t_max <= rad * rad) by (nonlinear_arith)
            requires
                t_max <= rad,
                t_max > 0,
        ;
    }
}

proof fn lemma_bounded_product(x: int, y: int)
    requires
        -3 * COORD_MAX * COORD_MAX <= x <= 3 * COORD_MAX * COORD_MAX,
        -4 * COORD_MAX * COORD_MAX <= y <= 4 * COORD_MAX * COORD_MAX,
    ensures
        -12 * COORD_MAX * COORD_MAX * COORD_MAX * COORD_MAX <= x * y <= 12 * COORD_MAX * COORD_MAX
            * COORD_MAX * COORD_MAX,
{
    assert(-12 * COORD_MAX * COORD_MAX * COORD_MAX * COORD_MAX <= x * y <= 12 * COORD_MAX
        * COORD_MAX * COORD_MAX * COORD_MAX) by (nonlinear_arith)
        requires
            -3 * COORD_MAX * COORD_MAX <= x <= 3 * COORD_MAX * COORD_MAX,
            -4 * COORD_MAX * COORD_MAX <= y <= 4 * COORD_MAX * COORD_MAX,
            COORD_MAX > 0,
    ;
}

/// `u0 v0 + u1 v1 + u2 v2` over `i128`, for coordinates within `COORD_MAX`.
fn dot_wide(u0: i128, u1: i128, u2: i128, v0: i128, v1: i128, v2: i128) -> (r: i128)
    requires
        bounded((u0 as int, u1 as int, u2 as int)),
        bounded((v0 as int, v1 as int, v2 as int)),
    ensures
        r == dot_spec((u0 as int, u1 as int, u2 as int), (v0 as int, v1 as int, v2 as int)),
        -3 * COORD_MAX * COORD_MAX <= r <= 3 * COORD_MAX * COORD_MAX,
{
    proof {
        crate::vec3::lemma_product_bound(u0 as int, v0 as int);
        crate::vec3::lemma_product_bound(u1 as int, v1 as int);
        crate::vec3::lemma_product_bound(u2 as int, v2 as int);
    }
    u0 * v0 + u1 * v1 + u2 * v2
}

/// `(a t + half_b, a t^2 + 2 half_b t + c)` over `i128`.
fn slope_and_quad(a: i128, half_b: i128, c: i128, t: i128) -> (r: (i128, i128))
    requires
        0 <= a <= 3 * COORD_MAX * COORD_MAX,
        -3 * COORD_MAX * COORD_MAX <= half_b <= 3 * COORD_MAX * COORD_MAX,
        -4 * COORD_MAX * COORD_MAX <= c <= 4 * COORD_MAX * COORD_MAX,
        bounded_scalar(t as int),
    ensures
        r.0 == a * t + half_b,
        r.1 == a * t * t + 2 * half_b * t + c,
{
    proof {
        assert(-3 * COORD_MAX * COORD_MAX * COORD_MAX <= a * t <= 3 * COORD_MAX * COORD_MAX
            * COORD_MAX) by (nonlinear_arith)
            requires
                0 <= a <= 3 * COORD_MAX * COORD_MAX,
                -COORD_MAX <= t <= COORD_MAX,
                COORD_MAX > 0,
        ;
        assert(-3 * COORD_MAX * COORD_MAX * COORD_MAX * COORD_MAX <= (a * t) * t <= 3 * COORD_MAX
            * COORD_MAX * COORD_MAX * COORD_MAX) by (nonlinear_arith)
            requires
                -3 * COORD_MAX * COORD_MAX * COORD_MAX <= a * t <= 3 * COORD_MAX * COORD_MAX
                    * COORD_MAX,
                -COORD_MAX <= t <= COORD_MAX,
                COORD_MAX > 0,
        ;
        assert(-6 * COORD_MAX * COORD_MAX * COORD_MAX <= 2 * half_b * t <= 6 * COORD_MAX
            * COORD_MAX * COORD_MAX) by (nonlinear_arith)
            requires
                -3 * COORD_MAX * COORD_MAX <= half_b <= 3 * COORD_MAX * COORD_MAX,
                -COORD_MAX <= t <= COORD_MAX,
                COORD_MAX > 0,
        ;
    }
    let at = a * t;
    (at + half_b, at * t + 2 * half_b * t + c)
}

impl Sphere {
    pub fn new(center: Point3, radius: i64) -> (r: Sphere)
        ensures
            r.center == center,
            r.radius == radius,
    {
        Sphere { center, radius }
    }

    /// Which root of the ray-sphere equation lies strictly inside
    /// `(t_min, t_max)`: the nearer root where it does, else the farther
    /// one where it does, else none. A ray that only touches the sphere
    /// (zero discriminant) misses it, and so does every ray where the radius
    /// is not positive.
    pub fn hit(&self, r: &Ray, t_min: i64, t_max: i64) -> (k: Crossing)
        requires
            hit_in_range(*self, *r, t_min as int, t_max as int),
        ensures
            k == crossing_spec(*self, *r, t_min as int, t_max as int),
    {
        let ox: i128 = r.origin.x as i128 - self.center.x as i128;
        let oy: i128 = r.origin.y as i128 - self.center.y as i128;
        let oz: i128 = r.origin.z as i128 - self.center.z as i128;
        let dx: i128 = r.direction.x as i128;
        let dy: i128 = r.direction.y as i128;
        let dz: i128 = r.direction.z as i128;
        let rad: i128 = self.radius as i128;
        let a = dot_wide(dx, dy, dz, dx, dy, dz);
        let half_b = dot_wide(ox, oy, oz, dx, dy, dz);
        let oc2 = dot_wide(ox, oy, oz, ox, oy, oz);
        proof {
            crate::vec3::lemma_product_bound(rad as int, rad as int);
            assert(dx * dx + dy * dy + dz * dz >= 0) by (nonlinear_arith);
        }
        let c = oc2 - rad * rad;
        proof {
            lemma_bounded_product(half_b as int, half_b as int);
            lemma_bounded_product(a as int, c as int);
        }
        let disc = half_b * half_b - a * c;
        if self.radius <= 0 || disc <= 0 {
            return Crossing::Miss;
        }
        let (s_min, q_min) = slope_and_quad(a, half_b, c, t_min as i128);
        let (s_max, q_max) = slope_and_quad(a, half_b, c, t_max as i128);
        if s_min < 0 && q_min > 0 && (s_max >= 0 || q_max < 0) {
            Crossing::Near
        } else if (s_min <= 0 || q_min < 0) && (s_max > 0 && q_max > 0) {
            Crossing::Far
        } else {
            Crossing::Miss
        }
    }
}

} // verus!
