use vstd::prelude::*;

verus! {

/// Largest magnitude of a coordinate that products such as `dot` and `cross`
/// accept: the sum of three products of two such coordinates fits in `i64`.
pub const COORD_MAX: i64 = 1_000_000_000;

/// A vector of three integer coordinates, used for points, free directions
/// and colours alike (`Point3` and `Color` name those roles).
#[derive(Clone, Copy, Debug, PartialEq, Eq, Structural)]
pub struct Vec3 {
    pub x: i64,
    pub y: i64,
    pub z: i64,
}

pub type Point3 = Vec3;

pub type Color = Vec3;

/// True where `v` is a value of `i64`.
pub open spec fn fits(v: int) -> bool {
    i64::MIN <= v <= i64::MAX
}

/// True where every coordinate of `v` lies within `COORD_MAX` of zero.
pub open spec fn small(v: Vec3) -> bool {
    -COORD_MAX <= v.x <= COORD_MAX && -COORD_MAX <= v.y <= COORD_MAX && -COORD_MAX <= v.z
        <= COORD_MAX
}

/// The vector with the given integer coordinates.
pub open spec fn vec_of(x: int, y: int, z: int) -> (int, int, int) {
    (x, y, z)
}

impl Vec3 {
    /// The vector as a triple of mathematical integers.
    pub open spec fn view(self) -> (int, int, int) {
        (self.x as int, self.y as int, self.z as int)
    }
}

pub open spec fn add_spec(a: (int, int, int), b: (int, int, int)) -> (int, int, int) {
    (a.0 + b.0, a.1 + b.1, a.2 + b.2)
}

pub open spec fn sub_spec(a: (int, int, int), b: (int, int, int)) -> (int, int, int) {
    (a.0 - b.0, a.1 - b.1, a.2 - b.2)
}

pub open spec fn neg_spec(a: (int, int, int)) -> (int, int, int) {
    (-a.0, -a.1, -a.2)
}

pub open spec fn scale_spec(a: (int, int, int), s: int) -> (int, int, int) {
    (a.0 * s, a.1 * s, a.2 * s)
}

pub open spec fn hadamard_spec(a: (int, int, int), b: (int, int, int)) -> (int, int, int) {
    (a.0 * b.0, a.1 * b.1, a.2 * b.2)
}

pub open spec fn dot_spec(a: (int, int, int), b: (int, int, int)) -> int {
    a.0 * b.0 + a.1 * b.1 + a.2 * b.2
}

pub open spec fn cross_spec(a: (int, int, int), b: (int, int, int)) -> (int, int, int) {
    (a.1 * b.2 - a.2 * b.1, a.2 * b.0 - a.0 * b.2, a.0 * b.1 - a.1 * b.0)
}

/// True where every coordinate of `v` is a value of `i64`.
pub open spec fn fits_vec(v: (int, int, int)) -> bool {
    fits(v.0) && fits(v.1) && fits(v.2)
}

pub(crate) proof fn lemma_product_bound(a: int, b: int)
    requires
        -COORD_MAX <= a <= COORD_MAX,
        -COORD_MAX <= b <= COORD_MAX,
    ensures
        -1_000_000_000_000_000_000 <= a * b <= 1_000_000_000_000_000_000,
{
    assert(-1_000_000_000_000_000_000 <= a * b <= 1_000_000_000_000_000_000) by (nonlinear_arith)
        requires
            -1_000_000_000 <= a <= 1_000_000_000,
            -1_000_000_000 <= b <= 1_000_000_000,
    ;
}

impl Vec3 {
    pub fn new(x: i64, y: i64, z: i64) -> (r: Vec3)
        ensures
            r@ == vec_of(x as int, y as int, z as int),
    {
        Vec3 { x, y, z }
    }

    /// A copy of `v`.
    pub fn from_vec3(v: &Vec3) -> (r: Vec3)
        ensures
            r == *v,
    {
        Vec3 { x: v.x, y: v.y, z: v.z }
    }

    /// The zero vector.
    pub fn default() -> (r: Vec3)
        ensures
            r@ == vec_of(0, 0, 0),
    {
        Vec3 { x: 0, y: 0, z: 0 }
    }

    pub fn x(&self) -> (r: i64)
        ensures
            r == self.x,
    {
        self.x
    }

    pub fn y(&self) -> (r: i64)
        ensures
            r == self.y,
    {
        self.y
    }

    pub fn z(&self) -> (r: i64)
        ensures
            r == self.z,
    {
        self.z
    }

    /// Component-wise sum.
    pub fn add(self, rhs: Vec3) -> (r: Vec3)
        requires
            fits_vec(add_spec(self@, rhs@)),
        ensures
            r@ == add_spec(self@, rhs@),
    {
        Vec3 { x: self.x + rhs.x, y: self.y + rhs.y, z: self.z + rhs.z }
    }

    /// Component-wise difference.
    pub fn sub(self, rhs: Vec3) -> (r: Vec3)
        requires
            fits_vec(sub_spec(self@, rhs@)),
        ensures
            r@ == sub_spec(self@, rhs@),
    {
        Vec3 { x: self.x - rhs.x, y: self.y - rhs.y, z: self.z - rhs.z }
    }

    /// The opposite vector.
    pub fn neg(self) -> (r: Vec3)
        requires
            fits_vec(neg_spec(self@)),
        ensures
            r@ == neg_spec(self@),
    {
        Vec3 { x: -self.x, y: -self.y, z: -self.z }
    }

    /// Component-wise (Hadamard) product, used to tint a colour.
    pub fn mul(self, rhs: Vec3) -> (r: Vec3)
        requires
            fits_vec(hadamard_spec(self@, rhs@)),
        ensures
            r@ == hadamard_spec(self@, rhs@),
    {
        Vec3 { x: self.x * rhs.x, y: self.y * rhs.y, z: self.z * rhs.z }
    }

    /// Every coordinate multiplied by `s`.
    pub fn smul(&self, s: i64) -> (r: Vec3)
        requires
            fits_vec(scale_spec(self@, s as int)),
        ensures
            r@ == scale_spec(self@, s as int),
    {
        Vec3 { x: self.x * s, y: self.y * s, z: self.z * s }
    }

    /// Every coordinate divided by `s`; the division is exact, so each
    /// coordinate is a multiple of `s`.
    pub fn sdiv(&self, s: i64) -> (r: Vec3)
        requires
            s != 0,
            s != i64::MIN,
            self.x as int % s as int == 0,
            self.y as int % s as int == 0,
            self.z as int % s as int == 0,
            fits_vec(neg_spec(self@)),
        ensures
            scale_spec(r@, s as int) == self@,
    {
        Vec3 { x: exact_div(self.x, s), y: exact_div(self.y, s), z: exact_div(self.z, s) }
    }

    /// Scalar product.
    pub fn dot(&self, rhs: Vec3) -> (r: i64)
        requires
            small(*self),
            small(rhs),
        ensures
            r == dot_spec(self@, rhs@),
    {
        dot(self, &rhs)
    }

    /// Vector product.
    pub fn cross(&self, rhs: Vec3) -> (r: Vec3)
        requires
            small(*self),
            small(rhs),
        ensures
            r@ == cross_spec(self@, rhs@),
    {
        cross(self, &rhs)
    }

    /// The square of the Euclidean length.
    pub fn length_squared(&self) -> (r: i64)
        requires
            small(*self),
        ensures
            r == dot_spec(self@, self@),
            r >= 0,
    {
        proof {
            assert(self.x * self.x >= 0) by (nonlinear_arith);
            assert(self.y * self.y >= 0) by (nonlinear_arith);
            assert(self.z * self.z >= 0) by (nonlinear_arith);
        }
        dot(self, self)
    }
}

proof fn lemma_exact_quotient(a: int, s: int)
    requires
        s != 0,
        a % s == 0,
        fits(a),
        fits(-a),
        fits(s),
    ensures
        fits(a / s),
        (a / s) * s == a,
{
    vstd::arithmetic::div_mod::lemma_fundamental_div_mod(a, s);
    vstd::arithmetic::mul::lemma_mul_is_commutative(a / s, s);
    assert(fits(a / s)) by (nonlinear_arith)
        requires
            s != 0,
            a == s * (a / s),
            fits(a),
            fits(-a),
    ;
}

/// Addition of vectors is commutative.
pub proof fn lemma_add_commutative(a: Vec3, b: Vec3)
    ensures
        add_spec(a@, b@) == add_spec(b@, a@),
{
}

/// Addition of vectors is associative.
pub proof fn lemma_add_associative(a: Vec3, b: Vec3, c: Vec3)
    ensures
        add_spec(add_spec(a@, b@), c@) == add_spec(a@, add_spec(b@, c@)),
{
}

/// Dividing by a nonzero `s` undoes scaling by `s`: the only vector whose
/// scaling by `s` equals `a` scaled by `s` is `a` itself, so
/// `a.smul(s).sdiv(s) == a`.
pub proof fn lemma_scale_then_divide(a: Vec3, s: int, r: Vec3)
    requires
        s != 0,
        scale_spec(r@, s) == scale_spec(a@, s),
    ensures
        r == a,
{
    lemma_mul_cancel(r.x as int, a.x as int, s);
    lemma_mul_cancel(r.y as int, a.y as int, s);
    lemma_mul_cancel(r.z as int, a.z as int, s);
}

proof fn lemma_mul_cancel(u: int, v: int, s: int)
    requires
        s != 0,
        u * s == v * s,
    ensures
        u == v,
{
    assert((u - v) * s == 0) by (nonlinear_arith)
        requires
            u * s == v * s,
    ;
    if u != v {
        vstd::arithmetic::mul::lemma_mul_nonzero(u - v, s);
    }
}

/// The scalar product of a vector with itself is its squared length.
pub proof fn lemma_dot_self_is_length_squared(a: Vec3)
    ensures
        dot_spec(a@, a@) == a.x * a.x + a.y * a.y + a.z * a.z,
        dot_spec(a@, a@) >= 0,
{
    assert(a.x * a.x >= 0) by (nonlinear_arith);
    assert(a.y * a.y >= 0) by (nonlinear_arith);
    assert(a.z * a.z >= 0) by (nonlinear_arith);
}

/// The vector product is anticommutative: `a.cross(b) == -(b.cross(a))`.
pub proof fn lemma_cross_anticommutative(a: Vec3, b: Vec3)
    ensures
        cross_spec(a@, b@) == neg_spec(cross_spec(b@, a@)),
{
    assert(cross_spec(a@, b@) == neg_spec(cross_spec(b@, a@))) by (nonlinear_arith);
}

/// The quotient of `a` by `s`, where `s` divides `a`.
fn exact_div(a: i64, s: i64) -> (r: i64)
    requires
        s != 0,
        s != i64::MIN,
        a as int % s as int == 0,
        fits(-a),
    ensures
        r * s == a,
{
    let ua: i64 = if a < 0 { -a } else { a };
    let us: i64 = if s < 0 { -s } else { s };
    let q: i64 = ua / us;
    proof {
        assert(ua as int % us as int == 0) by {
            let k = a as int / s as int;
            vstd::arithmetic::div_mod::lemma_fundamental_div_mod(a as int, s as int);
            let ak: int = if k < 0 { -k } else { k };
            assert(ua as int == ak * us) by (nonlinear_arith)
                requires
                    a as int == s as int * k,
                    ua as int == (if a < 0 { -(a as int) } else { a as int }),
                    us as int == (if s < 0 { -(s as int) } else { s as int }),
                    ak == (if k < 0 { -k } else { k }),
            ;
            vstd::arithmetic::div_mod::lemma_mod_multiples_basic(ak, us as int);
        }
        lemma_exact_quotient(ua as int, us as int);
        assert(q * us == ua);
        assert((if (a < 0) == (s < 0) { q as int } else { -q }) * s == a) by (nonlinear_arith)
            requires
                q * us == ua,
                ua as int == (if a < 0 { -(a as int) } else { a as int }),
                us as int == (if s < 0 { -(s as int) } else { s as int }),
        ;
    }
    if (a < 0) == (s < 0) {
        q
    } else {
        -q
    }
}

/// Scalar product.
pub fn dot(lhs: &Vec3, rhs: &Vec3) -> (r: i64)
    requires
        small(*lhs),
        small(*rhs),
    ensures
        r == dot_spec(lhs@, rhs@),
{
    proof {
        lemma_product_bound(lhs.x as int, rhs.x as int);
        lemma_product_bound(lhs.y as int, rhs.y as int);
        lemma_product_bound(lhs.z as int, rhs.z as int);
    }
    lhs.x * rhs.x + lhs.y * rhs.y + lhs.z * rhs.z
}

/// Vector product.
pub fn cross(lhs: &Vec3, rhs: &Vec3) -> (r: Vec3)
    requires
        small(*lhs),
        small(*rhs),
    ensures
        r@ == cross_spec(lhs@, rhs@),
{
    proof {
        lemma_product_bound(lhs.y as int, rhs.z as int);
        lemma_product_bound(lhs.z as int, rhs.y as int);
        lemma_product_bound(lhs.z as int, rhs.x as int);
        lemma_product_bound(lhs.x as int, rhs.z as int);
        lemma_product_bound(lhs.x as int, rhs.y as int);
        lemma_product_bound(lhs.y as int, rhs.x as int);
    }
    Vec3 {
        x: lhs.y * rhs.z - lhs.z * rhs.y,
        y: lhs.z * rhs.x - lhs.x * rhs.z,
        z: lhs.x * rhs.y - lhs.y * rhs.x,
    }
}

} // verus!
