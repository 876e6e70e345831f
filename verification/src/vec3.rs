//! Fixed-point 3D vectors and their exact integer arithmetic.

use vstd::prelude::*;

verus! {

/// Largest magnitude allowed for a coordinate handed to the geometry
/// routines (2^28). Keeping every input coordinate, side length and basis
/// scale under this bound keeps every intermediate product of the hit test
/// inside `i128`.
pub const MAX_COORD: i64 = 268435456;

/// Mathematical model of a vector: three unbounded integers.
#[verifier::ext_equal]
pub ghost struct Vec3s {
    pub x: int,
    pub y: int,
    pub z: int,
}

/// A point or direction in space, in fixed-point world units.
#[derive(Clone, Copy, Debug, PartialEq, Eq, Structural)]
pub struct Vec3i {
    pub x: i64,
    pub y: i64,
    pub z: i64,
}

impl View for Vec3i {
    type V = Vec3s;

    open spec fn view(&self) -> Vec3s {
        Vec3s { x: self.x as int, y: self.y as int, z: self.z as int }
    }
}

/// Dot product of the mathematical vectors.
pub open spec fn vdot(a: Vec3s, b: Vec3s) -> int {
    a.x * b.x + a.y * b.y + a.z * b.z
}

/// Componentwise sum.
pub open spec fn vadd(a: Vec3s, b: Vec3s) -> Vec3s {
    Vec3s { x: a.x + b.x, y: a.y + b.y, z: a.z + b.z }
}

/// Componentwise difference.
pub open spec fn vsub(a: Vec3s, b: Vec3s) -> Vec3s {
    Vec3s { x: a.x - b.x, y: a.y - b.y, z: a.z - b.z }
}

/// Scaling by an integer factor.
pub open spec fn vscale(k: int, a: Vec3s) -> Vec3s {
    Vec3s { x: k * a.x, y: k * a.y, z: k * a.z }
}

/// Componentwise negation.
pub open spec fn vneg(a: Vec3s) -> Vec3s {
    Vec3s { x: -a.x, y: -a.y, z: -a.z }
}

/// Every component lies in `[-m, m]`.
pub open spec fn vbounded(a: Vec3s, m: int) -> bool {
    &&& -m <= a.x <= m
    &&& -m <= a.y <= m
    &&& -m <= a.z <= m
}

/// Absolute value of an integer.
pub open spec fn iabs(x: int) -> int {
    if x < 0 { -x } else { x }
}

/// A product of bounded factors is bounded.
pub proof fn lemma_mul_bound(a: int, b: int, m: int, n: int) by (nonlinear_arith)
    requires
        -m <= a <= m,
        -n <= b <= n,
    ensures
        -(m * n) <= a * b <= m * n,
{
}

/// Multiplication distributes over addition.
pub proof fn lemma_mul_distrib_add(k: int, a: int, b: int) by (nonlinear_arith)
    ensures
        k * (a + b) == k * a + k * b,
{
}

/// Multiplication distributes over subtraction.
pub proof fn lemma_mul_distrib_sub(k: int, a: int, b: int) by (nonlinear_arith)
    ensures
        k * (a - b) == k * a - k * b,
{
}

/// A product of a nonzero factor and two positive factors is nonzero.
pub proof fn lemma_product_nonzero(a: int, b: int, c: int) by (nonlinear_arith)
    requires
        a != 0,
        b > 0,
        c > 0,
    ensures
        (a * b) * c != 0,
{
}

/// The dot product is additive in its first argument.
pub proof fn lemma_vdot_vadd(a: Vec3s, b: Vec3s, c: Vec3s)
    ensures
        vdot(vadd(a, b), c) == vdot(a, c) + vdot(b, c),
{
    assert((a.x + b.x) * c.x == a.x * c.x + b.x * c.x) by (nonlinear_arith);
    assert((a.y + b.y) * c.y == a.y * c.y + b.y * c.y) by (nonlinear_arith);
    assert((a.z + b.z) * c.z == a.z * c.z + b.z * c.z) by (nonlinear_arith);
}

/// The dot product is subtractive in its first argument.
pub proof fn lemma_vdot_vsub(a: Vec3s, b: Vec3s, c: Vec3s)
    ensures
        vdot(vsub(a, b), c) == vdot(a, c) - vdot(b, c),
{
    assert((a.x - b.x) * c.x == a.x * c.x - b.x * c.x) by (nonlinear_arith);
    assert((a.y - b.y) * c.y == a.y * c.y - b.y * c.y) by (nonlinear_arith);
    assert((a.z - b.z) * c.z == a.z * c.z - b.z * c.z) by (nonlinear_arith);
}

/// Scaling one argument scales the dot product.
pub proof fn lemma_vdot_vscale(k: int, a: Vec3s, b: Vec3s)
    ensures
        vdot(vscale(k, a), b) == k * vdot(a, b),
{
    assert((k * a.x) * b.x == k * (a.x * b.x)) by (nonlinear_arith);
    assert((k * a.y) * b.y == k * (a.y * b.y)) by (nonlinear_arith);
    assert((k * a.z) * b.z == k * (a.z * b.z)) by (nonlinear_arith);
    lemma_mul_distrib_add(k, a.x * b.x + a.y * b.y, a.z * b.z);
    lemma_mul_distrib_add(k, a.x * b.x, a.y * b.y);
}

/// Negating one argument negates the dot product.
pub proof fn lemma_vdot_vneg(a: Vec3s, b: Vec3s)
    ensures
        vdot(vneg(a), b) == -vdot(a, b),
{
    assert((-a.x) * b.x == -(a.x * b.x)) by (nonlinear_arith);
    assert((-a.y) * b.y == -(a.y * b.y)) by (nonlinear_arith);
    assert((-a.z) * b.z == -(a.z * b.z)) by (nonlinear_arith);
}

/// The dot product is symmetric.
pub proof fn lemma_vdot_comm(a: Vec3s, b: Vec3s)
    ensures
        vdot(a, b) == vdot(b, a),
{
    assert(a.x * b.x == b.x * a.x) by (nonlinear_arith);
    assert(a.y * b.y == b.y * a.y) by (nonlinear_arith);
    assert(a.z * b.z == b.z * a.z) by (nonlinear_arith);
}

/// A dot product of bounded vectors is bounded.
pub proof fn lemma_vdot_bound(a: Vec3s, b: Vec3s, m: int, n: int)
    requires
        vbounded(a, m),
        vbounded(b, n),
    ensures
        -3 * (m * n) <= vdot(a, b) <= 3 * (m * n),
{
    lemma_mul_bound(a.x, b.x, m, n);
    lemma_mul_bound(a.y, b.y, m, n);
    lemma_mul_bound(a.z, b.z, m, n);
}

impl Vec3i {
    /// All components lie within the global coordinate bound.
    pub open spec fn in_range(self) -> bool {
        vbounded(self@, MAX_COORD as int)
    }

    /// Builds a vector from its fixed-point components.
    pub fn new(x: i64, y: i64, z: i64) -> (v: Vec3i)
        ensures
            v@ == (Vec3s { x: x as int, y: y as int, z: z as int }),
    {
        Vec3i { x, y, z }
    }

    /// Componentwise difference of two in-range vectors.
    pub fn diff(&self, other: &Vec3i) -> (r: Vec3i)
        requires
            self.in_range(),
            other.in_range(),
        ensures
            r@ == vsub(self@, other@),
            vbounded(r@, 2 * MAX_COORD as int),
    {
        Vec3i { x: self.x - other.x, y: self.y - other.y, z: self.z - other.z }
    }
}

/// Exact dot product of two bounded vectors, computed without overflow.
/// Accepts vectors up to twice the coordinate bound so that componentwise
/// differences of in-range vectors can be fed back in.
pub fn dot_i64(a: &Vec3i, b: &Vec3i) -> (r: i128)
    requires
        vbounded(a@, 2 * MAX_COORD as int),
        vbounded(b@, 2 * MAX_COORD as int),
    ensures
        r as int == vdot(a@, b@),
{
    proof {
        // 536870912 == 2 * MAX_COORD; each product stays under 2^58.
        lemma_mul_bound(a@.x, b@.x, 536870912, 536870912);
        lemma_mul_bound(a@.y, b@.y, 536870912, 536870912);
        lemma_mul_bound(a@.z, b@.z, 536870912, 536870912);
    }
    (a.x as i128) * (b.x as i128) + (a.y as i128) * (b.y as i128) + (a.z as i128) * (b.z as i128)
}

} // verus!
