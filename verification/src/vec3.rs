use vstd::prelude::*;

use crate::fixed::{
    fp_add, fp_add_spec, fp_div, fp_div_spec, fp_mul, fp_mul_spec, fp_neg, fp_neg_spec, fp_sqrt,
    fp_sqrt_spec, fp_sub, fp_sub_spec, tdiv, FP_ONE,
};

verus! {

/// A three-component vector of fixed-point reals.
#[derive(Clone, Copy, Debug, PartialEq, Eq, Structural)]
pub struct Vec3 {
    pub x: i64,
    pub y: i64,
    pub z: i64,
}

/// A location in space; algebraically the same as `Vec3`.
pub type Point3 = Vec3;

/// A red/green/blue triple; algebraically the same as `Vec3`.
pub type Color = Vec3;

/// Componentwise magnitudes below this many fixed-point steps count as zero.
pub const NEAR_ZERO_EPS: i64 = 1;

/// Value of the componentwise vector sum.
pub open spec fn add_spec(a: Vec3, b: Vec3) -> Vec3 {
    Vec3 { x: fp_add_spec(a.x, b.x), y: fp_add_spec(a.y, b.y), z: fp_add_spec(a.z, b.z) }
}

/// Value of the componentwise vector difference.
pub open spec fn sub_spec(a: Vec3, b: Vec3) -> Vec3 {
    Vec3 { x: fp_sub_spec(a.x, b.x), y: fp_sub_spec(a.y, b.y), z: fp_sub_spec(a.z, b.z) }
}

/// Value of the componentwise vector negation.
pub open spec fn neg_spec(a: Vec3) -> Vec3 {
    Vec3 { x: fp_neg_spec(a.x), y: fp_neg_spec(a.y), z: fp_neg_spec(a.z) }
}

/// Value of the scalar multiple `t * a`.
pub open spec fn scale_spec(t: i64, a: Vec3) -> Vec3 {
    Vec3 { x: fp_mul_spec(t, a.x), y: fp_mul_spec(t, a.y), z: fp_mul_spec(t, a.z) }
}

/// Value of the componentwise (Hadamard) product, used for attenuation.
pub open spec fn comp_mul_spec(a: Vec3, b: Vec3) -> Vec3 {
    Vec3 { x: fp_mul_spec(a.x, b.x), y: fp_mul_spec(a.y, b.y), z: fp_mul_spec(a.z, b.z) }
}

/// Value of the componentwise quotient by a positive scalar.
pub open spec fn div_scalar_spec(a: Vec3, d: i64) -> Vec3 {
    Vec3 { x: fp_div_spec(a.x, d), y: fp_div_spec(a.y, d), z: fp_div_spec(a.z, d) }
}

/// Value of the fixed-point dot product, summed left to right.
pub open spec fn dot_spec(a: Vec3, b: Vec3) -> i64 {
    fp_add_spec(
        fp_add_spec(fp_mul_spec(a.x, b.x), fp_mul_spec(a.y, b.y)),
        fp_mul_spec(a.z, b.z),
    )
}

/// Value of the fixed-point cross product.
pub open spec fn cross_spec(a: Vec3, b: Vec3) -> Vec3 {
    Vec3 {
        x: fp_sub_spec(fp_mul_spec(a.y, b.z), fp_mul_spec(a.z, b.y)),
        y: fp_sub_spec(fp_mul_spec(a.z, b.x), fp_mul_spec(a.x, b.z)),
        z: fp_sub_spec(fp_mul_spec(a.x, b.y), fp_mul_spec(a.y, b.x)),
    }
}

/// Value of the squared length.
pub open spec fn length_squared_spec(a: Vec3) -> i64 {
    dot_spec(a, a)
}

/// Value of the length: the rounded-down square root of the squared length.
pub open spec fn length_spec(a: Vec3) -> i64 {
    fp_sqrt_spec(length_squared_spec(a))
}

/// Value of the unit vector `a / length(a)`; meaningful only when the length
/// is positive.
pub open spec fn unit_spec(a: Vec3) -> Vec3 {
    div_scalar_spec(a, length_spec(a))
}

/// Whether every component is smaller in magnitude than the epsilon.
pub open spec fn near_zero_spec(a: Vec3) -> bool {
    &&& -NEAR_ZERO_EPS < a.x < NEAR_ZERO_EPS
    &&& -NEAR_ZERO_EPS < a.y < NEAR_ZERO_EPS
    &&& -NEAR_ZERO_EPS < a.z < NEAR_ZERO_EPS
}

/// Value of the mirror reflection `v - 2 * dot(v, n) * n`; the doubling is
/// a saturating sum and therefore exact whenever it stays in range.
pub open spec fn reflect_spec(v: Vec3, n: Vec3) -> Vec3 {
    sub_spec(v, scale_spec(fp_add_spec(dot_spec(v, n), dot_spec(v, n)), n))
}

impl Vec3 {
    /// Build a vector from its fixed-point components.
    pub fn new(x: i64, y: i64, z: i64) -> (r: Vec3)
        ensures
            r == (Vec3 { x, y, z }),
    {
        Vec3 { x, y, z }
    }

    /// The zero vector.
    pub fn zeros() -> (r: Vec3)
        ensures
            r == (Vec3 { x: 0i64, y: 0i64, z: 0i64 }),
    {
        Vec3 { x: 0, y: 0, z: 0 }
    }

    /// Componentwise sum.
    pub fn add(self, o: Vec3) -> (r: Vec3)
        ensures
            r == add_spec(self, o),
    {
        Vec3 { x: fp_add(self.x, o.x), y: fp_add(self.y, o.y), z: fp_add(self.z, o.z) }
    }

    /// Componentwise difference.
    pub fn sub(self, o: Vec3) -> (r: Vec3)
        ensures
            r == sub_spec(self, o),
    {
        Vec3 { x: fp_sub(self.x, o.x), y: fp_sub(self.y, o.y), z: fp_sub(self.z, o.z) }
    }

    /// Componentwise negation.
    pub fn neg(self) -> (r: Vec3)
        ensures
            r == neg_spec(self),
    {
        Vec3 { x: fp_neg(self.x), y: fp_neg(self.y), z: fp_neg(self.z) }
    }

    /// Scalar multiple.
    pub fn scale(self, t: i64) -> (r: Vec3)
        ensures
            r == scale_spec(t, self),
    {
        Vec3 { x: fp_mul(t, self.x), y: fp_mul(t, self.y), z: fp_mul(t, self.z) }
    }

    /// Componentwise product, used to attenuate a color by a color.
    pub fn comp_mul(self, o: Vec3) -> (r: Vec3)
        ensures
            r == comp_mul_spec(self, o),
    {
        Vec3 { x: fp_mul(self.x, o.x), y: fp_mul(self.y, o.y), z: fp_mul(self.z, o.z) }
    }

    /// Componentwise quotient by a positive scalar.
    pub fn div_scalar(self, d: i64) -> (r: Vec3)
        requires
            d > 0,
        ensures
            r == div_scalar_spec(self, d),
    {
        Vec3 { x: fp_div(self.x, d), y: fp_div(self.y, d), z: fp_div(self.z, d) }
    }

    /// Dot product.
    pub fn dot(self, o: Vec3) -> (r: i64)
        ensures
            r == dot_spec(self, o),
    {
        fp_add(fp_add(fp_mul(self.x, o.x), fp_mul(self.y, o.y)), fp_mul(self.z, o.z))
    }

    /// Cross product.
    pub fn cross(self, o: Vec3) -> (r: Vec3)
        ensures
            r == cross_spec(self, o),
    {
        Vec3 {
            x: fp_sub(fp_mul(self.y, o.z), fp_mul(self.z, o.y)),
            y: fp_sub(fp_mul(self.z, o.x), fp_mul(self.x, o.z)),
            z: fp_sub(fp_mul(self.x, o.y), fp_mul(self.y, o.x)),
        }
    }

    /// Squared length; never negative.
    pub fn length_squared(self) -> (r: i64)
        ensures
            r == length_squared_spec(self),
            r >= 0,
    {
        proof {
            lemma_length_squared_nonneg(self);
        }
        self.dot(self)
    }

    /// Length, rounded down to the fixed-point grid.
    pub fn length(self) -> (r: i64)
        ensures
            r == length_spec(self),
            r >= 0,
    {
        fp_sqrt(self.length_squared())
    }

    /// The unit vector in this direction; callers must first rule out the
    /// degenerate case of a vector too short to normalize.
    pub fn unit_vector(self) -> (r: Vec3)
        requires
            length_squared_spec(self) >= 1,
        ensures
            r == unit_spec(self),
    {
        let len = self.length();
        proof {
            lemma_length_pos(self);
        }
        self.div_scalar(len)
    }

    /// Whether the vector is too close to zero to serve as a direction.
    pub fn near_zero(self) -> (r: bool)
        ensures
            r == near_zero_spec(self),
    {
        let e = NEAR_ZERO_EPS;
        -e < self.x && self.x < e && -e < self.y && self.y < e && -e < self.z && self.z < e
    }

    /// Mirror reflection about a normal.
    pub fn reflect(self, n: Vec3) -> (r: Vec3)
        ensures
            r == reflect_spec(self, n),
    {
        let d = self.dot(n);
        let twice = fp_add(d, d);
        self.sub(n.scale(twice))
    }
}

/// A product of a fixed-point value with itself is never negative.
proof fn lemma_fp_square_nonneg(a: i64)
    ensures
        fp_mul_spec(a, a) >= 0,
{
    assert(a as int * a as int >= 0) by (nonlinear_arith);
    assert(tdiv(a as int * a as int, FP_ONE as int) >= 0);
}

/// The squared length of any vector is non-negative.
pub proof fn lemma_length_squared_nonneg(a: Vec3)
    ensures
        length_squared_spec(a) >= 0,
{
    lemma_fp_square_nonneg(a.x);
    lemma_fp_square_nonneg(a.y);
    lemma_fp_square_nonneg(a.z);
}

/// A vector of squared length at least one step has positive length.
pub proof fn lemma_length_pos(a: Vec3)
    requires
        length_squared_spec(a) >= 1,
    ensures
        length_spec(a) > 0,
{
    let q = length_squared_spec(a);
    crate::fixed::lemma_sqrt_nat_bounds((q * FP_ONE) as nat);
    let s = crate::fixed::sqrt_nat((q * FP_ONE) as nat);
    if s == 0 {
        assert((s + 1) * (s + 1) == 1) by (nonlinear_arith)
            requires
                s == 0,
        ;
    }
    assert(s <= 0x1_0000_0000_0000) by (nonlinear_arith)
        requires
            s * s <= q * FP_ONE,
            1 <= q <= i64::MAX,
            FP_ONE == 65536,
    ;
    assert(s as i64 > 0);
}

/// The exact (unrounded, integer-scaled) dot product of two vectors.
pub open spec fn edot(a: Vec3, b: Vec3) -> int {
    a.x * b.x + a.y * b.y + a.z * b.z
}

/// The exact mirror reflection of `v` about `n`, with every component scaled
/// by `FP_ONE * FP_ONE` so that it stays an integer.
pub open spec fn reflect_exact(v: Vec3, n: Vec3) -> (int, int, int) {
    (
        (FP_ONE * FP_ONE) * v.x - 2 * edot(v, n) * n.x,
        (FP_ONE * FP_ONE) * v.y - 2 * edot(v, n) * n.y,
        (FP_ONE * FP_ONE) * v.z - 2 * edot(v, n) * n.z,
    )
}

/// Reflection law: about a unit normal `n`, with the incoming direction `v`
/// pointing against it, the exact reflection negates the normal component of
/// `v` (its dot product with `n` flips sign) and leaves the component of `v`
/// orthogonal to `n` unchanged. Everything is scaled by `FP_ONE * FP_ONE` to
/// remain in integers: `edot(n, n) == FP_ONE * FP_ONE` says `n` has unit
/// length and `reflect_exact` carries the same scale.
pub proof fn lemma_reflect_law(v: Vec3, n: Vec3)
    requires
        edot(n, n) == FP_ONE * FP_ONE,
        edot(v, n) < 0,
    ensures
        reflect_exact(v, n).0 * n.x + reflect_exact(v, n).1 * n.y + reflect_exact(v, n).2 * n.z
            == -(FP_ONE * FP_ONE) * edot(v, n),
        reflect_exact(v, n).0 + edot(v, n) * n.x == (FP_ONE * FP_ONE) * v.x - edot(v, n) * n.x,
        reflect_exact(v, n).1 + edot(v, n) * n.y == (FP_ONE * FP_ONE) * v.y - edot(v, n) * n.y,
        reflect_exact(v, n).2 + edot(v, n) * n.z == (FP_ONE * FP_ONE) * v.z - edot(v, n) * n.z,
{
    let s2 = FP_ONE * FP_ONE;
    let e = edot(v, n);
    assert((s2 * v.x - 2 * e * n.x) * n.x == s2 * (v.x * n.x) - 2 * e * (n.x * n.x))
        by (nonlinear_arith);
    assert((s2 * v.y - 2 * e * n.y) * n.y == s2 * (v.y * n.y) - 2 * e * (n.y * n.y))
        by (nonlinear_arith);
    assert((s2 * v.z - 2 * e * n.z) * n.z == s2 * (v.z * n.z) - 2 * e * (n.z * n.z))
        by (nonlinear_arith);
    assert(s2 * (v.x * n.x) + s2 * (v.y * n.y) + s2 * (v.z * n.z) == s2 * e) by (nonlinear_arith)
        requires
            e == v.x * n.x + v.y * n.y + v.z * n.z,
    ;
    assert(2 * e * (n.x * n.x) + 2 * e * (n.y * n.y) + 2 * e * (n.z * n.z) == 2 * (e * s2))
        by (nonlinear_arith)
        requires
            n.x * n.x + n.y * n.y + n.z * n.z == s2,
    ;
    assert(s2 * e - 2 * (e * s2) == -s2 * e) by (nonlinear_arith);
    assert(2 * e * n.x * n.x == 2 * e * (n.x * n.x)) by (nonlinear_arith);
    assert(2 * e * n.y * n.y == 2 * e * (n.y * n.y)) by (nonlinear_arith);
    assert(2 * e * n.z * n.z == 2 * e * (n.z * n.z)) by (nonlinear_arith);
    assert(2 * e * n.x == e * n.x + e * n.x) by (nonlinear_arith);
    assert(2 * e * n.y == e * n.y + e * n.y) by (nonlinear_arith);
    assert(2 * e * n.z == e * n.z + e * n.z) by (nonlinear_arith);
}

/// Multiplying by one is exact on the fixed-point grid as long as nothing
/// saturates.
proof fn lemma_fp_mul_by_one(a: i64)
    requires
        -0x8000_0000_0000 <= a <= 0x8000_0000_0000,
    ensures
        fp_mul_spec(a, FP_ONE) == a,
        fp_mul_spec(FP_ONE, a) == a,
{
    if a >= 0 {
        assert(tdiv(a as int * 65536, 65536) == (a as int * 65536) / 65536);
        assert((a as int * 65536) / 65536 == a as int);
    } else {
        assert(-(a as int * 65536) == (-a) as int * 65536) by (nonlinear_arith);
        assert(tdiv(a as int * 65536, 65536) == -(((-a) as int * 65536) / 65536));
        assert(((-a) as int * 65536) / 65536 == -a as int);
    }
    assert(a as int * 65536 == 65536 * a as int) by (nonlinear_arith);
}

/// The reflection law carried down to the executable arithmetic for a
/// vertical unit normal: no rounding occurs, the vertical component flips
/// in sign, the two horizontal components survive unchanged, and the dot
/// product with the normal flips in sign exactly.
pub proof fn lemma_reflect_vertical_exact(v: Vec3)
    requires
        -0x4000_0000_0000 <= v.x <= 0x4000_0000_0000,
        -0x4000_0000_0000 <= v.y <= 0x4000_0000_0000,
        -0x4000_0000_0000 <= v.z <= 0x4000_0000_0000,
    ensures
        reflect_spec(v, Vec3 { x: 0, y: FP_ONE, z: 0 }) == (Vec3 { x: v.x, y: (-v.y) as i64, z: v.z }),
        dot_spec(reflect_spec(v, Vec3 { x: 0, y: FP_ONE, z: 0 }), Vec3 { x: 0, y: FP_ONE, z: 0 })
            == -dot_spec(v, Vec3 { x: 0, y: FP_ONE, z: 0 }),
{
    let n = Vec3 { x: 0, y: FP_ONE, z: 0 };
    lemma_fp_mul_by_one(v.y);
    assert(fp_mul_spec(v.x, 0) == 0);
    assert(fp_mul_spec(v.z, 0) == 0);
    assert(dot_spec(v, n) == v.y);
    let twice = fp_add_spec(v.y, v.y);
    assert(twice == 2 * v.y);
    lemma_fp_mul_by_one(twice);
    assert(fp_mul_spec(twice, 0) == 0);
    let r = reflect_spec(v, n);
    assert(r.x == v.x);
    assert(r.y == v.y - 2 * v.y);
    assert(r.z == v.z);
    lemma_fp_mul_by_one(r.y);
    assert(dot_spec(r, n) == -v.y);
}

} // verus!
