use vstd::prelude::*;

verus! {

/// Number of fixed-point steps per whole unit: every real quantity in this
/// crate is held as a signed multiple of `1 / FP_ONE`.
pub const FP_ONE: i64 = 65536;

/// Largest magnitude a fixed-point value may take; arithmetic saturates there.
pub const FP_MAX: i64 = i64::MAX;

/// One half, on the fixed-point grid.
pub const FP_HALF: i64 = 32768;

/// Magnitude of an integer.
pub open spec fn abs_i(a: int) -> int {
    if a >= 0 {
        a
    } else {
        -a
    }
}

/// Clamp an unbounded integer into the symmetric representable range.
pub open spec fn fp_clamp(v: int) -> int {
    if v > FP_MAX as int {
        FP_MAX as int
    } else if v < -(FP_MAX as int) {
        -(FP_MAX as int)
    } else {
        v
    }
}

/// Division truncating toward zero, for a positive divisor: the rounding that
/// the executable arithmetic below performs.
pub open spec fn tdiv(a: int, d: int) -> int {
    if a >= 0 {
        a / d
    } else {
        -((-a) / d)
    }
}

/// Value of a saturating fixed-point sum.
pub open spec fn fp_add_spec(a: i64, b: i64) -> i64 {
    fp_clamp(a + b) as i64
}

/// Value of a saturating fixed-point difference.
pub open spec fn fp_sub_spec(a: i64, b: i64) -> i64 {
    fp_clamp(a - b) as i64
}

/// Value of a saturating fixed-point negation.
pub open spec fn fp_neg_spec(a: i64) -> i64 {
    fp_clamp(-a) as i64
}

/// Value of a saturating fixed-point product, truncated toward zero.
pub open spec fn fp_mul_spec(a: i64, b: i64) -> i64 {
    fp_clamp(tdiv(a * b, FP_ONE as int)) as i64
}

/// Value of a saturating fixed-point quotient (positive divisor),
/// truncated toward zero.
pub open spec fn fp_div_spec(a: i64, d: i64) -> i64 {
    fp_clamp(tdiv(a * FP_ONE, d as int)) as i64
}

/// The integer square root: the largest `r` with `r * r <= n`.
pub open spec fn sqrt_nat(n: nat) -> nat
    decreases n,
{
    if n == 0 {
        0
    } else {
        let p = sqrt_nat((n - 1) as nat);
        if (p + 1) * (p + 1) <= n {
            p + 1
        } else {
            p
        }
    }
}

/// Value of the fixed-point square root of a non-negative value.
pub open spec fn fp_sqrt_spec(x: i64) -> i64 {
    sqrt_nat((x * FP_ONE) as nat) as i64
}

/// `sqrt_nat(n)` is the unique natural whose square is at most `n` while the
/// next square exceeds `n`.
pub proof fn lemma_sqrt_nat_bounds(n: nat)
    ensures
        sqrt_nat(n) * sqrt_nat(n) <= n,
        n < (sqrt_nat(n) + 1) * (sqrt_nat(n) + 1),
    decreases n,
{
    if n == 0 {
        assert(sqrt_nat(n) == 0);
        assert(sqrt_nat(n) * sqrt_nat(n) == 0) by (nonlinear_arith)
            requires
                sqrt_nat(n) == 0,
        ;
        assert((sqrt_nat(n) + 1) * (sqrt_nat(n) + 1) == 1) by (nonlinear_arith)
            requires
                sqrt_nat(n) == 0,
        ;
    } else {
        lemma_sqrt_nat_bounds((n - 1) as nat);
        let p = sqrt_nat((n - 1) as nat);
        assert(p * p <= n - 1);
        assert(n - 1 < (p + 1) * (p + 1));
        let s = sqrt_nat(n);
        if (p + 1) * (p + 1) <= n {
            assert(s == p + 1);
            assert(s * s <= n) by (nonlinear_arith)
                requires
                    s == p + 1,
                    (p + 1) * (p + 1) <= n,
            ;
            assert(n < (s + 1) * (s + 1)) by (nonlinear_arith)
                requires
                    s == p + 1,
                    n - 1 < (p + 1) * (p + 1),
                    (p + 1) * (p + 1) <= n,
                    p >= 0,
            ;
        } else {
            assert(s == p);
            assert(s * s <= n) by (nonlinear_arith)
                requires
                    s == p,
                    p * p <= n - 1,
            ;
            assert(n < (s + 1) * (s + 1)) by (nonlinear_arith)
                requires
                    s == p,
                    !((p + 1) * (p + 1) <= n),
            ;
        }
    }
}

/// Any natural sitting between consecutive squares around `n` is `sqrt_nat(n)`.
pub proof fn lemma_sqrt_nat_unique(n: nat, r: nat)
    requires
        r * r <= n,
        n < (r + 1) * (r + 1),
    ensures
        r == sqrt_nat(n),
{
    lemma_sqrt_nat_bounds(n);
    let s = sqrt_nat(n);
    if r < s {
        assert(false) by (nonlinear_arith)
            requires
                r < s,
                s * s <= n,
                n < (r + 1) * (r + 1),
        ;
    }
    if s < r {
        assert(false) by (nonlinear_arith)
            requires
                s < r,
                r * r <= n,
                n < (s + 1) * (s + 1),
        ;
    }
}

/// Division truncating toward zero preserves numerical order, for any one
/// positive divisor.
pub proof fn lemma_tdiv_monotone(x: int, y: int, d: int)
    requires
        x <= y,
        d > 0,
    ensures
        tdiv(x, d) <= tdiv(y, d),
{
    if x >= 0 {
        vstd::arithmetic::div_mod::lemma_div_is_ordered(x, y, d);
    } else if y >= 0 {
        vstd::arithmetic::div_mod::lemma_div_pos_is_pos(-x, d);
        vstd::arithmetic::div_mod::lemma_div_pos_is_pos(y, d);
    } else {
        vstd::arithmetic::div_mod::lemma_div_is_ordered(-y, -x, d);
    }
}

/// The fixed-point square root of a representable value never leaves
/// `[0, 2^48]`, so it can be carried in 64 bits.
pub proof fn lemma_fp_sqrt_spec_bounds(x: i64)
    requires
        x >= 0,
    ensures
        0 <= fp_sqrt_spec(x) <= 0x1_0000_0000_0000,
{
    lemma_sqrt_nat_bounds((x * FP_ONE) as nat);
    let s = sqrt_nat((x * FP_ONE) as nat);
    assert(s <= 0x1_0000_0000_0000) by (nonlinear_arith)
        requires
            s * s <= x * FP_ONE,
            0 <= x <= i64::MAX,
            FP_ONE == 65536,
    ;
}

/// The saturating fixed-point quotient preserves numerical order in its
/// numerator, for any one positive divisor.
pub proof fn lemma_fp_div_spec_monotone(a1: i64, a2: i64, d: i64)
    requires
        a1 <= a2,
        d > 0,
    ensures
        fp_div_spec(a1, d) <= fp_div_spec(a2, d),
{
    assert(a1 * FP_ONE <= a2 * FP_ONE);
    lemma_tdiv_monotone(a1 * FP_ONE, a2 * FP_ONE, d as int);
}

/// Magnitude of a fixed-point value, exact even at the extreme of the range.
fn mag64(a: i64) -> (m: u64)
    ensures
        m as int == abs_i(a as int),
{
    if a >= 0 {
        a as u64
    } else {
        (-(a as i128)) as u64
    }
}

/// Saturating fixed-point addition.
pub fn fp_add(a: i64, b: i64) -> (r: i64)
    ensures
        r == fp_add_spec(a, b),
{
    let s: i128 = a as i128 + b as i128;
    if s > FP_MAX as i128 {
        FP_MAX
    } else if s < -(FP_MAX as i128) {
        -FP_MAX
    } else {
        s as i64
    }
}

/// Saturating fixed-point subtraction.
pub fn fp_sub(a: i64, b: i64) -> (r: i64)
    ensures
        r == fp_sub_spec(a, b),
{
    let s: i128 = a as i128 - b as i128;
    if s > FP_MAX as i128 {
        FP_MAX
    } else if s < -(FP_MAX as i128) {
        -FP_MAX
    } else {
        s as i64
    }
}

/// Saturating fixed-point negation.
pub fn fp_neg(a: i64) -> (r: i64)
    ensures
        r == fp_neg_spec(a),
{
    if a == i64::MIN {
        FP_MAX
    } else {
        -a
    }
}

/// Saturating fixed-point multiplication, truncated toward zero.
pub fn fp_mul(a: i64, b: i64) -> (r: i64)
    ensures
        r == fp_mul_spec(a, b),
{
    let neg: bool = (a < 0) != (b < 0);
    let ma: u64 = mag64(a);
    let mb: u64 = mag64(b);
    proof {
        assert(ma as int * mb as int <= u128::MAX as int)
            by (nonlinear_arith)
            requires
                0 <= ma as int <= 0x8000_0000_0000_0000,
                0 <= mb as int <= 0x8000_0000_0000_0000,
        ;
    }
    let p: u128 = (ma as u128) * (mb as u128);
    let q: u128 = p / 65536;
    proof {
        assert(p as int == abs_i(a as int * b as int)) by (nonlinear_arith)
            requires
                ma as int == abs_i(a as int),
                mb as int == abs_i(b as int),
                p as int == ma as int * mb as int,
        ;
        assert(neg ==> a as int * b as int <= 0) by (nonlinear_arith)
            requires
                neg == ((a < 0) != (b < 0)),
        ;
        assert(!neg ==> a as int * b as int >= 0) by (nonlinear_arith)
            requires
                neg == ((a < 0) != (b < 0)),
        ;
    }
    if neg {
        if q > FP_MAX as u128 {
            -FP_MAX
        } else {
            -(q as i64)
        }
    } else {
        if q > FP_MAX as u128 {
            FP_MAX
        } else {
            q as i64
        }
    }
}

/// Saturating fixed-point division by a positive value, truncated toward zero.
pub fn fp_div(a: i64, d: i64) -> (r: i64)
    requires
        d > 0,
    ensures
        r == fp_div_spec(a, d),
{
    let neg: bool = a < 0;
    let ma: u64 = mag64(a);
    let p: u128 = (ma as u128) * 65536;
    let q: u128 = p / (d as u128);
    proof {
        assert(p as int == abs_i(a as int * FP_ONE)) by (nonlinear_arith)
            requires
                ma as int == abs_i(a as int),
                p as int == ma as int * 65536,
                FP_ONE == 65536,
        ;
        assert(neg ==> a as int * FP_ONE <= 0) by (nonlinear_arith)
            requires
                neg == (a < 0),
                FP_ONE == 65536,
        ;
        assert(!neg ==> a as int * FP_ONE >= 0) by (nonlinear_arith)
            requires
                neg == (a < 0),
                FP_ONE == 65536,
        ;
    }
    if neg {
        if q > FP_MAX as u128 {
            -FP_MAX
        } else {
            -(q as i64)
        }
    } else {
        if q > FP_MAX as u128 {
            FP_MAX
        } else {
            q as i64
        }
    }
}

/// Fixed-point square root of a non-negative value, rounded down.
pub fn fp_sqrt(x: i64) -> (r: i64)
    requires
        x >= 0,
    ensures
        r == fp_sqrt_spec(x),
        r >= 0,
        r * r <= x * FP_ONE,
        x * FP_ONE < (r + 1) * (r + 1),
{
    let y: u128 = (x as u128) * 65536;
    let mut lo: u128 = 0;
    let mut hi: u128 = 0x1_0000_0000_0000;
    proof {
        assert((0x1_0000_0000_0000u128 + 1) * (0x1_0000_0000_0000u128 + 1) > y) by (nonlinear_arith)
            requires
                y as int == x as int * FP_ONE,
                0 <= x as int <= i64::MAX as int,
                FP_ONE == 65536,
        ;
    }
    while lo < hi
        invariant
            lo <= hi <= 0x1_0000_0000_0000,
            lo * lo <= y,
            y < (hi + 1) * (hi + 1),
        decreases hi - lo,
    {
        let mid: u128 = lo + (hi - lo + 1) / 2;
        proof {
            assert(mid * mid <= u128::MAX as int)
                by (nonlinear_arith)
                requires
                    0 <= mid as int <= 0x1_0000_0000_0000,
            ;
        }
        if mid * mid <= y {
            lo = mid;
        } else {
            hi = mid - 1;
        }
    }
    proof {
        lemma_sqrt_nat_unique(y as nat, lo as nat);
        assert(y as int == x as int * FP_ONE);
        assert(lo * lo <= y);
        assert(y < (lo + 1) * (lo + 1));
    }
    lo as i64
}

} // verus!

