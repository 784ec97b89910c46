//! Integer square roots, unit-interval clamping, and the small arithmetic
//! lemmas the kinematics proofs lean on.

use vstd::prelude::*;

verus! {

/// Largest magnitude a world coordinate may have.
pub const COORD_LIMIT: i64 = 65536;

/// Largest segment (bone) length.
pub const LEN_LIMIT: i64 = 65536;

/// Largest denominator a rational rotation may carry.
pub const DEN_LIMIT: i64 = 0x20_0000_0000_0000;

/// `r` is the floor of the (real) square root of `n`.
pub open spec fn is_sqrt_floor(n: int, r: int) -> bool {
    0 <= r && r * r <= n && n < (r + 1) * (r + 1)
}

/// The floor of the square root of a non-negative integer.
pub open spec fn sqrt_floor(n: int) -> int {
    choose|r: int| #[trigger] is_sqrt_floor(n, r)
}

proof fn lemma_sqrt_exists(n: int)
    requires
        n >= 0,
    ensures
        exists|r: int| #[trigger] is_sqrt_floor(n, r),
    decreases n,
{
    if n == 0 {
        assert(is_sqrt_floor(0, 0));
    } else {
        lemma_sqrt_exists(n - 1);
        let r = choose|r: int| #[trigger] is_sqrt_floor(n - 1, r);
        if (r + 1) * (r + 1) <= n {
            assert(is_sqrt_floor(n, r + 1)) by (nonlinear_arith)
                requires
                    0 <= r,
                    (r + 1) * (r + 1) <= n,
                    n - 1 < (r + 1) * (r + 1),
            ;
        } else {
            assert(is_sqrt_floor(n, r));
        }
    }
}

/// `sqrt_floor` deserves its name: it satisfies the defining property.
pub proof fn lemma_sqrt_floor_works(n: int)
    requires
        n >= 0,
    ensures
        is_sqrt_floor(n, sqrt_floor(n)),
{
    lemma_sqrt_exists(n);
}

/// Any integer with the floor-square-root property equals `sqrt_floor`.
pub proof fn lemma_sqrt_floor_unique(n: int, r: int)
    requires
        is_sqrt_floor(n, r),
    ensures
        r == sqrt_floor(n),
{
    assert(n >= 0) by (nonlinear_arith)
        requires
            0 <= r,
            r * r <= n,
    ;
    lemma_sqrt_floor_works(n);
    let s = sqrt_floor(n);
    assert(r == s) by (nonlinear_arith)
        requires
            is_sqrt_floor(n, r),
            is_sqrt_floor(n, s),
    ;
}

/// The square root of a perfect square.
pub proof fn lemma_sqrt_floor_square(k: int)
    requires
        k >= 0,
    ensures
        sqrt_floor(k * k) == k,
{
    assert(is_sqrt_floor(k * k, k)) by (nonlinear_arith)
        requires
            k >= 0,
    ;
    lemma_sqrt_floor_unique(k * k, k);
}

/// Bound on a product from bounds on its factors.
pub proof fn lemma_mul_bound(x: int, y: int, bx: int, by_: int)
    by (nonlinear_arith)
    requires
        -bx <= x <= bx,
        -by_ <= y <= by_,
        0 <= bx,
        0 <= by_,
    ensures
        -(bx * by_) <= x * y <= bx * by_,
{
}

/// Squares are never negative.
pub proof fn lemma_sq_nonneg(x: int)
    by (nonlinear_arith)
    ensures
        0 <= x * x,
{
}

/// A square below another square bounds the absolute value.
pub proof fn lemma_sq_le_abs(x: int, b: int)
    by (nonlinear_arith)
    requires
        0 <= b,
        x * x <= b * b,
    ensures
        -b <= x <= b,
{
}

/// Lagrange's identity for a rotation applied to a vector: the squared norm
/// of the image is the product of the squared norms.
pub proof fn lemma_lagrange(x: int, y: int, u: int, v: int)
    ensures
        (x * u + y * v) * (x * u + y * v) + (y * u - x * v) * (y * u - x * v) == (x * x + y * y)
            * (u * u + v * v),
{
    assert((x * u) * (y * v) == (y * u) * (x * v)) by (nonlinear_arith);
    assert((x * u + y * v) * (x * u + y * v) == (x * u) * (x * u) + 2 * ((x * u) * (y * v)) + (y
        * v) * (y * v)) by (nonlinear_arith);
    assert((y * u - x * v) * (y * u - x * v) == (y * u) * (y * u) - 2 * ((y * u) * (x * v)) + (x
        * v) * (x * v)) by (nonlinear_arith);
    assert((x * x + y * y) * (u * u + v * v) == (x * x) * (u * u) + (x * x) * (v * v) + (y * y) * (u
        * u) + (y * y) * (v * v)) by (nonlinear_arith);
    assert((x * x) * (u * u) == (x * u) * (x * u)) by (nonlinear_arith);
    assert((x * x) * (v * v) == (x * v) * (x * v)) by (nonlinear_arith);
    assert((y * y) * (u * u) == (y * u) * (y * u)) by (nonlinear_arith);
    assert((y * y) * (v * v) == (y * v) * (y * v)) by (nonlinear_arith);
}

/// Floor of the square root, by bisection.
pub fn isqrt(n: u128) -> (r: u64)
    requires
        n < 1329227995784915872903807060280344576u128,  // 2^120
    ensures
        r as int == sqrt_floor(n as int),
        is_sqrt_floor(n as int, r as int),
{
    let mut lo: u128 = 0;
    let mut hi: u128 = 1152921504606846976u128;  // 2^60
    assert(hi * hi == 1329227995784915872903807060280344576u128);
    while hi - lo > 1
        invariant
            lo < hi,
            hi <= 1152921504606846976u128,
            lo * lo <= n,
            n < hi * hi,
        decreases hi - lo,
    {
        let mid: u128 = lo + (hi - lo) / 2;
        assert(mid * mid <= 1329227995784915872903807060280344576u128) by (nonlinear_arith)
            requires
                0 <= mid <= 1152921504606846976u128,
        ;
        if mid * mid <= n {
            lo = mid;
        } else {
            hi = mid;
        }
    }
    proof {
        lemma_sqrt_floor_unique(n as int, lo as int);
        assert(lo < 1152921504606846976u128);
    }
    lo as u64
}

/// What clamping a ratio `num / den` into the unit interval does to the
/// numerator.
pub open spec fn clamped_unit(num: int, den: int) -> int {
    if num > den {
        den
    } else if num < -den {
        -den
    } else {
        num
    }
}

/// Clamp the numerator of the ratio `num / den` so that the ratio lands in
/// `[-1, 1]`. A ratio already in range is returned unchanged.
pub fn clamp_unit(num: i64, den: i64) -> (r: i64)
    requires
        1 <= den,
    ensures
        r as int == clamped_unit(num as int, den as int),
        -den <= r <= den,
        -den <= num <= den ==> r == num,
{
    if num > den {
        den
    } else if num < -den {
        -den
    } else {
        num
    }
}

/// The sine numerator matching a cosine numerator `num` over `den`:
/// `floor(sqrt(den^2 - num^2))`, the non-negative branch.
pub fn sin_from_cos(num: i64, den: i64) -> (s: i64)
    requires
        1 <= den <= DEN_LIMIT,
        -den <= num <= den,
    ensures
        s as int == sqrt_floor(den * den - num * num),
        0 <= s <= den,
        num * num + s * s <= den * den,
        den * den - (num * num + s * s) <= 2 * s,
{
    proof {
        assert((den as int) * (den as int) <= 0x20_0000_0000_0000 * 0x20_0000_0000_0000
            && 0 <= (num as int) * (num as int) <= (den as int) * (den as int))
            by (nonlinear_arith)
            requires
                1 <= den <= 0x20_0000_0000_0000,
                -den <= num <= den,
        ;
    }
    let dd: i128 = (den as i128) * (den as i128);
    let nn: i128 = (num as i128) * (num as i128);
    let d: i128 = dd - nn;
    let s: u64 = isqrt(d as u128);
    proof {
        lemma_sqrt_floor_works(d as int);
        assert((s as int) * (s as int) <= (den as int) * (den as int));
        lemma_sq_le_abs(s as int, den as int);
        // the floor undershoots by at most 2s: d < (s + 1)^2
        assert(((s as int) + 1) * ((s as int) + 1) == (s as int) * (s as int) + 2 * (s as int) + 1)
            by (nonlinear_arith);
    }
    s as i64
}

} // verus!
