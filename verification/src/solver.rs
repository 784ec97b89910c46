//! The inverse-kinematics solver: from an anchor, a target, and the two
//! segment lengths to the two joint rotations, with explicit degenerate-case
//! policy.
//!
//! For a reachable target the triangle anchor/knee/target is solved by the
//! law of cosines; rather than angles in radians, the solver returns each
//! angle as an exact scaled `(cos, sin)` pair, so every step is integer
//! arithmetic. In that reachable branch the bearing of the target is taken
//! from `asin` of the x offset over the distance: a deliberate half-plane
//! simplification, correct only while targets stay on or above the anchor's
//! horizontal; targets below it land in the mirrored quadrant. An
//! unreachable target never goes through `asin`: its bearing is the
//! anchor-to-target direction vector itself, right in every quadrant.

use vstd::prelude::*;

use crate::geom::{Rot, Vec2};
use crate::num::{
    LEN_LIMIT, clamp_unit, clamped_unit, isqrt, lemma_lagrange, lemma_mul_bound, lemma_sq_le_abs,
    lemma_sq_nonneg, sin_from_cos, sqrt_floor,
};

verus! {

/// Why the solver refused an input.
#[derive(Clone, Copy, Debug, PartialEq, Eq, Structural)]
pub enum IkError {
    /// The target coincides with the anchor: no bearing exists.
    DegenerateTarget,
    /// A law-of-cosines ratio left `[-1, 1]`; only reported by the
    /// unclamped domain check, never by the (clamping) solver.
    NotANumber,
}

/// Squared distance between two points.
pub open spec fn dist_sq(p: Vec2, q: Vec2) -> int {
    (q.x - p.x) * (q.x - p.x) + (q.y - p.y) * (q.y - p.y)
}

/// Maximum reach of a chain: the sum of its segment lengths.
pub open spec fn reach(proximal_len: int, distal_len: int) -> int {
    proximal_len + distal_len
}

/// The target lies strictly beyond the chain's maximum reach.
pub open spec fn target_unreachable(anchor: Vec2, target: Vec2, proximal_len: int, distal_len: int) -> bool {
    dist_sq(anchor, target) > reach(proximal_len, distal_len) * reach(proximal_len, distal_len)
}

/// The target coincides with the anchor.
pub open spec fn target_degenerate(anchor: Vec2, target: Vec2) -> bool {
    dist_sq(anchor, target) == 0
}

/// Floor of the anchor-to-target distance.
pub open spec fn b_floor(anchor: Vec2, target: Vec2) -> int {
    sqrt_floor(dist_sq(anchor, target))
}

/// Denominator of the fully-extended bearing rotation: the ceiling of the
/// distance, so the rotation stays inside the unit disc.
pub open spec fn bearing_den(anchor: Vec2, target: Vec2) -> int {
    if b_floor(anchor, target) * b_floor(anchor, target) == dist_sq(anchor, target) {
        b_floor(anchor, target)
    } else {
        b_floor(anchor, target) + 1
    }
}

/// Denominator of the anchor-vertex (alpha) triangle ratio: `2 b c`.
pub open spec fn alpha_den(anchor: Vec2, target: Vec2, proximal_len: int) -> int {
    2 * b_floor(anchor, target) * proximal_len
}

/// Clamped cosine numerator of the anchor-vertex angle:
/// `(b^2 + c^2 - a^2) / (2 b c)` pushed into `[-1, 1]`.
pub open spec fn alpha_cos(anchor: Vec2, target: Vec2, proximal_len: int, distal_len: int) -> int {
    clamped_unit(
        dist_sq(anchor, target) + proximal_len * proximal_len - distal_len * distal_len,
        alpha_den(anchor, target, proximal_len),
    )
}

/// Matching non-negative sine numerator, so the angle lies in `[0, pi]`.
pub open spec fn alpha_sin(anchor: Vec2, target: Vec2, proximal_len: int, distal_len: int) -> int {
    sqrt_floor(
        alpha_den(anchor, target, proximal_len) * alpha_den(anchor, target, proximal_len)
            - alpha_cos(anchor, target, proximal_len, distal_len) * alpha_cos(
            anchor,
            target,
            proximal_len,
            distal_len,
        ),
    )
}

/// Denominator of the knee-vertex (beta) triangle ratio: `2 a c`.
pub open spec fn beta_den(proximal_len: int, distal_len: int) -> int {
    2 * distal_len * proximal_len
}

/// Clamped cosine numerator of the knee-vertex angle:
/// `(a^2 + c^2 - b^2) / (2 a c)` pushed into `[-1, 1]`.
pub open spec fn beta_cos(anchor: Vec2, target: Vec2, proximal_len: int, distal_len: int) -> int {
    clamped_unit(
        distal_len * distal_len + proximal_len * proximal_len - dist_sq(anchor, target),
        beta_den(proximal_len, distal_len),
    )
}

/// Matching non-negative sine numerator.
pub open spec fn beta_sin(anchor: Vec2, target: Vec2, proximal_len: int, distal_len: int) -> int {
    sqrt_floor(
        beta_den(proximal_len, distal_len) * beta_den(proximal_len, distal_len) - beta_cos(
            anchor,
            target,
            proximal_len,
            distal_len,
        ) * beta_cos(anchor, target, proximal_len, distal_len),
    )
}

/// Cosine numerator of the bearing angle `s = asin(dx / b)`, over `b_floor`:
/// the non-negative branch, which is the half-plane approximation.
pub open spec fn bearing_cos(anchor: Vec2, target: Vec2) -> int {
    sqrt_floor(
        b_floor(anchor, target) * b_floor(anchor, target) - (target.x - anchor.x) * (target.x
            - anchor.x),
    )
}

/// Everything the solver promises of a successful result.
///
/// Unreachable target: the distal joint is the identity (fully extended) and
/// the proximal rotation is exactly the anchor-to-target direction vector —
/// taken from the direction itself, never from `asin` of a ratio, so it is
/// right in every quadrant. The proximal angle `pi/2 - s - alpha` and distal
/// angle `pi - beta` otherwise, composed by the angle-sum formulas from the
/// triangle ratios.
///
/// Each rotation's norm is also bounded from below, so a rotation never
/// contracts a segment by more than the stated rounding slack.
pub open spec fn solve_post(anchor: Vec2, target: Vec2, proximal_len: int, distal_len: int, r0: Rot, r1: Rot) -> bool {
    let dx = target.x - anchor.x;
    let dy = target.y - anchor.y;
    if target_unreachable(anchor, target, proximal_len, distal_len) {
        &&& r1.c == 1
        &&& r1.s == 0
        &&& r1.den == 1
        &&& r0.c == dx
        &&& r0.s == dy
        &&& r0.den == bearing_den(anchor, target)
        &&& r0.den * r0.den - (r0.c * r0.c + r0.s * r0.s) <= 2 * r0.den - 1
    } else {
        &&& r0.c == dx * alpha_cos(anchor, target, proximal_len, distal_len) + bearing_cos(
            anchor,
            target,
        ) * alpha_sin(anchor, target, proximal_len, distal_len)
        &&& r0.s == bearing_cos(anchor, target) * alpha_cos(anchor, target, proximal_len, distal_len)
            - dx * alpha_sin(anchor, target, proximal_len, distal_len)
        &&& r0.den == b_floor(anchor, target) * alpha_den(anchor, target, proximal_len)
        &&& r1.c == -beta_cos(anchor, target, proximal_len, distal_len)
        &&& r1.s == beta_sin(anchor, target, proximal_len, distal_len)
        &&& r1.den == beta_den(proximal_len, distal_len)
        &&& r1.den * r1.den - (r1.c * r1.c + r1.s * r1.s) <= 2 * r1.den
        &&& r0.den * r0.den - (r0.c * r0.c + r0.s * r0.s) <= 2 * r0.den * (b_floor(anchor, target)
            + alpha_den(anchor, target, proximal_len))
    }
}

/// The unclamped law-of-cosines domain check: accepts the ratio `num / den`
/// only when it already lies in `[-1, 1]`. The solver itself always clamps;
/// this is the failure mode that clamping exists to prevent.
pub fn cos_ratio_checked(num: i64, den: i64) -> (res: Result<i64, IkError>)
    requires
        1 <= den,
    ensures
        match res {
            Ok(r) => -den <= num <= den && r == num,
            Err(e) => (num > den || num < -den) && e == IkError::NotANumber,
        },
{
    if num > den || num < -den {
        Err(IkError::NotANumber)
    } else {
        Ok(num)
    }
}

/// Solve a two-segment chain: joint rotations that place the foot on (or,
/// past maximum reach, toward) the target.
///
/// Fails exactly when the target coincides with the anchor; every other
/// allowed input yields well-formed rotations as `solve_post` states.
pub fn solve(anchor: Vec2, target: Vec2, proximal_len: i64, distal_len: i64) -> (res: Result<
    (Rot, Rot),
    IkError,
>)
    requires
        anchor.wf(),
        target.wf(),
        1 <= proximal_len <= LEN_LIMIT,
        1 <= distal_len <= LEN_LIMIT,
    ensures
        match res {
            Ok(rots) => {
                &&& !target_degenerate(anchor, target)
                &&& rots.0.wf()
                &&& rots.1.wf()
                &&& solve_post(
                    anchor,
                    target,
                    proximal_len as int,
                    distal_len as int,
                    rots.0,
                    rots.1,
                )
            },
            Err(e) => target_degenerate(anchor, target) && e == IkError::DegenerateTarget,
        },
{
    let dx: i64 = target.x - anchor.x;
    let dy: i64 = target.y - anchor.y;
    proof {
        lemma_mul_bound(dx as int, dx as int, 131072, 131072);
        lemma_mul_bound(dy as int, dy as int, 131072, 131072);
        lemma_sq_nonneg(dx as int);
        lemma_sq_nonneg(dy as int);
    }
    let b2: i64 = dx * dx + dy * dy;
    if b2 == 0 {
        return Err(IkError::DegenerateTarget);
    }
    let total: i64 = proximal_len + distal_len;
    proof {
        lemma_mul_bound(total as int, total as int, 131072, 131072);
        lemma_mul_bound(proximal_len as int, proximal_len as int, 65536, 65536);
        lemma_mul_bound(distal_len as int, distal_len as int, 65536, 65536);
    }
    if b2 > total * total {
        // Fully extended chain aimed along the anchor-to-target direction
        // vector itself, right in every quadrant.
        let bfu: u64 = isqrt(b2 as u128);
        proof {
            lemma_sq_le_abs(bfu as int, 262144);
            if bfu == 0 {
                assert(b2 < (0 + 1) * (0 + 1));
            }
        }
        let bf: i64 = bfu as i64;
        let den: i64 = if bf * bf == b2 {
            bf
        } else {
            bf + 1
        };
        proof {
            // the direction's squared norm sits between (den - 1)^2 and den^2
            if (bf as int) * (bf as int) != b2 as int {
                assert((den as int) * (den as int) == (bf as int) * (bf as int) + 2 * bf + 1)
                    by (nonlinear_arith)
                    requires
                        den == bf + 1,
                ;
            }
        }
        let r0 = Rot { c: dx, s: dy, den };
        let r1 = Rot { c: 1, s: 0, den: 1 };
        return Ok((r0, r1));
    }
    // Reachable: law-of-cosines triangle solve.
    let bfu: u64 = isqrt(b2 as u128);
    proof {
        lemma_sq_le_abs(bfu as int, 262144);
        if bfu == 0 {
            assert(b2 < (0 + 1) * (0 + 1));
        }
    }
    let bf: i64 = bfu as i64;
    proof {
        lemma_sq_le_abs(bf as int, total as int);
        assert(1 <= bf <= 131072);
        assert(2 * (bf as int) * (proximal_len as int) <= 2 * 131072 * 65536
            && 1 * 1 <= 2 * (bf as int) * (proximal_len as int)) by (nonlinear_arith)
            requires
                1 <= bf <= 131072,
                1 <= proximal_len <= 65536,
        ;
    }
    let den_a: i64 = 2 * bf * proximal_len;
    let na_raw: i64 = b2 + proximal_len * proximal_len - distal_len * distal_len;
    let na: i64 = clamp_unit(na_raw, den_a);
    let sa: i64 = sin_from_cos(na, den_a);
    proof {
        assert(2 * (distal_len as int) * (proximal_len as int) <= 2 * 65536 * 65536 && 1 * 1 <= 2
            * (distal_len as int) * (proximal_len as int)) by (nonlinear_arith)
            requires
                1 <= distal_len <= 65536,
                1 <= proximal_len <= 65536,
        ;
    }
    let den_b: i64 = 2 * distal_len * proximal_len;
    let nb_raw: i64 = distal_len * distal_len + proximal_len * proximal_len - b2;
    let nb: i64 = clamp_unit(nb_raw, den_b);
    let sb: i64 = sin_from_cos(nb, den_b);
    proof {
        // |dx| <= bf: dx^2 is itself a square no greater than b2 < (bf+1)^2
        assert(-bf <= dx <= bf) by (nonlinear_arith)
            requires
                (dx as int) * (dx as int) <= b2 as int,
                (b2 as int) < ((bf as int) + 1) * ((bf as int) + 1),
                0 <= bf,
        ;
        lemma_mul_bound(bf as int, bf as int, 131072, 131072);
        lemma_mul_bound(dx as int, dx as int, bf as int, bf as int);
    }
    let csu: u64 = isqrt((bf * bf - dx * dx) as u128);
    proof {
        lemma_sq_le_abs(csu as int, bf as int);
    }
    let cs: i64 = csu as i64;
    proof {
        lemma_sq_nonneg(cs as int);
        lemma_mul_bound(dx as int, na as int, 131072, den_a as int);
        lemma_mul_bound(cs as int, sa as int, 131072, den_a as int);
        lemma_mul_bound(cs as int, na as int, 131072, den_a as int);
        lemma_mul_bound(dx as int, sa as int, 131072, den_a as int);
        lemma_mul_bound(bf as int, den_a as int, 131072, den_a as int);
        assert(den_a <= 0x4_0000_0000);
        assert(131072 * (den_a as int) <= 0x20_0000_0000_0000);
        lemma_sq_nonneg(na as int);
        lemma_sq_nonneg(sa as int);
    }
    let c0: i64 = dx * na + cs * sa;
    let s0: i64 = cs * na - dx * sa;
    let den0: i64 = bf * den_a;
    proof {
        // Lagrange: the composed pair lies in the disc of radius bf * den_a.
        lemma_lagrange(dx as int, cs as int, na as int, sa as int);
        assert((dx as int) * (dx as int) + (cs as int) * (cs as int) <= (bf as int) * (bf as int));
        assert(((dx as int) * (dx as int) + (cs as int) * (cs as int)) * ((na as int) * (na as int)
            + (sa as int) * (sa as int)) <= ((bf as int) * (bf as int)) * ((den_a as int) * (den_a
            as int))) by (nonlinear_arith)
            requires
                0 <= (dx as int) * (dx as int) + (cs as int) * (cs as int) <= (bf as int) * (bf
                    as int),
                0 <= (na as int) * (na as int) + (sa as int) * (sa as int) <= (den_a as int) * (
                den_a as int),
        ;
        assert(((bf as int) * (bf as int)) * ((den_a as int) * (den_a as int)) == ((bf as int) * (
        den_a as int)) * ((bf as int) * (den_a as int))) by (nonlinear_arith);
        assert(1 <= (bf as int) * (den_a as int)) by (nonlinear_arith)
            requires
                1 <= bf,
                1 <= den_a,
        ;
    }
    let r0 = Rot { c: c0, s: s0, den: den0 };
    let r1 = Rot { c: -nb, s: sb, den: den_b };
    proof {
        lemma_sq_nonneg(sb as int);
        assert((-nb as int) * (-nb as int) == (nb as int) * (nb as int)) by (nonlinear_arith);
        // Annulus bounds: each rotation undershoots the unit circle by at
        // most the stated rounding slack.
        let bfi = bf as int;
        let dai = den_a as int;
        let x = (dx as int) * (dx as int) + (cs as int) * (cs as int);
        let y = (na as int) * (na as int) + (sa as int) * (sa as int);
        assert(((cs as int) + 1) * ((cs as int) + 1) == (cs as int) * (cs as int) + 2 * (cs as int)
            + 1) by (nonlinear_arith);
        assert(x >= bfi * bfi - 2 * bfi);
        assert(y >= dai * dai - 2 * dai);
        assert(dai >= 2 && dai * dai - 2 * dai >= 0) by (nonlinear_arith)
            requires
                dai == 2 * bfi * (proximal_len as int),
                1 <= bfi,
                1 <= proximal_len,
        ;
        if bfi >= 2 {
            assert(bfi * bfi - 2 * bfi >= 0) by (nonlinear_arith)
                requires
                    bfi >= 2,
            ;
            assert(x * y >= (bfi * bfi - 2 * bfi) * (dai * dai - 2 * dai)) by (nonlinear_arith)
                requires
                    0 <= bfi * bfi - 2 * bfi <= x,
                    0 <= dai * dai - 2 * dai <= y,
            ;
            assert((bfi * bfi - 2 * bfi) * (dai * dai - 2 * dai) >= (bfi * dai) * (bfi * dai) - 2
                * (bfi * dai) * (bfi + dai)) by (nonlinear_arith)
                requires
                    0 <= bfi,
                    0 <= dai,
            ;
        } else {
            assert(x * y >= 0) by (nonlinear_arith)
                requires
                    0 <= x,
                    0 <= y,
            ;
            assert((bfi * dai) * (bfi * dai) - 2 * (bfi * dai) * (bfi + dai) <= 0)
                by (nonlinear_arith)
                requires
                    bfi == 1,
                    1 <= dai,
            ;
        }
        assert(x * y >= (bfi * dai) * (bfi * dai) - 2 * (bfi * dai) * (bfi + dai));
    }
    Ok((r0, r1))
}

} // verus!
