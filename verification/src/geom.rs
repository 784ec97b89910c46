//! 2D geometry: integer world points, rational rotations, and the
//! forward-kinematics evaluation of a two-segment chain.

use vstd::prelude::*;

use crate::num::{COORD_LIMIT, DEN_LIMIT, LEN_LIMIT, lemma_mul_bound, lemma_sq_le_abs, lemma_sq_nonneg};

verus! {

/// A world-space point or displacement, on the integer grid.
#[derive(Clone, Copy, Debug, PartialEq, Eq, Structural)]
pub struct Vec2 {
    pub x: i64,
    pub y: i64,
}

impl Vec2 {
    /// Coordinates stay inside the world box.
    pub open spec fn wf(self) -> bool {
        &&& -COORD_LIMIT <= self.x <= COORD_LIMIT
        &&& -COORD_LIMIT <= self.y <= COORD_LIMIT
    }
}

/// A planar rotation (possibly contracted by rounding), stored as the
/// rational pair `(c / den, s / den)` standing for `(cos, sin)`.
#[derive(Clone, Copy, Debug, PartialEq, Eq, Structural)]
pub struct Rot {
    pub c: i64,
    pub s: i64,
    pub den: i64,
}

impl Rot {
    /// The pair lies in the closed unit disc and the denominator is bounded,
    /// so applying the rotation never stretches a vector.
    pub open spec fn wf(self) -> bool {
        &&& 1 <= self.den <= DEN_LIMIT
        &&& self.c * self.c + self.s * self.s <= self.den * self.den
    }
}

/// An exact rational point: `(x / den, y / den)` in world space.
#[derive(Clone, Copy, Debug, PartialEq, Eq, Structural)]
pub struct RatPoint {
    pub x: i128,
    pub y: i128,
    pub den: i128,
}

/// The identity rotation (angle zero).
pub fn rot_identity() -> (r: Rot)
    ensures
        r == (Rot { c: 1i64, s: 0i64, den: 1i64 }),
        r.wf(),
{
    Rot { c: 1, s: 0, den: 1 }
}

/// Build a rotation from raw scaled parts, accepting it only when it is
/// well-formed; the entry point for externally supplied joint angles.
pub fn rot_new_checked(c: i64, s: i64, den: i64) -> (r: Option<Rot>)
    ensures
        match r {
            Some(rot) => rot == (Rot { c, s, den }) && rot.wf(),
            None => !(Rot { c, s, den }).wf(),
        },
{
    if den < 1 || den > DEN_LIMIT {
        return None;
    }
    if c < -den || c > den || s < -den || s > den {
        proof {
            if (Rot { c, s, den }).wf() {
                lemma_sq_nonneg(c as int);
                lemma_sq_nonneg(s as int);
                lemma_sq_le_abs(c as int, den as int);
                lemma_sq_le_abs(s as int, den as int);
            }
        }
        return None;
    }
    proof {
        lemma_mul_bound(c as int, c as int, den as int, den as int);
        lemma_mul_bound(s as int, s as int, den as int, den as int);
        lemma_mul_bound(den as int, den as int, DEN_LIMIT as int, DEN_LIMIT as int);
    }
    let cc: i128 = (c as i128) * (c as i128);
    let ss: i128 = (s as i128) * (s as i128);
    let dd: i128 = (den as i128) * (den as i128);
    if cc + ss <= dd {
        Some(Rot { c, s, den })
    } else {
        None
    }
}

/// X component of a rotation (given by scaled parts `c`, `s`) applied to a
/// vector of numerators.
pub open spec fn rot_apply_x(c: int, s: int, vx: int, vy: int) -> int {
    c * vx - s * vy
}

/// Y component of the same application.
pub open spec fn rot_apply_y(c: int, s: int, vx: int, vy: int) -> int {
    s * vx + c * vy
}

/// Numerator of the knee offset from the anchor, over denominator `r0.den`:
/// the proximal segment rotated by the proximal joint.
pub open spec fn knee_x_num(c0: int, len0: int) -> int {
    c0 * len0
}

pub open spec fn knee_y_num(s0: int, len0: int) -> int {
    s0 * len0
}

/// X numerator, over denominator `den1`, of the foot offset from the knee
/// expressed in the proximal joint's frame: the distal segment rotated by the
/// distal joint, then translated along the proximal segment.
pub open spec fn inner_x_num(c1: int, den1: int, len0: int, len1: int) -> int {
    c1 * len1 + len0 * den1
}

pub open spec fn inner_y_num(s1: int, len1: int) -> int {
    s1 * len1
}

/// X numerator of the foot offset from the anchor, over `den0 * den1`: the
/// whole assembly rotated by the proximal joint. The composition order is
/// distal first, then proximal.
pub open spec fn foot_x_num(c0: int, s0: int, c1: int, s1: int, den1: int, len0: int, len1: int) -> int {
    rot_apply_x(c0, s0, inner_x_num(c1, den1, len0, len1), inner_y_num(s1, len1))
}

pub open spec fn foot_y_num(c0: int, s0: int, c1: int, s1: int, den1: int, len0: int, len1: int) -> int {
    rot_apply_y(c0, s0, inner_x_num(c1, den1, len0, len1), inner_y_num(s1, len1))
}

/// Forward kinematics: world knee and foot positions of a two-segment chain
/// at `anchor`, with the proximal joint rotated by `r0` over a segment of
/// length `len0` and the distal joint by `r1` over `len1`.
pub fn evaluate(anchor: Vec2, r0: Rot, len0: i64, r1: Rot, len1: i64) -> (res: (RatPoint, RatPoint))
    requires
        anchor.wf(),
        r0.wf(),
        r1.wf(),
        0 <= len0 <= LEN_LIMIT,
        0 <= len1 <= LEN_LIMIT,
    ensures
        ({
            let (knee, foot) = res;
            &&& knee.den == r0.den
            &&& knee.x == anchor.x * r0.den + knee_x_num(r0.c as int, len0 as int)
            &&& knee.y == anchor.y * r0.den + knee_y_num(r0.s as int, len0 as int)
            &&& foot.den == r0.den * r1.den
            &&& foot.x == anchor.x * (r0.den * r1.den) + foot_x_num(
                r0.c as int,
                r0.s as int,
                r1.c as int,
                r1.s as int,
                r1.den as int,
                len0 as int,
                len1 as int,
            )
            &&& foot.y == anchor.y * (r0.den * r1.den) + foot_y_num(
                r0.c as int,
                r0.s as int,
                r1.c as int,
                r1.s as int,
                r1.den as int,
                len0 as int,
                len1 as int,
            )
            &&& 1 <= knee.den
            &&& 1 <= foot.den
        }),
{
    proof {
        lemma_sq_nonneg(r0.c as int);
        lemma_sq_nonneg(r0.s as int);
        lemma_sq_nonneg(r1.c as int);
        lemma_sq_nonneg(r1.s as int);
        lemma_sq_le_abs(r0.c as int, r0.den as int);
        lemma_sq_le_abs(r0.s as int, r0.den as int);
        lemma_sq_le_abs(r1.c as int, r1.den as int);
        lemma_sq_le_abs(r1.s as int, r1.den as int);
        // bounds for every product formed below
        lemma_mul_bound(r0.c as int, len0 as int, DEN_LIMIT as int, LEN_LIMIT as int);
        lemma_mul_bound(r0.s as int, len0 as int, DEN_LIMIT as int, LEN_LIMIT as int);
        lemma_mul_bound(anchor.x as int, r0.den as int, COORD_LIMIT as int, DEN_LIMIT as int);
        lemma_mul_bound(anchor.y as int, r0.den as int, COORD_LIMIT as int, DEN_LIMIT as int);
        lemma_mul_bound(r1.c as int, len1 as int, DEN_LIMIT as int, LEN_LIMIT as int);
        lemma_mul_bound(r1.s as int, len1 as int, DEN_LIMIT as int, LEN_LIMIT as int);
        lemma_mul_bound(len0 as int, r1.den as int, LEN_LIMIT as int, DEN_LIMIT as int);
        lemma_mul_bound(r0.den as int, r1.den as int, DEN_LIMIT as int, DEN_LIMIT as int);
    }
    let knee_den: i128 = r0.den as i128;
    let knee_x: i128 = (anchor.x as i128) * (r0.den as i128) + (r0.c as i128) * (len0 as i128);
    let knee_y: i128 = (anchor.y as i128) * (r0.den as i128) + (r0.s as i128) * (len0 as i128);
    let inner_x: i128 = (r1.c as i128) * (len1 as i128) + (len0 as i128) * (r1.den as i128);
    let inner_y: i128 = (r1.s as i128) * (len1 as i128);
    let foot_den: i128 = (r0.den as i128) * (r1.den as i128);
    proof {
        assert(1 <= (r0.den as int) * (r1.den as int)) by (nonlinear_arith)
            requires
                1 <= r0.den,
                1 <= r1.den,
        ;
        let ixb = DEN_LIMIT as int * LEN_LIMIT as int * 2;
        assert(-ixb <= inner_x as int <= ixb);
        lemma_mul_bound(r0.c as int, inner_x as int, DEN_LIMIT as int, ixb);
        lemma_mul_bound(r0.s as int, inner_x as int, DEN_LIMIT as int, ixb);
        lemma_mul_bound(r0.c as int, inner_y as int, DEN_LIMIT as int, ixb);
        lemma_mul_bound(r0.s as int, inner_y as int, DEN_LIMIT as int, ixb);
        lemma_mul_bound(
            anchor.x as int,
            foot_den as int,
            COORD_LIMIT as int,
            DEN_LIMIT as int * DEN_LIMIT as int,
        );
        lemma_mul_bound(
            anchor.y as int,
            foot_den as int,
            COORD_LIMIT as int,
            DEN_LIMIT as int * DEN_LIMIT as int,
        );
    }
    let foot_x: i128 = (anchor.x as i128) * foot_den + ((r0.c as i128) * inner_x - (r0.s as i128)
        * inner_y);
    let foot_y: i128 = (anchor.y as i128) * foot_den + ((r0.s as i128) * inner_x + (r0.c as i128)
        * inner_y);
    (
        RatPoint { x: knee_x, y: knee_y, den: knee_den },
        RatPoint { x: foot_x, y: foot_y, den: foot_den },
    )
}

} // verus!
