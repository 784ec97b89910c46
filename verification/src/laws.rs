//! The geometric laws relating the solver and the forward-kinematics
//! evaluator: solving for a reachable target and evaluating the resulting
//! rotations puts the foot back on the target.

use vstd::prelude::*;

use crate::geom::{Rot, Vec2, foot_x_num, foot_y_num, knee_x_num, knee_y_num};
use crate::num::{lemma_lagrange, lemma_sq_nonneg, lemma_sqrt_floor_square, lemma_sqrt_floor_works, sqrt_floor};
use crate::solver::{
    alpha_cos, alpha_den, alpha_sin, b_floor, bearing_cos, beta_cos, beta_den, beta_sin, dist_sq,
    solve_post, target_degenerate, target_unreachable,
};

verus! {

/// Round-trip consistency, as an exact algebraic identity.
///
/// Take a target at offset `(dx, dy)` in the upper half-plane, at distance
/// `b` from the anchor, and segment lengths `pl` (proximal) and `dl`
/// (distal), with `sa` and `sb` the exact scaled sines of the triangle's
/// anchor and knee angles (their squares complement the law-of-cosines
/// numerators; such integers exist exactly when those square roots come out
/// whole, as at the reach boundary and in right triangles). Then forward
/// kinematics applied to the solver's composed rotations lands the foot
/// numerators exactly on `(dx, dy)` times the accumulated denominator.
pub proof fn lemma_round_trip(dx: int, dy: int, b: int, pl: int, dl: int, sa: int, sb: int)
    requires
        1 <= b,
        1 <= pl,
        1 <= dl,
        0 <= dy,
        dx * dx + dy * dy == b * b,
        0 <= sa,
        sa * sa == (2 * b * pl) * (2 * b * pl) - (b * b + pl * pl - dl * dl) * (b * b + pl * pl
            - dl * dl),
        0 <= sb,
        sb * sb == (2 * dl * pl) * (2 * dl * pl) - (dl * dl + pl * pl - b * b) * (dl * dl + pl * pl
            - b * b),
    ensures
        ({
            let na = b * b + pl * pl - dl * dl;
            let nb = dl * dl + pl * pl - b * b;
            let c0 = dx * na + dy * sa;
            let s0 = dy * na - dx * sa;
            let den_total = (b * (2 * b * pl)) * (2 * dl * pl);
            &&& foot_x_num(c0, s0, -nb, sb, 2 * dl * pl, pl, dl) == dx * den_total
            &&& foot_y_num(c0, s0, -nb, sb, 2 * dl * pl, pl, dl) == dy * den_total
        }),
{
    let na = b * b + pl * pl - dl * dl;
    let nb = dl * dl + pl * pl - b * b;
    let c0 = dx * na + dy * sa;
    let s0 = dy * na - dx * sa;

    // The two scaled sines agree: the law of sines, squared.
    assert(na * na - nb * nb == 4 * (b * b) * (pl * pl) - 4 * (dl * dl) * (pl * pl))
        by (nonlinear_arith)
        requires
            na == b * b + pl * pl - dl * dl,
            nb == dl * dl + pl * pl - b * b,
    ;
    assert((2 * b * pl) * (2 * b * pl) == 4 * (b * b) * (pl * pl)) by (nonlinear_arith);
    assert((2 * dl * pl) * (2 * dl * pl) == 4 * (dl * dl) * (pl * pl)) by (nonlinear_arith);
    assert(sa * sa == sb * sb);
    assert(sa == sb) by (nonlinear_arith)
        requires
            0 <= sa,
            0 <= sb,
            sa * sa == sb * sb,
    ;

    // The knee-to-foot assembly, in the proximal frame, is the bearing leg
    // of the triangle: `(dl * na, dl * sa)` over the beta denominator.
    assert((-nb) * dl + pl * (2 * dl * pl) == dl * na) by (nonlinear_arith)
        requires
            na == b * b + pl * pl - dl * dl,
            nb == dl * dl + pl * pl - b * b,
    ;
    assert(sb * dl == dl * sa) by (nonlinear_arith)
        requires
            sa == sb,
    ;

    // Rotating it by the composed proximal rotation cancels every cross
    // term, leaving the direction `(dx, dy)` scaled by `na^2 + sa^2`.
    assert(c0 * na - s0 * sa == dx * (na * na + sa * sa)) by (nonlinear_arith)
        requires
            c0 == dx * na + dy * sa,
            s0 == dy * na - dx * sa,
    ;
    assert(s0 * na + c0 * sa == dy * (na * na + sa * sa)) by (nonlinear_arith)
        requires
            c0 == dx * na + dy * sa,
            s0 == dy * na - dx * sa,
    ;
    assert(c0 * (dl * na) - s0 * (dl * sa) == dl * (c0 * na - s0 * sa)) by (nonlinear_arith);
    assert(s0 * (dl * na) + c0 * (dl * sa) == dl * (s0 * na + c0 * sa)) by (nonlinear_arith);
    assert(c0 * (dl * na) - s0 * (dl * sa) == dl * (dx * (na * na + sa * sa)));
    assert(s0 * (dl * na) + c0 * (dl * sa) == dl * (dy * (na * na + sa * sa)));

    // `na^2 + sa^2` is the squared alpha denominator, by the choice of `sa`.
    assert(na * na + sa * sa == (2 * b * pl) * (2 * b * pl));
    assert(dl * (dx * ((2 * b * pl) * (2 * b * pl))) == dx * ((b * (2 * b * pl)) * (2 * dl * pl)))
        by (nonlinear_arith);
    assert(dl * (dy * ((2 * b * pl) * (2 * b * pl))) == dy * ((b * (2 * b * pl)) * (2 * dl * pl)))
        by (nonlinear_arith);
}

/// Round-trip consistency for the solver's own output: whenever the target
/// is reachable, lies in the upper half-plane, the distance is exact, the
/// triangle closes from below, and the two sine roots are exact, the foot
/// that forward kinematics computes from the returned rotations sits
/// exactly on the target.
pub proof fn lemma_solve_round_trip(anchor: Vec2, target: Vec2, pl: int, dl: int, r0: Rot, r1: Rot)
    requires
        solve_post(anchor, target, pl, dl, r0, r1),
        1 <= pl,
        1 <= dl,
        !target_degenerate(anchor, target),
        !target_unreachable(anchor, target, pl, dl),
        target.y >= anchor.y,
        // the anchor-to-target distance is a whole number
        b_floor(anchor, target) * b_floor(anchor, target) == dist_sq(anchor, target),
        // the target is no closer than the chain can fold
        dl <= b_floor(anchor, target) + pl,
        pl <= b_floor(anchor, target) + dl,
        // the two sine square roots are exact
        alpha_sin(anchor, target, pl, dl) * alpha_sin(anchor, target, pl, dl) == alpha_den(
            anchor,
            target,
            pl,
        ) * alpha_den(anchor, target, pl) - alpha_cos(anchor, target, pl, dl) * alpha_cos(
            anchor,
            target,
            pl,
            dl,
        ),
        beta_sin(anchor, target, pl, dl) * beta_sin(anchor, target, pl, dl) == beta_den(pl, dl)
            * beta_den(pl, dl) - beta_cos(anchor, target, pl, dl) * beta_cos(anchor, target, pl, dl),
    ensures
        foot_x_num(r0.c as int, r0.s as int, r1.c as int, r1.s as int, r1.den as int, pl, dl) == (
        target.x - anchor.x) * (r0.den * r1.den),
        foot_y_num(r0.c as int, r0.s as int, r1.c as int, r1.s as int, r1.den as int, pl, dl) == (
        target.y - anchor.y) * (r0.den * r1.den),
{
    let dx = target.x - anchor.x;
    let dy = target.y - anchor.y;
    let d2 = dist_sq(anchor, target);
    let b = b_floor(anchor, target);
    assert(d2 == dx * dx + dy * dy);
    assert(d2 > 0) by {
        lemma_sq_nonneg(dx);
        lemma_sq_nonneg(dy);
    }
    assert(1 <= b) by {
        if b <= 0 {
            lemma_sqrt_floor_works(d2);
            assert(d2 < (b + 1) * (b + 1));
            assert(0 <= b);
            assert(b == 0);
            assert(d2 < 1);
        }
    }
    // The distance is exact, so `b` really is the hypotenuse and `b <= pl + dl`.
    assert(b <= pl + dl) by (nonlinear_arith)
        requires
            b * b == d2,
            d2 <= (pl + dl) * (pl + dl),
            1 <= b,
            1 <= pl,
            1 <= dl,
    ;
    // Both law-of-cosines ratios already lie in the unit interval: the
    // clamp leaves them alone.
    let na_raw = d2 + pl * pl - dl * dl;
    let nb_raw = dl * dl + pl * pl - d2;
    assert(-(2 * b * pl) <= na_raw <= 2 * b * pl) by (nonlinear_arith)
        requires
            na_raw == d2 + pl * pl - dl * dl,
            d2 == b * b,
            pl - dl <= b,
            b <= pl + dl,
            dl <= b + pl,
            1 <= b,
            1 <= pl,
            1 <= dl,
    ;
    assert(-(2 * dl * pl) <= nb_raw <= 2 * dl * pl) by (nonlinear_arith)
        requires
            nb_raw == dl * dl + pl * pl - d2,
            d2 == b * b,
            dl - pl <= b,
            pl - dl <= b,
            b <= pl + dl,
            1 <= b,
            1 <= pl,
            1 <= dl,
    ;
    assert(alpha_den(anchor, target, pl) == 2 * b * pl);
    assert(alpha_cos(anchor, target, pl, dl) == na_raw);
    assert(beta_cos(anchor, target, pl, dl) == nb_raw);
    // The bearing cosine is exactly `dy`.
    assert(b * b - dx * dx == dy * dy);
    lemma_sqrt_floor_square(dy);
    assert(bearing_cos(anchor, target) == dy);
    // The sines are non-negative square roots.
    let sa = alpha_sin(anchor, target, pl, dl);
    let sb = beta_sin(anchor, target, pl, dl);
    assert(0 <= sa && 0 <= sb) by {
        assert(na_raw * na_raw <= (2 * b * pl) * (2 * b * pl)) by (nonlinear_arith)
            requires
                -(2 * b * pl) <= na_raw <= 2 * b * pl,
                0 <= 2 * b * pl,
        ;
        assert(nb_raw * nb_raw <= (2 * dl * pl) * (2 * dl * pl)) by (nonlinear_arith)
            requires
                -(2 * dl * pl) <= nb_raw <= 2 * dl * pl,
                0 <= 2 * dl * pl,
        ;
        lemma_sqrt_floor_works(
            alpha_den(anchor, target, pl) * alpha_den(anchor, target, pl) - na_raw * na_raw,
        );
        lemma_sqrt_floor_works(beta_den(pl, dl) * beta_den(pl, dl) - nb_raw * nb_raw);
    }
    lemma_round_trip(dx, dy, b, pl, dl, sa, sb);
    assert(r0.c == dx * na_raw + dy * sa);
    assert(r0.s == dy * na_raw - dx * sa);
    assert(r1.c == -nb_raw);
    assert(r1.s == sb);
    assert(r1.den == 2 * dl * pl);
    assert(r0.den == b * (2 * b * pl));
}

/// Max-reach boundary: when the target sits exactly at distance
/// `proximal + distal`, the distal joint comes out fully extended (angle
/// zero: cosine equal to the denominator, sine zero) and the foot lands
/// exactly on the target, which is the point of the anchor-to-target ray at
/// distance `proximal + distal`.
pub proof fn lemma_max_reach_boundary(anchor: Vec2, target: Vec2, pl: int, dl: int, r0: Rot, r1: Rot)
    requires
        solve_post(anchor, target, pl, dl, r0, r1),
        1 <= pl,
        1 <= dl,
        dist_sq(anchor, target) == (pl + dl) * (pl + dl),
        target.y >= anchor.y,
    ensures
        r1.c == r1.den,
        r1.s == 0,
        foot_x_num(r0.c as int, r0.s as int, r1.c as int, r1.s as int, r1.den as int, pl, dl) == (
        target.x - anchor.x) * (r0.den * r1.den),
        foot_y_num(r0.c as int, r0.s as int, r1.c as int, r1.s as int, r1.den as int, pl, dl) == (
        target.y - anchor.y) * (r0.den * r1.den),
{
    let d2 = dist_sq(anchor, target);
    assert(1 <= pl + dl);
    lemma_sqrt_floor_square(pl + dl);
    let b = b_floor(anchor, target);
    assert(b == pl + dl);
    assert(d2 > 0) by (nonlinear_arith)
        requires
            d2 == (pl + dl) * (pl + dl),
            1 <= pl + dl,
    ;
    assert(!target_unreachable(anchor, target, pl, dl));
    // The knee ratio pins to the lower clamp bound: a straight knee.
    let nb_raw = dl * dl + pl * pl - d2;
    assert(nb_raw == -(2 * dl * pl)) by (nonlinear_arith)
        requires
            nb_raw == dl * dl + pl * pl - d2,
            d2 == (pl + dl) * (pl + dl),
    ;
    assert(1 <= 2 * dl * pl) by (nonlinear_arith)
        requires
            1 <= dl,
            1 <= pl,
    ;
    assert(beta_cos(anchor, target, pl, dl) == -(2 * dl * pl));
    assert(beta_den(pl, dl) * beta_den(pl, dl) - beta_cos(anchor, target, pl, dl) * beta_cos(
        anchor,
        target,
        pl,
        dl,
    ) == 0) by (nonlinear_arith)
        requires
            beta_cos(anchor, target, pl, dl) == -(2 * dl * pl),
            beta_den(pl, dl) == 2 * dl * pl,
    ;
    lemma_sqrt_floor_square(0);
    assert(beta_sin(anchor, target, pl, dl) == sqrt_floor(0) * 1) by (nonlinear_arith)
        requires
            beta_sin(anchor, target, pl, dl) == sqrt_floor(
                beta_den(pl, dl) * beta_den(pl, dl) - beta_cos(anchor, target, pl, dl) * beta_cos(
                    anchor,
                    target,
                    pl,
                    dl,
                ),
            ),
            beta_den(pl, dl) * beta_den(pl, dl) - beta_cos(anchor, target, pl, dl) * beta_cos(
                anchor,
                target,
                pl,
                dl,
            ) == 0,
    ;
    assert(r1.c == r1.den);
    assert(r1.s == 0);
    // The anchor ratio pins to the upper clamp bound: the proximal segment
    // lies on the bearing, and the round-trip law applies with both sines
    // exactly zero.
    let na_raw = d2 + pl * pl - dl * dl;
    assert(na_raw == 2 * b * pl) by (nonlinear_arith)
        requires
            na_raw == d2 + pl * pl - dl * dl,
            d2 == (pl + dl) * (pl + dl),
            b == pl + dl,
    ;
    assert(1 <= 2 * b * pl) by (nonlinear_arith)
        requires
            1 <= b,
            1 <= pl,
    ;
    assert(alpha_cos(anchor, target, pl, dl) == 2 * b * pl);
    assert(alpha_den(anchor, target, pl) * alpha_den(anchor, target, pl) - alpha_cos(
        anchor,
        target,
        pl,
        dl,
    ) * alpha_cos(anchor, target, pl, dl) == 0) by (nonlinear_arith)
        requires
            alpha_cos(anchor, target, pl, dl) == 2 * b * pl,
            alpha_den(anchor, target, pl) == 2 * b * pl,
    ;
    assert(alpha_sin(anchor, target, pl, dl) == sqrt_floor(0) * 1) by (nonlinear_arith)
        requires
            alpha_sin(anchor, target, pl, dl) == sqrt_floor(
                alpha_den(anchor, target, pl) * alpha_den(anchor, target, pl) - alpha_cos(
                    anchor,
                    target,
                    pl,
                    dl,
                ) * alpha_cos(anchor, target, pl, dl),
            ),
            alpha_den(anchor, target, pl) * alpha_den(anchor, target, pl) - alpha_cos(
                anchor,
                target,
                pl,
                dl,
            ) * alpha_cos(anchor, target, pl, dl) == 0,
    ;
    assert(alpha_sin(anchor, target, pl, dl) * alpha_sin(anchor, target, pl, dl) == alpha_den(
        anchor,
        target,
        pl,
    ) * alpha_den(anchor, target, pl) - alpha_cos(anchor, target, pl, dl) * alpha_cos(
        anchor,
        target,
        pl,
        dl,
    ));
    assert(beta_sin(anchor, target, pl, dl) * beta_sin(anchor, target, pl, dl) == beta_den(pl, dl)
        * beta_den(pl, dl) - beta_cos(anchor, target, pl, dl) * beta_cos(anchor, target, pl, dl));
    assert(dl <= b + pl && pl <= b + dl);
    lemma_solve_round_trip(anchor, target, pl, dl, r0, r1);
}

/// Unreachable stability: past maximum reach the distal joint is exactly the
/// identity, every output is a plain bounded integer, the proximal rotation
/// is exactly the anchor-to-target direction vector (in every quadrant), and
/// the foot that forward kinematics computes sits at full extension along
/// that direction: `reach * (dx, dy) / r0.den`.
pub proof fn lemma_unreachable_full_extension(anchor: Vec2, target: Vec2, pl: int, dl: int, r0: Rot, r1: Rot)
    requires
        solve_post(anchor, target, pl, dl, r0, r1),
        target_unreachable(anchor, target, pl, dl),
    ensures
        r1.c == 1 && r1.s == 0 && r1.den == 1,
        r0.c == target.x - anchor.x,
        r0.s == target.y - anchor.y,
        foot_x_num(r0.c as int, r0.s as int, r1.c as int, r1.s as int, r1.den as int, pl, dl) == (
        target.x - anchor.x) * (pl + dl),
        foot_y_num(r0.c as int, r0.s as int, r1.c as int, r1.s as int, r1.den as int, pl, dl) == (
        target.y - anchor.y) * (pl + dl),
        // the distance is a whole number exactly when the denominator is it
        b_floor(anchor, target) * b_floor(anchor, target) == dist_sq(anchor, target) ==> r0.den
            == b_floor(anchor, target),
{
    assert(foot_x_num(r0.c as int, r0.s as int, 1, 0, 1, pl, dl) == r0.c * (dl + pl * 1) - r0.s * (0
        * dl));
    assert(r0.c * (dl + pl * 1) - r0.s * (0 * dl) == r0.c * (pl + dl)) by (nonlinear_arith);
    assert(foot_y_num(r0.c as int, r0.s as int, 1, 0, 1, pl, dl) == r0.s * (dl + pl * 1) + r0.c * (0
        * dl));
    assert(r0.s * (dl + pl * 1) + r0.c * (0 * dl) == r0.s * (pl + dl)) by (nonlinear_arith);
}

/// Rotations scale squared norms by exactly their own squared norm, so the
/// solver's annulus bounds carry over to the chain: the knee sits at the
/// proximal length from the anchor, and the foot at the distal length from
/// the knee, each scaled by its rotation's (near-unit) norm factor. Both
/// statements are exact identities over the forward-kinematics numerators.
pub proof fn lemma_fk_segment_lengths(r0: Rot, len0: int, r1: Rot, len1: int)
    ensures
        knee_x_num(r0.c as int, len0) * knee_x_num(r0.c as int, len0) + knee_y_num(
            r0.s as int,
            len0,
        ) * knee_y_num(r0.s as int, len0) == (r0.c * r0.c + r0.s * r0.s) * (len0 * len0),
        ({
            let fx = foot_x_num(r0.c as int, r0.s as int, r1.c as int, r1.s as int, r1.den as int, len0, len1);
            let fy = foot_y_num(r0.c as int, r0.s as int, r1.c as int, r1.s as int, r1.den as int, len0, len1);
            let kx = knee_x_num(r0.c as int, len0) * r1.den;
            let ky = knee_y_num(r0.s as int, len0) * r1.den;
            (fx - kx) * (fx - kx) + (fy - ky) * (fy - ky) == (r0.c * r0.c + r0.s * r0.s) * ((r1.c
                * r1.c + r1.s * r1.s) * (len1 * len1))
        }),
{
    let c0 = r0.c as int;
    let s0 = r0.s as int;
    let c1 = r1.c as int;
    let s1 = r1.s as int;
    let den1 = r1.den as int;
    assert(c0 * len0 * (c0 * len0) + s0 * len0 * (s0 * len0) == (c0 * c0 + s0 * s0) * (len0 * len0))
        by (nonlinear_arith);
    // the foot offset from the (scaled) knee is the distal segment rotated
    // by both joints
    let u = c1 * len1;
    let v = s1 * len1;
    let fx = foot_x_num(c0, s0, c1, s1, den1, len0, len1);
    let fy = foot_y_num(c0, s0, c1, s1, den1, len0, len1);
    assert(fx - c0 * len0 * den1 == c0 * u - s0 * v) by (nonlinear_arith)
        requires
            fx == c0 * (c1 * len1 + len0 * den1) - s0 * (s1 * len1),
            u == c1 * len1,
            v == s1 * len1,
    ;
    assert(fy - s0 * len0 * den1 == s0 * u + c0 * v) by (nonlinear_arith)
        requires
            fy == s0 * (c1 * len1 + len0 * den1) + c0 * (s1 * len1),
            u == c1 * len1,
            v == s1 * len1,
    ;
    lemma_lagrange(c0, -s0, u, v);
    assert((c0 * u + (-s0) * v) == c0 * u - s0 * v) by (nonlinear_arith);
    assert(((-s0) * u - c0 * v) * ((-s0) * u - c0 * v) == (s0 * u + c0 * v) * (s0 * u + c0 * v))
        by (nonlinear_arith);
    assert(c0 * c0 + (-s0) * (-s0) == c0 * c0 + s0 * s0) by (nonlinear_arith);
    assert((c0 * u - s0 * v) * (c0 * u - s0 * v) + (s0 * u + c0 * v) * (s0 * u + c0 * v) == (c0
        * c0 + s0 * s0) * (u * u + v * v));
    assert(u * u + v * v == (c1 * c1 + s1 * s1) * (len1 * len1)) by (nonlinear_arith)
        requires
            u == c1 * len1,
            v == s1 * len1,
    ;
}

} // verus!
