use limb_ik::geom::{Rot, Vec2, evaluate, rot_identity, rot_new_checked};
use limb_ik::num::{clamp_unit, isqrt, sin_from_cos};
use limb_ik::solver::{IkError, cos_ratio_checked, solve};

fn v(x: i64, y: i64) -> Vec2 {
    Vec2 { x, y }
}

#[test]
fn isqrt_small_values() {
    assert_eq!(isqrt(0), 0);
    assert_eq!(isqrt(1), 1);
    assert_eq!(isqrt(2), 1);
    assert_eq!(isqrt(3), 1);
    assert_eq!(isqrt(4), 2);
    assert_eq!(isqrt(19600), 140);
    assert_eq!(isqrt(19881), 141);
    assert_eq!(isqrt(19882), 141);
}

#[test]
fn clamp_leaves_in_range_ratios_alone() {
    assert_eq!(clamp_unit(50, 100), 50);
    assert_eq!(clamp_unit(-100, 100), -100);
    assert_eq!(clamp_unit(100, 100), 100);
}

#[test]
fn clamp_pulls_escaped_ratios_back() {
    // a ratio of exactly 1 + 1e-12 still comes out as a valid cosine
    assert_eq!(clamp_unit(1_000_000_000_001, 1_000_000_000_000), 1_000_000_000_000);
    assert_eq!(clamp_unit(-1_000_000_000_001, 1_000_000_000_000), -1_000_000_000_000);
}

#[test]
fn unclamped_domain_check_reports_not_a_number() {
    assert_eq!(cos_ratio_checked(1_000_000_000_001, 1_000_000_000_000), Err(IkError::NotANumber));
    assert_eq!(cos_ratio_checked(-101, 100), Err(IkError::NotANumber));
    assert_eq!(cos_ratio_checked(100, 100), Ok(100));
}

#[test]
fn sine_complements_cosine() {
    assert_eq!(sin_from_cos(0, 100), 100);
    assert_eq!(sin_from_cos(100, 100), 0);
    assert_eq!(sin_from_cos(-100, 100), 0);
    assert_eq!(sin_from_cos(60, 100), 80);
    assert_eq!(sin_from_cos(-60, 100), 80);
}

#[test]
fn zero_distance_target_is_rejected() {
    assert_eq!(solve(v(5, 7), v(5, 7), 80, 60), Err(IkError::DegenerateTarget));
    assert_eq!(solve(v(0, 0), v(0, 0), 1, 1), Err(IkError::DegenerateTarget));
}

#[test]
fn max_reach_scenario_straight_up() {
    // anchor (0,0), target (0,140), proximal 80, distal 60: the distance is
    // exactly the maximum reach, the distal joint is fully extended, and the
    // foot lands exactly on the target.
    let (r0, r1) = solve(v(0, 0), v(0, 140), 80, 60).unwrap();
    assert_eq!(r1, Rot { c: 9600, s: 0, den: 9600 });
    assert_eq!(r0, Rot { c: 0, s: 3136000, den: 3136000 });
    let (knee, foot) = evaluate(v(0, 0), r0, 80, r1, 60);
    assert_eq!(knee.x, 0);
    assert_eq!(knee.y, 80 * knee.den);
    assert_eq!(foot.x, 0);
    assert_eq!(foot.y, 140 * foot.den);
}

#[test]
fn round_trip_exact_right_triangle() {
    // proximal 40, distal 30, target at distance 50 straight up: every
    // square root is exact and the foot returns to the target exactly.
    let (r0, r1) = solve(v(0, 0), v(0, 50), 40, 30).unwrap();
    assert_eq!(r0, Rot { c: 120000, s: 160000, den: 200000 });
    assert_eq!(r1, Rot { c: 0, s: 2400, den: 2400 });
    let (knee, foot) = evaluate(v(0, 0), r0, 40, r1, 30);
    // knee at (24, 32): 40 from the anchor, 30 from the target
    assert_eq!(knee.x, 24 * knee.den);
    assert_eq!(knee.y, 32 * knee.den);
    assert_eq!(foot.x, 0);
    assert_eq!(foot.y, 50 * foot.den);
}

#[test]
fn round_trip_exact_oblique_target() {
    let (r0, r1) = solve(v(0, 0), v(30, 40), 40, 30).unwrap();
    assert_eq!(r0, Rot { c: 192000, s: 56000, den: 200000 });
    assert_eq!(r1, Rot { c: 0, s: 2400, den: 2400 });
    let (_knee, foot) = evaluate(v(0, 0), r0, 40, r1, 30);
    assert_eq!(foot.x, 30 * foot.den);
    assert_eq!(foot.y, 40 * foot.den);
}

#[test]
fn round_trip_translated_anchor() {
    let (r0, r1) = solve(v(100, 200), v(130, 240), 40, 30).unwrap();
    let (_knee, foot) = evaluate(v(100, 200), r0, 40, r1, 30);
    assert_eq!(foot.x, 130 * foot.den);
    assert_eq!(foot.y, 240 * foot.den);
}

#[test]
fn unreachable_target_fully_extends() {
    // target one unit beyond maximum reach: angles stay finite, the distal
    // joint is exactly the identity, and the chain points at the target.
    let (r0, r1) = solve(v(0, 0), v(0, 141), 80, 60).unwrap();
    assert_eq!(r1, Rot { c: 1, s: 0, den: 1 });
    assert_eq!(r0, Rot { c: 0, s: 141, den: 141 });
    let (_knee, foot) = evaluate(v(0, 0), r0, 80, r1, 60);
    // the foot sits on the anchor-to-target ray at distance 140
    assert_eq!(foot.x, 0);
    assert_eq!(foot.y * 141, 140 * 141 * foot.den);
}

#[test]
fn clamp_fires_inside_the_solver() {
    // distance floor(sqrt(52)) = 7 makes the alpha ratio 100/98, just past
    // 1: the clamp pins it, and the solve still yields valid rotations with
    // non-negative sines instead of failing.
    let (r0, r1) = solve(v(0, 0), v(4, 6), 7, 1).unwrap();
    assert_eq!(r0, Rot { c: 392, s: 490, den: 686 });
    assert_eq!(r1, Rot { c: 2, s: 13, den: 14 });
    assert!(r0.c * r0.c + r0.s * r0.s <= r0.den * r0.den);
    assert!(r1.c * r1.c + r1.s * r1.s <= r1.den * r1.den);
    assert!(r1.s >= 0);
}

#[test]
fn rot_checked_accepts_unit_pairs() {
    assert_eq!(rot_new_checked(60, 80, 100), Some(Rot { c: 60, s: 80, den: 100 }));
    assert_eq!(rot_new_checked(-100, 0, 100), Some(Rot { c: -100, s: 0, den: 100 }));
    assert_eq!(rot_identity(), Rot { c: 1, s: 0, den: 1 });
}

#[test]
fn rot_checked_rejects_stretching_pairs() {
    assert_eq!(rot_new_checked(80, 80, 100), None);
    assert_eq!(rot_new_checked(0, 0, 0), None);
    assert_eq!(rot_new_checked(101, 0, 100), None);
}

#[test]
fn composition_order_is_distal_then_proximal() {
    // two quarter turns: the distal segment is rotated inside the proximal
    // frame, so the foot ends at (-60, 80), not at (60, 80).
    let quarter = Rot { c: 0, s: 1, den: 1 };
    let (knee, foot) = evaluate(v(0, 0), quarter, 80, quarter, 60);
    assert_eq!(knee.x, 0);
    assert_eq!(knee.y, 80 * knee.den);
    assert_eq!(foot.x, -60 * foot.den);
    assert_eq!(foot.y, 80 * foot.den);
}

#[test]
fn unreachable_target_below_anchor_points_down() {
    // the unreachable bearing comes from the direction vector, never from
    // asin, so a target straight below the anchor extends the chain
    // straight down, not mirrored up
    let (r0, r1) = solve(v(0, 0), v(0, -141), 80, 60).unwrap();
    assert_eq!(r1, Rot { c: 1, s: 0, den: 1 });
    assert_eq!(r0, Rot { c: 0, s: -141, den: 141 });
    let (_knee, foot) = evaluate(v(0, 0), r0, 80, r1, 60);
    assert_eq!(foot.x, 0);
    assert_eq!(foot.y * 141, -140 * 141 * foot.den);
}

#[test]
fn unreachable_target_oblique_keeps_its_quadrant() {
    // distance 145 (a 3-4-5 multiple) beyond reach 140, into the lower-left
    // quadrant: the chain points exactly along (-87, -116)/145
    let (r0, r1) = solve(v(0, 0), v(-87, -116), 80, 60).unwrap();
    assert_eq!(r1, Rot { c: 1, s: 0, den: 1 });
    assert_eq!(r0, Rot { c: -87, s: -116, den: 145 });
    let (_knee, foot) = evaluate(v(0, 0), r0, 80, r1, 60);
    // foot at distance 140 along the anchor-to-target direction
    assert_eq!(foot.x * 145, -87 * 140 * foot.den);
    assert_eq!(foot.y * 145, -116 * 140 * foot.den);
}

#[test]
fn solver_rotations_stay_near_unit() {
    // the contract's annulus bounds: rounding may shrink a rotation, but
    // only within the stated slack
    let (r0, r1) = solve(v(0, 0), v(37, 95), 80, 60).unwrap();
    let n0 = r0.c * r0.c + r0.s * r0.s;
    let n1 = r1.c * r1.c + r1.s * r1.s;
    assert!(n0 <= r0.den * r0.den);
    assert!(n1 <= r1.den * r1.den);
    assert!(r1.den * r1.den - n1 <= 2 * r1.den);
    // b_floor(sqrt(37^2+95^2)) = floor(sqrt(10394)) = 101, alpha_den = 2*101*80
    let bf = 101;
    let den_a = 2 * bf * 80;
    assert_eq!(r0.den, bf * den_a);
    assert!(r0.den * r0.den - n0 <= 2 * r0.den * (bf + den_a));
}
