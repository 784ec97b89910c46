use limb_ik::geom::{Rot, Vec2};
use limb_ik::limb::{
    Body, Joint, Limb, LimbState, forward_kinematics_local, retarget, simulate, update_joint_angles,
    update_limbs,
};
use limb_ik::solver::IkError;

fn v(x: i64, y: i64) -> Vec2 {
    Vec2 { x, y }
}

fn limb_with(target: Vec2, proximal_len: i64, distal_len: i64) -> Limb {
    Limb {
        joint0: Joint { rot: Rot { c: 1, s: 0, den: 1 }, len: proximal_len },
        joint1: Joint { rot: Rot { c: 1, s: 0, den: 1 }, len: distal_len },
        state: LimbState::Grounded,
        target_pos: target,
    }
}

#[test]
fn retarget_moves_target_beyond_reach() {
    // reach 140, target at distance 150: replaced by centre + offset
    let t = retarget(v(0, 0), v(0, 150), 80, 60, v(80, 100));
    assert_eq!(t, v(80, 100));
}

#[test]
fn retarget_keeps_target_within_reach() {
    // distance 100 <= 140: unchanged
    let t = retarget(v(0, 0), v(0, 100), 80, 60, v(80, 100));
    assert_eq!(t, v(0, 100));
    // distance exactly 140 is still within reach
    let t = retarget(v(0, 0), v(0, 140), 80, 60, v(80, 100));
    assert_eq!(t, v(0, 140));
}

#[test]
fn retarget_is_relative_to_moved_center() {
    let t = retarget(v(200, 0), v(0, 0), 80, 60, v(80, 100));
    assert_eq!(t, v(280, 100));
}

#[test]
fn update_joint_angles_stores_solution() {
    let mut limb = limb_with(v(0, 140), 80, 60);
    let res = update_joint_angles(v(0, 0), &mut limb);
    assert_eq!(res, Ok(()));
    assert_eq!(limb.joint1.rot, Rot { c: 9600, s: 0, den: 9600 });
    assert_eq!(limb.joint0.rot, Rot { c: 0, s: 3136000, den: 3136000 });
    assert_eq!(limb.joint0.len, 80);
    assert_eq!(limb.joint1.len, 60);
    assert_eq!(limb.state, LimbState::Grounded);
}

#[test]
fn update_joint_angles_keeps_pose_on_degenerate_target() {
    let before = limb_with(v(3, 4), 80, 60);
    let mut limb = before;
    let res = update_joint_angles(v(3, 4), &mut limb);
    assert_eq!(res, Err(IkError::DegenerateTarget));
    assert_eq!(limb, before);
}

#[test]
fn update_limbs_retargets_then_solves() {
    let mut body = Body {
        center: v(0, 0),
        limb_target_offset: v(80, 100),
        limbs: vec![limb_with(v(0, 150), 80, 60), limb_with(v(0, 100), 80, 60)],
    };
    update_limbs(&mut body);
    // first limb: 150 > reach 140, so its target moved to centre + offset
    assert_eq!(body.limbs[0].target_pos, v(80, 100));
    // second limb: within reach, target kept
    assert_eq!(body.limbs[1].target_pos, v(0, 100));
    // both limbs were solved toward their targets
    assert!(body.limbs[0].joint0.rot != Rot { c: 1, s: 0, den: 1 });
    assert!(body.limbs[1].joint0.rot != Rot { c: 1, s: 0, den: 1 });
    assert_eq!(body.center, v(0, 0));
    assert_eq!(body.limb_target_offset, v(80, 100));
}

#[test]
fn simulate_advances_center_only() {
    let mut body = Body {
        center: v(10, 20),
        limb_target_offset: v(80, 100),
        limbs: vec![limb_with(v(0, 100), 80, 60)],
    };
    simulate(&mut body, v(1, 0));
    assert_eq!(body.center, v(11, 20));
    assert_eq!(body.limbs[0], limb_with(v(0, 100), 80, 60));
    simulate(&mut body, v(-5, 3));
    assert_eq!(body.center, v(6, 23));
}

#[test]
fn forward_kinematics_local_matches_pose() {
    // proximal a quarter turn, distal straight: knee above the anchor,
    // foot directly above the knee
    let limb = Limb {
        joint0: Joint { rot: Rot { c: 0, s: 1, den: 1 }, len: 80 },
        joint1: Joint { rot: Rot { c: 1, s: 0, den: 1 }, len: 60 },
        state: LimbState::Moving,
        target_pos: v(0, 140),
    };
    let (knee, foot) = forward_kinematics_local(&limb);
    assert_eq!(knee.x, 0);
    assert_eq!(knee.y, 80 * knee.den);
    assert_eq!(foot.x, 0);
    assert_eq!(foot.y, 140 * foot.den);
}

#[test]
fn limb_state_is_carried_through_unchanged() {
    let mut body = Body {
        center: v(0, 0),
        limb_target_offset: v(80, 100),
        limbs: vec![
            Limb { state: LimbState::Moving, ..limb_with(v(0, 150), 80, 60) },
            Limb { state: LimbState::Grounded, ..limb_with(v(0, 100), 80, 60) },
        ],
    };
    update_limbs(&mut body);
    assert_eq!(body.limbs[0].state, LimbState::Moving);
    assert_eq!(body.limbs[1].state, LimbState::Grounded);
}

#[test]
fn retarget_onto_center_skips_solve() {
    // a zero offset retargets the out-of-reach target onto the centre
    // itself; that is degenerate, so the tick keeps the previous pose
    let before = limb_with(v(0, 150), 80, 60);
    let mut body = Body {
        center: v(0, 0),
        limb_target_offset: v(0, 0),
        limbs: vec![before],
    };
    update_limbs(&mut body);
    assert_eq!(body.limbs[0].target_pos, v(0, 0));
    assert_eq!(body.limbs[0].joint0.rot, before.joint0.rot);
    assert_eq!(body.limbs[0].joint1.rot, before.joint1.rot);
}
