//! Joints, limbs and the body: the reach-limited retarget policy and the
//! per-tick update step that ties it to the solver.

use vstd::prelude::*;

use crate::geom::{RatPoint, Rot, Vec2, evaluate, foot_x_num, foot_y_num, knee_x_num, knee_y_num};
use crate::num::{COORD_LIMIT, LEN_LIMIT, lemma_mul_bound};
use crate::solver::{IkError, dist_sq, reach, solve, solve_post, target_degenerate, target_unreachable};

verus! {

/// Whether a foot is planted or mid-step. Stored with the limb and carried
/// through updates unchanged: no transition rule is defined here.
#[derive(Clone, Copy, Debug, PartialEq, Eq, Structural)]
pub enum LimbState {
    Grounded,
    Moving,
}

/// One joint: a fixed segment (bone) length and the joint's current
/// rotation.
#[derive(Clone, Copy, Debug, PartialEq, Eq, Structural)]
pub struct Joint {
    pub rot: Rot,
    pub len: i64,
}

impl Joint {
    pub open spec fn wf(self) -> bool {
        &&& self.rot.wf()
        &&& 1 <= self.len <= LEN_LIMIT
    }
}

/// A two-segment limb: proximal joint at the body, distal joint at the knee,
/// a world-space foot target, and the inert step state.
#[derive(Clone, Copy, Debug, PartialEq, Eq, Structural)]
pub struct Limb {
    pub joint0: Joint,
    pub joint1: Joint,
    pub state: LimbState,
    pub target_pos: Vec2,
}

impl Limb {
    pub open spec fn wf(self) -> bool {
        &&& self.joint0.wf()
        &&& self.joint1.wf()
        &&& self.target_pos.wf()
    }
}

/// The body: a centre the locomotion driver moves, its limbs, and the fixed
/// offset from the centre at which a fresh target is planted.
#[derive(Debug)]
pub struct Body {
    pub center: Vec2,
    pub limbs: Vec<Limb>,
    pub limb_target_offset: Vec2,
}

impl Body {
    pub open spec fn wf(self) -> bool {
        &&& self.center.wf()
        &&& self.limb_target_offset.wf()
        &&& forall|i: int| 0 <= i < self.limbs@.len() ==> (#[trigger] self.limbs@[i]).wf()
    }

    /// A retargeted foot point would still lie in the world box.
    pub open spec fn offset_in_range(self) -> bool {
        &&& -COORD_LIMIT <= self.center.x + self.limb_target_offset.x <= COORD_LIMIT
        &&& -COORD_LIMIT <= self.center.y + self.limb_target_offset.y <= COORD_LIMIT
    }
}

/// The retarget policy moves the target: it lies strictly beyond the
/// chain's maximum reach from the body centre.
pub open spec fn needs_retarget(center: Vec2, target: Vec2, proximal_len: int, distal_len: int) -> bool {
    dist_sq(center, target) > reach(proximal_len, distal_len) * reach(proximal_len, distal_len)
}

/// Reach-limited retargeting: a target beyond the chain's maximum reach is
/// replaced by `center + offset`; any other target is kept.
pub fn retarget(center: Vec2, target: Vec2, proximal_len: i64, distal_len: i64, offset: Vec2) -> (t: Vec2)
    requires
        center.wf(),
        target.wf(),
        1 <= proximal_len <= LEN_LIMIT,
        1 <= distal_len <= LEN_LIMIT,
        -COORD_LIMIT <= center.x + offset.x <= COORD_LIMIT,
        -COORD_LIMIT <= center.y + offset.y <= COORD_LIMIT,
    ensures
        needs_retarget(center, target, proximal_len as int, distal_len as int) ==> t == (Vec2 {
            x: (center.x + offset.x) as i64,
            y: (center.y + offset.y) as i64,
        }),
        !needs_retarget(center, target, proximal_len as int, distal_len as int) ==> t == target,
        t.wf(),
{
    let dx: i64 = target.x - center.x;
    let dy: i64 = target.y - center.y;
    proof {
        lemma_mul_bound(dx as int, dx as int, 131072, 131072);
        lemma_mul_bound(dy as int, dy as int, 131072, 131072);
    }
    let d2: i64 = dx * dx + dy * dy;
    let total: i64 = proximal_len + distal_len;
    proof {
        lemma_mul_bound(total as int, total as int, 131072, 131072);
    }
    if d2 > total * total {
        Vec2 { x: center.x + offset.x, y: center.y + offset.y }
    } else {
        target
    }
}

/// Run the solver for one limb and store the resulting joint rotations.
/// A degenerate target leaves the previous rotations untouched, so a failed
/// tick never corrupts the pose.
pub fn update_joint_angles(body_pos: Vec2, limb: &mut Limb) -> (res: Result<(), IkError>)
    requires
        old(limb).wf(),
        body_pos.wf(),
    ensures
        final(limb).joint0.len == old(limb).joint0.len,
        final(limb).joint1.len == old(limb).joint1.len,
        final(limb).state == old(limb).state,
        final(limb).target_pos == old(limb).target_pos,
        final(limb).wf(),
        match res {
            Ok(u) => !target_degenerate(body_pos, old(limb).target_pos) && solve_post(
                body_pos,
                old(limb).target_pos,
                old(limb).joint0.len as int,
                old(limb).joint1.len as int,
                final(limb).joint0.rot,
                final(limb).joint1.rot,
            ),
            Err(e) => target_degenerate(body_pos, old(limb).target_pos) && e
                == IkError::DegenerateTarget && *final(limb) == *old(limb),
        },
{
    match solve(body_pos, limb.target_pos, limb.joint0.len, limb.joint1.len) {
        Ok(rots) => {
            limb.joint0.rot = rots.0;
            limb.joint1.rot = rots.1;
            Ok(())
        },
        Err(e) => Err(e),
    }
}

/// What one tick does to one limb: the retarget policy first, then the
/// solver against the (possibly fresh) target; a degenerate target skips
/// the solve and keeps the previous rotations.
pub open spec fn limb_updated(center: Vec2, before: Limb, offset: Vec2, after: Limb) -> bool {
    let retargeted = needs_retarget(
        center,
        before.target_pos,
        before.joint0.len as int,
        before.joint1.len as int,
    );
    &&& after.joint0.len == before.joint0.len
    &&& after.joint1.len == before.joint1.len
    &&& after.state == before.state
    &&& retargeted ==> after.target_pos == (Vec2 {
        x: (center.x + offset.x) as i64,
        y: (center.y + offset.y) as i64,
    })
    &&& !retargeted ==> after.target_pos == before.target_pos
    &&& if target_degenerate(center, after.target_pos) {
        after.joint0.rot == before.joint0.rot && after.joint1.rot == before.joint1.rot
    } else {
        solve_post(
            center,
            after.target_pos,
            before.joint0.len as int,
            before.joint1.len as int,
            after.joint0.rot,
            after.joint1.rot,
        )
    }
}

/// One tick for one limb: retarget, then solve.
pub fn update_limb(center: Vec2, limb: &mut Limb, offset: Vec2)
    requires
        old(limb).wf(),
        center.wf(),
        -COORD_LIMIT <= center.x + offset.x <= COORD_LIMIT,
        -COORD_LIMIT <= center.y + offset.y <= COORD_LIMIT,
    ensures
        limb_updated(center, *old(limb), offset, *final(limb)),
        final(limb).wf(),
{
    let t = retarget(center, limb.target_pos, limb.joint0.len, limb.joint1.len, offset);
    limb.target_pos = t;
    // a degenerate target means a skipped update, not a failed tick
    let _ = update_joint_angles(center, limb);
}

/// One simulation tick for the whole body: every limb is retargeted and
/// re-solved against the current centre, independently.
pub fn update_limbs(body: &mut Body)
    requires
        old(body).wf(),
        old(body).offset_in_range(),
    ensures
        final(body).center == old(body).center,
        final(body).limb_target_offset == old(body).limb_target_offset,
        final(body).limbs@.len() == old(body).limbs@.len(),
        forall|i: int|
            0 <= i < old(body).limbs@.len() ==> limb_updated(
                old(body).center,
                old(body).limbs@[i],
                old(body).limb_target_offset,
                #[trigger] final(body).limbs@[i],
            ),
        final(body).wf(),
        final(body).offset_in_range(),
{
    let center = body.center;
    let offset = body.limb_target_offset;
    let n: usize = body.limbs.len();
    let mut updated: Vec<Limb> = Vec::new();
    let mut i: usize = 0;
    while i < n
        invariant
            i <= n,
            n == body.limbs@.len(),
            updated@.len() == i as int,
            body.wf(),
            center == body.center,
            offset == body.limb_target_offset,
            -COORD_LIMIT <= center.x + offset.x <= COORD_LIMIT,
            -COORD_LIMIT <= center.y + offset.y <= COORD_LIMIT,
            forall|j: int|
                0 <= j < i as int ==> limb_updated(
                    center,
                    body.limbs@[j],
                    offset,
                    #[trigger] updated@[j],
                ),
            forall|j: int| 0 <= j < i as int ==> (#[trigger] updated@[j]).wf(),
        decreases n - i,
    {
        let mut l: Limb = body.limbs[i];
        update_limb(center, &mut l, offset);
        updated.push(l);
        i = i + 1;
    }
    body.limbs = updated;
}

/// Advance the body centre by an externally supplied displacement (the
/// locomotion velocity integrated over the tick). Limbs and offset are
/// untouched.
pub fn simulate(body: &mut Body, delta: Vec2)
    requires
        old(body).wf(),
        -COORD_LIMIT <= old(body).center.x + delta.x <= COORD_LIMIT,
        -COORD_LIMIT <= old(body).center.y + delta.y <= COORD_LIMIT,
    ensures
        final(body).center.x == old(body).center.x + delta.x,
        final(body).center.y == old(body).center.y + delta.y,
        final(body).limbs == old(body).limbs,
        final(body).limb_target_offset == old(body).limb_target_offset,
        final(body).wf(),
{
    let cx: i64 = body.center.x + delta.x;
    let cy: i64 = body.center.y + delta.y;
    body.center = Vec2 { x: cx, y: cy };
}

/// Forward kinematics of a limb in body-local space (anchor at the origin):
/// the knee and foot positions its current joint rotations produce.
pub fn forward_kinematics_local(limb: &Limb) -> (res: (RatPoint, RatPoint))
    requires
        limb.wf(),
    ensures
        ({
            let (knee, foot) = res;
            &&& knee.den == limb.joint0.rot.den
            &&& knee.x == knee_x_num(limb.joint0.rot.c as int, limb.joint0.len as int)
            &&& knee.y == knee_y_num(limb.joint0.rot.s as int, limb.joint0.len as int)
            &&& foot.den == limb.joint0.rot.den * limb.joint1.rot.den
            &&& foot.x == foot_x_num(
                limb.joint0.rot.c as int,
                limb.joint0.rot.s as int,
                limb.joint1.rot.c as int,
                limb.joint1.rot.s as int,
                limb.joint1.rot.den as int,
                limb.joint0.len as int,
                limb.joint1.len as int,
            )
            &&& foot.y == foot_y_num(
                limb.joint0.rot.c as int,
                limb.joint0.rot.s as int,
                limb.joint1.rot.c as int,
                limb.joint1.rot.s as int,
                limb.joint1.rot.den as int,
                limb.joint0.len as int,
                limb.joint1.len as int,
            )
            &&& 1 <= knee.den
            &&& 1 <= foot.den
        }),
{
    evaluate(
        Vec2 { x: 0, y: 0 },
        limb.joint0.rot,
        limb.joint0.len,
        limb.joint1.rot,
        limb.joint1.len,
    )
}

} // verus!
