//! Verified two-segment limb kinematics for a 2D procedural-animation body.
//!
//! The library models world coordinates as bounded integers and joint angles
//! as scaled rational rotations `(cos, sin) / den`, so that the inverse- and
//! forward-kinematics of a two-joint chain, the reach-limited retargeting
//! policy, and the per-tick update step are all exact integer computations
//! with proved contracts.

pub mod num;
pub mod geom;
pub mod solver;
pub mod limb;
pub mod laws;
