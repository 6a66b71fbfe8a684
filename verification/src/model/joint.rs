//! Joints and their children.
use vstd::prelude::*;
use super::enums::{Handedness, JointType, PitchConvention};
use super::{Extension, Pose};

verus! {

#[derive(Debug, Clone, PartialEq, Default)]
pub struct Joint {
    pub name: Option<String>,
    pub type_: Option<JointType>,
    pub thread_pitch: Option<String>,
    pub pitch_convention: Option<PitchConvention>,
    pub handedness: Option<Handedness>,
    pub description: Option<String>,
    pub parent: Option<JointEndpoint>,
    pub child: Option<JointEndpoint>,
    pub origin: Option<Pose>,
    pub axis: Option<Axis>,
    pub axis2: Option<Axis>,
    /// `<limit2>`: limits for the second DOF (axis2) of a universal/revolute2 joint (SDF axis2/limit).
    pub limit2: Option<JointLimit>,
    /// `<dynamics2>`: dynamics for the second DOF (axis2) (SDF axis2/dynamics).
    pub dynamics2: Option<JointDynamics>,
    pub limit: Option<JointLimit>,
    /// `<swing_limit>`: ball-joint swing-cone half-angles (radians; circular or elliptic). Ball-only.
    pub swing_limit: Option<SwingLimit>,
    /// `<twist_limit>`: ball-joint twist bound (rotation about the twist axis, radians). Ball-only.
    pub twist_limit: Option<JointLimit>,
    pub dynamics: Option<JointDynamics>,
    pub calibration: Option<JointCalibration>,
    pub mimic: Option<Mimic>,
    /// `<loop>`.
    pub loop_: Option<LoopClosure>,
    pub extension: Option<Extension>,
    pub urdf_compat: Option<UrdfCompatJoint>,
}

/// `<parent comp=>` / `<child comp=>` (same shape).
#[derive(Debug, Clone, PartialEq, Default)]
pub struct JointEndpoint {
    pub comp: Option<String>,
}

/// `<axis xyz=>`.
#[derive(Debug, Clone, PartialEq, Default)]
pub struct Axis {
    pub xyz: Option<String>,
}

/// `<limit lower= upper= effort= velocity= acceleration= jerk= deceleration=>`.
#[derive(Debug, Clone, PartialEq, Default)]
pub struct JointLimit {
    pub lower: Option<String>,
    pub upper: Option<String>,
    pub effort: Option<String>,
    pub velocity: Option<String>,
    pub acceleration: Option<String>,
    pub jerk: Option<String>,
    pub deceleration: Option<String>,
}

/// `<swing_limit swing1= swing2= effort= velocity=>`: a ball joint's swing-cone (half-angles in
/// radians). `swing1 == swing2` (or `swing2` omitted) => circular cone; unequal => elliptic cone.
/// Maps to Bullet `btConeTwistConstraint`, USD spherical cone, MuJoCo scalar cone.
#[derive(Debug, Clone, PartialEq, Default)]
pub struct SwingLimit {
    pub swing1: Option<String>,
    pub swing2: Option<String>,
    pub effort: Option<String>,
    pub velocity: Option<String>,
}

/// `<dynamics damping= friction= spring_stiffness= spring_reference=>`.
#[derive(Debug, Clone, PartialEq, Default)]
pub struct JointDynamics {
    pub damping: Option<String>,
    pub friction: Option<String>,
    pub spring_stiffness: Option<String>,
    pub spring_reference: Option<String>,
}

/// `<calibration reference_position= rising= falling=>`.
#[derive(Debug, Clone, PartialEq, Default)]
pub struct JointCalibration {
    pub reference_position: Option<String>,
    pub rising: Option<String>,
    pub falling: Option<String>,
}

/// `<mimic joint= multiplier= offset=>`.
#[derive(Debug, Clone, PartialEq, Default)]
pub struct Mimic {
    pub joint: Option<String>,
    pub multiplier: Option<String>,
    pub offset: Option<String>,
}

/// `<loop>`: predecessor/successor/constraint-axes (text element children).
#[derive(Debug, Clone, PartialEq, Default)]
pub struct LoopClosure {
    pub predecessor: Option<String>,
    pub successor: Option<String>,
    pub constraint_axes: Option<String>,
}

/// `<urdf-compat>` on a joint: optional `<safety_controller>`.
#[derive(Debug, Clone, PartialEq, Default)]
pub struct UrdfCompatJoint {
    pub safety_controller: Option<SafetyController>,
}

/// `<safety_controller soft_lower_limit= soft_upper_limit= k_position= k_velocity=>`.
#[derive(Debug, Clone, PartialEq, Default)]
pub struct SafetyController {
    pub soft_lower_limit: Option<String>,
    pub soft_upper_limit: Option<String>,
    pub k_position: Option<String>,
    pub k_velocity: Option<String>,
}

} // verus!
