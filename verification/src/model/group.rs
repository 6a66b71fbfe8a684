//! Document-level kinematic grouping: joint groups, named states and collision exclusions.
use vstd::prelude::*;

verus! {

/// `<group name= type= tip-comp= tip-frame=>`: an ordered set of joint and sub-group references.
#[derive(Debug, Clone, PartialEq, Default)]
pub struct JointGroup {
    pub name: Option<String>,
    pub type_: Option<String>,
    pub tip_comp: Option<String>,
    pub tip_frame: Option<String>,
    pub description: Option<String>,
    pub joint: Vec<Ref>,
    pub group: Vec<Ref>,
}

/// A `<joint ref=>` or `<group ref=>` reference inside a group.
#[derive(Debug, Clone, PartialEq, Default)]
pub struct Ref {
    pub ref_: Option<String>,
}

/// `<state name= default=>`: a named set of joint positions.
#[derive(Debug, Clone, PartialEq, Default)]
pub struct KinematicState {
    pub name: Option<String>,
    pub default: Option<String>,
    pub description: Option<String>,
    pub joint_position: Vec<JointPosition>,
}

/// `<joint-position joint= value=>`.
#[derive(Debug, Clone, PartialEq, Default)]
pub struct JointPosition {
    pub joint: Option<String>,
    pub value: Option<String>,
}

/// `<self-collision-disable>`: a set of `<pair>` exclusions.
#[derive(Debug, Clone, PartialEq, Default)]
pub struct SelfCollisionDisable {
    pub pair: Vec<CollisionPair>,
}

/// `<pair comp1= comp2= reason=>`.
#[derive(Debug, Clone, PartialEq, Default)]
pub struct CollisionPair {
    pub comp1: Option<String>,
    pub comp2: Option<String>,
    pub reason: Option<String>,
}

} // verus!
