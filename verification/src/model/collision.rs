//! Collision elements: pose, geometry and contact surface.
use vstd::prelude::*;
use super::common::{Contact, Friction};
use super::enums::NameOrigin;
use super::geometry::CollisionGeometry;
use super::Pose;

verus! {

/// `<collision name= verbose= name-origin=>`.
#[derive(Debug, Clone, PartialEq, Default)]
pub struct Collision {
    pub name: Option<String>,
    pub verbose: Option<String>,
    pub name_origin: Option<NameOrigin>,
    pub pose: Option<Pose>,
    pub geometry: Option<CollisionGeometry>,
    pub surface: Option<Surface>,
}

/// `<surface>`: `<friction>` + `<restitution>` (text) + `<contact>`.
#[derive(Debug, Clone, PartialEq, Default)]
pub struct Surface {
    pub friction: Option<Friction>,
    pub restitution: Option<String>,
    pub contact: Option<Contact>,
}

} // verus!
