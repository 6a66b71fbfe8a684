//! Mass, center of gravity and inertia tensor text.
use vstd::prelude::*;
use super::Pose;

verus! {

/// `inertial_properties`: `<mass>` (text), `<inertia_origin>` (pose), `<inertia>` (six-tuple text).
#[derive(Debug, Clone, PartialEq, Default)]
pub struct Inertial {
    pub mass: Option<String>,
    pub inertia_origin: Option<Pose>,
    pub inertia: Option<String>,
}

} // verus!
