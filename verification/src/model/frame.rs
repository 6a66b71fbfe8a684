//! Named reference frames on a component.
use vstd::prelude::*;
use super::Pose;

verus! {

#[derive(Debug, Clone, PartialEq, Default)]
pub struct Frame {
    pub name: String,
    pub relative_to: Option<String>,
    pub type_: Option<String>,
    pub description: Option<String>,
    pub pose: Option<Pose>,
}

} // verus!
