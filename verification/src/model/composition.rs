//! Composition of another document as a sub-assembly.
use vstd::prelude::*;

verus! {

#[derive(Debug, Clone, PartialEq, Default)]
pub struct Include {
    pub uri: Option<String>,
    pub sha: Option<String>,
    pub name: Option<String>,
    pub pose: Option<String>,
    /// `@static`: import the sub-assembly as a fixed body (SDF include/static).
    pub static_: Option<String>,
    /// `@placement-frame`: the frame within the included model that `@pose` places (SDF
    /// include/placement_frame).
    pub placement_frame: Option<String>,
}

} // verus!
