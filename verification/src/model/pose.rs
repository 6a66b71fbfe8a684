//! A pose: translation, roll-pitch-yaw and quaternion, each optional.
use vstd::prelude::*;
use crate::float::Float64;

verus! {

#[derive(Debug, Clone, Default, PartialEq)]
pub struct Pose {
    pub xyz: Option<[Float64; 3]>,
    pub rpy: Option<[Float64; 3]>,
    pub quat: Option<[Float64; 4]>,
}

impl Pose {
    /// The translation, or none at all where it is missing.
    pub fn xyz_or_zero(&self) -> (r: [Float64; 3])
        ensures
            r == match self.xyz {
                Some(xyz) => xyz,
                None => [Float64 { bits: 0 }, Float64 { bits: 0 }, Float64 { bits: 0 }],
            },
    {
        match self.xyz {
            Some(xyz) => xyz,
            None => [Float64 { bits: 0 }, Float64 { bits: 0 }, Float64 { bits: 0 }],
        }
    }

    /// The rotation, or none at all where it is missing.
    pub fn rpy_or_zero(&self) -> (r: [Float64; 3])
        ensures
            r == match self.rpy {
                Some(rpy) => rpy,
                None => [Float64 { bits: 0 }, Float64 { bits: 0 }, Float64 { bits: 0 }],
            },
    {
        match self.rpy {
            Some(rpy) => rpy,
            None => [Float64 { bits: 0 }, Float64 { bits: 0 }, Float64 { bits: 0 }],
        }
    }
}

} // verus!
