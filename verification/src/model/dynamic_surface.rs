//! Surfaces that interact with a medium or the ground.
use vstd::prelude::*;
use super::common::{Friction, MeasuredValue, RangeValue};

verus! {

#[derive(Debug, Clone, PartialEq, Default)]
pub struct DynamicSurface {
    pub name: Option<String>,
    pub visual: Option<String>,
    pub mesh: Option<String>,
    pub prop: Option<PropSurface>,
    pub aerofoil: Option<AerofoilSurface>,
    pub hydrofoil: Option<HydrofoilSurface>,
    pub control_surface: Option<ControlSurface>,
    pub wheel: Option<WheelSurface>,
    pub track: Option<TrackSurface>,
    pub gripper: Option<GripperSurface>,
}

#[derive(Debug, Clone, PartialEq, Default)]
pub struct AerofoilSurface {
    pub span: Option<MeasuredValue>,
    pub chord: Option<MeasuredValue>,
    pub profile: Option<String>,
    pub sweep: Option<MeasuredValue>,
    pub dihedral: Option<MeasuredValue>,
    pub area: Option<MeasuredValue>,
}

#[derive(Debug, Clone, PartialEq, Default)]
pub struct HydrofoilSurface {
    pub span: Option<MeasuredValue>,
    pub chord: Option<MeasuredValue>,
    pub profile: Option<String>,
    pub area: Option<MeasuredValue>,
}

#[derive(Debug, Clone, PartialEq, Default)]
pub struct ControlSurface {
    pub type_: Option<String>,
    pub chord_ratio: Option<String>,
    pub span_fraction: Option<String>,
    pub deflection: Option<RangeValue>,
}

#[derive(Debug, Clone, PartialEq, Default)]
pub struct TrackSurface {
    pub width: Option<MeasuredValue>,
    pub length: Option<MeasuredValue>,
    pub ground_pressure: Option<MeasuredValue>,
    pub friction: Option<Friction>,
}

#[derive(Debug, Clone, PartialEq, Default)]
pub struct GripperSurface {
    pub type_: Option<String>,
    pub grip_force: Option<MeasuredValue>,
    pub contact_area: Option<MeasuredValue>,
    pub payload: Option<MeasuredValue>,
    pub shore_hardness: Option<String>,
    pub vacuum_level: Option<MeasuredValue>,
    pub magnetic_force: Option<MeasuredValue>,
    pub friction: Option<Friction>,
}

/// `<prop>`: propeller surface, generating thrust from rotation (multirotor/fixed-wing/marine).
/// `diameter`/`pitch` are physical-quantity [`MeasuredValue`]; `blades`/`direction` are text leaves.
#[derive(Debug, Clone, PartialEq, Default)]
pub struct PropSurface {
    pub diameter: Option<MeasuredValue>,
    pub pitch: Option<MeasuredValue>,
    pub blades: Option<String>,
    pub direction: Option<String>,
}

/// `<wheel type=>`: radius/width/friction.
#[derive(Debug, Clone, PartialEq, Default)]
pub struct WheelSurface {
    pub type_: Option<String>,
    pub radius: Option<MeasuredValue>,
    pub width: Option<MeasuredValue>,
    pub friction: Option<Friction>,
}

} // verus!
