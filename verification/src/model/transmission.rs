//! Transmissions coupling motors to joints.
use vstd::prelude::*;
use super::common::{MeasuredValue, RangeValue};
use super::enums::TransmissionType;

verus! {

#[derive(Debug, Clone, PartialEq, Default)]
pub struct Transmission {
    pub name: Option<String>,
    pub type_: Option<TransmissionType>,
    pub encoder: Option<String>,
    pub visual: Option<String>,
    pub mesh: Option<String>,
    pub motor: Vec<Endpoint>,
    pub joint: Vec<Endpoint>,
    pub reduction: Option<String>,
    pub efficiency: Option<String>,
    pub backlash: Option<MeasuredValue>,
    pub spring: Vec<TransmissionSpring>,
}

#[derive(Debug, Clone, PartialEq, Default)]
pub struct TransmissionSpring {
    pub placement: Option<String>,
    pub type_: Option<String>,
    pub torque_sensing: Option<String>,
    pub clutch: Option<String>,
    pub equilibrium_actuator: Option<String>,
    pub stiffness_actuator: Option<String>,
    pub stiffness: Option<RangeValue>,
    pub max_deflection: Option<MeasuredValue>,
    pub damping: Option<MeasuredValue>,
    pub equilibrium: Option<MeasuredValue>,
    pub equilibrium_range: Option<RangeValue>,
    pub clutch_power: Option<MeasuredValue>,
    pub engage_time: Option<MeasuredValue>,
}

/// `<motor ref= role=>` / `<joint ref= role=>` transmission endpoint. In a multi-endpoint coupling
/// (a gearbox's reference/driven joints, a differential's input motors + output joints) the optional
/// `@role` disambiguates this endpoint's part; a simple single-motor/single-joint reduction omits it.
#[derive(Debug, Clone, PartialEq, Default)]
pub struct Endpoint {
    pub ref_: Option<String>,
    pub role: Option<String>,
}

} // verus!
