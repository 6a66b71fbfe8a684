//! Actuators on a component.
use vstd::prelude::*;
use super::common::{MeasuredValue, RatedValue};
use super::enums::MotorType;
use super::Pose;

verus! {

#[derive(Debug, Clone, PartialEq, Default)]
pub struct Motor {
    pub name: Option<String>,
    pub type_: Option<MotorType>,
    pub construction: Option<String>,
    pub visual: Option<String>,
    pub mesh: Option<String>,
    pub encoder: Option<String>,
    pub hall: Option<String>,
    pub thermistor: Option<String>,
    pub pose: Option<Pose>,
    pub voltage: Option<RatedValue>,
    pub current: Option<RatedValue>,
    pub resistance: Option<MeasuredValue>,
    /// `<inductance>` (phase/winding, henries): a standard BLDC datasheet param alongside resistance.
    pub inductance: Option<MeasuredValue>,
    pub torque_constant: Option<MeasuredValue>,
    pub velocity_constant: Option<MeasuredValue>,
    /// `<rotor-inertia>` (kg·m²): rotor J for reflected-inertia math on QDD actuators.
    pub rotor_inertia: Option<MeasuredValue>,
    pub max_speed: Option<MeasuredValue>,
    pub stall_torque: Option<MeasuredValue>,
    pub thermal_resistance: Option<MeasuredValue>,
    pub max_temperature: Option<MeasuredValue>,
    pub no_load_speed: Option<MeasuredValue>,
    pub no_load_current: Option<MeasuredValue>,
    pub max_power_out: Option<MeasuredValue>,
    pub max_efficiency: Option<MeasuredValue>,
    pub thrust_axis: Option<String>,
    pub max_thrust: Option<MeasuredValue>,
    pub pole_pairs: Option<String>,
    pub displacement: Option<MeasuredValue>,
    pub cylinders: Option<String>,
    pub stroke: Option<MeasuredValue>,
    pub control_modes: Option<ControlModes>,
}

/// `<control-modes>` holding one or more `<mode>` text entries.
#[derive(Debug, Clone, PartialEq, Default)]
pub struct ControlModes {
    pub mode: Vec<String>,
}

} // verus!
