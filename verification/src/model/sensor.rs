//! Sensors and their categories.
use vstd::prelude::*;
use super::common::{MeasuredValue, RangeValue};
use super::enums::{
    AxisValue, EncoderPrinciple, ForceFrame, InertialSensorType, MeasureDirection, NoiseType,
    OpticalSensorType,
};
use super::geometry::Geometry;
use super::sensor_params::{
    CameraCalibration, CameraDistortion, CameraIntrinsics, CameraLens, CameraMatrix, CameraParams,
    DataOutput, FifoConfig, GnssParams, LidarParams, RadarParams,
};
use super::Pose;

verus! {

/// `<sensor name= update-rate=>` with one or more category children.
#[derive(Debug, Clone, PartialEq, Default)]
pub struct Sensor {
    pub name: Option<String>,
    pub update_rate: Option<String>,
    pub inertial: Vec<InertialSensor>,
    pub em: Vec<SensorCategory>,
    pub optical: Vec<OpticalSensor>,
    pub rf: Vec<SensorCategory>,
    pub chemical: Vec<SensorCategory>,
    pub force: Vec<SensorCategory>,
    pub encoder: Vec<SensorCategory>,
    pub temperature: Vec<SensorCategory>,
    pub radiation: Vec<SensorCategory>,
    pub audio: Vec<SensorCategory>,
    pub tactile: Vec<SensorCategory>,
    pub fluid: Vec<FluidSensor>,
}

/// What the sensor categories em/rf/chemical/force/encoder/temperature/radiation/audio/tactile have in
/// common. The parameter blocks `data-output`/`radar-params`/`gnss-params` only appear on `<rf>`; child
/// detail that is rare is not held.
#[derive(Debug, Clone, PartialEq, Default)]
pub struct SensorCategory {
    pub type_: Option<String>,
    /// `@principle` only ever appears on `<encoder>`, so it maps cleanly to one enum.
    pub principle: Option<EncoderPrinciple>,
    pub interface: Option<String>,
    /// `@active` only ever appears on `<audio>` (active transducer vs passive receiver).
    pub active: Option<String>,
    /// `@frame` only ever appears on `<force>` (F/T reporting frame: parent/child/sensor).
    pub frame: Option<ForceFrame>,
    /// `@measure-direction` only ever appears on `<force>` (wrench sign convention).
    pub measure_direction: Option<MeasureDirection>,
    pub pose: Option<Pose>,
    pub driver: Option<SensorDriver>,
    pub range: Option<MeasuredValue>,
    pub resolution: Option<MeasuredValue>,
    pub noise: Option<Noise>,
    pub data_output: Option<DataOutput>,
    pub geometry: Option<Geometry>,
    pub radar_params: Option<RadarParams>,
    pub gnss_params: Option<GnssParams>,

    pub frequency_range: Option<RangeValue>,
    pub sensitivity: Option<MeasuredValue>,
    pub channels: Option<String>,
    pub beam_width: Option<MeasuredValue>,

    pub rows: Option<String>,
    pub cols: Option<String>,
    pub taxels: Option<String>,
    pub spatial_resolution: Option<MeasuredValue>,
    pub pressure_range: Option<RangeValue>,
    pub sensing_area: Option<MeasuredValue>,

    /// `<collision>`: name of the collision this contact/force sensor monitors (SDF contact/collision).
    pub collision: Option<String>,
    /// `<axis-noise>`: per-axis force/torque noise for a multi-axis F/T sensor (SDF force_torque).
    pub axis_noise: Option<ForceAxisNoise>,
}

/// `<inertial type=>` sensor category: pose/driver + `<accel>`/`<gyro>` parameter blocks.
#[derive(Debug, Clone, PartialEq, Default)]
pub struct InertialSensor {
    pub type_: Option<InertialSensorType>,
    pub pose: Option<Pose>,
    pub driver: Option<SensorDriver>,
    pub accel: Option<SensorParams>,
    pub gyro: Option<SensorParams>,
    pub geometry: Option<Geometry>,
}

/// `<optical type=>` sensor category: pose/driver + a list of `<fov>` field-of-view definitions.
#[derive(Debug, Clone, PartialEq, Default)]
pub struct OpticalSensor {
    pub type_: Option<OpticalSensorType>,
    pub pose: Option<Pose>,
    pub driver: Option<SensorDriver>,
    pub geometry: Option<Geometry>,
    pub fov: Vec<SensorFov>,
    pub data_output: Option<DataOutput>,
    pub camera_params: Option<CameraParams>,
    pub lidar_params: Option<LidarParams>,
}

#[derive(Debug, Clone, PartialEq, Default)]
pub struct FluidSensor {
    pub type_: Option<String>,
    pub pose: Option<Pose>,
    pub driver: Option<SensorDriver>,
    pub range: Option<MeasuredValue>,
    pub resolution: Option<MeasuredValue>,
    pub noise: Option<Noise>,
    pub data_output: Option<DataOutput>,
    pub geometry: Option<Geometry>,
    pub medium: Option<String>,
    pub pressure_range: Option<RangeValue>,
    pub accuracy: Option<MeasuredValue>,
    pub temperature_range: Option<RangeValue>,
    pub temperature_coefficient: Option<MeasuredValue>,
    pub reference_pressure: Option<MeasuredValue>,
    pub reference_density: Option<MeasuredValue>,
    pub altitude_range: Option<RangeValue>,
    pub altitude_resolution: Option<MeasuredValue>,
    pub airspeed_range: Option<RangeValue>,
    pub airspeed_resolution: Option<MeasuredValue>,
    pub airspeed_output: Vec<String>,
    pub depth_range: Option<RangeValue>,
    pub level_range: Option<RangeValue>,
    pub flow_range: Option<RangeValue>,
    pub probe: Option<FluidProbe>,
}

#[derive(Debug, Clone, PartialEq, Default)]
pub struct FluidProbe {
    pub type_: Option<String>,
    pub static_port: Option<String>,
    pub total_port: Option<String>,
    pub ports: Option<String>,
}

#[derive(Debug, Clone, PartialEq, Default)]
pub struct SensorFov {
    pub name: Option<String>,
    pub color: Option<String>,
    pub description: Option<String>,
    pub pose: Option<Pose>,
    pub geometry: Option<Geometry>,
    pub intrinsics: Option<CameraIntrinsics>,
    pub distortion: Option<CameraDistortion>,
    pub lens: Option<CameraLens>,
    pub calibration: Option<CameraCalibration>,
    pub noise: Option<Noise>,
    pub camera_matrix: Option<CameraMatrix>,
}

/// `<driver name=>` with optional `<axis-align>`.
#[derive(Debug, Clone, PartialEq, Default)]
pub struct SensorDriver {
    pub name: Option<String>,
    pub axis_align: Option<AxisAlign>,
}

/// `<axis-align x= y= z=>` (e.g. `x="Y" y="-X" z="Z"`).
#[derive(Debug, Clone, PartialEq, Default)]
pub struct AxisAlign {
    pub x: Option<AxisValue>,
    pub y: Option<AxisValue>,
    pub z: Option<AxisValue>,
}

/// `<accel>`/`<gyro>` parameter block: range/resolution/odr/bandwidth/fifo/noise.
#[derive(Debug, Clone, PartialEq, Default)]
pub struct SensorParams {
    pub range: Option<MeasuredValue>,
    pub resolution: Option<MeasuredValue>,
    pub odr: Option<MeasuredValue>,
    pub bandwidth: Option<MeasuredValue>,
    pub fifo: Option<FifoConfig>,
    pub noise: Option<Noise>,
    /// Optional per-axis noise (x/y/z), each a full `<noise>`; the scalar `noise` above is the
    /// isotropic fallback. SDF gz-sim per-axis accel/gyro `<noise>` blocks.
    pub axis_noise: Option<AxisNoise>,
}

/// `<noise type=>`: gaussian/uniform/none with mean/stddev/bias text children.
#[derive(Debug, Clone, PartialEq, Default)]
pub struct Noise {
    pub type_: Option<NoiseType>,
    pub mean: Option<String>,
    pub stddev: Option<String>,
    pub bias_mean: Option<String>,
    pub bias_stddev: Option<String>,
    pub precision: Option<String>,
    /// Dynamic (time-varying Gauss-Markov) bias stddev: SDF `noise/dynamic_bias_stddev`.
    pub dynamic_bias_stddev: Option<String>,
    /// Correlation time (s) of the dynamic bias process: SDF `noise/dynamic_bias_correlation_time`.
    pub dynamic_bias_correlation_time: Option<String>,
}

/// `<axis-noise>`: an independent [`Noise`] model on each of the x/y/z channels of a 3-axis
/// measurement (per-axis IMU accel/gyro noise, or one force/torque channel triplet). Complements the
/// scalar `<noise>` fallback.
#[derive(Debug, Clone, PartialEq, Default)]
pub struct AxisNoise {
    pub x: Option<Noise>,
    pub y: Option<Noise>,
    pub z: Option<Noise>,
}

/// `<axis-noise>` on a multi-axis force/torque sensor: per-axis [`AxisNoise`] on the force channels
/// and the torque channels (SDF force_torque per-axis force/torque `<noise>`).
#[derive(Debug, Clone, PartialEq, Default)]
pub struct ForceAxisNoise {
    pub force: Option<AxisNoise>,
    pub torque: Option<AxisNoise>,
}

} // verus!
