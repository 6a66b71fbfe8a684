//! Type-specific sensor parameter blocks.
use vstd::prelude::*;
use super::common::{MeasuredValue, RangeValue};
use super::enums::CameraDistortionModel;
use super::sensor::Noise;

verus! {

/// `<data-output>`: sensor data-rate characteristics for network/TSN bandwidth planning.
#[derive(Debug, Clone, PartialEq, Default)]
pub struct DataOutput {
    pub bandwidth: Option<MeasuredValue>,
    pub bandwidth_compressed: Option<MeasuredValue>,
    pub frame_size: Option<MeasuredValue>,
}

/// `<intrinsics>`: pinhole camera intrinsics (image dims, pixel format, focal length/principal point,
/// skew). `s` completes the 3x3 K matrix `[[fx, s, cx], [0, fy, cy], [0, 0, 1]]`.
#[derive(Debug, Clone, PartialEq, Default)]
pub struct CameraIntrinsics {
    pub width: Option<String>,
    pub height: Option<String>,
    pub format: Option<String>,
    pub fx: Option<String>,
    pub fy: Option<String>,
    pub cx: Option<String>,
    pub cy: Option<String>,
    /// Skew coefficient (axis skew) of the pinhole intrinsic matrix. Zero for orthogonal pixel axes.
    pub s: Option<String>,
}

/// `<distortion>`: Brown-Conrady lens distortion coefficients (k1-k3 radial, p1-p2 tangential). Holds
/// design-spec nominal values; measured per-unit values live in [`CameraCalibration`].
#[derive(Debug, Clone, PartialEq, Default)]
pub struct CameraDistortion {
    pub k1: Option<String>,
    pub k2: Option<String>,
    pub k3: Option<String>,
    pub p1: Option<String>,
    pub p2: Option<String>,
    /// Fourth coefficient: rational_polynomial D[5] / equidistant fisheye D[3].
    pub k4: Option<String>,
    /// Fifth coefficient: rational_polynomial D[6].
    pub k5: Option<String>,
    /// Sixth coefficient: rational_polynomial D[7].
    pub k6: Option<String>,
    /// `@model`: ROS CameraInfo distortion_model (plumb_bob / rational_polynomial / equidistant).
    pub model: Option<CameraDistortionModel>,
}

#[derive(Debug, Clone, PartialEq, Default)]
pub struct CameraMatrix {
    /// `<rectification>`: R (3x3, row-major) as nine space-separated doubles. ROS CameraInfo/R.
    pub rectification: Option<String>,
    pub projection: Option<CameraProjection>,
    pub binning: Option<CameraBinning>,
    pub roi: Option<CameraRoi>,
}

/// `<projection>`: structured ROS CameraInfo P (3x4): rectified intrinsics (fx'/fy'/cx'/cy') plus the
/// stereo baseline translation (tx/ty).
#[derive(Debug, Clone, PartialEq, Default)]
pub struct CameraProjection {
    pub fx: Option<String>,
    pub fy: Option<String>,
    pub cx: Option<String>,
    pub cy: Option<String>,
    pub tx: Option<String>,
    pub ty: Option<String>,
}

/// `<binning x= y=>`: ROS CameraInfo binning_x/binning_y.
#[derive(Debug, Clone, PartialEq, Default)]
pub struct CameraBinning {
    pub x: Option<String>,
    pub y: Option<String>,
}

/// `<roi x-offset= y-offset= width= height= rectify=>`: ROS CameraInfo region of interest.
#[derive(Debug, Clone, PartialEq, Default)]
pub struct CameraRoi {
    pub x_offset: Option<String>,
    pub y_offset: Option<String>,
    pub width: Option<String>,
    pub height: Option<String>,
    pub rectify: Option<String>,
}

#[derive(Debug, Clone, PartialEq, Default)]
pub struct CameraLens {
    pub type_: Option<String>,
    pub cutoff_angle: Option<MeasuredValue>,
    pub scale_to_hfov: Option<String>,
    pub custom_function: Option<CameraLensCustomFunction>,
}

/// `<custom-function>`: coefficients of a custom radial mapping (SDF `lens/custom_function`), used when
/// `lens/@type="custom"`.
#[derive(Debug, Clone, PartialEq, Default)]
pub struct CameraLensCustomFunction {
    pub c1: Option<String>,
    pub c2: Option<String>,
    pub c3: Option<String>,
    pub f: Option<String>,
    pub fun: Option<String>,
}

/// `<calibration>`: measured camera calibration results for a specific unit (calibrated intrinsics,
/// distortion, and calibration metadata) that override the design-spec values at runtime.
#[derive(Debug, Clone, PartialEq, Default)]
pub struct CameraCalibration {
    pub fx: Option<String>,
    pub fy: Option<String>,
    pub cx: Option<String>,
    pub cy: Option<String>,
    pub k1: Option<String>,
    pub k2: Option<String>,
    pub k3: Option<String>,
    pub p1: Option<String>,
    pub p2: Option<String>,
    pub reprojection_error: Option<MeasuredValue>,
    pub date: Option<String>,
    pub temperature: Option<MeasuredValue>,
    pub method: Option<String>,
    pub images: Option<String>,
}

/// `<camera-params>`: camera-specific perception/bandwidth/environment parameters (camera/thermal).
#[derive(Debug, Clone, PartialEq, Default)]
pub struct CameraParams {
    pub shutter: Option<String>,
    pub hdr: Option<String>,
    pub dynamic_range: Option<MeasuredValue>,
    pub depth_range: Option<RangeValue>,
    pub compression: Option<String>,
    pub trigger: Option<String>,
    pub ir_cut: Option<String>,
    pub spectral_band: Option<String>,
    pub netd: Option<MeasuredValue>,
    pub temperature_range: Option<RangeValue>,
}

#[derive(Debug, Clone, PartialEq, Default)]
pub struct LidarParams {
    pub scan_type: Option<String>,
    pub channels: Option<String>,
    pub points_per_second: Option<String>,
    pub scan_rate: Option<MeasuredValue>,
    pub returns: Option<String>,
    pub wavelength: Option<MeasuredValue>,
    pub horizontal_fov: Option<MeasuredValue>,
    pub vertical_fov: Option<RangeValue>,
    pub range: Option<LidarRange>,
    pub scan_pattern: Option<LidarScanPattern>,
    /// Range/beam noise model (SDF lidar/ray `<noise>`). When absent: ideal ranging.
    pub noise: Option<Noise>,
}

/// `<range>` under `<lidar-params>`: along-beam distance measurement range (min/max) and radial
/// resolution. Maps losslessly to SDF `lidar/<range>`; distinct from the angular `<scan-pattern>`.
#[derive(Debug, Clone, PartialEq, Default)]
pub struct LidarRange {
    pub min: Option<MeasuredValue>,
    pub max: Option<MeasuredValue>,
    pub resolution: Option<MeasuredValue>,
}

/// `<scan-pattern>`: per-axis angular scan (`<horizontal>`/`<vertical>`), the lossless target for a
/// converted URDF ray/LaserScan sensor.
#[derive(Debug, Clone, PartialEq, Default)]
pub struct LidarScanPattern {
    pub horizontal: Option<LidarScanAxis>,
    pub vertical: Option<LidarScanAxis>,
}

/// `<horizontal>`/`<vertical>`: one axis of a lidar/ray angular scan pattern: samples, angular
/// resolution multiplier, and min/max sweep angle (radians), matching URDF ray semantics. All are
/// attributes.
#[derive(Debug, Clone, PartialEq, Default)]
pub struct LidarScanAxis {
    pub samples: Option<String>,
    pub resolution: Option<String>,
    pub min_angle: Option<String>,
    pub max_angle: Option<String>,
}

/// `<radar-params>`: 4D imaging-radar / distance-velocity parameters (rf sensors, `type="radar"`).
#[derive(Debug, Clone, PartialEq, Default)]
pub struct RadarParams {
    pub frequency: Option<MeasuredValue>,
    pub modulation: Option<String>,
    pub azimuth_fov: Option<MeasuredValue>,
    pub elevation_fov: Option<MeasuredValue>,
    pub azimuth_resolution: Option<MeasuredValue>,
    pub elevation_resolution: Option<MeasuredValue>,
    pub range_resolution: Option<MeasuredValue>,
    pub velocity_range: Option<RangeValue>,
    pub velocity_resolution: Option<MeasuredValue>,
    pub max_detections: Option<String>,
    pub mimo: Option<String>,
}

/// `<gnss-params>`: GNSS constellation support, correction capabilities, and positioning accuracy.
#[derive(Debug, Clone, PartialEq, Default)]
pub struct GnssParams {
    pub constellation: Vec<String>,
    pub frequency: Vec<String>,
    pub rtk: Option<String>,
    pub accuracy_standalone: Option<MeasuredValue>,
    pub accuracy_rtk: Option<MeasuredValue>,
    pub pps: Option<String>,
    pub dead_reckoning: Option<String>,
    pub anti_spoofing: Option<String>,
}

/// `<fifo depth= watermark=>`: hardware FIFO buffer config for IMU accel/gyro channels.
#[derive(Debug, Clone, PartialEq, Default)]
pub struct FifoConfig {
    pub depth: Option<String>,
    pub watermark: Option<String>,
}

} // verus!
