//! The typed document model, one module per region of the format.
//!
//! Numeric text content is kept as `String`, so an authored value keeps its exact form.
use vstd::prelude::*;
mod pose;
pub mod collision;
pub mod common;
pub mod composition;
pub mod connectivity;
pub mod connectivity_xml;
pub mod content;
pub mod content_authored;
pub mod content_canonical;
pub mod content_laws;
pub mod conversion;
pub mod convert_component;
pub mod convert_configuration;
pub mod convert_document;
pub mod convert_network;
pub mod convert_refs;
pub mod convert_representation;
pub mod convert_selection;
pub mod dynamic_surface;
pub mod enums;
pub mod extension;
pub mod frame;
pub mod geometry;
pub mod group;
pub mod hmi;
pub mod inertial;
pub mod joint;
pub mod motor;
pub mod network_laws;
pub mod one_outcome;
pub mod power;
pub mod selector_laws;
pub mod selectors;
pub mod sensor;
pub mod sensor_params;
pub mod software;
pub mod sound;
pub mod sound_laws;
pub mod stream_grammar;
pub mod stream_laws;
pub mod stream_profile;
pub mod stream_shape;
pub mod transmission;
pub mod visual;

pub use pose::Pose;
pub use collision::{Collision, Surface};
pub use common::{
    Color, Contact, Friction, FrictionDirection, MeasuredValue, RangeValue, RatedValue,
};
pub use conversion::ConnectivityConversionError;
pub use convert_document::HcdfConnectivityError;
pub use connectivity_xml::{
    Antenna, Assembly, AssemblyModelRoot, AssemblyRef, Binding, Bus, Capabilities,
    CarrierCapability, Chain, Channel, ChannelRef, ComponentNamedFrame, ComponentOriginFrame,
    ComponentRef, ComponentVisualRoot, ConnectivityFunctionRef, Connector, ConnectorRef,
    DerivedRouteRepresentation, EeeConfiguration, EeeOverride, Function, FunctionalEndpointChoice,
    FunctionalEndpointRef, GateControlEntry, GateSchedule, GptpClock, GptpDomain, GptpPortDefaults,
    Hop, HopOwnerChoice, HopOwnerRef, HopRef, HopReference, InstanceRef, InstanceSegment, Junction,
    JunctionRef, Leg, LegEnd, LegRef, Link, MacsecConfiguration, MacsecDefaultPolicy,
    MacsecOverride, MacsecPolicyDefinition, MacsecPolicyRef, Mate, Mesh as ConnectivityMesh,
    ModelPartRepresentation as ConnectivityModelPartRepresentation,
    ModelRepresentation as ConnectivityModelRepresentation, ModelRoot, ModelRootChoice,
    NetworkConfiguration, NetworkRef, NetworkSelection, OpenTrafficClasses, Participant,
    ParticipantRef, ParticipantReference, Path, PcpValue, PhysicalEndpointChoice,
    PhysicalEndpointRef, PhysicalOwnerChoice, Placement, PlacementRotation,
    PlacementRotationChoice, PlcaConfiguration, PlcaNode, Port, PortRef, Position, PositionMapping,
    PositionRef, PrimitiveBox, PrimitiveCylinder, PrimitiveSphere, ProfileCapability,
    PurposeCapability, Quantity as ConnectivityQuantity,
    QuantityRange as ConnectivityQuantityRange, QuaternionRotation, RectangularRouteSection,
    Representation, RepresentationChoice, RfChannelSelection, RfChannelSelectionChoice,
    RfFrequencyDefinedChannel, RfNumberedChannel, RfSelection, Ring, RoundRouteSection, RouteFrame,
    RouteFrameChoice, RoutePoint, RouteSectionChoice, RpyRotation, ScheduleAssignment, ScheduleRef,
    ScheduleTarget, SelectionQuantity as ConnectivitySelectionQuantity,
    SelectionQuantityChoice as ConnectivitySelectionQuantityChoice,
    SelectionRange as ConnectivitySelectionRange, Star, Termination, TopologySegmentChoice,
    TopologySegmentRef, TrafficClass, TrafficClassRef, Tree, WorldRouteFrame,
};
pub use dynamic_surface::{
    AerofoilSurface, ControlSurface, DynamicSurface, GripperSurface, HydrofoilSurface, PropSurface,
    TrackSurface, WheelSurface,
};
pub use enums::{BodyFrame, CompRole, WorldFrame};
pub use extension::Extension;
pub use frame::Frame;
pub use geometry::{
    Box_, Capsule, CollisionGeometry, Cone, Cylinder, Ellipsoid, ExcludeSubmesh, Frustum, Geometry,
    Mesh, Sphere, Submesh, VisualGeometry,
};
pub use group::{
    CollisionPair, JointGroup, JointPosition, KinematicState, Ref, SelfCollisionDisable,
};
pub use hmi::{HmiElement, LedIllumination, LightAttenuation};
pub use composition::Include;
pub use inertial::Inertial;
pub use joint::{
    Axis, Joint, JointCalibration, JointDynamics, JointEndpoint, JointLimit, LoopClosure, Mimic,
    SafetyController, SwingLimit, UrdfCompatJoint,
};
pub use motor::{ControlModes, Motor};
pub use power::{
    BatterySource, FlowCharacterization, FuelCell, PowerSource, SolarSource, SupercapacitorSource,
    TankSource,
};
pub use sensor::{
    AxisAlign, AxisNoise, FluidProbe, FluidSensor, ForceAxisNoise, InertialSensor, Noise,
    OpticalSensor, Sensor, SensorCategory, SensorDriver, SensorFov, SensorParams,
};
pub use sensor_params::{
    CameraBinning, CameraCalibration, CameraDistortion, CameraIntrinsics, CameraLens,
    CameraLensCustomFunction, CameraMatrix, CameraParams, CameraProjection, CameraRoi, DataOutput,
    FifoConfig, GnssParams, LidarParams, LidarRange, LidarScanAxis, LidarScanPattern, RadarParams,
};
pub use software::{Discovered, Software, UrdfCompatComp};
pub use stream_profile::{
    Frer, FrerSequenceEncoding, StreamDefinition, StreamForwarding, StreamForwardingEnd,
    StreamGroup, StreamGroupRef, StreamListener, StreamPath, StreamProfileDependency,
    StreamProfileDocument, StreamProfileResource, StreamProfileSelectionRole, StreamTalker,
};
pub use transmission::{Endpoint, Transmission, TransmissionSpring};
pub use visual::{ModelRef, Visual, VisualAppearance, VisualParts};

verus! {

/// A document: identity metadata and the document-level elements.
#[derive(Debug, Clone, PartialEq, Default)]
pub struct Hcdf {
    pub name: String,
    pub version: String,
    pub body_frame: Option<BodyFrame>,
    pub world_frame: Option<WorldFrame>,
    pub description: Option<String>,
    pub author: Option<String>,
    pub license: Option<String>,
    pub url: Option<String>,
    pub comp: Vec<Comp>,
    pub joint: Vec<Joint>,
    pub group: Vec<JointGroup>,
    pub state: Vec<KinematicState>,
    pub self_collision_disable: Option<SelfCollisionDisable>,
    pub harness: Vec<Assembly>,
    pub cable: Vec<Assembly>,
    pub plumbing: Vec<Assembly>,
    pub umbilical: Vec<Assembly>,
    pub binding: Vec<Binding>,
    pub mate: Vec<Mate>,
    pub link: Vec<Link>,
    pub bus: Vec<Bus>,
    pub chain: Vec<Chain>,
    pub star: Vec<Star>,
    pub ring: Vec<Ring>,
    pub mesh: Vec<ConnectivityMesh>,
    pub tree: Vec<Tree>,
    pub stream_profile: Vec<StreamProfileResource>,
    pub transmission: Vec<Transmission>,
    pub color: Vec<Color>,
    pub includes: Vec<Include>,
    pub extension: Vec<Extension>,
}

#[derive(Debug, Clone, PartialEq, Default)]
pub struct Comp {
    pub name: String,
    pub role: Option<CompRole>,
    pub hwid: Option<String>,
    pub struct_type: Option<String>,
    pub ip_rating: Option<String>,
    pub description: Option<String>,
    pub board: Option<String>,
    pub operating_temp: Option<RangeValue>,
    pub inertial: Option<Inertial>,
    pub visual: Vec<Visual>,
    pub collision: Vec<Collision>,
    pub frame: Vec<Frame>,
    pub port: Vec<Port>,
    pub connector: Vec<Connector>,
    pub antenna: Vec<Antenna>,
    pub switch: Vec<Function>,
    pub bridge: Vec<Function>,
    pub converter: Vec<Function>,
    pub transceiver: Vec<Function>,
    pub radio: Vec<Function>,
    pub wire: Vec<Path>,
    pub conductor: Vec<Path>,
    pub cable_member: Vec<Path>,
    pub fiber: Vec<Path>,
    pub coax: Vec<Path>,
    pub waveguide: Vec<Path>,
    pub feed: Vec<Path>,
    pub hose: Vec<Path>,
    pub pipe: Vec<Path>,
    pub passage: Vec<Path>,
    pub splice: Vec<Junction>,
    pub tee: Vec<Junction>,
    pub manifold: Vec<Junction>,
    pub busbar: Vec<Junction>,
    pub optical_splitter: Vec<Junction>,
    pub termination: Vec<Termination>,
    pub sensor: Vec<Sensor>,
    pub motor: Vec<Motor>,
    pub hmi: Vec<HmiElement>,
    pub dynamic_surface: Vec<DynamicSurface>,
    pub power_source: Vec<PowerSource>,
    pub software: Option<Software>,
    pub discovered: Option<Discovered>,
    pub urdf_compat: Option<UrdfCompatComp>,
    pub extension: Vec<Extension>,
}

} // verus!
