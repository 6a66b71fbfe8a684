//! Authored connectivity: the concrete physical and functional nouns of a document.
use vstd::prelude::*;
use super::connectivity::{
    Carrier, EeeMode, Fidelity, GptpClockKind, MacsecEnforcement, Purpose, TrafficPreemption,
};
use crate::float::Float64;

verus! {

#[derive(Debug, Clone, PartialEq, Eq, Default)]
pub struct InstanceRef {
    pub segment: Vec<InstanceSegment>,
}

#[derive(Debug, Clone, PartialEq, Eq)]
pub struct InstanceSegment {
    pub name: Option<String>,
    pub occurrence: u32,
}

#[derive(Debug, Clone, PartialEq, Eq)]
pub struct ComponentRef {
    pub component: String,
    pub instance: Option<InstanceRef>,
}

#[derive(Debug, Clone, PartialEq, Eq)]
pub struct AssemblyRef {
    pub assembly: String,
    pub instance: Option<InstanceRef>,
}

#[derive(Debug, Clone, PartialEq, Eq)]
pub enum PhysicalOwnerChoice {
    Component(ComponentRef),
    Assembly(AssemblyRef),
}

#[derive(Debug, Clone, PartialEq, Eq)]
pub struct NetworkRef {
    pub network: String,
    pub instance: Option<InstanceRef>,
}

#[derive(Debug, Clone, PartialEq, Eq)]
pub struct ConnectivityFunctionRef {
    pub component: String,
    pub function: String,
    pub instance: Option<InstanceRef>,
}

#[derive(Debug, Clone, PartialEq, Eq)]
pub struct ParticipantRef {
    pub network: String,
    pub participant: String,
    pub instance: Option<InstanceRef>,
}

#[derive(Debug, Clone, PartialEq, Eq)]
pub struct HopRef {
    pub network: String,
    pub hop: String,
    pub instance: Option<InstanceRef>,
}

#[derive(Debug, Clone, PartialEq, Eq)]
pub struct LegRef {
    pub network: String,
    pub leg: String,
    pub instance: Option<InstanceRef>,
}

#[derive(Debug, Clone, PartialEq, Eq)]
pub struct TrafficClassRef {
    pub network: String,
    pub traffic_class: String,
    pub instance: Option<InstanceRef>,
}

#[derive(Debug, Clone, PartialEq, Eq)]
pub struct ScheduleRef {
    pub network: String,
    pub schedule: String,
    pub instance: Option<InstanceRef>,
}

#[derive(Debug, Clone, PartialEq, Eq)]
pub struct MacsecPolicyRef {
    pub network: String,
    pub policy: String,
    pub instance: Option<InstanceRef>,
}

#[derive(Debug, Clone, PartialEq, Eq)]
pub struct TopologySegmentRef {
    pub segment: TopologySegmentChoice,
}

#[derive(Debug, Clone, PartialEq, Eq)]
pub enum TopologySegmentChoice {
    Network(NetworkRef),
    Leg(LegRef),
}

#[derive(Debug, Clone, PartialEq, Eq)]
pub struct PortRef {
    pub component: String,
    pub port: String,
    pub instance: Option<InstanceRef>,
}

#[derive(Debug, Clone, PartialEq, Eq)]
pub struct ChannelRef {
    pub component: String,
    pub port: String,
    pub channel: String,
    pub instance: Option<InstanceRef>,
}

#[derive(Debug, Clone, PartialEq, Eq)]
pub struct FunctionalEndpointRef {
    pub endpoint: FunctionalEndpointChoice,
}

#[derive(Debug, Clone, PartialEq, Eq)]
pub enum FunctionalEndpointChoice {
    Port(PortRef),
    Channel(ChannelRef),
}

#[derive(Debug, Clone, PartialEq, Eq)]
pub struct ConnectorRef {
    pub connector: String,
    pub owner: PhysicalOwnerChoice,
}

#[derive(Debug, Clone, PartialEq, Eq)]
pub struct PositionRef {
    pub connector: String,
    pub position: String,
    pub owner: PhysicalOwnerChoice,
}

#[derive(Debug, Clone, PartialEq, Eq)]
pub struct JunctionRef {
    pub junction: String,
    pub owner: PhysicalOwnerChoice,
}

#[derive(Debug, Clone, PartialEq, Eq)]
pub struct PhysicalEndpointRef {
    pub endpoint: PhysicalEndpointChoice,
}

#[derive(Debug, Clone, PartialEq, Eq)]
pub enum PhysicalEndpointChoice {
    Connector(ConnectorRef),
    Position(PositionRef),
    Junction(JunctionRef),
}

#[derive(Debug, Clone, PartialEq)]
pub struct Quantity {
    pub value: Float64,
    pub unit: String,
}

#[derive(Debug, Clone, PartialEq, Default)]
pub struct QuantityRange {
    pub minimum: Option<Float64>,
    pub maximum: Option<Float64>,
    pub nominal: Option<Float64>,
    pub unit: String,
}

/// Exact XML choice for an authored network selection axis.
#[derive(Debug, Clone, PartialEq)]
pub struct SelectionQuantity {
    pub selection: SelectionQuantityChoice,
}

#[derive(Debug, Clone, PartialEq)]
pub enum SelectionQuantityChoice {
    Nominal(Quantity),
    Range(SelectionRange),
}

#[derive(Debug, Clone, PartialEq)]
pub struct SelectionRange {
    pub minimum: Float64,
    pub maximum: Float64,
    pub nominal: Option<Float64>,
    pub unit: String,
}

#[derive(Debug, Clone, PartialEq)]
pub struct RfSelection {
    pub channel: RfChannelSelection,
}

#[derive(Debug, Clone, PartialEq)]
pub struct RfChannelSelection {
    pub selection: RfChannelSelectionChoice,
}

#[derive(Debug, Clone, PartialEq)]
pub enum RfChannelSelectionChoice {
    Numbered(RfNumberedChannel),
    FrequencyDefined(RfFrequencyDefinedChannel),
}

#[derive(Debug, Clone, PartialEq)]
pub struct RfNumberedChannel {
    pub number: u32,
    pub center_frequency: Option<SelectionQuantity>,
    pub bandwidth: Option<SelectionQuantity>,
}

#[derive(Debug, Clone, PartialEq)]
pub struct RfFrequencyDefinedChannel {
    pub center_frequency: SelectionQuantity,
    pub bandwidth: Option<SelectionQuantity>,
}

#[derive(Debug, Clone, PartialEq, Eq)]
pub struct PurposeCapability {
    pub value: Purpose,
}

#[derive(Debug, Clone, PartialEq, Eq)]
pub struct CarrierCapability {
    pub value: Carrier,
}

#[derive(Debug, Clone, PartialEq, Eq)]
pub struct ProfileCapability {
    pub id: String,
}

#[derive(Debug, Clone, PartialEq, Default)]
pub struct Capabilities {
    pub purpose: Vec<PurposeCapability>,
    pub carrier: Vec<CarrierCapability>,
    pub profile: Vec<ProfileCapability>,
    pub rate: Option<QuantityRange>,
    pub voltage: Option<QuantityRange>,
    pub current: Option<QuantityRange>,
    pub power: Option<QuantityRange>,
    pub impedance: Option<QuantityRange>,
    pub frequency: Option<QuantityRange>,
    pub bandwidth: Option<QuantityRange>,
    pub pressure: Option<QuantityRange>,
    pub flow: Option<QuantityRange>,
    pub temperature: Option<QuantityRange>,
}

#[derive(Debug, Clone, PartialEq, Eq)]
pub struct SelectedProfile {
    pub id: String,
}

#[derive(Debug, Clone, PartialEq)]
pub struct NetworkSelection {
    pub purpose: Purpose,
    pub carrier: Carrier,
    pub profile: Vec<SelectedProfile>,
    pub rate: Option<SelectionQuantity>,
    pub voltage: Option<SelectionQuantity>,
    pub current: Option<SelectionQuantity>,
    pub power: Option<SelectionQuantity>,
    pub impedance: Option<SelectionQuantity>,
    pub frequency: Option<SelectionQuantity>,
    pub rf: Option<RfSelection>,
    pub pressure: Option<SelectionQuantity>,
    pub flow: Option<SelectionQuantity>,
    pub temperature: Option<SelectionQuantity>,
}

#[derive(Debug, Clone, PartialEq, Default)]
pub struct Channel {
    pub name: String,
    pub role: Option<String>,
    pub local_group: Option<String>,
    pub capabilities: Option<Capabilities>,
}

#[derive(Debug, Clone, PartialEq, Default)]
pub struct Port {
    pub name: String,
    pub capabilities: Option<Capabilities>,
    pub channel: Vec<Channel>,
}

#[derive(Debug, Clone, PartialEq)]
pub struct PrimitiveBox {
    pub size: [Float64; 3],
    pub placement: Placement,
}

#[derive(Debug, Clone, PartialEq)]
pub struct PrimitiveCylinder {
    pub radius: Float64,
    pub length: Float64,
    pub placement: Placement,
}

#[derive(Debug, Clone, PartialEq)]
pub struct PrimitiveSphere {
    pub radius: Float64,
    pub placement: Placement,
}

#[derive(Debug, Clone, PartialEq)]
pub struct ModelRepresentation {
    pub uri: String,
    pub sha: Option<String>,
    pub node_path: Option<String>,
    pub placement: Placement,
}

#[derive(Debug, Clone, PartialEq, Eq)]
pub struct ComponentVisualRoot {
    pub component: String,
    pub visual: String,
    pub instance: Option<InstanceRef>,
}

#[derive(Debug, Clone, PartialEq, Eq)]
pub struct AssemblyModelRoot {
    pub assembly: String,
    pub instance: Option<InstanceRef>,
}

#[derive(Debug, Clone, PartialEq, Eq)]
pub struct ModelRoot {
    pub root: ModelRootChoice,
}

#[derive(Debug, Clone, PartialEq, Eq)]
pub enum ModelRootChoice {
    ComponentVisual(ComponentVisualRoot),
    AssemblyModel(AssemblyModelRoot),
}

#[derive(Debug, Clone, PartialEq)]
pub struct ModelPartRepresentation {
    pub node_path: String,
    pub submesh_fallback: Option<String>,
    pub model_root: ModelRoot,
}

#[derive(Debug, Clone, PartialEq, Eq, Default)]
pub struct WorldRouteFrame {}

#[derive(Debug, Clone, PartialEq, Eq)]
pub struct ComponentOriginFrame {
    pub component: String,
    pub instance: Option<InstanceRef>,
}

#[derive(Debug, Clone, PartialEq, Eq)]
pub struct ComponentNamedFrame {
    pub component: String,
    pub frame: String,
    pub instance: Option<InstanceRef>,
}

#[derive(Debug, Clone, PartialEq, Eq)]
pub struct RouteFrame {
    pub frame: RouteFrameChoice,
}

#[derive(Debug, Clone, PartialEq, Eq)]
pub enum RouteFrameChoice {
    World(WorldRouteFrame),
    ComponentOrigin(ComponentOriginFrame),
    ComponentFrame(ComponentNamedFrame),
}

#[derive(Debug, Clone, PartialEq)]
pub struct RpyRotation {
    pub value: [Float64; 3],
}

#[derive(Debug, Clone, PartialEq)]
pub struct QuaternionRotation {
    pub value: [Float64; 4],
}

#[derive(Debug, Clone, PartialEq)]
pub struct PlacementRotation {
    pub rotation: PlacementRotationChoice,
}

#[derive(Debug, Clone, PartialEq)]
pub enum PlacementRotationChoice {
    Rpy(RpyRotation),
    Quaternion(QuaternionRotation),
}

#[derive(Debug, Clone, PartialEq)]
pub struct Placement {
    pub xyz: [Float64; 3],
    pub frame: RouteFrame,
    pub rotation: PlacementRotation,
}

#[derive(Debug, Clone, PartialEq)]
pub struct RoutePoint {
    pub xyz: [Float64; 3],
    pub frame: RouteFrame,
    pub rotation: Option<PlacementRotation>,
}

#[derive(Debug, Clone, PartialEq)]
pub struct RoundRouteSection {
    pub diameter: Float64,
}

#[derive(Debug, Clone, PartialEq)]
pub struct RectangularRouteSection {
    pub width: Float64,
    pub height: Float64,
}

#[derive(Debug, Clone, PartialEq)]
pub enum RouteSectionChoice {
    Round(RoundRouteSection),
    Rectangular(RectangularRouteSection),
}

#[derive(Debug, Clone, PartialEq, Default)]
pub struct DerivedRouteRepresentation {
    pub section: Option<RouteSectionChoice>,
    pub waypoint: Vec<RoutePoint>,
}

/// The section that an authored round and an authored rectangular section make; no more than one of
/// them may be there.
pub open spec fn section_of(
    round: Option<RoundRouteSection>,
    rectangular: Option<RectangularRouteSection>,
) -> Option<Option<RouteSectionChoice>> {
    match (round, rectangular) {
        (None, None) => Some(None),
        (Some(section), None) => Some(Some(RouteSectionChoice::Round(section))),
        (None, Some(section)) => Some(Some(RouteSectionChoice::Rectangular(section))),
        (Some(_), Some(_)) => None,
    }
}

/// The round and the rectangular section that a section is written as.
pub open spec fn section_parts(section: Option<RouteSectionChoice>) -> (
    Option<RoundRouteSection>,
    Option<RectangularRouteSection>,
) {
    match section {
        None => (None, None),
        Some(RouteSectionChoice::Round(round)) => (Some(round), None),
        Some(RouteSectionChoice::Rectangular(rectangular)) => (None, Some(rectangular)),
    }
}

impl DerivedRouteRepresentation {
    /// The route that authored parts make.
    pub fn from_parts(
        round: Option<RoundRouteSection>,
        rectangular: Option<RectangularRouteSection>,
        waypoint: Vec<RoutePoint>,
    ) -> (r: Result<Self, &'static str>)
        ensures
            match section_of(round, rectangular) {
                Some(section) => r == Ok::<Self, &'static str>(
                    DerivedRouteRepresentation { section, waypoint },
                ),
                None => r matches Err(words) && words@
                    == "derived-route may contain at most one round-section or rectangular-section"@,
            },
    {
        let section: Option<RouteSectionChoice> = match (round, rectangular) {
            (None, None) => None,
            (Some(section), None) => Some(RouteSectionChoice::Round(section)),
            (None, Some(section)) => Some(RouteSectionChoice::Rectangular(section)),
            (Some(_), Some(_)) => {
                return Err(
                    "derived-route may contain at most one round-section or rectangular-section",
                );
            },
        };
        Ok(DerivedRouteRepresentation { section, waypoint })
    }

    /// The parts that the route is written as.
    pub fn into_parts(self) -> (r: (
        Option<RoundRouteSection>,
        Option<RectangularRouteSection>,
        Vec<RoutePoint>,
    ))
        ensures
            (r.0, r.1) == section_parts(self.section),
            r.2 == self.waypoint,
    {
        match self.section {
            None => (None, None, self.waypoint),
            Some(RouteSectionChoice::Round(round)) => (Some(round), None, self.waypoint),
            Some(RouteSectionChoice::Rectangular(rectangular)) => (
                None,
                Some(rectangular),
                self.waypoint,
            ),
        }
    }
}

/// The parts that a section is written as make that section again.
pub proof fn section_comes_back(section: Option<RouteSectionChoice>)
    ensures
        section_of(section_parts(section).0, section_parts(section).1) == Some(section),
{
}

#[derive(Debug, Clone, PartialEq)]
pub struct Representation {
    pub variant: RepresentationChoice,
}

#[derive(Debug, Clone, PartialEq)]
pub enum RepresentationChoice {
    Box(PrimitiveBox),
    Cylinder(PrimitiveCylinder),
    Sphere(PrimitiveSphere),
    Model(ModelRepresentation),
    ModelPart(ModelPartRepresentation),
    DerivedRoute(DerivedRouteRepresentation),
}

#[derive(Debug, Clone, PartialEq, Default)]
pub struct Position {
    pub name: String,
    pub role: Option<String>,
    pub local_group: Option<String>,
    pub representation: Option<Representation>,
}

#[derive(Debug, Clone, PartialEq, Default)]
pub struct Connector {
    pub name: String,
    pub family: Option<String>,
    pub pin: Vec<Position>,
    pub socket: Vec<Position>,
    pub contact: Vec<Position>,
    pub fiber: Vec<Position>,
    pub passage: Vec<Position>,
    pub feed: Vec<Position>,
    pub waveguide_opening: Vec<Position>,
    pub representation: Option<Representation>,
}

#[derive(Debug, Clone, PartialEq)]
pub struct Antenna {
    pub name: String,
    pub conducted_port: Option<PortRef>,
    pub radiated_port: PortRef,
    pub representation: Option<Representation>,
}

#[derive(Debug, Clone, PartialEq, Default)]
pub struct Function {
    pub name: String,
    pub input: Vec<FunctionalEndpointRef>,
    pub output: Vec<FunctionalEndpointRef>,
    pub bidirectional: Vec<FunctionalEndpointRef>,
}

#[derive(Debug, Clone, PartialEq)]
pub struct Path {
    pub name: String,
    pub fidelity: Fidelity,
    pub role: Option<String>,
    pub local_group: Option<String>,
    pub first: PhysicalEndpointRef,
    pub second: PhysicalEndpointRef,
    pub representation: Option<Representation>,
}

#[derive(Debug, Clone, PartialEq, Default)]
pub struct Junction {
    pub name: String,
    pub fidelity: Fidelity,
    pub attachment: Vec<PhysicalEndpointRef>,
    pub representation: Option<Representation>,
}

#[derive(Debug, Clone, PartialEq)]
pub struct NamedQuantity {
    pub property: String,
    pub value: Float64,
    pub unit: String,
}

#[derive(Debug, Clone, PartialEq)]
pub struct Termination {
    pub name: String,
    pub kind: String,
    pub mounting: super::connectivity::TerminationMounting,
    pub fidelity: Fidelity,
    pub profile: Option<String>,
    pub attachment: Vec<PhysicalEndpointRef>,
    pub quantity: Vec<NamedQuantity>,
    pub representation: Option<Representation>,
}

#[derive(Debug, Clone, PartialEq, Default)]
pub struct Assembly {
    pub name: String,
    pub connector: Vec<Connector>,
    pub wire: Vec<Path>,
    pub conductor: Vec<Path>,
    pub cable_member: Vec<Path>,
    pub fiber: Vec<Path>,
    pub coax: Vec<Path>,
    pub waveguide: Vec<Path>,
    pub feed: Vec<Path>,
    pub hose: Vec<Path>,
    pub pipe: Vec<Path>,
    pub passage: Vec<Path>,
    pub splice: Vec<Junction>,
    pub tee: Vec<Junction>,
    pub manifold: Vec<Junction>,
    pub busbar: Vec<Junction>,
    pub optical_splitter: Vec<Junction>,
    pub termination: Vec<Termination>,
    pub representation: Option<Representation>,
}

#[derive(Debug, Clone, PartialEq)]
pub struct Binding {
    pub name: String,
    pub fidelity: Fidelity,
    pub functional: FunctionalEndpointRef,
    pub physical: PhysicalEndpointRef,
}

#[derive(Debug, Clone, PartialEq)]
pub struct PositionMapping {
    pub first: PositionRef,
    pub second: PositionRef,
}

#[derive(Debug, Clone, PartialEq)]
pub struct Mate {
    pub name: String,
    pub fidelity: Fidelity,
    pub first: ConnectorRef,
    pub second: ConnectorRef,
    pub position_mapping: Vec<PositionMapping>,
}

#[derive(Debug, Clone, PartialEq, Eq)]
pub struct HopOwnerRef {
    pub owner: HopOwnerChoice,
}

#[derive(Debug, Clone, PartialEq, Eq)]
pub enum HopOwnerChoice {
    Component(ComponentRef),
    Function(ConnectivityFunctionRef),
}

#[derive(Debug, Clone, PartialEq)]
pub struct Participant {
    pub name: String,
    pub role: Option<String>,
    pub endpoint: FunctionalEndpointRef,
}

#[derive(Debug, Clone, PartialEq, Eq)]
pub struct Hop {
    pub name: String,
    pub role: Option<String>,
    pub processing_delay_ns: Option<u64>,
    pub description: Option<String>,
    pub owner: HopOwnerRef,
}

#[derive(Debug, Clone, PartialEq, Eq)]
pub struct LegEnd {
    pub hop: HopRef,
    pub participant: ParticipantRef,
}

#[derive(Debug, Clone, PartialEq, Eq)]
pub struct Leg {
    pub name: String,
    pub from: LegEnd,
    pub to: LegEnd,
}

#[derive(Debug, Clone, PartialEq, Eq)]
pub struct ParticipantReference {
    pub participant: ParticipantRef,
}

#[derive(Debug, Clone, PartialEq, Eq)]
pub struct HopReference {
    pub hop: HopRef,
}

#[derive(Debug, Clone, PartialEq, Eq)]
pub struct GptpClock {
    pub name: String,
    pub kind: GptpClockKind,
    pub gm_capable: bool,
    pub priority1: Option<u8>,
    pub priority2: Option<u8>,
    pub clock_class: Option<u8>,
    pub clock_accuracy: Option<u8>,
    pub participant: ParticipantRef,
}

#[derive(Debug, Clone, PartialEq, Eq, Default)]
pub struct GptpPortDefaults {
    pub log_sync_interval: Option<i8>,
    pub log_announce_interval: Option<i8>,
    pub log_pdelay_req_interval: Option<i8>,
    pub announce_receipt_timeout: Option<u8>,
    pub neighbor_prop_delay_threshold_ns: Option<u64>,
}

#[derive(Debug, Clone, PartialEq, Eq)]
pub struct GptpDomain {
    pub name: String,
    pub number: u8,
    pub clock: Vec<GptpClock>,
    pub port_defaults: Option<GptpPortDefaults>,
}

#[derive(Debug, Clone, PartialEq, Eq)]
pub struct PcpValue {
    pub value: u8,
}

#[derive(Debug, Clone, PartialEq, Eq)]
pub struct TrafficClass {
    pub name: String,
    pub number: u8,
    pub preemption: Option<TrafficPreemption>,
    pub description: Option<String>,
    pub pcp: Vec<PcpValue>,
}

#[derive(Debug, Clone, PartialEq, Eq)]
pub struct OpenTrafficClasses {
    pub traffic_class: Vec<TrafficClassRef>,
}

#[derive(Debug, Clone, PartialEq, Eq)]
pub struct GateControlEntry {
    pub duration_ns: u64,
    pub open: OpenTrafficClasses,
}

#[derive(Debug, Clone, PartialEq, Eq)]
pub struct GateSchedule {
    pub name: String,
    pub cycle_time_ns: u64,
    pub gate: Vec<GateControlEntry>,
}

#[derive(Debug, Clone, PartialEq, Eq)]
pub struct ScheduleTarget {
    pub participant: ParticipantRef,
}

#[derive(Debug, Clone, PartialEq, Eq)]
pub struct ScheduleAssignment {
    pub name: String,
    pub schedule: ScheduleRef,
    pub target: Vec<ScheduleTarget>,
}

#[derive(Debug, Clone, PartialEq, Eq)]
pub struct PlcaNode {
    pub id: u8,
    pub burst_count: u8,
    pub burst_timer_bit_times: u16,
    pub participant: ParticipantRef,
}

#[derive(Debug, Clone, PartialEq, Eq)]
pub struct PlcaConfiguration {
    pub max_node_id: u8,
    pub to_timer_bit_times: u16,
    pub node: Vec<PlcaNode>,
}

#[derive(Debug, Clone, PartialEq, Eq)]
pub struct MacsecPolicyDefinition {
    pub name: String,
    pub enforcement: MacsecEnforcement,
    pub cipher: Option<String>,
    pub key_agreement: Option<String>,
    pub confidentiality_offset: Option<u8>,
    pub rekey_interval_ns: Option<u64>,
    pub credential_store_ref: Option<String>,
}

#[derive(Debug, Clone, PartialEq, Eq)]
pub struct MacsecDefaultPolicy {
    pub policy: MacsecPolicyRef,
}

#[derive(Debug, Clone, PartialEq, Eq)]
pub struct MacsecOverride {
    pub target: TopologySegmentRef,
    pub policy: MacsecPolicyRef,
}

#[derive(Debug, Clone, PartialEq, Eq)]
pub struct MacsecConfiguration {
    pub policy: Vec<MacsecPolicyDefinition>,
    pub default_policy: Option<MacsecDefaultPolicy>,
    pub override_: Vec<MacsecOverride>,
}

#[derive(Debug, Clone, PartialEq, Eq)]
pub struct EeeOverride {
    pub mode: EeeMode,
    pub participant: ParticipantRef,
}

#[derive(Debug, Clone, PartialEq, Eq)]
pub struct EeeConfiguration {
    pub default_mode: EeeMode,
    pub override_: Vec<EeeOverride>,
}

#[derive(Debug, Clone, PartialEq, Eq, Default)]
pub struct NetworkConfiguration {
    pub gptp_domain: Vec<GptpDomain>,
    pub traffic_class: Vec<TrafficClass>,
    pub gate_schedule: Vec<GateSchedule>,
    pub schedule_assignment: Vec<ScheduleAssignment>,
    pub plca: Option<PlcaConfiguration>,
    pub macsec: Option<MacsecConfiguration>,
    pub eee: Option<EeeConfiguration>,
}

#[derive(Debug, Clone, PartialEq)]
pub struct Link {
    pub name: String,
    pub description: Option<String>,
    pub selected: Option<NetworkSelection>,
    pub configuration: Option<NetworkConfiguration>,
    pub participant: Vec<Participant>,
}

#[derive(Debug, Clone, PartialEq)]
pub struct Bus {
    pub name: String,
    pub description: Option<String>,
    pub selected: Option<NetworkSelection>,
    pub configuration: Option<NetworkConfiguration>,
    pub participant: Vec<Participant>,
}

#[derive(Debug, Clone, PartialEq)]
pub struct Chain {
    pub name: String,
    pub description: Option<String>,
    pub selected: Option<NetworkSelection>,
    pub configuration: Option<NetworkConfiguration>,
    pub participant: Vec<Participant>,
    pub hop: Vec<Hop>,
    pub leg: Vec<Leg>,
}

#[derive(Debug, Clone, PartialEq)]
pub struct Star {
    pub name: String,
    pub description: Option<String>,
    pub selected: Option<NetworkSelection>,
    pub configuration: Option<NetworkConfiguration>,
    pub coordinator: ParticipantReference,
    pub participant: Vec<Participant>,
}

#[derive(Debug, Clone, PartialEq)]
pub struct Ring {
    pub name: String,
    pub description: Option<String>,
    pub selected: Option<NetworkSelection>,
    pub configuration: Option<NetworkConfiguration>,
    pub participant: Vec<Participant>,
    pub hop: Vec<Hop>,
    pub leg: Vec<Leg>,
}

#[derive(Debug, Clone, PartialEq)]
pub struct Mesh {
    pub name: String,
    pub description: Option<String>,
    pub selected: Option<NetworkSelection>,
    pub configuration: Option<NetworkConfiguration>,
    pub participant: Vec<Participant>,
}

#[derive(Debug, Clone, PartialEq)]
pub struct Tree {
    pub name: String,
    pub description: Option<String>,
    pub selected: Option<NetworkSelection>,
    pub configuration: Option<NetworkConfiguration>,
    pub root: HopReference,
    pub participant: Vec<Participant>,
    pub hop: Vec<Hop>,
    pub leg: Vec<Leg>,
}

} // verus!
