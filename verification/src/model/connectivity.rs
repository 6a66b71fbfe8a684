//! Canonical connectivity: functional interfaces, physical presentation, physical continuity and
//! logical network membership, each in a form of its own.
use std::collections::BTreeSet;
use vstd::prelude::*;
use crate::float::Float64;
use crate::order::{Ranked, SortedSet};
use crate::text;

verus! {

/// A stable caller-supplied identity for the root source document.
#[derive(Debug, PartialEq, Eq, PartialOrd, Ord, Hash)]
pub struct DocumentIdentity(String);

/// A qualified profile or specification identifier, such as `hcdf:rs-485`.
#[derive(Debug, PartialEq, Eq, PartialOrd, Ord, Hash)]
pub struct QualifiedId(String);

#[derive(Debug, Clone, PartialEq, Eq)]
pub enum IdentityValueError {
    EmptyDocumentIdentity,
    UnqualifiedIdentifier(String),
}

/// The authored name state of one include-instance path segment.
///
/// Unnamed include sites are distinct from every authored string, including `$include` and
/// whitespace-only strings.
#[derive(Debug, PartialEq, Eq, PartialOrd, Ord, Hash)]
pub enum IncludeSegmentName {
    Unnamed,
    Named(String),
}

/// One deterministic include site in an include-instance path.
#[derive(Debug, PartialEq, Eq, PartialOrd, Ord, Hash)]
pub struct IncludeInstanceSegment {
    pub name: IncludeSegmentName,
    pub occurrence: u32,
}

/// Structured provenance for one root or included module instance.
#[derive(Debug, Default, PartialEq, Eq, PartialOrd, Ord, Hash)]
pub struct IncludeInstanceId(Vec<IncludeInstanceSegment>);

/// Scope selection carried by every authored cross-object reference.
#[derive(Debug, Default, PartialEq, Eq, PartialOrd, Ord, Hash)]
pub enum ReferenceScope {
    #[default]
    Local,
    Instance(IncludeInstanceId),
}

#[derive(Debug, PartialEq, Eq, PartialOrd, Ord, Hash)]
pub struct ComponentRef {
    pub scope: ReferenceScope,
    pub component: String,
}

#[derive(Debug, PartialEq, Eq, PartialOrd, Ord, Hash)]
pub struct AssemblyRef {
    pub scope: ReferenceScope,
    pub assembly: String,
}

#[derive(Debug, Clone, PartialEq, Eq, PartialOrd, Ord, Hash)]
pub struct StructuralVisualRef {
    pub component: ComponentRef,
    pub visual: String,
}

#[derive(Debug, Clone, PartialEq, Eq, PartialOrd, Ord, Hash)]
pub struct StructuralFrameRef {
    pub component: ComponentRef,
    pub frame: String,
}

#[derive(Debug, PartialEq, Eq, PartialOrd, Ord, Hash)]
pub enum OwnerRef {
    Component(ComponentRef),
    Assembly(AssemblyRef),
}

#[derive(Debug, PartialEq, Eq, PartialOrd, Ord, Hash)]
pub struct PortRef {
    pub scope: ReferenceScope,
    pub component: String,
    pub port: String,
}

#[derive(Debug, Clone, PartialEq, Eq, PartialOrd, Ord, Hash)]
pub struct ChannelRef {
    pub scope: ReferenceScope,
    pub component: String,
    pub port: String,
    pub channel: String,
}

#[derive(Debug, Clone, PartialEq, Eq, PartialOrd, Ord, Hash)]
pub enum FunctionalEndpointRef {
    Port(PortRef),
    Channel(ChannelRef),
}

#[derive(Debug, PartialEq, Eq, PartialOrd, Ord, Hash)]
pub struct ConnectorRef {
    pub owner: OwnerRef,
    pub connector: String,
}

#[derive(Debug, Clone, PartialEq, Eq, PartialOrd, Ord, Hash)]
pub struct PositionRef {
    pub owner: OwnerRef,
    pub connector: String,
    pub position: String,
}

#[derive(Debug, Clone, PartialEq, Eq, PartialOrd, Ord, Hash)]
pub struct JunctionRef {
    pub owner: OwnerRef,
    pub junction: String,
}

#[derive(Debug, Clone, PartialEq, Eq, PartialOrd, Ord, Hash)]
pub enum PhysicalEndpointRef {
    Connector(ConnectorRef),
    Position(PositionRef),
    Junction(JunctionRef),
}

#[derive(Debug, Clone, PartialEq, Eq, PartialOrd, Ord, Hash)]
pub struct NetworkRef {
    pub scope: ReferenceScope,
    pub network: String,
}

/// A structured reference to one canonical stream group in an HCDF include-instance scope.
#[derive(Debug, Clone, PartialEq, Eq, PartialOrd, Ord, Hash)]
pub struct StreamGroupRef {
    pub scope: ReferenceScope,
    pub group: String,
}

#[derive(Debug, Clone, PartialEq, Eq, PartialOrd, Ord, Hash)]
pub struct ConnectivityFunctionRef {
    pub component: ComponentRef,
    pub function: String,
}

#[derive(Debug, Clone, PartialEq, Eq, PartialOrd, Ord, Hash)]
pub struct ParticipantRef {
    pub network: NetworkRef,
    pub participant: String,
}

#[derive(Debug, Clone, PartialEq, Eq, PartialOrd, Ord, Hash)]
pub struct HopRef {
    pub network: NetworkRef,
    pub hop: String,
}

#[derive(Debug, Clone, PartialEq, Eq, PartialOrd, Ord, Hash)]
pub struct LegRef {
    pub network: NetworkRef,
    pub leg: String,
}

#[derive(Debug, Clone, PartialEq, Eq, PartialOrd, Ord, Hash)]
pub struct TrafficClassRef {
    pub network: NetworkRef,
    pub traffic_class: String,
}

#[derive(Debug, Clone, PartialEq, Eq, PartialOrd, Ord, Hash)]
pub struct ScheduleRef {
    pub network: NetworkRef,
    pub schedule: String,
}

#[derive(Debug, Clone, PartialEq, Eq, PartialOrd, Ord, Hash)]
pub struct MacsecPolicyRef {
    pub network: NetworkRef,
    pub policy: String,
}

#[derive(Debug, Clone, PartialEq, Eq, PartialOrd, Ord, Hash)]
pub enum TopologySegmentRef {
    Network(NetworkRef),
    Leg(LegRef),
}

#[derive(Debug, Clone, Copy, PartialEq, Eq, PartialOrd, Ord, Hash, Default, Structural)]
pub enum Fidelity {
    #[default]
    Functional,
    Presented,
    Exact,
    Quantified,
}

#[derive(Debug, Clone, Copy, PartialEq, Eq, PartialOrd, Ord, Hash, Structural)]
pub enum Purpose {
    Communication,
    PowerDelivery,
    MaterialTransfer,
}

#[derive(Debug, Clone, Copy, PartialEq, Eq, PartialOrd, Ord, Hash, Structural)]
pub enum Carrier {
    Electrical,
    GuidedOptical,
    ConductedRf,
    RadiatedRf,
    Liquid,
    Gas,
}

#[derive(Debug, Clone, Copy, PartialEq, Eq, PartialOrd, Ord, Hash, Structural)]
pub enum Topology {
    Link,
    Bus,
    Chain,
    Star,
    Ring,
    Mesh,
    Tree,
}

#[derive(Debug, Clone, Copy, PartialEq, Eq, PartialOrd, Ord, Hash, Structural)]
pub enum PositionKind {
    Pin,
    Socket,
    Contact,
    Fiber,
    Passage,
    Feed,
    WaveguideOpening,
}

#[derive(Debug, Clone, Copy, PartialEq, Eq, PartialOrd, Ord, Hash, Structural)]
pub enum PathKind {
    Wire,
    Conductor,
    CableMember,
    Fiber,
    Coax,
    Waveguide,
    Feed,
    Hose,
    Pipe,
    Passage,
}

#[derive(Debug, Clone, Copy, PartialEq, Eq, PartialOrd, Ord, Hash, Structural)]
pub enum JunctionKind {
    Splice,
    Tee,
    Manifold,
    Busbar,
    OpticalSplitter,
}

#[derive(Debug, Clone, Copy, PartialEq, Eq, PartialOrd, Ord, Hash, Structural)]
pub enum FunctionKind {
    Switch,
    Bridge,
    Converter,
    Transceiver,
    Radio,
}

/// Strong classification for a physical connectivity assembly.
#[derive(Debug, Clone, Copy, PartialEq, Eq, PartialOrd, Ord, Hash, Structural)]
pub enum AssemblyKind {
    Harness,
    Cable,
    Plumbing,
    Umbilical,
}

/// One typed physical or operational quantity.
#[derive(Debug, Clone, PartialEq)]
pub struct Quantity {
    pub value: Float64,
    pub unit: String,
}

/// Supported minimum, maximum, and nominal value for one quantity axis.
#[derive(Debug, Clone, PartialEq, Default)]
pub struct QuantityRange {
    pub minimum: Option<Quantity>,
    pub maximum: Option<Quantity>,
    pub nominal: Option<Quantity>,
}

/// An exact selected value or a fully bounded selected operating range.
#[derive(Debug, Clone, PartialEq)]
pub enum SelectionQuantity {
    Nominal(Quantity),
    Range(SelectionRange),
}

#[derive(Debug, Clone, PartialEq)]
pub struct SelectionRange {
    pub minimum: Quantity,
    pub maximum: Quantity,
    pub nominal: Option<Quantity>,
}

#[derive(Debug, Clone, PartialEq)]
pub struct RfSelection {
    pub channel: RfChannelSelection,
}

#[derive(Debug, Clone, PartialEq)]
pub enum RfChannelSelection {
    Numbered {
        number: u32,
        center_frequency: Option<SelectionQuantity>,
        bandwidth: Option<SelectionQuantity>,
    },
    FrequencyDefined {
        center_frequency: SelectionQuantity,
        bandwidth: Option<SelectionQuantity>,
    },
}

/// Typed capability limits shared across connectivity domains.
#[derive(Debug, Clone, PartialEq, Default)]
pub struct CapabilityLimits {
    pub rate: Option<QuantityRange>,
    pub voltage: Option<QuantityRange>,
    pub current: Option<QuantityRange>,
    pub power: Option<QuantityRange>,
    pub impedance: Option<QuantityRange>,
    pub frequency: Option<QuantityRange>,
    pub bandwidth: Option<QuantityRange>,
    pub pressure: Option<QuantityRange>,
    pub flow: Option<QuantityRange>,
    pub temperature: Option<QuantityRange>,
}

/// Supported possibility declared by a port or channel.
#[derive(Debug, Clone, PartialEq)]
pub struct Capabilities {
    pub purposes: SortedSet<Purpose>,
    pub carriers: SortedSet<Carrier>,
    pub profiles: SortedSet<QualifiedId>,
    pub limits: CapabilityLimits,
}

/// Configuration selected for a logical network, including its required active axes.
#[derive(Debug, Clone, PartialEq)]
pub struct NetworkSelection {
    pub purpose: Purpose,
    pub carrier: Carrier,
    pub profiles: SortedSet<QualifiedId>,
    pub rate: Option<SelectionQuantity>,
    pub voltage: Option<SelectionQuantity>,
    pub current: Option<SelectionQuantity>,
    pub power: Option<SelectionQuantity>,
    pub impedance: Option<SelectionQuantity>,
    pub frequency: Option<SelectionQuantity>,
    pub rf: Option<RfSelection>,
    pub pressure: Option<SelectionQuantity>,
    pub flow: Option<SelectionQuantity>,
    pub temperature: Option<SelectionQuantity>,
}

#[derive(Debug, Clone, PartialEq)]
pub struct Channel {
    pub name: String,
    pub role: Option<QualifiedId>,
    pub local_group: Option<String>,
    pub capabilities: Capabilities,
}

#[derive(Debug, Clone, PartialEq)]
pub struct Port {
    pub name: String,
    pub capabilities: Capabilities,
    pub channels: Vec<Channel>,
}

#[derive(Debug, Clone, PartialEq)]
pub enum PrimitiveRepresentation {
    Box {
        size: [Float64; 3],
    },
    /// Cylinder length extends along local +Z.
    Cylinder {
        radius: Float64,
        length: Float64,
    },
    Sphere {
        radius: Float64,
    },
}

#[derive(Debug, Clone, PartialEq)]
pub struct ModelRepresentation {
    pub uri: String,
    pub sha: Option<String>,
    pub node_path: Option<String>,
}

#[derive(Debug, Clone, PartialEq, Eq)]
pub enum ModelRootRef {
    ComponentVisual {
        component: ComponentRef,
        visual: String,
    },
    AssemblyModel {
        assembly: AssemblyRef,
    },
}

#[derive(Debug, Clone, PartialEq, Eq)]
pub struct ModelPartRepresentation {
    pub model_root: ModelRootRef,
    pub node_path: String,
    pub submesh_fallback: Option<String>,
}

/// Explicit frame for a placement or route waypoint.
#[derive(Debug, Clone, PartialEq, Eq)]
pub enum RouteFrameRef {
    World,
    ComponentOrigin {
        component: ComponentRef,
    },
    ComponentFrame {
        component: ComponentRef,
        frame: String,
    },
}
/// RPY is fixed-axis XYZ in radians. Quaternion values are x, y, z, w with scalar last.
#[derive(Debug, Clone, PartialEq)]
pub enum PlacementRotation {
    Rpy([Float64; 3]),
    Quaternion([Float64; 4]),
}

#[derive(Debug, Clone, PartialEq)]
pub struct Placement {
    pub frame: RouteFrameRef,
    pub xyz: [Float64; 3],
    pub rotation: PlacementRotation,
}

#[derive(Debug, Clone, PartialEq)]
pub struct RoutePoint {
    pub frame: RouteFrameRef,
    pub xyz: [Float64; 3],
    /// Cross-section orientation in the waypoint frame. Local +Z follows the route tangent;
    /// local +X spans rectangular width and local +Y spans rectangular height.
    pub rotation: Option<PlacementRotation>,
}

#[derive(Debug, Clone, PartialEq)]
pub enum RouteSection {
    Round { diameter: Float64 },
    Rectangular { width: Float64, height: Float64 },
}

#[derive(Debug, Clone, PartialEq)]
pub struct DerivedRouteRepresentation {
    pub waypoints: Vec<RoutePoint>,
    pub section: Option<RouteSection>,
}

/// Exactly one primary physical presentation form.
#[derive(Debug, Clone, PartialEq)]
pub enum Representation {
    Primitive {
        primitive: PrimitiveRepresentation,
        placement: Placement,
    },
    Model {
        model: ModelRepresentation,
        placement: Placement,
    },
    ModelPart(ModelPartRepresentation),
    DerivedRoute(DerivedRouteRepresentation),
}

#[derive(Debug, Clone, PartialEq)]
pub struct Position {
    pub name: String,
    pub kind: PositionKind,
    pub role: Option<QualifiedId>,
    pub local_group: Option<String>,
    pub representation: Option<Representation>,
}

#[derive(Debug, Clone, PartialEq)]
pub struct Connector {
    pub name: String,
    pub family: Option<QualifiedId>,
    pub positions: Vec<Position>,
    pub representation: Option<Representation>,
}

#[derive(Debug, Clone, PartialEq)]
pub struct Antenna {
    pub name: String,
    pub conducted_port: Option<PortRef>,
    pub radiated_port: PortRef,
    pub representation: Option<Representation>,
}

/// One named structural visual retained as a model-root candidate.
#[derive(Debug, Clone, PartialEq, Eq)]
pub struct StructuralVisual {
    pub name: String,
    pub model_backed: bool,
}

/// Structural anchors retained from one component without changing the XML structural model.
#[derive(Debug, Clone, PartialEq, Eq)]
pub struct StructuralAnchors {
    pub component: String,
    pub visuals: Vec<StructuralVisual>,
    pub frames: Vec<String>,
}

/// Connectivity declarations owned by an existing structural component.
#[derive(Debug, Clone, PartialEq)]
pub struct ComponentConnectivity {
    pub component: String,
    pub ports: Vec<Port>,
    pub connectors: Vec<Connector>,
    pub antennas: Vec<Antenna>,
    pub functions: Vec<ConnectivityFunction>,
    pub paths: Vec<PhysicalPath>,
    pub junctions: Vec<Junction>,
    pub terminations: Vec<Termination>,
}

/// A harness, cable, plumbing assembly, or hybrid umbilical that owns physical objects but is not a
/// structural component or network participant.
#[derive(Debug, Clone, PartialEq)]
pub struct PhysicalAssembly {
    pub name: String,
    pub connectors: Vec<Connector>,
    pub kind: AssemblyKind,
    pub representation: Option<Representation>,
    pub paths: Vec<PhysicalPath>,
    pub junctions: Vec<Junction>,
    pub terminations: Vec<Termination>,
}

#[derive(Debug, Clone, PartialEq, Eq)]
pub struct Binding {
    pub name: String,
    pub functional: FunctionalEndpointRef,
    pub physical: PhysicalEndpointRef,
    pub fidelity: Fidelity,
}

#[derive(Debug, Clone, PartialEq, Eq)]
pub struct PositionMapping {
    pub first: PositionRef,
    pub second: PositionRef,
}

#[derive(Debug, Clone, PartialEq)]
pub struct Mate {
    pub name: String,
    pub first: ConnectorRef,
    pub second: ConnectorRef,
    pub mappings: Vec<PositionMapping>,
    pub fidelity: Fidelity,
}

#[derive(Debug, Clone, PartialEq)]
pub struct PhysicalPath {
    pub name: String,
    pub kind: PathKind,
    pub first: PhysicalEndpointRef,
    pub second: PhysicalEndpointRef,
    pub fidelity: Fidelity,
    pub role: Option<QualifiedId>,
    pub local_group: Option<String>,
    pub representation: Option<Representation>,
}

#[derive(Debug, Clone, PartialEq)]
pub struct Junction {
    pub name: String,
    pub kind: JunctionKind,
    pub fidelity: Fidelity,
    pub attachments: Vec<PhysicalEndpointRef>,
    pub representation: Option<Representation>,
}

#[derive(Debug, Clone, Copy, PartialEq, Eq, PartialOrd, Ord, Hash, Structural)]
pub enum TerminationMounting {
    Endpoint,
    Inline,
    Branch,
    Closure,
}

#[derive(Debug, Clone, PartialEq)]
pub struct NamedQuantity {
    pub property: QualifiedId,
    pub quantity: Quantity,
}

#[derive(Debug, Clone, PartialEq)]
pub struct Termination {
    pub name: String,
    pub kind: QualifiedId,
    pub mounting: TerminationMounting,
    pub attachments: Vec<PhysicalEndpointRef>,
    pub quantities: Vec<NamedQuantity>,
    pub fidelity: Fidelity,
    pub profile: Option<QualifiedId>,
    pub representation: Option<Representation>,
}

#[derive(Debug, Clone, PartialEq, Eq)]
pub enum HopOwnerRef {
    Component(ComponentRef),
    Function(ConnectivityFunctionRef),
}

#[derive(Debug, Clone, PartialEq, Eq)]
pub struct Hop {
    pub name: String,
    pub owner: HopOwnerRef,
    pub role: Option<QualifiedId>,
    pub description: Option<String>,
    pub processing_delay_ns: Option<u64>,
}

#[derive(Debug, Clone, PartialEq, Eq)]
pub struct LegEnd {
    pub hop: HopRef,
    pub participant: ParticipantRef,
}

#[derive(Debug, Clone, PartialEq, Eq)]
pub struct Leg {
    pub name: String,
    pub from: LegEnd,
    pub to: LegEnd,
}

#[derive(Debug, Clone, PartialEq, Eq)]
pub struct PathTopology {
    pub hops: Vec<Hop>,
    pub legs: Vec<Leg>,
}

#[derive(Debug, Clone, PartialEq, Eq)]
pub struct StarTopology {
    pub coordinator: ParticipantRef,
}

#[derive(Debug, Clone, PartialEq, Eq)]
pub struct TreeTopology {
    pub root: HopRef,
    pub hops: Vec<Hop>,
    pub legs: Vec<Leg>,
}

#[derive(Debug, Clone, PartialEq, Eq)]
pub enum NetworkStructure {
    Link,
    Bus,
    Chain(PathTopology),
    Star(StarTopology),
    Ring(PathTopology),
    Mesh,
    Tree(TreeTopology),
}

#[derive(Debug, Clone, Copy, PartialEq, Eq, PartialOrd, Ord, Hash, Structural)]
pub enum GptpClockKind {
    Ordinary,
    Boundary,
    Transparent,
}

#[derive(Debug, Clone, PartialEq, Eq, Default)]
pub struct GptpPortDefaults {
    pub log_sync_interval: Option<i8>,
    pub log_announce_interval: Option<i8>,
    pub log_pdelay_req_interval: Option<i8>,
    pub announce_receipt_timeout: Option<u8>,
    pub neighbor_prop_delay_threshold_ns: Option<u64>,
}

#[derive(Debug, Clone, PartialEq, Eq)]
pub struct GptpClock {
    pub name: String,
    pub participant: ParticipantRef,
    pub kind: GptpClockKind,
    pub gm_capable: bool,
    pub priority1: Option<u8>,
    pub priority2: Option<u8>,
    pub clock_class: Option<u8>,
    pub clock_accuracy: Option<u8>,
}

#[derive(Debug, Clone, PartialEq, Eq)]
pub struct GptpDomain {
    pub name: String,
    pub number: u8,
    pub port_defaults: Option<GptpPortDefaults>,
    pub clocks: Vec<GptpClock>,
}

#[derive(Debug, Clone, Copy, PartialEq, Eq, PartialOrd, Ord, Hash, Structural)]
pub enum TrafficPreemption {
    Express,
    Preemptable,
}

#[derive(Debug, Clone, PartialEq)]
pub struct TrafficClass {
    pub name: String,
    pub number: u8,
    pub description: Option<String>,
    pub preemption: Option<TrafficPreemption>,
    pub pcp: BTreeSet<u8>,
}

#[derive(Debug, Clone, PartialEq)]
pub struct GateControlEntry {
    pub duration_ns: u64,
    pub open: SortedSet<TrafficClassRef>,
}

#[derive(Debug, Clone, PartialEq)]
pub struct GateSchedule {
    pub name: String,
    pub cycle_time_ns: u64,
    pub entries: Vec<GateControlEntry>,
}

#[derive(Debug, Clone, PartialEq, Eq)]
pub struct ScheduleAssignment {
    pub name: String,
    pub schedule: ScheduleRef,
    pub targets: Vec<ParticipantRef>,
}

#[derive(Debug, Clone, PartialEq, Eq)]
pub struct PlcaNode {
    pub node_id: u8,
    pub burst_count: u8,
    pub burst_timer_bit_times: u16,
    pub participant: ParticipantRef,
}

#[derive(Debug, Clone, PartialEq, Eq)]
pub struct PlcaConfiguration {
    pub max_node_id: u8,
    pub to_timer_bit_times: u16,
    pub nodes: Vec<PlcaNode>,
}

#[derive(Debug, Clone, Copy, PartialEq, Eq, PartialOrd, Ord, Hash, Structural)]
pub enum MacsecEnforcement {
    MustSecure,
    ShouldSecure,
    IntegrityOnly,
    Disabled,
}

#[derive(Debug, Clone, PartialEq, Eq)]
pub struct MacsecPolicyDefinition {
    pub name: String,
    pub enforcement: MacsecEnforcement,
    pub cipher: Option<QualifiedId>,
    pub key_agreement: Option<QualifiedId>,
    pub confidentiality_offset: Option<u8>,
    pub rekey_interval_ns: Option<u64>,
    pub credential_store_ref: Option<String>,
}

#[derive(Debug, Clone, PartialEq, Eq)]
pub struct MacsecOverride {
    pub target: TopologySegmentRef,
    pub policy: MacsecPolicyRef,
}

#[derive(Debug, Clone, PartialEq, Eq)]
pub struct MacsecConfiguration {
    pub policies: Vec<MacsecPolicyDefinition>,
    pub default_policy: Option<MacsecPolicyRef>,
    pub overrides: Vec<MacsecOverride>,
}

#[derive(Debug, Clone, Copy, PartialEq, Eq, PartialOrd, Ord, Hash, Structural)]
pub enum EeeMode {
    Enabled,
    Disabled,
}

#[derive(Debug, Clone, PartialEq, Eq)]
pub struct EeeOverride {
    pub participant: ParticipantRef,
    pub mode: EeeMode,
}

#[derive(Debug, Clone, PartialEq, Eq)]
pub struct EeeConfiguration {
    pub default_mode: EeeMode,
    pub overrides: Vec<EeeOverride>,
}

#[derive(Debug, Clone, PartialEq)]
pub struct NetworkConfiguration {
    pub gptp_domains: Vec<GptpDomain>,
    pub traffic_classes: Vec<TrafficClass>,
    pub gate_schedules: Vec<GateSchedule>,
    pub schedule_assignments: Vec<ScheduleAssignment>,
    pub plca: Option<PlcaConfiguration>,
    pub macsec: Option<MacsecConfiguration>,
    pub eee: Option<EeeConfiguration>,
}

#[derive(Debug, Clone, PartialEq)]
pub struct Participant {
    pub name: String,
    pub endpoint: FunctionalEndpointRef,
    pub role: Option<QualifiedId>,
}

#[derive(Debug, Clone, PartialEq)]
pub struct Network {
    pub name: String,
    pub structure: NetworkStructure,
    pub description: Option<String>,
    pub selected: NetworkSelection,
    pub participants: Vec<Participant>,
    pub configuration: NetworkConfiguration,
}

/// Active or directional behavior over ordinary component ports.
#[derive(Debug, Clone, PartialEq, Eq)]
pub struct ConnectivityFunction {
    pub name: String,
    pub kind: FunctionKind,
    pub inputs: Vec<FunctionalEndpointRef>,
    pub outputs: Vec<FunctionalEndpointRef>,
    pub bidirectional: Vec<FunctionalEndpointRef>,
}

/// All connectivity declarations authored in one root or include instance.
#[derive(Debug, Clone, PartialEq)]
pub struct ConnectivityScope {
    pub instance: IncludeInstanceId,
    pub structural_anchors: Vec<StructuralAnchors>,
    pub components: Vec<ComponentConnectivity>,
    pub assemblies: Vec<PhysicalAssembly>,
    pub bindings: Vec<Binding>,
    pub mates: Vec<Mate>,
    pub networks: Vec<Network>,
}

/// Connectivity content for a root document and all loaded include instances.
#[derive(Debug, Clone, PartialEq)]
pub struct ConnectivityDocument {
    pub document: DocumentIdentity,
    pub scopes: Vec<ConnectivityScope>,
}

// Identity values.

/// Whether a character is an ASCII letter.
pub open spec fn is_letter(c: char) -> bool {
    'a' <= c <= 'z' || 'A' <= c <= 'Z'
}

/// Whether a character is an ASCII letter or digit.
pub open spec fn is_alphanumeric(c: char) -> bool {
    is_letter(c) || '0' <= c <= '9'
}

/// Whether a character may stand in the authority of a qualified identifier.
pub open spec fn is_authority_char(c: char) -> bool {
    is_alphanumeric(c) || c == '.' || c == '_' || c == '-'
}

/// Whether a character may stand in the local part of a qualified identifier.
pub open spec fn is_local_char(c: char) -> bool {
    is_authority_char(c) || c == '/' || c == '+'
}

/// Whether a text is the authority of a qualified identifier.
pub open spec fn is_authority(text: Seq<char>) -> bool {
    &&& text.len() > 0
    &&& is_letter(text[0])
    &&& forall|i: int| 0 <= i < text.len() ==> is_authority_char(#[trigger] text[i])
}

/// Whether a text is the local part of a qualified identifier.
pub open spec fn is_local_part(text: Seq<char>) -> bool {
    &&& text.len() > 0
    &&& is_alphanumeric(text[0])
    &&& forall|i: int| 0 <= i < text.len() ==> is_local_char(#[trigger] text[i])
}

/// Whether a text has the form `authority:local`, split at its first colon.
pub open spec fn is_qualified(text: Seq<char>) -> bool {
    exists|colon: int| #[trigger]
        text::is_first(text, ':', colon) && is_authority(text.take(colon)) && is_local_part(
            text.skip(colon + 1),
        )
}

fn letter(c: char) -> (r: bool)
    ensures
        r == is_letter(c),
{
    ('a' <= c && c <= 'z') || ('A' <= c && c <= 'Z')
}

fn alphanumeric(c: char) -> (r: bool)
    ensures
        r == is_alphanumeric(c),
{
    letter(c) || ('0' <= c && c <= '9')
}

fn authority_char(c: char) -> (r: bool)
    ensures
        r == is_authority_char(c),
{
    alphanumeric(c) || c == '.' || c == '_' || c == '-'
}

fn local_char(c: char) -> (r: bool)
    ensures
        r == is_local_char(c),
{
    authority_char(c) || c == '/' || c == '+'
}

impl DocumentIdentity {
    /// The identity text.
    pub closed spec fn text(&self) -> Seq<char> {
        self.0@
    }

    /// An identity with this text; a blank text is refused.
    pub fn new(value: String) -> (r: Result<Self, IdentityValueError>)
        ensures
            match r {
                Ok(id) => !text::is_blank(value@) && id.text() == value@,
                Err(e) => text::is_blank(value@) && e == IdentityValueError::EmptyDocumentIdentity,
            },
    {
        if text::blank(value.as_str()) {
            return Err(IdentityValueError::EmptyDocumentIdentity);
        }
        Ok(DocumentIdentity(value))
    }

    /// The identity text.
    pub fn as_str(&self) -> (r: &str)
        ensures
            r@ == self.text(),
    {
        self.0.as_str()
    }
}

impl Clone for DocumentIdentity {
    fn clone(&self) -> (r: Self)
        ensures
            r == *self,
    {
        DocumentIdentity(self.0.clone())
    }
}

impl QualifiedId {
    /// The identifier text.
    pub closed spec fn text(&self) -> Seq<char> {
        self.0@
    }

    /// An identifier with this text, which must have the form `authority:local`.
    pub fn new(value: String) -> (r: Result<Self, IdentityValueError>)
        ensures
            match r {
                Ok(id) => is_qualified(value@) && id.text() == value@,
                Err(e) => !is_qualified(value@) && e == IdentityValueError::UnqualifiedIdentifier(
                    value,
                ),
            },
    {
        let cs = text::chars(value.as_str());
        match text::find(cs.as_slice(), ':', 0) {
            None => {
                assert(forall|colon: int| !text::is_first(value@, ':', colon));
                Err(IdentityValueError::UnqualifiedIdentifier(value))
            },
            Some(colon) => {
                proof {
                    text::first_is_unique(value@, ':');
                    assert(text::is_first(value@, ':', colon as int));
                }
                let authority = Self::authority_at(&cs, colon);
                let local = Self::local_after(&cs, colon);
                if !authority || !local {
                    return Err(IdentityValueError::UnqualifiedIdentifier(value));
                }
                Ok(QualifiedId(value))
            },
        }
    }

    fn authority_at(cs: &Vec<char>, colon: usize) -> (r: bool)
        requires
            colon < cs@.len(),
        ensures
            r == is_authority(cs@.take(colon as int)),
    {
        let ghost part = cs@.take(colon as int);
        if colon == 0 || !letter(cs[0]) {
            assert(colon > 0 ==> part[0] == cs@[0]);
            return false;
        }
        assert(part[0] == cs@[0]);
        let mut i: usize = 0;
        while i < colon
            invariant
                i <= colon < cs@.len(),
                part == cs@.take(colon as int),
                forall|k: int| 0 <= k < i ==> is_authority_char(#[trigger] part[k]),
            decreases colon - i,
        {
            assert(part[i as int] == cs@[i as int]);
            if !authority_char(cs[i]) {
                return false;
            }
            i += 1;
        }
        true
    }

    fn local_after(cs: &Vec<char>, colon: usize) -> (r: bool)
        requires
            colon < cs@.len(),
        ensures
            r == is_local_part(cs@.skip(colon + 1)),
    {
        let ghost part = cs@.skip(colon + 1);
        let total: usize = cs.len();
        let start: usize = colon + 1;
        if start == total || !alphanumeric(cs[start]) {
            assert(start < cs@.len() ==> part[0] == cs@[start as int]);
            return false;
        }
        assert(part[0] == cs@[start as int]);
        let mut i: usize = start;
        while i < cs.len()
            invariant
                start <= i <= cs@.len(),
                start == colon + 1,
                part == cs@.skip(colon + 1),
                forall|k: int| 0 <= k < i - start ==> is_local_char(#[trigger] part[k]),
            decreases cs@.len() - i,
        {
            assert(part[i - start] == cs@[i as int]);
            if !local_char(cs[i]) {
                return false;
            }
            i += 1;
        }
        true
    }

    /// The identifier text.
    pub fn as_str(&self) -> (r: &str)
        ensures
            r@ == self.text(),
    {
        self.0.as_str()
    }
}

impl Clone for QualifiedId {
    fn clone(&self) -> (r: Self)
        ensures
            r == *self,
    {
        QualifiedId(self.0.clone())
    }
}

impl IdentityValueError {
    /// What the error says.
    pub open spec fn text(&self) -> Seq<char> {
        match self {
            IdentityValueError::EmptyDocumentIdentity => "document identity must not be empty"@,
            IdentityValueError::UnqualifiedIdentifier(value) => "qualified identifier "@
                + text::debug_chars(value@) + " must use a safe ASCII authority:local token"@,
        }
    }

    /// What the error says.
    pub fn message(&self) -> (r: String)
        ensures
            r@ == self.text(),
    {
        match self {
            IdentityValueError::EmptyDocumentIdentity => "document identity must not be empty".to_owned(),
            IdentityValueError::UnqualifiedIdentifier(value) => {
                let mut out: String = "qualified identifier ".to_owned();
                out.append(text::debug_text(value.as_str()).as_str());
                out.append(" must use a safe ASCII authority:local token");
                out
            },
        }
    }
}

// Include instances.

impl IncludeSegmentName {
    /// A named segment.
    pub fn named(value: String) -> (r: Self)
        ensures
            r == IncludeSegmentName::Named(value),
    {
        IncludeSegmentName::Named(value)
    }

    /// A segment without a name.
    pub fn unnamed() -> (r: Self)
        ensures
            r == IncludeSegmentName::Unnamed,
    {
        IncludeSegmentName::Unnamed
    }

    /// The name, where there is one.
    pub fn as_named(&self) -> (r: Option<&str>)
        ensures
            match (*self, r) {
                (IncludeSegmentName::Unnamed, None) => true,
                (IncludeSegmentName::Named(value), Some(name)) => name@ == value@,
                _ => false,
            },
    {
        match self {
            IncludeSegmentName::Unnamed => None,
            IncludeSegmentName::Named(value) => Some(value.as_str()),
        }
    }

    /// How the segment name is shown.
    pub open spec fn text(&self) -> Seq<char> {
        match self {
            IncludeSegmentName::Unnamed => "unnamed"@,
            IncludeSegmentName::Named(value) => "named("@ + text::debug_chars(value@) + ")"@,
        }
    }

    /// Shows the segment name.
    pub fn to_text(&self) -> (r: String)
        ensures
            r@ == self.text(),
    {
        match self {
            IncludeSegmentName::Unnamed => "unnamed".to_owned(),
            IncludeSegmentName::Named(value) => {
                let mut out: String = "named(".to_owned();
                out.append(text::debug_text(value.as_str()).as_str());
                out.append(")");
                out
            },
        }
    }
}

impl Clone for IncludeSegmentName {
    fn clone(&self) -> (r: Self)
        ensures
            r == *self,
    {
        match self {
            IncludeSegmentName::Unnamed => IncludeSegmentName::Unnamed,
            IncludeSegmentName::Named(value) => IncludeSegmentName::Named(value.clone()),
        }
    }
}

impl IncludeInstanceSegment {
    /// A named segment with its occurrence number.
    pub fn named(name: String, occurrence: u32) -> (r: Self)
        ensures
            r == (IncludeInstanceSegment { name: IncludeSegmentName::Named(name), occurrence }),
    {
        IncludeInstanceSegment { name: IncludeSegmentName::named(name), occurrence }
    }

    /// An unnamed segment with its occurrence number.
    pub fn unnamed(occurrence: u32) -> (r: Self)
        ensures
            r == (IncludeInstanceSegment { name: IncludeSegmentName::Unnamed, occurrence }),
    {
        IncludeInstanceSegment { name: IncludeSegmentName::unnamed(), occurrence }
    }

    /// How the segment is shown: its name, `#` and its occurrence number.
    pub open spec fn text(&self) -> Seq<char> {
        self.name.text() + "#"@ + text::decimal(self.occurrence as nat)
    }
}

impl Clone for IncludeInstanceSegment {
    fn clone(&self) -> (r: Self)
        ensures
            r == *self,
    {
        IncludeInstanceSegment { name: self.name.clone(), occurrence: self.occurrence }
    }
}

impl View for IncludeInstanceId {
    type V = Seq<IncludeInstanceSegment>;

    closed spec fn view(&self) -> Seq<IncludeInstanceSegment> {
        self.0@
    }
}

/// The texts of the segments, joined by ` / `.
pub open spec fn joined_segments(segments: Seq<IncludeInstanceSegment>) -> Seq<char>
    decreases segments.len(),
{
    if segments.len() == 0 {
        Seq::empty()
    } else if segments.len() == 1 {
        segments[0].text()
    } else {
        joined_segments(segments.drop_last()) + " / "@ + segments.last().text()
    }
}

impl IncludeInstanceId {
    /// The instance of the root document: no segments.
    pub fn root() -> (r: Self)
        ensures
            r@ == Seq::<IncludeInstanceSegment>::empty(),
    {
        IncludeInstanceId(Vec::new())
    }

    /// The instance one named segment below this one.
    pub fn child(&self, name: String, occurrence: u32) -> (r: Self)
        ensures
            r@ == self@.push(
                IncludeInstanceSegment { name: IncludeSegmentName::Named(name), occurrence },
            ),
    {
        self.named_child(name, occurrence)
    }

    /// The instance one named segment below this one.
    pub fn named_child(&self, name: String, occurrence: u32) -> (r: Self)
        ensures
            r@ == self@.push(
                IncludeInstanceSegment { name: IncludeSegmentName::Named(name), occurrence },
            ),
    {
        self.segment_child(IncludeInstanceSegment::named(name, occurrence))
    }

    /// The instance one unnamed segment below this one.
    pub fn unnamed_child(&self, occurrence: u32) -> (r: Self)
        ensures
            r@ == self@.push(
                IncludeInstanceSegment { name: IncludeSegmentName::Unnamed, occurrence },
            ),
    {
        self.segment_child(IncludeInstanceSegment::unnamed(occurrence))
    }

    /// The instance one segment below this one.
    pub fn segment_child(&self, segment: IncludeInstanceSegment) -> (r: Self)
        ensures
            r@ == self@.push(segment),
    {
        let mut segments = self.clone().0;
        segments.push(segment);
        IncludeInstanceId(segments)
    }

    /// The segments, outermost first.
    pub fn segments(&self) -> (r: &[IncludeInstanceSegment])
        ensures
            r@ == self@,
    {
        self.0.as_slice()
    }

    /// Whether this is the instance of the root document.
    pub fn is_root(&self) -> (r: bool)
        ensures
            r == (self@.len() == 0),
    {
        self.0.len() == 0
    }

    /// The instance one segment above; the root has none.
    pub fn parent(&self) -> (r: Option<Self>)
        ensures
            match r {
                Some(parent) => self@.len() > 0 && parent@ == self@.drop_last(),
                None => self@.len() == 0,
            },
    {
        if self.is_root() {
            return None;
        }
        let mut segments = self.clone().0;
        let _ = segments.pop();
        Some(IncludeInstanceId(segments))
    }

    /// How the instance is shown.
    pub open spec fn display_text(&self) -> Seq<char> {
        if self@.len() == 0 {
            "<root>"@
        } else {
            joined_segments(self@)
        }
    }

    /// Shows the instance: its segments joined by ` / `, or `<root>`.
    pub fn display_path(&self) -> (r: String)
        ensures
            r@ == self.display_text(),
    {
        if self.is_root() {
            return "<root>".to_owned();
        }
        let mut out: String = String::new();
        let mut i: usize = 0;
        while i < self.0.len()
            invariant
                i <= self@.len(),
                self@ == self.0@,
                out@ == joined_segments(self@.take(i as int)),
            decreases self@.len() - i,
        {
            let ghost upto = self@.take(i + 1);
            assert(upto.drop_last() =~= self@.take(i as int));
            assert(upto.last() == self@[i as int]);
            let mut shown: String = self.0[i].name.to_text();
            shown.append("#");
            shown.append(text::decimal_text(self.0[i].occurrence as u64).as_str());
            assert(shown@ == self@[i as int].text());
            if i == 0 {
                out = shown;
            } else {
                out.append(" / ");
                out.append(shown.as_str());
            }
            i += 1;
        }
        assert(self@.take(self@.len() as int) =~= self@);
        out
    }

    /// A child's parent is the instance it was made from.
    pub proof fn parent_undoes_child(segments: Seq<IncludeInstanceSegment>, segment: IncludeInstanceSegment)
        ensures
            segments.push(segment).len() > 0,
            segments.push(segment).drop_last() == segments,
    {
        assert(segments.push(segment).drop_last() =~= segments);
    }
}

impl Clone for IncludeInstanceId {
    fn clone(&self) -> (r: Self)
        ensures
            r@ == self@,
    {
        let segments = self.0.clone();
        assert(segments@ =~= self.0@);
        IncludeInstanceId(segments)
    }
}

impl ReferenceScope {
    /// The instance that a reference in `local` reaches: `local` itself, or the instance below it
    /// that the reference spells out.
    pub open spec fn resolved(&self, local: Seq<IncludeInstanceSegment>) -> Seq<
        IncludeInstanceSegment,
    > {
        match self {
            ReferenceScope::Local => local,
            ReferenceScope::Instance(relative) => local + relative@,
        }
    }

    /// Whether two scopes are written the same.
    pub open spec fn same_as(&self, other: ReferenceScope) -> bool {
        match (*self, other) {
            (ReferenceScope::Local, ReferenceScope::Local) => true,
            (ReferenceScope::Instance(a), ReferenceScope::Instance(b)) => a@ == b@,
            _ => false,
        }
    }

    /// The scope that an authored reference has: local without an instance, and otherwise an instance
    /// that is spelled out.
    pub fn authored(instance: Option<IncludeInstanceId>) -> (r: Result<Self, &'static str>)
        ensures
            match instance {
                None => r == Ok::<Self, &'static str>(ReferenceScope::Local),
                Some(path) => if path@.len() == 0 {
                    r matches Err(words) && words@
                        == "an explicit instance scope must contain at least one segment"@
                } else {
                    r == Ok::<Self, &'static str>(ReferenceScope::Instance(path))
                },
            },
    {
        match instance {
            None => Ok(ReferenceScope::Local),
            Some(path) => if path.is_root() {
                Err("an explicit instance scope must contain at least one segment")
            } else {
                Ok(ReferenceScope::Instance(path))
            },
        }
    }

    /// Resolves the scope of a reference that stands in `local`.
    pub fn resolve(&self, local: &IncludeInstanceId) -> (r: IncludeInstanceId)
        ensures
            r@ == self.resolved(local@),
    {
        match self {
            ReferenceScope::Local => local.clone(),
            ReferenceScope::Instance(relative) => {
                let mut resolved = local.clone();
                let segments = relative.segments();
                let mut i: usize = 0;
                while i < segments.len()
                    invariant
                        i <= segments@.len(),
                        segments@ == relative@,
                        resolved@ == local@ + relative@.take(i as int),
                    decreases segments@.len() - i,
                {
                    resolved = resolved.segment_child(segments[i].clone());
                    i += 1;
                    assert(relative@.take(i as int) =~= relative@.take(i - 1).push(
                        relative@[i - 1],
                    ));
                    assert(resolved@ =~= local@ + relative@.take(i as int));
                }
                assert(relative@.take(relative@.len() as int) =~= relative@);
                resolved
            },
        }
    }
}

impl Clone for ReferenceScope {
    fn clone(&self) -> (r: Self)
        ensures
            r.same_as(*self),
    {
        match self {
            ReferenceScope::Local => ReferenceScope::Local,
            ReferenceScope::Instance(instance) => ReferenceScope::Instance(instance.clone()),
        }
    }
}

/// Resolving in two steps reaches the same instance as resolving the joined path at once.
pub proof fn resolution_composes(
    outer: ReferenceScope,
    inner: ReferenceScope,
    local: Seq<IncludeInstanceSegment>,
)
    ensures
        inner.resolved(outer.resolved(local)) == outer.resolved(local) + inner.resolved(
            Seq::empty(),
        ),
{
    assert(inner.resolved(outer.resolved(local)) =~= outer.resolved(local) + inner.resolved(
        Seq::empty(),
    ));
}

impl ComponentRef {
    /// Refers to a component of the same instance.
    pub fn local(component: String) -> (r: Self)
        ensures
            r == (ComponentRef { scope: ReferenceScope::Local, component }),
    {
        ComponentRef { scope: ReferenceScope::Local, component }
    }
}

impl ComponentRef {
    /// Refers to a component of an explicit instance.
    pub fn in_instance(instance: IncludeInstanceId, component: String) -> (r: Self)
        ensures
            r == (ComponentRef { scope: ReferenceScope::Instance(instance), component }),
    {
        ComponentRef { scope: ReferenceScope::Instance(instance), component }
    }
}

impl AssemblyRef {
    /// Refers to an assembly of the same instance.
    pub fn local(assembly: String) -> (r: Self)
        ensures
            r == (AssemblyRef { scope: ReferenceScope::Local, assembly }),
    {
        AssemblyRef { scope: ReferenceScope::Local, assembly }
    }
}

impl AssemblyRef {
    /// Refers to an assembly of an explicit instance.
    pub fn in_instance(instance: IncludeInstanceId, assembly: String) -> (r: Self)
        ensures
            r == (AssemblyRef { scope: ReferenceScope::Instance(instance), assembly }),
    {
        AssemblyRef { scope: ReferenceScope::Instance(instance), assembly }
    }
}

impl StructuralVisualRef {
    /// Refers to a visual of a component of the same instance.
    pub fn local(component: String, visual: String) -> (r: Self)
        ensures
            r == (StructuralVisualRef { component: ComponentRef { scope: ReferenceScope::Local, component }, visual }),
    {
        StructuralVisualRef { component: ComponentRef::local(component), visual }
    }
}

impl StructuralVisualRef {
    /// Refers to a visual of a component of an explicit instance.
    pub fn in_instance(instance: IncludeInstanceId, component: String, visual: String) -> (r: Self)
        ensures
            r == (StructuralVisualRef { component: ComponentRef { scope: ReferenceScope::Instance(instance), component }, visual }),
    {
        StructuralVisualRef { component: ComponentRef::in_instance(instance, component), visual }
    }
}

impl StructuralFrameRef {
    /// Refers to a frame of a component of the same instance.
    pub fn local(component: String, frame: String) -> (r: Self)
        ensures
            r == (StructuralFrameRef { component: ComponentRef { scope: ReferenceScope::Local, component }, frame }),
    {
        StructuralFrameRef { component: ComponentRef::local(component), frame }
    }
}

impl StructuralFrameRef {
    /// Refers to a frame of a component of an explicit instance.
    pub fn in_instance(instance: IncludeInstanceId, component: String, frame: String) -> (r: Self)
        ensures
            r == (StructuralFrameRef { component: ComponentRef { scope: ReferenceScope::Instance(instance), component }, frame }),
    {
        StructuralFrameRef { component: ComponentRef::in_instance(instance, component), frame }
    }
}

impl OwnerRef {
    /// A component of the same instance as owner.
    pub fn local_component(component: String) -> (r: Self)
        ensures
            r == (OwnerRef::Component(ComponentRef { scope: ReferenceScope::Local, component })),
    {
        OwnerRef::Component(ComponentRef::local(component))
    }
}

impl OwnerRef {
    /// An assembly of the same instance as owner.
    pub fn local_assembly(assembly: String) -> (r: Self)
        ensures
            r == (OwnerRef::Assembly(AssemblyRef { scope: ReferenceScope::Local, assembly })),
    {
        OwnerRef::Assembly(AssemblyRef::local(assembly))
    }
}

impl OwnerRef {
    /// The scope in which the owner is looked up.
    pub fn scope(&self) -> (r: &ReferenceScope)
        ensures
            *r == match *self {
                OwnerRef::Component(reference) => reference.scope,
                OwnerRef::Assembly(reference) => reference.scope,
            },
    {
        match self {
            OwnerRef::Component(reference) => &reference.scope,
            OwnerRef::Assembly(reference) => &reference.scope,
        }
    }

    /// Whether two owners are written the same.
    pub open spec fn same_as(&self, other: OwnerRef) -> bool {
        match (*self, other) {
            (OwnerRef::Component(a), OwnerRef::Component(b)) => a.scope.same_as(b.scope)
                && a.component == b.component,
            (OwnerRef::Assembly(a), OwnerRef::Assembly(b)) => a.scope.same_as(b.scope) && a.assembly
                == b.assembly,
            _ => false,
        }
    }
}

impl Clone for ComponentRef {
    fn clone(&self) -> (r: Self)
        ensures
            r.scope.same_as(self.scope),
            r.component == self.component,
    {
        ComponentRef { scope: self.scope.clone(), component: self.component.clone() }
    }
}

impl Clone for AssemblyRef {
    fn clone(&self) -> (r: Self)
        ensures
            r.scope.same_as(self.scope),
            r.assembly == self.assembly,
    {
        AssemblyRef { scope: self.scope.clone(), assembly: self.assembly.clone() }
    }
}

impl Clone for OwnerRef {
    fn clone(&self) -> (r: Self)
        ensures
            r.same_as(*self),
    {
        match self {
            OwnerRef::Component(reference) => OwnerRef::Component(reference.clone()),
            OwnerRef::Assembly(reference) => OwnerRef::Assembly(reference.clone()),
        }
    }
}

impl Clone for PortRef {
    fn clone(&self) -> (r: Self)
        ensures
            r.scope.same_as(self.scope),
            r.component == self.component,
            r.port == self.port,
    {
        PortRef {
            scope: self.scope.clone(),
            component: self.component.clone(),
            port: self.port.clone(),
        }
    }
}

impl Clone for ConnectorRef {
    fn clone(&self) -> (r: Self)
        ensures
            r.owner.same_as(self.owner),
            r.connector == self.connector,
    {
        ConnectorRef { owner: self.owner.clone(), connector: self.connector.clone() }
    }
}

impl PortRef {
    /// Refers to a port of a component of the same instance.
    pub fn local(component: String, port: String) -> (r: Self)
        ensures
            r == (PortRef { scope: ReferenceScope::Local, component, port }),
    {
        PortRef { scope: ReferenceScope::Local, component, port }
    }
}

impl PortRef {
    /// Refers to a port of a component of an explicit instance.
    pub fn in_instance(instance: IncludeInstanceId, component: String, port: String) -> (r: Self)
        ensures
            r == (PortRef { scope: ReferenceScope::Instance(instance), component, port }),
    {
        PortRef { scope: ReferenceScope::Instance(instance), component, port }
    }
}

impl ChannelRef {
    /// Refers to a channel of a port of the same instance.
    pub fn local(component: String, port: String, channel: String) -> (r: Self)
        ensures
            r == (ChannelRef { scope: ReferenceScope::Local, component, port, channel }),
    {
        ChannelRef { scope: ReferenceScope::Local, component, port, channel }
    }
}

impl FunctionalEndpointRef {
    /// The port of the endpoint; for a channel, the port that it belongs to.
    pub fn port(&self) -> (r: PortRef)
        ensures
            match *self {
                FunctionalEndpointRef::Port(reference) => {
                    &&& r.scope.same_as(reference.scope)
                    &&& r.component == reference.component
                    &&& r.port == reference.port
                },
                FunctionalEndpointRef::Channel(reference) => {
                    &&& r.scope.same_as(reference.scope)
                    &&& r.component == reference.component
                    &&& r.port == reference.port
                },
            },
    {
        match self {
            FunctionalEndpointRef::Port(reference) => reference.clone(),
            FunctionalEndpointRef::Channel(reference) => PortRef {
                scope: reference.scope.clone(),
                component: reference.component.clone(),
                port: reference.port.clone(),
            },
        }
    }
}

impl ConnectorRef {
    /// Refers to a connector of a component of the same instance.
    pub fn local_component(component: String, connector: String) -> (r: Self)
        ensures
            r == (ConnectorRef { owner: OwnerRef::Component(ComponentRef { scope: ReferenceScope::Local, component }), connector }),
    {
        ConnectorRef { owner: OwnerRef::local_component(component), connector }
    }
}

impl PositionRef {
    /// Refers to a position of a component of the same instance.
    pub fn local_component(component: String, connector: String, position: String) -> (r: Self)
        ensures
            r == (PositionRef { owner: OwnerRef::Component(ComponentRef { scope: ReferenceScope::Local, component }), connector, position }),
    {
        PositionRef { owner: OwnerRef::local_component(component), connector, position }
    }
}

impl JunctionRef {
    /// Refers to a junction of a component of the same instance.
    pub fn local_component(component: String, junction: String) -> (r: Self)
        ensures
            r == (JunctionRef { owner: OwnerRef::Component(ComponentRef { scope: ReferenceScope::Local, component }), junction }),
    {
        JunctionRef { owner: OwnerRef::local_component(component), junction }
    }
}

impl PositionRef {
    /// The connector that the position belongs to.
    pub fn connector_ref(&self) -> (r: ConnectorRef)
        ensures
            r.owner.same_as(self.owner),
            r.connector == self.connector,
    {
        ConnectorRef { owner: self.owner.clone(), connector: self.connector.clone() }
    }
}

impl NetworkRef {
    /// Refers to a network of the same instance.
    pub fn local(network: String) -> (r: Self)
        ensures
            r == (NetworkRef { scope: ReferenceScope::Local, network }),
    {
        NetworkRef { scope: ReferenceScope::Local, network }
    }
}

impl StreamGroupRef {
    /// Refers to a stream group of the same instance.
    pub fn local(group: String) -> (r: Self)
        ensures
            r == (StreamGroupRef { scope: ReferenceScope::Local, group }),
    {
        StreamGroupRef { scope: ReferenceScope::Local, group }
    }
}

impl StreamGroupRef {
    /// Refers to a stream group of an explicit instance.
    pub fn in_instance(instance: IncludeInstanceId, group: String) -> (r: Self)
        ensures
            r == (StreamGroupRef { scope: ReferenceScope::Instance(instance), group }),
    {
        StreamGroupRef { scope: ReferenceScope::Instance(instance), group }
    }
}

impl ConnectivityFunctionRef {
    /// Refers to a function of a component of the same instance.
    pub fn local(component: String, function: String) -> (r: Self)
        ensures
            r == (ConnectivityFunctionRef { component: ComponentRef { scope: ReferenceScope::Local, component }, function }),
    {
        ConnectivityFunctionRef { component: ComponentRef::local(component), function }
    }
}

impl ParticipantRef {
    /// Refers to a participant of a network of the same instance.
    pub fn local(network: String, participant: String) -> (r: Self)
        ensures
            r == (ParticipantRef { network: NetworkRef { scope: ReferenceScope::Local, network }, participant }),
    {
        ParticipantRef { network: NetworkRef::local(network), participant }
    }
}

impl HopRef {
    /// Refers to a hop of a network of the same instance.
    pub fn local(network: String, hop: String) -> (r: Self)
        ensures
            r == (HopRef { network: NetworkRef { scope: ReferenceScope::Local, network }, hop }),
    {
        HopRef { network: NetworkRef::local(network), hop }
    }
}

impl LegRef {
    /// Refers to a leg of a network of the same instance.
    pub fn local(network: String, leg: String) -> (r: Self)
        ensures
            r == (LegRef { network: NetworkRef { scope: ReferenceScope::Local, network }, leg }),
    {
        LegRef { network: NetworkRef::local(network), leg }
    }
}

impl TrafficClassRef {
    /// Refers to a traffic class of a network of the same instance.
    pub fn local(network: String, traffic_class: String) -> (r: Self)
        ensures
            r == (TrafficClassRef { network: NetworkRef { scope: ReferenceScope::Local, network }, traffic_class }),
    {
        TrafficClassRef { network: NetworkRef::local(network), traffic_class }
    }
}

impl ScheduleRef {
    /// Refers to a schedule of a network of the same instance.
    pub fn local(network: String, schedule: String) -> (r: Self)
        ensures
            r == (ScheduleRef { network: NetworkRef { scope: ReferenceScope::Local, network }, schedule }),
    {
        ScheduleRef { network: NetworkRef::local(network), schedule }
    }
}

impl MacsecPolicyRef {
    /// Refers to a MACsec policy of a network of the same instance.
    pub fn local(network: String, policy: String) -> (r: Self)
        ensures
            r == (MacsecPolicyRef { network: NetworkRef { scope: ReferenceScope::Local, network }, policy }),
    {
        MacsecPolicyRef { network: NetworkRef::local(network), policy }
    }
}

impl Fidelity {
    /// Whether the description is exact.
    pub fn is_exact(self) -> (r: bool)
        ensures
            r == (self == Fidelity::Exact || self == Fidelity::Quantified),
    {
        self == Fidelity::Exact || self == Fidelity::Quantified
    }
}

impl RfChannelSelection {
    /// The channel number, where the channel is numbered.
    pub fn number(&self) -> (r: Option<u32>)
        ensures
            r == match *self {
                RfChannelSelection::Numbered { number, .. } => Some(number),
                RfChannelSelection::FrequencyDefined { .. } => None,
            },
    {
        match self {
            RfChannelSelection::Numbered { number, .. } => Some(*number),
            RfChannelSelection::FrequencyDefined { .. } => None,
        }
    }

    /// The center frequency, where one is selected.
    pub fn center_frequency(&self) -> (r: Option<&SelectionQuantity>)
        ensures
            match *self {
                RfChannelSelection::Numbered { center_frequency, .. } => match center_frequency {
                    Some(value) => r == Some(&value),
                    None => r is None,
                },
                RfChannelSelection::FrequencyDefined { center_frequency, .. } => r == Some(
                    &center_frequency,
                ),
            },
    {
        match self {
            RfChannelSelection::Numbered { center_frequency, .. } => center_frequency.as_ref(),
            RfChannelSelection::FrequencyDefined { center_frequency, .. } => Some(center_frequency),
        }
    }

    /// The bandwidth, where one is selected.
    pub fn bandwidth(&self) -> (r: Option<&SelectionQuantity>)
        ensures
            match (match *self {
                RfChannelSelection::Numbered { bandwidth, .. } => bandwidth,
                RfChannelSelection::FrequencyDefined { bandwidth, .. } => bandwidth,
            }) {
                Some(value) => r == Some(&value),
                None => r is None,
            },
    {
        match self {
            RfChannelSelection::Numbered { bandwidth, .. } => bandwidth.as_ref(),
            RfChannelSelection::FrequencyDefined { bandwidth, .. } => bandwidth.as_ref(),
        }
    }
}

impl HopOwnerRef {
    /// The component that owns the hop.
    pub fn component(&self) -> (r: &ComponentRef)
        ensures
            *r == match *self {
                HopOwnerRef::Component(reference) => reference,
                HopOwnerRef::Function(reference) => reference.component,
            },
    {
        match self {
            HopOwnerRef::Component(reference) => reference,
            HopOwnerRef::Function(reference) => &reference.component,
        }
    }
}

impl NetworkStructure {
    /// The hops that the structure spells out.
    pub open spec fn spec_hops(&self) -> Seq<Hop> {
        match *self {
            NetworkStructure::Chain(topology) => topology.hops@,
            NetworkStructure::Ring(topology) => topology.hops@,
            NetworkStructure::Tree(topology) => topology.hops@,
            _ => Seq::empty(),
        }
    }

    /// The legs that the structure spells out.
    pub open spec fn spec_legs(&self) -> Seq<Leg> {
        match *self {
            NetworkStructure::Chain(topology) => topology.legs@,
            NetworkStructure::Ring(topology) => topology.legs@,
            NetworkStructure::Tree(topology) => topology.legs@,
            _ => Seq::empty(),
        }
    }

    /// The topology of the structure.
    pub open spec fn spec_topology(&self) -> Topology {
        match *self {
            NetworkStructure::Link => Topology::Link,
            NetworkStructure::Bus => Topology::Bus,
            NetworkStructure::Chain(_) => Topology::Chain,
            NetworkStructure::Star(_) => Topology::Star,
            NetworkStructure::Ring(_) => Topology::Ring,
            NetworkStructure::Mesh => Topology::Mesh,
            NetworkStructure::Tree(_) => Topology::Tree,
        }
    }

    /// The topology of the structure.
    pub fn topology(&self) -> (r: Topology)
        ensures
            r == self.spec_topology(),
            r == match *self {
                NetworkStructure::Link => Topology::Link,
                NetworkStructure::Bus => Topology::Bus,
                NetworkStructure::Chain(_) => Topology::Chain,
                NetworkStructure::Star(_) => Topology::Star,
                NetworkStructure::Ring(_) => Topology::Ring,
                NetworkStructure::Mesh => Topology::Mesh,
                NetworkStructure::Tree(_) => Topology::Tree,
            },
    {
        match self {
            NetworkStructure::Link => Topology::Link,
            NetworkStructure::Bus => Topology::Bus,
            NetworkStructure::Chain(_) => Topology::Chain,
            NetworkStructure::Star(_) => Topology::Star,
            NetworkStructure::Ring(_) => Topology::Ring,
            NetworkStructure::Mesh => Topology::Mesh,
            NetworkStructure::Tree(_) => Topology::Tree,
        }
    }

    /// The hops of a chain, ring or tree; no other structure has hops.
    pub fn hops(&self) -> (r: &[Hop])
        ensures
            r@ == self.spec_hops(),
    {
        match self {
            NetworkStructure::Chain(topology) => topology.hops.as_slice(),
            NetworkStructure::Ring(topology) => topology.hops.as_slice(),
            NetworkStructure::Tree(topology) => topology.hops.as_slice(),
            _ => {
                let none: &[Hop] = &[];
                assert(none@ =~= Seq::empty());
                none
            },
        }
    }

    /// The legs of a chain, ring or tree; no other structure has legs.
    pub fn legs(&self) -> (r: &[Leg])
        ensures
            r@ == self.spec_legs(),
    {
        match self {
            NetworkStructure::Chain(topology) => topology.legs.as_slice(),
            NetworkStructure::Ring(topology) => topology.legs.as_slice(),
            NetworkStructure::Tree(topology) => topology.legs.as_slice(),
            _ => {
                let none: &[Leg] = &[];
                assert(none@ =~= Seq::empty());
                none
            },
        }
    }
}

impl NetworkConfiguration {
    /// Whether the configuration holds nothing at all.
    pub open spec fn holds_nothing(&self) -> bool {
        &&& self.gptp_domains@.len() == 0
        &&& self.traffic_classes@.len() == 0
        &&& self.gate_schedules@.len() == 0
        &&& self.schedule_assignments@.len() == 0
        &&& self.plca is None
        &&& self.macsec is None
        &&& self.eee is None
    }

    /// Whether the configuration holds nothing at all.
    pub fn is_empty(&self) -> (r: bool)
        ensures
            r == self.holds_nothing(),
    {
        self.gptp_domains.len() == 0 && self.traffic_classes.len() == 0
            && self.gate_schedules.len() == 0 && self.schedule_assignments.len() == 0
            && self.plca.is_none() && self.macsec.is_none() && self.eee.is_none()
    }
}

impl Default for NetworkConfiguration {
    fn default() -> (r: Self)
        ensures
            r.holds_nothing(),
    {
        NetworkConfiguration {
            gptp_domains: Vec::new(),
            traffic_classes: Vec::new(),
            gate_schedules: Vec::new(),
            schedule_assignments: Vec::new(),
            plca: None,
            macsec: None,
            eee: None,
        }
    }
}

impl CapabilityLimits {
    /// No limit at all.
    pub open spec fn no_limits() -> Self {
        CapabilityLimits {
            rate: None,
            voltage: None,
            current: None,
            power: None,
            impedance: None,
            frequency: None,
            bandwidth: None,
            pressure: None,
            flow: None,
            temperature: None,
        }
    }
}

impl Default for Capabilities {
    fn default() -> (r: Self)
        ensures
            r.purposes@.len() == 0,
            r.carriers@.len() == 0,
            r.profiles@.len() == 0,
            r.limits == CapabilityLimits::no_limits(),
    {
        Capabilities {
            purposes: SortedSet::new(),
            carriers: SortedSet::new(),
            profiles: SortedSet::new(),
            limits: CapabilityLimits {
                rate: None,
                voltage: None,
                current: None,
                power: None,
                impedance: None,
                frequency: None,
                bandwidth: None,
                pressure: None,
                flow: None,
                temperature: None,
            },
        }
    }
}

impl ConnectivityScope {
    /// Whether the scope holds no connectivity.
    pub open spec fn holds_nothing(&self) -> bool {
        &&& self.structural_anchors@.len() == 0
        &&& self.components@.len() == 0
        &&& self.assemblies@.len() == 0
        &&& self.bindings@.len() == 0
        &&& self.mates@.len() == 0
        &&& self.networks@.len() == 0
    }

    /// The empty scope of the root instance.
    pub fn root() -> (r: Self)
        ensures
            r.instance@.len() == 0,
            r.holds_nothing(),
    {
        Self::new(IncludeInstanceId::root())
    }

    /// The empty scope of an instance.
    pub fn new(instance: IncludeInstanceId) -> (r: Self)
        ensures
            r.instance == instance,
            r.holds_nothing(),
    {
        ConnectivityScope {
            instance,
            structural_anchors: Vec::new(),
            components: Vec::new(),
            assemblies: Vec::new(),
            bindings: Vec::new(),
            mates: Vec::new(),
            networks: Vec::new(),
        }
    }
}

impl ConnectivityDocument {
    /// A document with the empty scope of the root instance.
    pub fn new(document: DocumentIdentity) -> (r: Self)
        ensures
            r.document == document,
            r.scopes@.len() == 1,
            r.scopes@[0].instance@.len() == 0,
            r.scopes@[0].holds_nothing(),
    {
        let mut scopes: Vec<ConnectivityScope> = Vec::new();
        scopes.push(ConnectivityScope::root());
        ConnectivityDocument { document, scopes }
    }
}

// Ranks.

impl Purpose {
    /// The place of the purpose in the order of declaration.
    pub open spec fn place(self) -> u32 {
        match self {
            Purpose::Communication => 0,
            Purpose::PowerDelivery => 1,
            Purpose::MaterialTransfer => 2,
        }
    }
}

impl Ranked for Purpose {
    open spec fn rank(&self) -> Seq<int> {
        seq![self.place() as int]
    }

    fn rank_words(&self) -> (r: Vec<u32>) {
        let place: u32 = match self {
            Purpose::Communication => 0,
            Purpose::PowerDelivery => 1,
            Purpose::MaterialTransfer => 2,
        };
        let mut out: Vec<u32> = Vec::new();
        crate::order::push_word(&mut out, place);
        assert(crate::order::ints(out@) =~= self.rank());
        out
    }
}

impl Carrier {
    /// The place of the carrier in the order of declaration.
    pub open spec fn place(self) -> u32 {
        match self {
            Carrier::Electrical => 0,
            Carrier::GuidedOptical => 1,
            Carrier::ConductedRf => 2,
            Carrier::RadiatedRf => 3,
            Carrier::Liquid => 4,
            Carrier::Gas => 5,
        }
    }
}

impl Ranked for Carrier {
    open spec fn rank(&self) -> Seq<int> {
        seq![self.place() as int]
    }

    fn rank_words(&self) -> (r: Vec<u32>) {
        let place: u32 = match self {
            Carrier::Electrical => 0,
            Carrier::GuidedOptical => 1,
            Carrier::ConductedRf => 2,
            Carrier::RadiatedRf => 3,
            Carrier::Liquid => 4,
            Carrier::Gas => 5,
        };
        let mut out: Vec<u32> = Vec::new();
        crate::order::push_word(&mut out, place);
        assert(crate::order::ints(out@) =~= self.rank());
        out
    }
}

impl Ranked for QualifiedId {
    open spec fn rank(&self) -> Seq<int> {
        self.text().map_values(|c: char| c as int)
    }

    fn rank_words(&self) -> (r: Vec<u32>) {
        let cs = text::chars(self.as_str());
        let mut out: Vec<u32> = Vec::new();
        let mut i: usize = 0;
        while i < cs.len()
            invariant
                i <= cs@.len(),
                cs@ == self.text(),
                crate::order::ints(out@) == self.rank().take(i as int),
            decreases cs@.len() - i,
        {
            crate::order::push_word(&mut out, text::code(cs[i]));
            i += 1;
            assert(crate::order::ints(out@) =~= self.rank().take(i as int));
        }
        assert(self.rank().take(cs@.len() as int) =~= self.rank());
        out
    }
}

/// Two identifiers rank the same only when they hold the same text.
pub proof fn identifier_rank_is_injective(a: QualifiedId, b: QualifiedId)
    requires
        a.rank() == b.rank(),
    ensures
        a.text() == b.text(),
{
    assert(a.rank().len() == a.text().len() && b.rank().len() == b.text().len());
    assert forall|i: int| 0 <= i < a.text().len() implies a.text()[i] == b.text()[i] by {
        assert(a.rank()[i] == a.text()[i] as int && b.rank()[i] == b.text()[i] as int);
    }
    assert(a.text() =~= b.text());
}

/// The rank of a text inside a longer rank: its characters, then an end mark below all of them.
pub open spec fn text_rank(t: Seq<char>) -> Seq<int> {
    t.map_values(|c: char| c as int + 1).push(0)
}

/// The rank of one segment of an instance.
pub open spec fn segment_rank(segment: IncludeInstanceSegment) -> Seq<int> {
    (match segment.name {
        IncludeSegmentName::Unnamed => seq![0int],
        IncludeSegmentName::Named(name) => seq![1int] + text_rank(name@),
    }).push(segment.occurrence as int)
}

/// The ranks of the segments of an instance, each after a mark that one follows.
pub open spec fn segments_rank(segments: Seq<IncludeInstanceSegment>) -> Seq<int>
    decreases segments.len(),
{
    if segments.len() == 0 {
        Seq::empty()
    } else {
        segments_rank(segments.drop_last()) + seq![1int] + segment_rank(segments.last())
    }
}

/// The rank of a scope: the local scope first, then the instances in lexicographic order.
pub open spec fn scope_rank(scope: ReferenceScope) -> Seq<int> {
    match scope {
        ReferenceScope::Local => seq![0int],
        ReferenceScope::Instance(instance) => seq![1int] + segments_rank(instance@) + seq![0int],
    }
}

fn push_text_rank(out: &mut Vec<u32>, t: &str)
    ensures
        crate::order::ints(final(out)@) == crate::order::ints(old(out)@) + text_rank(t@),
{
    let cs = text::chars(t);
    let ghost start = crate::order::ints(out@);
    let mut i: usize = 0;
    while i < cs.len()
        invariant
            i <= cs@.len(),
            cs@ == t@,
            crate::order::ints(out@) == start + text_rank(t@).take(i as int),
        decreases cs@.len() - i,
    {
        crate::order::push_word(out, text::code(cs[i]) + 1);
        i += 1;
        assert(crate::order::ints(out@) =~= start + text_rank(t@).take(i as int));
    }
    crate::order::push_word(out, 0);
    assert(crate::order::ints(out@) =~= start + text_rank(t@));
}

fn push_segment_rank(out: &mut Vec<u32>, segment: &IncludeInstanceSegment)
    ensures
        crate::order::ints(final(out)@) == crate::order::ints(old(out)@) + segment_rank(*segment),
{
    let ghost start = crate::order::ints(out@);
    match &segment.name {
        IncludeSegmentName::Unnamed => {
            crate::order::push_word(out, 0);
            assert(crate::order::ints(out@) =~= start + seq![0int]);
        },
        IncludeSegmentName::Named(name) => {
            crate::order::push_word(out, 1);
            assert(crate::order::ints(out@) =~= start + seq![1int]);
            push_text_rank(out, name.as_str());
            assert(crate::order::ints(out@) =~= start + (seq![1int] + text_rank(name@)));
        },
    }
    crate::order::push_word(out, segment.occurrence);
    assert(crate::order::ints(out@) =~= start + segment_rank(*segment));
}

fn push_scope_rank(out: &mut Vec<u32>, scope: &ReferenceScope)
    ensures
        crate::order::ints(final(out)@) == crate::order::ints(old(out)@) + scope_rank(*scope),
{
    let ghost start = crate::order::ints(out@);
    match scope {
        ReferenceScope::Local => {
            crate::order::push_word(out, 0);
            assert(crate::order::ints(out@) =~= start + scope_rank(*scope));
        },
        ReferenceScope::Instance(instance) => {
            crate::order::push_word(out, 1);
            let segments = instance.segments();
            let mut i: usize = 0;
            assert(crate::order::ints(out@) =~= start + seq![1int] + segments_rank(
                instance@.take(0),
            ));
            while i < segments.len()
                invariant
                    i <= segments@.len(),
                    segments@ == instance@,
                    crate::order::ints(out@) == start + seq![1int] + segments_rank(
                        instance@.take(i as int),
                    ),
                decreases segments@.len() - i,
            {
                let ghost before = crate::order::ints(out@);
                crate::order::push_word(out, 1);
                assert(crate::order::ints(out@) =~= before + seq![1int]);
                push_segment_rank(out, &segments[i]);
                i += 1;
                assert(instance@.take(i as int).drop_last() =~= instance@.take(i - 1));
                assert(crate::order::ints(out@) =~= start + seq![1int] + segments_rank(
                    instance@.take(i as int),
                ));
            }
            assert(instance@.take(instance@.len() as int) =~= instance@);
            crate::order::push_word(out, 0);
            assert(crate::order::ints(out@) =~= start + scope_rank(*scope));
        },
    }
}

impl Ranked for TrafficClassRef {
    open spec fn rank(&self) -> Seq<int> {
        scope_rank(self.network.scope) + text_rank(self.network.network@) + text_rank(
            self.traffic_class@,
        )
    }

    fn rank_words(&self) -> (r: Vec<u32>) {
        let mut out: Vec<u32> = Vec::new();
        push_scope_rank(&mut out, &self.network.scope);
        push_text_rank(&mut out, self.network.network.as_str());
        push_text_rank(&mut out, self.traffic_class.as_str());
        assert(crate::order::ints(out@) =~= self.rank());
        out
    }
}

proof fn text_rank_splits(a: Seq<char>, x: Seq<int>, b: Seq<char>, y: Seq<int>)
    requires
        text_rank(a) + x == text_rank(b) + y,
    ensures
        a == b,
        x == y,
    decreases a.len(),
{
    let left = text_rank(a) + x;
    let right = text_rank(b) + y;
    assert(left[0] == text_rank(a)[0]);
    assert(right[0] == text_rank(b)[0]);
    if a.len() > 0 {
        text::code_is_natural(a[0]);
    }
    if b.len() > 0 {
        text::code_is_natural(b[0]);
    }
    if a.len() == 0 {
        if b.len() > 0 {
            assert(text_rank(b)[0] == b[0] as int + 1);
        }
        assert(a =~= b);
        assert(x =~= left.skip(1));
        assert(y =~= right.skip(1));
    } else {
        assert(text_rank(a)[0] == a[0] as int + 1);
        if b.len() > 0 {
            assert(text_rank(b)[0] == b[0] as int + 1);
        } else {
            assert(text_rank(b)[0] == 0);
        }
        let a1 = a.drop_first();
        let b1 = b.drop_first();
        assert(text_rank(a1) + x =~= left.skip(1));
        assert(text_rank(b1) + y =~= right.skip(1));
        text_rank_splits(a1, x, b1, y);
        assert(a =~= seq![a[0]] + a1);
        assert(b =~= seq![b[0]] + b1);
    }
}

/// Whether two segments hold the same name and occurrence.
pub open spec fn segments_alike(a: IncludeInstanceSegment, b: IncludeInstanceSegment) -> bool {
    &&& a.occurrence == b.occurrence
    &&& match (a.name, b.name) {
        (IncludeSegmentName::Unnamed, IncludeSegmentName::Unnamed) => true,
        (IncludeSegmentName::Named(x), IncludeSegmentName::Named(y)) => x@ == y@,
        _ => false,
    }
}

/// Whether two instances hold the same segments.
pub open spec fn instances_alike(
    a: Seq<IncludeInstanceSegment>,
    b: Seq<IncludeInstanceSegment>,
) -> bool {
    &&& a.len() == b.len()
    &&& forall|i: int| 0 <= i < a.len() ==> segments_alike(#[trigger] a[i], #[trigger] b[i])
}

/// Whether two scopes reach the same instance from the same place.
pub open spec fn scopes_alike(a: ReferenceScope, b: ReferenceScope) -> bool {
    match (a, b) {
        (ReferenceScope::Local, ReferenceScope::Local) => true,
        (ReferenceScope::Instance(x), ReferenceScope::Instance(y)) => instances_alike(x@, y@),
        _ => false,
    }
}

/// Whether two traffic-class references name the same class.
pub open spec fn traffic_classes_alike(a: TrafficClassRef, b: TrafficClassRef) -> bool {
    &&& scopes_alike(a.network.scope, b.network.scope)
    &&& a.network.network@ == b.network.network@
    &&& a.traffic_class@ == b.traffic_class@
}

proof fn segment_rank_splits(
    a: IncludeInstanceSegment,
    x: Seq<int>,
    b: IncludeInstanceSegment,
    y: Seq<int>,
)
    requires
        segment_rank(a) + x == segment_rank(b) + y,
    ensures
        segments_alike(a, b),
        x == y,
{
    let left = segment_rank(a) + x;
    let right = segment_rank(b) + y;
    assert(left[0] == segment_rank(a)[0]);
    assert(right[0] == segment_rank(b)[0]);
    match (a.name, b.name) {
        (IncludeSegmentName::Unnamed, IncludeSegmentName::Unnamed) => {
            assert(left[1] == a.occurrence as int);
            assert(right[1] == b.occurrence as int);
            assert(x =~= left.skip(2));
            assert(y =~= right.skip(2));
        },
        (IncludeSegmentName::Named(n), IncludeSegmentName::Named(m)) => {
            let x1 = seq![a.occurrence as int] + x;
            let y1 = seq![b.occurrence as int] + y;
            assert(text_rank(n@) + x1 =~= left.skip(1));
            assert(text_rank(m@) + y1 =~= right.skip(1));
            text_rank_splits(n@, x1, m@, y1);
            assert(x1[0] == a.occurrence as int && y1[0] == b.occurrence as int);
            assert(x =~= x1.skip(1));
            assert(y =~= y1.skip(1));
        },
        (IncludeSegmentName::Unnamed, IncludeSegmentName::Named(_)) => {
            assert(left[0] == 0 && right[0] == 1);
        },
        (IncludeSegmentName::Named(_), IncludeSegmentName::Unnamed) => {
            assert(left[0] == 1 && right[0] == 0);
        },
    }
}

proof fn segments_rank_from_front(s: Seq<IncludeInstanceSegment>)
    requires
        s.len() > 0,
    ensures
        segments_rank(s) == seq![1int] + segment_rank(s[0]) + segments_rank(s.drop_first()),
    decreases s.len(),
{
    if s.len() == 1 {
        assert(s.drop_last().len() == 0);
        assert(s.drop_first().len() == 0);
        assert(segments_rank(s.drop_last()) =~= Seq::empty());
        assert(segments_rank(s) =~= seq![1int] + segment_rank(s[0]) + segments_rank(
            s.drop_first(),
        ));
    } else {
        let front = s.drop_last();
        segments_rank_from_front(front);
        assert(front.drop_first() =~= s.drop_first().drop_last());
        assert(front[0] == s[0]);
        assert(s.drop_first().last() == s.last());
        assert(segments_rank(s) =~= seq![1int] + segment_rank(s[0]) + (segments_rank(
            s.drop_first().drop_last(),
        ) + seq![1int] + segment_rank(s.last())));
    }
}

proof fn segments_rank_splits(
    a: Seq<IncludeInstanceSegment>,
    x: Seq<int>,
    b: Seq<IncludeInstanceSegment>,
    y: Seq<int>,
)
    requires
        segments_rank(a) + seq![0int] + x == segments_rank(b) + seq![0int] + y,
    ensures
        instances_alike(a, b),
        x == y,
    decreases a.len(),
{
    let left = segments_rank(a) + seq![0int] + x;
    let right = segments_rank(b) + seq![0int] + y;
    if a.len() > 0 {
        segments_rank_from_front(a);
    }
    if b.len() > 0 {
        segments_rank_from_front(b);
    }
    assert(left[0] == (if a.len() > 0 { 1int } else { 0int }));
    assert(right[0] == (if b.len() > 0 { 1int } else { 0int }));
    if a.len() == 0 {
        assert(x =~= left.skip(1));
        assert(y =~= right.skip(1));
    } else {
        let a1 = a.drop_first();
        let b1 = b.drop_first();
        let x1 = segments_rank(a1) + seq![0int] + x;
        let y1 = segments_rank(b1) + seq![0int] + y;
        assert(segment_rank(a[0]) + x1 =~= left.skip(1));
        assert(segment_rank(b[0]) + y1 =~= right.skip(1));
        segment_rank_splits(a[0], x1, b[0], y1);
        segments_rank_splits(a1, x, b1, y);
        assert forall|i: int| 0 <= i < a.len() implies segments_alike(
            #[trigger] a[i],
            #[trigger] b[i],
        ) by {
            if i > 0 {
                assert(segments_alike(a1[i - 1], b1[i - 1]));
            }
        }
    }
}

proof fn instances_alike_rank(a: Seq<IncludeInstanceSegment>, b: Seq<IncludeInstanceSegment>)
    requires
        instances_alike(a, b),
    ensures
        segments_rank(a) == segments_rank(b),
    decreases a.len(),
{
    if a.len() > 0 {
        assert(segments_alike(a[a.len() - 1], b[b.len() - 1]));
        assert forall|i: int| 0 <= i < a.drop_last().len() implies segments_alike(
            #[trigger] a.drop_last()[i],
            #[trigger] b.drop_last()[i],
        ) by {
            assert(segments_alike(a[i], b[i]));
        }
        instances_alike_rank(a.drop_last(), b.drop_last());
    }
}

/// Traffic-class references rank the same exactly when they name the same class.
pub proof fn traffic_class_rank_is_exact(a: TrafficClassRef, b: TrafficClassRef)
    ensures
        a.rank() == b.rank() <==> traffic_classes_alike(a, b),
{
    let n = text_rank(a.network.network@);
    let m = text_rank(b.network.network@);
    let x = n + text_rank(a.traffic_class@);
    let y = m + text_rank(b.traffic_class@);
    assert(a.rank() =~= scope_rank(a.network.scope) + x);
    assert(b.rank() =~= scope_rank(b.network.scope) + y);
    if a.rank() == b.rank() {
        assert(a.rank()[0] == scope_rank(a.network.scope)[0]);
        assert(b.rank()[0] == scope_rank(b.network.scope)[0]);
        match (a.network.scope, b.network.scope) {
            (ReferenceScope::Local, ReferenceScope::Local) => {
                assert(x =~= a.rank().skip(1));
                assert(y =~= b.rank().skip(1));
            },
            (ReferenceScope::Instance(i), ReferenceScope::Instance(j)) => {
                assert(segments_rank(i@) + seq![0int] + x =~= a.rank().skip(1));
                assert(segments_rank(j@) + seq![0int] + y =~= b.rank().skip(1));
                segments_rank_splits(i@, x, j@, y);
            },
            (ReferenceScope::Local, ReferenceScope::Instance(_)) => {
                assert(a.rank()[0] == 0 && b.rank()[0] == 1);
            },
            (ReferenceScope::Instance(_), ReferenceScope::Local) => {
                assert(a.rank()[0] == 1 && b.rank()[0] == 0);
            },
        }
        text_rank_splits(
            a.network.network@,
            text_rank(a.traffic_class@),
            b.network.network@,
            text_rank(b.traffic_class@),
        );
        assert(text_rank(a.traffic_class@) + Seq::<int>::empty() =~= text_rank(a.traffic_class@));
        assert(text_rank(b.traffic_class@) + Seq::<int>::empty() =~= text_rank(b.traffic_class@));
        text_rank_splits(a.traffic_class@, Seq::empty(), b.traffic_class@, Seq::empty());
    }
    if traffic_classes_alike(a, b) {
        match (a.network.scope, b.network.scope) {
            (ReferenceScope::Instance(i), ReferenceScope::Instance(j)) => {
                instances_alike_rank(i@, j@);
            },
            _ => {},
        }
    }
}

} // verus!
