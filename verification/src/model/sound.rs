//! Which elements of a document can be converted to canonical connectivity.
use vstd::prelude::*;
use crate::float::Float64;
use crate::text;
use super::connectivity as canonical;
use super::connectivity_xml as xml;
use super::convert_configuration;
use super::convert_network::NetworkParts;
use super::{Comp, Hcdf};

verus! {

/// Whether the inclusion path of a reference is sound: it has a step, and no step has an empty name.
pub open spec fn is_instance(x: Option<xml::InstanceRef>) -> bool {
    x matches Some(path) ==> path.segment@.len() > 0 && forall|i: int|
        0 <= i < path.segment@.len() ==> ((#[trigger] path.segment@[i]).name matches Some(name)
            ==> name@.len() > 0)
}

/// Whether an optional text is an identifier, where it is there.
pub open spec fn is_optional_id(x: Option<String>) -> bool {
    x matches Some(text) ==> canonical::is_qualified(text@)
}

/// Whether an optional text has more than white space, where it is there.
pub open spec fn is_optional_text(x: Option<String>) -> bool {
    x matches Some(text) ==> !text::is_blank(text@)
}

/// Whether a functional endpoint is sound.
pub open spec fn is_sound_functional_endpoint(x: xml::FunctionalEndpointRef) -> bool {
    match x.endpoint {
        xml::FunctionalEndpointChoice::Port(a) => is_instance(a.instance),
        xml::FunctionalEndpointChoice::Channel(a) => is_instance(a.instance),
    }
}

/// Whether the owner of a physical element is sound.
pub open spec fn is_sound_owner(x: xml::PhysicalOwnerChoice) -> bool {
    match x {
        xml::PhysicalOwnerChoice::Component(a) => !text::is_blank(a.component@) && is_instance(a.instance),
        xml::PhysicalOwnerChoice::Assembly(a) => !text::is_blank(a.assembly@) && is_instance(a.instance),
    }
}

/// Whether a reference to a connector is sound.
pub open spec fn is_sound_connector_ref(x: xml::ConnectorRef) -> bool {
    &&& !text::is_blank(x.connector@)
    &&& is_sound_owner(x.owner)
}

/// Whether a reference to a position is sound.
pub open spec fn is_sound_position_ref(x: xml::PositionRef) -> bool {
    &&& !text::is_blank(x.connector@)
    &&& !text::is_blank(x.position@)
    &&& is_sound_owner(x.owner)
}

/// Whether a reference to a junction is sound.
pub open spec fn is_sound_junction_ref(x: xml::JunctionRef) -> bool {
    &&& !text::is_blank(x.junction@)
    &&& is_sound_owner(x.owner)
}

/// Whether a physical endpoint is sound.
pub open spec fn is_sound_physical_endpoint(x: xml::PhysicalEndpointRef) -> bool {
    match x.endpoint {
        xml::PhysicalEndpointChoice::Connector(a) => is_sound_connector_ref(a),
        xml::PhysicalEndpointChoice::Position(a) => is_sound_position_ref(a),
        xml::PhysicalEndpointChoice::Junction(a) => is_sound_junction_ref(a),
    }
}

/// Whether the frame of a route is sound.
pub open spec fn is_sound_route_frame(x: xml::RouteFrame) -> bool {
    match x.frame {
        xml::RouteFrameChoice::World(_) => true,
        xml::RouteFrameChoice::ComponentOrigin(a) => !text::is_blank(a.component@) && is_instance(a.instance),
        xml::RouteFrameChoice::ComponentFrame(a) => !text::is_blank(a.component@) && !text::is_blank(a.frame@) && is_instance(a.instance),
    }
}

/// Whether the section of a route is sound: its measures are finite numbers above zero.
pub open spec fn is_sound_section(x: Option<xml::RouteSectionChoice>) -> bool {
    match x {
        None => true,
        Some(xml::RouteSectionChoice::Round(a)) => is_above_zero(a.diameter),
        Some(xml::RouteSectionChoice::Rectangular(a)) => is_above_zero(a.width) && is_above_zero(
            a.height,
        ),
    }
}

/// Whether a number is finite and above zero.
pub open spec fn is_above_zero(f: Float64) -> bool {
    f.is_finite() && !f.is_zero() && f.bits < 0x8000_0000_0000_0000
}

/// Whether the frame of each point of a route is sound.
pub open spec fn all_sound_waypoint(x: Seq<xml::RoutePoint>) -> bool {
    forall|i: int| 0 <= i < x.len() ==> is_sound_route_frame((#[trigger] x[i]).frame)
}

/// Whether a derived route is sound.
pub open spec fn is_sound_derived_route(x: xml::DerivedRouteRepresentation) -> bool {
    &&& is_sound_section(x.section)
    &&& x.waypoint@.len() >= 2
    &&& all_sound_waypoint(x.waypoint@)
}

/// Whether a model is sound.
pub open spec fn is_sound_model(x: xml::ModelRepresentation) -> bool {
    &&& !text::is_blank(x.uri@)
    &&& is_optional_text(x.sha)
    &&& is_optional_text(x.node_path)
    &&& is_sound_route_frame(x.placement.frame)
}

/// Whether the root of a model part is sound.
pub open spec fn is_sound_model_root(x: xml::ModelRoot) -> bool {
    match x.root {
        xml::ModelRootChoice::ComponentVisual(a) => is_instance(a.instance),
        xml::ModelRootChoice::AssemblyModel(a) => is_instance(a.instance),
    }
}

/// Whether a part of a model is sound.
pub open spec fn is_sound_model_part(x: xml::ModelPartRepresentation) -> bool {
    &&& !text::is_blank(x.node_path@)
    &&& is_optional_text(x.submesh_fallback)
    &&& is_sound_model_root(x.model_root)
}

/// Whether a representation is sound.
pub open spec fn is_sound_representation(x: xml::Representation) -> bool {
    match x.variant {
        xml::RepresentationChoice::Box(a) => is_sound_route_frame(a.placement.frame),
        xml::RepresentationChoice::Cylinder(a) => is_sound_route_frame(a.placement.frame),
        xml::RepresentationChoice::Sphere(a) => is_sound_route_frame(a.placement.frame),
        xml::RepresentationChoice::Model(a) => is_sound_model(a),
        xml::RepresentationChoice::ModelPart(a) => is_sound_model_part(a),
        xml::RepresentationChoice::DerivedRoute(a) => is_sound_derived_route(a),
    }
}

/// Whether a list of profiles is sound: each is an identifier, and none is there twice.
pub open spec fn are_profiles(ids: Seq<String>) -> bool {
    &&& forall|i: int| 0 <= i < ids.len() ==> canonical::is_qualified((#[trigger] ids[i])@)
    &&& forall|i: int, j: int|
        0 <= i < j < ids.len() ==> (#[trigger] ids[i])@ != (#[trigger] ids[j])@
}

/// Whether capabilities are sound.
pub open spec fn is_sound_capabilities(x: Option<xml::Capabilities>) -> bool {
    x matches Some(c) ==> are_profiles(c.profile@.map_values(|p: xml::ProfileCapability| p.id))
}

/// Whether the selection of a network is sound.
pub open spec fn is_sound_selection(x: xml::NetworkSelection) -> bool {
    &&& are_profiles(x.profile@.map_values(|p: xml::SelectedProfile| p.id))
}

/// Whether a channel is sound.
pub open spec fn is_sound_channel(x: xml::Channel) -> bool {
    &&& is_optional_id(x.role)
    &&& is_sound_capabilities(x.capabilities)
}

/// Whether each item of a list is sound.
pub open spec fn all_sound_channel(x: Seq<xml::Channel>) -> bool {
    forall|i: int| 0 <= i < x.len() ==> is_sound_channel(#[trigger] x[i])
}

/// Whether a port is sound.
pub open spec fn is_sound_port(x: xml::Port) -> bool {
    &&& all_sound_channel(x.channel@)
    &&& is_sound_capabilities(x.capabilities)
}

/// Whether each item of a list is sound.
pub open spec fn all_sound_port(x: Seq<xml::Port>) -> bool {
    forall|i: int| 0 <= i < x.len() ==> is_sound_port(#[trigger] x[i])
}

/// Whether a position is sound.
pub open spec fn is_sound_position(x: xml::Position) -> bool {
    &&& is_optional_id(x.role)
    &&& (x.representation matches Some(part) ==> is_sound_representation(part))
}

/// Whether each item of a list is sound.
pub open spec fn all_sound_position(x: Seq<xml::Position>) -> bool {
    forall|i: int| 0 <= i < x.len() ==> is_sound_position(#[trigger] x[i])
}

/// Whether a connector is sound.
pub open spec fn is_sound_connector(x: xml::Connector) -> bool {
    &&& is_optional_id(x.family)
    &&& (x.representation matches Some(part) ==> is_sound_representation(part))
    &&& all_sound_position(x.pin@)
    &&& all_sound_position(x.socket@)
    &&& all_sound_position(x.contact@)
    &&& all_sound_position(x.fiber@)
    &&& all_sound_position(x.passage@)
    &&& all_sound_position(x.feed@)
    &&& all_sound_position(x.waveguide_opening@)
}

/// Whether each item of a list is sound.
pub open spec fn all_sound_connector(x: Seq<xml::Connector>) -> bool {
    forall|i: int| 0 <= i < x.len() ==> is_sound_connector(#[trigger] x[i])
}

/// Whether an antenna is sound.
pub open spec fn is_sound_antenna(x: xml::Antenna) -> bool {
    &&& (x.conducted_port matches Some(port) ==> is_instance(port.instance))
    &&& is_instance(x.radiated_port.instance)
    &&& (x.representation matches Some(part) ==> is_sound_representation(part))
}

/// Whether each item of a list is sound.
pub open spec fn all_sound_antenna(x: Seq<xml::Antenna>) -> bool {
    forall|i: int| 0 <= i < x.len() ==> is_sound_antenna(#[trigger] x[i])
}

/// Whether a functional endpoint of a list is sound.
pub open spec fn is_sound_endpoint(x: xml::FunctionalEndpointRef) -> bool {
    is_sound_functional_endpoint(x)
}

/// Whether each item of a list is sound.
pub open spec fn all_sound_endpoint(x: Seq<xml::FunctionalEndpointRef>) -> bool {
    forall|i: int| 0 <= i < x.len() ==> is_sound_endpoint(#[trigger] x[i])
}

/// Whether a function is sound.
pub open spec fn is_sound_function(x: xml::Function) -> bool {
    &&& all_sound_endpoint(x.input@)
    &&& all_sound_endpoint(x.output@)
    &&& all_sound_endpoint(x.bidirectional@)
}

/// Whether each item of a list is sound.
pub open spec fn all_sound_function(x: Seq<xml::Function>) -> bool {
    forall|i: int| 0 <= i < x.len() ==> is_sound_function(#[trigger] x[i])
}

/// Whether a path is sound.
pub open spec fn is_sound_path(x: xml::Path) -> bool {
    &&& is_sound_physical_endpoint(x.first)
    &&& is_sound_physical_endpoint(x.second)
    &&& is_optional_id(x.role)
    &&& (x.representation matches Some(part) ==> is_sound_representation(part))
}

/// Whether each item of a list is sound.
pub open spec fn all_sound_path(x: Seq<xml::Path>) -> bool {
    forall|i: int| 0 <= i < x.len() ==> is_sound_path(#[trigger] x[i])
}

/// Whether an attachment is sound.
pub open spec fn is_sound_attachment(x: xml::PhysicalEndpointRef) -> bool {
    is_sound_physical_endpoint(x)
}

/// Whether each item of a list is sound.
pub open spec fn all_sound_attachment(x: Seq<xml::PhysicalEndpointRef>) -> bool {
    forall|i: int| 0 <= i < x.len() ==> is_sound_attachment(#[trigger] x[i])
}

/// Whether a junction is sound.
pub open spec fn is_sound_junction(x: xml::Junction) -> bool {
    &&& all_sound_attachment(x.attachment@)
    &&& (x.representation matches Some(part) ==> is_sound_representation(part))
}

/// Whether each item of a list is sound.
pub open spec fn all_sound_junction(x: Seq<xml::Junction>) -> bool {
    forall|i: int| 0 <= i < x.len() ==> is_sound_junction(#[trigger] x[i])
}

/// Whether a named quantity is sound.
pub open spec fn is_sound_named_quantity(x: xml::NamedQuantity) -> bool {
    &&& canonical::is_qualified(x.property@)
}

/// Whether each item of a list is sound.
pub open spec fn all_sound_named_quantity(x: Seq<xml::NamedQuantity>) -> bool {
    forall|i: int| 0 <= i < x.len() ==> is_sound_named_quantity(#[trigger] x[i])
}

/// Whether a termination is sound.
pub open spec fn is_sound_termination(x: xml::Termination) -> bool {
    &&& all_sound_attachment(x.attachment@)
    &&& all_sound_named_quantity(x.quantity@)
    &&& canonical::is_qualified(x.kind@)
    &&& is_optional_id(x.profile)
    &&& (x.representation matches Some(part) ==> is_sound_representation(part))
}

/// Whether each item of a list is sound.
pub open spec fn all_sound_termination(x: Seq<xml::Termination>) -> bool {
    forall|i: int| 0 <= i < x.len() ==> is_sound_termination(#[trigger] x[i])
}

/// Whether the connectivity of a component is sound.
pub open spec fn is_sound_component(x: Comp) -> bool {
    &&& all_sound_port(x.port@)
    &&& all_sound_connector(x.connector@)
    &&& all_sound_antenna(x.antenna@)
    &&& all_sound_function(x.switch@)
    &&& all_sound_function(x.bridge@)
    &&& all_sound_function(x.converter@)
    &&& all_sound_function(x.transceiver@)
    &&& all_sound_function(x.radio@)
    &&& all_sound_path(x.wire@)
    &&& all_sound_path(x.conductor@)
    &&& all_sound_path(x.cable_member@)
    &&& all_sound_path(x.fiber@)
    &&& all_sound_path(x.coax@)
    &&& all_sound_path(x.waveguide@)
    &&& all_sound_path(x.feed@)
    &&& all_sound_path(x.hose@)
    &&& all_sound_path(x.pipe@)
    &&& all_sound_path(x.passage@)
    &&& all_sound_junction(x.splice@)
    &&& all_sound_junction(x.tee@)
    &&& all_sound_junction(x.manifold@)
    &&& all_sound_junction(x.busbar@)
    &&& all_sound_junction(x.optical_splitter@)
    &&& all_sound_termination(x.termination@)
}

/// Whether each item of a list is sound.
pub open spec fn all_sound_component(x: Seq<Comp>) -> bool {
    forall|i: int| 0 <= i < x.len() ==> is_sound_component(#[trigger] x[i])
}

/// Whether an assembly is sound.
pub open spec fn is_sound_assembly(x: xml::Assembly) -> bool {
    &&& all_sound_connector(x.connector@)
    &&& all_sound_path(x.wire@)
    &&& all_sound_path(x.conductor@)
    &&& all_sound_path(x.cable_member@)
    &&& all_sound_path(x.fiber@)
    &&& all_sound_path(x.coax@)
    &&& all_sound_path(x.waveguide@)
    &&& all_sound_path(x.feed@)
    &&& all_sound_path(x.hose@)
    &&& all_sound_path(x.pipe@)
    &&& all_sound_path(x.passage@)
    &&& all_sound_junction(x.splice@)
    &&& all_sound_junction(x.tee@)
    &&& all_sound_junction(x.manifold@)
    &&& all_sound_junction(x.busbar@)
    &&& all_sound_junction(x.optical_splitter@)
    &&& all_sound_termination(x.termination@)
    &&& (x.representation matches Some(part) ==> is_sound_representation(part))
}

/// Whether each item of a list is sound.
pub open spec fn all_sound_assembly(x: Seq<xml::Assembly>) -> bool {
    forall|i: int| 0 <= i < x.len() ==> is_sound_assembly(#[trigger] x[i])
}

/// Whether the owner of a hop is sound.
pub open spec fn is_sound_hop_owner(x: xml::HopOwnerRef) -> bool {
    match x.owner {
        xml::HopOwnerChoice::Component(a) => is_instance(a.instance),
        xml::HopOwnerChoice::Function(a) => is_instance(a.instance),
    }
}

/// Whether a hop is sound.
pub open spec fn is_sound_hop(x: xml::Hop) -> bool {
    &&& is_sound_hop_owner(x.owner)
    &&& is_optional_id(x.role)
}

/// Whether each item of a list is sound.
pub open spec fn all_sound_hop(x: Seq<xml::Hop>) -> bool {
    forall|i: int| 0 <= i < x.len() ==> is_sound_hop(#[trigger] x[i])
}

/// Whether an end of a leg is sound.
pub open spec fn is_sound_leg_end(x: xml::LegEnd) -> bool {
    &&& is_instance(x.hop.instance)
    &&& is_instance(x.participant.instance)
}

/// Whether a leg is sound.
pub open spec fn is_sound_leg(x: xml::Leg) -> bool {
    &&& is_sound_leg_end(x.from)
    &&& is_sound_leg_end(x.to)
}

/// Whether each item of a list is sound.
pub open spec fn all_sound_leg(x: Seq<xml::Leg>) -> bool {
    forall|i: int| 0 <= i < x.len() ==> is_sound_leg(#[trigger] x[i])
}

/// Whether a participant is sound.
pub open spec fn is_sound_participant(x: xml::Participant) -> bool {
    &&& is_sound_functional_endpoint(x.endpoint)
    &&& is_optional_id(x.role)
}

/// Whether each item of a list is sound.
pub open spec fn all_sound_participant(x: Seq<xml::Participant>) -> bool {
    forall|i: int| 0 <= i < x.len() ==> is_sound_participant(#[trigger] x[i])
}

/// Whether a gPTP clock is sound.
pub open spec fn is_sound_clock(x: xml::GptpClock) -> bool {
    &&& is_instance(x.participant.instance)
}

/// Whether each item of a list is sound.
pub open spec fn all_sound_clock(x: Seq<xml::GptpClock>) -> bool {
    forall|i: int| 0 <= i < x.len() ==> is_sound_clock(#[trigger] x[i])
}

/// Whether a gPTP domain is sound.
pub open spec fn is_sound_gptp_domain(x: xml::GptpDomain) -> bool {
    &&& all_sound_clock(x.clock@)
}

/// Whether each item of a list is sound.
pub open spec fn all_sound_gptp_domain(x: Seq<xml::GptpDomain>) -> bool {
    forall|i: int| 0 <= i < x.len() ==> is_sound_gptp_domain(#[trigger] x[i])
}

/// Whether no priority code point of a list is there twice.
pub open spec fn are_code_points(x: Seq<xml::PcpValue>) -> bool {
    forall|i: int, j: int|
        0 <= i < j < x.len() ==> (#[trigger] x[i]).value != (#[trigger] x[j]).value
}

/// Whether the traffic classes that a gate opens are sound: none is there twice.
pub open spec fn are_open_classes(x: Seq<xml::TrafficClassRef>) -> bool {
    &&& forall|i: int| 0 <= i < x.len() ==> is_instance((#[trigger] x[i]).instance)
    &&& forall|i: int, j: int|
        0 <= i < j < x.len() ==> !convert_configuration::authored_classes_alike(
            #[trigger] x[i],
            #[trigger] x[j],
        )
}

/// Whether a traffic class is sound.
pub open spec fn is_sound_traffic_class(x: xml::TrafficClass) -> bool {
    &&& are_code_points(x.pcp@)
}

/// Whether each item of a list is sound.
pub open spec fn all_sound_traffic_class(x: Seq<xml::TrafficClass>) -> bool {
    forall|i: int| 0 <= i < x.len() ==> is_sound_traffic_class(#[trigger] x[i])
}

/// Whether a gate control entry is sound.
pub open spec fn is_sound_gate(x: xml::GateControlEntry) -> bool {
    &&& are_open_classes(x.open.traffic_class@)
}

/// Whether each item of a list is sound.
pub open spec fn all_sound_gate(x: Seq<xml::GateControlEntry>) -> bool {
    forall|i: int| 0 <= i < x.len() ==> is_sound_gate(#[trigger] x[i])
}

/// Whether a gate schedule is sound.
pub open spec fn is_sound_gate_schedule(x: xml::GateSchedule) -> bool {
    &&& all_sound_gate(x.gate@)
}

/// Whether each item of a list is sound.
pub open spec fn all_sound_gate_schedule(x: Seq<xml::GateSchedule>) -> bool {
    forall|i: int| 0 <= i < x.len() ==> is_sound_gate_schedule(#[trigger] x[i])
}

/// Whether the target of a schedule is sound.
pub open spec fn is_sound_target(x: xml::ScheduleTarget) -> bool {
    &&& is_instance(x.participant.instance)
}

/// Whether each item of a list is sound.
pub open spec fn all_sound_target(x: Seq<xml::ScheduleTarget>) -> bool {
    forall|i: int| 0 <= i < x.len() ==> is_sound_target(#[trigger] x[i])
}

/// Whether an assignment of a schedule is sound.
pub open spec fn is_sound_schedule_assignment(x: xml::ScheduleAssignment) -> bool {
    &&& all_sound_target(x.target@)
    &&& is_instance(x.schedule.instance)
}

/// Whether each item of a list is sound.
pub open spec fn all_sound_schedule_assignment(x: Seq<xml::ScheduleAssignment>) -> bool {
    forall|i: int| 0 <= i < x.len() ==> is_sound_schedule_assignment(#[trigger] x[i])
}

/// Whether a PLCA node is sound.
pub open spec fn is_sound_plca_node(x: xml::PlcaNode) -> bool {
    &&& is_instance(x.participant.instance)
}

/// Whether each item of a list is sound.
pub open spec fn all_sound_plca_node(x: Seq<xml::PlcaNode>) -> bool {
    forall|i: int| 0 <= i < x.len() ==> is_sound_plca_node(#[trigger] x[i])
}

/// Whether a MACsec policy is sound.
pub open spec fn is_sound_macsec_policy(x: xml::MacsecPolicyDefinition) -> bool {
    &&& is_optional_id(x.cipher)
    &&& is_optional_id(x.key_agreement)
}

/// Whether each item of a list is sound.
pub open spec fn all_sound_macsec_policy(x: Seq<xml::MacsecPolicyDefinition>) -> bool {
    forall|i: int| 0 <= i < x.len() ==> is_sound_macsec_policy(#[trigger] x[i])
}

/// Whether a segment of a topology is sound.
pub open spec fn is_sound_topology_segment(x: xml::TopologySegmentRef) -> bool {
    match x.segment {
        xml::TopologySegmentChoice::Network(a) => is_instance(a.instance),
        xml::TopologySegmentChoice::Leg(a) => is_instance(a.instance),
    }
}

/// Whether an override of a MACsec policy is sound.
pub open spec fn is_sound_macsec_override(x: xml::MacsecOverride) -> bool {
    &&& is_sound_topology_segment(x.target)
    &&& is_instance(x.policy.instance)
}

/// Whether each item of a list is sound.
pub open spec fn all_sound_macsec_override(x: Seq<xml::MacsecOverride>) -> bool {
    forall|i: int| 0 <= i < x.len() ==> is_sound_macsec_override(#[trigger] x[i])
}

/// Whether an override of an energy mode is sound.
pub open spec fn is_sound_eee_override(x: xml::EeeOverride) -> bool {
    &&& is_instance(x.participant.instance)
}

/// Whether each item of a list is sound.
pub open spec fn all_sound_eee_override(x: Seq<xml::EeeOverride>) -> bool {
    forall|i: int| 0 <= i < x.len() ==> is_sound_eee_override(#[trigger] x[i])
}

/// Whether the configuration of a network is sound.
pub open spec fn is_sound_configuration(x: xml::NetworkConfiguration) -> bool {
    &&& all_sound_gptp_domain(x.gptp_domain@)
    &&& all_sound_traffic_class(x.traffic_class@)
    &&& all_sound_gate_schedule(x.gate_schedule@)
    &&& all_sound_schedule_assignment(x.schedule_assignment@)
    &&& (x.plca matches Some(plca) ==> all_sound_plca_node(plca.node@))
    &&& (x.macsec matches Some(macsec) ==> all_sound_macsec_policy(macsec.policy@)
        && all_sound_macsec_override(macsec.override_@) && (macsec.default_policy matches Some(policy)
        ==> is_instance(policy.policy.instance)))
    &&& (x.eee matches Some(eee) ==> all_sound_eee_override(eee.override_@))
}

/// Whether a network is sound, apart from its structure.
pub open spec fn is_sound_network(parts: NetworkParts) -> bool {
    &&& all_sound_participant(parts.participant@)
    &&& *parts.selected matches Some(selected) && is_sound_selection(selected)
    &&& (*parts.configuration matches Some(configuration) ==> is_sound_configuration(configuration))
}

/// Whether a link network is sound.
pub open spec fn is_sound_link(x: xml::Link) -> bool {
    &&& is_sound_network(NetworkParts {
        name: &x.name,
        description: &x.description,
        selected: &x.selected,
        configuration: &x.configuration,
        participant: &x.participant,
    })
}

/// Whether each item of a list is sound.
pub open spec fn all_sound_link(x: Seq<xml::Link>) -> bool {
    forall|i: int| 0 <= i < x.len() ==> is_sound_link(#[trigger] x[i])
}

/// Whether a bus network is sound.
pub open spec fn is_sound_bus(x: xml::Bus) -> bool {
    &&& is_sound_network(NetworkParts {
        name: &x.name,
        description: &x.description,
        selected: &x.selected,
        configuration: &x.configuration,
        participant: &x.participant,
    })
}

/// Whether each item of a list is sound.
pub open spec fn all_sound_bus(x: Seq<xml::Bus>) -> bool {
    forall|i: int| 0 <= i < x.len() ==> is_sound_bus(#[trigger] x[i])
}

/// Whether a chain network is sound.
pub open spec fn is_sound_chain(x: xml::Chain) -> bool {
    &&& is_sound_network(NetworkParts {
        name: &x.name,
        description: &x.description,
        selected: &x.selected,
        configuration: &x.configuration,
        participant: &x.participant,
    })
    &&& all_sound_hop(x.hop@)
    &&& all_sound_leg(x.leg@)
}

/// Whether each item of a list is sound.
pub open spec fn all_sound_chain(x: Seq<xml::Chain>) -> bool {
    forall|i: int| 0 <= i < x.len() ==> is_sound_chain(#[trigger] x[i])
}

/// Whether a star network is sound.
pub open spec fn is_sound_star(x: xml::Star) -> bool {
    &&& is_sound_network(NetworkParts {
        name: &x.name,
        description: &x.description,
        selected: &x.selected,
        configuration: &x.configuration,
        participant: &x.participant,
    })
    &&& is_instance(x.coordinator.participant.instance)
}

/// Whether each item of a list is sound.
pub open spec fn all_sound_star(x: Seq<xml::Star>) -> bool {
    forall|i: int| 0 <= i < x.len() ==> is_sound_star(#[trigger] x[i])
}

/// Whether a ring network is sound.
pub open spec fn is_sound_ring(x: xml::Ring) -> bool {
    &&& is_sound_network(NetworkParts {
        name: &x.name,
        description: &x.description,
        selected: &x.selected,
        configuration: &x.configuration,
        participant: &x.participant,
    })
    &&& all_sound_hop(x.hop@)
    &&& all_sound_leg(x.leg@)
}

/// Whether each item of a list is sound.
pub open spec fn all_sound_ring(x: Seq<xml::Ring>) -> bool {
    forall|i: int| 0 <= i < x.len() ==> is_sound_ring(#[trigger] x[i])
}

/// Whether a mesh network is sound.
pub open spec fn is_sound_mesh(x: xml::Mesh) -> bool {
    &&& is_sound_network(NetworkParts {
        name: &x.name,
        description: &x.description,
        selected: &x.selected,
        configuration: &x.configuration,
        participant: &x.participant,
    })
}

/// Whether each item of a list is sound.
pub open spec fn all_sound_mesh(x: Seq<xml::Mesh>) -> bool {
    forall|i: int| 0 <= i < x.len() ==> is_sound_mesh(#[trigger] x[i])
}

/// Whether a tree network is sound.
pub open spec fn is_sound_tree(x: xml::Tree) -> bool {
    &&& is_sound_network(NetworkParts {
        name: &x.name,
        description: &x.description,
        selected: &x.selected,
        configuration: &x.configuration,
        participant: &x.participant,
    })
    &&& all_sound_hop(x.hop@)
    &&& all_sound_leg(x.leg@)
    &&& is_instance(x.root.hop.instance)
}

/// Whether each item of a list is sound.
pub open spec fn all_sound_tree(x: Seq<xml::Tree>) -> bool {
    forall|i: int| 0 <= i < x.len() ==> is_sound_tree(#[trigger] x[i])
}

/// Whether a binding is sound.
pub open spec fn is_sound_binding(x: xml::Binding) -> bool {
    &&& is_sound_functional_endpoint(x.functional)
    &&& is_sound_physical_endpoint(x.physical)
}

/// Whether each item of a list is sound.
pub open spec fn all_sound_binding(x: Seq<xml::Binding>) -> bool {
    forall|i: int| 0 <= i < x.len() ==> is_sound_binding(#[trigger] x[i])
}

/// Whether a mapping of positions is sound.
pub open spec fn is_sound_position_mapping(x: xml::PositionMapping) -> bool {
    &&& is_sound_position_ref(x.first)
    &&& is_sound_position_ref(x.second)
}

/// Whether each item of a list is sound.
pub open spec fn all_sound_position_mapping(x: Seq<xml::PositionMapping>) -> bool {
    forall|i: int| 0 <= i < x.len() ==> is_sound_position_mapping(#[trigger] x[i])
}

/// Whether a mate is sound.
pub open spec fn is_sound_mate(x: xml::Mate) -> bool {
    &&& all_sound_position_mapping(x.position_mapping@)
    &&& is_sound_connector_ref(x.first)
    &&& is_sound_connector_ref(x.second)
}

/// Whether each item of a list is sound.
pub open spec fn all_sound_mate(x: Seq<xml::Mate>) -> bool {
    forall|i: int| 0 <= i < x.len() ==> is_sound_mate(#[trigger] x[i])
}

/// Whether the connectivity of a document is sound.
pub open spec fn is_sound_document(x: Hcdf) -> bool {
    &&& all_sound_component(x.comp@)
    &&& all_sound_assembly(x.harness@)
    &&& all_sound_assembly(x.cable@)
    &&& all_sound_assembly(x.plumbing@)
    &&& all_sound_assembly(x.umbilical@)
    &&& all_sound_binding(x.binding@)
    &&& all_sound_mate(x.mate@)
    &&& all_sound_link(x.link@)
    &&& all_sound_bus(x.bus@)
    &&& all_sound_chain(x.chain@)
    &&& all_sound_star(x.star@)
    &&& all_sound_ring(x.ring@)
    &&& all_sound_mesh(x.mesh@)
    &&& all_sound_tree(x.tree@)
}

} // verus!
