//! The canonical form of a document says what the document says.
use vstd::prelude::*;
use crate::order::SortedSet;
use super::connectivity as canonical;
use super::connectivity_xml as xml;
use super::content::{Content, identifiers, identifiers_set, text, texts, texts_set};
use super::content_authored as authored;
use super::content_canonical::{
    canonical_anchor_visual, canonical_anchors, canonical_antenna, canonical_assemblies, canonical_assembly, canonical_assembly_ref, canonical_binding, canonical_capabilities, canonical_carriers, canonical_carriers_set, canonical_channel, canonical_channel_ref, canonical_clock, canonical_component, canonical_component_ref, canonical_configuration_part, canonical_connectivity, canonical_connector, canonical_connector_ref, canonical_default_policy, canonical_derived_route, canonical_eee, canonical_eee_override, canonical_function, canonical_function_ref, canonical_functional_endpoint, canonical_functions, canonical_gate, canonical_gate_schedule, canonical_gptp_domain, canonical_hop, canonical_hop_owner, canonical_hop_ref, canonical_instance, canonical_junction, canonical_junction_ref, canonical_junctions, canonical_leg, canonical_leg_end, canonical_leg_ref, canonical_macsec, canonical_macsec_override, canonical_macsec_policy, canonical_macsec_policy_ref, canonical_mate, canonical_maybe_port_ref, canonical_maybe_representation, canonical_maybe_rotation, canonical_model_root, canonical_named_quantity, canonical_network, canonical_network_ref, canonical_networks, canonical_open_classes, canonical_optional_selection, canonical_owner, canonical_participant, canonical_participant_ref, canonical_path, canonical_paths, canonical_physical_endpoint, canonical_placement, canonical_plca, canonical_plca_node, canonical_port, canonical_port_ref, canonical_position, canonical_position_mapping, canonical_position_ref, canonical_positions, canonical_purposes, canonical_purposes_set, canonical_quantity_range, canonical_representation, canonical_rf_selection, canonical_rotation, canonical_route_frame, canonical_route_section, canonical_schedule_assignment, canonical_schedule_ref, canonical_segment, canonical_selection, canonical_selection_quantity, canonical_structure, canonical_target, canonical_termination, canonical_topology_segment, canonical_traffic_class, canonical_way, canonical_waypoint,
};
use super::conversion::Converted;
use super::convert_component;
use super::convert_configuration;
use super::convert_document;
use super::convert_network;
use super::convert_network::NetworkParts;
use super::convert_refs;
use super::convert_representation;
use super::convert_selection;
use super::{Comp, Frame, Hcdf, Visual};

verus! {

proof fn segment_says_the_same(x: xml::InstanceSegment, m: canonical::IncludeInstanceSegment)
    requires
        convert_refs::segment_maps(x, m),
    ensures
        authored::segment(x) == canonical_segment(m),
{
}

proof fn instance_says_the_same(x: Option<xml::InstanceRef>, m: canonical::ReferenceScope)
    requires
        convert_refs::scope_maps(x, m),
    ensures
        authored::instance(x) == canonical_instance(m),
{
    if let (Some(path), canonical::ReferenceScope::Instance(id)) = (x, m) {
        assert forall|i: int| 0 <= i < path.segment@.len() implies authored::segment(
            #[trigger] path.segment@[i],
        ) == canonical_segment(id@[i]) by {
            assert(convert_refs::segment_maps(path.segment@[i], id@[i]));
            segment_says_the_same(path.segment@[i], id@[i]);
        }
        assert(path.segment@.map_values(|e: xml::InstanceSegment| authored::segment(e))
            =~= id@.map_values(|e: canonical::IncludeInstanceSegment| canonical_segment(e)));
    }
}

proof fn component_ref_says_the_same(x: xml::ComponentRef, m: canonical::ComponentRef)
    requires
        convert_refs::component_ref_maps(x, m),
    ensures
        authored::component_ref(x) == canonical_component_ref(m),
{
    instance_says_the_same(x.instance, m.scope);
}

proof fn function_ref_says_the_same(x: xml::ConnectivityFunctionRef, m: canonical::ConnectivityFunctionRef)
    requires
        convert_refs::connectivity_function_ref_maps(x, m),
    ensures
        authored::function_ref(x) == canonical_function_ref(m),
{
    instance_says_the_same(x.instance, m.component.scope);
}

proof fn network_ref_says_the_same(x: xml::NetworkRef, m: canonical::NetworkRef)
    requires
        convert_refs::network_ref_maps(x, m),
    ensures
        authored::network_ref(x) == canonical_network_ref(m),
{
    instance_says_the_same(x.instance, m.scope);
}

proof fn participant_ref_says_the_same(x: xml::ParticipantRef, m: canonical::ParticipantRef)
    requires
        convert_refs::participant_ref_maps(x, m),
    ensures
        authored::participant_ref(x) == canonical_participant_ref(m),
{
    instance_says_the_same(x.instance, m.network.scope);
}

proof fn leg_ref_says_the_same(x: xml::LegRef, m: canonical::LegRef)
    requires
        convert_refs::leg_ref_maps(x, m),
    ensures
        authored::leg_ref(x) == canonical_leg_ref(m),
{
    instance_says_the_same(x.instance, m.network.scope);
}

proof fn schedule_ref_says_the_same(x: xml::ScheduleRef, m: canonical::ScheduleRef)
    requires
        convert_refs::schedule_ref_maps(x, m),
    ensures
        authored::schedule_ref(x) == canonical_schedule_ref(m),
{
    instance_says_the_same(x.instance, m.network.scope);
}

proof fn hop_ref_says_the_same(x: xml::HopRef, m: canonical::HopRef)
    requires
        convert_refs::hop_ref_maps(x, m),
    ensures
        authored::hop_ref(x) == canonical_hop_ref(m),
{
    instance_says_the_same(x.instance, m.network.scope);
}

proof fn macsec_policy_ref_says_the_same(x: xml::MacsecPolicyRef, m: canonical::MacsecPolicyRef)
    requires
        convert_refs::macsec_policy_ref_maps(x, m),
    ensures
        authored::macsec_policy_ref(x) == canonical_macsec_policy_ref(m),
{
    instance_says_the_same(x.instance, m.network.scope);
}

proof fn port_ref_says_the_same(x: xml::PortRef, m: canonical::PortRef)
    requires
        convert_refs::port_ref_maps(x, m),
    ensures
        authored::port_ref(x) == canonical_port_ref(m),
{
    instance_says_the_same(x.instance, m.scope);
}

proof fn channel_ref_says_the_same(x: xml::ChannelRef, m: canonical::ChannelRef)
    requires
        convert_refs::channel_ref_maps(x, m),
    ensures
        authored::channel_ref(x) == canonical_channel_ref(m),
{
    instance_says_the_same(x.instance, m.scope);
}

proof fn functional_endpoint_says_the_same(x: xml::FunctionalEndpointRef, m: canonical::FunctionalEndpointRef)
    requires
        convert_refs::functional_endpoint_maps(x, m),
    ensures
        authored::functional_endpoint(x) == canonical_functional_endpoint(m),
{
    match (x.endpoint, m) {
        (xml::FunctionalEndpointChoice::Port(a), canonical::FunctionalEndpointRef::Port(b)) => {
            port_ref_says_the_same(a, b);
        },
        (xml::FunctionalEndpointChoice::Channel(a), canonical::FunctionalEndpointRef::Channel(b)) => {
            channel_ref_says_the_same(a, b);
        },
        _ => {},
    }
}

proof fn assembly_ref_says_the_same(x: xml::AssemblyRef, m: canonical::AssemblyRef)
    requires
        convert_refs::scope_maps(x.instance, m.scope),
        m.assembly == x.assembly,
    ensures
        authored::assembly_ref(x) == canonical_assembly_ref(m),
{
    instance_says_the_same(x.instance, m.scope);
}

proof fn owner_says_the_same(x: xml::PhysicalOwnerChoice, m: canonical::OwnerRef)
    requires
        convert_refs::owner_maps(x, m),
    ensures
        authored::owner(x) == canonical_owner(m),
{
    match (x, m) {
        (xml::PhysicalOwnerChoice::Component(a), canonical::OwnerRef::Component(b)) => {
            component_ref_says_the_same(a, b);
        },
        (xml::PhysicalOwnerChoice::Assembly(a), canonical::OwnerRef::Assembly(b)) => {
            assembly_ref_says_the_same(a, b);
        },
        _ => {},
    }
}

proof fn connector_ref_says_the_same(x: xml::ConnectorRef, m: canonical::ConnectorRef)
    requires
        convert_refs::connector_ref_maps(x, m),
    ensures
        authored::connector_ref(x) == canonical_connector_ref(m),
{
    owner_says_the_same(x.owner, m.owner);
}

proof fn position_ref_says_the_same(x: xml::PositionRef, m: canonical::PositionRef)
    requires
        convert_refs::position_ref_maps(x, m),
    ensures
        authored::position_ref(x) == canonical_position_ref(m),
{
    owner_says_the_same(x.owner, m.owner);
}

proof fn junction_ref_says_the_same(x: xml::JunctionRef, m: canonical::JunctionRef)
    requires
        convert_refs::junction_ref_maps(x, m),
    ensures
        authored::junction_ref(x) == canonical_junction_ref(m),
{
    owner_says_the_same(x.owner, m.owner);
}

proof fn physical_endpoint_says_the_same(x: xml::PhysicalEndpointRef, m: canonical::PhysicalEndpointRef)
    requires
        convert_refs::physical_endpoint_maps(x, m),
    ensures
        authored::physical_endpoint(x) == canonical_physical_endpoint(m),
{
    match (x.endpoint, m) {
        (xml::PhysicalEndpointChoice::Connector(a), canonical::PhysicalEndpointRef::Connector(b)) => {
            connector_ref_says_the_same(a, b);
        },
        (xml::PhysicalEndpointChoice::Position(a), canonical::PhysicalEndpointRef::Position(b)) => {
            position_ref_says_the_same(a, b);
        },
        (xml::PhysicalEndpointChoice::Junction(a), canonical::PhysicalEndpointRef::Junction(b)) => {
            junction_ref_says_the_same(a, b);
        },
        _ => {},
    }
}

proof fn route_frame_says_the_same(x: xml::RouteFrame, m: canonical::RouteFrameRef)
    requires
        convert_representation::route_frame_maps(x, m),
    ensures
        authored::route_frame(x) == canonical_route_frame(m),
{
    match (x.frame, m) {
        (xml::RouteFrameChoice::ComponentOrigin(a), canonical::RouteFrameRef::ComponentOrigin { component }) => {
            instance_says_the_same(a.instance, component.scope);
        },
        (xml::RouteFrameChoice::ComponentFrame(a), canonical::RouteFrameRef::ComponentFrame { component, frame }) => {
            instance_says_the_same(a.instance, component.scope);
        },
        _ => {},
    }
}

proof fn rotation_says_the_same(x: xml::PlacementRotation, m: canonical::PlacementRotation)
    requires
        convert_representation::rotation_maps(x, m),
    ensures
        authored::rotation(x) == canonical_rotation(m),
{
}

proof fn placement_says_the_same(x: xml::Placement, m: canonical::Placement)
    requires
        convert_representation::placement_maps(x, m),
    ensures
        authored::placement(x) == canonical_placement(m),
{
    route_frame_says_the_same(x.frame, m.frame);
    rotation_says_the_same(x.rotation, m.rotation);
}

proof fn waypoint_says_the_same(x: xml::RoutePoint, m: canonical::RoutePoint)
    requires
        convert_representation::waypoint_maps(x, m),
    ensures
        authored::waypoint(x) == canonical_waypoint(m),
{
    route_frame_says_the_same(x.frame, m.frame);
    if x.rotation is Some {
        rotation_says_the_same(x.rotation->0, m.rotation->0);
    }
    assert(authored::maybe_rotation(x.rotation) == canonical_maybe_rotation(m.rotation));
}

proof fn route_section_says_the_same(
    x: Option<xml::RouteSectionChoice>,
    m: Option<canonical::RouteSection>,
)
    requires
        convert_representation::route_section_maps(x, m),
    ensures
        authored::route_section(x) == canonical_route_section(m),
{
}

proof fn derived_route_says_the_same(x: xml::DerivedRouteRepresentation, m: canonical::DerivedRouteRepresentation)
    requires
        convert_representation::derived_route_maps(x, m),
    ensures
        authored::derived_route(x) == canonical_derived_route(m),
{
    assert forall|i: int| 0 <= i < x.waypoint@.len() implies authored::waypoint(#[trigger] x.waypoint@[i])
        == canonical_waypoint(m.waypoints@[i]) by {
        assert(convert_representation::waypoint_maps(x.waypoint@[i], m.waypoints@[i]));
        waypoint_says_the_same(x.waypoint@[i], m.waypoints@[i]);
    }
    assert(x.waypoint@.map_values(|e: xml::RoutePoint| authored::waypoint(e)) =~= m.waypoints@.map_values(
        |e: canonical::RoutePoint| canonical_waypoint(e),
    ));
    route_section_says_the_same(x.section, m.section);
}

proof fn model_root_says_the_same(x: xml::ModelRoot, m: canonical::ModelRootRef)
    requires
        convert_representation::model_root_maps(x, m),
    ensures
        authored::model_root(x) == canonical_model_root(m),
{
    match (x.root, m) {
        (xml::ModelRootChoice::ComponentVisual(a), canonical::ModelRootRef::ComponentVisual { component, visual }) => {
            instance_says_the_same(a.instance, component.scope);
        },
        (xml::ModelRootChoice::AssemblyModel(a), canonical::ModelRootRef::AssemblyModel { assembly }) => {
            instance_says_the_same(a.instance, assembly.scope);
        },
        _ => {},
    }
}

proof fn representation_says_the_same(x: xml::Representation, m: canonical::Representation)
    requires
        convert_representation::representation_maps(x, m),
    ensures
        authored::representation(x) == canonical_representation(m),
{
    match (x.variant, m) {
        (xml::RepresentationChoice::Box(a), canonical::Representation::Primitive { primitive: canonical::PrimitiveRepresentation::Box { size }, placement }) => {
            placement_says_the_same(a.placement, placement);
        },
        (xml::RepresentationChoice::Cylinder(a), canonical::Representation::Primitive { primitive: canonical::PrimitiveRepresentation::Cylinder { radius, length }, placement }) => {
            placement_says_the_same(a.placement, placement);
        },
        (xml::RepresentationChoice::Sphere(a), canonical::Representation::Primitive { primitive: canonical::PrimitiveRepresentation::Sphere { radius }, placement }) => {
            placement_says_the_same(a.placement, placement);
        },
        (xml::RepresentationChoice::Model(a), canonical::Representation::Model { model, placement }) => {
            placement_says_the_same(a.placement, placement);
        },
        (xml::RepresentationChoice::ModelPart(a), canonical::Representation::ModelPart(b)) => {
            model_root_says_the_same(a.model_root, b.model_root);
        },
        (xml::RepresentationChoice::DerivedRoute(a), canonical::Representation::DerivedRoute(b)) => {
            derived_route_says_the_same(a, b);
        },
        _ => {},
    }
}

proof fn ranges_say_the_same(x: Option<xml::QuantityRange>)
    ensures
        authored::quantity_range(x) == canonical_quantity_range(convert_selection::quantity_range_of(x)),
{
}

proof fn selection_says_the_same(x: xml::SelectionQuantity)
    ensures
        authored::selection_quantity(x) == canonical_selection_quantity(
            convert_selection::selection_quantity_of(x),
        ),
{
}

proof fn optional_selection_says_the_same(x: Option<xml::SelectionQuantity>)
    ensures
        authored::optional_selection(x) == canonical_optional_selection(
            convert_selection::optional_selection_of(x),
        ),
{
    if let Some(selection) = x {
        selection_says_the_same(selection);
    }
}

proof fn rf_says_the_same(x: xml::RfSelection)
    ensures
        authored::rf_selection(Some(x)) == canonical_rf_selection(
            Some(convert_selection::rf_selection_of(x)),
        ),
{
    match x.channel.selection {
        xml::RfChannelSelectionChoice::Numbered(c) => {
            optional_selection_says_the_same(c.center_frequency);
            optional_selection_says_the_same(c.bandwidth);
        },
        xml::RfChannelSelectionChoice::FrequencyDefined(c) => {
            selection_says_the_same(c.center_frequency);
            optional_selection_says_the_same(c.bandwidth);
        },
    }
}

proof fn purposes_say_the_same(
    x: Seq<xml::PurposeCapability>,
    m: SortedSet<canonical::Purpose>,
)
    requires
        convert_selection::purposes_map(x, m),
    ensures
        authored::purposes(x) == canonical_purposes(m@),
{
    assert forall|p: canonical::Purpose| m@.contains(p) == authored::purposes_set(x).contains(p) by {
        assert(m@.contains(p) == convert_selection::has_purpose(x, p));
    }
    assert(authored::purposes_set(x) =~= canonical_purposes_set(m@));
}

proof fn carriers_say_the_same(
    x: Seq<xml::CarrierCapability>,
    m: SortedSet<canonical::Carrier>,
)
    requires
        convert_selection::carriers_map(x, m),
    ensures
        authored::carriers(x) == canonical_carriers(m@),
{
    assert forall|p: canonical::Carrier| m@.contains(p) == authored::carriers_set(x).contains(p) by {
        assert(m@.contains(p) == convert_selection::has_carrier(x, p));
    }
    assert(authored::carriers_set(x) =~= canonical_carriers_set(m@));
}

proof fn profiles_say_the_same(x: Seq<String>, m: SortedSet<canonical::QualifiedId>)
    requires
        convert_selection::profiles_map(x, m),
    ensures
        texts(x) == identifiers(m@),
{
    assert forall|t: Seq<char>| texts_set(x).contains(t) == identifiers_set(m@).contains(t) by {
        if texts_set(x).contains(t) {
            let i = choose|i: int| 0 <= i < x.len() && (#[trigger] x[i])@ == t;
            assert(convert_selection::holds_id(m@, x[i]@));
            let k = choose|k: int| 0 <= k < m@.len() && #[trigger] m@[k].text() == x[i]@;
            assert(m@[k].text() == t);
        }
        if identifiers_set(m@).contains(t) {
            let k = choose|k: int| 0 <= k < m@.len() && (#[trigger] m@[k]).text() == t;
            let i = choose|i: int| 0 <= i < x.len() && x[i]@ == m@[k].text();
            assert(x[i]@ == t);
        }
    }
    assert(texts_set(x) =~= identifiers_set(m@));
}

proof fn capabilities_says_the_same(x: Option<xml::Capabilities>, m: canonical::Capabilities)
    requires
        convert_selection::capabilities_map(x, m),
    ensures
        authored::capabilities(x) == canonical_capabilities(m),
{
    match x {
        None => {
            assert(canonical_purposes_set(m.purposes@) =~= Set::empty());
            assert(canonical_carriers_set(m.carriers@) =~= Set::empty());
            assert(identifiers_set(m.profiles@) =~= Set::empty());
        },
        Some(c) => {
            purposes_say_the_same(c.purpose@, m.purposes);
            carriers_say_the_same(c.carrier@, m.carriers);
            profiles_say_the_same(c.profile@.map_values(|p: xml::ProfileCapability| p.id), m.profiles);
            ranges_say_the_same(c.rate);
            ranges_say_the_same(c.voltage);
            ranges_say_the_same(c.current);
            ranges_say_the_same(c.power);
            ranges_say_the_same(c.impedance);
            ranges_say_the_same(c.frequency);
            ranges_say_the_same(c.bandwidth);
            ranges_say_the_same(c.pressure);
            ranges_say_the_same(c.flow);
            ranges_say_the_same(c.temperature);
        },
    }
}

proof fn selection_says_the_same_in_full(x: xml::NetworkSelection, m: canonical::NetworkSelection)
    requires
        convert_selection::network_selection_maps(x, m),
    ensures
        authored::selection(x) == canonical_selection(m),
{
    profiles_say_the_same(x.profile@.map_values(|p: xml::SelectedProfile| p.id), m.profiles);
    optional_selection_says_the_same(x.rate);
    optional_selection_says_the_same(x.voltage);
    optional_selection_says_the_same(x.current);
    optional_selection_says_the_same(x.power);
    optional_selection_says_the_same(x.impedance);
    optional_selection_says_the_same(x.frequency);
    optional_selection_says_the_same(x.pressure);
    optional_selection_says_the_same(x.flow);
    optional_selection_says_the_same(x.temperature);
    if let Some(rf) = x.rf {
        rf_says_the_same(rf);
    }
}

proof fn channel_says_the_same(x: xml::Channel, m: canonical::Channel)
    requires
        convert_component::channel_maps(x, m),
    ensures
        authored::channel(x) == canonical_channel(m),
{
    capabilities_says_the_same(x.capabilities, m.capabilities);
}

proof fn port_says_the_same(x: xml::Port, m: canonical::Port)
    requires
        convert_component::port_maps(x, m),
    ensures
        authored::port(x) == canonical_port(m),
{
    capabilities_says_the_same(x.capabilities, m.capabilities);
    assert forall|i: int| 0 <= i < x.channel@.len() implies authored::channel(#[trigger] x.channel@[i])
        == canonical_channel(m.channels@[i]) by {
        assert(convert_component::channel_maps(x.channel@[i], m.channels@[i]));
        channel_says_the_same(x.channel@[i], m.channels@[i]);
    }
    assert(x.channel@.map_values(|e: xml::Channel| authored::channel(e)) =~= m.channels@.map_values(
        |e: canonical::Channel| canonical_channel(e),
    ));
}

proof fn position_says_the_same(x: xml::Position, m: canonical::Position, kind: canonical::PositionKind)
    requires
        convert_component::position_maps(x, m, kind),
    ensures
        authored::position(x, kind) == canonical_position(m),
{
    if x.representation is Some {
        representation_says_the_same(x.representation->0, m.representation->0);
    }
    assert(authored::maybe_representation(x.representation) == canonical_maybe_representation(m.representation));
}

proof fn function_says_the_same(x: xml::Function, m: canonical::ConnectivityFunction, kind: canonical::FunctionKind)
    requires
        convert_component::function_maps(x, m, kind),
    ensures
        authored::function(x, kind) == canonical_function(m),
{
    assert forall|i: int| 0 <= i < x.input@.len() implies authored::functional_endpoint(#[trigger] x.input@[i])
        == canonical_functional_endpoint(m.inputs@[i]) by {
        assert(convert_refs::functional_endpoint_maps(x.input@[i], m.inputs@[i]));
        functional_endpoint_says_the_same(x.input@[i], m.inputs@[i]);
    }
    assert(x.input@.map_values(|e: xml::FunctionalEndpointRef| authored::functional_endpoint(e)) =~= m.inputs@.map_values(
        |e: canonical::FunctionalEndpointRef| canonical_functional_endpoint(e),
    ));
    assert forall|i: int| 0 <= i < x.output@.len() implies authored::functional_endpoint(#[trigger] x.output@[i])
        == canonical_functional_endpoint(m.outputs@[i]) by {
        assert(convert_refs::functional_endpoint_maps(x.output@[i], m.outputs@[i]));
        functional_endpoint_says_the_same(x.output@[i], m.outputs@[i]);
    }
    assert(x.output@.map_values(|e: xml::FunctionalEndpointRef| authored::functional_endpoint(e)) =~= m.outputs@.map_values(
        |e: canonical::FunctionalEndpointRef| canonical_functional_endpoint(e),
    ));
    assert forall|i: int| 0 <= i < x.bidirectional@.len() implies authored::functional_endpoint(#[trigger] x.bidirectional@[i])
        == canonical_functional_endpoint(m.bidirectional@[i]) by {
        assert(convert_refs::functional_endpoint_maps(x.bidirectional@[i], m.bidirectional@[i]));
        functional_endpoint_says_the_same(x.bidirectional@[i], m.bidirectional@[i]);
    }
    assert(x.bidirectional@.map_values(|e: xml::FunctionalEndpointRef| authored::functional_endpoint(e)) =~= m.bidirectional@.map_values(
        |e: canonical::FunctionalEndpointRef| canonical_functional_endpoint(e),
    ));
}

proof fn path_says_the_same(x: xml::Path, m: canonical::PhysicalPath, kind: canonical::PathKind)
    requires
        convert_component::physical_path_maps(x, m, kind),
    ensures
        authored::path(x, kind) == canonical_path(m),
{
    physical_endpoint_says_the_same(x.first, m.first);
    physical_endpoint_says_the_same(x.second, m.second);
    if x.representation is Some {
        representation_says_the_same(x.representation->0, m.representation->0);
    }
    assert(authored::maybe_representation(x.representation) == canonical_maybe_representation(m.representation));
}

proof fn junction_says_the_same(x: xml::Junction, m: canonical::Junction, kind: canonical::JunctionKind)
    requires
        convert_component::junction_maps(x, m, kind),
    ensures
        authored::junction(x, kind) == canonical_junction(m),
{
    assert forall|i: int| 0 <= i < x.attachment@.len() implies authored::physical_endpoint(#[trigger] x.attachment@[i])
        == canonical_physical_endpoint(m.attachments@[i]) by {
        assert(convert_refs::physical_endpoint_maps(x.attachment@[i], m.attachments@[i]));
        physical_endpoint_says_the_same(x.attachment@[i], m.attachments@[i]);
    }
    assert(x.attachment@.map_values(|e: xml::PhysicalEndpointRef| authored::physical_endpoint(e)) =~= m.attachments@.map_values(
        |e: canonical::PhysicalEndpointRef| canonical_physical_endpoint(e),
    ));
    if x.representation is Some {
        representation_says_the_same(x.representation->0, m.representation->0);
    }
    assert(authored::maybe_representation(x.representation) == canonical_maybe_representation(m.representation));
}

proof fn goes_on(whole: Seq<Content>, upto: Seq<Content>, more: Seq<Content>)
    requires
        upto.len() + more.len() <= whole.len(),
        whole.take(upto.len() as int) == upto,
        forall|i: int| 0 <= i < more.len() ==> #[trigger] more[i] == whole[upto.len() + i],
    ensures
        whole.take((upto + more).len() as int) == upto + more,
{
    let both = upto + more;
    assert forall|i: int| 0 <= i < both.len() implies both[i] == whole.take(both.len() as int)[i] by {
        if i < upto.len() {
            assert(upto[i] == whole.take(upto.len() as int)[i]);
        } else {
            assert(both[i] == more[i - upto.len()]);
        }
    }
    assert(whole.take(both.len() as int) =~= both);
}

proof fn position_stretch(
    list: Seq<xml::Position>,
    mapped: Seq<canonical::Position>,
    upto: Seq<Content>,
    kind: canonical::PositionKind,
)
    requires
        convert_component::position_run(list, mapped, upto.len() as int, kind),
        upto.len() + list.len() <= mapped.len(),
        canonical_positions(mapped).take(upto.len() as int) == upto,
    ensures
        canonical_positions(mapped).take((upto + authored::positions(list, kind)).len() as int) == upto
            + authored::positions(list, kind),
{
    let whole = canonical_positions(mapped);
    let more = authored::positions(list, kind);
    assert forall|i: int| 0 <= i < more.len() implies more[i] == whole[upto.len() + i] by {
        assert(convert_component::position_maps(list[i], mapped[upto.len() + i], kind));
        position_says_the_same(list[i], mapped[upto.len() + i], kind);
    }
    goes_on(whole, upto, more);
}

proof fn function_stretch(
    list: Seq<xml::Function>,
    mapped: Seq<canonical::ConnectivityFunction>,
    upto: Seq<Content>,
    kind: canonical::FunctionKind,
)
    requires
        convert_component::function_run(list, mapped, upto.len() as int, kind),
        upto.len() + list.len() <= mapped.len(),
        canonical_functions(mapped).take(upto.len() as int) == upto,
    ensures
        canonical_functions(mapped).take((upto + authored::functions(list, kind)).len() as int) == upto
            + authored::functions(list, kind),
{
    let whole = canonical_functions(mapped);
    let more = authored::functions(list, kind);
    assert forall|i: int| 0 <= i < more.len() implies more[i] == whole[upto.len() + i] by {
        assert(convert_component::function_maps(list[i], mapped[upto.len() + i], kind));
        function_says_the_same(list[i], mapped[upto.len() + i], kind);
    }
    goes_on(whole, upto, more);
}

proof fn path_stretch(
    list: Seq<xml::Path>,
    mapped: Seq<canonical::PhysicalPath>,
    upto: Seq<Content>,
    kind: canonical::PathKind,
)
    requires
        convert_component::physical_path_run(list, mapped, upto.len() as int, kind),
        upto.len() + list.len() <= mapped.len(),
        canonical_paths(mapped).take(upto.len() as int) == upto,
    ensures
        canonical_paths(mapped).take((upto + authored::paths(list, kind)).len() as int) == upto
            + authored::paths(list, kind),
{
    let whole = canonical_paths(mapped);
    let more = authored::paths(list, kind);
    assert forall|i: int| 0 <= i < more.len() implies more[i] == whole[upto.len() + i] by {
        assert(convert_component::physical_path_maps(list[i], mapped[upto.len() + i], kind));
        path_says_the_same(list[i], mapped[upto.len() + i], kind);
    }
    goes_on(whole, upto, more);
}

proof fn junction_stretch(
    list: Seq<xml::Junction>,
    mapped: Seq<canonical::Junction>,
    upto: Seq<Content>,
    kind: canonical::JunctionKind,
)
    requires
        convert_component::junction_run(list, mapped, upto.len() as int, kind),
        upto.len() + list.len() <= mapped.len(),
        canonical_junctions(mapped).take(upto.len() as int) == upto,
    ensures
        canonical_junctions(mapped).take((upto + authored::junctions(list, kind)).len() as int) == upto
            + authored::junctions(list, kind),
{
    let whole = canonical_junctions(mapped);
    let more = authored::junctions(list, kind);
    assert forall|i: int| 0 <= i < more.len() implies more[i] == whole[upto.len() + i] by {
        assert(convert_component::junction_maps(list[i], mapped[upto.len() + i], kind));
        junction_says_the_same(list[i], mapped[upto.len() + i], kind);
    }
    goes_on(whole, upto, more);
}

proof fn connector_positions_say_the_same(x: xml::Connector, m: Seq<canonical::Position>)
    requires
        convert_component::all_positions_map(convert_component::position_lists_of(&x), m),
    ensures
        authored::connector_positions(x) == Content::List(canonical_positions(m)),
{
    let whole = canonical_positions(m);
    let upto0 = Seq::<Content>::empty();
    assert(whole.take(0) =~= upto0);
    position_stretch(x.pin@, m, upto0, canonical::PositionKind::Pin);
    let upto1 = upto0 + authored::positions(x.pin@, canonical::PositionKind::Pin);
    position_stretch(x.socket@, m, upto1, canonical::PositionKind::Socket);
    let upto2 = upto1 + authored::positions(x.socket@, canonical::PositionKind::Socket);
    position_stretch(x.contact@, m, upto2, canonical::PositionKind::Contact);
    let upto3 = upto2 + authored::positions(x.contact@, canonical::PositionKind::Contact);
    position_stretch(x.fiber@, m, upto3, canonical::PositionKind::Fiber);
    let upto4 = upto3 + authored::positions(x.fiber@, canonical::PositionKind::Fiber);
    position_stretch(x.passage@, m, upto4, canonical::PositionKind::Passage);
    let upto5 = upto4 + authored::positions(x.passage@, canonical::PositionKind::Passage);
    position_stretch(x.feed@, m, upto5, canonical::PositionKind::Feed);
    let upto6 = upto5 + authored::positions(x.feed@, canonical::PositionKind::Feed);
    position_stretch(x.waveguide_opening@, m, upto6, canonical::PositionKind::WaveguideOpening);
    let upto7 = upto6 + authored::positions(x.waveguide_opening@, canonical::PositionKind::WaveguideOpening);
    assert(whole.take(whole.len() as int) =~= whole);
}

proof fn connector_says_the_same(x: xml::Connector, m: canonical::Connector)
    requires
        convert_component::convert_connector_maps(x, m),
    ensures
        authored::connector(x) == canonical_connector(m),
{
    connector_positions_say_the_same(x, m.positions@);
    if x.representation is Some {
        representation_says_the_same(x.representation->0, m.representation->0);
    }
    assert(authored::maybe_representation(x.representation) == canonical_maybe_representation(m.representation));
}

proof fn antenna_says_the_same(x: xml::Antenna, m: canonical::Antenna)
    requires
        convert_component::antenna_maps(x, m),
    ensures
        authored::antenna(x) == canonical_antenna(m),
{
    if x.conducted_port is Some {
        port_ref_says_the_same(x.conducted_port->0, m.conducted_port->0);
    }
    assert(authored::maybe_port_ref(x.conducted_port) == canonical_maybe_port_ref(m.conducted_port));
    port_ref_says_the_same(x.radiated_port, m.radiated_port);
    if x.representation is Some {
        representation_says_the_same(x.representation->0, m.representation->0);
    }
    assert(authored::maybe_representation(x.representation) == canonical_maybe_representation(m.representation));
}

proof fn named_quantity_says_the_same(x: xml::NamedQuantity, m: canonical::NamedQuantity)
    requires
        convert_component::named_quantity_maps(x, m),
    ensures
        authored::named_quantity(x) == canonical_named_quantity(m),
{
}

proof fn termination_says_the_same(x: xml::Termination, m: canonical::Termination)
    requires
        convert_component::convert_termination_maps(x, m),
    ensures
        authored::termination(x) == canonical_termination(m),
{
    assert forall|i: int| 0 <= i < x.attachment@.len() implies authored::physical_endpoint(#[trigger] x.attachment@[i])
        == canonical_physical_endpoint(m.attachments@[i]) by {
        assert(convert_refs::physical_endpoint_maps(x.attachment@[i], m.attachments@[i]));
        physical_endpoint_says_the_same(x.attachment@[i], m.attachments@[i]);
    }
    assert(x.attachment@.map_values(|e: xml::PhysicalEndpointRef| authored::physical_endpoint(e)) =~= m.attachments@.map_values(
        |e: canonical::PhysicalEndpointRef| canonical_physical_endpoint(e),
    ));
    assert forall|i: int| 0 <= i < x.quantity@.len() implies authored::named_quantity(#[trigger] x.quantity@[i])
        == canonical_named_quantity(m.quantities@[i]) by {
        assert(convert_component::named_quantity_maps(x.quantity@[i], m.quantities@[i]));
        named_quantity_says_the_same(x.quantity@[i], m.quantities@[i]);
    }
    assert(x.quantity@.map_values(|e: xml::NamedQuantity| authored::named_quantity(e)) =~= m.quantities@.map_values(
        |e: canonical::NamedQuantity| canonical_named_quantity(e),
    ));
    if x.representation is Some {
        representation_says_the_same(x.representation->0, m.representation->0);
    }
    assert(authored::maybe_representation(x.representation) == canonical_maybe_representation(m.representation));
}

proof fn component_functions_say_the_same(x: Comp, m: Seq<canonical::ConnectivityFunction>)
    requires
        convert_component::all_functions_map(convert_component::function_lists_of(&x), m),
    ensures
        authored::component_functions(x) == Content::List(canonical_functions(m)),
{
    let whole = canonical_functions(m);
    let upto0 = Seq::<Content>::empty();
    assert(whole.take(0) =~= upto0);
    function_stretch(x.switch@, m, upto0, canonical::FunctionKind::Switch);
    let upto1 = upto0 + authored::functions(x.switch@, canonical::FunctionKind::Switch);
    function_stretch(x.bridge@, m, upto1, canonical::FunctionKind::Bridge);
    let upto2 = upto1 + authored::functions(x.bridge@, canonical::FunctionKind::Bridge);
    function_stretch(x.converter@, m, upto2, canonical::FunctionKind::Converter);
    let upto3 = upto2 + authored::functions(x.converter@, canonical::FunctionKind::Converter);
    function_stretch(x.transceiver@, m, upto3, canonical::FunctionKind::Transceiver);
    let upto4 = upto3 + authored::functions(x.transceiver@, canonical::FunctionKind::Transceiver);
    function_stretch(x.radio@, m, upto4, canonical::FunctionKind::Radio);
    let upto5 = upto4 + authored::functions(x.radio@, canonical::FunctionKind::Radio);
    assert(whole.take(whole.len() as int) =~= whole);
}

proof fn component_paths_say_the_same(x: Comp, m: Seq<canonical::PhysicalPath>)
    requires
        convert_component::all_paths_map(convert_component::component_path_lists_of(&x), m),
    ensures
        authored::component_paths(x) == Content::List(canonical_paths(m)),
{
    let whole = canonical_paths(m);
    let upto0 = Seq::<Content>::empty();
    assert(whole.take(0) =~= upto0);
    path_stretch(x.wire@, m, upto0, canonical::PathKind::Wire);
    let upto1 = upto0 + authored::paths(x.wire@, canonical::PathKind::Wire);
    path_stretch(x.conductor@, m, upto1, canonical::PathKind::Conductor);
    let upto2 = upto1 + authored::paths(x.conductor@, canonical::PathKind::Conductor);
    path_stretch(x.cable_member@, m, upto2, canonical::PathKind::CableMember);
    let upto3 = upto2 + authored::paths(x.cable_member@, canonical::PathKind::CableMember);
    path_stretch(x.fiber@, m, upto3, canonical::PathKind::Fiber);
    let upto4 = upto3 + authored::paths(x.fiber@, canonical::PathKind::Fiber);
    path_stretch(x.coax@, m, upto4, canonical::PathKind::Coax);
    let upto5 = upto4 + authored::paths(x.coax@, canonical::PathKind::Coax);
    path_stretch(x.waveguide@, m, upto5, canonical::PathKind::Waveguide);
    let upto6 = upto5 + authored::paths(x.waveguide@, canonical::PathKind::Waveguide);
    path_stretch(x.feed@, m, upto6, canonical::PathKind::Feed);
    let upto7 = upto6 + authored::paths(x.feed@, canonical::PathKind::Feed);
    path_stretch(x.hose@, m, upto7, canonical::PathKind::Hose);
    let upto8 = upto7 + authored::paths(x.hose@, canonical::PathKind::Hose);
    path_stretch(x.pipe@, m, upto8, canonical::PathKind::Pipe);
    let upto9 = upto8 + authored::paths(x.pipe@, canonical::PathKind::Pipe);
    path_stretch(x.passage@, m, upto9, canonical::PathKind::Passage);
    let upto10 = upto9 + authored::paths(x.passage@, canonical::PathKind::Passage);
    assert(whole.take(whole.len() as int) =~= whole);
}

proof fn component_junctions_say_the_same(x: Comp, m: Seq<canonical::Junction>)
    requires
        convert_component::all_junctions_map(convert_component::component_junction_lists_of(&x), m),
    ensures
        authored::component_junctions(x) == Content::List(canonical_junctions(m)),
{
    let whole = canonical_junctions(m);
    let upto0 = Seq::<Content>::empty();
    assert(whole.take(0) =~= upto0);
    junction_stretch(x.splice@, m, upto0, canonical::JunctionKind::Splice);
    let upto1 = upto0 + authored::junctions(x.splice@, canonical::JunctionKind::Splice);
    junction_stretch(x.tee@, m, upto1, canonical::JunctionKind::Tee);
    let upto2 = upto1 + authored::junctions(x.tee@, canonical::JunctionKind::Tee);
    junction_stretch(x.manifold@, m, upto2, canonical::JunctionKind::Manifold);
    let upto3 = upto2 + authored::junctions(x.manifold@, canonical::JunctionKind::Manifold);
    junction_stretch(x.busbar@, m, upto3, canonical::JunctionKind::Busbar);
    let upto4 = upto3 + authored::junctions(x.busbar@, canonical::JunctionKind::Busbar);
    junction_stretch(x.optical_splitter@, m, upto4, canonical::JunctionKind::OpticalSplitter);
    let upto5 = upto4 + authored::junctions(x.optical_splitter@, canonical::JunctionKind::OpticalSplitter);
    assert(whole.take(whole.len() as int) =~= whole);
}

proof fn assembly_paths_say_the_same(x: xml::Assembly, m: Seq<canonical::PhysicalPath>)
    requires
        convert_component::all_paths_map(convert_component::assembly_path_lists_of(&x), m),
    ensures
        authored::assembly_paths(x) == Content::List(canonical_paths(m)),
{
    let whole = canonical_paths(m);
    let upto0 = Seq::<Content>::empty();
    assert(whole.take(0) =~= upto0);
    path_stretch(x.wire@, m, upto0, canonical::PathKind::Wire);
    let upto1 = upto0 + authored::paths(x.wire@, canonical::PathKind::Wire);
    path_stretch(x.conductor@, m, upto1, canonical::PathKind::Conductor);
    let upto2 = upto1 + authored::paths(x.conductor@, canonical::PathKind::Conductor);
    path_stretch(x.cable_member@, m, upto2, canonical::PathKind::CableMember);
    let upto3 = upto2 + authored::paths(x.cable_member@, canonical::PathKind::CableMember);
    path_stretch(x.fiber@, m, upto3, canonical::PathKind::Fiber);
    let upto4 = upto3 + authored::paths(x.fiber@, canonical::PathKind::Fiber);
    path_stretch(x.coax@, m, upto4, canonical::PathKind::Coax);
    let upto5 = upto4 + authored::paths(x.coax@, canonical::PathKind::Coax);
    path_stretch(x.waveguide@, m, upto5, canonical::PathKind::Waveguide);
    let upto6 = upto5 + authored::paths(x.waveguide@, canonical::PathKind::Waveguide);
    path_stretch(x.feed@, m, upto6, canonical::PathKind::Feed);
    let upto7 = upto6 + authored::paths(x.feed@, canonical::PathKind::Feed);
    path_stretch(x.hose@, m, upto7, canonical::PathKind::Hose);
    let upto8 = upto7 + authored::paths(x.hose@, canonical::PathKind::Hose);
    path_stretch(x.pipe@, m, upto8, canonical::PathKind::Pipe);
    let upto9 = upto8 + authored::paths(x.pipe@, canonical::PathKind::Pipe);
    path_stretch(x.passage@, m, upto9, canonical::PathKind::Passage);
    let upto10 = upto9 + authored::paths(x.passage@, canonical::PathKind::Passage);
    assert(whole.take(whole.len() as int) =~= whole);
}

proof fn assembly_junctions_say_the_same(x: xml::Assembly, m: Seq<canonical::Junction>)
    requires
        convert_component::all_junctions_map(convert_component::assembly_junction_lists_of(&x), m),
    ensures
        authored::assembly_junctions(x) == Content::List(canonical_junctions(m)),
{
    let whole = canonical_junctions(m);
    let upto0 = Seq::<Content>::empty();
    assert(whole.take(0) =~= upto0);
    junction_stretch(x.splice@, m, upto0, canonical::JunctionKind::Splice);
    let upto1 = upto0 + authored::junctions(x.splice@, canonical::JunctionKind::Splice);
    junction_stretch(x.tee@, m, upto1, canonical::JunctionKind::Tee);
    let upto2 = upto1 + authored::junctions(x.tee@, canonical::JunctionKind::Tee);
    junction_stretch(x.manifold@, m, upto2, canonical::JunctionKind::Manifold);
    let upto3 = upto2 + authored::junctions(x.manifold@, canonical::JunctionKind::Manifold);
    junction_stretch(x.busbar@, m, upto3, canonical::JunctionKind::Busbar);
    let upto4 = upto3 + authored::junctions(x.busbar@, canonical::JunctionKind::Busbar);
    junction_stretch(x.optical_splitter@, m, upto4, canonical::JunctionKind::OpticalSplitter);
    let upto5 = upto4 + authored::junctions(x.optical_splitter@, canonical::JunctionKind::OpticalSplitter);
    assert(whole.take(whole.len() as int) =~= whole);
}

proof fn component_says_the_same(x: Comp, m: canonical::ComponentConnectivity)
    requires
        convert_component::convert_component_maps(x, m),
    ensures
        authored::component(x) == canonical_component(m),
{
    assert forall|i: int| 0 <= i < x.port@.len() implies authored::port(#[trigger] x.port@[i])
        == canonical_port(m.ports@[i]) by {
        assert(convert_component::port_maps(x.port@[i], m.ports@[i]));
        port_says_the_same(x.port@[i], m.ports@[i]);
    }
    assert(x.port@.map_values(|e: xml::Port| authored::port(e)) =~= m.ports@.map_values(
        |e: canonical::Port| canonical_port(e),
    ));
    assert forall|i: int| 0 <= i < x.connector@.len() implies authored::connector(#[trigger] x.connector@[i])
        == canonical_connector(m.connectors@[i]) by {
        assert(convert_component::convert_connector_maps(x.connector@[i], m.connectors@[i]));
        connector_says_the_same(x.connector@[i], m.connectors@[i]);
    }
    assert(x.connector@.map_values(|e: xml::Connector| authored::connector(e)) =~= m.connectors@.map_values(
        |e: canonical::Connector| canonical_connector(e),
    ));
    assert forall|i: int| 0 <= i < x.antenna@.len() implies authored::antenna(#[trigger] x.antenna@[i])
        == canonical_antenna(m.antennas@[i]) by {
        assert(convert_component::antenna_maps(x.antenna@[i], m.antennas@[i]));
        antenna_says_the_same(x.antenna@[i], m.antennas@[i]);
    }
    assert(x.antenna@.map_values(|e: xml::Antenna| authored::antenna(e)) =~= m.antennas@.map_values(
        |e: canonical::Antenna| canonical_antenna(e),
    ));
    component_functions_say_the_same(x, m.functions@);
    component_paths_say_the_same(x, m.paths@);
    component_junctions_say_the_same(x, m.junctions@);
    assert forall|i: int| 0 <= i < x.termination@.len() implies authored::termination(#[trigger] x.termination@[i])
        == canonical_termination(m.terminations@[i]) by {
        assert(convert_component::convert_termination_maps(x.termination@[i], m.terminations@[i]));
        termination_says_the_same(x.termination@[i], m.terminations@[i]);
    }
    assert(x.termination@.map_values(|e: xml::Termination| authored::termination(e)) =~= m.terminations@.map_values(
        |e: canonical::Termination| canonical_termination(e),
    ));
}

proof fn assembly_says_the_same(x: xml::Assembly, m: canonical::PhysicalAssembly, kind: canonical::AssemblyKind)
    requires
        convert_component::assembly_maps(x, m, kind),
    ensures
        authored::assembly(x, kind) == canonical_assembly(m),
{
    assert forall|i: int| 0 <= i < x.connector@.len() implies authored::connector(#[trigger] x.connector@[i])
        == canonical_connector(m.connectors@[i]) by {
        assert(convert_component::convert_connector_maps(x.connector@[i], m.connectors@[i]));
        connector_says_the_same(x.connector@[i], m.connectors@[i]);
    }
    assert(x.connector@.map_values(|e: xml::Connector| authored::connector(e)) =~= m.connectors@.map_values(
        |e: canonical::Connector| canonical_connector(e),
    ));
    assembly_paths_say_the_same(x, m.paths@);
    assembly_junctions_say_the_same(x, m.junctions@);
    assert forall|i: int| 0 <= i < x.termination@.len() implies authored::termination(#[trigger] x.termination@[i])
        == canonical_termination(m.terminations@[i]) by {
        assert(convert_component::convert_termination_maps(x.termination@[i], m.terminations@[i]));
        termination_says_the_same(x.termination@[i], m.terminations@[i]);
    }
    assert(x.termination@.map_values(|e: xml::Termination| authored::termination(e)) =~= m.terminations@.map_values(
        |e: canonical::Termination| canonical_termination(e),
    ));
    if x.representation is Some {
        representation_says_the_same(x.representation->0, m.representation->0);
    }
    assert(authored::maybe_representation(x.representation) == canonical_maybe_representation(m.representation));
}

proof fn hop_owner_says_the_same(x: xml::HopOwnerRef, m: canonical::HopOwnerRef)
    requires
        convert_network::hop_owner_maps(x, m),
    ensures
        authored::hop_owner(x) == canonical_hop_owner(m),
{
    match (x.owner, m) {
        (xml::HopOwnerChoice::Component(a), canonical::HopOwnerRef::Component(b)) => {
            component_ref_says_the_same(a, b);
        },
        (xml::HopOwnerChoice::Function(a), canonical::HopOwnerRef::Function(b)) => {
            function_ref_says_the_same(a, b);
        },
        _ => {},
    }
}

proof fn hop_says_the_same(x: xml::Hop, m: canonical::Hop)
    requires
        convert_network::convert_hop_maps(x, m),
    ensures
        authored::hop(x) == canonical_hop(m),
{
    hop_owner_says_the_same(x.owner, m.owner);
}

proof fn leg_end_says_the_same(x: xml::LegEnd, m: canonical::LegEnd)
    requires
        convert_network::leg_end_maps(x, m),
    ensures
        authored::leg_end(x) == canonical_leg_end(m),
{
    hop_ref_says_the_same(x.hop, m.hop);
    participant_ref_says_the_same(x.participant, m.participant);
}

proof fn leg_says_the_same(x: xml::Leg, m: canonical::Leg)
    requires
        convert_network::convert_leg_maps(x, m),
    ensures
        authored::leg(x) == canonical_leg(m),
{
    leg_end_says_the_same(x.from, m.from);
    leg_end_says_the_same(x.to, m.to);
}

proof fn participant_says_the_same(x: xml::Participant, m: canonical::Participant)
    requires
        convert_network::participant_maps(x, m),
    ensures
        authored::participant(x) == canonical_participant(m),
{
    functional_endpoint_says_the_same(x.endpoint, m.endpoint);
}

proof fn clock_says_the_same(x: xml::GptpClock, m: canonical::GptpClock)
    requires
        convert_configuration::clock_maps(x, m),
    ensures
        authored::clock(x) == canonical_clock(m),
{
    participant_ref_says_the_same(x.participant, m.participant);
}

proof fn gptp_domain_says_the_same(x: xml::GptpDomain, m: canonical::GptpDomain)
    requires
        convert_configuration::gptp_domain_maps(x, m),
    ensures
        authored::gptp_domain(x) == canonical_gptp_domain(m),
{
    assert forall|i: int| 0 <= i < x.clock@.len() implies authored::clock(#[trigger] x.clock@[i])
        == canonical_clock(m.clocks@[i]) by {
        assert(convert_configuration::clock_maps(x.clock@[i], m.clocks@[i]));
        clock_says_the_same(x.clock@[i], m.clocks@[i]);
    }
    assert(x.clock@.map_values(|e: xml::GptpClock| authored::clock(e)) =~= m.clocks@.map_values(
        |e: canonical::GptpClock| canonical_clock(e),
    ));
}

proof fn traffic_class_says_the_same(x: xml::TrafficClass, m: canonical::TrafficClass)
    requires
        convert_configuration::traffic_class_maps(x, m),
    ensures
        authored::traffic_class(x) == canonical_traffic_class(m),
{
    let values = convert_configuration::pcp_values(x.pcp@);
    assert forall|p: u8| authored::code_points(x.pcp@).contains(p) == m.pcp@.contains(p) by {
        if authored::code_points(x.pcp@).contains(p) {
            let i = choose|i: int| 0 <= i < x.pcp@.len() && #[trigger] x.pcp@[i].value == p;
            assert(values[i] == p);
        }
        if m.pcp@.contains(p) {
            let i = values.index_of(p);
            assert(x.pcp@[i].value == p);
        }
    }
    assert(authored::code_points(x.pcp@) =~= m.pcp@);
}

proof fn gate_says_the_same(x: xml::GateControlEntry, m: canonical::GateControlEntry)
    requires
        convert_configuration::gate_maps(x, m),
    ensures
        authored::gate(x) == canonical_gate(m),
{
    let list = x.open.traffic_class@;
    let refs = m.open@;
    assert forall|p: (Seq<char>, Seq<char>)|
        authored::open_classes(list).contains(p) == canonical_open_classes(refs).contains(p) by {
        if authored::open_classes(list).contains(p) {
            let i = choose|i: int|
                0 <= i < list.len() && (#[trigger] list[i]).network@ == p.0 && list[i].traffic_class@
                    == p.1;
            assert(convert_configuration::carries_class(list[i], refs));
            let k = choose|k: int|
                0 <= k < refs.len() && convert_refs::traffic_class_ref_maps(
                    list[i],
                    #[trigger] refs[k],
                );
            assert(refs[k].network.network@ == p.0);
        }
        if canonical_open_classes(refs).contains(p) {
            let k = choose|k: int|
                0 <= k < refs.len() && (#[trigger] refs[k]).network.network@ == p.0
                    && refs[k].traffic_class@ == p.1;
            assert(convert_configuration::carried_class(list, refs[k]));
            let i = choose|i: int|
                0 <= i < list.len() && convert_refs::traffic_class_ref_maps(
                    #[trigger] list[i],
                    refs[k],
                );
            assert(list[i].network@ == p.0);
        }
    }
    assert(authored::open_classes(list) =~= canonical_open_classes(refs));
}

proof fn gate_schedule_says_the_same(x: xml::GateSchedule, m: canonical::GateSchedule)
    requires
        convert_configuration::gate_schedule_maps(x, m),
    ensures
        authored::gate_schedule(x) == canonical_gate_schedule(m),
{
    assert forall|i: int| 0 <= i < x.gate@.len() implies authored::gate(#[trigger] x.gate@[i])
        == canonical_gate(m.entries@[i]) by {
        assert(convert_configuration::gate_maps(x.gate@[i], m.entries@[i]));
        gate_says_the_same(x.gate@[i], m.entries@[i]);
    }
    assert(x.gate@.map_values(|e: xml::GateControlEntry| authored::gate(e)) =~= m.entries@.map_values(
        |e: canonical::GateControlEntry| canonical_gate(e),
    ));
}

proof fn target_says_the_same(x: xml::ScheduleTarget, m: canonical::ParticipantRef)
    requires
        convert_configuration::target_maps(x, m),
    ensures
        authored::target(x) == canonical_target(m),
{
    participant_ref_says_the_same(x.participant, m);
}

proof fn schedule_assignment_says_the_same(x: xml::ScheduleAssignment, m: canonical::ScheduleAssignment)
    requires
        convert_configuration::schedule_assignment_maps(x, m),
    ensures
        authored::schedule_assignment(x) == canonical_schedule_assignment(m),
{
    schedule_ref_says_the_same(x.schedule, m.schedule);
    assert forall|i: int| 0 <= i < x.target@.len() implies authored::target(#[trigger] x.target@[i])
        == canonical_target(m.targets@[i]) by {
        assert(convert_configuration::target_maps(x.target@[i], m.targets@[i]));
        target_says_the_same(x.target@[i], m.targets@[i]);
    }
    assert(x.target@.map_values(|e: xml::ScheduleTarget| authored::target(e)) =~= m.targets@.map_values(
        |e: canonical::ParticipantRef| canonical_target(e),
    ));
}

proof fn plca_node_says_the_same(x: xml::PlcaNode, m: canonical::PlcaNode)
    requires
        convert_configuration::plca_node_maps(x, m),
    ensures
        authored::plca_node(x) == canonical_plca_node(m),
{
    participant_ref_says_the_same(x.participant, m.participant);
}

proof fn macsec_policy_says_the_same(x: xml::MacsecPolicyDefinition, m: canonical::MacsecPolicyDefinition)
    requires
        convert_configuration::macsec_policy_maps(x, m),
    ensures
        authored::macsec_policy(x) == canonical_macsec_policy(m),
{
}

proof fn topology_segment_says_the_same(x: xml::TopologySegmentRef, m: canonical::TopologySegmentRef)
    requires
        convert_configuration::segment_maps(x, m),
    ensures
        authored::topology_segment(x) == canonical_topology_segment(m),
{
    match (x.segment, m) {
        (xml::TopologySegmentChoice::Network(a), canonical::TopologySegmentRef::Network(b)) => {
            network_ref_says_the_same(a, b);
        },
        (xml::TopologySegmentChoice::Leg(a), canonical::TopologySegmentRef::Leg(b)) => {
            leg_ref_says_the_same(a, b);
        },
        _ => {},
    }
}

proof fn macsec_override_says_the_same(x: xml::MacsecOverride, m: canonical::MacsecOverride)
    requires
        convert_configuration::macsec_override_maps(x, m),
    ensures
        authored::macsec_override(x) == canonical_macsec_override(m),
{
    topology_segment_says_the_same(x.target, m.target);
    macsec_policy_ref_says_the_same(x.policy, m.policy);
}

proof fn eee_override_says_the_same(x: xml::EeeOverride, m: canonical::EeeOverride)
    requires
        convert_configuration::eee_override_maps(x, m),
    ensures
        authored::eee_override(x) == canonical_eee_override(m),
{
    participant_ref_says_the_same(x.participant, m.participant);
}

proof fn plca_says_the_same(x: Option<xml::PlcaConfiguration>, m: Option<canonical::PlcaConfiguration>)
    requires
        convert_configuration::plca_maps(x, m),
    ensures
        authored::plca(x) == canonical_plca(m),
{
    if let (Some(a), Some(b)) = (x, m) {
        assert forall|i: int| 0 <= i < a.node@.len() implies authored::plca_node(#[trigger] a.node@[i])
            == canonical_plca_node(b.nodes@[i]) by {
            assert(convert_configuration::plca_node_maps(a.node@[i], b.nodes@[i]));
            plca_node_says_the_same(a.node@[i], b.nodes@[i]);
        }
        assert(a.node@.map_values(|e: xml::PlcaNode| authored::plca_node(e)) =~= b.nodes@.map_values(
            |e: canonical::PlcaNode| canonical_plca_node(e),
        ));
    }
}

proof fn default_policy_says_the_same(
    x: Option<xml::MacsecDefaultPolicy>,
    m: Option<canonical::MacsecPolicyRef>,
)
    requires
        convert_configuration::default_policy_maps(x, m),
    ensures
        authored::default_policy(x) == canonical_default_policy(m),
{
    if let (Some(a), Some(b)) = (x, m) {
        macsec_policy_ref_says_the_same(a.policy, b);
    }
}

proof fn macsec_says_the_same(x: Option<xml::MacsecConfiguration>, m: Option<canonical::MacsecConfiguration>)
    requires
        convert_configuration::macsec_maps(x, m),
    ensures
        authored::macsec(x) == canonical_macsec(m),
{
    if let (Some(a), Some(b)) = (x, m) {
        assert forall|i: int| 0 <= i < a.policy@.len() implies authored::macsec_policy(#[trigger] a.policy@[i])
            == canonical_macsec_policy(b.policies@[i]) by {
            assert(convert_configuration::macsec_policy_maps(a.policy@[i], b.policies@[i]));
            macsec_policy_says_the_same(a.policy@[i], b.policies@[i]);
        }
        assert(a.policy@.map_values(|e: xml::MacsecPolicyDefinition| authored::macsec_policy(e)) =~= b.policies@.map_values(
            |e: canonical::MacsecPolicyDefinition| canonical_macsec_policy(e),
        ));
        default_policy_says_the_same(a.default_policy, b.default_policy);
        assert forall|i: int| 0 <= i < a.override_@.len() implies authored::macsec_override(#[trigger] a.override_@[i])
            == canonical_macsec_override(b.overrides@[i]) by {
            assert(convert_configuration::macsec_override_maps(a.override_@[i], b.overrides@[i]));
            macsec_override_says_the_same(a.override_@[i], b.overrides@[i]);
        }
        assert(a.override_@.map_values(|e: xml::MacsecOverride| authored::macsec_override(e)) =~= b.overrides@.map_values(
            |e: canonical::MacsecOverride| canonical_macsec_override(e),
        ));
    }
}

proof fn eee_says_the_same(x: Option<xml::EeeConfiguration>, m: Option<canonical::EeeConfiguration>)
    requires
        convert_configuration::eee_maps(x, m),
    ensures
        authored::eee(x) == canonical_eee(m),
{
    if let (Some(a), Some(b)) = (x, m) {
        assert forall|i: int| 0 <= i < a.override_@.len() implies authored::eee_override(#[trigger] a.override_@[i])
            == canonical_eee_override(b.overrides@[i]) by {
            assert(convert_configuration::eee_override_maps(a.override_@[i], b.overrides@[i]));
            eee_override_says_the_same(a.override_@[i], b.overrides@[i]);
        }
        assert(a.override_@.map_values(|e: xml::EeeOverride| authored::eee_override(e)) =~= b.overrides@.map_values(
            |e: canonical::EeeOverride| canonical_eee_override(e),
        ));
    }
}

proof fn configuration_says_the_same(
    x: Option<xml::NetworkConfiguration>,
    m: canonical::NetworkConfiguration,
)
    requires
        convert_configuration::network_configuration_maps(x, m),
    ensures
        authored::configuration(x) == canonical_configuration_part(m),
{
    match x {
        None => {
            assert(m.gptp_domains@.map_values(|e: canonical::GptpDomain| canonical_gptp_domain(e))
                =~= Seq::empty());
            assert(m.traffic_classes@.map_values(
                |e: canonical::TrafficClass| canonical_traffic_class(e),
            ) =~= Seq::empty());
            assert(m.gate_schedules@.map_values(
                |e: canonical::GateSchedule| canonical_gate_schedule(e),
            ) =~= Seq::empty());
            assert(m.schedule_assignments@.map_values(
                |e: canonical::ScheduleAssignment| canonical_schedule_assignment(e),
            ) =~= Seq::empty());
        },
        Some(a) => {
            assert forall|i: int| 0 <= i < a.gptp_domain@.len() implies authored::gptp_domain(#[trigger] a.gptp_domain@[i])
                == canonical_gptp_domain(m.gptp_domains@[i]) by {
                assert(convert_configuration::gptp_domain_maps(a.gptp_domain@[i], m.gptp_domains@[i]));
                gptp_domain_says_the_same(a.gptp_domain@[i], m.gptp_domains@[i]);
            }
            assert(a.gptp_domain@.map_values(|e: xml::GptpDomain| authored::gptp_domain(e)) =~= m.gptp_domains@.map_values(
                |e: canonical::GptpDomain| canonical_gptp_domain(e),
            ));
            assert forall|i: int| 0 <= i < a.traffic_class@.len() implies authored::traffic_class(#[trigger] a.traffic_class@[i])
                == canonical_traffic_class(m.traffic_classes@[i]) by {
                assert(convert_configuration::traffic_class_maps(a.traffic_class@[i], m.traffic_classes@[i]));
                traffic_class_says_the_same(a.traffic_class@[i], m.traffic_classes@[i]);
            }
            assert(a.traffic_class@.map_values(|e: xml::TrafficClass| authored::traffic_class(e)) =~= m.traffic_classes@.map_values(
                |e: canonical::TrafficClass| canonical_traffic_class(e),
            ));
            assert forall|i: int| 0 <= i < a.gate_schedule@.len() implies authored::gate_schedule(#[trigger] a.gate_schedule@[i])
                == canonical_gate_schedule(m.gate_schedules@[i]) by {
                assert(convert_configuration::gate_schedule_maps(a.gate_schedule@[i], m.gate_schedules@[i]));
                gate_schedule_says_the_same(a.gate_schedule@[i], m.gate_schedules@[i]);
            }
            assert(a.gate_schedule@.map_values(|e: xml::GateSchedule| authored::gate_schedule(e)) =~= m.gate_schedules@.map_values(
                |e: canonical::GateSchedule| canonical_gate_schedule(e),
            ));
            assert forall|i: int| 0 <= i < a.schedule_assignment@.len() implies authored::schedule_assignment(#[trigger] a.schedule_assignment@[i])
                == canonical_schedule_assignment(m.schedule_assignments@[i]) by {
                assert(convert_configuration::schedule_assignment_maps(a.schedule_assignment@[i], m.schedule_assignments@[i]));
                schedule_assignment_says_the_same(a.schedule_assignment@[i], m.schedule_assignments@[i]);
            }
            assert(a.schedule_assignment@.map_values(|e: xml::ScheduleAssignment| authored::schedule_assignment(e)) =~= m.schedule_assignments@.map_values(
                |e: canonical::ScheduleAssignment| canonical_schedule_assignment(e),
            ));
            plca_says_the_same(a.plca, m.plca);
            macsec_says_the_same(a.macsec, m.macsec);
            eee_says_the_same(a.eee, m.eee);
        },
    }
}

proof fn way_says_the_same(
    hop: Seq<xml::Hop>,
    leg: Seq<xml::Leg>,
    hops: Seq<canonical::Hop>,
    legs: Seq<canonical::Leg>,
)
    requires
        convert_network::hops_map(hop, hops),
        convert_network::legs_map(leg, legs),
    ensures
        authored::way(hop, leg) == canonical_way(hops, legs),
{
    assert forall|i: int| 0 <= i < hop.len() implies authored::hop(#[trigger] hop[i])
        == canonical_hop(hops[i]) by {
        assert(convert_network::convert_hop_maps(hop[i], hops[i]));
        hop_says_the_same(hop[i], hops[i]);
    }
    assert forall|i: int| 0 <= i < leg.len() implies authored::leg(#[trigger] leg[i])
        == canonical_leg(legs[i]) by {
        assert(convert_network::convert_leg_maps(leg[i], legs[i]));
        leg_says_the_same(leg[i], legs[i]);
    }
    assert(hop.map_values(|e: xml::Hop| authored::hop(e)) =~= hops.map_values(
        |e: canonical::Hop| canonical_hop(e),
    ));
    assert(leg.map_values(|e: xml::Leg| authored::leg(e)) =~= legs.map_values(
        |e: canonical::Leg| canonical_leg(e),
    ));
}

proof fn network_says_the_same(parts: NetworkParts, m: canonical::Network, structure: Content)
    requires
        convert_network::convert_network_maps(parts, m),
        structure == canonical_structure(m.structure),
    ensures
        authored::network(parts, m.structure.spec_topology(), structure) == canonical_network(m),
{
    let list = parts.participant@;
    selection_part_says_the_same(*parts.selected, m.selected);
    configuration_says_the_same(*parts.configuration, m.configuration);
    assert forall|i: int| 0 <= i < list.len() implies authored::participant(#[trigger] list[i])
        == canonical_participant(m.participants@[i]) by {
        assert(convert_network::participant_maps(list[i], m.participants@[i]));
        participant_says_the_same(list[i], m.participants@[i]);
    }
    assert(list.map_values(|e: xml::Participant| authored::participant(e))
        =~= m.participants@.map_values(|e: canonical::Participant| canonical_participant(e)));
}

proof fn selection_part_says_the_same(
    x: Option<xml::NetworkSelection>,
    m: canonical::NetworkSelection,
)
    requires
        x matches Some(selected) && convert_selection::network_selection_maps(selected, m),
    ensures
        x is Some,
        authored::selection(x->0) == canonical_selection(m),
{
    selection_says_the_same_in_full(x->0, m);
}

proof fn link_says_the_same(x: xml::Link, m: canonical::Network)
    requires
        convert_document::link_maps(x, m),
    ensures
        authored::link(x) == canonical_network(m),
{
    network_says_the_same(convert_document::link_parts(&x), m, Content::Missing);
}

proof fn link_stretch(list: Seq<xml::Link>, mapped: Seq<canonical::Network>, upto: Seq<Content>)
    requires
        convert_document::link_run(list, mapped, upto.len() as int),
        upto.len() + list.len() <= mapped.len(),
        canonical_networks(mapped).take(upto.len() as int) == upto,
    ensures
        canonical_networks(mapped).take((upto + authored::links(list)).len() as int) == upto
            + authored::links(list),
{
    let whole = canonical_networks(mapped);
    let more = authored::links(list);
    assert forall|i: int| 0 <= i < more.len() implies more[i] == whole[upto.len() + i] by {
        assert(convert_document::link_maps(list[i], mapped[upto.len() + i]));
        link_says_the_same(list[i], mapped[upto.len() + i]);
    }
    goes_on(whole, upto, more);
}

proof fn bus_says_the_same(x: xml::Bus, m: canonical::Network)
    requires
        convert_document::bus_maps(x, m),
    ensures
        authored::bus(x) == canonical_network(m),
{
    network_says_the_same(convert_document::bus_parts(&x), m, Content::Missing);
}

proof fn bus_stretch(list: Seq<xml::Bus>, mapped: Seq<canonical::Network>, upto: Seq<Content>)
    requires
        convert_document::bus_run(list, mapped, upto.len() as int),
        upto.len() + list.len() <= mapped.len(),
        canonical_networks(mapped).take(upto.len() as int) == upto,
    ensures
        canonical_networks(mapped).take((upto + authored::buses(list)).len() as int) == upto
            + authored::buses(list),
{
    let whole = canonical_networks(mapped);
    let more = authored::buses(list);
    assert forall|i: int| 0 <= i < more.len() implies more[i] == whole[upto.len() + i] by {
        assert(convert_document::bus_maps(list[i], mapped[upto.len() + i]));
        bus_says_the_same(list[i], mapped[upto.len() + i]);
    }
    goes_on(whole, upto, more);
}

proof fn chain_says_the_same(x: xml::Chain, m: canonical::Network)
    requires
        convert_document::chain_maps(x, m),
    ensures
        authored::chain(x) == canonical_network(m),
{
    if let canonical::NetworkStructure::Chain(t) = m.structure {
        way_says_the_same(x.hop@, x.leg@, t.hops@, t.legs@);
    }
    network_says_the_same(convert_document::chain_parts(&x), m, authored::way(x.hop@, x.leg@));
}

proof fn chain_stretch(list: Seq<xml::Chain>, mapped: Seq<canonical::Network>, upto: Seq<Content>)
    requires
        convert_document::chain_run(list, mapped, upto.len() as int),
        upto.len() + list.len() <= mapped.len(),
        canonical_networks(mapped).take(upto.len() as int) == upto,
    ensures
        canonical_networks(mapped).take((upto + authored::chains(list)).len() as int) == upto
            + authored::chains(list),
{
    let whole = canonical_networks(mapped);
    let more = authored::chains(list);
    assert forall|i: int| 0 <= i < more.len() implies more[i] == whole[upto.len() + i] by {
        assert(convert_document::chain_maps(list[i], mapped[upto.len() + i]));
        chain_says_the_same(list[i], mapped[upto.len() + i]);
    }
    goes_on(whole, upto, more);
}

proof fn star_says_the_same(x: xml::Star, m: canonical::Network)
    requires
        convert_document::star_maps(x, m),
    ensures
        authored::star(x) == canonical_network(m),
{
    if let canonical::NetworkStructure::Star(t) = m.structure {
        participant_ref_says_the_same(x.coordinator.participant, t.coordinator);
    }
    network_says_the_same(convert_document::star_parts(&x), m, authored::participant_ref(x.coordinator.participant));
}

proof fn star_stretch(list: Seq<xml::Star>, mapped: Seq<canonical::Network>, upto: Seq<Content>)
    requires
        convert_document::star_run(list, mapped, upto.len() as int),
        upto.len() + list.len() <= mapped.len(),
        canonical_networks(mapped).take(upto.len() as int) == upto,
    ensures
        canonical_networks(mapped).take((upto + authored::stars(list)).len() as int) == upto
            + authored::stars(list),
{
    let whole = canonical_networks(mapped);
    let more = authored::stars(list);
    assert forall|i: int| 0 <= i < more.len() implies more[i] == whole[upto.len() + i] by {
        assert(convert_document::star_maps(list[i], mapped[upto.len() + i]));
        star_says_the_same(list[i], mapped[upto.len() + i]);
    }
    goes_on(whole, upto, more);
}

proof fn ring_says_the_same(x: xml::Ring, m: canonical::Network)
    requires
        convert_document::ring_maps(x, m),
    ensures
        authored::ring(x) == canonical_network(m),
{
    if let canonical::NetworkStructure::Ring(t) = m.structure {
        way_says_the_same(x.hop@, x.leg@, t.hops@, t.legs@);
    }
    network_says_the_same(convert_document::ring_parts(&x), m, authored::way(x.hop@, x.leg@));
}

proof fn ring_stretch(list: Seq<xml::Ring>, mapped: Seq<canonical::Network>, upto: Seq<Content>)
    requires
        convert_document::ring_run(list, mapped, upto.len() as int),
        upto.len() + list.len() <= mapped.len(),
        canonical_networks(mapped).take(upto.len() as int) == upto,
    ensures
        canonical_networks(mapped).take((upto + authored::rings(list)).len() as int) == upto
            + authored::rings(list),
{
    let whole = canonical_networks(mapped);
    let more = authored::rings(list);
    assert forall|i: int| 0 <= i < more.len() implies more[i] == whole[upto.len() + i] by {
        assert(convert_document::ring_maps(list[i], mapped[upto.len() + i]));
        ring_says_the_same(list[i], mapped[upto.len() + i]);
    }
    goes_on(whole, upto, more);
}

proof fn mesh_says_the_same(x: xml::Mesh, m: canonical::Network)
    requires
        convert_document::mesh_maps(x, m),
    ensures
        authored::mesh(x) == canonical_network(m),
{
    network_says_the_same(convert_document::mesh_parts(&x), m, Content::Missing);
}

proof fn mesh_stretch(list: Seq<xml::Mesh>, mapped: Seq<canonical::Network>, upto: Seq<Content>)
    requires
        convert_document::mesh_run(list, mapped, upto.len() as int),
        upto.len() + list.len() <= mapped.len(),
        canonical_networks(mapped).take(upto.len() as int) == upto,
    ensures
        canonical_networks(mapped).take((upto + authored::meshes(list)).len() as int) == upto
            + authored::meshes(list),
{
    let whole = canonical_networks(mapped);
    let more = authored::meshes(list);
    assert forall|i: int| 0 <= i < more.len() implies more[i] == whole[upto.len() + i] by {
        assert(convert_document::mesh_maps(list[i], mapped[upto.len() + i]));
        mesh_says_the_same(list[i], mapped[upto.len() + i]);
    }
    goes_on(whole, upto, more);
}

proof fn tree_says_the_same(x: xml::Tree, m: canonical::Network)
    requires
        convert_document::tree_maps(x, m),
    ensures
        authored::tree(x) == canonical_network(m),
{
    if let canonical::NetworkStructure::Tree(t) = m.structure {
        way_says_the_same(x.hop@, x.leg@, t.hops@, t.legs@);
        hop_ref_says_the_same(x.root.hop, t.root);
    }
    network_says_the_same(convert_document::tree_parts(&x), m, Content::List(
            seq![authored::hop_ref(x.root.hop), authored::way(x.hop@, x.leg@)],
        ));
}

proof fn tree_stretch(list: Seq<xml::Tree>, mapped: Seq<canonical::Network>, upto: Seq<Content>)
    requires
        convert_document::tree_run(list, mapped, upto.len() as int),
        upto.len() + list.len() <= mapped.len(),
        canonical_networks(mapped).take(upto.len() as int) == upto,
    ensures
        canonical_networks(mapped).take((upto + authored::trees(list)).len() as int) == upto
            + authored::trees(list),
{
    let whole = canonical_networks(mapped);
    let more = authored::trees(list);
    assert forall|i: int| 0 <= i < more.len() implies more[i] == whole[upto.len() + i] by {
        assert(convert_document::tree_maps(list[i], mapped[upto.len() + i]));
        tree_says_the_same(list[i], mapped[upto.len() + i]);
    }
    goes_on(whole, upto, more);
}

proof fn assembly_stretch(
    list: Seq<xml::Assembly>,
    mapped: Seq<canonical::PhysicalAssembly>,
    upto: Seq<Content>,
    kind: canonical::AssemblyKind,
)
    requires
        convert_document::assembly_run(list, mapped, upto.len() as int, kind),
        upto.len() + list.len() <= mapped.len(),
        canonical_assemblies(mapped).take(upto.len() as int) == upto,
    ensures
        canonical_assemblies(mapped).take((upto + authored::assemblies(list, kind)).len() as int) == upto
            + authored::assemblies(list, kind),
{
    let whole = canonical_assemblies(mapped);
    let more = authored::assemblies(list, kind);
    assert forall|i: int| 0 <= i < more.len() implies more[i] == whole[upto.len() + i] by {
        assert(convert_component::assembly_maps(list[i], mapped[upto.len() + i], kind));
        assembly_says_the_same(list[i], mapped[upto.len() + i], kind);
    }
    goes_on(whole, upto, more);
}

proof fn document_networks_say_the_same(x: Hcdf, m: Seq<canonical::Network>)
    requires
        convert_document::document_networks_map(x, m),
    ensures
        authored::document_networks(x) == canonical_networks(m),
{
    reveal(convert_document::document_networks_map);
    let whole = canonical_networks(m);
    let upto0 = Seq::<Content>::empty();
    assert(whole.take(0) =~= upto0);
    link_stretch(x.link@, m, upto0);
    let upto1 = upto0 + authored::links(x.link@);
    bus_stretch(x.bus@, m, upto1);
    let upto2 = upto1 + authored::buses(x.bus@);
    chain_stretch(x.chain@, m, upto2);
    let upto3 = upto2 + authored::chains(x.chain@);
    star_stretch(x.star@, m, upto3);
    let upto4 = upto3 + authored::stars(x.star@);
    ring_stretch(x.ring@, m, upto4);
    let upto5 = upto4 + authored::rings(x.ring@);
    mesh_stretch(x.mesh@, m, upto5);
    let upto6 = upto5 + authored::meshes(x.mesh@);
    tree_stretch(x.tree@, m, upto6);
    let upto7 = upto6 + authored::trees(x.tree@);
    assert(whole.take(whole.len() as int) =~= whole);
}

proof fn document_assemblies_say_the_same(x: Hcdf, m: Seq<canonical::PhysicalAssembly>)
    requires
        convert_document::document_assemblies_map(x, m),
    ensures
        authored::document_assemblies(x) == canonical_assemblies(m),
{
    reveal(convert_document::document_assemblies_map);
    let whole = canonical_assemblies(m);
    let upto0 = Seq::<Content>::empty();
    assert(whole.take(0) =~= upto0);
    assembly_stretch(x.harness@, m, upto0, canonical::AssemblyKind::Harness);
    let upto1 = upto0 + authored::assemblies(x.harness@, canonical::AssemblyKind::Harness);
    assembly_stretch(x.cable@, m, upto1, canonical::AssemblyKind::Cable);
    let upto2 = upto1 + authored::assemblies(x.cable@, canonical::AssemblyKind::Cable);
    assembly_stretch(x.plumbing@, m, upto2, canonical::AssemblyKind::Plumbing);
    let upto3 = upto2 + authored::assemblies(x.plumbing@, canonical::AssemblyKind::Plumbing);
    assembly_stretch(x.umbilical@, m, upto3, canonical::AssemblyKind::Umbilical);
    let upto4 = upto3 + authored::assemblies(x.umbilical@, canonical::AssemblyKind::Umbilical);
    assert(whole.take(whole.len() as int) =~= whole);
}

proof fn binding_says_the_same(x: xml::Binding, m: canonical::Binding)
    requires
        convert_document::binding_maps(x, m),
    ensures
        authored::binding(x) == canonical_binding(m),
{
    functional_endpoint_says_the_same(x.functional, m.functional);
    physical_endpoint_says_the_same(x.physical, m.physical);
}

proof fn position_mapping_says_the_same(x: xml::PositionMapping, m: canonical::PositionMapping)
    requires
        convert_document::position_mapping_maps(x, m),
    ensures
        authored::position_mapping(x) == canonical_position_mapping(m),
{
    position_ref_says_the_same(x.first, m.first);
    position_ref_says_the_same(x.second, m.second);
}

proof fn mate_says_the_same(x: xml::Mate, m: canonical::Mate)
    requires
        convert_document::mate_maps(x, m),
    ensures
        authored::mate(x) == canonical_mate(m),
{
    connector_ref_says_the_same(x.first, m.first);
    connector_ref_says_the_same(x.second, m.second);
    assert forall|i: int| 0 <= i < x.position_mapping@.len() implies authored::position_mapping(#[trigger] x.position_mapping@[i])
        == canonical_position_mapping(m.mappings@[i]) by {
        assert(convert_document::position_mapping_maps(x.position_mapping@[i], m.mappings@[i]));
        position_mapping_says_the_same(x.position_mapping@[i], m.mappings@[i]);
    }
    assert(x.position_mapping@.map_values(|e: xml::PositionMapping| authored::position_mapping(e)) =~= m.mappings@.map_values(
        |e: canonical::PositionMapping| canonical_position_mapping(e),
    ));
}

proof fn anchor_visual_says_the_same(x: Visual, m: canonical::StructuralVisual)
    requires
        convert_document::visual_maps(x, m),
    ensures
        authored::anchor_visual(x) == canonical_anchor_visual(m),
{
}

proof fn anchors_says_the_same(x: Comp, m: canonical::StructuralAnchors)
    requires
        convert_document::anchors_maps(x, m),
    ensures
        authored::anchors(x) == canonical_anchors(m),
{
    assert forall|i: int| 0 <= i < x.visual@.len() implies authored::anchor_visual(#[trigger] x.visual@[i])
        == canonical_anchor_visual(m.visuals@[i]) by {
        assert(convert_document::visual_maps(x.visual@[i], m.visuals@[i]));
        anchor_visual_says_the_same(x.visual@[i], m.visuals@[i]);
    }
    assert(x.visual@.map_values(|e: Visual| authored::anchor_visual(e)) =~= m.visuals@.map_values(
        |e: canonical::StructuralVisual| canonical_anchor_visual(e),
    ));
    assert forall|i: int| 0 <= i < x.frame@.len() implies text((#[trigger] x.frame@[i]).name) == text(
        m.frames@[i],
    ) by {
        assert(m.frames@[i] == x.frame@[i].name);
    }
    assert(x.frame@.map_values(|e: Frame| authored::anchor_frame(e))
        =~= m.frames@.map_values(|e: String| text(e)));
}

proof fn scope_says_the_same(
    x: Hcdf,
    instance: canonical::IncludeInstanceId,
    m: canonical::ConnectivityScope,
)
    requires
        convert_document::scope_carries(x, instance, m),
    ensures
        authored::connectivity(x) == canonical_connectivity(m),
{
    reveal(convert_document::scope_carries);
    assert forall|i: int| 0 <= i < x.comp@.len() implies authored::anchors(#[trigger] x.comp@[i])
        == canonical_anchors(m.structural_anchors@[i]) by {
        assert(convert_document::anchors_maps(x.comp@[i], m.structural_anchors@[i]));
        anchors_says_the_same(x.comp@[i], m.structural_anchors@[i]);
    }
    assert(x.comp@.map_values(|e: Comp| authored::anchors(e)) =~= m.structural_anchors@.map_values(
        |e: canonical::StructuralAnchors| canonical_anchors(e),
    ));
    assert forall|i: int| 0 <= i < x.comp@.len() implies authored::component(#[trigger] x.comp@[i])
        == canonical_component(m.components@[i]) by {
        assert(convert_component::convert_component_maps(x.comp@[i], m.components@[i]));
        component_says_the_same(x.comp@[i], m.components@[i]);
    }
    assert(x.comp@.map_values(|e: Comp| authored::component(e)) =~= m.components@.map_values(
        |e: canonical::ComponentConnectivity| canonical_component(e),
    ));
    document_assemblies_say_the_same(x, m.assemblies@);
    assert forall|i: int| 0 <= i < x.binding@.len() implies authored::binding(#[trigger] x.binding@[i])
        == canonical_binding(m.bindings@[i]) by {
        assert(convert_document::binding_maps(x.binding@[i], m.bindings@[i]));
        binding_says_the_same(x.binding@[i], m.bindings@[i]);
    }
    assert(x.binding@.map_values(|e: xml::Binding| authored::binding(e)) =~= m.bindings@.map_values(
        |e: canonical::Binding| canonical_binding(e),
    ));
    assert forall|i: int| 0 <= i < x.mate@.len() implies authored::mate(#[trigger] x.mate@[i])
        == canonical_mate(m.mates@[i]) by {
        assert(convert_document::mate_maps(x.mate@[i], m.mates@[i]));
        mate_says_the_same(x.mate@[i], m.mates@[i]);
    }
    assert(x.mate@.map_values(|e: xml::Mate| authored::mate(e)) =~= m.mates@.map_values(
        |e: canonical::Mate| canonical_mate(e),
    ));
    document_networks_say_the_same(x, m.networks@);
}

/// The canonical connectivity of a document says what the document says: each element of it with the same
/// names, references, kinds, numbers and parts, in the same order, and no other.
pub proof fn a_document_keeps_what_it_says(
    source: Hcdf,
    document: canonical::DocumentIdentity,
    r: Converted<canonical::ConnectivityDocument>,
)
    requires
        convert_document::document_outcome(source, document, r),
        r is Ok,
    ensures
        r->Ok_0.document == document,
        r->Ok_0.scopes@.len() == 1,
        r->Ok_0.scopes@[0].instance@.len() == 0,
        canonical_connectivity(r->Ok_0.scopes@[0]) == authored::connectivity(source),
{
    let scope = r->Ok_0.scopes@[0];
    scope_says_the_same(source, scope.instance, scope);
}

} // verus!
