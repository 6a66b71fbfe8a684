//! A document is converted exactly where its elements are sound.
use vstd::prelude::*;
use crate::faults;
use super::connectivity as canonical;
use super::connectivity_xml as xml;
use super::conversion::Converted;
use super::convert_component;
use super::convert_configuration;
use super::convert_document;
use super::convert_network;
use super::convert_network::NetworkParts;
use super::convert_refs;
use super::convert_representation;
use super::convert_selection;
use super::selectors;
use super::sound::{
    all_sound_antenna, all_sound_assembly, all_sound_attachment, all_sound_binding, all_sound_bus, all_sound_chain, all_sound_channel, all_sound_clock, all_sound_component, all_sound_connector, all_sound_eee_override, all_sound_endpoint, all_sound_function, all_sound_gate, all_sound_gate_schedule, all_sound_gptp_domain, all_sound_hop, all_sound_junction, all_sound_leg, all_sound_link, all_sound_macsec_override, all_sound_macsec_policy, all_sound_mate, all_sound_mesh, all_sound_named_quantity, all_sound_participant, all_sound_path, all_sound_plca_node, all_sound_port, all_sound_position, all_sound_position_mapping, all_sound_ring, all_sound_schedule_assignment, all_sound_star, all_sound_target, all_sound_termination, all_sound_traffic_class, all_sound_tree, all_sound_waypoint, are_code_points, are_open_classes, are_profiles, is_instance, is_sound_antenna, is_sound_assembly, is_sound_attachment, is_sound_binding, is_sound_bus, is_sound_capabilities, is_sound_chain, is_sound_channel, is_sound_clock, is_sound_component, is_sound_configuration, is_sound_connector, is_sound_connector_ref, is_sound_derived_route, is_sound_document, is_sound_eee_override, is_sound_endpoint, is_sound_function, is_sound_functional_endpoint, is_sound_gate, is_sound_gate_schedule, is_sound_gptp_domain, is_sound_hop, is_sound_hop_owner, is_sound_junction, is_sound_junction_ref, is_sound_leg, is_sound_leg_end, is_sound_link, is_sound_macsec_override, is_sound_macsec_policy, is_sound_mate, is_sound_mesh, is_sound_model, is_sound_model_part, is_sound_model_root, is_sound_named_quantity, is_sound_network, is_sound_owner, is_sound_participant, is_sound_path, is_sound_physical_endpoint, is_sound_plca_node, is_sound_port, is_sound_position, is_sound_position_mapping, is_sound_position_ref, is_sound_representation, is_sound_ring, is_sound_route_frame, is_sound_schedule_assignment, is_sound_selection, is_sound_star, is_sound_target, is_sound_termination, is_sound_topology_segment, is_sound_traffic_class, is_sound_tree,
};
use super::{Comp, Hcdf};

verus! {

proof fn functional_endpoint_fails_where_unsound(x: xml::FunctionalEndpointRef)
    ensures
        forall|path: Seq<char>| #[trigger]
            convert_refs::functional_endpoint_due(x, path) is None <==> is_sound_functional_endpoint(x),
{
    assert forall|path: Seq<char>| #[trigger] convert_refs::functional_endpoint_due(x, path) is None <==> is_sound_functional_endpoint(x) by {
    }
}

proof fn owner_fails_where_unsound(x: xml::PhysicalOwnerChoice)
    ensures
        forall|path: Seq<char>| #[trigger]
            convert_refs::owner_due(x, path) is None <==> is_sound_owner(x),
{
    assert forall|path: Seq<char>| #[trigger] convert_refs::owner_due(x, path) is None <==> is_sound_owner(x) by {
    }
}

proof fn connector_ref_fails_where_unsound(x: xml::ConnectorRef)
    ensures
        forall|path: Seq<char>| #[trigger]
            convert_refs::connector_ref_due(x, path) is None <==> is_sound_connector_ref(x),
{
    owner_fails_where_unsound(x.owner);
    assert forall|path: Seq<char>| #[trigger] convert_refs::connector_ref_due(x, path) is None <==> is_sound_connector_ref(x) by {
    }
}

proof fn position_ref_fails_where_unsound(x: xml::PositionRef)
    ensures
        forall|path: Seq<char>| #[trigger]
            convert_refs::position_ref_due(x, path) is None <==> is_sound_position_ref(x),
{
    owner_fails_where_unsound(x.owner);
    assert forall|path: Seq<char>| #[trigger] convert_refs::position_ref_due(x, path) is None <==> is_sound_position_ref(x) by {
    }
}

proof fn junction_ref_fails_where_unsound(x: xml::JunctionRef)
    ensures
        forall|path: Seq<char>| #[trigger]
            convert_refs::junction_ref_due(x, path) is None <==> is_sound_junction_ref(x),
{
    owner_fails_where_unsound(x.owner);
    assert forall|path: Seq<char>| #[trigger] convert_refs::junction_ref_due(x, path) is None <==> is_sound_junction_ref(x) by {
    }
}

proof fn physical_endpoint_fails_where_unsound(x: xml::PhysicalEndpointRef)
    ensures
        forall|path: Seq<char>| #[trigger]
            convert_refs::physical_endpoint_due(x, path) is None <==> is_sound_physical_endpoint(x),
{
    match x.endpoint {
        xml::PhysicalEndpointChoice::Connector(a) => {
            connector_ref_fails_where_unsound(a);
        },
        xml::PhysicalEndpointChoice::Position(a) => {
            position_ref_fails_where_unsound(a);
        },
        xml::PhysicalEndpointChoice::Junction(a) => {
            junction_ref_fails_where_unsound(a);
        },
    }
    assert forall|path: Seq<char>| #[trigger] convert_refs::physical_endpoint_due(x, path) is None <==> is_sound_physical_endpoint(x) by {
    }
}

proof fn route_frame_fails_where_unsound(x: xml::RouteFrame)
    ensures
        forall|path: Seq<char>, label: Seq<char>| #[trigger]
            convert_representation::route_frame_due(x, path, label) is None <==> is_sound_route_frame(x),
{
    assert forall|path: Seq<char>, label: Seq<char>| #[trigger] convert_representation::route_frame_due(x, path, label) is None <==> is_sound_route_frame(x) by {
    }
}

proof fn waypoint_list_fails_where_unsound(x: Seq<xml::RoutePoint>)
    ensures
        forall|path: Seq<char>|
            faults::first_failure(x.len(), #[trigger] convert_representation::waypoints_due(x, path))
                is None <==> all_sound_waypoint(x),
{
    assert forall|path: Seq<char>|
        faults::first_failure(x.len(), #[trigger] convert_representation::waypoints_due(x, path)) is None
            <==> all_sound_waypoint(x) by {
        let due = convert_representation::waypoints_due(x, path);
        faults::no_failure_means_none(x.len(), due);
        assert forall|i: int| 0 <= i < x.len() implies (#[trigger] due(i) is None
            <==> is_sound_route_frame(x[i].frame)) by {
            route_frame_fails_where_unsound(x[i].frame);
        }
        if all_sound_waypoint(x) {
            assert forall|i: int| 0 <= i < x.len() implies #[trigger] due(i) is None by {
                assert(is_sound_route_frame(x[i].frame));
            }
        }
        if forall|i: int| 0 <= i < x.len() ==> #[trigger] due(i) is None {
            assert forall|i: int| 0 <= i < x.len() implies is_sound_route_frame(
                (#[trigger] x[i]).frame,
            ) by {
                assert(due(i) is None);
            }
        }
    }
}

proof fn derived_route_fails_where_unsound(x: xml::DerivedRouteRepresentation)
    ensures
        forall|path: Seq<char>| #[trigger]
            convert_representation::derived_route_due(x, path) is None <==> is_sound_derived_route(x),
{
    waypoint_list_fails_where_unsound(x.waypoint@);
    assert forall|path: Seq<char>| #[trigger] convert_representation::derived_route_due(x, path) is None <==> is_sound_derived_route(x) by {
    }
}

proof fn model_fails_where_unsound(x: xml::ModelRepresentation)
    ensures
        forall|path: Seq<char>| #[trigger]
            convert_representation::model_due(x, path) is None <==> is_sound_model(x),
{
    route_frame_fails_where_unsound(x.placement.frame);
    assert forall|path: Seq<char>| #[trigger] convert_representation::model_due(x, path) is None <==> is_sound_model(x) by {
    }
}

proof fn model_root_fails_where_unsound(x: xml::ModelRoot)
    ensures
        forall|path: Seq<char>| #[trigger]
            convert_representation::model_root_due(x, path) is None <==> is_sound_model_root(x),
{
    assert forall|path: Seq<char>| #[trigger] convert_representation::model_root_due(x, path) is None <==> is_sound_model_root(x) by {
    }
}

proof fn model_part_fails_where_unsound(x: xml::ModelPartRepresentation)
    ensures
        forall|path: Seq<char>| #[trigger]
            convert_representation::model_part_due(x, path) is None <==> is_sound_model_part(x),
{
    model_root_fails_where_unsound(x.model_root);
    assert forall|path: Seq<char>| #[trigger] convert_representation::model_part_due(x, path) is None <==> is_sound_model_part(x) by {
    }
}

proof fn representation_fails_where_unsound(x: xml::Representation)
    ensures
        forall|path: Seq<char>| #[trigger]
            convert_representation::representation_due(x, path) is None <==> is_sound_representation(x),
{
    match x.variant {
        xml::RepresentationChoice::Box(a) => {
            route_frame_fails_where_unsound(a.placement.frame);
        },
        xml::RepresentationChoice::Cylinder(a) => {
            route_frame_fails_where_unsound(a.placement.frame);
        },
        xml::RepresentationChoice::Sphere(a) => {
            route_frame_fails_where_unsound(a.placement.frame);
        },
        xml::RepresentationChoice::Model(a) => {
            model_fails_where_unsound(a);
        },
        xml::RepresentationChoice::ModelPart(a) => {
            model_part_fails_where_unsound(a);
        },
        xml::RepresentationChoice::DerivedRoute(a) => {
            derived_route_fails_where_unsound(a);
        },
    }
    assert forall|path: Seq<char>| #[trigger] convert_representation::representation_due(x, path) is None <==> is_sound_representation(x) by {
    }
}

proof fn profiles_fail_where_unsound(ids: Seq<String>)
    ensures
        forall|path: Seq<char>, tag: Seq<char>|
            faults::first_failure(
                ids.len(),
                #[trigger] convert_selection::profiles_due(ids, path, tag),
            ) is None <==> are_profiles(ids),
{
    assert forall|path: Seq<char>, tag: Seq<char>|
        faults::first_failure(ids.len(), #[trigger] convert_selection::profiles_due(ids, path, tag))
            is None <==> are_profiles(ids) by {
        let due = convert_selection::profiles_due(ids, path, tag);
        faults::no_failure_means_none(ids.len(), due);
        if forall|i: int| 0 <= i < ids.len() ==> #[trigger] due(i) is None {
            assert forall|i: int| 0 <= i < ids.len() implies canonical::is_qualified(
                (#[trigger] ids[i])@,
            ) by {
                assert(due(i) is None);
            }
            assert forall|i: int, j: int| 0 <= i < j < ids.len() implies (#[trigger] ids[i])@ != (
            #[trigger] ids[j])@ by {
                assert(due(j) is None);
                assert(!convert_selection::repeats_text(ids, j));
            }
        }
        if are_profiles(ids) {
            assert forall|i: int| 0 <= i < ids.len() implies #[trigger] due(i) is None by {
                assert(canonical::is_qualified(ids[i]@));
                assert(!convert_selection::repeats_text(ids, i));
            }
        }
    }
}

proof fn capabilities_fails_where_unsound(x: Option<xml::Capabilities>)
    ensures
        forall|path: Seq<char>| #[trigger]
            convert_selection::capabilities_due(x, path) is None <==> is_sound_capabilities(x),
{
    if let Some(c) = x {
        profiles_fail_where_unsound(c.profile@.map_values(|p: xml::ProfileCapability| p.id));
    }
}

proof fn selection_fails_where_unsound(x: xml::NetworkSelection)
    ensures
        forall|path: Seq<char>| #[trigger]
            convert_selection::network_selection_due(x, path) is None <==> is_sound_selection(x),
{
    profiles_fail_where_unsound(x.profile@.map_values(|p: xml::SelectedProfile| p.id));
    assert forall|path: Seq<char>| #[trigger] convert_selection::network_selection_due(x, path) is None <==> is_sound_selection(x) by {
    }
}

proof fn channel_fails_where_unsound(x: xml::Channel)
    ensures
        forall|path: Seq<char>, index: int| #[trigger]
            convert_component::channel_due(x, path, index) is None <==> is_sound_channel(x),
{
    capabilities_fails_where_unsound(x.capabilities);
    assert forall|path: Seq<char>, index: int| #[trigger] convert_component::channel_due(x, path, index) is None <==> is_sound_channel(x) by {
    }
}

proof fn channel_list_fails_where_unsound(x: Seq<xml::Channel>)
    ensures
        forall|path: Seq<char>|
            faults::first_failure(x.len(), #[trigger] convert_component::channels_due(x, path)) is None <==> all_sound_channel(x),
{
    assert forall|path: Seq<char>|
        faults::first_failure(x.len(), #[trigger] convert_component::channels_due(x, path)) is None <==> all_sound_channel(x) by {
        let due = convert_component::channels_due(x, path);
        faults::no_failure_means_none(x.len(), due);
        assert forall|i: int| 0 <= i < x.len() implies (#[trigger] due(i) is None <==> is_sound_channel(
            x[i],
        )) by {
            channel_fails_where_unsound(x[i]);
            assert(convert_component::channel_due(x[i], path, i) is None <==> is_sound_channel(x[i]));
        }
        if all_sound_channel(x) {
            assert forall|i: int| 0 <= i < x.len() implies #[trigger] due(i) is None by {
                assert(is_sound_channel(x[i]));
            }
        }
        if forall|i: int| 0 <= i < x.len() ==> #[trigger] due(i) is None {
            assert forall|i: int| 0 <= i < x.len() implies is_sound_channel(#[trigger] x[i]) by {
                assert(due(i) is None);
            }
        }
    }
}

proof fn port_fails_where_unsound(x: xml::Port)
    ensures
        forall|path: Seq<char>, index: int| #[trigger]
            convert_component::port_due(x, path, index) is None <==> is_sound_port(x),
{
    channel_list_fails_where_unsound(x.channel@);
    capabilities_fails_where_unsound(x.capabilities);
    assert forall|path: Seq<char>, index: int| #[trigger] convert_component::port_due(x, path, index) is None <==> is_sound_port(x) by {
    }
}

proof fn port_list_fails_where_unsound(x: Seq<xml::Port>)
    ensures
        forall|path: Seq<char>|
            faults::first_failure(x.len(), #[trigger] convert_component::ports_due(x, path)) is None <==> all_sound_port(x),
{
    assert forall|path: Seq<char>|
        faults::first_failure(x.len(), #[trigger] convert_component::ports_due(x, path)) is None <==> all_sound_port(x) by {
        let due = convert_component::ports_due(x, path);
        faults::no_failure_means_none(x.len(), due);
        assert forall|i: int| 0 <= i < x.len() implies (#[trigger] due(i) is None <==> is_sound_port(
            x[i],
        )) by {
            port_fails_where_unsound(x[i]);
            assert(convert_component::port_due(x[i], path, i) is None <==> is_sound_port(x[i]));
        }
        if all_sound_port(x) {
            assert forall|i: int| 0 <= i < x.len() implies #[trigger] due(i) is None by {
                assert(is_sound_port(x[i]));
            }
        }
        if forall|i: int| 0 <= i < x.len() ==> #[trigger] due(i) is None {
            assert forall|i: int| 0 <= i < x.len() implies is_sound_port(#[trigger] x[i]) by {
                assert(due(i) is None);
            }
        }
    }
}

proof fn position_fails_where_unsound(x: xml::Position)
    ensures
        forall|path: Seq<char>, index: int, tag: Seq<char>| #[trigger]
            convert_component::position_due(x, path, index, tag) is None <==> is_sound_position(x),
{
    if let Some(part) = x.representation {
        representation_fails_where_unsound(part);
    }
    assert forall|path: Seq<char>, index: int, tag: Seq<char>| #[trigger] convert_component::position_due(x, path, index, tag) is None <==> is_sound_position(x) by {
    }
}

proof fn position_list_fails_where_unsound(x: Seq<xml::Position>)
    ensures
        forall|path: Seq<char>, tag: Seq<char>|
            faults::first_failure(x.len(), #[trigger] convert_component::positions_due(x, path, tag)) is None <==> all_sound_position(x),
{
    assert forall|path: Seq<char>, tag: Seq<char>|
        faults::first_failure(x.len(), #[trigger] convert_component::positions_due(x, path, tag)) is None <==> all_sound_position(x) by {
        let due = convert_component::positions_due(x, path, tag);
        faults::no_failure_means_none(x.len(), due);
        assert forall|i: int| 0 <= i < x.len() implies (#[trigger] due(i) is None <==> is_sound_position(
            x[i],
        )) by {
            position_fails_where_unsound(x[i]);
            assert(convert_component::position_due(x[i], path, i, tag) is None <==> is_sound_position(x[i]));
        }
        if all_sound_position(x) {
            assert forall|i: int| 0 <= i < x.len() implies #[trigger] due(i) is None by {
                assert(is_sound_position(x[i]));
            }
        }
        if forall|i: int| 0 <= i < x.len() ==> #[trigger] due(i) is None {
            assert forall|i: int| 0 <= i < x.len() implies is_sound_position(#[trigger] x[i]) by {
                assert(due(i) is None);
            }
        }
    }
}

proof fn connector_fails_where_unsound(x: xml::Connector)
    ensures
        forall|path: Seq<char>, index: int| #[trigger]
            convert_component::convert_connector_due(x, path, index) is None <==> is_sound_connector(x),
{
    if let Some(part) = x.representation {
        representation_fails_where_unsound(part);
    }
    position_list_fails_where_unsound(x.pin@);
    position_list_fails_where_unsound(x.socket@);
    position_list_fails_where_unsound(x.contact@);
    position_list_fails_where_unsound(x.fiber@);
    position_list_fails_where_unsound(x.passage@);
    position_list_fails_where_unsound(x.feed@);
    position_list_fails_where_unsound(x.waveguide_opening@);
    assert forall|path: Seq<char>, index: int| #[trigger] convert_component::convert_connector_due(x, path, index) is None <==> is_sound_connector(x) by {
    }
}

proof fn connector_list_fails_where_unsound(x: Seq<xml::Connector>)
    ensures
        forall|path: Seq<char>|
            faults::first_failure(x.len(), #[trigger] convert_component::connectors_due(x, path)) is None <==> all_sound_connector(x),
{
    assert forall|path: Seq<char>|
        faults::first_failure(x.len(), #[trigger] convert_component::connectors_due(x, path)) is None <==> all_sound_connector(x) by {
        let due = convert_component::connectors_due(x, path);
        faults::no_failure_means_none(x.len(), due);
        assert forall|i: int| 0 <= i < x.len() implies (#[trigger] due(i) is None <==> is_sound_connector(
            x[i],
        )) by {
            connector_fails_where_unsound(x[i]);
            assert(convert_component::convert_connector_due(x[i], path, i) is None <==> is_sound_connector(x[i]));
        }
        if all_sound_connector(x) {
            assert forall|i: int| 0 <= i < x.len() implies #[trigger] due(i) is None by {
                assert(is_sound_connector(x[i]));
            }
        }
        if forall|i: int| 0 <= i < x.len() ==> #[trigger] due(i) is None {
            assert forall|i: int| 0 <= i < x.len() implies is_sound_connector(#[trigger] x[i]) by {
                assert(due(i) is None);
            }
        }
    }
}

proof fn antenna_fails_where_unsound(x: xml::Antenna)
    ensures
        forall|path: Seq<char>, index: int| #[trigger]
            convert_component::antenna_due(x, path, index) is None <==> is_sound_antenna(x),
{
    if let Some(part) = x.representation {
        representation_fails_where_unsound(part);
    }
    assert forall|path: Seq<char>, index: int| #[trigger] convert_component::antenna_due(x, path, index) is None <==> is_sound_antenna(x) by {
    }
}

proof fn antenna_list_fails_where_unsound(x: Seq<xml::Antenna>)
    ensures
        forall|path: Seq<char>|
            faults::first_failure(x.len(), #[trigger] convert_component::antennas_due(x, path)) is None <==> all_sound_antenna(x),
{
    assert forall|path: Seq<char>|
        faults::first_failure(x.len(), #[trigger] convert_component::antennas_due(x, path)) is None <==> all_sound_antenna(x) by {
        let due = convert_component::antennas_due(x, path);
        faults::no_failure_means_none(x.len(), due);
        assert forall|i: int| 0 <= i < x.len() implies (#[trigger] due(i) is None <==> is_sound_antenna(
            x[i],
        )) by {
            antenna_fails_where_unsound(x[i]);
            assert(convert_component::antenna_due(x[i], path, i) is None <==> is_sound_antenna(x[i]));
        }
        if all_sound_antenna(x) {
            assert forall|i: int| 0 <= i < x.len() implies #[trigger] due(i) is None by {
                assert(is_sound_antenna(x[i]));
            }
        }
        if forall|i: int| 0 <= i < x.len() ==> #[trigger] due(i) is None {
            assert forall|i: int| 0 <= i < x.len() implies is_sound_antenna(#[trigger] x[i]) by {
                assert(due(i) is None);
            }
        }
    }
}

proof fn endpoint_fails_where_unsound(x: xml::FunctionalEndpointRef)
    ensures
        forall|path: Seq<char>, index: int, tag: Seq<char>| #[trigger]
            convert_component::endpoint_due(x, path, index, tag) is None <==> is_sound_endpoint(x),
{
    functional_endpoint_fails_where_unsound(x);
    assert forall|path: Seq<char>, index: int, tag: Seq<char>| #[trigger] convert_component::endpoint_due(x, path, index, tag) is None <==> is_sound_endpoint(x) by {
    }
}

proof fn endpoint_list_fails_where_unsound(x: Seq<xml::FunctionalEndpointRef>)
    ensures
        forall|path: Seq<char>, tag: Seq<char>|
            faults::first_failure(x.len(), #[trigger] convert_component::endpoint_list_due(x, path, tag)) is None <==> all_sound_endpoint(x),
{
    assert forall|path: Seq<char>, tag: Seq<char>|
        faults::first_failure(x.len(), #[trigger] convert_component::endpoint_list_due(x, path, tag)) is None <==> all_sound_endpoint(x) by {
        let due = convert_component::endpoint_list_due(x, path, tag);
        faults::no_failure_means_none(x.len(), due);
        assert forall|i: int| 0 <= i < x.len() implies (#[trigger] due(i) is None <==> is_sound_endpoint(
            x[i],
        )) by {
            endpoint_fails_where_unsound(x[i]);
            assert(convert_component::endpoint_due(x[i], path, i, tag) is None <==> is_sound_endpoint(x[i]));
        }
        if all_sound_endpoint(x) {
            assert forall|i: int| 0 <= i < x.len() implies #[trigger] due(i) is None by {
                assert(is_sound_endpoint(x[i]));
            }
        }
        if forall|i: int| 0 <= i < x.len() ==> #[trigger] due(i) is None {
            assert forall|i: int| 0 <= i < x.len() implies is_sound_endpoint(#[trigger] x[i]) by {
                assert(due(i) is None);
            }
        }
    }
}

proof fn function_fails_where_unsound(x: xml::Function)
    ensures
        forall|path: Seq<char>, index: int, tag: Seq<char>| #[trigger]
            convert_component::function_due(x, path, index, tag) is None <==> is_sound_function(x),
{
    endpoint_list_fails_where_unsound(x.input@);
    endpoint_list_fails_where_unsound(x.output@);
    endpoint_list_fails_where_unsound(x.bidirectional@);
    assert forall|path: Seq<char>, index: int, tag: Seq<char>| #[trigger] convert_component::function_due(x, path, index, tag) is None <==> is_sound_function(x) by {
    }
}

proof fn function_list_fails_where_unsound(x: Seq<xml::Function>)
    ensures
        forall|path: Seq<char>, tag: Seq<char>|
            faults::first_failure(x.len(), #[trigger] convert_component::functions_due(x, path, tag)) is None <==> all_sound_function(x),
{
    assert forall|path: Seq<char>, tag: Seq<char>|
        faults::first_failure(x.len(), #[trigger] convert_component::functions_due(x, path, tag)) is None <==> all_sound_function(x) by {
        let due = convert_component::functions_due(x, path, tag);
        faults::no_failure_means_none(x.len(), due);
        assert forall|i: int| 0 <= i < x.len() implies (#[trigger] due(i) is None <==> is_sound_function(
            x[i],
        )) by {
            function_fails_where_unsound(x[i]);
            assert(convert_component::function_due(x[i], path, i, tag) is None <==> is_sound_function(x[i]));
        }
        if all_sound_function(x) {
            assert forall|i: int| 0 <= i < x.len() implies #[trigger] due(i) is None by {
                assert(is_sound_function(x[i]));
            }
        }
        if forall|i: int| 0 <= i < x.len() ==> #[trigger] due(i) is None {
            assert forall|i: int| 0 <= i < x.len() implies is_sound_function(#[trigger] x[i]) by {
                assert(due(i) is None);
            }
        }
    }
}

proof fn path_fails_where_unsound(x: xml::Path)
    ensures
        forall|path: Seq<char>, index: int, tag: Seq<char>| #[trigger]
            convert_component::physical_path_due(x, path, index, tag) is None <==> is_sound_path(x),
{
    physical_endpoint_fails_where_unsound(x.first);
    physical_endpoint_fails_where_unsound(x.second);
    if let Some(part) = x.representation {
        representation_fails_where_unsound(part);
    }
    assert forall|path: Seq<char>, index: int, tag: Seq<char>| #[trigger] convert_component::physical_path_due(x, path, index, tag) is None <==> is_sound_path(x) by {
    }
}

proof fn path_list_fails_where_unsound(x: Seq<xml::Path>)
    ensures
        forall|path: Seq<char>, tag: Seq<char>|
            faults::first_failure(x.len(), #[trigger] convert_component::physical_paths_due(x, path, tag)) is None <==> all_sound_path(x),
{
    assert forall|path: Seq<char>, tag: Seq<char>|
        faults::first_failure(x.len(), #[trigger] convert_component::physical_paths_due(x, path, tag)) is None <==> all_sound_path(x) by {
        let due = convert_component::physical_paths_due(x, path, tag);
        faults::no_failure_means_none(x.len(), due);
        assert forall|i: int| 0 <= i < x.len() implies (#[trigger] due(i) is None <==> is_sound_path(
            x[i],
        )) by {
            path_fails_where_unsound(x[i]);
            assert(convert_component::physical_path_due(x[i], path, i, tag) is None <==> is_sound_path(x[i]));
        }
        if all_sound_path(x) {
            assert forall|i: int| 0 <= i < x.len() implies #[trigger] due(i) is None by {
                assert(is_sound_path(x[i]));
            }
        }
        if forall|i: int| 0 <= i < x.len() ==> #[trigger] due(i) is None {
            assert forall|i: int| 0 <= i < x.len() implies is_sound_path(#[trigger] x[i]) by {
                assert(due(i) is None);
            }
        }
    }
}

proof fn attachment_fails_where_unsound(x: xml::PhysicalEndpointRef)
    ensures
        forall|path: Seq<char>, index: int| #[trigger]
            convert_component::attachment_due(x, path, index) is None <==> is_sound_attachment(x),
{
    physical_endpoint_fails_where_unsound(x);
    assert forall|path: Seq<char>, index: int| #[trigger] convert_component::attachment_due(x, path, index) is None <==> is_sound_attachment(x) by {
    }
}

proof fn attachment_list_fails_where_unsound(x: Seq<xml::PhysicalEndpointRef>)
    ensures
        forall|path: Seq<char>|
            faults::first_failure(x.len(), #[trigger] convert_component::attachments_due(x, path)) is None <==> all_sound_attachment(x),
{
    assert forall|path: Seq<char>|
        faults::first_failure(x.len(), #[trigger] convert_component::attachments_due(x, path)) is None <==> all_sound_attachment(x) by {
        let due = convert_component::attachments_due(x, path);
        faults::no_failure_means_none(x.len(), due);
        assert forall|i: int| 0 <= i < x.len() implies (#[trigger] due(i) is None <==> is_sound_attachment(
            x[i],
        )) by {
            attachment_fails_where_unsound(x[i]);
            assert(convert_component::attachment_due(x[i], path, i) is None <==> is_sound_attachment(x[i]));
        }
        if all_sound_attachment(x) {
            assert forall|i: int| 0 <= i < x.len() implies #[trigger] due(i) is None by {
                assert(is_sound_attachment(x[i]));
            }
        }
        if forall|i: int| 0 <= i < x.len() ==> #[trigger] due(i) is None {
            assert forall|i: int| 0 <= i < x.len() implies is_sound_attachment(#[trigger] x[i]) by {
                assert(due(i) is None);
            }
        }
    }
}

proof fn junction_fails_where_unsound(x: xml::Junction)
    ensures
        forall|path: Seq<char>, index: int, tag: Seq<char>| #[trigger]
            convert_component::junction_due(x, path, index, tag) is None <==> is_sound_junction(x),
{
    attachment_list_fails_where_unsound(x.attachment@);
    if let Some(part) = x.representation {
        representation_fails_where_unsound(part);
    }
    assert forall|path: Seq<char>, index: int, tag: Seq<char>| #[trigger] convert_component::junction_due(x, path, index, tag) is None <==> is_sound_junction(x) by {
    }
}

proof fn junction_list_fails_where_unsound(x: Seq<xml::Junction>)
    ensures
        forall|path: Seq<char>, tag: Seq<char>|
            faults::first_failure(x.len(), #[trigger] convert_component::junctions_due(x, path, tag)) is None <==> all_sound_junction(x),
{
    assert forall|path: Seq<char>, tag: Seq<char>|
        faults::first_failure(x.len(), #[trigger] convert_component::junctions_due(x, path, tag)) is None <==> all_sound_junction(x) by {
        let due = convert_component::junctions_due(x, path, tag);
        faults::no_failure_means_none(x.len(), due);
        assert forall|i: int| 0 <= i < x.len() implies (#[trigger] due(i) is None <==> is_sound_junction(
            x[i],
        )) by {
            junction_fails_where_unsound(x[i]);
            assert(convert_component::junction_due(x[i], path, i, tag) is None <==> is_sound_junction(x[i]));
        }
        if all_sound_junction(x) {
            assert forall|i: int| 0 <= i < x.len() implies #[trigger] due(i) is None by {
                assert(is_sound_junction(x[i]));
            }
        }
        if forall|i: int| 0 <= i < x.len() ==> #[trigger] due(i) is None {
            assert forall|i: int| 0 <= i < x.len() implies is_sound_junction(#[trigger] x[i]) by {
                assert(due(i) is None);
            }
        }
    }
}

proof fn named_quantity_fails_where_unsound(x: xml::NamedQuantity)
    ensures
        forall|path: Seq<char>, index: int| #[trigger]
            convert_component::named_quantity_due(x, path, index) is None <==> is_sound_named_quantity(x),
{
    assert forall|path: Seq<char>, index: int| #[trigger] convert_component::named_quantity_due(x, path, index) is None <==> is_sound_named_quantity(x) by {
    }
}

proof fn named_quantity_list_fails_where_unsound(x: Seq<xml::NamedQuantity>)
    ensures
        forall|path: Seq<char>|
            faults::first_failure(x.len(), #[trigger] convert_component::named_quantities_due(x, path)) is None <==> all_sound_named_quantity(x),
{
    assert forall|path: Seq<char>|
        faults::first_failure(x.len(), #[trigger] convert_component::named_quantities_due(x, path)) is None <==> all_sound_named_quantity(x) by {
        let due = convert_component::named_quantities_due(x, path);
        faults::no_failure_means_none(x.len(), due);
        assert forall|i: int| 0 <= i < x.len() implies (#[trigger] due(i) is None <==> is_sound_named_quantity(
            x[i],
        )) by {
            named_quantity_fails_where_unsound(x[i]);
            assert(convert_component::named_quantity_due(x[i], path, i) is None <==> is_sound_named_quantity(x[i]));
        }
        if all_sound_named_quantity(x) {
            assert forall|i: int| 0 <= i < x.len() implies #[trigger] due(i) is None by {
                assert(is_sound_named_quantity(x[i]));
            }
        }
        if forall|i: int| 0 <= i < x.len() ==> #[trigger] due(i) is None {
            assert forall|i: int| 0 <= i < x.len() implies is_sound_named_quantity(#[trigger] x[i]) by {
                assert(due(i) is None);
            }
        }
    }
}

proof fn termination_fails_where_unsound(x: xml::Termination)
    ensures
        forall|path: Seq<char>, index: int| #[trigger]
            convert_component::convert_termination_due(x, path, index) is None <==> is_sound_termination(x),
{
    attachment_list_fails_where_unsound(x.attachment@);
    named_quantity_list_fails_where_unsound(x.quantity@);
    if let Some(part) = x.representation {
        representation_fails_where_unsound(part);
    }
    assert forall|path: Seq<char>, index: int| #[trigger] convert_component::convert_termination_due(x, path, index) is None <==> is_sound_termination(x) by {
    }
}

proof fn termination_list_fails_where_unsound(x: Seq<xml::Termination>)
    ensures
        forall|path: Seq<char>|
            faults::first_failure(x.len(), #[trigger] convert_component::terminations_due(x, path)) is None <==> all_sound_termination(x),
{
    assert forall|path: Seq<char>|
        faults::first_failure(x.len(), #[trigger] convert_component::terminations_due(x, path)) is None <==> all_sound_termination(x) by {
        let due = convert_component::terminations_due(x, path);
        faults::no_failure_means_none(x.len(), due);
        assert forall|i: int| 0 <= i < x.len() implies (#[trigger] due(i) is None <==> is_sound_termination(
            x[i],
        )) by {
            termination_fails_where_unsound(x[i]);
            assert(convert_component::convert_termination_due(x[i], path, i) is None <==> is_sound_termination(x[i]));
        }
        if all_sound_termination(x) {
            assert forall|i: int| 0 <= i < x.len() implies #[trigger] due(i) is None by {
                assert(is_sound_termination(x[i]));
            }
        }
        if forall|i: int| 0 <= i < x.len() ==> #[trigger] due(i) is None {
            assert forall|i: int| 0 <= i < x.len() implies is_sound_termination(#[trigger] x[i]) by {
                assert(due(i) is None);
            }
        }
    }
}

proof fn component_fails_where_unsound(x: Comp)
    ensures
        forall|index: int| #[trigger]
            convert_component::convert_component_due(x, index) is None <==> is_sound_component(x),
{
    port_list_fails_where_unsound(x.port@);
    connector_list_fails_where_unsound(x.connector@);
    antenna_list_fails_where_unsound(x.antenna@);
    function_list_fails_where_unsound(x.switch@);
    function_list_fails_where_unsound(x.bridge@);
    function_list_fails_where_unsound(x.converter@);
    function_list_fails_where_unsound(x.transceiver@);
    function_list_fails_where_unsound(x.radio@);
    path_list_fails_where_unsound(x.wire@);
    path_list_fails_where_unsound(x.conductor@);
    path_list_fails_where_unsound(x.cable_member@);
    path_list_fails_where_unsound(x.fiber@);
    path_list_fails_where_unsound(x.coax@);
    path_list_fails_where_unsound(x.waveguide@);
    path_list_fails_where_unsound(x.feed@);
    path_list_fails_where_unsound(x.hose@);
    path_list_fails_where_unsound(x.pipe@);
    path_list_fails_where_unsound(x.passage@);
    junction_list_fails_where_unsound(x.splice@);
    junction_list_fails_where_unsound(x.tee@);
    junction_list_fails_where_unsound(x.manifold@);
    junction_list_fails_where_unsound(x.busbar@);
    junction_list_fails_where_unsound(x.optical_splitter@);
    termination_list_fails_where_unsound(x.termination@);
    assert forall|index: int| #[trigger] convert_component::convert_component_due(x, index) is None <==> is_sound_component(x) by {
    }
}

proof fn component_list_fails_where_unsound(x: Seq<Comp>)
    ensures
        faults::first_failure(x.len(), convert_component::components_due(x)) is None <==> all_sound_component(x),
{
    let due = convert_component::components_due(x);
    faults::no_failure_means_none(x.len(), due);
    assert forall|i: int| 0 <= i < x.len() implies (#[trigger] due(i) is None <==> is_sound_component(
        x[i],
    )) by {
        component_fails_where_unsound(x[i]);
        assert(convert_component::convert_component_due(x[i], i) is None <==> is_sound_component(x[i]));
    }
    if all_sound_component(x) {
        assert forall|i: int| 0 <= i < x.len() implies #[trigger] due(i) is None by {
            assert(is_sound_component(x[i]));
        }
    }
    if forall|i: int| 0 <= i < x.len() ==> #[trigger] due(i) is None {
        assert forall|i: int| 0 <= i < x.len() implies is_sound_component(#[trigger] x[i]) by {
            assert(due(i) is None);
        }
    }
}

proof fn assembly_fails_where_unsound(x: xml::Assembly)
    ensures
        forall|index: int, tag: Seq<char>| #[trigger]
            convert_component::assembly_due(x, index, tag) is None <==> is_sound_assembly(x),
{
    connector_list_fails_where_unsound(x.connector@);
    path_list_fails_where_unsound(x.wire@);
    path_list_fails_where_unsound(x.conductor@);
    path_list_fails_where_unsound(x.cable_member@);
    path_list_fails_where_unsound(x.fiber@);
    path_list_fails_where_unsound(x.coax@);
    path_list_fails_where_unsound(x.waveguide@);
    path_list_fails_where_unsound(x.feed@);
    path_list_fails_where_unsound(x.hose@);
    path_list_fails_where_unsound(x.pipe@);
    path_list_fails_where_unsound(x.passage@);
    junction_list_fails_where_unsound(x.splice@);
    junction_list_fails_where_unsound(x.tee@);
    junction_list_fails_where_unsound(x.manifold@);
    junction_list_fails_where_unsound(x.busbar@);
    junction_list_fails_where_unsound(x.optical_splitter@);
    termination_list_fails_where_unsound(x.termination@);
    if let Some(part) = x.representation {
        representation_fails_where_unsound(part);
    }
    assert forall|index: int, tag: Seq<char>| #[trigger] convert_component::assembly_due(x, index, tag) is None <==> is_sound_assembly(x) by {
    }
}

proof fn assembly_list_fails_where_unsound(x: Seq<xml::Assembly>)
    ensures
        forall|tag: Seq<char>|
            faults::first_failure(x.len(), #[trigger] convert_component::assemblies_due(x, tag)) is None <==> all_sound_assembly(x),
{
    assert forall|tag: Seq<char>|
        faults::first_failure(x.len(), #[trigger] convert_component::assemblies_due(x, tag)) is None <==> all_sound_assembly(x) by {
        let due = convert_component::assemblies_due(x, tag);
        faults::no_failure_means_none(x.len(), due);
        assert forall|i: int| 0 <= i < x.len() implies (#[trigger] due(i) is None <==> is_sound_assembly(
            x[i],
        )) by {
            assembly_fails_where_unsound(x[i]);
            assert(convert_component::assembly_due(x[i], i, tag) is None <==> is_sound_assembly(x[i]));
        }
        if all_sound_assembly(x) {
            assert forall|i: int| 0 <= i < x.len() implies #[trigger] due(i) is None by {
                assert(is_sound_assembly(x[i]));
            }
        }
        if forall|i: int| 0 <= i < x.len() ==> #[trigger] due(i) is None {
            assert forall|i: int| 0 <= i < x.len() implies is_sound_assembly(#[trigger] x[i]) by {
                assert(due(i) is None);
            }
        }
    }
}

proof fn hop_owner_fails_where_unsound(x: xml::HopOwnerRef)
    ensures
        forall|path: Seq<char>| #[trigger]
            convert_network::hop_owner_due(x, path) is None <==> is_sound_hop_owner(x),
{
    assert forall|path: Seq<char>| #[trigger] convert_network::hop_owner_due(x, path) is None <==> is_sound_hop_owner(x) by {
    }
}

proof fn hop_fails_where_unsound(x: xml::Hop)
    ensures
        forall|path: Seq<char>, index: int| #[trigger]
            convert_network::convert_hop_due(x, path, index) is None <==> is_sound_hop(x),
{
    hop_owner_fails_where_unsound(x.owner);
    assert forall|path: Seq<char>, index: int| #[trigger] convert_network::convert_hop_due(x, path, index) is None <==> is_sound_hop(x) by {
    }
}

proof fn hop_list_fails_where_unsound(x: Seq<xml::Hop>)
    ensures
        forall|path: Seq<char>|
            faults::first_failure(x.len(), #[trigger] convert_network::hops_due(x, path)) is None <==> all_sound_hop(x),
{
    assert forall|path: Seq<char>|
        faults::first_failure(x.len(), #[trigger] convert_network::hops_due(x, path)) is None <==> all_sound_hop(x) by {
        let due = convert_network::hops_due(x, path);
        faults::no_failure_means_none(x.len(), due);
        assert forall|i: int| 0 <= i < x.len() implies (#[trigger] due(i) is None <==> is_sound_hop(
            x[i],
        )) by {
            hop_fails_where_unsound(x[i]);
            assert(convert_network::convert_hop_due(x[i], path, i) is None <==> is_sound_hop(x[i]));
        }
        if all_sound_hop(x) {
            assert forall|i: int| 0 <= i < x.len() implies #[trigger] due(i) is None by {
                assert(is_sound_hop(x[i]));
            }
        }
        if forall|i: int| 0 <= i < x.len() ==> #[trigger] due(i) is None {
            assert forall|i: int| 0 <= i < x.len() implies is_sound_hop(#[trigger] x[i]) by {
                assert(due(i) is None);
            }
        }
    }
}

proof fn leg_end_fails_where_unsound(x: xml::LegEnd)
    ensures
        forall|path: Seq<char>| #[trigger]
            convert_network::leg_end_due(x, path) is None <==> is_sound_leg_end(x),
{
    assert forall|path: Seq<char>| #[trigger] convert_network::leg_end_due(x, path) is None <==> is_sound_leg_end(x) by {
    }
}

proof fn leg_fails_where_unsound(x: xml::Leg)
    ensures
        forall|path: Seq<char>, index: int| #[trigger]
            convert_network::convert_leg_due(x, path, index) is None <==> is_sound_leg(x),
{
    leg_end_fails_where_unsound(x.from);
    leg_end_fails_where_unsound(x.to);
    assert forall|path: Seq<char>, index: int| #[trigger] convert_network::convert_leg_due(x, path, index) is None <==> is_sound_leg(x) by {
    }
}

proof fn leg_list_fails_where_unsound(x: Seq<xml::Leg>)
    ensures
        forall|path: Seq<char>|
            faults::first_failure(x.len(), #[trigger] convert_network::legs_due(x, path)) is None <==> all_sound_leg(x),
{
    assert forall|path: Seq<char>|
        faults::first_failure(x.len(), #[trigger] convert_network::legs_due(x, path)) is None <==> all_sound_leg(x) by {
        let due = convert_network::legs_due(x, path);
        faults::no_failure_means_none(x.len(), due);
        assert forall|i: int| 0 <= i < x.len() implies (#[trigger] due(i) is None <==> is_sound_leg(
            x[i],
        )) by {
            leg_fails_where_unsound(x[i]);
            assert(convert_network::convert_leg_due(x[i], path, i) is None <==> is_sound_leg(x[i]));
        }
        if all_sound_leg(x) {
            assert forall|i: int| 0 <= i < x.len() implies #[trigger] due(i) is None by {
                assert(is_sound_leg(x[i]));
            }
        }
        if forall|i: int| 0 <= i < x.len() ==> #[trigger] due(i) is None {
            assert forall|i: int| 0 <= i < x.len() implies is_sound_leg(#[trigger] x[i]) by {
                assert(due(i) is None);
            }
        }
    }
}

proof fn participant_fails_where_unsound(x: xml::Participant)
    ensures
        forall|path: Seq<char>, index: int| #[trigger]
            convert_network::participant_due(x, path, index) is None <==> is_sound_participant(x),
{
    functional_endpoint_fails_where_unsound(x.endpoint);
    assert forall|path: Seq<char>, index: int| #[trigger] convert_network::participant_due(x, path, index) is None <==> is_sound_participant(x) by {
    }
}

proof fn participant_list_fails_where_unsound(x: Seq<xml::Participant>)
    ensures
        forall|path: Seq<char>|
            faults::first_failure(x.len(), #[trigger] convert_network::participants_due(x, path)) is None <==> all_sound_participant(x),
{
    assert forall|path: Seq<char>|
        faults::first_failure(x.len(), #[trigger] convert_network::participants_due(x, path)) is None <==> all_sound_participant(x) by {
        let due = convert_network::participants_due(x, path);
        faults::no_failure_means_none(x.len(), due);
        assert forall|i: int| 0 <= i < x.len() implies (#[trigger] due(i) is None <==> is_sound_participant(
            x[i],
        )) by {
            participant_fails_where_unsound(x[i]);
            assert(convert_network::participant_due(x[i], path, i) is None <==> is_sound_participant(x[i]));
        }
        if all_sound_participant(x) {
            assert forall|i: int| 0 <= i < x.len() implies #[trigger] due(i) is None by {
                assert(is_sound_participant(x[i]));
            }
        }
        if forall|i: int| 0 <= i < x.len() ==> #[trigger] due(i) is None {
            assert forall|i: int| 0 <= i < x.len() implies is_sound_participant(#[trigger] x[i]) by {
                assert(due(i) is None);
            }
        }
    }
}

proof fn clock_fails_where_unsound(x: xml::GptpClock)
    ensures
        forall|path: Seq<char>, index: int| #[trigger]
            convert_configuration::clock_due(x, path, index) is None <==> is_sound_clock(x),
{
    assert forall|path: Seq<char>, index: int| #[trigger] convert_configuration::clock_due(x, path, index) is None <==> is_sound_clock(x) by {
    }
}

proof fn clock_list_fails_where_unsound(x: Seq<xml::GptpClock>)
    ensures
        forall|path: Seq<char>|
            faults::first_failure(x.len(), #[trigger] convert_configuration::clocks_due(x, path)) is None <==> all_sound_clock(x),
{
    assert forall|path: Seq<char>|
        faults::first_failure(x.len(), #[trigger] convert_configuration::clocks_due(x, path)) is None <==> all_sound_clock(x) by {
        let due = convert_configuration::clocks_due(x, path);
        faults::no_failure_means_none(x.len(), due);
        assert forall|i: int| 0 <= i < x.len() implies (#[trigger] due(i) is None <==> is_sound_clock(
            x[i],
        )) by {
            clock_fails_where_unsound(x[i]);
            assert(convert_configuration::clock_due(x[i], path, i) is None <==> is_sound_clock(x[i]));
        }
        if all_sound_clock(x) {
            assert forall|i: int| 0 <= i < x.len() implies #[trigger] due(i) is None by {
                assert(is_sound_clock(x[i]));
            }
        }
        if forall|i: int| 0 <= i < x.len() ==> #[trigger] due(i) is None {
            assert forall|i: int| 0 <= i < x.len() implies is_sound_clock(#[trigger] x[i]) by {
                assert(due(i) is None);
            }
        }
    }
}

proof fn gptp_domain_fails_where_unsound(x: xml::GptpDomain)
    ensures
        forall|path: Seq<char>, index: int| #[trigger]
            convert_configuration::gptp_domain_due(x, path, index) is None <==> is_sound_gptp_domain(x),
{
    clock_list_fails_where_unsound(x.clock@);
    assert forall|path: Seq<char>, index: int| #[trigger] convert_configuration::gptp_domain_due(x, path, index) is None <==> is_sound_gptp_domain(x) by {
    }
}

proof fn gptp_domain_list_fails_where_unsound(x: Seq<xml::GptpDomain>)
    ensures
        forall|path: Seq<char>|
            faults::first_failure(x.len(), #[trigger] convert_configuration::gptp_domains_due(x, path)) is None <==> all_sound_gptp_domain(x),
{
    assert forall|path: Seq<char>|
        faults::first_failure(x.len(), #[trigger] convert_configuration::gptp_domains_due(x, path)) is None <==> all_sound_gptp_domain(x) by {
        let due = convert_configuration::gptp_domains_due(x, path);
        faults::no_failure_means_none(x.len(), due);
        assert forall|i: int| 0 <= i < x.len() implies (#[trigger] due(i) is None <==> is_sound_gptp_domain(
            x[i],
        )) by {
            gptp_domain_fails_where_unsound(x[i]);
            assert(convert_configuration::gptp_domain_due(x[i], path, i) is None <==> is_sound_gptp_domain(x[i]));
        }
        if all_sound_gptp_domain(x) {
            assert forall|i: int| 0 <= i < x.len() implies #[trigger] due(i) is None by {
                assert(is_sound_gptp_domain(x[i]));
            }
        }
        if forall|i: int| 0 <= i < x.len() ==> #[trigger] due(i) is None {
            assert forall|i: int| 0 <= i < x.len() implies is_sound_gptp_domain(#[trigger] x[i]) by {
                assert(due(i) is None);
            }
        }
    }
}

proof fn code_points_fail_where_unsound(x: Seq<xml::PcpValue>)
    ensures
        forall|path: Seq<char>|
            faults::first_failure(x.len(), #[trigger] convert_configuration::pcp_due(x, path)) is None
                <==> are_code_points(x),
{
    assert forall|path: Seq<char>|
        faults::first_failure(x.len(), #[trigger] convert_configuration::pcp_due(x, path)) is None
            <==> are_code_points(x) by {
        let due = convert_configuration::pcp_due(x, path);
        faults::no_failure_means_none(x.len(), due);
        if forall|i: int| 0 <= i < x.len() ==> #[trigger] due(i) is None {
            assert forall|i: int, j: int| 0 <= i < j < x.len() implies (#[trigger] x[i]).value != (
            #[trigger] x[j]).value by {
                assert(due(j) is None);
            }
        }
        if are_code_points(x) {
            assert forall|i: int| 0 <= i < x.len() implies #[trigger] due(i) is None by {
            }
        }
    }
}

proof fn open_classes_fail_where_unsound(x: Seq<xml::TrafficClassRef>)
    ensures
        forall|path: Seq<char>|
            faults::first_failure(x.len(), #[trigger] convert_configuration::open_due(x, path)) is None
                <==> are_open_classes(x),
{
    assert forall|path: Seq<char>|
        faults::first_failure(x.len(), #[trigger] convert_configuration::open_due(x, path)) is None
            <==> are_open_classes(x) by {
        let due = convert_configuration::open_due(x, path);
        faults::no_failure_means_none(x.len(), due);
        if forall|i: int| 0 <= i < x.len() ==> #[trigger] due(i) is None {
            assert forall|i: int| 0 <= i < x.len() implies is_instance((#[trigger] x[i]).instance) by {
                assert(due(i) is None);
            }
            assert forall|i: int, j: int|
                0 <= i < j < x.len() implies !convert_configuration::authored_classes_alike(
                #[trigger] x[i],
                #[trigger] x[j],
            ) by {
                assert(due(j) is None);
                assert(!convert_configuration::repeats_class(x, j));
            }
        }
        if are_open_classes(x) {
            assert forall|i: int| 0 <= i < x.len() implies #[trigger] due(i) is None by {
                assert(is_instance(x[i].instance));
                assert(!convert_configuration::repeats_class(x, i));
            }
        }
    }
}

proof fn traffic_class_fails_where_unsound(x: xml::TrafficClass)
    ensures
        forall|path: Seq<char>, index: int| #[trigger]
            convert_configuration::traffic_class_due(x, path, index) is None <==> is_sound_traffic_class(x),
{
    code_points_fail_where_unsound(x.pcp@);
    assert forall|path: Seq<char>, index: int| #[trigger] convert_configuration::traffic_class_due(x, path, index) is None <==> is_sound_traffic_class(x) by {
    }
}

proof fn traffic_class_list_fails_where_unsound(x: Seq<xml::TrafficClass>)
    ensures
        forall|path: Seq<char>|
            faults::first_failure(x.len(), #[trigger] convert_configuration::traffic_classes_due(x, path)) is None <==> all_sound_traffic_class(x),
{
    assert forall|path: Seq<char>|
        faults::first_failure(x.len(), #[trigger] convert_configuration::traffic_classes_due(x, path)) is None <==> all_sound_traffic_class(x) by {
        let due = convert_configuration::traffic_classes_due(x, path);
        faults::no_failure_means_none(x.len(), due);
        assert forall|i: int| 0 <= i < x.len() implies (#[trigger] due(i) is None <==> is_sound_traffic_class(
            x[i],
        )) by {
            traffic_class_fails_where_unsound(x[i]);
            assert(convert_configuration::traffic_class_due(x[i], path, i) is None <==> is_sound_traffic_class(x[i]));
        }
        if all_sound_traffic_class(x) {
            assert forall|i: int| 0 <= i < x.len() implies #[trigger] due(i) is None by {
                assert(is_sound_traffic_class(x[i]));
            }
        }
        if forall|i: int| 0 <= i < x.len() ==> #[trigger] due(i) is None {
            assert forall|i: int| 0 <= i < x.len() implies is_sound_traffic_class(#[trigger] x[i]) by {
                assert(due(i) is None);
            }
        }
    }
}

proof fn gate_fails_where_unsound(x: xml::GateControlEntry)
    ensures
        forall|path: Seq<char>, index: int| #[trigger]
            convert_configuration::gate_due(x, path, index) is None <==> is_sound_gate(x),
{
    open_classes_fail_where_unsound(x.open.traffic_class@);
    assert forall|path: Seq<char>, index: int| #[trigger] convert_configuration::gate_due(x, path, index) is None <==> is_sound_gate(x) by {
    }
}

proof fn gate_list_fails_where_unsound(x: Seq<xml::GateControlEntry>)
    ensures
        forall|path: Seq<char>|
            faults::first_failure(x.len(), #[trigger] convert_configuration::gates_due(x, path)) is None <==> all_sound_gate(x),
{
    assert forall|path: Seq<char>|
        faults::first_failure(x.len(), #[trigger] convert_configuration::gates_due(x, path)) is None <==> all_sound_gate(x) by {
        let due = convert_configuration::gates_due(x, path);
        faults::no_failure_means_none(x.len(), due);
        assert forall|i: int| 0 <= i < x.len() implies (#[trigger] due(i) is None <==> is_sound_gate(
            x[i],
        )) by {
            gate_fails_where_unsound(x[i]);
            assert(convert_configuration::gate_due(x[i], path, i) is None <==> is_sound_gate(x[i]));
        }
        if all_sound_gate(x) {
            assert forall|i: int| 0 <= i < x.len() implies #[trigger] due(i) is None by {
                assert(is_sound_gate(x[i]));
            }
        }
        if forall|i: int| 0 <= i < x.len() ==> #[trigger] due(i) is None {
            assert forall|i: int| 0 <= i < x.len() implies is_sound_gate(#[trigger] x[i]) by {
                assert(due(i) is None);
            }
        }
    }
}

proof fn gate_schedule_fails_where_unsound(x: xml::GateSchedule)
    ensures
        forall|path: Seq<char>, index: int| #[trigger]
            convert_configuration::gate_schedule_due(x, path, index) is None <==> is_sound_gate_schedule(x),
{
    gate_list_fails_where_unsound(x.gate@);
    assert forall|path: Seq<char>, index: int| #[trigger] convert_configuration::gate_schedule_due(x, path, index) is None <==> is_sound_gate_schedule(x) by {
    }
}

proof fn gate_schedule_list_fails_where_unsound(x: Seq<xml::GateSchedule>)
    ensures
        forall|path: Seq<char>|
            faults::first_failure(x.len(), #[trigger] convert_configuration::gate_schedules_due(x, path)) is None <==> all_sound_gate_schedule(x),
{
    assert forall|path: Seq<char>|
        faults::first_failure(x.len(), #[trigger] convert_configuration::gate_schedules_due(x, path)) is None <==> all_sound_gate_schedule(x) by {
        let due = convert_configuration::gate_schedules_due(x, path);
        faults::no_failure_means_none(x.len(), due);
        assert forall|i: int| 0 <= i < x.len() implies (#[trigger] due(i) is None <==> is_sound_gate_schedule(
            x[i],
        )) by {
            gate_schedule_fails_where_unsound(x[i]);
            assert(convert_configuration::gate_schedule_due(x[i], path, i) is None <==> is_sound_gate_schedule(x[i]));
        }
        if all_sound_gate_schedule(x) {
            assert forall|i: int| 0 <= i < x.len() implies #[trigger] due(i) is None by {
                assert(is_sound_gate_schedule(x[i]));
            }
        }
        if forall|i: int| 0 <= i < x.len() ==> #[trigger] due(i) is None {
            assert forall|i: int| 0 <= i < x.len() implies is_sound_gate_schedule(#[trigger] x[i]) by {
                assert(due(i) is None);
            }
        }
    }
}

proof fn target_fails_where_unsound(x: xml::ScheduleTarget)
    ensures
        forall|path: Seq<char>, index: int| #[trigger]
            convert_configuration::target_due(x, path, index) is None <==> is_sound_target(x),
{
    assert forall|path: Seq<char>, index: int| #[trigger] convert_configuration::target_due(x, path, index) is None <==> is_sound_target(x) by {
    }
}

proof fn target_list_fails_where_unsound(x: Seq<xml::ScheduleTarget>)
    ensures
        forall|path: Seq<char>|
            faults::first_failure(x.len(), #[trigger] convert_configuration::targets_due(x, path)) is None <==> all_sound_target(x),
{
    assert forall|path: Seq<char>|
        faults::first_failure(x.len(), #[trigger] convert_configuration::targets_due(x, path)) is None <==> all_sound_target(x) by {
        let due = convert_configuration::targets_due(x, path);
        faults::no_failure_means_none(x.len(), due);
        assert forall|i: int| 0 <= i < x.len() implies (#[trigger] due(i) is None <==> is_sound_target(
            x[i],
        )) by {
            target_fails_where_unsound(x[i]);
            assert(convert_configuration::target_due(x[i], path, i) is None <==> is_sound_target(x[i]));
        }
        if all_sound_target(x) {
            assert forall|i: int| 0 <= i < x.len() implies #[trigger] due(i) is None by {
                assert(is_sound_target(x[i]));
            }
        }
        if forall|i: int| 0 <= i < x.len() ==> #[trigger] due(i) is None {
            assert forall|i: int| 0 <= i < x.len() implies is_sound_target(#[trigger] x[i]) by {
                assert(due(i) is None);
            }
        }
    }
}

proof fn schedule_assignment_fails_where_unsound(x: xml::ScheduleAssignment)
    ensures
        forall|path: Seq<char>, index: int| #[trigger]
            convert_configuration::schedule_assignment_due(x, path, index) is None <==> is_sound_schedule_assignment(x),
{
    target_list_fails_where_unsound(x.target@);
    assert forall|path: Seq<char>, index: int| #[trigger] convert_configuration::schedule_assignment_due(x, path, index) is None <==> is_sound_schedule_assignment(x) by {
    }
}

proof fn schedule_assignment_list_fails_where_unsound(x: Seq<xml::ScheduleAssignment>)
    ensures
        forall|path: Seq<char>|
            faults::first_failure(x.len(), #[trigger] convert_configuration::schedule_assignments_due(x, path)) is None <==> all_sound_schedule_assignment(x),
{
    assert forall|path: Seq<char>|
        faults::first_failure(x.len(), #[trigger] convert_configuration::schedule_assignments_due(x, path)) is None <==> all_sound_schedule_assignment(x) by {
        let due = convert_configuration::schedule_assignments_due(x, path);
        faults::no_failure_means_none(x.len(), due);
        assert forall|i: int| 0 <= i < x.len() implies (#[trigger] due(i) is None <==> is_sound_schedule_assignment(
            x[i],
        )) by {
            schedule_assignment_fails_where_unsound(x[i]);
            assert(convert_configuration::schedule_assignment_due(x[i], path, i) is None <==> is_sound_schedule_assignment(x[i]));
        }
        if all_sound_schedule_assignment(x) {
            assert forall|i: int| 0 <= i < x.len() implies #[trigger] due(i) is None by {
                assert(is_sound_schedule_assignment(x[i]));
            }
        }
        if forall|i: int| 0 <= i < x.len() ==> #[trigger] due(i) is None {
            assert forall|i: int| 0 <= i < x.len() implies is_sound_schedule_assignment(#[trigger] x[i]) by {
                assert(due(i) is None);
            }
        }
    }
}

proof fn plca_node_fails_where_unsound(x: xml::PlcaNode)
    ensures
        forall|path: Seq<char>, index: int| #[trigger]
            convert_configuration::plca_node_due(x, path, index) is None <==> is_sound_plca_node(x),
{
    assert forall|path: Seq<char>, index: int| #[trigger] convert_configuration::plca_node_due(x, path, index) is None <==> is_sound_plca_node(x) by {
    }
}

proof fn plca_node_list_fails_where_unsound(x: Seq<xml::PlcaNode>)
    ensures
        forall|path: Seq<char>|
            faults::first_failure(x.len(), #[trigger] convert_configuration::plca_nodes_due(x, path)) is None <==> all_sound_plca_node(x),
{
    assert forall|path: Seq<char>|
        faults::first_failure(x.len(), #[trigger] convert_configuration::plca_nodes_due(x, path)) is None <==> all_sound_plca_node(x) by {
        let due = convert_configuration::plca_nodes_due(x, path);
        faults::no_failure_means_none(x.len(), due);
        assert forall|i: int| 0 <= i < x.len() implies (#[trigger] due(i) is None <==> is_sound_plca_node(
            x[i],
        )) by {
            plca_node_fails_where_unsound(x[i]);
            assert(convert_configuration::plca_node_due(x[i], path, i) is None <==> is_sound_plca_node(x[i]));
        }
        if all_sound_plca_node(x) {
            assert forall|i: int| 0 <= i < x.len() implies #[trigger] due(i) is None by {
                assert(is_sound_plca_node(x[i]));
            }
        }
        if forall|i: int| 0 <= i < x.len() ==> #[trigger] due(i) is None {
            assert forall|i: int| 0 <= i < x.len() implies is_sound_plca_node(#[trigger] x[i]) by {
                assert(due(i) is None);
            }
        }
    }
}

proof fn macsec_policy_fails_where_unsound(x: xml::MacsecPolicyDefinition)
    ensures
        forall|path: Seq<char>, index: int| #[trigger]
            convert_configuration::macsec_policy_due(x, path, index) is None <==> is_sound_macsec_policy(x),
{
    assert forall|path: Seq<char>, index: int| #[trigger] convert_configuration::macsec_policy_due(x, path, index) is None <==> is_sound_macsec_policy(x) by {
    }
}

proof fn macsec_policy_list_fails_where_unsound(x: Seq<xml::MacsecPolicyDefinition>)
    ensures
        forall|path: Seq<char>|
            faults::first_failure(x.len(), #[trigger] convert_configuration::macsec_policies_due(x, path)) is None <==> all_sound_macsec_policy(x),
{
    assert forall|path: Seq<char>|
        faults::first_failure(x.len(), #[trigger] convert_configuration::macsec_policies_due(x, path)) is None <==> all_sound_macsec_policy(x) by {
        let due = convert_configuration::macsec_policies_due(x, path);
        faults::no_failure_means_none(x.len(), due);
        assert forall|i: int| 0 <= i < x.len() implies (#[trigger] due(i) is None <==> is_sound_macsec_policy(
            x[i],
        )) by {
            macsec_policy_fails_where_unsound(x[i]);
            assert(convert_configuration::macsec_policy_due(x[i], path, i) is None <==> is_sound_macsec_policy(x[i]));
        }
        if all_sound_macsec_policy(x) {
            assert forall|i: int| 0 <= i < x.len() implies #[trigger] due(i) is None by {
                assert(is_sound_macsec_policy(x[i]));
            }
        }
        if forall|i: int| 0 <= i < x.len() ==> #[trigger] due(i) is None {
            assert forall|i: int| 0 <= i < x.len() implies is_sound_macsec_policy(#[trigger] x[i]) by {
                assert(due(i) is None);
            }
        }
    }
}

proof fn topology_segment_fails_where_unsound(x: xml::TopologySegmentRef)
    ensures
        forall|path: Seq<char>| #[trigger]
            convert_configuration::segment_due(x, path) is None <==> is_sound_topology_segment(x),
{
    assert forall|path: Seq<char>| #[trigger] convert_configuration::segment_due(x, path) is None <==> is_sound_topology_segment(x) by {
    }
}

proof fn macsec_override_fails_where_unsound(x: xml::MacsecOverride)
    ensures
        forall|path: Seq<char>, index: int| #[trigger]
            convert_configuration::macsec_override_due(x, path, index) is None <==> is_sound_macsec_override(x),
{
    topology_segment_fails_where_unsound(x.target);
    assert forall|path: Seq<char>, index: int| #[trigger] convert_configuration::macsec_override_due(x, path, index) is None <==> is_sound_macsec_override(x) by {
    }
}

proof fn macsec_override_list_fails_where_unsound(x: Seq<xml::MacsecOverride>)
    ensures
        forall|path: Seq<char>|
            faults::first_failure(x.len(), #[trigger] convert_configuration::macsec_overrides_due(x, path)) is None <==> all_sound_macsec_override(x),
{
    assert forall|path: Seq<char>|
        faults::first_failure(x.len(), #[trigger] convert_configuration::macsec_overrides_due(x, path)) is None <==> all_sound_macsec_override(x) by {
        let due = convert_configuration::macsec_overrides_due(x, path);
        faults::no_failure_means_none(x.len(), due);
        assert forall|i: int| 0 <= i < x.len() implies (#[trigger] due(i) is None <==> is_sound_macsec_override(
            x[i],
        )) by {
            macsec_override_fails_where_unsound(x[i]);
            assert(convert_configuration::macsec_override_due(x[i], path, i) is None <==> is_sound_macsec_override(x[i]));
        }
        if all_sound_macsec_override(x) {
            assert forall|i: int| 0 <= i < x.len() implies #[trigger] due(i) is None by {
                assert(is_sound_macsec_override(x[i]));
            }
        }
        if forall|i: int| 0 <= i < x.len() ==> #[trigger] due(i) is None {
            assert forall|i: int| 0 <= i < x.len() implies is_sound_macsec_override(#[trigger] x[i]) by {
                assert(due(i) is None);
            }
        }
    }
}

proof fn eee_override_fails_where_unsound(x: xml::EeeOverride)
    ensures
        forall|path: Seq<char>, index: int| #[trigger]
            convert_configuration::eee_override_due(x, path, index) is None <==> is_sound_eee_override(x),
{
    assert forall|path: Seq<char>, index: int| #[trigger] convert_configuration::eee_override_due(x, path, index) is None <==> is_sound_eee_override(x) by {
    }
}

proof fn eee_override_list_fails_where_unsound(x: Seq<xml::EeeOverride>)
    ensures
        forall|path: Seq<char>|
            faults::first_failure(x.len(), #[trigger] convert_configuration::eee_overrides_due(x, path)) is None <==> all_sound_eee_override(x),
{
    assert forall|path: Seq<char>|
        faults::first_failure(x.len(), #[trigger] convert_configuration::eee_overrides_due(x, path)) is None <==> all_sound_eee_override(x) by {
        let due = convert_configuration::eee_overrides_due(x, path);
        faults::no_failure_means_none(x.len(), due);
        assert forall|i: int| 0 <= i < x.len() implies (#[trigger] due(i) is None <==> is_sound_eee_override(
            x[i],
        )) by {
            eee_override_fails_where_unsound(x[i]);
            assert(convert_configuration::eee_override_due(x[i], path, i) is None <==> is_sound_eee_override(x[i]));
        }
        if all_sound_eee_override(x) {
            assert forall|i: int| 0 <= i < x.len() implies #[trigger] due(i) is None by {
                assert(is_sound_eee_override(x[i]));
            }
        }
        if forall|i: int| 0 <= i < x.len() ==> #[trigger] due(i) is None {
            assert forall|i: int| 0 <= i < x.len() implies is_sound_eee_override(#[trigger] x[i]) by {
                assert(due(i) is None);
            }
        }
    }
}

proof fn configuration_fails_where_unsound(x: Option<xml::NetworkConfiguration>)
    ensures
        forall|path: Seq<char>| #[trigger]
            convert_configuration::network_configuration_due(x, path) is None <==> (x matches Some(c)
                ==> is_sound_configuration(c)),
{
    if let Some(c) = x {
        gptp_domain_list_fails_where_unsound(c.gptp_domain@);
        traffic_class_list_fails_where_unsound(c.traffic_class@);
        gate_schedule_list_fails_where_unsound(c.gate_schedule@);
        schedule_assignment_list_fails_where_unsound(c.schedule_assignment@);
        if let Some(plca) = c.plca {
            plca_node_list_fails_where_unsound(plca.node@);
        }
        if let Some(macsec) = c.macsec {
            macsec_policy_list_fails_where_unsound(macsec.policy@);
            macsec_override_list_fails_where_unsound(macsec.override_@);
        }
        if let Some(eee) = c.eee {
            eee_override_list_fails_where_unsound(eee.override_@);
        }
    }
}

proof fn network_fails_where_unsound(parts: NetworkParts)
    ensures
        forall|tag: Seq<char>| #[trigger]
            convert_network::convert_network_due(parts, tag) is None <==> is_sound_network(parts),
{
    participant_list_fails_where_unsound(parts.participant@);
    configuration_fails_where_unsound(*parts.configuration);
    if let Some(selected) = *parts.selected {
        selection_fails_where_unsound(selected);
    }
}

proof fn link_fails_where_unsound(x: xml::Link)
    ensures
        forall|index: int| #[trigger]
            convert_document::link_due(x, index) is None <==> is_sound_link(x),
{
    network_fails_where_unsound(convert_document::link_parts(&x));
    assert forall|index: int| #[trigger] convert_document::link_due(x, index) is None <==> is_sound_link(x) by {
    }
}

proof fn link_list_fails_where_unsound(x: Seq<xml::Link>)
    ensures
        faults::first_failure(x.len(), convert_document::link_networks_due(x)) is None <==> all_sound_link(x),
{
    let due = convert_document::link_networks_due(x);
    faults::no_failure_means_none(x.len(), due);
    assert forall|i: int| 0 <= i < x.len() implies (#[trigger] due(i) is None <==> is_sound_link(
        x[i],
    )) by {
        link_fails_where_unsound(x[i]);
        assert(convert_document::link_due(x[i], i) is None <==> is_sound_link(x[i]));
    }
    if all_sound_link(x) {
        assert forall|i: int| 0 <= i < x.len() implies #[trigger] due(i) is None by {
            assert(is_sound_link(x[i]));
        }
    }
    if forall|i: int| 0 <= i < x.len() ==> #[trigger] due(i) is None {
        assert forall|i: int| 0 <= i < x.len() implies is_sound_link(#[trigger] x[i]) by {
            assert(due(i) is None);
        }
    }
}

proof fn bus_fails_where_unsound(x: xml::Bus)
    ensures
        forall|index: int| #[trigger]
            convert_document::bus_due(x, index) is None <==> is_sound_bus(x),
{
    network_fails_where_unsound(convert_document::bus_parts(&x));
    assert forall|index: int| #[trigger] convert_document::bus_due(x, index) is None <==> is_sound_bus(x) by {
    }
}

proof fn bus_list_fails_where_unsound(x: Seq<xml::Bus>)
    ensures
        faults::first_failure(x.len(), convert_document::bus_networks_due(x)) is None <==> all_sound_bus(x),
{
    let due = convert_document::bus_networks_due(x);
    faults::no_failure_means_none(x.len(), due);
    assert forall|i: int| 0 <= i < x.len() implies (#[trigger] due(i) is None <==> is_sound_bus(
        x[i],
    )) by {
        bus_fails_where_unsound(x[i]);
        assert(convert_document::bus_due(x[i], i) is None <==> is_sound_bus(x[i]));
    }
    if all_sound_bus(x) {
        assert forall|i: int| 0 <= i < x.len() implies #[trigger] due(i) is None by {
            assert(is_sound_bus(x[i]));
        }
    }
    if forall|i: int| 0 <= i < x.len() ==> #[trigger] due(i) is None {
        assert forall|i: int| 0 <= i < x.len() implies is_sound_bus(#[trigger] x[i]) by {
            assert(due(i) is None);
        }
    }
}

proof fn chain_fails_where_unsound(x: xml::Chain)
    ensures
        forall|index: int| #[trigger]
            convert_document::chain_due(x, index) is None <==> is_sound_chain(x),
{
    network_fails_where_unsound(convert_document::chain_parts(&x));
    hop_list_fails_where_unsound(x.hop@);
    leg_list_fails_where_unsound(x.leg@);
    assert forall|index: int| #[trigger] convert_document::chain_due(x, index) is None <==> is_sound_chain(x) by {
    }
}

proof fn chain_list_fails_where_unsound(x: Seq<xml::Chain>)
    ensures
        faults::first_failure(x.len(), convert_document::chain_networks_due(x)) is None <==> all_sound_chain(x),
{
    let due = convert_document::chain_networks_due(x);
    faults::no_failure_means_none(x.len(), due);
    assert forall|i: int| 0 <= i < x.len() implies (#[trigger] due(i) is None <==> is_sound_chain(
        x[i],
    )) by {
        chain_fails_where_unsound(x[i]);
        assert(convert_document::chain_due(x[i], i) is None <==> is_sound_chain(x[i]));
    }
    if all_sound_chain(x) {
        assert forall|i: int| 0 <= i < x.len() implies #[trigger] due(i) is None by {
            assert(is_sound_chain(x[i]));
        }
    }
    if forall|i: int| 0 <= i < x.len() ==> #[trigger] due(i) is None {
        assert forall|i: int| 0 <= i < x.len() implies is_sound_chain(#[trigger] x[i]) by {
            assert(due(i) is None);
        }
    }
}

proof fn star_fails_where_unsound(x: xml::Star)
    ensures
        forall|index: int| #[trigger]
            convert_document::star_due(x, index) is None <==> is_sound_star(x),
{
    network_fails_where_unsound(convert_document::star_parts(&x));
    assert forall|index: int| #[trigger] convert_document::star_due(x, index) is None <==> is_sound_star(x) by {
    }
}

proof fn star_list_fails_where_unsound(x: Seq<xml::Star>)
    ensures
        faults::first_failure(x.len(), convert_document::star_networks_due(x)) is None <==> all_sound_star(x),
{
    let due = convert_document::star_networks_due(x);
    faults::no_failure_means_none(x.len(), due);
    assert forall|i: int| 0 <= i < x.len() implies (#[trigger] due(i) is None <==> is_sound_star(
        x[i],
    )) by {
        star_fails_where_unsound(x[i]);
        assert(convert_document::star_due(x[i], i) is None <==> is_sound_star(x[i]));
    }
    if all_sound_star(x) {
        assert forall|i: int| 0 <= i < x.len() implies #[trigger] due(i) is None by {
            assert(is_sound_star(x[i]));
        }
    }
    if forall|i: int| 0 <= i < x.len() ==> #[trigger] due(i) is None {
        assert forall|i: int| 0 <= i < x.len() implies is_sound_star(#[trigger] x[i]) by {
            assert(due(i) is None);
        }
    }
}

proof fn ring_fails_where_unsound(x: xml::Ring)
    ensures
        forall|index: int| #[trigger]
            convert_document::ring_due(x, index) is None <==> is_sound_ring(x),
{
    network_fails_where_unsound(convert_document::ring_parts(&x));
    hop_list_fails_where_unsound(x.hop@);
    leg_list_fails_where_unsound(x.leg@);
    assert forall|index: int| #[trigger] convert_document::ring_due(x, index) is None <==> is_sound_ring(x) by {
    }
}

proof fn ring_list_fails_where_unsound(x: Seq<xml::Ring>)
    ensures
        faults::first_failure(x.len(), convert_document::ring_networks_due(x)) is None <==> all_sound_ring(x),
{
    let due = convert_document::ring_networks_due(x);
    faults::no_failure_means_none(x.len(), due);
    assert forall|i: int| 0 <= i < x.len() implies (#[trigger] due(i) is None <==> is_sound_ring(
        x[i],
    )) by {
        ring_fails_where_unsound(x[i]);
        assert(convert_document::ring_due(x[i], i) is None <==> is_sound_ring(x[i]));
    }
    if all_sound_ring(x) {
        assert forall|i: int| 0 <= i < x.len() implies #[trigger] due(i) is None by {
            assert(is_sound_ring(x[i]));
        }
    }
    if forall|i: int| 0 <= i < x.len() ==> #[trigger] due(i) is None {
        assert forall|i: int| 0 <= i < x.len() implies is_sound_ring(#[trigger] x[i]) by {
            assert(due(i) is None);
        }
    }
}

proof fn mesh_fails_where_unsound(x: xml::Mesh)
    ensures
        forall|index: int| #[trigger]
            convert_document::mesh_due(x, index) is None <==> is_sound_mesh(x),
{
    network_fails_where_unsound(convert_document::mesh_parts(&x));
    assert forall|index: int| #[trigger] convert_document::mesh_due(x, index) is None <==> is_sound_mesh(x) by {
    }
}

proof fn mesh_list_fails_where_unsound(x: Seq<xml::Mesh>)
    ensures
        faults::first_failure(x.len(), convert_document::mesh_networks_due(x)) is None <==> all_sound_mesh(x),
{
    let due = convert_document::mesh_networks_due(x);
    faults::no_failure_means_none(x.len(), due);
    assert forall|i: int| 0 <= i < x.len() implies (#[trigger] due(i) is None <==> is_sound_mesh(
        x[i],
    )) by {
        mesh_fails_where_unsound(x[i]);
        assert(convert_document::mesh_due(x[i], i) is None <==> is_sound_mesh(x[i]));
    }
    if all_sound_mesh(x) {
        assert forall|i: int| 0 <= i < x.len() implies #[trigger] due(i) is None by {
            assert(is_sound_mesh(x[i]));
        }
    }
    if forall|i: int| 0 <= i < x.len() ==> #[trigger] due(i) is None {
        assert forall|i: int| 0 <= i < x.len() implies is_sound_mesh(#[trigger] x[i]) by {
            assert(due(i) is None);
        }
    }
}

proof fn tree_fails_where_unsound(x: xml::Tree)
    ensures
        forall|index: int| #[trigger]
            convert_document::tree_due(x, index) is None <==> is_sound_tree(x),
{
    network_fails_where_unsound(convert_document::tree_parts(&x));
    hop_list_fails_where_unsound(x.hop@);
    leg_list_fails_where_unsound(x.leg@);
    assert forall|index: int| #[trigger] convert_document::tree_due(x, index) is None <==> is_sound_tree(x) by {
    }
}

proof fn tree_list_fails_where_unsound(x: Seq<xml::Tree>)
    ensures
        faults::first_failure(x.len(), convert_document::tree_networks_due(x)) is None <==> all_sound_tree(x),
{
    let due = convert_document::tree_networks_due(x);
    faults::no_failure_means_none(x.len(), due);
    assert forall|i: int| 0 <= i < x.len() implies (#[trigger] due(i) is None <==> is_sound_tree(
        x[i],
    )) by {
        tree_fails_where_unsound(x[i]);
        assert(convert_document::tree_due(x[i], i) is None <==> is_sound_tree(x[i]));
    }
    if all_sound_tree(x) {
        assert forall|i: int| 0 <= i < x.len() implies #[trigger] due(i) is None by {
            assert(is_sound_tree(x[i]));
        }
    }
    if forall|i: int| 0 <= i < x.len() ==> #[trigger] due(i) is None {
        assert forall|i: int| 0 <= i < x.len() implies is_sound_tree(#[trigger] x[i]) by {
            assert(due(i) is None);
        }
    }
}

proof fn binding_fails_where_unsound(x: xml::Binding)
    ensures
        forall|index: int| #[trigger]
            convert_document::binding_due(x, index) is None <==> is_sound_binding(x),
{
    functional_endpoint_fails_where_unsound(x.functional);
    physical_endpoint_fails_where_unsound(x.physical);
    assert forall|index: int| #[trigger] convert_document::binding_due(x, index) is None <==> is_sound_binding(x) by {
    }
}

proof fn binding_list_fails_where_unsound(x: Seq<xml::Binding>)
    ensures
        faults::first_failure(x.len(), convert_document::bindings_due(x)) is None <==> all_sound_binding(x),
{
    let due = convert_document::bindings_due(x);
    faults::no_failure_means_none(x.len(), due);
    assert forall|i: int| 0 <= i < x.len() implies (#[trigger] due(i) is None <==> is_sound_binding(
        x[i],
    )) by {
        binding_fails_where_unsound(x[i]);
        assert(convert_document::binding_due(x[i], i) is None <==> is_sound_binding(x[i]));
    }
    if all_sound_binding(x) {
        assert forall|i: int| 0 <= i < x.len() implies #[trigger] due(i) is None by {
            assert(is_sound_binding(x[i]));
        }
    }
    if forall|i: int| 0 <= i < x.len() ==> #[trigger] due(i) is None {
        assert forall|i: int| 0 <= i < x.len() implies is_sound_binding(#[trigger] x[i]) by {
            assert(due(i) is None);
        }
    }
}

proof fn position_mapping_fails_where_unsound(x: xml::PositionMapping)
    ensures
        forall|path: Seq<char>, index: int| #[trigger]
            convert_document::position_mapping_due(x, path, index) is None <==> is_sound_position_mapping(x),
{
    position_ref_fails_where_unsound(x.first);
    position_ref_fails_where_unsound(x.second);
    assert forall|path: Seq<char>, index: int| #[trigger] convert_document::position_mapping_due(x, path, index) is None <==> is_sound_position_mapping(x) by {
    }
}

proof fn position_mapping_list_fails_where_unsound(x: Seq<xml::PositionMapping>)
    ensures
        forall|path: Seq<char>|
            faults::first_failure(x.len(), #[trigger] convert_document::position_mappings_due(x, path)) is None <==> all_sound_position_mapping(x),
{
    assert forall|path: Seq<char>|
        faults::first_failure(x.len(), #[trigger] convert_document::position_mappings_due(x, path)) is None <==> all_sound_position_mapping(x) by {
        let due = convert_document::position_mappings_due(x, path);
        faults::no_failure_means_none(x.len(), due);
        assert forall|i: int| 0 <= i < x.len() implies (#[trigger] due(i) is None <==> is_sound_position_mapping(
            x[i],
        )) by {
            position_mapping_fails_where_unsound(x[i]);
            assert(convert_document::position_mapping_due(x[i], path, i) is None <==> is_sound_position_mapping(x[i]));
        }
        if all_sound_position_mapping(x) {
            assert forall|i: int| 0 <= i < x.len() implies #[trigger] due(i) is None by {
                assert(is_sound_position_mapping(x[i]));
            }
        }
        if forall|i: int| 0 <= i < x.len() ==> #[trigger] due(i) is None {
            assert forall|i: int| 0 <= i < x.len() implies is_sound_position_mapping(#[trigger] x[i]) by {
                assert(due(i) is None);
            }
        }
    }
}

proof fn mate_fails_where_unsound(x: xml::Mate)
    ensures
        forall|index: int| #[trigger]
            convert_document::mate_due(x, index) is None <==> is_sound_mate(x),
{
    position_mapping_list_fails_where_unsound(x.position_mapping@);
    connector_ref_fails_where_unsound(x.first);
    connector_ref_fails_where_unsound(x.second);
    assert forall|index: int| #[trigger] convert_document::mate_due(x, index) is None <==> is_sound_mate(x) by {
    }
}

proof fn mate_list_fails_where_unsound(x: Seq<xml::Mate>)
    ensures
        faults::first_failure(x.len(), convert_document::mates_due(x)) is None <==> all_sound_mate(x),
{
    let due = convert_document::mates_due(x);
    faults::no_failure_means_none(x.len(), due);
    assert forall|i: int| 0 <= i < x.len() implies (#[trigger] due(i) is None <==> is_sound_mate(
        x[i],
    )) by {
        mate_fails_where_unsound(x[i]);
        assert(convert_document::mate_due(x[i], i) is None <==> is_sound_mate(x[i]));
    }
    if all_sound_mate(x) {
        assert forall|i: int| 0 <= i < x.len() implies #[trigger] due(i) is None by {
            assert(is_sound_mate(x[i]));
        }
    }
    if forall|i: int| 0 <= i < x.len() ==> #[trigger] due(i) is None {
        assert forall|i: int| 0 <= i < x.len() implies is_sound_mate(#[trigger] x[i]) by {
            assert(due(i) is None);
        }
    }
}

proof fn document_fails_where_unsound(x: Hcdf)
    ensures
        convert_document::document_due(x) is None <==> is_sound_document(x),
{
    reveal(convert_document::document_due);
    reveal(convert_document::document_assemblies_due);
    reveal(convert_document::document_networks_due);
    component_list_fails_where_unsound(x.comp@);
    assembly_list_fails_where_unsound(x.harness@);
    assembly_list_fails_where_unsound(x.cable@);
    assembly_list_fails_where_unsound(x.plumbing@);
    assembly_list_fails_where_unsound(x.umbilical@);
    binding_list_fails_where_unsound(x.binding@);
    mate_list_fails_where_unsound(x.mate@);
    link_list_fails_where_unsound(x.link@);
    bus_list_fails_where_unsound(x.bus@);
    chain_list_fails_where_unsound(x.chain@);
    star_list_fails_where_unsound(x.star@);
    ring_list_fails_where_unsound(x.ring@);
    mesh_list_fails_where_unsound(x.mesh@);
    tree_list_fails_where_unsound(x.tree@);
}

/// A document converts only where it has no unresolved inclusion and each of its elements is sound.
pub proof fn only_sound_documents_convert(
    source: Hcdf,
    document: canonical::DocumentIdentity,
    r: Converted<canonical::ConnectivityDocument>,
)
    requires
        convert_document::document_outcome(source, document, r),
    ensures
        r is Ok ==> source.includes@.len() == 0 && is_sound_document(source),
{
    document_fails_where_unsound(source);
}

/// A document without unresolved inclusions whose elements are sound fails to convert only where a
/// selector of it leads nowhere.
pub proof fn sound_documents_fail_by_selectors_alone(
    source: Hcdf,
    document: canonical::DocumentIdentity,
    r: Converted<canonical::ConnectivityDocument>,
)
    requires
        convert_document::document_outcome(source, document, r),
        source.includes@.len() == 0,
        is_sound_document(source),
        r is Err,
    ensures
        exists|scope: canonical::ConnectivityScope, root: canonical::IncludeInstanceId| #[trigger]
            convert_document::scope_carries(source, root, scope) && selectors::selectors_due(
                source,
                scope,
            ) == Some(r->Err_0@),
{
    document_fails_where_unsound(source);
    let root = choose|root: canonical::IncludeInstanceId|
        root@.len() == 0 && #[trigger] convert_document::scope_fails(source, root, r->Err_0@);
    let scope = choose|scope: canonical::ConnectivityScope| #[trigger]
        convert_document::scope_carries(source, root, scope) && selectors::selectors_due(source, scope)
            == Some(r->Err_0@);
    assert(convert_document::scope_carries(source, root, scope));
}

} // verus!
