//! What the elements of a canonical document say.
use vstd::prelude::*;
use super::connectivity as canonical;
use super::content::{Content, identifier, identifiers, optional_i8, optional_id, optional_preemption, optional_text, optional_u64, optional_u8, segment_name, text, text_of};

verus! {

/// What one step of an inclusion path says.
pub open spec fn canonical_segment(m: canonical::IncludeInstanceSegment) -> Content {
    Content::List(
        seq![
            segment_name(m.name),
            Content::Number(m.occurrence as int),
        ],
    )
}

/// What the scope of a reference says.
pub open spec fn canonical_instance(m: canonical::ReferenceScope) -> Content {
    match m {
        canonical::ReferenceScope::Local => Content::Missing,
        canonical::ReferenceScope::Instance(id) => Content::List(
            id@.map_values(|e: canonical::IncludeInstanceSegment| canonical_segment(e)),
        ),
    }
}

/// What a reference to a component says.
pub open spec fn canonical_component_ref(m: canonical::ComponentRef) -> Content {
    Content::List(
        seq![
            canonical_instance(m.scope),
            text(m.component),
        ],
    )
}

/// What a reference to a function says.
pub open spec fn canonical_function_ref(m: canonical::ConnectivityFunctionRef) -> Content {
    Content::List(
        seq![
            canonical_instance(m.component.scope),
            text(m.component.component),
            text(m.function),
        ],
    )
}

/// What a reference to a network says.
pub open spec fn canonical_network_ref(m: canonical::NetworkRef) -> Content {
    Content::List(
        seq![
            canonical_instance(m.scope),
            text(m.network),
        ],
    )
}

/// What a reference to a participant says.
pub open spec fn canonical_participant_ref(m: canonical::ParticipantRef) -> Content {
    Content::List(
        seq![
            canonical_instance(m.network.scope),
            text(m.network.network),
            text(m.participant),
        ],
    )
}

/// What a reference to a leg says.
pub open spec fn canonical_leg_ref(m: canonical::LegRef) -> Content {
    Content::List(
        seq![
            canonical_instance(m.network.scope),
            text(m.network.network),
            text(m.leg),
        ],
    )
}

/// What a reference to a schedule says.
pub open spec fn canonical_schedule_ref(m: canonical::ScheduleRef) -> Content {
    Content::List(
        seq![
            canonical_instance(m.network.scope),
            text(m.network.network),
            text(m.schedule),
        ],
    )
}

/// What a reference to a hop says.
pub open spec fn canonical_hop_ref(m: canonical::HopRef) -> Content {
    Content::List(
        seq![
            canonical_instance(m.network.scope),
            text(m.network.network),
            text(m.hop),
        ],
    )
}

/// What a reference to a MACsec policy says.
pub open spec fn canonical_macsec_policy_ref(m: canonical::MacsecPolicyRef) -> Content {
    Content::List(
        seq![
            canonical_instance(m.network.scope),
            text(m.network.network),
            text(m.policy),
        ],
    )
}

/// What a reference to a port says.
pub open spec fn canonical_port_ref(m: canonical::PortRef) -> Content {
    Content::List(
        seq![
            canonical_instance(m.scope),
            text(m.component),
            text(m.port),
        ],
    )
}

/// What a reference to a channel says.
pub open spec fn canonical_channel_ref(m: canonical::ChannelRef) -> Content {
    Content::List(
        seq![
            canonical_instance(m.scope),
            text(m.component),
            text(m.port),
            text(m.channel),
        ],
    )
}

/// What a functional endpoint says.
pub open spec fn canonical_functional_endpoint(m: canonical::FunctionalEndpointRef) -> Content {
    match m {
        canonical::FunctionalEndpointRef::Port(b) => Content::List(seq![text_of("port"@), canonical_port_ref(b)]),
        canonical::FunctionalEndpointRef::Channel(b) => Content::List(seq![text_of("channel"@), canonical_channel_ref(b)]),
    }
}

/// What a reference to an assembly says.
pub open spec fn canonical_assembly_ref(m: canonical::AssemblyRef) -> Content {
    Content::List(
        seq![
            canonical_instance(m.scope),
            text(m.assembly),
        ],
    )
}

/// What the owner of a physical element says.
pub open spec fn canonical_owner(m: canonical::OwnerRef) -> Content {
    match m {
        canonical::OwnerRef::Component(b) => Content::List(seq![text_of("component"@), canonical_component_ref(b)]),
        canonical::OwnerRef::Assembly(b) => Content::List(seq![text_of("assembly"@), canonical_assembly_ref(b)]),
    }
}

/// What a reference to a connector says.
pub open spec fn canonical_connector_ref(m: canonical::ConnectorRef) -> Content {
    Content::List(
        seq![
            canonical_owner(m.owner),
            text(m.connector),
        ],
    )
}

/// What a reference to a position says.
pub open spec fn canonical_position_ref(m: canonical::PositionRef) -> Content {
    Content::List(
        seq![
            canonical_owner(m.owner),
            text(m.connector),
            text(m.position),
        ],
    )
}

/// What a reference to a junction says.
pub open spec fn canonical_junction_ref(m: canonical::JunctionRef) -> Content {
    Content::List(
        seq![
            canonical_owner(m.owner),
            text(m.junction),
        ],
    )
}

/// What a physical endpoint says.
pub open spec fn canonical_physical_endpoint(m: canonical::PhysicalEndpointRef) -> Content {
    match m {
        canonical::PhysicalEndpointRef::Connector(b) => Content::List(seq![text_of("connector"@), canonical_connector_ref(b)]),
        canonical::PhysicalEndpointRef::Position(b) => Content::List(seq![text_of("position"@), canonical_position_ref(b)]),
        canonical::PhysicalEndpointRef::Junction(b) => Content::List(seq![text_of("junction"@), canonical_junction_ref(b)]),
    }
}

/// What the frame of a route says.
pub open spec fn canonical_route_frame(m: canonical::RouteFrameRef) -> Content {
    match m {
        canonical::RouteFrameRef::World => Content::List(seq![text_of("world"@)]),
        canonical::RouteFrameRef::ComponentOrigin { component } => Content::List(seq![text_of("component-origin"@), canonical_instance(component.scope), text(component.component)]),
        canonical::RouteFrameRef::ComponentFrame { component, frame } => Content::List(seq![text_of("component-frame"@), canonical_instance(component.scope), text(component.component), text(frame)]),
    }
}

/// What a rotation says.
pub open spec fn canonical_rotation(m: canonical::PlacementRotation) -> Content {
    match m {
        canonical::PlacementRotation::Rpy(b) => Content::List(seq![text_of("rpy"@), Content::Reals(b@)]),
        canonical::PlacementRotation::Quaternion(b) => Content::List(seq![text_of("quaternion"@), Content::Reals(b@)]),
    }
}

/// What a placement says.
pub open spec fn canonical_placement(m: canonical::Placement) -> Content {
    Content::List(
        seq![
            canonical_route_frame(m.frame),
            Content::Reals(m.xyz@),
            canonical_rotation(m.rotation),
        ],
    )
}

/// What an optional part says.
pub open spec fn canonical_maybe_rotation(m: Option<canonical::PlacementRotation>) -> Content {
    match m {
        Some(part) => canonical_rotation(part),
        None => Content::Missing,
    }
}

/// What a point of a route says.
pub open spec fn canonical_waypoint(m: canonical::RoutePoint) -> Content {
    Content::List(
        seq![
            canonical_route_frame(m.frame),
            Content::Reals(m.xyz@),
            canonical_maybe_rotation(m.rotation),
        ],
    )
}

/// What the section of a route says.
pub open spec fn canonical_route_section(m: Option<canonical::RouteSection>) -> Content {
    match m {
        None => Content::Missing,
        Some(canonical::RouteSection::Round { diameter }) => Content::List(
            seq![text_of("round"@), Content::Real(diameter)],
        ),
        Some(canonical::RouteSection::Rectangular { width, height }) => Content::List(
            seq![text_of("rectangular"@), Content::Real(width), Content::Real(height)],
        ),
    }
}

/// What a derived route says.
pub open spec fn canonical_derived_route(m: canonical::DerivedRouteRepresentation) -> Content {
    Content::List(
        seq![
            Content::List(m.waypoints@.map_values(|e: canonical::RoutePoint| canonical_waypoint(e))),
            canonical_route_section(m.section),
        ],
    )
}

/// What the root of a model part says.
pub open spec fn canonical_model_root(m: canonical::ModelRootRef) -> Content {
    match m {
        canonical::ModelRootRef::ComponentVisual { component, visual } => Content::List(seq![text_of("component-visual"@), canonical_instance(component.scope), text(component.component), text(visual)]),
        canonical::ModelRootRef::AssemblyModel { assembly } => Content::List(seq![text_of("assembly-model"@), canonical_instance(assembly.scope), text(assembly.assembly)]),
    }
}

/// What a representation says.
pub open spec fn canonical_representation(m: canonical::Representation) -> Content {
    match m {
        canonical::Representation::Primitive { primitive: canonical::PrimitiveRepresentation::Box { size }, placement } => Content::List(seq![text_of("box"@), Content::Reals(size@), canonical_placement(placement)]),
        canonical::Representation::Primitive { primitive: canonical::PrimitiveRepresentation::Cylinder { radius, length }, placement } => Content::List(seq![text_of("cylinder"@), Content::Real(radius), Content::Real(length), canonical_placement(placement)]),
        canonical::Representation::Primitive { primitive: canonical::PrimitiveRepresentation::Sphere { radius }, placement } => Content::List(seq![text_of("sphere"@), Content::Real(radius), canonical_placement(placement)]),
        canonical::Representation::Model { model, placement } => Content::List(seq![text_of("model"@), text(model.uri), optional_text(model.sha), optional_text(model.node_path), canonical_placement(placement)]),
        canonical::Representation::ModelPart(b) => Content::List(seq![text_of("model-part"@), canonical_model_root(b.model_root), text(b.node_path), optional_text(b.submesh_fallback)]),
        canonical::Representation::DerivedRoute(b) => Content::List(seq![text_of("derived-route"@), canonical_derived_route(b)]),
    }
}

/// What a quantity says.
pub open spec fn canonical_quantity(m: canonical::Quantity) -> Content {
    Content::List(seq![Content::Real(m.value), text(m.unit)])
}

/// What an optional quantity says.
pub open spec fn canonical_optional_quantity(m: Option<canonical::Quantity>) -> Content {
    match m {
        Some(quantity) => canonical_quantity(quantity),
        None => Content::Missing,
    }
}

/// What a range of quantities says.
pub open spec fn canonical_quantity_range(m: Option<canonical::QuantityRange>) -> Content {
    match m {
        None => Content::Missing,
        Some(range) => Content::List(
            seq![
                canonical_optional_quantity(range.minimum),
                canonical_optional_quantity(range.maximum),
                canonical_optional_quantity(range.nominal),
            ],
        ),
    }
}

/// What a selected quantity says.
pub open spec fn canonical_selection_quantity(m: canonical::SelectionQuantity) -> Content {
    match m {
        canonical::SelectionQuantity::Nominal(q) => Content::List(
            seq![text_of("nominal"@), canonical_quantity(q)],
        ),
        canonical::SelectionQuantity::Range(r) => Content::List(
            seq![
                text_of("range"@),
                canonical_quantity(r.minimum),
                canonical_quantity(r.maximum),
                canonical_optional_quantity(r.nominal),
            ],
        ),
    }
}

/// What an optional selected quantity says.
pub open spec fn canonical_optional_selection(m: Option<canonical::SelectionQuantity>) -> Content {
    match m {
        Some(selection) => canonical_selection_quantity(selection),
        None => Content::Missing,
    }
}

/// What a selected radio channel says.
pub open spec fn canonical_rf_selection(m: Option<canonical::RfSelection>) -> Content {
    match m {
        None => Content::Missing,
        Some(rf) => match rf.channel {
            canonical::RfChannelSelection::Numbered { number, center_frequency, bandwidth } => {
                Content::List(
                    seq![
                        text_of("numbered"@),
                        Content::Number(number as int),
                        canonical_optional_selection(center_frequency),
                        canonical_optional_selection(bandwidth),
                    ],
                )
            },
            canonical::RfChannelSelection::FrequencyDefined { center_frequency, bandwidth } => {
                Content::List(
                    seq![
                        text_of("frequency-defined"@),
                        canonical_selection_quantity(center_frequency),
                        canonical_optional_selection(bandwidth),
                    ],
                )
            },
        },
    }
}

/// The purposes in a list.
pub open spec fn canonical_purposes_set(m: Seq<canonical::Purpose>) -> Set<canonical::Purpose> {
    Set::new(|p: canonical::Purpose| m.contains(p))
}

/// What a list of purposes says.
pub open spec fn canonical_purposes(m: Seq<canonical::Purpose>) -> Content {
    Content::Purposes(canonical_purposes_set(m))
}

/// The carriers in a list.
pub open spec fn canonical_carriers_set(m: Seq<canonical::Carrier>) -> Set<canonical::Carrier> {
    Set::new(|p: canonical::Carrier| m.contains(p))
}

/// What a list of carriers says.
pub open spec fn canonical_carriers(m: Seq<canonical::Carrier>) -> Content {
    Content::Carriers(canonical_carriers_set(m))
}

/// What the capabilities of an element say.
pub open spec fn canonical_capabilities(m: canonical::Capabilities) -> Content {
    Content::List(
        seq![
            canonical_purposes(m.purposes@),
            canonical_carriers(m.carriers@),
            identifiers(m.profiles@),
            canonical_quantity_range(m.limits.rate),
            canonical_quantity_range(m.limits.voltage),
            canonical_quantity_range(m.limits.current),
            canonical_quantity_range(m.limits.power),
            canonical_quantity_range(m.limits.impedance),
            canonical_quantity_range(m.limits.frequency),
            canonical_quantity_range(m.limits.bandwidth),
            canonical_quantity_range(m.limits.pressure),
            canonical_quantity_range(m.limits.flow),
            canonical_quantity_range(m.limits.temperature),
        ],
    )
}

/// What the selection of a network says.
pub open spec fn canonical_selection(m: canonical::NetworkSelection) -> Content {
    Content::List(
        seq![
            Content::Purpose(m.purpose),
            Content::Carrier(m.carrier),
            identifiers(m.profiles@),
            canonical_optional_selection(m.rate),
            canonical_optional_selection(m.voltage),
            canonical_optional_selection(m.current),
            canonical_optional_selection(m.power),
            canonical_optional_selection(m.impedance),
            canonical_optional_selection(m.frequency),
            canonical_optional_selection(m.pressure),
            canonical_optional_selection(m.flow),
            canonical_optional_selection(m.temperature),
            canonical_rf_selection(m.rf),
        ],
    )
}

/// What a channel says.
pub open spec fn canonical_channel(m: canonical::Channel) -> Content {
    Content::List(
        seq![
            text(m.name),
            optional_id(m.role),
            optional_text(m.local_group),
            canonical_capabilities(m.capabilities),
        ],
    )
}

/// What a port says.
pub open spec fn canonical_port(m: canonical::Port) -> Content {
    Content::List(
        seq![
            text(m.name),
            canonical_capabilities(m.capabilities),
            Content::List(m.channels@.map_values(|e: canonical::Channel| canonical_channel(e))),
        ],
    )
}

/// What an optional part says.
pub open spec fn canonical_maybe_representation(m: Option<canonical::Representation>) -> Content {
    match m {
        Some(part) => canonical_representation(part),
        None => Content::Missing,
    }
}

/// What a position says.
pub open spec fn canonical_position(m: canonical::Position) -> Content {
    Content::List(
        seq![
            text(m.name),
            Content::PositionKind(m.kind),
            optional_id(m.role),
            optional_text(m.local_group),
            canonical_maybe_representation(m.representation),
        ],
    )
}

/// What a function says.
pub open spec fn canonical_function(m: canonical::ConnectivityFunction) -> Content {
    Content::List(
        seq![
            text(m.name),
            Content::FunctionKind(m.kind),
            Content::List(m.inputs@.map_values(|e: canonical::FunctionalEndpointRef| canonical_functional_endpoint(e))),
            Content::List(m.outputs@.map_values(|e: canonical::FunctionalEndpointRef| canonical_functional_endpoint(e))),
            Content::List(m.bidirectional@.map_values(|e: canonical::FunctionalEndpointRef| canonical_functional_endpoint(e))),
        ],
    )
}

/// What a path says.
pub open spec fn canonical_path(m: canonical::PhysicalPath) -> Content {
    Content::List(
        seq![
            text(m.name),
            Content::PathKind(m.kind),
            canonical_physical_endpoint(m.first),
            canonical_physical_endpoint(m.second),
            Content::Fidelity(m.fidelity),
            optional_id(m.role),
            optional_text(m.local_group),
            canonical_maybe_representation(m.representation),
        ],
    )
}

/// What a junction says.
pub open spec fn canonical_junction(m: canonical::Junction) -> Content {
    Content::List(
        seq![
            text(m.name),
            Content::JunctionKind(m.kind),
            Content::Fidelity(m.fidelity),
            Content::List(m.attachments@.map_values(|e: canonical::PhysicalEndpointRef| canonical_physical_endpoint(e))),
            canonical_maybe_representation(m.representation),
        ],
    )
}

/// What a list of positions says.
pub open spec fn canonical_positions(list: Seq<canonical::Position>) -> Seq<Content> {
    list.map_values(|e: canonical::Position| canonical_position(e))
}

/// What a list of functions says.
pub open spec fn canonical_functions(list: Seq<canonical::ConnectivityFunction>) -> Seq<Content> {
    list.map_values(|e: canonical::ConnectivityFunction| canonical_function(e))
}

/// What a list of paths says.
pub open spec fn canonical_paths(list: Seq<canonical::PhysicalPath>) -> Seq<Content> {
    list.map_values(|e: canonical::PhysicalPath| canonical_path(e))
}

/// What a list of junctions says.
pub open spec fn canonical_junctions(list: Seq<canonical::Junction>) -> Seq<Content> {
    list.map_values(|e: canonical::Junction| canonical_junction(e))
}

/// What a connector says.
pub open spec fn canonical_connector(m: canonical::Connector) -> Content {
    Content::List(
        seq![
            text(m.name),
            optional_id(m.family),
            Content::List(canonical_positions(m.positions@)),
            canonical_maybe_representation(m.representation),
        ],
    )
}

/// What an optional part says.
pub open spec fn canonical_maybe_port_ref(m: Option<canonical::PortRef>) -> Content {
    match m {
        Some(part) => canonical_port_ref(part),
        None => Content::Missing,
    }
}

/// What an antenna says.
pub open spec fn canonical_antenna(m: canonical::Antenna) -> Content {
    Content::List(
        seq![
            text(m.name),
            canonical_maybe_port_ref(m.conducted_port),
            canonical_port_ref(m.radiated_port),
            canonical_maybe_representation(m.representation),
        ],
    )
}

/// What a named quantity says.
pub open spec fn canonical_named_quantity(m: canonical::NamedQuantity) -> Content {
    Content::List(
        seq![
            identifier(m.property),
            canonical_quantity(m.quantity),
        ],
    )
}

/// What a termination says.
pub open spec fn canonical_termination(m: canonical::Termination) -> Content {
    Content::List(
        seq![
            text(m.name),
            identifier(m.kind),
            Content::Mounting(m.mounting),
            Content::List(m.attachments@.map_values(|e: canonical::PhysicalEndpointRef| canonical_physical_endpoint(e))),
            Content::List(m.quantities@.map_values(|e: canonical::NamedQuantity| canonical_named_quantity(e))),
            Content::Fidelity(m.fidelity),
            optional_id(m.profile),
            canonical_maybe_representation(m.representation),
        ],
    )
}

/// What the connectivity of a component says.
pub open spec fn canonical_component(m: canonical::ComponentConnectivity) -> Content {
    Content::List(
        seq![
            text(m.component),
            Content::List(m.ports@.map_values(|e: canonical::Port| canonical_port(e))),
            Content::List(m.connectors@.map_values(|e: canonical::Connector| canonical_connector(e))),
            Content::List(m.antennas@.map_values(|e: canonical::Antenna| canonical_antenna(e))),
            Content::List(canonical_functions(m.functions@)),
            Content::List(canonical_paths(m.paths@)),
            Content::List(canonical_junctions(m.junctions@)),
            Content::List(m.terminations@.map_values(|e: canonical::Termination| canonical_termination(e))),
        ],
    )
}

/// What an assembly says.
pub open spec fn canonical_assembly(m: canonical::PhysicalAssembly) -> Content {
    Content::List(
        seq![
            text(m.name),
            Content::AssemblyKind(m.kind),
            Content::List(m.connectors@.map_values(|e: canonical::Connector| canonical_connector(e))),
            Content::List(canonical_paths(m.paths@)),
            Content::List(canonical_junctions(m.junctions@)),
            Content::List(m.terminations@.map_values(|e: canonical::Termination| canonical_termination(e))),
            canonical_maybe_representation(m.representation),
        ],
    )
}

/// What the owner of a hop says.
pub open spec fn canonical_hop_owner(m: canonical::HopOwnerRef) -> Content {
    match m {
        canonical::HopOwnerRef::Component(b) => Content::List(seq![text_of("component"@), canonical_component_ref(b)]),
        canonical::HopOwnerRef::Function(b) => Content::List(seq![text_of("function"@), canonical_function_ref(b)]),
    }
}

/// What a hop says.
pub open spec fn canonical_hop(m: canonical::Hop) -> Content {
    Content::List(
        seq![
            text(m.name),
            canonical_hop_owner(m.owner),
            optional_id(m.role),
            optional_text(m.description),
            optional_u64(m.processing_delay_ns),
        ],
    )
}

/// What an end of a leg says.
pub open spec fn canonical_leg_end(m: canonical::LegEnd) -> Content {
    Content::List(
        seq![
            canonical_hop_ref(m.hop),
            canonical_participant_ref(m.participant),
        ],
    )
}

/// What a leg says.
pub open spec fn canonical_leg(m: canonical::Leg) -> Content {
    Content::List(
        seq![
            text(m.name),
            canonical_leg_end(m.from),
            canonical_leg_end(m.to),
        ],
    )
}

/// What a participant says.
pub open spec fn canonical_participant(m: canonical::Participant) -> Content {
    Content::List(
        seq![
            text(m.name),
            canonical_functional_endpoint(m.endpoint),
            optional_id(m.role),
        ],
    )
}

/// What a gPTP clock says.
pub open spec fn canonical_clock(m: canonical::GptpClock) -> Content {
    Content::List(
        seq![
            text(m.name),
            canonical_participant_ref(m.participant),
            Content::ClockKind(m.kind),
            Content::Flag(m.gm_capable),
            optional_u8(m.priority1),
            optional_u8(m.priority2),
            optional_u8(m.clock_class),
            optional_u8(m.clock_accuracy),
        ],
    )
}

/// What the defaults of gPTP ports say.
pub open spec fn canonical_port_defaults(d: Option<canonical::GptpPortDefaults>) -> Content {
    match d {
        None => Content::Missing,
        Some(d) => Content::List(
            seq![
                optional_i8(d.log_sync_interval),
                optional_i8(d.log_announce_interval),
                optional_i8(d.log_pdelay_req_interval),
                optional_u8(d.announce_receipt_timeout),
                optional_u64(d.neighbor_prop_delay_threshold_ns),
            ],
        ),
    }
}

/// What a gPTP domain says.
pub open spec fn canonical_gptp_domain(m: canonical::GptpDomain) -> Content {
    Content::List(
        seq![
            text(m.name),
            Content::Number(m.number as int),
            canonical_port_defaults(m.port_defaults),
            Content::List(m.clocks@.map_values(|e: canonical::GptpClock| canonical_clock(e))),
        ],
    )
}

/// The networks and the names of the traffic classes that a list refers to.
pub open spec fn canonical_open_classes(m: Seq<canonical::TrafficClassRef>) -> Set<
    (Seq<char>, Seq<char>),
> {
    Set::new(
        |p: (Seq<char>, Seq<char>)|
            exists|i: int|
                0 <= i < m.len() && (#[trigger] m[i]).network.network@ == p.0
                    && m[i].traffic_class@ == p.1,
    )
}

/// What a traffic class says.
pub open spec fn canonical_traffic_class(m: canonical::TrafficClass) -> Content {
    Content::List(
        seq![
            text(m.name),
            Content::Number(m.number as int),
            optional_text(m.description),
            optional_preemption(m.preemption),
            Content::CodePoints(m.pcp@),
        ],
    )
}

/// What a gate control entry says.
pub open spec fn canonical_gate(m: canonical::GateControlEntry) -> Content {
    Content::List(
        seq![
            Content::Number(m.duration_ns as int),
            Content::Classes(canonical_open_classes(m.open@)),
        ],
    )
}

/// What a gate schedule says.
pub open spec fn canonical_gate_schedule(m: canonical::GateSchedule) -> Content {
    Content::List(
        seq![
            text(m.name),
            Content::Number(m.cycle_time_ns as int),
            Content::List(m.entries@.map_values(|e: canonical::GateControlEntry| canonical_gate(e))),
        ],
    )
}

/// What the target of a schedule says.
pub open spec fn canonical_target(m: canonical::ParticipantRef) -> Content {
    canonical_participant_ref(m)
}

/// What an assignment of a schedule says.
pub open spec fn canonical_schedule_assignment(m: canonical::ScheduleAssignment) -> Content {
    Content::List(
        seq![
            text(m.name),
            canonical_schedule_ref(m.schedule),
            Content::List(m.targets@.map_values(|e: canonical::ParticipantRef| canonical_target(e))),
        ],
    )
}

/// What a PLCA node says.
pub open spec fn canonical_plca_node(m: canonical::PlcaNode) -> Content {
    Content::List(
        seq![
            Content::Number(m.node_id as int),
            Content::Number(m.burst_count as int),
            Content::Number(m.burst_timer_bit_times as int),
            canonical_participant_ref(m.participant),
        ],
    )
}

/// What a MACsec policy says.
pub open spec fn canonical_macsec_policy(m: canonical::MacsecPolicyDefinition) -> Content {
    Content::List(
        seq![
            text(m.name),
            Content::Enforcement(m.enforcement),
            optional_id(m.cipher),
            optional_id(m.key_agreement),
            optional_u8(m.confidentiality_offset),
            optional_u64(m.rekey_interval_ns),
            optional_text(m.credential_store_ref),
        ],
    )
}

/// What a segment of a topology says.
pub open spec fn canonical_topology_segment(m: canonical::TopologySegmentRef) -> Content {
    match m {
        canonical::TopologySegmentRef::Network(b) => Content::List(seq![text_of("network"@), canonical_network_ref(b)]),
        canonical::TopologySegmentRef::Leg(b) => Content::List(seq![text_of("leg"@), canonical_leg_ref(b)]),
    }
}

/// What an override of a MACsec policy says.
pub open spec fn canonical_macsec_override(m: canonical::MacsecOverride) -> Content {
    Content::List(
        seq![
            canonical_topology_segment(m.target),
            canonical_macsec_policy_ref(m.policy),
        ],
    )
}

/// What an override of an energy mode says.
pub open spec fn canonical_eee_override(m: canonical::EeeOverride) -> Content {
    Content::List(
        seq![
            canonical_participant_ref(m.participant),
            Content::EnergyMode(m.mode),
        ],
    )
}

/// What a PLCA configuration says.
pub open spec fn canonical_plca_part(m: canonical::PlcaConfiguration) -> Content {
    Content::List(
        seq![
            Content::Number(m.max_node_id as int),
            Content::Number(m.to_timer_bit_times as int),
            Content::List(m.nodes@.map_values(|e: canonical::PlcaNode| canonical_plca_node(e))),
        ],
    )
}

/// What a PLCA configuration says, where there is one.
pub open spec fn canonical_plca(m: Option<canonical::PlcaConfiguration>) -> Content {
    match m {
        Some(part) => canonical_plca_part(part),
        None => Content::Missing,
    }
}

/// What the default policy says.
pub open spec fn canonical_default_policy(m: Option<canonical::MacsecPolicyRef>) -> Content {
    match m {
        Some(policy) => canonical_macsec_policy_ref(policy),
        None => Content::Missing,
    }
}

/// What a MACsec configuration says.
pub open spec fn canonical_macsec_part(m: canonical::MacsecConfiguration) -> Content {
    Content::List(
        seq![
            Content::List(m.policies@.map_values(|e: canonical::MacsecPolicyDefinition| canonical_macsec_policy(e))),
            canonical_default_policy(m.default_policy),
            Content::List(m.overrides@.map_values(|e: canonical::MacsecOverride| canonical_macsec_override(e))),
        ],
    )
}

/// What a MACsec configuration says, where there is one.
pub open spec fn canonical_macsec(m: Option<canonical::MacsecConfiguration>) -> Content {
    match m {
        Some(part) => canonical_macsec_part(part),
        None => Content::Missing,
    }
}

/// What an EEE configuration says.
pub open spec fn canonical_eee_part(m: canonical::EeeConfiguration) -> Content {
    Content::List(
        seq![
            Content::EnergyMode(m.default_mode),
            Content::List(m.overrides@.map_values(|e: canonical::EeeOverride| canonical_eee_override(e))),
        ],
    )
}

/// What an EEE configuration says, where there is one.
pub open spec fn canonical_eee(m: Option<canonical::EeeConfiguration>) -> Content {
    match m {
        Some(part) => canonical_eee_part(part),
        None => Content::Missing,
    }
}

/// What the configuration of a network says.
pub open spec fn canonical_configuration_part(m: canonical::NetworkConfiguration) -> Content {
    Content::List(
        seq![
            Content::List(m.gptp_domains@.map_values(|e: canonical::GptpDomain| canonical_gptp_domain(e))),
            Content::List(m.traffic_classes@.map_values(|e: canonical::TrafficClass| canonical_traffic_class(e))),
            Content::List(m.gate_schedules@.map_values(|e: canonical::GateSchedule| canonical_gate_schedule(e))),
            Content::List(m.schedule_assignments@.map_values(|e: canonical::ScheduleAssignment| canonical_schedule_assignment(e))),
            canonical_plca(m.plca),
            canonical_macsec(m.macsec),
            canonical_eee(m.eee),
        ],
    )
}

/// What the hops and legs of a network say.
pub open spec fn canonical_way(hops: Seq<canonical::Hop>, legs: Seq<canonical::Leg>) -> Content {
    Content::List(
        seq![
            Content::List(hops.map_values(|e: canonical::Hop| canonical_hop(e))),
            Content::List(legs.map_values(|e: canonical::Leg| canonical_leg(e))),
        ],
    )
}

/// What the structure of a network says.
pub open spec fn canonical_structure(m: canonical::NetworkStructure) -> Content {
    match m {
        canonical::NetworkStructure::Chain(t) => canonical_way(t.hops@, t.legs@),
        canonical::NetworkStructure::Ring(t) => canonical_way(t.hops@, t.legs@),
        canonical::NetworkStructure::Star(t) => canonical_participant_ref(t.coordinator),
        canonical::NetworkStructure::Tree(t) => Content::List(
            seq![canonical_hop_ref(t.root), canonical_way(t.hops@, t.legs@)],
        ),
        _ => Content::Missing,
    }
}

/// What a network says.
pub open spec fn canonical_network(m: canonical::Network) -> Content {
    Content::List(
        seq![
            text(m.name),
            Content::Topology(m.structure.spec_topology()),
            canonical_structure(m.structure),
            optional_text(m.description),
            canonical_selection(m.selected),
            Content::List(
                m.participants@.map_values(|e: canonical::Participant| canonical_participant(e)),
            ),
            canonical_configuration_part(m.configuration),
        ],
    )
}

/// What a list of networks says.
pub open spec fn canonical_networks(list: Seq<canonical::Network>) -> Seq<Content> {
    list.map_values(|e: canonical::Network| canonical_network(e))
}

/// What a list of assemblies says.
pub open spec fn canonical_assemblies(list: Seq<canonical::PhysicalAssembly>) -> Seq<Content> {
    list.map_values(|e: canonical::PhysicalAssembly| canonical_assembly(e))
}

/// What a binding says.
pub open spec fn canonical_binding(m: canonical::Binding) -> Content {
    Content::List(
        seq![
            text(m.name),
            canonical_functional_endpoint(m.functional),
            canonical_physical_endpoint(m.physical),
            Content::Fidelity(m.fidelity),
        ],
    )
}

/// What a mapping of positions says.
pub open spec fn canonical_position_mapping(m: canonical::PositionMapping) -> Content {
    Content::List(
        seq![
            canonical_position_ref(m.first),
            canonical_position_ref(m.second),
        ],
    )
}

/// What a mate says.
pub open spec fn canonical_mate(m: canonical::Mate) -> Content {
    Content::List(
        seq![
            text(m.name),
            canonical_connector_ref(m.first),
            canonical_connector_ref(m.second),
            Content::List(m.mappings@.map_values(|e: canonical::PositionMapping| canonical_position_mapping(e))),
            Content::Fidelity(m.fidelity),
        ],
    )
}

/// What a visual, as an anchor, says.
pub open spec fn canonical_anchor_visual(m: canonical::StructuralVisual) -> Content {
    Content::List(
        seq![
            text(m.name),
            Content::Flag(m.model_backed),
        ],
    )
}

/// What the anchors of a component says.
pub open spec fn canonical_anchors(m: canonical::StructuralAnchors) -> Content {
    Content::List(
        seq![
            text(m.component),
            Content::List(m.visuals@.map_values(|e: canonical::StructuralVisual| canonical_anchor_visual(e))),
            Content::List(m.frames@.map_values(|e: String| text(e))),
        ],
    )
}

/// What the connectivity says.
pub open spec fn canonical_connectivity(m: canonical::ConnectivityScope) -> Content {
    Content::List(
        seq![
            Content::List(m.structural_anchors@.map_values(|e: canonical::StructuralAnchors| canonical_anchors(e))),
            Content::List(m.components@.map_values(|e: canonical::ComponentConnectivity| canonical_component(e))),
            Content::List(canonical_assemblies(m.assemblies@)),
            Content::List(m.bindings@.map_values(|e: canonical::Binding| canonical_binding(e))),
            Content::List(m.mates@.map_values(|e: canonical::Mate| canonical_mate(e))),
            Content::List(canonical_networks(m.networks@)),
        ],
    )
}

} // verus!
