//! What the elements of a document say.
use vstd::prelude::*;
use crate::float::Float64;
use super::connectivity as canonical;
use super::connectivity_xml as xml;
use super::content::{Content, optional_i8, optional_preemption, optional_text, optional_u64, optional_u8, text, text_of, texts};
use super::convert_network::NetworkParts;
use super::{Comp, Frame, Hcdf, Visual};

verus! {

/// What one step of an inclusion path of a document says.
pub open spec fn segment(x: xml::InstanceSegment) -> Content {
    Content::List(
        seq![
            optional_text(x.name),
            Content::Number(x.occurrence as int),
        ],
    )
}

/// What the inclusion path of a reference of a document says.
pub open spec fn instance(x: Option<xml::InstanceRef>) -> Content {
    match x {
        None => Content::Missing,
        Some(path) => Content::List(path.segment@.map_values(|e: xml::InstanceSegment| segment(e))),
    }
}

/// What a reference to a component of a document says.
pub open spec fn component_ref(x: xml::ComponentRef) -> Content {
    Content::List(
        seq![
            instance(x.instance),
            text(x.component),
        ],
    )
}

/// What a reference to a function of a document says.
pub open spec fn function_ref(x: xml::ConnectivityFunctionRef) -> Content {
    Content::List(
        seq![
            instance(x.instance),
            text(x.component),
            text(x.function),
        ],
    )
}

/// What a reference to a network of a document says.
pub open spec fn network_ref(x: xml::NetworkRef) -> Content {
    Content::List(
        seq![
            instance(x.instance),
            text(x.network),
        ],
    )
}

/// What a reference to a participant of a document says.
pub open spec fn participant_ref(x: xml::ParticipantRef) -> Content {
    Content::List(
        seq![
            instance(x.instance),
            text(x.network),
            text(x.participant),
        ],
    )
}

/// What a reference to a leg of a document says.
pub open spec fn leg_ref(x: xml::LegRef) -> Content {
    Content::List(
        seq![
            instance(x.instance),
            text(x.network),
            text(x.leg),
        ],
    )
}

/// What a reference to a schedule of a document says.
pub open spec fn schedule_ref(x: xml::ScheduleRef) -> Content {
    Content::List(
        seq![
            instance(x.instance),
            text(x.network),
            text(x.schedule),
        ],
    )
}

/// What a reference to a hop of a document says.
pub open spec fn hop_ref(x: xml::HopRef) -> Content {
    Content::List(
        seq![
            instance(x.instance),
            text(x.network),
            text(x.hop),
        ],
    )
}

/// What a reference to a MACsec policy of a document says.
pub open spec fn macsec_policy_ref(x: xml::MacsecPolicyRef) -> Content {
    Content::List(
        seq![
            instance(x.instance),
            text(x.network),
            text(x.policy),
        ],
    )
}

/// What a reference to a port of a document says.
pub open spec fn port_ref(x: xml::PortRef) -> Content {
    Content::List(
        seq![
            instance(x.instance),
            text(x.component),
            text(x.port),
        ],
    )
}

/// What a reference to a channel of a document says.
pub open spec fn channel_ref(x: xml::ChannelRef) -> Content {
    Content::List(
        seq![
            instance(x.instance),
            text(x.component),
            text(x.port),
            text(x.channel),
        ],
    )
}

/// What a functional endpoint of a document says.
pub open spec fn functional_endpoint(x: xml::FunctionalEndpointRef) -> Content {
    match x.endpoint {
        xml::FunctionalEndpointChoice::Port(a) => Content::List(seq![text_of("port"@), port_ref(a)]),
        xml::FunctionalEndpointChoice::Channel(a) => Content::List(seq![text_of("channel"@), channel_ref(a)]),
    }
}

/// What a reference to an assembly of a document says.
pub open spec fn assembly_ref(x: xml::AssemblyRef) -> Content {
    Content::List(
        seq![
            instance(x.instance),
            text(x.assembly),
        ],
    )
}

/// What the owner of a physical element of a document says.
pub open spec fn owner(x: xml::PhysicalOwnerChoice) -> Content {
    match x {
        xml::PhysicalOwnerChoice::Component(a) => Content::List(seq![text_of("component"@), component_ref(a)]),
        xml::PhysicalOwnerChoice::Assembly(a) => Content::List(seq![text_of("assembly"@), assembly_ref(a)]),
    }
}

/// What a reference to a connector of a document says.
pub open spec fn connector_ref(x: xml::ConnectorRef) -> Content {
    Content::List(
        seq![
            owner(x.owner),
            text(x.connector),
        ],
    )
}

/// What a reference to a position of a document says.
pub open spec fn position_ref(x: xml::PositionRef) -> Content {
    Content::List(
        seq![
            owner(x.owner),
            text(x.connector),
            text(x.position),
        ],
    )
}

/// What a reference to a junction of a document says.
pub open spec fn junction_ref(x: xml::JunctionRef) -> Content {
    Content::List(
        seq![
            owner(x.owner),
            text(x.junction),
        ],
    )
}

/// What a physical endpoint of a document says.
pub open spec fn physical_endpoint(x: xml::PhysicalEndpointRef) -> Content {
    match x.endpoint {
        xml::PhysicalEndpointChoice::Connector(a) => Content::List(seq![text_of("connector"@), connector_ref(a)]),
        xml::PhysicalEndpointChoice::Position(a) => Content::List(seq![text_of("position"@), position_ref(a)]),
        xml::PhysicalEndpointChoice::Junction(a) => Content::List(seq![text_of("junction"@), junction_ref(a)]),
    }
}

/// What the frame of a route of a document says.
pub open spec fn route_frame(x: xml::RouteFrame) -> Content {
    match x.frame {
        xml::RouteFrameChoice::World(_) => Content::List(seq![text_of("world"@)]),
        xml::RouteFrameChoice::ComponentOrigin(a) => Content::List(seq![text_of("component-origin"@), instance(a.instance), text(a.component)]),
        xml::RouteFrameChoice::ComponentFrame(a) => Content::List(seq![text_of("component-frame"@), instance(a.instance), text(a.component), text(a.frame)]),
    }
}

/// What a rotation of a document says.
pub open spec fn rotation(x: xml::PlacementRotation) -> Content {
    match x.rotation {
        xml::PlacementRotationChoice::Rpy(a) => Content::List(seq![text_of("rpy"@), Content::Reals(a.value@)]),
        xml::PlacementRotationChoice::Quaternion(a) => Content::List(seq![text_of("quaternion"@), Content::Reals(a.value@)]),
    }
}

/// What a placement of a document says.
pub open spec fn placement(x: xml::Placement) -> Content {
    Content::List(
        seq![
            route_frame(x.frame),
            Content::Reals(x.xyz@),
            rotation(x.rotation),
        ],
    )
}

/// What an optional part of a document says.
pub open spec fn maybe_rotation(x: Option<xml::PlacementRotation>) -> Content {
    match x {
        Some(part) => rotation(part),
        None => Content::Missing,
    }
}

/// What a point of a route of a document says.
pub open spec fn waypoint(x: xml::RoutePoint) -> Content {
    Content::List(
        seq![
            route_frame(x.frame),
            Content::Reals(x.xyz@),
            maybe_rotation(x.rotation),
        ],
    )
}

/// What the section of a route of a document says.
pub open spec fn route_section(x: Option<xml::RouteSectionChoice>) -> Content {
    match x {
        None => Content::Missing,
        Some(xml::RouteSectionChoice::Round(a)) => Content::List(
            seq![text_of("round"@), Content::Real(a.diameter)],
        ),
        Some(xml::RouteSectionChoice::Rectangular(a)) => Content::List(
            seq![text_of("rectangular"@), Content::Real(a.width), Content::Real(a.height)],
        ),
    }
}

/// What a derived route of a document says.
pub open spec fn derived_route(x: xml::DerivedRouteRepresentation) -> Content {
    Content::List(
        seq![
            Content::List(x.waypoint@.map_values(|e: xml::RoutePoint| waypoint(e))),
            route_section(x.section),
        ],
    )
}

/// What the root of a model part of a document says.
pub open spec fn model_root(x: xml::ModelRoot) -> Content {
    match x.root {
        xml::ModelRootChoice::ComponentVisual(a) => Content::List(seq![text_of("component-visual"@), instance(a.instance), text(a.component), text(a.visual)]),
        xml::ModelRootChoice::AssemblyModel(a) => Content::List(seq![text_of("assembly-model"@), instance(a.instance), text(a.assembly)]),
    }
}

/// What a representation of a document says.
pub open spec fn representation(x: xml::Representation) -> Content {
    match x.variant {
        xml::RepresentationChoice::Box(a) => Content::List(seq![text_of("box"@), Content::Reals(a.size@), placement(a.placement)]),
        xml::RepresentationChoice::Cylinder(a) => Content::List(seq![text_of("cylinder"@), Content::Real(a.radius), Content::Real(a.length), placement(a.placement)]),
        xml::RepresentationChoice::Sphere(a) => Content::List(seq![text_of("sphere"@), Content::Real(a.radius), placement(a.placement)]),
        xml::RepresentationChoice::Model(a) => Content::List(seq![text_of("model"@), text(a.uri), optional_text(a.sha), optional_text(a.node_path), placement(a.placement)]),
        xml::RepresentationChoice::ModelPart(a) => Content::List(seq![text_of("model-part"@), model_root(a.model_root), text(a.node_path), optional_text(a.submesh_fallback)]),
        xml::RepresentationChoice::DerivedRoute(a) => Content::List(seq![text_of("derived-route"@), derived_route(a)]),
    }
}

/// What a number with a unit says.
pub open spec fn quantity(value: Float64, unit: String) -> Content {
    Content::List(seq![Content::Real(value), text(unit)])
}

/// What an optional number with a unit says.
pub open spec fn optional_quantity(value: Option<Float64>, unit: String) -> Content {
    match value {
        Some(number) => quantity(number, unit),
        None => Content::Missing,
    }
}

/// What a range of quantities of a document says.
pub open spec fn quantity_range(x: Option<xml::QuantityRange>) -> Content {
    match x {
        None => Content::Missing,
        Some(range) => Content::List(
            seq![
                optional_quantity(range.minimum, range.unit),
                optional_quantity(range.maximum, range.unit),
                optional_quantity(range.nominal, range.unit),
            ],
        ),
    }
}

/// What a selected quantity of a document says.
pub open spec fn selection_quantity(x: xml::SelectionQuantity) -> Content {
    match x.selection {
        xml::SelectionQuantityChoice::Nominal(q) => Content::List(
            seq![text_of("nominal"@), quantity(q.value, q.unit)],
        ),
        xml::SelectionQuantityChoice::Range(r) => Content::List(
            seq![
                text_of("range"@),
                quantity(r.minimum, r.unit),
                quantity(r.maximum, r.unit),
                optional_quantity(r.nominal, r.unit),
            ],
        ),
    }
}

/// What an optional selected quantity of a document says.
pub open spec fn optional_selection(x: Option<xml::SelectionQuantity>) -> Content {
    match x {
        Some(selection) => selection_quantity(selection),
        None => Content::Missing,
    }
}

/// What a selected radio channel of a document says.
pub open spec fn rf_selection(x: Option<xml::RfSelection>) -> Content {
    match x {
        None => Content::Missing,
        Some(rf) => match rf.channel.selection {
            xml::RfChannelSelectionChoice::Numbered(c) => Content::List(
                seq![
                    text_of("numbered"@),
                    Content::Number(c.number as int),
                    optional_selection(c.center_frequency),
                    optional_selection(c.bandwidth),
                ],
            ),
            xml::RfChannelSelectionChoice::FrequencyDefined(c) => Content::List(
                seq![
                    text_of("frequency-defined"@),
                    selection_quantity(c.center_frequency),
                    optional_selection(c.bandwidth),
                ],
            ),
        },
    }
}

/// The purposes in a list.
pub open spec fn purposes_set(x: Seq<xml::PurposeCapability>) -> Set<canonical::Purpose> {
    Set::new(|p: canonical::Purpose| exists|i: int| 0 <= i < x.len() && #[trigger] x[i].value == p)
}

/// What a list of purposes of a document says.
pub open spec fn purposes(x: Seq<xml::PurposeCapability>) -> Content {
    Content::Purposes(purposes_set(x))
}

/// The carriers in a list.
pub open spec fn carriers_set(x: Seq<xml::CarrierCapability>) -> Set<canonical::Carrier> {
    Set::new(|p: canonical::Carrier| exists|i: int| 0 <= i < x.len() && #[trigger] x[i].value == p)
}

/// What a list of carriers of a document says.
pub open spec fn carriers(x: Seq<xml::CarrierCapability>) -> Content {
    Content::Carriers(carriers_set(x))
}

/// What the capabilities of an element of a document say; missing ones say that there are none.
pub open spec fn capabilities(x: Option<xml::Capabilities>) -> Content {
    match x {
        None => Content::List(
            seq![
                Content::Purposes(Set::empty()),
                Content::Carriers(Set::empty()),
                Content::Texts(Set::empty()),
                Content::Missing,
                Content::Missing,
                Content::Missing,
                Content::Missing,
                Content::Missing,
                Content::Missing,
                Content::Missing,
                Content::Missing,
                Content::Missing,
                Content::Missing,
            ],
        ),
        Some(c) => Content::List(
            seq![
                purposes(c.purpose@),
                carriers(c.carrier@),
                texts(c.profile@.map_values(|p: xml::ProfileCapability| p.id)),
                quantity_range(c.rate),
                quantity_range(c.voltage),
                quantity_range(c.current),
                quantity_range(c.power),
                quantity_range(c.impedance),
                quantity_range(c.frequency),
                quantity_range(c.bandwidth),
                quantity_range(c.pressure),
                quantity_range(c.flow),
                quantity_range(c.temperature),
            ],
        ),
    }
}

/// What the selection of a network of a document says.
pub open spec fn selection(x: xml::NetworkSelection) -> Content {
    Content::List(
        seq![
            Content::Purpose(x.purpose),
            Content::Carrier(x.carrier),
            texts(x.profile@.map_values(|p: xml::SelectedProfile| p.id)),
            optional_selection(x.rate),
            optional_selection(x.voltage),
            optional_selection(x.current),
            optional_selection(x.power),
            optional_selection(x.impedance),
            optional_selection(x.frequency),
            optional_selection(x.pressure),
            optional_selection(x.flow),
            optional_selection(x.temperature),
            rf_selection(x.rf),
        ],
    )
}

/// What a channel of a document says.
pub open spec fn channel(x: xml::Channel) -> Content {
    Content::List(
        seq![
            text(x.name),
            optional_text(x.role),
            optional_text(x.local_group),
            capabilities(x.capabilities),
        ],
    )
}

/// What a port of a document says.
pub open spec fn port(x: xml::Port) -> Content {
    Content::List(
        seq![
            text(x.name),
            capabilities(x.capabilities),
            Content::List(x.channel@.map_values(|e: xml::Channel| channel(e))),
        ],
    )
}

/// What an optional part of a document says.
pub open spec fn maybe_representation(x: Option<xml::Representation>) -> Content {
    match x {
        Some(part) => representation(part),
        None => Content::Missing,
    }
}

/// What a position of a document says.
pub open spec fn position(x: xml::Position, kind: canonical::PositionKind) -> Content {
    Content::List(
        seq![
            text(x.name),
            Content::PositionKind(kind),
            optional_text(x.role),
            optional_text(x.local_group),
            maybe_representation(x.representation),
        ],
    )
}

/// What a function of a document says.
pub open spec fn function(x: xml::Function, kind: canonical::FunctionKind) -> Content {
    Content::List(
        seq![
            text(x.name),
            Content::FunctionKind(kind),
            Content::List(x.input@.map_values(|e: xml::FunctionalEndpointRef| functional_endpoint(e))),
            Content::List(x.output@.map_values(|e: xml::FunctionalEndpointRef| functional_endpoint(e))),
            Content::List(x.bidirectional@.map_values(|e: xml::FunctionalEndpointRef| functional_endpoint(e))),
        ],
    )
}

/// What a path of a document says.
pub open spec fn path(x: xml::Path, kind: canonical::PathKind) -> Content {
    Content::List(
        seq![
            text(x.name),
            Content::PathKind(kind),
            physical_endpoint(x.first),
            physical_endpoint(x.second),
            Content::Fidelity(x.fidelity),
            optional_text(x.role),
            optional_text(x.local_group),
            maybe_representation(x.representation),
        ],
    )
}

/// What a junction of a document says.
pub open spec fn junction(x: xml::Junction, kind: canonical::JunctionKind) -> Content {
    Content::List(
        seq![
            text(x.name),
            Content::JunctionKind(kind),
            Content::Fidelity(x.fidelity),
            Content::List(x.attachment@.map_values(|e: xml::PhysicalEndpointRef| physical_endpoint(e))),
            maybe_representation(x.representation),
        ],
    )
}

/// What the positions of one kind say.
pub open spec fn positions(list: Seq<xml::Position>, kind: canonical::PositionKind) -> Seq<Content> {
    list.map_values(|e: xml::Position| position(e, kind))
}

/// What the functions of one kind say.
pub open spec fn functions(list: Seq<xml::Function>, kind: canonical::FunctionKind) -> Seq<Content> {
    list.map_values(|e: xml::Function| function(e, kind))
}

/// What the paths of one kind say.
pub open spec fn paths(list: Seq<xml::Path>, kind: canonical::PathKind) -> Seq<Content> {
    list.map_values(|e: xml::Path| path(e, kind))
}

/// What the junctions of one kind say.
pub open spec fn junctions(list: Seq<xml::Junction>, kind: canonical::JunctionKind) -> Seq<Content> {
    list.map_values(|e: xml::Junction| junction(e, kind))
}

/// What the positions of a connector of a document say, one kind after the other.
pub open spec fn connector_positions(x: xml::Connector) -> Content {
    Content::List(
        Seq::empty() + positions(x.pin@, canonical::PositionKind::Pin)
            + positions(x.socket@, canonical::PositionKind::Socket)
            + positions(x.contact@, canonical::PositionKind::Contact)
            + positions(x.fiber@, canonical::PositionKind::Fiber)
            + positions(x.passage@, canonical::PositionKind::Passage)
            + positions(x.feed@, canonical::PositionKind::Feed)
            + positions(x.waveguide_opening@, canonical::PositionKind::WaveguideOpening),
    )
}

/// What a connector of a document says.
pub open spec fn connector(x: xml::Connector) -> Content {
    Content::List(
        seq![
            text(x.name),
            optional_text(x.family),
            connector_positions(x),
            maybe_representation(x.representation),
        ],
    )
}

/// What an optional part of a document says.
pub open spec fn maybe_port_ref(x: Option<xml::PortRef>) -> Content {
    match x {
        Some(part) => port_ref(part),
        None => Content::Missing,
    }
}

/// What an antenna of a document says.
pub open spec fn antenna(x: xml::Antenna) -> Content {
    Content::List(
        seq![
            text(x.name),
            maybe_port_ref(x.conducted_port),
            port_ref(x.radiated_port),
            maybe_representation(x.representation),
        ],
    )
}

/// What a named quantity of a document says.
pub open spec fn named_quantity(x: xml::NamedQuantity) -> Content {
    Content::List(
        seq![
            text(x.property),
            quantity(x.value, x.unit),
        ],
    )
}

/// What a termination of a document says.
pub open spec fn termination(x: xml::Termination) -> Content {
    Content::List(
        seq![
            text(x.name),
            text(x.kind),
            Content::Mounting(x.mounting),
            Content::List(x.attachment@.map_values(|e: xml::PhysicalEndpointRef| physical_endpoint(e))),
            Content::List(x.quantity@.map_values(|e: xml::NamedQuantity| named_quantity(e))),
            Content::Fidelity(x.fidelity),
            optional_text(x.profile),
            maybe_representation(x.representation),
        ],
    )
}

/// What the functions of a component of a document say, one kind after the other.
pub open spec fn component_functions(x: Comp) -> Content {
    Content::List(
        Seq::empty() + functions(x.switch@, canonical::FunctionKind::Switch)
            + functions(x.bridge@, canonical::FunctionKind::Bridge)
            + functions(x.converter@, canonical::FunctionKind::Converter)
            + functions(x.transceiver@, canonical::FunctionKind::Transceiver)
            + functions(x.radio@, canonical::FunctionKind::Radio),
    )
}

/// What the paths of a component of a document say, one kind after the other.
pub open spec fn component_paths(x: Comp) -> Content {
    Content::List(
        Seq::empty() + paths(x.wire@, canonical::PathKind::Wire)
            + paths(x.conductor@, canonical::PathKind::Conductor)
            + paths(x.cable_member@, canonical::PathKind::CableMember)
            + paths(x.fiber@, canonical::PathKind::Fiber)
            + paths(x.coax@, canonical::PathKind::Coax)
            + paths(x.waveguide@, canonical::PathKind::Waveguide)
            + paths(x.feed@, canonical::PathKind::Feed)
            + paths(x.hose@, canonical::PathKind::Hose)
            + paths(x.pipe@, canonical::PathKind::Pipe)
            + paths(x.passage@, canonical::PathKind::Passage),
    )
}

/// What the junctions of a component of a document say, one kind after the other.
pub open spec fn component_junctions(x: Comp) -> Content {
    Content::List(
        Seq::empty() + junctions(x.splice@, canonical::JunctionKind::Splice)
            + junctions(x.tee@, canonical::JunctionKind::Tee)
            + junctions(x.manifold@, canonical::JunctionKind::Manifold)
            + junctions(x.busbar@, canonical::JunctionKind::Busbar)
            + junctions(x.optical_splitter@, canonical::JunctionKind::OpticalSplitter),
    )
}

/// What the paths of an assembly of a document say, one kind after the other.
pub open spec fn assembly_paths(x: xml::Assembly) -> Content {
    Content::List(
        Seq::empty() + paths(x.wire@, canonical::PathKind::Wire)
            + paths(x.conductor@, canonical::PathKind::Conductor)
            + paths(x.cable_member@, canonical::PathKind::CableMember)
            + paths(x.fiber@, canonical::PathKind::Fiber)
            + paths(x.coax@, canonical::PathKind::Coax)
            + paths(x.waveguide@, canonical::PathKind::Waveguide)
            + paths(x.feed@, canonical::PathKind::Feed)
            + paths(x.hose@, canonical::PathKind::Hose)
            + paths(x.pipe@, canonical::PathKind::Pipe)
            + paths(x.passage@, canonical::PathKind::Passage),
    )
}

/// What the junctions of an assembly of a document say, one kind after the other.
pub open spec fn assembly_junctions(x: xml::Assembly) -> Content {
    Content::List(
        Seq::empty() + junctions(x.splice@, canonical::JunctionKind::Splice)
            + junctions(x.tee@, canonical::JunctionKind::Tee)
            + junctions(x.manifold@, canonical::JunctionKind::Manifold)
            + junctions(x.busbar@, canonical::JunctionKind::Busbar)
            + junctions(x.optical_splitter@, canonical::JunctionKind::OpticalSplitter),
    )
}

/// What the connectivity of a component of a document says.
pub open spec fn component(x: Comp) -> Content {
    Content::List(
        seq![
            text(x.name),
            Content::List(x.port@.map_values(|e: xml::Port| port(e))),
            Content::List(x.connector@.map_values(|e: xml::Connector| connector(e))),
            Content::List(x.antenna@.map_values(|e: xml::Antenna| antenna(e))),
            component_functions(x),
            component_paths(x),
            component_junctions(x),
            Content::List(x.termination@.map_values(|e: xml::Termination| termination(e))),
        ],
    )
}

/// What an assembly of a document says.
pub open spec fn assembly(x: xml::Assembly, kind: canonical::AssemblyKind) -> Content {
    Content::List(
        seq![
            text(x.name),
            Content::AssemblyKind(kind),
            Content::List(x.connector@.map_values(|e: xml::Connector| connector(e))),
            assembly_paths(x),
            assembly_junctions(x),
            Content::List(x.termination@.map_values(|e: xml::Termination| termination(e))),
            maybe_representation(x.representation),
        ],
    )
}

/// What the owner of a hop of a document says.
pub open spec fn hop_owner(x: xml::HopOwnerRef) -> Content {
    match x.owner {
        xml::HopOwnerChoice::Component(a) => Content::List(seq![text_of("component"@), component_ref(a)]),
        xml::HopOwnerChoice::Function(a) => Content::List(seq![text_of("function"@), function_ref(a)]),
    }
}

/// What a hop of a document says.
pub open spec fn hop(x: xml::Hop) -> Content {
    Content::List(
        seq![
            text(x.name),
            hop_owner(x.owner),
            optional_text(x.role),
            optional_text(x.description),
            optional_u64(x.processing_delay_ns),
        ],
    )
}

/// What an end of a leg of a document says.
pub open spec fn leg_end(x: xml::LegEnd) -> Content {
    Content::List(
        seq![
            hop_ref(x.hop),
            participant_ref(x.participant),
        ],
    )
}

/// What a leg of a document says.
pub open spec fn leg(x: xml::Leg) -> Content {
    Content::List(
        seq![
            text(x.name),
            leg_end(x.from),
            leg_end(x.to),
        ],
    )
}

/// What a participant of a document says.
pub open spec fn participant(x: xml::Participant) -> Content {
    Content::List(
        seq![
            text(x.name),
            functional_endpoint(x.endpoint),
            optional_text(x.role),
        ],
    )
}

/// What a gPTP clock of a document says.
pub open spec fn clock(x: xml::GptpClock) -> Content {
    Content::List(
        seq![
            text(x.name),
            participant_ref(x.participant),
            Content::ClockKind(x.kind),
            Content::Flag(x.gm_capable),
            optional_u8(x.priority1),
            optional_u8(x.priority2),
            optional_u8(x.clock_class),
            optional_u8(x.clock_accuracy),
        ],
    )
}

/// What the defaults of gPTP ports say.
pub open spec fn port_defaults(d: Option<xml::GptpPortDefaults>) -> Content {
    match d {
        None => Content::Missing,
        Some(d) => Content::List(
            seq![
                optional_i8(d.log_sync_interval),
                optional_i8(d.log_announce_interval),
                optional_i8(d.log_pdelay_req_interval),
                optional_u8(d.announce_receipt_timeout),
                optional_u64(d.neighbor_prop_delay_threshold_ns),
            ],
        ),
    }
}

/// What a gPTP domain of a document says.
pub open spec fn gptp_domain(x: xml::GptpDomain) -> Content {
    Content::List(
        seq![
            text(x.name),
            Content::Number(x.number as int),
            port_defaults(x.port_defaults),
            Content::List(x.clock@.map_values(|e: xml::GptpClock| clock(e))),
        ],
    )
}

/// The priority code points in a list.
pub open spec fn code_points(x: Seq<xml::PcpValue>) -> Set<u8> {
    Set::new(|p: u8| exists|i: int| 0 <= i < x.len() && #[trigger] x[i].value == p)
}

/// The networks and the names of the traffic classes that a list refers to.
pub open spec fn open_classes(x: Seq<xml::TrafficClassRef>) -> Set<(Seq<char>, Seq<char>)> {
    Set::new(
        |p: (Seq<char>, Seq<char>)|
            exists|i: int|
                0 <= i < x.len() && (#[trigger] x[i]).network@ == p.0 && x[i].traffic_class@ == p.1,
    )
}

/// What a traffic class of a document says.
pub open spec fn traffic_class(x: xml::TrafficClass) -> Content {
    Content::List(
        seq![
            text(x.name),
            Content::Number(x.number as int),
            optional_text(x.description),
            optional_preemption(x.preemption),
            Content::CodePoints(code_points(x.pcp@)),
        ],
    )
}

/// What a gate control entry of a document says.
pub open spec fn gate(x: xml::GateControlEntry) -> Content {
    Content::List(
        seq![
            Content::Number(x.duration_ns as int),
            Content::Classes(open_classes(x.open.traffic_class@)),
        ],
    )
}

/// What a gate schedule of a document says.
pub open spec fn gate_schedule(x: xml::GateSchedule) -> Content {
    Content::List(
        seq![
            text(x.name),
            Content::Number(x.cycle_time_ns as int),
            Content::List(x.gate@.map_values(|e: xml::GateControlEntry| gate(e))),
        ],
    )
}

/// What the target of a schedule of a document says.
pub open spec fn target(x: xml::ScheduleTarget) -> Content {
    participant_ref(x.participant)
}

/// What an assignment of a schedule of a document says.
pub open spec fn schedule_assignment(x: xml::ScheduleAssignment) -> Content {
    Content::List(
        seq![
            text(x.name),
            schedule_ref(x.schedule),
            Content::List(x.target@.map_values(|e: xml::ScheduleTarget| target(e))),
        ],
    )
}

/// What a PLCA node of a document says.
pub open spec fn plca_node(x: xml::PlcaNode) -> Content {
    Content::List(
        seq![
            Content::Number(x.id as int),
            Content::Number(x.burst_count as int),
            Content::Number(x.burst_timer_bit_times as int),
            participant_ref(x.participant),
        ],
    )
}

/// What a MACsec policy of a document says.
pub open spec fn macsec_policy(x: xml::MacsecPolicyDefinition) -> Content {
    Content::List(
        seq![
            text(x.name),
            Content::Enforcement(x.enforcement),
            optional_text(x.cipher),
            optional_text(x.key_agreement),
            optional_u8(x.confidentiality_offset),
            optional_u64(x.rekey_interval_ns),
            optional_text(x.credential_store_ref),
        ],
    )
}

/// What a segment of a topology of a document says.
pub open spec fn topology_segment(x: xml::TopologySegmentRef) -> Content {
    match x.segment {
        xml::TopologySegmentChoice::Network(a) => Content::List(seq![text_of("network"@), network_ref(a)]),
        xml::TopologySegmentChoice::Leg(a) => Content::List(seq![text_of("leg"@), leg_ref(a)]),
    }
}

/// What an override of a MACsec policy of a document says.
pub open spec fn macsec_override(x: xml::MacsecOverride) -> Content {
    Content::List(
        seq![
            topology_segment(x.target),
            macsec_policy_ref(x.policy),
        ],
    )
}

/// What an override of an energy mode of a document says.
pub open spec fn eee_override(x: xml::EeeOverride) -> Content {
    Content::List(
        seq![
            participant_ref(x.participant),
            Content::EnergyMode(x.mode),
        ],
    )
}

/// What a PLCA configuration of a document says.
pub open spec fn plca_part(x: xml::PlcaConfiguration) -> Content {
    Content::List(
        seq![
            Content::Number(x.max_node_id as int),
            Content::Number(x.to_timer_bit_times as int),
            Content::List(x.node@.map_values(|e: xml::PlcaNode| plca_node(e))),
        ],
    )
}

/// What a PLCA configuration of a document says, where there is one.
pub open spec fn plca(x: Option<xml::PlcaConfiguration>) -> Content {
    match x {
        Some(part) => plca_part(part),
        None => Content::Missing,
    }
}

/// What the default policy of a document says.
pub open spec fn default_policy(x: Option<xml::MacsecDefaultPolicy>) -> Content {
    match x {
        Some(policy) => macsec_policy_ref(policy.policy),
        None => Content::Missing,
    }
}

/// What a MACsec configuration of a document says.
pub open spec fn macsec_part(x: xml::MacsecConfiguration) -> Content {
    Content::List(
        seq![
            Content::List(x.policy@.map_values(|e: xml::MacsecPolicyDefinition| macsec_policy(e))),
            default_policy(x.default_policy),
            Content::List(x.override_@.map_values(|e: xml::MacsecOverride| macsec_override(e))),
        ],
    )
}

/// What a MACsec configuration of a document says, where there is one.
pub open spec fn macsec(x: Option<xml::MacsecConfiguration>) -> Content {
    match x {
        Some(part) => macsec_part(part),
        None => Content::Missing,
    }
}

/// What an EEE configuration of a document says.
pub open spec fn eee_part(x: xml::EeeConfiguration) -> Content {
    Content::List(
        seq![
            Content::EnergyMode(x.default_mode),
            Content::List(x.override_@.map_values(|e: xml::EeeOverride| eee_override(e))),
        ],
    )
}

/// What an EEE configuration of a document says, where there is one.
pub open spec fn eee(x: Option<xml::EeeConfiguration>) -> Content {
    match x {
        Some(part) => eee_part(part),
        None => Content::Missing,
    }
}

/// What the configuration of a network of a document says.
pub open spec fn configuration_part(x: xml::NetworkConfiguration) -> Content {
    Content::List(
        seq![
            Content::List(x.gptp_domain@.map_values(|e: xml::GptpDomain| gptp_domain(e))),
            Content::List(x.traffic_class@.map_values(|e: xml::TrafficClass| traffic_class(e))),
            Content::List(x.gate_schedule@.map_values(|e: xml::GateSchedule| gate_schedule(e))),
            Content::List(x.schedule_assignment@.map_values(|e: xml::ScheduleAssignment| schedule_assignment(e))),
            plca(x.plca),
            macsec(x.macsec),
            eee(x.eee),
        ],
    )
}

/// What the configuration of a network of a document says; a missing one says that nothing is configured.
pub open spec fn configuration(x: Option<xml::NetworkConfiguration>) -> Content {
    match x {
        None => Content::List(
            seq![
                Content::List(Seq::empty()),
                Content::List(Seq::empty()),
                Content::List(Seq::empty()),
                Content::List(Seq::empty()),
                Content::Missing,
                Content::Missing,
                Content::Missing,
            ],
        ),
        Some(part) => configuration_part(part),
    }
}

/// What the hops and legs of a network of a document say.
pub open spec fn way(hop: Seq<xml::Hop>, leg: Seq<xml::Leg>) -> Content {
    Content::List(
        seq![
            Content::List(hop.map_values(|e: xml::Hop| self::hop(e))),
            Content::List(leg.map_values(|e: xml::Leg| self::leg(e))),
        ],
    )
}

/// What the selection of a network of a document says, where there is one.
pub open spec fn maybe_selection(x: Option<xml::NetworkSelection>) -> Content {
    match x {
        Some(selected) => selection(selected),
        None => Content::Missing,
    }
}

/// What a network of a document says, with what its structure says.
pub open spec fn network(parts: NetworkParts, topology: canonical::Topology, structure: Content) -> Content {
    Content::List(
        seq![
            text(*parts.name),
            Content::Topology(topology),
            structure,
            optional_text(*parts.description),
            maybe_selection(*parts.selected),
            Content::List(parts.participant@.map_values(|e: xml::Participant| participant(e))),
            configuration(*parts.configuration),
        ],
    )
}

/// What a link of a document says.
pub open spec fn link(x: xml::Link) -> Content {
    network(
        NetworkParts {
            name: &x.name,
            description: &x.description,
            selected: &x.selected,
            configuration: &x.configuration,
            participant: &x.participant,
        },
        canonical::Topology::Link,
        Content::Missing,
    )
}

/// What the link networks of a document say.
pub open spec fn links(list: Seq<xml::Link>) -> Seq<Content> {
    list.map_values(|e: xml::Link| link(e))
}

/// What a bus of a document says.
pub open spec fn bus(x: xml::Bus) -> Content {
    network(
        NetworkParts {
            name: &x.name,
            description: &x.description,
            selected: &x.selected,
            configuration: &x.configuration,
            participant: &x.participant,
        },
        canonical::Topology::Bus,
        Content::Missing,
    )
}

/// What the bus networks of a document say.
pub open spec fn buses(list: Seq<xml::Bus>) -> Seq<Content> {
    list.map_values(|e: xml::Bus| bus(e))
}

/// What a chain of a document says.
pub open spec fn chain(x: xml::Chain) -> Content {
    network(
        NetworkParts {
            name: &x.name,
            description: &x.description,
            selected: &x.selected,
            configuration: &x.configuration,
            participant: &x.participant,
        },
        canonical::Topology::Chain,
        way(x.hop@, x.leg@),
    )
}

/// What the chain networks of a document say.
pub open spec fn chains(list: Seq<xml::Chain>) -> Seq<Content> {
    list.map_values(|e: xml::Chain| chain(e))
}

/// What a star of a document says.
pub open spec fn star(x: xml::Star) -> Content {
    network(
        NetworkParts {
            name: &x.name,
            description: &x.description,
            selected: &x.selected,
            configuration: &x.configuration,
            participant: &x.participant,
        },
        canonical::Topology::Star,
        participant_ref(x.coordinator.participant),
    )
}

/// What the star networks of a document say.
pub open spec fn stars(list: Seq<xml::Star>) -> Seq<Content> {
    list.map_values(|e: xml::Star| star(e))
}

/// What a ring of a document says.
pub open spec fn ring(x: xml::Ring) -> Content {
    network(
        NetworkParts {
            name: &x.name,
            description: &x.description,
            selected: &x.selected,
            configuration: &x.configuration,
            participant: &x.participant,
        },
        canonical::Topology::Ring,
        way(x.hop@, x.leg@),
    )
}

/// What the ring networks of a document say.
pub open spec fn rings(list: Seq<xml::Ring>) -> Seq<Content> {
    list.map_values(|e: xml::Ring| ring(e))
}

/// What a mesh of a document says.
pub open spec fn mesh(x: xml::Mesh) -> Content {
    network(
        NetworkParts {
            name: &x.name,
            description: &x.description,
            selected: &x.selected,
            configuration: &x.configuration,
            participant: &x.participant,
        },
        canonical::Topology::Mesh,
        Content::Missing,
    )
}

/// What the mesh networks of a document say.
pub open spec fn meshes(list: Seq<xml::Mesh>) -> Seq<Content> {
    list.map_values(|e: xml::Mesh| mesh(e))
}

/// What a tree of a document says.
pub open spec fn tree(x: xml::Tree) -> Content {
    network(
        NetworkParts {
            name: &x.name,
            description: &x.description,
            selected: &x.selected,
            configuration: &x.configuration,
            participant: &x.participant,
        },
        canonical::Topology::Tree,
        Content::List(seq![hop_ref(x.root.hop), way(x.hop@, x.leg@)]),
    )
}

/// What the tree networks of a document say.
pub open spec fn trees(list: Seq<xml::Tree>) -> Seq<Content> {
    list.map_values(|e: xml::Tree| tree(e))
}

/// What the assemblies of one kind say.
pub open spec fn assemblies(list: Seq<xml::Assembly>, kind: canonical::AssemblyKind) -> Seq<Content> {
    list.map_values(|e: xml::Assembly| assembly(e, kind))
}

/// What the networks of a document say.
pub open spec fn document_networks(x: Hcdf) -> Seq<Content> {
    Seq::empty() + links(x.link@) + buses(x.bus@) + chains(x.chain@) + stars(x.star@) + rings(x.ring@)
        + meshes(x.mesh@) + trees(x.tree@)
}

/// What the assemblies of a document say.
pub open spec fn document_assemblies(x: Hcdf) -> Seq<Content> {
    Seq::empty() + assemblies(x.harness@, canonical::AssemblyKind::Harness) + assemblies(
        x.cable@,
        canonical::AssemblyKind::Cable,
    ) + assemblies(x.plumbing@, canonical::AssemblyKind::Plumbing) + assemblies(
        x.umbilical@,
        canonical::AssemblyKind::Umbilical,
    )
}

/// What a binding of a document says.
pub open spec fn binding(x: xml::Binding) -> Content {
    Content::List(
        seq![
            text(x.name),
            functional_endpoint(x.functional),
            physical_endpoint(x.physical),
            Content::Fidelity(x.fidelity),
        ],
    )
}

/// What a mapping of positions of a document says.
pub open spec fn position_mapping(x: xml::PositionMapping) -> Content {
    Content::List(
        seq![
            position_ref(x.first),
            position_ref(x.second),
        ],
    )
}

/// What a mate of a document says.
pub open spec fn mate(x: xml::Mate) -> Content {
    Content::List(
        seq![
            text(x.name),
            connector_ref(x.first),
            connector_ref(x.second),
            Content::List(x.position_mapping@.map_values(|e: xml::PositionMapping| position_mapping(e))),
            Content::Fidelity(x.fidelity),
        ],
    )
}

/// What a visual, as an anchor, of a document says.
pub open spec fn anchor_visual(x: Visual) -> Content {
    Content::List(
        seq![
            text(x.name),
            Content::Flag(x.appearance is Model),
        ],
    )
}

/// What the name of a frame says.
pub open spec fn anchor_frame(x: Frame) -> Content {
    text(x.name)
}

/// What the anchors of a component of a document says.
pub open spec fn anchors(x: Comp) -> Content {
    Content::List(
        seq![
            text(x.name),
            Content::List(x.visual@.map_values(|e: Visual| anchor_visual(e))),
            Content::List(x.frame@.map_values(|e: Frame| anchor_frame(e))),
        ],
    )
}

/// What the connectivity of a document says.
pub open spec fn connectivity(x: Hcdf) -> Content {
    Content::List(
        seq![
            Content::List(x.comp@.map_values(|e: Comp| anchors(e))),
            Content::List(x.comp@.map_values(|e: Comp| component(e))),
            Content::List(document_assemblies(x)),
            Content::List(x.binding@.map_values(|e: xml::Binding| binding(e))),
            Content::List(x.mate@.map_values(|e: xml::Mate| mate(e))),
            Content::List(document_networks(x)),
        ],
    )
}

} // verus!
