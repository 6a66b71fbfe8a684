//! What a document has by way of canonical connectivity is decided by the document alone: it either
//! fails, in one way, or succeeds.
use vstd::prelude::*;
use super::connectivity as canonical;
use super::connectivity_xml as xml;
use super::conversion;
use super::conversion::Failure;
use super::convert_component;
use super::convert_document;
use super::convert_representation;
use super::selectors;
use crate::faults;

verus! {

/// Whether two canonical representations carry the same authored one.
pub open spec fn same_source(
    a: Option<canonical::Representation>,
    b: Option<canonical::Representation>,
) -> bool {
    exists|v: Option<xml::Representation>| #[trigger]
        convert_representation::optional_representation_maps(v, a)
            && convert_representation::optional_representation_maps(v, b)
}

/// Whether selectors find the same in two lists of assemblies.
pub open spec fn same_assemblies(
    a: Seq<canonical::PhysicalAssembly>,
    b: Seq<canonical::PhysicalAssembly>,
) -> bool {
    &&& a.len() == b.len()
    &&& forall|i: int|
        0 <= i < a.len() ==> (#[trigger] a[i]).name == b[i].name && selectors::has_model(a[i])
            == selectors::has_model(b[i])
}

proof fn same_only(
    a: Seq<canonical::PhysicalAssembly>,
    b: Seq<canonical::PhysicalAssembly>,
    name: Seq<char>,
)
    requires
        same_assemblies(a, b),
    ensures
        selectors::the_only(a, selectors::assembly_named(name)) == selectors::the_only(
            b,
            selectors::assembly_named(name),
        ),
        selectors::the_only(a, selectors::assembly_named(name)) matches Some(at) ==> 0 <= at
            < a.len(),
{
    let named = selectors::assembly_named(name);
    assert forall|at: int| #[trigger] selectors::is_only(a, named, at) == selectors::is_only(
        b,
        named,
        at,
    ) by {
        if selectors::is_only(a, named, at) {
            assert(a[at].name == b[at].name);
            assert forall|j: int| 0 <= j < b.len() && j != at implies !named(#[trigger] b[j]) by {
                assert(!named(a[j]));
            }
        }
        if selectors::is_only(b, named, at) {
            assert(a[at].name == b[at].name);
            assert forall|j: int| 0 <= j < a.len() && j != at implies !named(#[trigger] a[j]) by {
                assert(!named(b[j]));
            }
        }
    }
    if exists|at: int| #[trigger] selectors::is_only(a, named, at) {
        let x = choose|at: int| #[trigger] selectors::is_only(a, named, at);
        assert(selectors::is_only(b, named, x));
        let y = choose|at: int| #[trigger] selectors::is_only(b, named, at);
        assert(selectors::is_only(b, named, y));
        if x != y {
            assert(named(b[x]));
        }
    } else {
        assert forall|at: int| !(#[trigger] selectors::is_only(b, named, at)) by {
            assert(!selectors::is_only(a, named, at));
        }
    }
}

proof fn same_frame(
    document: super::Hcdf,
    value: xml::RouteFrame,
    a: canonical::RouteFrameRef,
    b: canonical::RouteFrameRef,
    path: Seq<char>,
)
    requires
        convert_representation::route_frame_maps(value, a),
        convert_representation::route_frame_maps(value, b),
    ensures
        selectors::structural_frame_due(document, a, path) == selectors::structural_frame_due(
            document,
            b,
            path,
        ),
{
}

proof fn same_route(
    document: super::Hcdf,
    value: xml::DerivedRouteRepresentation,
    a: canonical::DerivedRouteRepresentation,
    b: canonical::DerivedRouteRepresentation,
    path: Seq<char>,
)
    requires
        convert_representation::derived_route_maps(value, a),
        convert_representation::derived_route_maps(value, b),
    ensures
        a.waypoints@.len() == b.waypoints@.len(),
        faults::first_failure(
            a.waypoints@.len(),
            selectors::route_due(document, a.waypoints@, path),
        ) == faults::first_failure(
            b.waypoints@.len(),
            selectors::route_due(document, b.waypoints@, path),
        ),
{
    let x = selectors::route_due(document, a.waypoints@, path);
    let y = selectors::route_due(document, b.waypoints@, path);
    assert forall|i: int| 0 <= i < a.waypoints@.len() implies #[trigger] x(i) == y(i) by {
        assert(convert_representation::waypoint_maps(value.waypoint@[i], a.waypoints@[i]));
        assert(convert_representation::waypoint_maps(value.waypoint@[i], b.waypoints@[i]));
        same_frame(
            document,
            value.waypoint@[i].frame,
            a.waypoints@[i].frame,
            b.waypoints@[i].frame,
            conversion::indexed_path(path, "waypoint"@, i),
        );
    }
    faults::same_failures_same_first(a.waypoints@.len(), x, y);
}

proof fn same_part(
    document: super::Hcdf,
    s: canonical::ConnectivityScope,
    t: canonical::ConnectivityScope,
    value: xml::ModelRoot,
    a: canonical::ModelPartRepresentation,
    b: canonical::ModelPartRepresentation,
    path: Seq<char>,
)
    requires
        same_assemblies(s.assemblies@, t.assemblies@),
        convert_representation::model_root_maps(value, a.model_root),
        convert_representation::model_root_maps(value, b.model_root),
        a.node_path == b.node_path,
    ensures
        selectors::model_part_due(document, s, a, path) == selectors::model_part_due(
            document,
            t,
            b,
            path,
        ),
{
    match value.root {
        xml::ModelRootChoice::ComponentVisual(root) => {},
        xml::ModelRootChoice::AssemblyModel(root) => {
            same_only(s.assemblies@, t.assemblies@, root.assembly@);
        },
    }
}

proof fn same_representation(
    document: super::Hcdf,
    s: canonical::ConnectivityScope,
    t: canonical::ConnectivityScope,
    a: Option<canonical::Representation>,
    b: Option<canonical::Representation>,
    path: Seq<char>,
)
    requires
        same_assemblies(s.assemblies@, t.assemblies@),
        same_source(a, b),
    ensures
        selectors::representation_due(document, s, a, path) == selectors::representation_due(
            document,
            t,
            b,
            path,
        ),
        (a matches Some(x) && x is Model) == (b matches Some(y) && y is Model),
{
    let v = choose|v: Option<xml::Representation>| #[trigger]
        convert_representation::optional_representation_maps(v, a)
            && convert_representation::optional_representation_maps(v, b);
    if let (Some(value), Some(x), Some(y)) = (v, a, b) {
        match (value.variant, x, y) {
            (
                xml::RepresentationChoice::ModelPart(part),
                canonical::Representation::ModelPart(p),
                canonical::Representation::ModelPart(q),
            ) => {
                same_part(document, s, t, part.model_root, p, q, path);
            },
            (
                xml::RepresentationChoice::DerivedRoute(route),
                canonical::Representation::DerivedRoute(p),
                canonical::Representation::DerivedRoute(q),
            ) => {
                same_route(document, route, p, q, path);
            },
            _ => {},
        }
    }
}

proof fn position_in_run(
    list: Seq<xml::Position>,
    a: Seq<canonical::Position>,
    b: Seq<canonical::Position>,
    start: int,
    kind: canonical::PositionKind,
    i: int,
)
    requires
        convert_component::position_run(list, a, start, kind),
        convert_component::position_run(list, b, start, kind),
        start <= i < start + list.len(),
    ensures
        a[i].name == b[i].name,
        same_source(a[i].representation, b[i].representation),
{
    let value = list[i - start];
    assert(convert_component::position_maps(value, a[start + (i - start)], kind));
    assert(convert_component::position_maps(value, b[start + (i - start)], kind));
    assert(convert_representation::optional_representation_maps(
        value.representation,
        a[i].representation,
    ));
}

proof fn same_positions(
    document: super::Hcdf,
    s: canonical::ConnectivityScope,
    t: canonical::ConnectivityScope,
    lists: convert_component::PositionLists,
    a: Seq<canonical::Position>,
    b: Seq<canonical::Position>,
    base: Seq<char>,
)
    requires
        same_assemblies(s.assemblies@, t.assemblies@),
        convert_component::all_positions_map(lists, a),
        convert_component::all_positions_map(lists, b),
    ensures
        a.len() == b.len(),
        faults::first_failure(a.len(), selectors::positions_due(document, s, a, base))
            == faults::first_failure(b.len(), selectors::positions_due(document, t, b, base)),
{
    let end1 = lists.pin@.len() as int;
    let end2 = end1 + lists.socket@.len();
    let end3 = end2 + lists.contact@.len();
    let end4 = end3 + lists.fiber@.len();
    let end5 = end4 + lists.passage@.len();
    let end6 = end5 + lists.feed@.len();
    let end7 = end6 + lists.waveguide_opening@.len();
    let x = selectors::positions_due(document, s, a, base);
    let y = selectors::positions_due(document, t, b, base);
    assert forall|i: int| 0 <= i < a.len() implies #[trigger] x(i) == y(i) by {
        if i < end1 {
            position_in_run(lists.pin@, a, b, 0, canonical::PositionKind::Pin, i);
        } else if i < end2 {
            position_in_run(lists.socket@, a, b, end1, canonical::PositionKind::Socket, i);
        } else if i < end3 {
            position_in_run(lists.contact@, a, b, end2, canonical::PositionKind::Contact, i);
        } else if i < end4 {
            position_in_run(lists.fiber@, a, b, end3, canonical::PositionKind::Fiber, i);
        } else if i < end5 {
            position_in_run(lists.passage@, a, b, end4, canonical::PositionKind::Passage, i);
        } else if i < end6 {
            position_in_run(lists.feed@, a, b, end5, canonical::PositionKind::Feed, i);
        } else {
            position_in_run(lists.waveguide_opening@, a, b, end6, canonical::PositionKind::WaveguideOpening, i);
        }
        same_representation(
            document,
            s,
            t,
            a[i].representation,
            b[i].representation,
            conversion::named_path(base, "position"@, a[i].name@),
        );
    }
    faults::same_failures_same_first(a.len(), x, y);
}

proof fn path_in_run(
    list: Seq<xml::Path>,
    a: Seq<canonical::PhysicalPath>,
    b: Seq<canonical::PhysicalPath>,
    start: int,
    kind: canonical::PathKind,
    i: int,
)
    requires
        convert_component::physical_path_run(list, a, start, kind),
        convert_component::physical_path_run(list, b, start, kind),
        start <= i < start + list.len(),
    ensures
        a[i].name == b[i].name,
        same_source(a[i].representation, b[i].representation),
{
    let value = list[i - start];
    assert(convert_component::physical_path_maps(value, a[start + (i - start)], kind));
    assert(convert_component::physical_path_maps(value, b[start + (i - start)], kind));
    assert(convert_representation::optional_representation_maps(
        value.representation,
        a[i].representation,
    ));
}

proof fn same_paths(
    document: super::Hcdf,
    s: canonical::ConnectivityScope,
    t: canonical::ConnectivityScope,
    lists: convert_component::PathLists,
    a: Seq<canonical::PhysicalPath>,
    b: Seq<canonical::PhysicalPath>,
    base: Seq<char>,
)
    requires
        same_assemblies(s.assemblies@, t.assemblies@),
        convert_component::all_paths_map(lists, a),
        convert_component::all_paths_map(lists, b),
    ensures
        a.len() == b.len(),
        faults::first_failure(a.len(), selectors::paths_due(document, s, a, base))
            == faults::first_failure(b.len(), selectors::paths_due(document, t, b, base)),
{
    let end1 = lists.wire@.len() as int;
    let end2 = end1 + lists.conductor@.len();
    let end3 = end2 + lists.cable_member@.len();
    let end4 = end3 + lists.fiber@.len();
    let end5 = end4 + lists.coax@.len();
    let end6 = end5 + lists.waveguide@.len();
    let end7 = end6 + lists.feed@.len();
    let end8 = end7 + lists.hose@.len();
    let end9 = end8 + lists.pipe@.len();
    let end10 = end9 + lists.passage@.len();
    let x = selectors::paths_due(document, s, a, base);
    let y = selectors::paths_due(document, t, b, base);
    assert forall|i: int| 0 <= i < a.len() implies #[trigger] x(i) == y(i) by {
        if i < end1 {
            path_in_run(lists.wire@, a, b, 0, canonical::PathKind::Wire, i);
        } else if i < end2 {
            path_in_run(lists.conductor@, a, b, end1, canonical::PathKind::Conductor, i);
        } else if i < end3 {
            path_in_run(lists.cable_member@, a, b, end2, canonical::PathKind::CableMember, i);
        } else if i < end4 {
            path_in_run(lists.fiber@, a, b, end3, canonical::PathKind::Fiber, i);
        } else if i < end5 {
            path_in_run(lists.coax@, a, b, end4, canonical::PathKind::Coax, i);
        } else if i < end6 {
            path_in_run(lists.waveguide@, a, b, end5, canonical::PathKind::Waveguide, i);
        } else if i < end7 {
            path_in_run(lists.feed@, a, b, end6, canonical::PathKind::Feed, i);
        } else if i < end8 {
            path_in_run(lists.hose@, a, b, end7, canonical::PathKind::Hose, i);
        } else if i < end9 {
            path_in_run(lists.pipe@, a, b, end8, canonical::PathKind::Pipe, i);
        } else {
            path_in_run(lists.passage@, a, b, end9, canonical::PathKind::Passage, i);
        }
        same_representation(
            document,
            s,
            t,
            a[i].representation,
            b[i].representation,
            conversion::named_path(base, "path"@, a[i].name@),
        );
    }
    faults::same_failures_same_first(a.len(), x, y);
}

proof fn junction_in_run(
    list: Seq<xml::Junction>,
    a: Seq<canonical::Junction>,
    b: Seq<canonical::Junction>,
    start: int,
    kind: canonical::JunctionKind,
    i: int,
)
    requires
        convert_component::junction_run(list, a, start, kind),
        convert_component::junction_run(list, b, start, kind),
        start <= i < start + list.len(),
    ensures
        a[i].name == b[i].name,
        same_source(a[i].representation, b[i].representation),
{
    let value = list[i - start];
    assert(convert_component::junction_maps(value, a[start + (i - start)], kind));
    assert(convert_component::junction_maps(value, b[start + (i - start)], kind));
    assert(convert_representation::optional_representation_maps(
        value.representation,
        a[i].representation,
    ));
}

proof fn same_junctions(
    document: super::Hcdf,
    s: canonical::ConnectivityScope,
    t: canonical::ConnectivityScope,
    lists: convert_component::JunctionLists,
    a: Seq<canonical::Junction>,
    b: Seq<canonical::Junction>,
    base: Seq<char>,
)
    requires
        same_assemblies(s.assemblies@, t.assemblies@),
        convert_component::all_junctions_map(lists, a),
        convert_component::all_junctions_map(lists, b),
    ensures
        a.len() == b.len(),
        faults::first_failure(a.len(), selectors::junctions_due(document, s, a, base))
            == faults::first_failure(b.len(), selectors::junctions_due(document, t, b, base)),
{
    let end1 = lists.splice@.len() as int;
    let end2 = end1 + lists.tee@.len();
    let end3 = end2 + lists.manifold@.len();
    let end4 = end3 + lists.busbar@.len();
    let end5 = end4 + lists.optical_splitter@.len();
    let x = selectors::junctions_due(document, s, a, base);
    let y = selectors::junctions_due(document, t, b, base);
    assert forall|i: int| 0 <= i < a.len() implies #[trigger] x(i) == y(i) by {
        if i < end1 {
            junction_in_run(lists.splice@, a, b, 0, canonical::JunctionKind::Splice, i);
        } else if i < end2 {
            junction_in_run(lists.tee@, a, b, end1, canonical::JunctionKind::Tee, i);
        } else if i < end3 {
            junction_in_run(lists.manifold@, a, b, end2, canonical::JunctionKind::Manifold, i);
        } else if i < end4 {
            junction_in_run(lists.busbar@, a, b, end3, canonical::JunctionKind::Busbar, i);
        } else {
            junction_in_run(lists.optical_splitter@, a, b, end4, canonical::JunctionKind::OpticalSplitter, i);
        }
        same_representation(
            document,
            s,
            t,
            a[i].representation,
            b[i].representation,
            conversion::named_path(base, "junction"@, a[i].name@),
        );
    }
    faults::same_failures_same_first(a.len(), x, y);
}

proof fn same_antennas(
    document: super::Hcdf,
    s: canonical::ConnectivityScope,
    t: canonical::ConnectivityScope,
    list: Seq<xml::Antenna>,
    a: Seq<canonical::Antenna>,
    b: Seq<canonical::Antenna>,
    base: Seq<char>,
)
    requires
        same_assemblies(s.assemblies@, t.assemblies@),
        convert_component::antennas_map(list, a),
        convert_component::antennas_map(list, b),
    ensures
        a.len() == b.len(),
        faults::first_failure(a.len(), selectors::antennas_due(document, s, a, base))
            == faults::first_failure(b.len(), selectors::antennas_due(document, t, b, base)),
{
    let x = selectors::antennas_due(document, s, a, base);
    let y = selectors::antennas_due(document, t, b, base);
    assert forall|i: int| 0 <= i < a.len() implies #[trigger] x(i) == y(i) by {
        assert(convert_component::antenna_maps(list[i], a[i]));
        assert(convert_component::antenna_maps(list[i], b[i]));
        assert(convert_representation::optional_representation_maps(
            list[i].representation,
            a[i].representation,
        ));
        same_representation(
            document,
            s,
            t,
            a[i].representation,
            b[i].representation,
            conversion::named_path(base, "antenna"@, a[i].name@),
        );
    }
    faults::same_failures_same_first(a.len(), x, y);
}

proof fn same_terminations(
    document: super::Hcdf,
    s: canonical::ConnectivityScope,
    t: canonical::ConnectivityScope,
    list: Seq<xml::Termination>,
    a: Seq<canonical::Termination>,
    b: Seq<canonical::Termination>,
    base: Seq<char>,
)
    requires
        same_assemblies(s.assemblies@, t.assemblies@),
        convert_component::terminations_map(list, a),
        convert_component::terminations_map(list, b),
    ensures
        a.len() == b.len(),
        faults::first_failure(a.len(), selectors::terminations_due(document, s, a, base))
            == faults::first_failure(b.len(), selectors::terminations_due(document, t, b, base)),
{
    let x = selectors::terminations_due(document, s, a, base);
    let y = selectors::terminations_due(document, t, b, base);
    assert forall|i: int| 0 <= i < a.len() implies #[trigger] x(i) == y(i) by {
        assert(convert_component::convert_termination_maps(list[i], a[i]));
        assert(convert_component::convert_termination_maps(list[i], b[i]));
        assert(convert_representation::optional_representation_maps(
            list[i].representation,
            a[i].representation,
        ));
        same_representation(
            document,
            s,
            t,
            a[i].representation,
            b[i].representation,
            conversion::named_path(base, "termination"@, a[i].name@),
        );
    }
    faults::same_failures_same_first(a.len(), x, y);
}

proof fn same_connectors(
    document: super::Hcdf,
    s: canonical::ConnectivityScope,
    t: canonical::ConnectivityScope,
    list: Seq<xml::Connector>,
    a: Seq<canonical::Connector>,
    b: Seq<canonical::Connector>,
    base: Seq<char>,
)
    requires
        same_assemblies(s.assemblies@, t.assemblies@),
        convert_component::connectors_map(list, a),
        convert_component::connectors_map(list, b),
    ensures
        a.len() == b.len(),
        faults::first_failure(a.len(), selectors::connectors_due(document, s, a, base))
            == faults::first_failure(b.len(), selectors::connectors_due(document, t, b, base)),
{
    let x = selectors::connectors_due(document, s, a, base);
    let y = selectors::connectors_due(document, t, b, base);
    assert forall|i: int| 0 <= i < a.len() implies #[trigger] x(i) == y(i) by {
        assert(convert_component::convert_connector_maps(list[i], a[i]));
        assert(convert_component::convert_connector_maps(list[i], b[i]));
        assert(convert_representation::optional_representation_maps(
            list[i].representation,
            a[i].representation,
        ));
        let path = conversion::named_path(base, "connector"@, a[i].name@);
        same_representation(document, s, t, a[i].representation, b[i].representation, path);
        same_positions(
            document,
            s,
            t,
            convert_component::position_lists_of(&list[i]),
            a[i].positions@,
            b[i].positions@,
            path,
        );
    }
    faults::same_failures_same_first(a.len(), x, y);
}

proof fn same_component(
    document: super::Hcdf,
    s: canonical::ConnectivityScope,
    t: canonical::ConnectivityScope,
    value: super::Comp,
    a: canonical::ComponentConnectivity,
    b: canonical::ComponentConnectivity,
)
    requires
        same_assemblies(s.assemblies@, t.assemblies@),
        convert_component::convert_component_maps(value, a),
        convert_component::convert_component_maps(value, b),
    ensures
        selectors::component_due(document, s, a) == selectors::component_due(document, t, b),
{
    let base = conversion::top_path("comp"@, a.component@);
    same_connectors(document, s, t, value.connector@, a.connectors@, b.connectors@, base);
    same_antennas(document, s, t, value.antenna@, a.antennas@, b.antennas@, base);
    same_paths(
        document,
        s,
        t,
        convert_component::component_path_lists_of(&value),
        a.paths@,
        b.paths@,
        base,
    );
    same_junctions(
        document,
        s,
        t,
        convert_component::component_junction_lists_of(&value),
        a.junctions@,
        b.junctions@,
        base,
    );
    same_terminations(
        document,
        s,
        t,
        value.termination@,
        a.terminations@,
        b.terminations@,
        base,
    );
}

proof fn same_assembly(
    document: super::Hcdf,
    s: canonical::ConnectivityScope,
    t: canonical::ConnectivityScope,
    value: xml::Assembly,
    a: canonical::PhysicalAssembly,
    b: canonical::PhysicalAssembly,
    kind: canonical::AssemblyKind,
)
    requires
        same_assemblies(s.assemblies@, t.assemblies@),
        convert_component::assembly_maps(value, a, kind),
        convert_component::assembly_maps(value, b, kind),
    ensures
        selectors::assembly_due(document, s, a) == selectors::assembly_due(document, t, b),
{
    let base = conversion::top_path("assembly"@, a.name@);
    assert(convert_representation::optional_representation_maps(
        value.representation,
        a.representation,
    ));
    same_representation(document, s, t, a.representation, b.representation, base);
    same_connectors(document, s, t, value.connector@, a.connectors@, b.connectors@, base);
    same_paths(
        document,
        s,
        t,
        convert_component::assembly_path_lists_of(&value),
        a.paths@,
        b.paths@,
        base,
    );
    same_junctions(
        document,
        s,
        t,
        convert_component::assembly_junction_lists_of(&value),
        a.junctions@,
        b.junctions@,
        base,
    );
    same_terminations(
        document,
        s,
        t,
        value.termination@,
        a.terminations@,
        b.terminations@,
        base,
    );
}

/// The authored assembly at a place of all assemblies of a document, and its kind.
pub open spec fn assembly_at(document: super::Hcdf, i: int) -> (
    xml::Assembly,
    canonical::AssemblyKind,
) {
    let end1 = document.harness@.len() as int;
    let end2 = end1 + document.cable@.len();
    let end3 = end2 + document.plumbing@.len();
    if i < end1 {
        (document.harness@[i], canonical::AssemblyKind::Harness)
    } else if i < end2 {
        (document.cable@[i - end1], canonical::AssemblyKind::Cable)
    } else if i < end3 {
        (document.plumbing@[i - end2], canonical::AssemblyKind::Plumbing)
    } else {
        (document.umbilical@[i - end3], canonical::AssemblyKind::Umbilical)
    }
}

proof fn assembly_carries(
    document: super::Hcdf,
    mapped: Seq<canonical::PhysicalAssembly>,
    i: int,
)
    requires
        convert_document::document_assemblies_map(document, mapped),
        0 <= i < mapped.len(),
    ensures
        convert_component::assembly_maps(
            assembly_at(document, i).0,
            mapped[i],
            assembly_at(document, i).1,
        ),
{
    reveal(convert_document::document_assemblies_map);
    let end1 = document.harness@.len() as int;
    let end2 = end1 + document.cable@.len();
    let end3 = end2 + document.plumbing@.len();
    if i < end1 {
        assert(mapped[0 + i] == mapped[i]);
    } else if i < end2 {
        assert(mapped[end1 + (i - end1)] == mapped[i]);
    } else if i < end3 {
        assert(mapped[end2 + (i - end2)] == mapped[i]);
    } else {
        assert(mapped[end3 + (i - end3)] == mapped[i]);
    }
}

/// Whatever scopes carry a document, its selectors fail in the same way in all of them, or in none.
pub proof fn selectors_fail_alike(
    document: super::Hcdf,
    first: canonical::IncludeInstanceId,
    second: canonical::IncludeInstanceId,
    s: canonical::ConnectivityScope,
    t: canonical::ConnectivityScope,
)
    requires
        convert_document::scope_carries(document, first, s),
        convert_document::scope_carries(document, second, t),
    ensures
        selectors::selectors_due(document, s) == selectors::selectors_due(document, t),
{
    reveal(convert_document::scope_carries);
    reveal(selectors::selectors_due);
    assert(s.assemblies@.len() == t.assemblies@.len()) by {
        reveal(convert_document::document_assemblies_map);
    }
    assert forall|i: int| 0 <= i < s.assemblies@.len() implies (#[trigger] s.assemblies@[i]).name
        == t.assemblies@[i].name && selectors::has_model(s.assemblies@[i])
        == selectors::has_model(t.assemblies@[i]) by {
        assembly_carries(document, s.assemblies@, i);
        assembly_carries(document, t.assemblies@, i);
    }
    assert(same_assemblies(s.assemblies@, t.assemblies@));
    let x = selectors::components_due(document, s);
    let y = selectors::components_due(document, t);
    assert forall|i: int| 0 <= i < s.components@.len() implies #[trigger] x(i) == y(i) by {
        assert(convert_component::convert_component_maps(document.comp@[i], s.components@[i]));
        assert(convert_component::convert_component_maps(document.comp@[i], t.components@[i]));
        same_component(document, s, t, document.comp@[i], s.components@[i], t.components@[i]);
    }
    faults::same_failures_same_first(s.components@.len(), x, y);
    let p = selectors::assemblies_due(document, s);
    let q = selectors::assemblies_due(document, t);
    assert forall|i: int| 0 <= i < s.assemblies@.len() implies #[trigger] p(i) == q(i) by {
        assembly_carries(document, s.assemblies@, i);
        assembly_carries(document, t.assemblies@, i);
        let (value, kind) = assembly_at(document, i);
        same_assembly(
            document,
            s,
            t,
            value,
            s.assemblies@[i],
            t.assemblies@[i],
            kind,
        );
    }
    faults::same_failures_same_first(s.assemblies@.len(), p, q);
}

/// A document that converts does not fail, whatever the instance, and a document that fails does so in
/// one way.
pub proof fn a_document_has_one_outcome(
    document: super::Hcdf,
    first: canonical::IncludeInstanceId,
    second: canonical::IncludeInstanceId,
    scope: canonical::ConnectivityScope,
    failure: Failure,
    other: Failure,
)
    ensures
        convert_document::scope_outcome(document, first, Ok(scope))
            ==> !convert_document::scope_fails(document, second, failure),
        convert_document::scope_fails(document, first, failure) && convert_document::scope_fails(
            document,
            second,
            other,
        ) ==> failure == other,
{
    if convert_document::document_due(document) is None {
        if convert_document::scope_fails(document, second, failure) {
            let t = choose|t: canonical::ConnectivityScope| #[trigger]
                convert_document::scope_carries(document, second, t) && selectors::selectors_due(
                    document,
                    t,
                ) == Some(failure);
            if convert_document::scope_outcome(document, first, Ok(scope)) {
                selectors_fail_alike(document, first, second, scope, t);
            }
        }
        if convert_document::scope_fails(document, first, failure)
            && convert_document::scope_fails(document, second, other) {
            let s = choose|s: canonical::ConnectivityScope| #[trigger]
                convert_document::scope_carries(document, first, s) && selectors::selectors_due(
                    document,
                    s,
                ) == Some(failure);
            let t = choose|t: canonical::ConnectivityScope| #[trigger]
                convert_document::scope_carries(document, second, t) && selectors::selectors_due(
                    document,
                    t,
                ) == Some(other);
            selectors_fail_alike(document, first, second, s, t);
        }
    }
}

} // verus!
