//! Which resources of a document a visit asks about: all of them, each at its own site.
use vstd::prelude::*;
use crate::model::connectivity_xml::{
    Antenna, Assembly, Connector, Junction, Path, Position, Representation, RepresentationChoice, Termination,
};
use crate::model::{
    Collision, Comp, FluidSensor, Geometry, Hcdf, HmiElement, Include, InertialSensor, OpticalSensor, Sensor,
    SensorCategory, SensorFov, Visual, VisualAppearance,
};
use crate::resource;
use crate::resource::{
    AssemblyKind, ConnectivityContainer, ConnectivityRepresentationOwner, JunctionKind, PathKind, PositionKind,
    ResourceSite, SensorGeometryKind, Slot,
};

verus! {

// Sites.

/// Whether a resource has an address and a digest.
pub open spec fn refers(uri: Option<String>, sha: Option<String>, s: Slot) -> bool {
    uri is Some && s.uri == uri->0@ && s.sha == resource::text_view(sha)
}

/// Whether a resource is the mesh of a geometry.
pub open spec fn is_mesh_of(x: Option<Geometry>, s: Slot) -> bool {
    x is Some && x->0.mesh is Some && refers(x->0.mesh->0.uri, x->0.mesh->0.sha, s)
}

/// Whether a resource is the model of a representation.
pub open spec fn is_model_of(x: Option<Representation>, s: Slot) -> bool {
    x is Some && (x->0.variant matches RepresentationChoice::Model(model) && s.uri == model.uri@ && s.sha
        == resource::text_view(model.sha))
}

/// The positions of a kind that a connector has.
pub open spec fn positions_of(x: Connector, kind: PositionKind) -> Seq<Position> {
    match kind {
        PositionKind::Pin => x.pin@,
        PositionKind::Socket => x.socket@,
        PositionKind::Contact => x.contact@,
        PositionKind::Fiber => x.fiber@,
        PositionKind::Passage => x.passage@,
        PositionKind::Feed => x.feed@,
        PositionKind::WaveguideOpening => x.waveguide_opening@,
    }
}

/// The paths of a kind that a component has.
pub open spec fn paths_of_comp(x: Comp, kind: PathKind) -> Seq<Path> {
    match kind {
        PathKind::Wire => x.wire@,
        PathKind::Conductor => x.conductor@,
        PathKind::CableMember => x.cable_member@,
        PathKind::Fiber => x.fiber@,
        PathKind::Coax => x.coax@,
        PathKind::Waveguide => x.waveguide@,
        PathKind::Feed => x.feed@,
        PathKind::Hose => x.hose@,
        PathKind::Pipe => x.pipe@,
        PathKind::Passage => x.passage@,
    }
}

/// The junctions of a kind that a component has.
pub open spec fn junctions_of_comp(x: Comp, kind: JunctionKind) -> Seq<Junction> {
    match kind {
        JunctionKind::Splice => x.splice@,
        JunctionKind::Tee => x.tee@,
        JunctionKind::Manifold => x.manifold@,
        JunctionKind::Busbar => x.busbar@,
        JunctionKind::OpticalSplitter => x.optical_splitter@,
    }
}

/// The paths of a kind that an assembly has.
pub open spec fn paths_of_assembly(x: Assembly, kind: PathKind) -> Seq<Path> {
    match kind {
        PathKind::Wire => x.wire@,
        PathKind::Conductor => x.conductor@,
        PathKind::CableMember => x.cable_member@,
        PathKind::Fiber => x.fiber@,
        PathKind::Coax => x.coax@,
        PathKind::Waveguide => x.waveguide@,
        PathKind::Feed => x.feed@,
        PathKind::Hose => x.hose@,
        PathKind::Pipe => x.pipe@,
        PathKind::Passage => x.passage@,
    }
}

/// The junctions of a kind that an assembly has.
pub open spec fn junctions_of_assembly(x: Assembly, kind: JunctionKind) -> Seq<Junction> {
    match kind {
        JunctionKind::Splice => x.splice@,
        JunctionKind::Tee => x.tee@,
        JunctionKind::Manifold => x.manifold@,
        JunctionKind::Busbar => x.busbar@,
        JunctionKind::OpticalSplitter => x.optical_splitter@,
    }
}

/// The assemblies of a kind that a document has.
pub open spec fn assemblies_of(x: Hcdf, kind: AssemblyKind) -> Seq<Assembly> {
    match kind {
        AssemblyKind::Harness => x.harness@,
        AssemblyKind::Cable => x.cable@,
        AssemblyKind::Plumbing => x.plumbing@,
        AssemblyKind::Umbilical => x.umbilical@,
    }
}

/// The categories of a kind that a sensor has, where they are of the common sort.
pub open spec fn categories_of(x: Sensor, kind: SensorGeometryKind) -> Seq<SensorCategory> {
    match kind {
        SensorGeometryKind::Em => x.em@,
        SensorGeometryKind::Rf => x.rf@,
        SensorGeometryKind::Chemical => x.chemical@,
        SensorGeometryKind::Force => x.force@,
        SensorGeometryKind::Encoder => x.encoder@,
        SensorGeometryKind::Temperature => x.temperature@,
        SensorGeometryKind::Radiation => x.radiation@,
        SensorGeometryKind::Audio => x.audio@,
        SensorGeometryKind::Tactile => x.tactile@,
        _ => Seq::empty(),
    }
}

/// Whether a sensor has a resource at a category of a kind, or at a field of view of it.
pub open spec fn is_in_sensor(
    x: Sensor,
    kind: SensorGeometryKind,
    j: usize,
    fov: Option<usize>,
    s: Slot,
) -> bool {
    match kind {
        SensorGeometryKind::Inertial => fov is None && j < x.inertial@.len() && is_mesh_of(
            x.inertial@[j as int].geometry,
            s,
        ),
        SensorGeometryKind::Optical => fov is None && j < x.optical@.len() && is_mesh_of(
            x.optical@[j as int].geometry,
            s,
        ),
        SensorGeometryKind::OpticalFov => fov is Some && j < x.optical@.len() && fov->0
            < x.optical@[j as int].fov@.len() && is_mesh_of(
            x.optical@[j as int].fov@[fov->0 as int].geometry,
            s,
        ),
        SensorGeometryKind::Fluid => fov is None && j < x.fluid@.len() && is_mesh_of(
            x.fluid@[j as int].geometry,
            s,
        ),
        _ => fov is None && j < categories_of(x, kind).len() && is_mesh_of(
            categories_of(x, kind)[j as int].geometry,
            s,
        ),
    }
}

/// Whether a connector of a list, or a position of it, has a resource as its model.
pub open spec fn is_in_connectors(
    list: Seq<Connector>,
    owner: ConnectivityRepresentationOwner,
    s: Slot,
) -> bool {
    match owner {
        ConnectivityRepresentationOwner::Connector { index, name } => index < list.len()
            && list[index as int].name == name && is_model_of(list[index as int].representation, s),
        ConnectivityRepresentationOwner::Position { connector_index, connector, kind, index, name } => {
            let c = list[connector_index as int];
            &&& connector_index < list.len()
            &&& c.name == connector
            &&& index < positions_of(c, kind).len()
            &&& positions_of(c, kind)[index as int].name == name
            &&& is_model_of(positions_of(c, kind)[index as int].representation, s)
        },
        _ => false,
    }
}

/// Whether a connectivity element of a component has a resource as its model.
pub open spec fn is_in_comp(x: Comp, owner: ConnectivityRepresentationOwner, s: Slot) -> bool {
    match owner {
        ConnectivityRepresentationOwner::Antenna { index, name } => index < x.antenna@.len()
            && x.antenna@[index as int].name == name && is_model_of(
            x.antenna@[index as int].representation,
            s,
        ),
        ConnectivityRepresentationOwner::Path { kind, index, name } => index < paths_of_comp(
            x,
            kind,
        ).len() && paths_of_comp(x, kind)[index as int].name == name && is_model_of(
            paths_of_comp(x, kind)[index as int].representation,
            s,
        ),
        ConnectivityRepresentationOwner::Junction { kind, index, name } => index < junctions_of_comp(
            x,
            kind,
        ).len() && junctions_of_comp(x, kind)[index as int].name == name && is_model_of(
            junctions_of_comp(x, kind)[index as int].representation,
            s,
        ),
        ConnectivityRepresentationOwner::Termination { index, name } => index < x.termination@.len()
            && x.termination@[index as int].name == name && is_model_of(
            x.termination@[index as int].representation,
            s,
        ),
        ConnectivityRepresentationOwner::Assembly => false,
        _ => is_in_connectors(x.connector@, owner, s),
    }
}

/// Whether an assembly, or an element of it, has a resource as its model.
pub open spec fn is_in_assembly(x: Assembly, owner: ConnectivityRepresentationOwner, s: Slot) -> bool {
    match owner {
        ConnectivityRepresentationOwner::Antenna { .. } => false,
        ConnectivityRepresentationOwner::Path { kind, index, name } => index < paths_of_assembly(
            x,
            kind,
        ).len() && paths_of_assembly(x, kind)[index as int].name == name && is_model_of(
            paths_of_assembly(x, kind)[index as int].representation,
            s,
        ),
        ConnectivityRepresentationOwner::Junction { kind, index, name } => index
            < junctions_of_assembly(x, kind).len() && junctions_of_assembly(x, kind)[index as int].name
            == name && is_model_of(junctions_of_assembly(x, kind)[index as int].representation, s),
        ConnectivityRepresentationOwner::Termination { index, name } => index < x.termination@.len()
            && x.termination@[index as int].name == name && is_model_of(
            x.termination@[index as int].representation,
            s,
        ),
        ConnectivityRepresentationOwner::Assembly => is_model_of(x.representation, s),
        _ => is_in_connectors(x.connector@, owner, s),
    }
}

/// Whether a component has a resource at a site that is no connectivity element of it.
pub open spec fn is_part_of_comp(x: Comp, s: Slot) -> bool {
    match s.site {
        ResourceSite::ComponentVisualModel { visual_index: j, visual, .. } => j < x.visual@.len()
            && x.visual@[j as int].name == visual && (
        x.visual@[j as int].appearance matches VisualAppearance::Model { model, .. } && refers(
            model.uri,
            model.sha,
            s,
        )),
        ResourceSite::ComponentCollisionMesh { collision_index: j, collision, .. } => {
            let c = x.collision@[j as int];
            &&& j < x.collision@.len()
            &&& c.name == collision
            &&& c.geometry is Some
            &&& c.geometry->0.mesh is Some
            &&& refers(c.geometry->0.mesh->0.uri, c.geometry->0.mesh->0.sha, s)
        },
        ResourceSite::SensorGeometryMesh { sensor_index: n, sensor, kind, category_index, fov_index, .. } => n
            < x.sensor@.len() && x.sensor@[n as int].name == sensor && is_in_sensor(
            x.sensor@[n as int],
            kind,
            category_index,
            fov_index,
            s,
        ),
        ResourceSite::HmiGeometryMesh { hmi_index: j, hmi, .. } => j < x.hmi@.len()
            && x.hmi@[j as int].name == hmi && is_mesh_of(x.hmi@[j as int].geometry, s),
        _ => false,
    }
}

/// The component that a site names, by its place and its name.
pub open spec fn component_of(site: ResourceSite) -> Option<(usize, String)> {
    match site {
        ResourceSite::ComponentVisualModel { component_index, component, .. } => Some(
            (component_index, component),
        ),
        ResourceSite::ComponentCollisionMesh { component_index, component, .. } => Some(
            (component_index, component),
        ),
        ResourceSite::SensorGeometryMesh { component_index, component, .. } => Some(
            (component_index, component),
        ),
        ResourceSite::HmiGeometryMesh { component_index, component, .. } => Some(
            (component_index, component),
        ),
        ResourceSite::ConnectivityModel {
            container: ConnectivityContainer::Component { component_index, component },
            ..
        } => Some((component_index, component)),
        _ => None,
    }
}

/// Whether a resource stands in a component, at its site.
pub open spec fn stands_in_comp(x: Comp, s: Slot) -> bool {
    match s.site {
        ResourceSite::ConnectivityModel { owner, .. } => is_in_comp(x, owner, s),
        _ => is_part_of_comp(x, s),
    }
}

/// Whether a resource stands in a document: its site leads to an element that has its address and digest.
pub open spec fn stands_in(doc: Hcdf, s: Slot) -> bool {
    match s.site {
        ResourceSite::IncludeDocument { index } => index < doc.includes@.len() && refers(
            doc.includes@[index as int].uri,
            doc.includes@[index as int].sha,
            s,
        ),
        ResourceSite::ConnectivityModel {
            container: ConnectivityContainer::Assembly { kind, assembly_index, assembly },
            owner,
        } => assembly_index < assemblies_of(doc, kind).len() && assemblies_of(
            doc,
            kind,
        )[assembly_index as int].name == assembly && is_in_assembly(
            assemblies_of(doc, kind)[assembly_index as int],
            owner,
            s,
        ),
        _ => component_of(s.site) matches Some((index, name)) && index < doc.comp@.len()
            && doc.comp@[index as int].name == name && stands_in_comp(doc.comp@[index as int], s),
    }
}

// Lists.

proof fn in_either(a: Seq<Slot>, b: Seq<Slot>, s: Slot)
    ensures
        (a + b).contains(s) <==> a.contains(s) || b.contains(s),
{
    if a.contains(s) {
        let i = a.index_of(s);
        assert((a + b)[i] == s);
    }
    if b.contains(s) {
        let i = b.index_of(s);
        assert((a + b)[a.len() + i] == s);
    }
    if (a + b).contains(s) {
        let i = (a + b).index_of(s);
        if i < a.len() {
            assert(a[i] == s);
        } else {
            assert(b[i - a.len()] == s);
        }
    }
}

proof fn in_flat(n: nat, at: spec_fn(int) -> Seq<Slot>, s: Slot)
    ensures
        resource::flat(n, at).contains(s) <==> exists|i: int| 0 <= i < n && (#[trigger] at(i)).contains(s),
    decreases n,
{
    if n > 0 {
        in_flat((n - 1) as nat, at, s);
        in_either(resource::flat((n - 1) as nat, at), at(n - 1), s);
    }
}

proof fn in_optional(site: ResourceSite, uri: Option<String>, sha: Option<String>, s: Slot)
    ensures
        resource::optional_slots(site, uri, sha).contains(s) <==> s.site == site && refers(uri, sha, s),
{
    let list = resource::optional_slots(site, uri, sha);
    if uri is Some {
        assert(list[0] == Slot { site, uri: uri->0@, sha: resource::text_view(sha) });
        if s.site == site && refers(uri, sha, s) {
            assert(list[0] == s);
        }
    }
}

proof fn in_geometry(x: Option<Geometry>, site: ResourceSite, s: Slot)
    ensures
        resource::geometry_slots(x, site).contains(s) <==> s.site == site && is_mesh_of(x, s),
{
    if let Some(g) = x {
        if let Some(mesh) = g.mesh {
            in_optional(site, mesh.uri, mesh.sha, s);
        }
    }
}

proof fn in_representation(
    x: Option<Representation>,
    container: ConnectivityContainer,
    owner: ConnectivityRepresentationOwner,
    s: Slot,
)
    ensures
        resource::representation_slots(x, container, owner).contains(s) <==> s.site == (
        ResourceSite::ConnectivityModel { container, owner }) && is_model_of(x, s),
{
    let list = resource::representation_slots(x, container, owner);
    if let Some(r) = x {
        if let RepresentationChoice::Model(model) = r.variant {
            assert(list[0].site == ResourceSite::ConnectivityModel { container, owner });
            if s.site == (ResourceSite::ConnectivityModel { container, owner }) && is_model_of(x, s) {
                assert(list[0] == s);
            }
        }
    }
}

spec fn is_inclusion(list: Seq<Include>, s: Slot) -> bool {
    s.site matches ResourceSite::IncludeDocument { index } && index < list.len() && refers(
        list[index as int].uri,
        list[index as int].sha,
        s,
    )
}

proof fn in_inclusions(list: Seq<Include>, s: Slot)
    requires
        list.len() <= usize::MAX,
    ensures
        resource::inclusions_slots(list).contains(s) <==> is_inclusion(list, s),
{
    let at = |i: int| resource::inclusion_slots(list[i], i as usize);
    in_flat(list.len(), at, s);
    assert(resource::inclusions_slots(list) == resource::flat(list.len(), at));
    if resource::inclusions_slots(list).contains(s) {
        let i = choose|i: int| 0 <= i < list.len() && (#[trigger] at(i)).contains(s);
        in_optional(ResourceSite::IncludeDocument { index: i as usize }, list[i].uri, list[i].sha, s);
    }
    if is_inclusion(list, s) {
        let i = (s.site->IncludeDocument_index) as int;
        in_optional(ResourceSite::IncludeDocument { index: i as usize }, list[i].uri, list[i].sha, s);
        assert(at(i).contains(s));
    }
}

spec fn is_visual(list: Seq<Visual>, k: usize, name: String, s: Slot) -> bool {
    s.site matches ResourceSite::ComponentVisualModel { component_index, component, visual_index: j, visual }
        && component_index == k && component == name && j < list.len() && list[j as int].name == visual && (
    list[j as int].appearance matches VisualAppearance::Model { model, .. } && refers(
        model.uri,
        model.sha,
        s,
    ))
}

proof fn in_visuals(list: Seq<Visual>, k: usize, name: String, s: Slot)
    requires
        list.len() <= usize::MAX,
    ensures
        resource::visuals_slots(list, k, name).contains(s) <==> is_visual(list, k, name, s),
{
    let at = |i: int| resource::visual_slots(list[i], k, name, i as usize);
    in_flat(list.len(), at, s);
    assert(resource::visuals_slots(list, k, name) == resource::flat(list.len(), at));
    if resource::visuals_slots(list, k, name).contains(s) {
        let i = choose|i: int| 0 <= i < list.len() && (#[trigger] at(i)).contains(s);
        if let VisualAppearance::Model { model, .. } = list[i].appearance {
            in_optional(
                ResourceSite::ComponentVisualModel {
                    component_index: k,
                    component: name,
                    visual_index: i as usize,
                    visual: list[i].name,
                },
                model.uri,
                model.sha,
                s,
            );
        }
    }
    if is_visual(list, k, name, s) {
        let i = (s.site->visual_index) as int;
        if let VisualAppearance::Model { model, .. } = list[i].appearance {
            in_optional(
                ResourceSite::ComponentVisualModel {
                    component_index: k,
                    component: name,
                    visual_index: i as usize,
                    visual: list[i].name,
                },
                model.uri,
                model.sha,
                s,
            );
        }
        assert(at(i).contains(s));
    }
}

spec fn is_collision(list: Seq<Collision>, k: usize, name: String, s: Slot) -> bool {
    s.site matches ResourceSite::ComponentCollisionMesh {
        component_index,
        component,
        collision_index: j,
        collision,
    } && component_index == k && component == name && j < list.len() && list[j as int].name == collision
        && list[j as int].geometry is Some && list[j as int].geometry->0.mesh is Some && refers(
        list[j as int].geometry->0.mesh->0.uri,
        list[j as int].geometry->0.mesh->0.sha,
        s,
    )
}

proof fn in_collisions(list: Seq<Collision>, k: usize, name: String, s: Slot)
    requires
        list.len() <= usize::MAX,
    ensures
        resource::collisions_slots(list, k, name).contains(s) <==> is_collision(list, k, name, s),
{
    let at = |i: int| resource::collision_slots(list[i], k, name, i as usize);
    in_flat(list.len(), at, s);
    assert(resource::collisions_slots(list, k, name) == resource::flat(list.len(), at));
    if resource::collisions_slots(list, k, name).contains(s) {
        let i = choose|i: int| 0 <= i < list.len() && (#[trigger] at(i)).contains(s);
        if let Some(g) = list[i].geometry {
            if let Some(mesh) = g.mesh {
                in_optional(
                    ResourceSite::ComponentCollisionMesh {
                        component_index: k,
                        component: name,
                        collision_index: i as usize,
                        collision: list[i].name,
                    },
                    mesh.uri,
                    mesh.sha,
                    s,
                );
            }
        }
    }
    if is_collision(list, k, name, s) {
        let i = (s.site->collision_index) as int;
        if let Some(g) = list[i].geometry {
            if let Some(mesh) = g.mesh {
                in_optional(
                    ResourceSite::ComponentCollisionMesh {
                        component_index: k,
                        component: name,
                        collision_index: i as usize,
                        collision: list[i].name,
                    },
                    mesh.uri,
                    mesh.sha,
                    s,
                );
            }
        }
        assert(at(i).contains(s));
    }
}

spec fn is_hmi(list: Seq<HmiElement>, k: usize, name: String, s: Slot) -> bool {
    s.site matches ResourceSite::HmiGeometryMesh { component_index, component, hmi_index: j, hmi }
        && component_index == k && component == name && j < list.len() && list[j as int].name == hmi
        && is_mesh_of(list[j as int].geometry, s)
}

proof fn in_hmis(list: Seq<HmiElement>, k: usize, name: String, s: Slot)
    requires
        list.len() <= usize::MAX,
    ensures
        resource::hmis_slots(list, k, name).contains(s) <==> is_hmi(list, k, name, s),
{
    let at = |i: int| resource::hmi_slots(list[i], k, name, i as usize);
    in_flat(list.len(), at, s);
    assert(resource::hmis_slots(list, k, name) == resource::flat(list.len(), at));
    if resource::hmis_slots(list, k, name).contains(s) {
        let i = choose|i: int| 0 <= i < list.len() && (#[trigger] at(i)).contains(s);
        in_geometry(
            list[i].geometry,
            ResourceSite::HmiGeometryMesh { component_index: k, component: name, hmi_index: i as usize, hmi: list[i].name },
            s,
        );
    }
    if is_hmi(list, k, name, s) {
        let i = (s.site->hmi_index) as int;
        in_geometry(
            list[i].geometry,
            ResourceSite::HmiGeometryMesh { component_index: k, component: name, hmi_index: i as usize, hmi: list[i].name },
            s,
        );
        assert(at(i).contains(s));
    }
}

spec fn is_of_sensor(k: usize, name: String, n: usize, sensor: Option<String>, s: Slot) -> bool {
    s.site is SensorGeometryMesh && component_of(s.site) == Some((k, name)) && s.site->sensor_index == n
        && s.site->sensor == sensor
}

spec fn is_inertial(list: Seq<InertialSensor>, k: usize, name: String, n: usize, sensor: Option<String>, s: Slot) -> bool {
    is_of_sensor(k, name, n, sensor, s) && s.site->kind == SensorGeometryKind::Inertial && s.site->fov_index is None
        && s.site->category_index < list.len() && is_mesh_of(
        list[s.site->category_index as int].geometry,
        s,
    )
}

proof fn in_inertials(list: Seq<InertialSensor>, k: usize, name: String, n: usize, sensor: Option<String>, s: Slot)
    requires
        list.len() <= usize::MAX,
    ensures
        resource::inertial_sensors_slots(list, k, name, n, sensor).contains(s) <==> is_inertial(list, k, name, n, sensor, s),
{
    let at = |i: int| resource::inertial_sensor_slots(list[i], k, name, n, sensor, i as usize);
    in_flat(list.len(), at, s);
    assert(resource::inertial_sensors_slots(list, k, name, n, sensor) == resource::flat(list.len(), at));
    if resource::inertial_sensors_slots(list, k, name, n, sensor).contains(s) {
        let i = choose|i: int| 0 <= i < list.len() && (#[trigger] at(i)).contains(s);
        in_geometry(
            list[i].geometry,
            ResourceSite::SensorGeometryMesh {
                component_index: k,
                component: name,
                sensor_index: n,
                sensor,
                kind: SensorGeometryKind::Inertial,
                category_index: i as usize,
                fov_index: None,
            },
            s,
        );
    }
    if is_inertial(list, k, name, n, sensor, s) {
        let i = (s.site->category_index) as int;
        in_geometry(
            list[i].geometry,
            ResourceSite::SensorGeometryMesh {
                component_index: k,
                component: name,
                sensor_index: n,
                sensor,
                kind: SensorGeometryKind::Inertial,
                category_index: i as usize,
                fov_index: None,
            },
            s,
        );
        assert(at(i).contains(s));
    }
}

spec fn is_category(list: Seq<SensorCategory>, k: usize, name: String, n: usize, sensor: Option<String>, kind: SensorGeometryKind, s: Slot) -> bool {
    is_of_sensor(k, name, n, sensor, s) && s.site->kind == kind && s.site->fov_index is None
        && s.site->category_index < list.len() && is_mesh_of(
        list[s.site->category_index as int].geometry,
        s,
    )
}

proof fn in_categories(list: Seq<SensorCategory>, k: usize, name: String, n: usize, sensor: Option<String>, kind: SensorGeometryKind, s: Slot)
    requires
        list.len() <= usize::MAX,
    ensures
        resource::sensor_categories_slots(list, k, name, n, sensor, kind).contains(s) <==> is_category(list, k, name, n, sensor, kind, s),
{
    let at = |i: int| resource::sensor_category_slots(list[i], k, name, n, sensor, kind, i as usize);
    in_flat(list.len(), at, s);
    assert(resource::sensor_categories_slots(list, k, name, n, sensor, kind) == resource::flat(list.len(), at));
    if resource::sensor_categories_slots(list, k, name, n, sensor, kind).contains(s) {
        let i = choose|i: int| 0 <= i < list.len() && (#[trigger] at(i)).contains(s);
        in_geometry(
            list[i].geometry,
            ResourceSite::SensorGeometryMesh {
                component_index: k,
                component: name,
                sensor_index: n,
                sensor,
                kind: kind,
                category_index: i as usize,
                fov_index: None,
            },
            s,
        );
    }
    if is_category(list, k, name, n, sensor, kind, s) {
        let i = (s.site->category_index) as int;
        in_geometry(
            list[i].geometry,
            ResourceSite::SensorGeometryMesh {
                component_index: k,
                component: name,
                sensor_index: n,
                sensor,
                kind: kind,
                category_index: i as usize,
                fov_index: None,
            },
            s,
        );
        assert(at(i).contains(s));
    }
}

spec fn is_fluid(list: Seq<FluidSensor>, k: usize, name: String, n: usize, sensor: Option<String>, s: Slot) -> bool {
    is_of_sensor(k, name, n, sensor, s) && s.site->kind == SensorGeometryKind::Fluid && s.site->fov_index is None
        && s.site->category_index < list.len() && is_mesh_of(
        list[s.site->category_index as int].geometry,
        s,
    )
}

proof fn in_fluids(list: Seq<FluidSensor>, k: usize, name: String, n: usize, sensor: Option<String>, s: Slot)
    requires
        list.len() <= usize::MAX,
    ensures
        resource::fluid_sensors_slots(list, k, name, n, sensor).contains(s) <==> is_fluid(list, k, name, n, sensor, s),
{
    let at = |i: int| resource::fluid_sensor_slots(list[i], k, name, n, sensor, i as usize);
    in_flat(list.len(), at, s);
    assert(resource::fluid_sensors_slots(list, k, name, n, sensor) == resource::flat(list.len(), at));
    if resource::fluid_sensors_slots(list, k, name, n, sensor).contains(s) {
        let i = choose|i: int| 0 <= i < list.len() && (#[trigger] at(i)).contains(s);
        in_geometry(
            list[i].geometry,
            ResourceSite::SensorGeometryMesh {
                component_index: k,
                component: name,
                sensor_index: n,
                sensor,
                kind: SensorGeometryKind::Fluid,
                category_index: i as usize,
                fov_index: None,
            },
            s,
        );
    }
    if is_fluid(list, k, name, n, sensor, s) {
        let i = (s.site->category_index) as int;
        in_geometry(
            list[i].geometry,
            ResourceSite::SensorGeometryMesh {
                component_index: k,
                component: name,
                sensor_index: n,
                sensor,
                kind: SensorGeometryKind::Fluid,
                category_index: i as usize,
                fov_index: None,
            },
            s,
        );
        assert(at(i).contains(s));
    }
}

spec fn is_fov(list: Seq<SensorFov>, k: usize, name: String, n: usize, sensor: Option<String>, j: usize, s: Slot) -> bool {
    is_of_sensor(k, name, n, sensor, s) && s.site->kind == SensorGeometryKind::OpticalFov && s.site->category_index == j && (
    s.site->fov_index matches Some(f) && f < list.len() && is_mesh_of(list[f as int].geometry, s))
}

proof fn in_fovs(list: Seq<SensorFov>, k: usize, name: String, n: usize, sensor: Option<String>, j: usize, s: Slot)
    requires
        list.len() <= usize::MAX,
    ensures
        resource::fovs_slots(list, k, name, n, sensor, j).contains(s) <==> is_fov(list, k, name, n, sensor, j, s),
{
    let at = |i: int| resource::fov_slots(list[i], k, name, n, sensor, j, i as usize);
    in_flat(list.len(), at, s);
    assert(resource::fovs_slots(list, k, name, n, sensor, j) == resource::flat(list.len(), at));
    if resource::fovs_slots(list, k, name, n, sensor, j).contains(s) {
        let i = choose|i: int| 0 <= i < list.len() && (#[trigger] at(i)).contains(s);
        in_geometry(
            list[i].geometry,
            ResourceSite::SensorGeometryMesh {
                component_index: k,
                component: name,
                sensor_index: n,
                sensor,
                kind: SensorGeometryKind::OpticalFov,
                category_index: j,
                fov_index: Some(i as usize),
            },
            s,
        );
    }
    if is_fov(list, k, name, n, sensor, j, s) {
        let i = (s.site->fov_index->0) as int;
        in_geometry(
            list[i].geometry,
            ResourceSite::SensorGeometryMesh {
                component_index: k,
                component: name,
                sensor_index: n,
                sensor,
                kind: SensorGeometryKind::OpticalFov,
                category_index: j,
                fov_index: Some(i as usize),
            },
            s,
        );
        assert(at(i).contains(s));
    }
}

spec fn is_optical(
    list: Seq<OpticalSensor>,
    k: usize,
    name: String,
    n: usize,
    sensor: Option<String>,
    s: Slot,
) -> bool {
    is_of_sensor(k, name, n, sensor, s) && s.site->category_index < list.len() && ({
        let x = list[s.site->category_index as int];
        ||| s.site->kind == SensorGeometryKind::Optical && s.site->fov_index is None && is_mesh_of(
            x.geometry,
            s,
        )
        ||| s.site->kind == SensorGeometryKind::OpticalFov && (s.site->fov_index matches Some(f) && f
            < x.fov@.len() && is_mesh_of(x.fov@[f as int].geometry, s))
    })
}

proof fn in_optical(
    x: OpticalSensor,
    k: usize,
    name: String,
    n: usize,
    sensor: Option<String>,
    j: usize,
    s: Slot,
)
    ensures
        resource::optical_sensor_slots(x, k, name, n, sensor, j).contains(s) <==> is_of_sensor(
            k,
            name,
            n,
            sensor,
            s,
        ) && s.site->category_index == j && ((s.site->kind == SensorGeometryKind::Optical
            && s.site->fov_index is None && is_mesh_of(x.geometry, s)) || (s.site->kind
            == SensorGeometryKind::OpticalFov && (s.site->fov_index matches Some(f) && f < x.fov@.len()
            && is_mesh_of(x.fov@[f as int].geometry, s)))),
{
    let site = resource::optical_site(k, name, n, sensor, j);
    assert(x.fov@.len() == x.fov.len());
    in_geometry(x.geometry, site, s);
    in_fovs(x.fov@, k, name, n, sensor, j, s);
    in_either(
        resource::geometry_slots(x.geometry, site),
        resource::fovs_slots(x.fov@, k, name, n, sensor, j),
        s,
    );
}

proof fn in_opticals(
    list: Seq<OpticalSensor>,
    k: usize,
    name: String,
    n: usize,
    sensor: Option<String>,
    s: Slot,
)
    requires
        list.len() <= usize::MAX,
    ensures
        resource::optical_sensors_slots(list, k, name, n, sensor).contains(s) <==> is_optical(
            list,
            k,
            name,
            n,
            sensor,
            s,
        ),
{
    let at = |i: int| resource::optical_sensor_slots(list[i], k, name, n, sensor, i as usize);
    in_flat(list.len(), at, s);
    assert(resource::optical_sensors_slots(list, k, name, n, sensor) == resource::flat(list.len(), at));
    if resource::optical_sensors_slots(list, k, name, n, sensor).contains(s) {
        let i = choose|i: int| 0 <= i < list.len() && (#[trigger] at(i)).contains(s);
        in_optical(list[i], k, name, n, sensor, i as usize, s);
    }
    if is_optical(list, k, name, n, sensor, s) {
        let i = (s.site->category_index) as int;
        in_optical(list[i], k, name, n, sensor, i as usize, s);
        assert(at(i).contains(s));
    }
}

proof fn in_sensor(x: Sensor, k: usize, name: String, n: usize, s: Slot)
    ensures
        resource::sensor_slots(x, k, name, n).contains(s) <==> is_of_sensor(k, name, n, x.name, s)
            && is_in_sensor(x, s.site->kind, s.site->category_index, s.site->fov_index, s),
{
    reveal(resource::sensor_slots);
    assert(x.inertial@.len() == x.inertial.len());
    assert(x.optical@.len() == x.optical.len());
    assert(x.fluid@.len() == x.fluid.len());
    in_inertials(x.inertial@, k, name, n, x.name, s);
    in_opticals(x.optical@, k, name, n, x.name, s);
    in_fluids(x.fluid@, k, name, n, x.name, s);
    assert(x.em@.len() == x.em.len());
    in_categories(x.em@, k, name, n, x.name, SensorGeometryKind::Em, s);
    assert(x.rf@.len() == x.rf.len());
    in_categories(x.rf@, k, name, n, x.name, SensorGeometryKind::Rf, s);
    assert(x.chemical@.len() == x.chemical.len());
    in_categories(x.chemical@, k, name, n, x.name, SensorGeometryKind::Chemical, s);
    assert(x.force@.len() == x.force.len());
    in_categories(x.force@, k, name, n, x.name, SensorGeometryKind::Force, s);
    assert(x.encoder@.len() == x.encoder.len());
    in_categories(x.encoder@, k, name, n, x.name, SensorGeometryKind::Encoder, s);
    assert(x.temperature@.len() == x.temperature.len());
    in_categories(x.temperature@, k, name, n, x.name, SensorGeometryKind::Temperature, s);
    assert(x.radiation@.len() == x.radiation.len());
    in_categories(x.radiation@, k, name, n, x.name, SensorGeometryKind::Radiation, s);
    assert(x.audio@.len() == x.audio.len());
    in_categories(x.audio@, k, name, n, x.name, SensorGeometryKind::Audio, s);
    assert(x.tactile@.len() == x.tactile.len());
    in_categories(x.tactile@, k, name, n, x.name, SensorGeometryKind::Tactile, s);
    let p0 = resource::inertial_sensors_slots(x.inertial@, k, name, n, x.name);
    let q1 = resource::sensor_categories_slots(x.em@, k, name, n, x.name, SensorGeometryKind::Em);
    in_either(p0, q1, s);
    let p1 = p0 + q1;
    let q2 = resource::optical_sensors_slots(x.optical@, k, name, n, x.name);
    in_either(p1, q2, s);
    let p2 = p1 + q2;
    let q3 = resource::sensor_categories_slots(x.rf@, k, name, n, x.name, SensorGeometryKind::Rf);
    in_either(p2, q3, s);
    let p3 = p2 + q3;
    let q4 = resource::sensor_categories_slots(x.chemical@, k, name, n, x.name, SensorGeometryKind::Chemical);
    in_either(p3, q4, s);
    let p4 = p3 + q4;
    let q5 = resource::sensor_categories_slots(x.force@, k, name, n, x.name, SensorGeometryKind::Force);
    in_either(p4, q5, s);
    let p5 = p4 + q5;
    let q6 = resource::sensor_categories_slots(x.encoder@, k, name, n, x.name, SensorGeometryKind::Encoder);
    in_either(p5, q6, s);
    let p6 = p5 + q6;
    let q7 = resource::sensor_categories_slots(x.temperature@, k, name, n, x.name, SensorGeometryKind::Temperature);
    in_either(p6, q7, s);
    let p7 = p6 + q7;
    let q8 = resource::sensor_categories_slots(x.radiation@, k, name, n, x.name, SensorGeometryKind::Radiation);
    in_either(p7, q8, s);
    let p8 = p7 + q8;
    let q9 = resource::sensor_categories_slots(x.audio@, k, name, n, x.name, SensorGeometryKind::Audio);
    in_either(p8, q9, s);
    let p9 = p8 + q9;
    let q10 = resource::sensor_categories_slots(x.tactile@, k, name, n, x.name, SensorGeometryKind::Tactile);
    in_either(p9, q10, s);
    let p10 = p9 + q10;
    let q11 = resource::fluid_sensors_slots(x.fluid@, k, name, n, x.name);
    in_either(p10, q11, s);
    let p11 = p10 + q11;
}

spec fn is_sensor(list: Seq<Sensor>, k: usize, name: String, s: Slot) -> bool {
    s.site is SensorGeometryMesh && component_of(s.site) == Some((k, name)) && s.site->sensor_index
        < list.len() && list[s.site->sensor_index as int].name == s.site->sensor && is_in_sensor(
        list[s.site->sensor_index as int],
        s.site->kind,
        s.site->category_index,
        s.site->fov_index,
        s,
    )
}

proof fn in_sensors(list: Seq<Sensor>, k: usize, name: String, s: Slot)
    requires
        list.len() <= usize::MAX,
    ensures
        resource::sensors_slots(list, k, name).contains(s) <==> is_sensor(list, k, name, s),
{
    let at = |i: int| resource::sensor_slots(list[i], k, name, i as usize);
    in_flat(list.len(), at, s);
    assert(resource::sensors_slots(list, k, name) == resource::flat(list.len(), at));
    if resource::sensors_slots(list, k, name).contains(s) {
        let i = choose|i: int| 0 <= i < list.len() && (#[trigger] at(i)).contains(s);
        in_sensor(list[i], k, name, i as usize, s);
    }
    if is_sensor(list, k, name, s) {
        let i = (s.site->sensor_index) as int;
        in_sensor(list[i], k, name, i as usize, s);
        assert(at(i).contains(s));
    }
}

// Connectivity.

spec fn is_at(container: ConnectivityContainer, s: Slot) -> bool {
    s.site is ConnectivityModel && s.site->container == container
}

spec fn is_position(list: Seq<Position>, container: ConnectivityContainer, c: usize, connector: String, kind: PositionKind, s: Slot) -> bool {
    is_at(container, s) && (s.site->owner matches ConnectivityRepresentationOwner::Position { connector_index, connector: of, kind: sort, index, name } && connector_index == c && of == connector && sort == kind && index < list.len()
        && list[index as int].name == name && is_model_of(list[index as int].representation, s))
}

proof fn in_positions(list: Seq<Position>, container: ConnectivityContainer, c: usize, connector: String, kind: PositionKind, s: Slot)
    requires
        list.len() <= usize::MAX,
    ensures
        resource::positions_slots(list, container, c, connector, kind).contains(s) <==> is_position(list, container, c, connector, kind, s),
{
    let at = |i: int| resource::position_slots(list[i], container, c, connector, kind, i as usize);
    in_flat(list.len(), at, s);
    assert(resource::positions_slots(list, container, c, connector, kind) == resource::flat(list.len(), at));
    if resource::positions_slots(list, container, c, connector, kind).contains(s) {
        let i = choose|i: int| 0 <= i < list.len() && (#[trigger] at(i)).contains(s);
        in_representation(
            list[i].representation,
            container,
            ConnectivityRepresentationOwner::Position {
                connector_index: c,
                connector,
                kind,
                index: i as usize,
                name: list[i].name,
            },
            s,
        );
    }
    if is_position(list, container, c, connector, kind, s) {
        let i = (s.site->owner->Position_index) as int;
        in_representation(
            list[i].representation,
            container,
            ConnectivityRepresentationOwner::Position {
                connector_index: c,
                connector,
                kind,
                index: i as usize,
                name: list[i].name,
            },
            s,
        );
        assert(at(i).contains(s));
    }
}

spec fn is_antenna(list: Seq<Antenna>, container: ConnectivityContainer, s: Slot) -> bool {
    is_at(container, s) && (s.site->owner matches ConnectivityRepresentationOwner::Antenna { index, name } && index < list.len()
        && list[index as int].name == name && is_model_of(list[index as int].representation, s))
}

proof fn in_antennas(list: Seq<Antenna>, container: ConnectivityContainer, s: Slot)
    requires
        list.len() <= usize::MAX,
    ensures
        resource::antennas_slots(list, container).contains(s) <==> is_antenna(list, container, s),
{
    let at = |i: int| resource::antenna_slots(list[i], container, i as usize);
    in_flat(list.len(), at, s);
    assert(resource::antennas_slots(list, container) == resource::flat(list.len(), at));
    if resource::antennas_slots(list, container).contains(s) {
        let i = choose|i: int| 0 <= i < list.len() && (#[trigger] at(i)).contains(s);
        in_representation(
            list[i].representation,
            container,
            ConnectivityRepresentationOwner::Antenna { index: i as usize, name: list[i].name },
            s,
        );
    }
    if is_antenna(list, container, s) {
        let i = (s.site->owner->Antenna_index) as int;
        in_representation(
            list[i].representation,
            container,
            ConnectivityRepresentationOwner::Antenna { index: i as usize, name: list[i].name },
            s,
        );
        assert(at(i).contains(s));
    }
}

spec fn is_path(list: Seq<Path>, container: ConnectivityContainer, kind: PathKind, s: Slot) -> bool {
    is_at(container, s) && (s.site->owner matches ConnectivityRepresentationOwner::Path { kind: sort, index, name } && sort == kind && index < list.len()
        && list[index as int].name == name && is_model_of(list[index as int].representation, s))
}

proof fn in_paths(list: Seq<Path>, container: ConnectivityContainer, kind: PathKind, s: Slot)
    requires
        list.len() <= usize::MAX,
    ensures
        resource::paths_slots(list, container, kind).contains(s) <==> is_path(list, container, kind, s),
{
    let at = |i: int| resource::path_slots(list[i], container, kind, i as usize);
    in_flat(list.len(), at, s);
    assert(resource::paths_slots(list, container, kind) == resource::flat(list.len(), at));
    if resource::paths_slots(list, container, kind).contains(s) {
        let i = choose|i: int| 0 <= i < list.len() && (#[trigger] at(i)).contains(s);
        in_representation(
            list[i].representation,
            container,
            ConnectivityRepresentationOwner::Path { kind, index: i as usize, name: list[i].name },
            s,
        );
    }
    if is_path(list, container, kind, s) {
        let i = (s.site->owner->Path_index) as int;
        in_representation(
            list[i].representation,
            container,
            ConnectivityRepresentationOwner::Path { kind, index: i as usize, name: list[i].name },
            s,
        );
        assert(at(i).contains(s));
    }
}

spec fn is_junction(list: Seq<Junction>, container: ConnectivityContainer, kind: JunctionKind, s: Slot) -> bool {
    is_at(container, s) && (s.site->owner matches ConnectivityRepresentationOwner::Junction { kind: sort, index, name } && sort == kind && index < list.len()
        && list[index as int].name == name && is_model_of(list[index as int].representation, s))
}

proof fn in_junctions(list: Seq<Junction>, container: ConnectivityContainer, kind: JunctionKind, s: Slot)
    requires
        list.len() <= usize::MAX,
    ensures
        resource::junctions_slots(list, container, kind).contains(s) <==> is_junction(list, container, kind, s),
{
    let at = |i: int| resource::junction_slots(list[i], container, kind, i as usize);
    in_flat(list.len(), at, s);
    assert(resource::junctions_slots(list, container, kind) == resource::flat(list.len(), at));
    if resource::junctions_slots(list, container, kind).contains(s) {
        let i = choose|i: int| 0 <= i < list.len() && (#[trigger] at(i)).contains(s);
        in_representation(
            list[i].representation,
            container,
            ConnectivityRepresentationOwner::Junction { kind, index: i as usize, name: list[i].name },
            s,
        );
    }
    if is_junction(list, container, kind, s) {
        let i = (s.site->owner->Junction_index) as int;
        in_representation(
            list[i].representation,
            container,
            ConnectivityRepresentationOwner::Junction { kind, index: i as usize, name: list[i].name },
            s,
        );
        assert(at(i).contains(s));
    }
}

spec fn is_termination(list: Seq<Termination>, container: ConnectivityContainer, s: Slot) -> bool {
    is_at(container, s) && (s.site->owner matches ConnectivityRepresentationOwner::Termination { index, name } && index < list.len()
        && list[index as int].name == name && is_model_of(list[index as int].representation, s))
}

proof fn in_terminations(list: Seq<Termination>, container: ConnectivityContainer, s: Slot)
    requires
        list.len() <= usize::MAX,
    ensures
        resource::terminations_slots(list, container).contains(s) <==> is_termination(list, container, s),
{
    let at = |i: int| resource::termination_slots(list[i], container, i as usize);
    in_flat(list.len(), at, s);
    assert(resource::terminations_slots(list, container) == resource::flat(list.len(), at));
    if resource::terminations_slots(list, container).contains(s) {
        let i = choose|i: int| 0 <= i < list.len() && (#[trigger] at(i)).contains(s);
        in_representation(
            list[i].representation,
            container,
            ConnectivityRepresentationOwner::Termination { index: i as usize, name: list[i].name },
            s,
        );
    }
    if is_termination(list, container, s) {
        let i = (s.site->owner->Termination_index) as int;
        in_representation(
            list[i].representation,
            container,
            ConnectivityRepresentationOwner::Termination { index: i as usize, name: list[i].name },
            s,
        );
        assert(at(i).contains(s));
    }
}

spec fn is_connector(x: Connector, container: ConnectivityContainer, index: usize, s: Slot) -> bool {
    is_at(container, s) && match s.site->owner {
        ConnectivityRepresentationOwner::Connector { index: i, name } => i == index && x.name == name && is_model_of(
            x.representation,
            s,
        ),
        ConnectivityRepresentationOwner::Position { connector_index, connector, kind, index: i, name } => {
            &&& connector_index == index
            &&& x.name == connector
            &&& i < positions_of(x, kind).len()
            &&& positions_of(x, kind)[i as int].name == name
            &&& is_model_of(positions_of(x, kind)[i as int].representation, s)
        },
        _ => false,
    }
}

proof fn in_connector(x: Connector, container: ConnectivityContainer, index: usize, s: Slot)
    ensures
        resource::connector_slots(x, container, index).contains(s) <==> is_connector(
            x,
            container,
            index,
            s,
        ),
{
    in_representation(
        x.representation,
        container,
        ConnectivityRepresentationOwner::Connector { index, name: x.name },
        s,
    );
    assert(x.pin@.len() == x.pin.len());
    in_positions(x.pin@, container, index, x.name, PositionKind::Pin, s);
    assert(x.socket@.len() == x.socket.len());
    in_positions(x.socket@, container, index, x.name, PositionKind::Socket, s);
    assert(x.contact@.len() == x.contact.len());
    in_positions(x.contact@, container, index, x.name, PositionKind::Contact, s);
    assert(x.fiber@.len() == x.fiber.len());
    in_positions(x.fiber@, container, index, x.name, PositionKind::Fiber, s);
    assert(x.passage@.len() == x.passage.len());
    in_positions(x.passage@, container, index, x.name, PositionKind::Passage, s);
    assert(x.feed@.len() == x.feed.len());
    in_positions(x.feed@, container, index, x.name, PositionKind::Feed, s);
    assert(x.waveguide_opening@.len() == x.waveguide_opening.len());
    in_positions(x.waveguide_opening@, container, index, x.name, PositionKind::WaveguideOpening, s);
    let p0 = resource::representation_slots(
        x.representation,
        container,
        ConnectivityRepresentationOwner::Connector { index, name: x.name },
    );
    let q1 = resource::positions_slots(x.pin@, container, index, x.name, PositionKind::Pin);
    in_either(p0, q1, s);
    let p1 = p0 + q1;
    let q2 = resource::positions_slots(x.socket@, container, index, x.name, PositionKind::Socket);
    in_either(p1, q2, s);
    let p2 = p1 + q2;
    let q3 = resource::positions_slots(x.contact@, container, index, x.name, PositionKind::Contact);
    in_either(p2, q3, s);
    let p3 = p2 + q3;
    let q4 = resource::positions_slots(x.fiber@, container, index, x.name, PositionKind::Fiber);
    in_either(p3, q4, s);
    let p4 = p3 + q4;
    let q5 = resource::positions_slots(x.passage@, container, index, x.name, PositionKind::Passage);
    in_either(p4, q5, s);
    let p5 = p4 + q5;
    let q6 = resource::positions_slots(x.feed@, container, index, x.name, PositionKind::Feed);
    in_either(p5, q6, s);
    let p6 = p5 + q6;
    let q7 = resource::positions_slots(x.waveguide_opening@, container, index, x.name, PositionKind::WaveguideOpening);
    in_either(p6, q7, s);
    let p7 = p6 + q7;
}

proof fn in_connectors(list: Seq<Connector>, container: ConnectivityContainer, s: Slot)
    requires
        list.len() <= usize::MAX,
    ensures
        resource::connectors_slots(list, container).contains(s) <==> is_at(container, s)
            && is_in_connectors(list, s.site->owner, s),
{
    let at = |i: int| resource::connector_slots(list[i], container, i as usize);
    in_flat(list.len(), at, s);
    assert(resource::connectors_slots(list, container) == resource::flat(list.len(), at));
    if resource::connectors_slots(list, container).contains(s) {
        let i = choose|i: int| 0 <= i < list.len() && (#[trigger] at(i)).contains(s);
        in_connector(list[i], container, i as usize, s);
    }
    if is_at(container, s) && is_in_connectors(list, s.site->owner, s) {
        let i: int = match s.site->owner {
            ConnectivityRepresentationOwner::Connector { index, .. } => index as int,
            ConnectivityRepresentationOwner::Position { connector_index, .. } => connector_index as int,
            _ => 0,
        };
        in_connector(list[i], container, i as usize, s);
        assert(at(i).contains(s));
    }
}

proof fn in_assembly(x: Assembly, kind: AssemblyKind, index: usize, s: Slot)
    ensures
        resource::assembly_slots(x, kind, index).contains(s) <==> is_at(
            resource::assembly_container(x.name, kind, index),
            s,
        ) && is_in_assembly(x, s.site->owner, s),
{
    reveal(resource::assembly_slots);
    let container = resource::assembly_container(x.name, kind, index);
    assert(x.connector@.len() == x.connector.len());
    in_connectors(x.connector@, container, s);
    in_representation(x.representation, container, ConnectivityRepresentationOwner::Assembly, s);
    assert(x.wire@.len() == x.wire.len());
    in_paths(x.wire@, container, PathKind::Wire, s);
    assert(x.conductor@.len() == x.conductor.len());
    in_paths(x.conductor@, container, PathKind::Conductor, s);
    assert(x.cable_member@.len() == x.cable_member.len());
    in_paths(x.cable_member@, container, PathKind::CableMember, s);
    assert(x.fiber@.len() == x.fiber.len());
    in_paths(x.fiber@, container, PathKind::Fiber, s);
    assert(x.coax@.len() == x.coax.len());
    in_paths(x.coax@, container, PathKind::Coax, s);
    assert(x.waveguide@.len() == x.waveguide.len());
    in_paths(x.waveguide@, container, PathKind::Waveguide, s);
    assert(x.feed@.len() == x.feed.len());
    in_paths(x.feed@, container, PathKind::Feed, s);
    assert(x.hose@.len() == x.hose.len());
    in_paths(x.hose@, container, PathKind::Hose, s);
    assert(x.pipe@.len() == x.pipe.len());
    in_paths(x.pipe@, container, PathKind::Pipe, s);
    assert(x.passage@.len() == x.passage.len());
    in_paths(x.passage@, container, PathKind::Passage, s);
    assert(x.splice@.len() == x.splice.len());
    in_junctions(x.splice@, container, JunctionKind::Splice, s);
    assert(x.tee@.len() == x.tee.len());
    in_junctions(x.tee@, container, JunctionKind::Tee, s);
    assert(x.manifold@.len() == x.manifold.len());
    in_junctions(x.manifold@, container, JunctionKind::Manifold, s);
    assert(x.busbar@.len() == x.busbar.len());
    in_junctions(x.busbar@, container, JunctionKind::Busbar, s);
    assert(x.optical_splitter@.len() == x.optical_splitter.len());
    in_junctions(x.optical_splitter@, container, JunctionKind::OpticalSplitter, s);
    assert(x.termination@.len() == x.termination.len());
    in_terminations(x.termination@, container, s);
    let p0 = resource::connectors_slots(x.connector@, container);
    let q1 = resource::paths_slots(x.wire@, container, PathKind::Wire);
    in_either(p0, q1, s);
    let p1 = p0 + q1;
    let q2 = resource::paths_slots(x.conductor@, container, PathKind::Conductor);
    in_either(p1, q2, s);
    let p2 = p1 + q2;
    let q3 = resource::paths_slots(x.cable_member@, container, PathKind::CableMember);
    in_either(p2, q3, s);
    let p3 = p2 + q3;
    let q4 = resource::paths_slots(x.fiber@, container, PathKind::Fiber);
    in_either(p3, q4, s);
    let p4 = p3 + q4;
    let q5 = resource::paths_slots(x.coax@, container, PathKind::Coax);
    in_either(p4, q5, s);
    let p5 = p4 + q5;
    let q6 = resource::paths_slots(x.waveguide@, container, PathKind::Waveguide);
    in_either(p5, q6, s);
    let p6 = p5 + q6;
    let q7 = resource::paths_slots(x.feed@, container, PathKind::Feed);
    in_either(p6, q7, s);
    let p7 = p6 + q7;
    let q8 = resource::paths_slots(x.hose@, container, PathKind::Hose);
    in_either(p7, q8, s);
    let p8 = p7 + q8;
    let q9 = resource::paths_slots(x.pipe@, container, PathKind::Pipe);
    in_either(p8, q9, s);
    let p9 = p8 + q9;
    let q10 = resource::paths_slots(x.passage@, container, PathKind::Passage);
    in_either(p9, q10, s);
    let p10 = p9 + q10;
    let q11 = resource::junctions_slots(x.splice@, container, JunctionKind::Splice);
    in_either(p10, q11, s);
    let p11 = p10 + q11;
    let q12 = resource::junctions_slots(x.tee@, container, JunctionKind::Tee);
    in_either(p11, q12, s);
    let p12 = p11 + q12;
    let q13 = resource::junctions_slots(x.manifold@, container, JunctionKind::Manifold);
    in_either(p12, q13, s);
    let p13 = p12 + q13;
    let q14 = resource::junctions_slots(x.busbar@, container, JunctionKind::Busbar);
    in_either(p13, q14, s);
    let p14 = p13 + q14;
    let q15 = resource::junctions_slots(x.optical_splitter@, container, JunctionKind::OpticalSplitter);
    in_either(p14, q15, s);
    let p15 = p14 + q15;
    let q16 = resource::terminations_slots(x.termination@, container);
    in_either(p15, q16, s);
    let p16 = p15 + q16;
    let q17 = resource::representation_slots(
        x.representation,
        container,
        ConnectivityRepresentationOwner::Assembly,
    );
    in_either(p16, q17, s);
    let p17 = p16 + q17;
}

spec fn is_assembly(list: Seq<Assembly>, kind: AssemblyKind, s: Slot) -> bool {
    s.site is ConnectivityModel && (s.site->container matches ConnectivityContainer::Assembly {
        kind: sort,
        assembly_index,
        assembly,
    } && sort == kind && assembly_index < list.len() && list[assembly_index as int].name == assembly
        && is_in_assembly(list[assembly_index as int], s.site->owner, s))
}

proof fn in_assemblies(list: Seq<Assembly>, kind: AssemblyKind, s: Slot)
    requires
        list.len() <= usize::MAX,
    ensures
        resource::assemblies_slots(list, kind).contains(s) <==> is_assembly(list, kind, s),
{
    let at = |i: int| resource::assembly_slots(list[i], kind, i as usize);
    in_flat(list.len(), at, s);
    assert(resource::assemblies_slots(list, kind) == resource::flat(list.len(), at));
    if resource::assemblies_slots(list, kind).contains(s) {
        let i = choose|i: int| 0 <= i < list.len() && (#[trigger] at(i)).contains(s);
        in_assembly(list[i], kind, i as usize, s);
    }
    if is_assembly(list, kind, s) {
        let i = (s.site->container->assembly_index) as int;
        in_assembly(list[i], kind, i as usize, s);
        assert(at(i).contains(s));
    }
}

proof fn in_comp(x: Comp, index: usize, s: Slot)
    ensures
        resource::comp_slots(x, index).contains(s) <==> component_of(s.site) == Some((index, x.name))
            && stands_in_comp(x, s),
{
    reveal(resource::comp_slots);
    let container = resource::component_container(x.name, index);
    assert(x.visual@.len() == x.visual.len());
    assert(x.collision@.len() == x.collision.len());
    assert(x.sensor@.len() == x.sensor.len());
    assert(x.hmi@.len() == x.hmi.len());
    assert(x.connector@.len() == x.connector.len());
    assert(x.antenna@.len() == x.antenna.len());
    in_visuals(x.visual@, index, x.name, s);
    in_collisions(x.collision@, index, x.name, s);
    in_sensors(x.sensor@, index, x.name, s);
    in_hmis(x.hmi@, index, x.name, s);
    in_connectors(x.connector@, container, s);
    in_antennas(x.antenna@, container, s);
    assert(x.wire@.len() == x.wire.len());
    in_paths(x.wire@, container, PathKind::Wire, s);
    assert(x.conductor@.len() == x.conductor.len());
    in_paths(x.conductor@, container, PathKind::Conductor, s);
    assert(x.cable_member@.len() == x.cable_member.len());
    in_paths(x.cable_member@, container, PathKind::CableMember, s);
    assert(x.fiber@.len() == x.fiber.len());
    in_paths(x.fiber@, container, PathKind::Fiber, s);
    assert(x.coax@.len() == x.coax.len());
    in_paths(x.coax@, container, PathKind::Coax, s);
    assert(x.waveguide@.len() == x.waveguide.len());
    in_paths(x.waveguide@, container, PathKind::Waveguide, s);
    assert(x.feed@.len() == x.feed.len());
    in_paths(x.feed@, container, PathKind::Feed, s);
    assert(x.hose@.len() == x.hose.len());
    in_paths(x.hose@, container, PathKind::Hose, s);
    assert(x.pipe@.len() == x.pipe.len());
    in_paths(x.pipe@, container, PathKind::Pipe, s);
    assert(x.passage@.len() == x.passage.len());
    in_paths(x.passage@, container, PathKind::Passage, s);
    assert(x.splice@.len() == x.splice.len());
    in_junctions(x.splice@, container, JunctionKind::Splice, s);
    assert(x.tee@.len() == x.tee.len());
    in_junctions(x.tee@, container, JunctionKind::Tee, s);
    assert(x.manifold@.len() == x.manifold.len());
    in_junctions(x.manifold@, container, JunctionKind::Manifold, s);
    assert(x.busbar@.len() == x.busbar.len());
    in_junctions(x.busbar@, container, JunctionKind::Busbar, s);
    assert(x.optical_splitter@.len() == x.optical_splitter.len());
    in_junctions(x.optical_splitter@, container, JunctionKind::OpticalSplitter, s);
    assert(x.termination@.len() == x.termination.len());
    in_terminations(x.termination@, container, s);
    let p0 = resource::visuals_slots(x.visual@, index, x.name);
    let q1 = resource::collisions_slots(x.collision@, index, x.name);
    in_either(p0, q1, s);
    let p1 = p0 + q1;
    let q2 = resource::sensors_slots(x.sensor@, index, x.name);
    in_either(p1, q2, s);
    let p2 = p1 + q2;
    let q3 = resource::hmis_slots(x.hmi@, index, x.name);
    in_either(p2, q3, s);
    let p3 = p2 + q3;
    let q4 = resource::connectors_slots(x.connector@, container);
    in_either(p3, q4, s);
    let p4 = p3 + q4;
    let q5 = resource::antennas_slots(x.antenna@, container);
    in_either(p4, q5, s);
    let p5 = p4 + q5;
    let q6 = resource::paths_slots(x.wire@, container, PathKind::Wire);
    in_either(p5, q6, s);
    let p6 = p5 + q6;
    let q7 = resource::paths_slots(x.conductor@, container, PathKind::Conductor);
    in_either(p6, q7, s);
    let p7 = p6 + q7;
    let q8 = resource::paths_slots(x.cable_member@, container, PathKind::CableMember);
    in_either(p7, q8, s);
    let p8 = p7 + q8;
    let q9 = resource::paths_slots(x.fiber@, container, PathKind::Fiber);
    in_either(p8, q9, s);
    let p9 = p8 + q9;
    let q10 = resource::paths_slots(x.coax@, container, PathKind::Coax);
    in_either(p9, q10, s);
    let p10 = p9 + q10;
    let q11 = resource::paths_slots(x.waveguide@, container, PathKind::Waveguide);
    in_either(p10, q11, s);
    let p11 = p10 + q11;
    let q12 = resource::paths_slots(x.feed@, container, PathKind::Feed);
    in_either(p11, q12, s);
    let p12 = p11 + q12;
    let q13 = resource::paths_slots(x.hose@, container, PathKind::Hose);
    in_either(p12, q13, s);
    let p13 = p12 + q13;
    let q14 = resource::paths_slots(x.pipe@, container, PathKind::Pipe);
    in_either(p13, q14, s);
    let p14 = p13 + q14;
    let q15 = resource::paths_slots(x.passage@, container, PathKind::Passage);
    in_either(p14, q15, s);
    let p15 = p14 + q15;
    let q16 = resource::junctions_slots(x.splice@, container, JunctionKind::Splice);
    in_either(p15, q16, s);
    let p16 = p15 + q16;
    let q17 = resource::junctions_slots(x.tee@, container, JunctionKind::Tee);
    in_either(p16, q17, s);
    let p17 = p16 + q17;
    let q18 = resource::junctions_slots(x.manifold@, container, JunctionKind::Manifold);
    in_either(p17, q18, s);
    let p18 = p17 + q18;
    let q19 = resource::junctions_slots(x.busbar@, container, JunctionKind::Busbar);
    in_either(p18, q19, s);
    let p19 = p18 + q19;
    let q20 = resource::junctions_slots(x.optical_splitter@, container, JunctionKind::OpticalSplitter);
    in_either(p19, q20, s);
    let p20 = p19 + q20;
    let q21 = resource::terminations_slots(x.termination@, container);
    in_either(p20, q21, s);
    let p21 = p20 + q21;
}

spec fn is_comp(list: Seq<Comp>, s: Slot) -> bool {
    component_of(s.site) matches Some((index, name)) && index < list.len() && list[index as int].name == name
        && stands_in_comp(list[index as int], s)
}

proof fn in_comps(list: Seq<Comp>, s: Slot)
    requires
        list.len() <= usize::MAX,
    ensures
        resource::comps_slots(list).contains(s) <==> is_comp(list, s),
{
    let at = |i: int| resource::comp_slots(list[i], i as usize);
    in_flat(list.len(), at, s);
    assert(resource::comps_slots(list) == resource::flat(list.len(), at));
    if resource::comps_slots(list).contains(s) {
        let i = choose|i: int| 0 <= i < list.len() && (#[trigger] at(i)).contains(s);
        in_comp(list[i], i as usize, s);
    }
    if is_comp(list, s) {
        let i = (component_of(s.site)->0).0 as int;
        in_comp(list[i], i as usize, s);
        assert(at(i).contains(s));
    }
}

/// A visit asks about exactly the resources that stand in a document, each at the site where it stands: its
/// inclusions, the models of its visuals, the meshes of its collisions, sensors and controls, and the models
/// of its connectors, positions, antennas, paths, junctions, terminations and assemblies.
pub proof fn a_visit_finds_every_resource(doc: Hcdf, s: Slot)
    ensures
        resource::document_slots(doc).contains(s) <==> stands_in(doc, s),
{
    assert(doc.includes@.len() == doc.includes.len());
    assert(doc.comp@.len() == doc.comp.len());
    assert(doc.harness@.len() == doc.harness.len());
    assert(doc.cable@.len() == doc.cable.len());
    assert(doc.plumbing@.len() == doc.plumbing.len());
    assert(doc.umbilical@.len() == doc.umbilical.len());
    in_inclusions(doc.includes@, s);
    in_comps(doc.comp@, s);
    in_assemblies(doc.harness@, AssemblyKind::Harness, s);
    in_assemblies(doc.cable@, AssemblyKind::Cable, s);
    in_assemblies(doc.plumbing@, AssemblyKind::Plumbing, s);
    in_assemblies(doc.umbilical@, AssemblyKind::Umbilical, s);
    let p0 = resource::inclusions_slots(doc.includes@);
    let q1 = resource::comps_slots(doc.comp@);
    in_either(p0, q1, s);
    let p1 = p0 + q1;
    let q2 = resource::assemblies_slots(doc.harness@, AssemblyKind::Harness);
    in_either(p1, q2, s);
    let p2 = p1 + q2;
    let q3 = resource::assemblies_slots(doc.cable@, AssemblyKind::Cable);
    in_either(p2, q3, s);
    let p3 = p2 + q3;
    let q4 = resource::assemblies_slots(doc.plumbing@, AssemblyKind::Plumbing);
    in_either(p3, q4, s);
    let p4 = p3 + q4;
    let q5 = resource::assemblies_slots(doc.umbilical@, AssemblyKind::Umbilical);
    in_either(p4, q5, s);
    let p5 = p4 + q5;
}

} // verus!
