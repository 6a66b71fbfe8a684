//! The resources that a document refers to, and rewriting them.
//!
//! A rewrite replaces the address and the digest of a resource together, so that neither is left from
//! another resource. Addresses that only describe where something came from are no resources, and
//! neither are parts of models that stand elsewhere.
use vstd::prelude::*;
use crate::text::clone_option;
use crate::model::connectivity_xml::{
    Antenna, Assembly, Connector, Junction, ModelRepresentation, Path, Position, Representation,
    RepresentationChoice, Termination,
};
use crate::model::{
    Collision, CollisionGeometry, Comp, FluidSensor, Geometry, Hcdf, HmiElement, Include,
    InertialSensor, Mesh, ModelRef, OpticalSensor, Sensor, SensorCategory, SensorFov, Visual,
    VisualAppearance,
};

verus! {

/// What a resource is: another document, or an asset that is not looked into.
#[derive(Debug, Clone, Copy, PartialEq, Eq, Hash)]
pub enum ResourceClass {
    Document,
    OpaqueAsset,
}

#[derive(Debug, Clone, Copy, PartialEq, Eq, Hash)]
pub enum AssemblyKind {
    Harness,
    Cable,
    Plumbing,
    Umbilical,
}

/// The component or assembly that a connectivity element belongs to.
#[derive(Debug, Clone, PartialEq, Eq, Hash)]
pub enum ConnectivityContainer {
    Component { component_index: usize, component: String },
    Assembly { kind: AssemblyKind, assembly_index: usize, assembly: String },
}

#[derive(Debug, Clone, Copy, PartialEq, Eq, Hash)]
pub enum PositionKind {
    Pin,
    Socket,
    Contact,
    Fiber,
    Passage,
    Feed,
    WaveguideOpening,
}

#[derive(Debug, Clone, Copy, PartialEq, Eq, Hash)]
pub enum PathKind {
    Wire,
    Conductor,
    CableMember,
    Fiber,
    Coax,
    Waveguide,
    Feed,
    Hose,
    Pipe,
    Passage,
}

#[derive(Debug, Clone, Copy, PartialEq, Eq, Hash)]
pub enum JunctionKind {
    Splice,
    Tee,
    Manifold,
    Busbar,
    OpticalSplitter,
}

/// The connectivity element that a model represents.
#[derive(Debug, Clone, PartialEq, Eq, Hash)]
pub enum ConnectivityRepresentationOwner {
    Connector { index: usize, name: String },
    Position {
        connector_index: usize,
        connector: String,
        kind: PositionKind,
        index: usize,
        name: String,
    },
    Antenna { index: usize, name: String },
    Path { kind: PathKind, index: usize, name: String },
    Junction { kind: JunctionKind, index: usize, name: String },
    Termination { index: usize, name: String },
    Assembly,
}

#[derive(Debug, Clone, Copy, PartialEq, Eq, Hash)]
pub enum SensorGeometryKind {
    Inertial,
    Em,
    Optical,
    OpticalFov,
    Rf,
    Chemical,
    Force,
    Encoder,
    Temperature,
    Radiation,
    Audio,
    Tactile,
    Fluid,
}

/// Where in a document a resource stands.
#[derive(Debug, Clone, PartialEq, Eq, Hash)]
pub enum ResourceSite {
    IncludeDocument { index: usize },
    ComponentVisualModel {
        component_index: usize,
        component: String,
        visual_index: usize,
        visual: String,
    },
    ComponentCollisionMesh {
        component_index: usize,
        component: String,
        collision_index: usize,
        collision: Option<String>,
    },
    SensorGeometryMesh {
        component_index: usize,
        component: String,
        sensor_index: usize,
        sensor: Option<String>,
        kind: SensorGeometryKind,
        category_index: usize,
        fov_index: Option<usize>,
    },
    HmiGeometryMesh {
        component_index: usize,
        component: String,
        hmi_index: usize,
        hmi: Option<String>,
    },
    ConnectivityModel {
        container: ConnectivityContainer,
        owner: ConnectivityRepresentationOwner,
    },
}

impl ResourceSite {
    /// What the resource at this site is.
    pub fn class(&self) -> (r: ResourceClass)
        ensures
            r == (if self is IncludeDocument {
                ResourceClass::Document
            } else {
                ResourceClass::OpaqueAsset
            }),
    {
        match self {
            ResourceSite::IncludeDocument { .. } => ResourceClass::Document,
            _ => ResourceClass::OpaqueAsset,
        }
    }
}

/// A reference to a resource: its address and its digest.
#[derive(Debug, Clone, Copy, PartialEq, Eq)]
pub struct ResourceReference<'a> {
    pub uri: &'a str,
    pub sha: Option<&'a str>,
}

/// What to do with a reference.
#[derive(Debug, Clone, PartialEq, Eq)]
pub enum ResourceRewrite {
    Keep,
    Replace { uri: String, sha: Option<String> },
}

// What a visit does.

/// A resource of a document: where it stands, its address and its digest.
pub struct Slot {
    pub site: ResourceSite,
    pub uri: Seq<char>,
    pub sha: Option<Seq<char>>,
}

/// What an optional text holds.
pub open spec fn text_view(text: Option<String>) -> Option<Seq<char>> {
    match text {
        Some(s) => Some(s@),
        None => None,
    }
}

/// Whether a reference shows the address and digest of a resource.
pub open spec fn shows(reference: ResourceReference<'_>, slot: Slot) -> bool {
    &&& reference.uri@ == slot.uri
    &&& match (reference.sha, slot.sha) {
        (Some(s), Some(sha)) => s@ == sha,
        (None, None) => true,
        _ => false,
    }
}

/// A resource once a rewrite has been applied to it.
pub open spec fn applied(slot: Slot, action: ResourceRewrite) -> Slot {
    match action {
        ResourceRewrite::Keep => slot,
        ResourceRewrite::Replace { uri, sha } => Slot {
            site: slot.site,
            uri: uri@,
            sha: text_view(sha),
        },
    }
}

/// Whether a visitor may be asked about every resource.
pub open spec fn accepts<
    E,
    F: FnMut(&ResourceSite, ResourceReference<'_>) -> Result<ResourceRewrite, E>,
>(f: F) -> bool {
    forall|site: &ResourceSite, reference: ResourceReference<'static>|
        #[trigger] call_requires(f, (site, reference))
}

/// Whether `answer` is what a visitor may answer to a reference to a resource.
pub open spec fn answers<
    E,
    F: FnMut(&ResourceSite, ResourceReference<'_>) -> Result<ResourceRewrite, E>,
>(f: F, slot: Slot, answer: Result<ResourceRewrite, E>) -> bool {
    exists|reference: ResourceReference<'static>|
        shows(reference, slot) && #[trigger] call_ensures(f, (&slot.site, reference), answer)
}

/// Whether a visitor may have turned one resource into the other.
pub open spec fn turns<
    E,
    F: FnMut(&ResourceSite, ResourceReference<'_>) -> Result<ResourceRewrite, E>,
>(f: F, slot: Slot, after: Slot) -> bool {
    exists|action: ResourceRewrite|
        #[trigger] answers(f, slot, Ok(action)) && after == applied(slot, action)
}

/// Whether a visitor that was asked about the first `k` resources turned them into others, was asked
/// about the next and refused with an error, and left that one and all that follow as they were.
pub open spec fn refuses_at<
    E,
    F: FnMut(&ResourceSite, ResourceReference<'_>) -> Result<ResourceRewrite, E>,
>(f: F, before: Seq<Slot>, after: Seq<Slot>, error: E, k: int) -> bool {
    &&& 0 <= k < before.len()
    &&& forall|i: int|
        #![trigger before[i]]
        #![trigger after[i]]
        0 <= i < k ==> turns(f, before[i], after[i])
    &&& answers(f, before[k], Err(error))
    &&& forall|i: int|
        #![trigger before[i]]
        #![trigger after[i]]
        k <= i < before.len() ==> after[i] == before[i]
}

/// Whether a visit of the resources `before` may leave them as `after`. A visit that has been stopped
/// by an error changes nothing. One that has not asks about each resource in turn, up to the first
/// error.
pub open spec fn walk<
    E,
    F: FnMut(&ResourceSite, ResourceReference<'_>) -> Result<ResourceRewrite, E>,
>(f: F, before: Seq<Slot>, after: Seq<Slot>, start: Option<E>, end: Option<E>) -> bool {
    &&& after.len() == before.len()
    &&& match start {
        Some(_) => end == start && after == before,
        None => match end {
            None => forall|i: int|
                #![trigger before[i]]
                #![trigger after[i]]
                0 <= i < before.len() ==> turns(f, before[i], after[i]),
            Some(error) => exists|k: int| #[trigger] refuses_at(f, before, after, error, k),
        },
    }
}

proof fn walk_nothing<
    E,
    F: FnMut(&ResourceSite, ResourceReference<'_>) -> Result<ResourceRewrite, E>,
>(f: F, start: Option<E>)
    ensures
        walk(f, Seq::empty(), Seq::empty(), start, start),
{
}

/// A visit of some resources and then of others is a visit of all of them.
pub proof fn walk_on<
    E,
    F: FnMut(&ResourceSite, ResourceReference<'_>) -> Result<ResourceRewrite, E>,
>(
    f: F,
    a: Seq<Slot>,
    x: Seq<Slot>,
    b: Seq<Slot>,
    y: Seq<Slot>,
    start: Option<E>,
    middle: Option<E>,
    end: Option<E>,
)
    requires
        walk(f, a, x, start, middle),
        walk(f, b, y, middle, end),
    ensures
        walk(f, a + b, x + y, start, end),
{
    let before = a + b;
    let after = x + y;
    if start is None {
        if middle is None {
            if let Some(error) = end {
                let k = choose|k: int| #[trigger] refuses_at(f, b, y, error, k);
                let at = a.len() + k;
                assert forall|i: int|
                    #![trigger before[i]]
                    #![trigger after[i]]
                    0 <= i < at implies turns(f, before[i], after[i]) by {
                    if i < a.len() {
                        assert(turns(f, a[i], x[i]));
                    } else {
                        assert(turns(f, b[i - a.len()], y[i - a.len()]));
                    }
                }
                assert forall|i: int|
                    #![trigger before[i]]
                    #![trigger after[i]]
                    at <= i < before.len() implies after[i] == before[i] by {
                    assert(y[i - a.len()] == b[i - a.len()]);
                }
                assert(before[at] == b[k]);
                assert(refuses_at(f, before, after, error, at));
            } else {
                assert forall|i: int|
                    #![trigger before[i]]
                    #![trigger after[i]]
                    0 <= i < before.len() implies turns(f, before[i], after[i]) by {
                    if i < a.len() {
                        assert(turns(f, a[i], x[i]));
                    } else {
                        assert(turns(f, b[i - a.len()], y[i - a.len()]));
                    }
                }
            }
        } else {
            let error = middle->0;
            let k = choose|k: int| #[trigger] refuses_at(f, a, x, error, k);
            assert forall|i: int|
                #![trigger before[i]]
                #![trigger after[i]]
                0 <= i < k implies turns(f, before[i], after[i]) by {
                assert(turns(f, a[i], x[i]));
            }
            assert forall|i: int|
                #![trigger before[i]]
                #![trigger after[i]]
                k <= i < before.len() implies after[i] == before[i] by {
                if i < a.len() {
                    assert(x[i] == a[i]);
                }
            }
            assert(before[k] == a[k]);
            assert(refuses_at(f, before, after, error, k));
        }
    }
}

/// The lists `at(0)` to `at(n - 1)` one after the other.
pub open spec fn flat(n: nat, at: spec_fn(int) -> Seq<Slot>) -> Seq<Slot>
    decreases n,
{
    if n == 0 {
        Seq::empty()
    } else {
        flat((n - 1) as nat, at) + at(n - 1)
    }
}

proof fn flat_is_local(n: nat, a: spec_fn(int) -> Seq<Slot>, b: spec_fn(int) -> Seq<Slot>)
    requires
        forall|i: int| 0 <= i < n ==> #[trigger] a(i) == b(i),
    ensures
        flat(n, a) == flat(n, b),
    decreases n,
{
    if n > 0 {
        flat_is_local((n - 1) as nat, a, b);
        assert(a(n - 1) == b(n - 1));
    }
}

/// The resource of an address that may be missing: without one there is none.
pub open spec fn optional_slots(site: ResourceSite, uri: Option<String>, sha: Option<String>) -> Seq<
    Slot,
> {
    match uri {
        Some(uri) => seq![Slot { site, uri: uri@, sha: text_view(sha) }],
        None => Seq::empty(),
    }
}

fn slice_of(text: &Option<String>) -> (r: Option<&str>)
    ensures
        match (r, text_view(*text)) {
            (Some(s), Some(t)) => s@ == t,
            (None, None) => true,
            _ => false,
        },
{
    match text {
        Some(s) => Some(s.as_str()),
        None => None,
    }
}

/// Asks a visitor about a resource.
fn ask<E, F: FnMut(&ResourceSite, ResourceReference<'_>) -> Result<ResourceRewrite, E>>(
    site: &ResourceSite,
    uri: &String,
    sha: &Option<String>,
    visitor: &mut F,
) -> (r: Result<ResourceRewrite, E>)
    requires
        accepts(*old(visitor)),
    ensures
        *final(visitor) == *old(visitor),
        answers(
            *old(visitor),
            Slot { site: *site, uri: uri@, sha: text_view(*sha) },
            r,
        ),
{
    let reference = ResourceReference { uri: uri.as_str(), sha: slice_of(sha) };
    let ghost slot = Slot { site: *site, uri: uri@, sha: text_view(*sha) };
    let ghost f = *visitor;
    assert(call_requires(f, (site, reference)));
    let answer = visitor(site, reference);
    assert(shows(reference, slot));
    assert(call_ensures(f, (&slot.site, reference), answer));
    answer
}

/// Visits a resource whose address may be missing.
fn visit_optional<E, F: FnMut(&ResourceSite, ResourceReference<'_>) -> Result<ResourceRewrite, E>>(
    site: &ResourceSite,
    uri: &mut Option<String>,
    sha: &mut Option<String>,
    visitor: &mut F,
    stop: &mut Option<E>,
)
    requires
        accepts(*old(visitor)),
    ensures
        walk(
            *old(visitor),
            optional_slots(*site, *old(uri), *old(sha)),
            optional_slots(*site, *final(uri), *final(sha)),
            *old(stop),
            *final(stop),
        ),
        *final(visitor) == *old(visitor),
        *old(uri) is None ==> *final(uri) == *old(uri) && *final(sha) == *old(sha),
{
    if stop.is_some() {
        return;
    }
    let ghost f = *visitor;
    let ghost before = optional_slots(*site, *uri, *sha);
    let answer = match &*uri {
        None => {
            return;
        },
        Some(current) => ask(site, current, &*sha, visitor),
    };
    match answer {
        Err(error) => {
            *stop = Some(error);
            proof {
                let after = optional_slots(*site, *uri, *sha);
                assert(after =~= before);
                assert(*stop == Some(error));
                assert(refuses_at(f, before, after, (*stop)->0, 0int));
                assert(exists|k: int| #[trigger] refuses_at(f, before, after, (*stop)->0, k));
                assert(walk(f, before, after, None, *stop));
            }
        },
        Ok(ResourceRewrite::Keep) => {
            proof {
                let after = optional_slots(*site, *uri, *sha);
                assert(answers(f, before[0], Ok(ResourceRewrite::Keep)));
                assert(turns(f, before[0], after[0]));
                assert(walk(f, before, after, None, *stop));
            }
        },
        Ok(ResourceRewrite::Replace { uri: next_uri, sha: next_sha }) => {
            let ghost action = ResourceRewrite::Replace { uri: next_uri, sha: next_sha };
            *uri = Some(next_uri);
            *sha = next_sha;
            proof {
                let after = optional_slots(*site, *uri, *sha);
                assert(answers(f, before[0], Ok(action)));
                assert(after[0] == applied(before[0], action));
                assert(turns(f, before[0], after[0]));
                assert(walk(f, before, after, None, *stop));
            }
        },
    }
}

/// The resources of an included document.
pub open spec fn inclusion_slots(x: Include, index: usize) -> Seq<Slot> {
    optional_slots(ResourceSite::IncludeDocument { index }, x.uri, x.sha)
}

/// Whether an included document is the same but for the addresses and digests of its resources.
pub open spec fn keeps_inclusion(x: Include, y: Include) -> bool {
    y == (Include { uri: y.uri, sha: y.sha, ..x }) && (x.uri is None ==> y == x)
}

fn visit_inclusion<E, F: FnMut(&ResourceSite, ResourceReference<'_>) -> Result<ResourceRewrite, E>>(
    x: &mut Include,
    index: usize,
    visitor: &mut F,
    stop: &mut Option<E>,
)
    requires
        accepts(*old(visitor)),
    ensures
        walk(
            *old(visitor),
            inclusion_slots(*old(x), index),
            inclusion_slots(*final(x), index),
            *old(stop),
            *final(stop),
        ),
        *final(visitor) == *old(visitor),
        keeps_inclusion(*old(x), *final(x)),
{
    let site = ResourceSite::IncludeDocument { index };
    visit_optional(&site, &mut x.uri, &mut x.sha, visitor, stop);
}

/// The resources of included documents.
pub open spec fn inclusions_slots(list: Seq<Include>) -> Seq<Slot> {
    flat(list.len(), |i: int| inclusion_slots(list[i], i as usize))
}

/// Whether included documents are the same but for the addresses and digests of their resources.
pub open spec fn keeps_inclusions(a: Seq<Include>, b: Seq<Include>) -> bool {
    a.len() == b.len() && forall|i: int|
        #![trigger a[i]]
        #![trigger b[i]]
        0 <= i < a.len() ==> keeps_inclusion(a[i], b[i])
}

fn visit_inclusions<E, F: FnMut(&ResourceSite, ResourceReference<'_>) -> Result<ResourceRewrite, E>>(
    list: &mut Vec<Include>,
    visitor: &mut F,
    stop: &mut Option<E>,
)
    requires
        accepts(*old(visitor)),
    ensures
        walk(
            *old(visitor),
            inclusions_slots(old(list)@),
            inclusions_slots(final(list)@),
            *old(stop),
            *final(stop),
        ),
        *final(visitor) == *old(visitor),
        keeps_inclusions(old(list)@, final(list)@),
{
    let ghost start = list@;
    let ghost f = *visitor;
    let ghost first = *stop;
    let ghost before = |i: int| inclusion_slots(start[i], i as usize);
    let n: usize = list.len();
    let mut i: usize = 0;
    proof {
        walk_nothing(f, first);
    }
    while i < n
        invariant
            i <= n == start.len() == list@.len(),
            accepts(f),
            *visitor == f,
            before == (|i: int| inclusion_slots(start[i], i as usize)),
            walk(
                f,
                flat(i as nat, before),
                flat(i as nat, |i: int| inclusion_slots(list@[i], i as usize)),
                first,
                *stop,
            ),
            forall|k: int|
                #![trigger start[k]]
                #![trigger list@[k]]
                0 <= k < i ==> keeps_inclusion(start[k], list@[k]),
            forall|k: int| i <= k < n ==> list@[k] == start[k],
        decreases n - i,
    {
        let ghost had = list@;
        let ghost reached = *stop;
        let ghost done = |i: int| inclusion_slots(had[i], i as usize);
        visit_inclusion(&mut list[i], i, visitor, stop);
        proof {
            let now = |i: int| inclusion_slots(list@[i], i as usize);
            assert(list@ =~= had.update(i as int, list@[i as int]));
            flat_is_local(i as nat, done, now);
            walk_on(
                f,
                flat(i as nat, before),
                flat(i as nat, now),
                before(i as int),
                now(i as int),
                first,
                reached,
                *stop,
            );
        }
        i += 1;
    }
    proof {
        assert(keeps_inclusions(start, list@));
    }
}

/// The resources of a mesh.
pub open spec fn mesh_slots(x: Option<Mesh>, site: ResourceSite) -> Seq<Slot> {
    match x {
        Some(mesh) => optional_slots(site, mesh.uri, mesh.sha),
        None => Seq::empty(),
    }
}

/// Whether a mesh is the same but for the addresses and digests of its resources.
pub open spec fn keeps_mesh(x: Option<Mesh>, y: Option<Mesh>) -> bool {
    match (x, y) {
        (Some(a), Some(b)) => b == (Mesh { uri: b.uri, sha: b.sha, ..a }) && (a.uri is None ==> b
            == a),
        (None, None) => true,
        _ => false,
    }
}

fn visit_mesh<E, F: FnMut(&ResourceSite, ResourceReference<'_>) -> Result<ResourceRewrite, E>>(
    x: &mut Option<Mesh>,
    site: &ResourceSite,
    visitor: &mut F,
    stop: &mut Option<E>,
)
    requires
        accepts(*old(visitor)),
    ensures
        walk(
            *old(visitor),
            mesh_slots(*old(x), *site),
            mesh_slots(*final(x), *site),
            *old(stop),
            *final(stop),
        ),
        *final(visitor) == *old(visitor),
        keeps_mesh(*old(x), *final(x)),
{
    match x {
        Some(mesh) => visit_optional(site, &mut mesh.uri, &mut mesh.sha, visitor, stop),
        None => {
            proof {
                walk_nothing(*visitor, *stop);
            }
        },
    }
}

/// The resources of a geometry.
pub open spec fn geometry_slots(x: Option<Geometry>, site: ResourceSite) -> Seq<Slot> {
    match x {
        Some(geometry) => mesh_slots(geometry.mesh, site),
        None => Seq::empty(),
    }
}

/// Whether a geometry is the same but for the addresses and digests of its resources.
pub open spec fn keeps_geometry(x: Option<Geometry>, y: Option<Geometry>) -> bool {
    match (x, y) {
        (Some(a), Some(b)) => b == (Geometry { mesh: b.mesh, ..a }) && keeps_mesh(a.mesh, b.mesh),
        (None, None) => true,
        _ => false,
    }
}

fn visit_geometry<E, F: FnMut(&ResourceSite, ResourceReference<'_>) -> Result<ResourceRewrite, E>>(
    x: &mut Option<Geometry>,
    site: &ResourceSite,
    visitor: &mut F,
    stop: &mut Option<E>,
)
    requires
        accepts(*old(visitor)),
    ensures
        walk(
            *old(visitor),
            geometry_slots(*old(x), *site),
            geometry_slots(*final(x), *site),
            *old(stop),
            *final(stop),
        ),
        *final(visitor) == *old(visitor),
        keeps_geometry(*old(x), *final(x)),
{
    match x {
        Some(geometry) => visit_mesh(&mut geometry.mesh, site, visitor, stop),
        None => {
            proof {
                walk_nothing(*visitor, *stop);
            }
        },
    }
}

/// The resources of the geometry of a collision.
pub open spec fn collision_geometry_slots(x: Option<CollisionGeometry>, site: ResourceSite) -> Seq<Slot> {
    match x {
        Some(geometry) => mesh_slots(geometry.mesh, site),
        None => Seq::empty(),
    }
}

/// Whether the geometry of a collision is the same but for the addresses and digests of its resources.
pub open spec fn keeps_collision_geometry(x: Option<CollisionGeometry>, y: Option<CollisionGeometry>) -> bool {
    match (x, y) {
        (Some(a), Some(b)) => b == (CollisionGeometry { mesh: b.mesh, ..a }) && keeps_mesh(a.mesh, b.mesh),
        (None, None) => true,
        _ => false,
    }
}

fn visit_collision_geometry<E, F: FnMut(&ResourceSite, ResourceReference<'_>) -> Result<ResourceRewrite, E>>(
    x: &mut Option<CollisionGeometry>,
    site: &ResourceSite,
    visitor: &mut F,
    stop: &mut Option<E>,
)
    requires
        accepts(*old(visitor)),
    ensures
        walk(
            *old(visitor),
            collision_geometry_slots(*old(x), *site),
            collision_geometry_slots(*final(x), *site),
            *old(stop),
            *final(stop),
        ),
        *final(visitor) == *old(visitor),
        keeps_collision_geometry(*old(x), *final(x)),
{
    match x {
        Some(geometry) => visit_mesh(&mut geometry.mesh, site, visitor, stop),
        None => {
            proof {
                walk_nothing(*visitor, *stop);
            }
        },
    }
}

/// The resources of a visual.
pub open spec fn visual_slots(x: Visual, component_index: usize, component: String, index: usize) -> Seq<Slot> {
    match x.appearance {
        VisualAppearance::Model { model, .. } => optional_slots(
            ResourceSite::ComponentVisualModel {
                component_index,
                component,
                visual_index: index,
                visual: x.name,
            },
            model.uri,
            model.sha,
        ),
        VisualAppearance::Primitive { .. } => Seq::empty(),
    }
}

/// Whether a visual is the same but for the addresses and digests of its resources.
pub open spec fn keeps_visual(x: Visual, y: Visual) -> bool {
    &&& y == (Visual { appearance: y.appearance, ..x })
    &&& match (x.appearance, y.appearance) {
        (
            VisualAppearance::Model { model: a, geometry: g },
            VisualAppearance::Model { model: b, geometry: h },
        ) => g == h && b == (ModelRef { uri: b.uri, sha: b.sha, ..a }) && (a.uri is None ==> b == a),
        (VisualAppearance::Primitive { .. }, _) => y == x,
        _ => false,
    }
}

fn visit_visual<E, F: FnMut(&ResourceSite, ResourceReference<'_>) -> Result<ResourceRewrite, E>>(
    x: &mut Visual,
    component_index: usize,
    component: &String,
    index: usize,
    visitor: &mut F,
    stop: &mut Option<E>,
)
    requires
        accepts(*old(visitor)),
    ensures
        walk(
            *old(visitor),
            visual_slots(*old(x), component_index, *component, index),
            visual_slots(*final(x), component_index, *component, index),
            *old(stop),
            *final(stop),
        ),
        *final(visitor) == *old(visitor),
        keeps_visual(*old(x), *final(x)),
{
    let site = ResourceSite::ComponentVisualModel {
        component_index,
        component: component.clone(),
        visual_index: index,
        visual: x.name.clone(),
    };
    match &mut x.appearance {
        VisualAppearance::Model { model, .. } => visit_optional(
            &site,
            &mut model.uri,
            &mut model.sha,
            visitor,
            stop,
        ),
        VisualAppearance::Primitive { .. } => {
            proof {
                walk_nothing(*visitor, *stop);
            }
        },
    }
}

/// The resources of visuals.
pub open spec fn visuals_slots(list: Seq<Visual>, component_index: usize, component: String) -> Seq<Slot> {
    flat(list.len(), |i: int| visual_slots(list[i], component_index, component, i as usize))
}

/// Whether visuals are the same but for the addresses and digests of their resources.
pub open spec fn keeps_visuals(a: Seq<Visual>, b: Seq<Visual>) -> bool {
    a.len() == b.len() && forall|i: int|
        #![trigger a[i]]
        #![trigger b[i]]
        0 <= i < a.len() ==> keeps_visual(a[i], b[i])
}

fn visit_visuals<E, F: FnMut(&ResourceSite, ResourceReference<'_>) -> Result<ResourceRewrite, E>>(
    list: &mut Vec<Visual>,
    component_index: usize,
    component: &String,
    visitor: &mut F,
    stop: &mut Option<E>,
)
    requires
        accepts(*old(visitor)),
    ensures
        walk(
            *old(visitor),
            visuals_slots(old(list)@, component_index, *component),
            visuals_slots(final(list)@, component_index, *component),
            *old(stop),
            *final(stop),
        ),
        *final(visitor) == *old(visitor),
        keeps_visuals(old(list)@, final(list)@),
{
    let ghost start = list@;
    let ghost f = *visitor;
    let ghost first = *stop;
    let ghost before = |i: int| visual_slots(start[i], component_index, *component, i as usize);
    let n: usize = list.len();
    let mut i: usize = 0;
    proof {
        walk_nothing(f, first);
    }
    while i < n
        invariant
            i <= n == start.len() == list@.len(),
            accepts(f),
            *visitor == f,
            before == (|i: int| visual_slots(start[i], component_index, *component, i as usize)),
            walk(
                f,
                flat(i as nat, before),
                flat(i as nat, |i: int| visual_slots(list@[i], component_index, *component, i as usize)),
                first,
                *stop,
            ),
            forall|k: int|
                #![trigger start[k]]
                #![trigger list@[k]]
                0 <= k < i ==> keeps_visual(start[k], list@[k]),
            forall|k: int| i <= k < n ==> list@[k] == start[k],
        decreases n - i,
    {
        let ghost had = list@;
        let ghost reached = *stop;
        let ghost done = |i: int| visual_slots(had[i], component_index, *component, i as usize);
        visit_visual(&mut list[i], component_index, component, i, visitor, stop);
        proof {
            let now = |i: int| visual_slots(list@[i], component_index, *component, i as usize);
            assert(list@ =~= had.update(i as int, list@[i as int]));
            flat_is_local(i as nat, done, now);
            walk_on(
                f,
                flat(i as nat, before),
                flat(i as nat, now),
                before(i as int),
                now(i as int),
                first,
                reached,
                *stop,
            );
        }
        i += 1;
    }
    proof {
        assert(keeps_visuals(start, list@));
    }
}

/// The resources of a collision.
pub open spec fn collision_slots(x: Collision, component_index: usize, component: String, index: usize) -> Seq<Slot> {
    collision_geometry_slots(
        x.geometry,
        ResourceSite::ComponentCollisionMesh {
            component_index,
            component,
            collision_index: index,
            collision: x.name,
        },
    )
}

/// Whether a collision is the same but for the addresses and digests of its resources.
pub open spec fn keeps_collision(x: Collision, y: Collision) -> bool {
    y == (Collision { geometry: y.geometry, ..x }) && keeps_collision_geometry(x.geometry, y.geometry)
}

fn visit_collision<E, F: FnMut(&ResourceSite, ResourceReference<'_>) -> Result<ResourceRewrite, E>>(
    x: &mut Collision,
    component_index: usize,
    component: &String,
    index: usize,
    visitor: &mut F,
    stop: &mut Option<E>,
)
    requires
        accepts(*old(visitor)),
    ensures
        walk(
            *old(visitor),
            collision_slots(*old(x), component_index, *component, index),
            collision_slots(*final(x), component_index, *component, index),
            *old(stop),
            *final(stop),
        ),
        *final(visitor) == *old(visitor),
        keeps_collision(*old(x), *final(x)),
{
    let site = ResourceSite::ComponentCollisionMesh {
        component_index,
        component: component.clone(),
        collision_index: index,
        collision: clone_option(&x.name),
    };
    visit_collision_geometry(&mut x.geometry, &site, visitor, stop);
}

/// The resources of collisions.
pub open spec fn collisions_slots(list: Seq<Collision>, component_index: usize, component: String) -> Seq<Slot> {
    flat(list.len(), |i: int| collision_slots(list[i], component_index, component, i as usize))
}

/// Whether collisions are the same but for the addresses and digests of their resources.
pub open spec fn keeps_collisions(a: Seq<Collision>, b: Seq<Collision>) -> bool {
    a.len() == b.len() && forall|i: int|
        #![trigger a[i]]
        #![trigger b[i]]
        0 <= i < a.len() ==> keeps_collision(a[i], b[i])
}

fn visit_collisions<E, F: FnMut(&ResourceSite, ResourceReference<'_>) -> Result<ResourceRewrite, E>>(
    list: &mut Vec<Collision>,
    component_index: usize,
    component: &String,
    visitor: &mut F,
    stop: &mut Option<E>,
)
    requires
        accepts(*old(visitor)),
    ensures
        walk(
            *old(visitor),
            collisions_slots(old(list)@, component_index, *component),
            collisions_slots(final(list)@, component_index, *component),
            *old(stop),
            *final(stop),
        ),
        *final(visitor) == *old(visitor),
        keeps_collisions(old(list)@, final(list)@),
{
    let ghost start = list@;
    let ghost f = *visitor;
    let ghost first = *stop;
    let ghost before = |i: int| collision_slots(start[i], component_index, *component, i as usize);
    let n: usize = list.len();
    let mut i: usize = 0;
    proof {
        walk_nothing(f, first);
    }
    while i < n
        invariant
            i <= n == start.len() == list@.len(),
            accepts(f),
            *visitor == f,
            before == (|i: int| collision_slots(start[i], component_index, *component, i as usize)),
            walk(
                f,
                flat(i as nat, before),
                flat(i as nat, |i: int| collision_slots(list@[i], component_index, *component, i as usize)),
                first,
                *stop,
            ),
            forall|k: int|
                #![trigger start[k]]
                #![trigger list@[k]]
                0 <= k < i ==> keeps_collision(start[k], list@[k]),
            forall|k: int| i <= k < n ==> list@[k] == start[k],
        decreases n - i,
    {
        let ghost had = list@;
        let ghost reached = *stop;
        let ghost done = |i: int| collision_slots(had[i], component_index, *component, i as usize);
        visit_collision(&mut list[i], component_index, component, i, visitor, stop);
        proof {
            let now = |i: int| collision_slots(list@[i], component_index, *component, i as usize);
            assert(list@ =~= had.update(i as int, list@[i as int]));
            flat_is_local(i as nat, done, now);
            walk_on(
                f,
                flat(i as nat, before),
                flat(i as nat, now),
                before(i as int),
                now(i as int),
                first,
                reached,
                *stop,
            );
        }
        i += 1;
    }
    proof {
        assert(keeps_collisions(start, list@));
    }
}

/// The resources of an inertial sensor.
pub open spec fn inertial_sensor_slots(x: InertialSensor, component_index: usize, component: String, sensor_index: usize, sensor: Option<String>, index: usize) -> Seq<Slot> {
    geometry_slots(
        x.geometry,
        ResourceSite::SensorGeometryMesh {
            component_index,
            component,
            sensor_index,
            sensor,
            kind: SensorGeometryKind::Inertial,
            category_index: index,
            fov_index: None,
        },
    )
}

/// Whether an inertial sensor is the same but for the addresses and digests of its resources.
pub open spec fn keeps_inertial_sensor(x: InertialSensor, y: InertialSensor) -> bool {
    y == (InertialSensor { geometry: y.geometry, ..x }) && keeps_geometry(x.geometry, y.geometry)
}

fn visit_inertial_sensor<E, F: FnMut(&ResourceSite, ResourceReference<'_>) -> Result<ResourceRewrite, E>>(
    x: &mut InertialSensor,
    component_index: usize,
    component: &String,
    sensor_index: usize,
    sensor: &Option<String>,
    index: usize,
    visitor: &mut F,
    stop: &mut Option<E>,
)
    requires
        accepts(*old(visitor)),
    ensures
        walk(
            *old(visitor),
            inertial_sensor_slots(*old(x), component_index, *component, sensor_index, *sensor, index),
            inertial_sensor_slots(*final(x), component_index, *component, sensor_index, *sensor, index),
            *old(stop),
            *final(stop),
        ),
        *final(visitor) == *old(visitor),
        keeps_inertial_sensor(*old(x), *final(x)),
{
    let site = ResourceSite::SensorGeometryMesh {
        component_index,
        component: component.clone(),
        sensor_index,
        sensor: clone_option(sensor),
        kind: SensorGeometryKind::Inertial,
        category_index: index,
        fov_index: None,
    };
    visit_geometry(&mut x.geometry, &site, visitor, stop);
}

/// The resources of inertial sensors.
pub open spec fn inertial_sensors_slots(list: Seq<InertialSensor>, component_index: usize, component: String, sensor_index: usize, sensor: Option<String>) -> Seq<Slot> {
    flat(list.len(), |i: int| inertial_sensor_slots(list[i], component_index, component, sensor_index, sensor, i as usize))
}

/// Whether inertial sensors are the same but for the addresses and digests of their resources.
pub open spec fn keeps_inertial_sensors(a: Seq<InertialSensor>, b: Seq<InertialSensor>) -> bool {
    a.len() == b.len() && forall|i: int|
        #![trigger a[i]]
        #![trigger b[i]]
        0 <= i < a.len() ==> keeps_inertial_sensor(a[i], b[i])
}

fn visit_inertial_sensors<E, F: FnMut(&ResourceSite, ResourceReference<'_>) -> Result<ResourceRewrite, E>>(
    list: &mut Vec<InertialSensor>,
    component_index: usize,
    component: &String,
    sensor_index: usize,
    sensor: &Option<String>,
    visitor: &mut F,
    stop: &mut Option<E>,
)
    requires
        accepts(*old(visitor)),
    ensures
        walk(
            *old(visitor),
            inertial_sensors_slots(old(list)@, component_index, *component, sensor_index, *sensor),
            inertial_sensors_slots(final(list)@, component_index, *component, sensor_index, *sensor),
            *old(stop),
            *final(stop),
        ),
        *final(visitor) == *old(visitor),
        keeps_inertial_sensors(old(list)@, final(list)@),
{
    let ghost start = list@;
    let ghost f = *visitor;
    let ghost first = *stop;
    let ghost before = |i: int| inertial_sensor_slots(start[i], component_index, *component, sensor_index, *sensor, i as usize);
    let n: usize = list.len();
    let mut i: usize = 0;
    proof {
        walk_nothing(f, first);
    }
    while i < n
        invariant
            i <= n == start.len() == list@.len(),
            accepts(f),
            *visitor == f,
            before == (|i: int| inertial_sensor_slots(start[i], component_index, *component, sensor_index, *sensor, i as usize)),
            walk(
                f,
                flat(i as nat, before),
                flat(i as nat, |i: int| inertial_sensor_slots(list@[i], component_index, *component, sensor_index, *sensor, i as usize)),
                first,
                *stop,
            ),
            forall|k: int|
                #![trigger start[k]]
                #![trigger list@[k]]
                0 <= k < i ==> keeps_inertial_sensor(start[k], list@[k]),
            forall|k: int| i <= k < n ==> list@[k] == start[k],
        decreases n - i,
    {
        let ghost had = list@;
        let ghost reached = *stop;
        let ghost done = |i: int| inertial_sensor_slots(had[i], component_index, *component, sensor_index, *sensor, i as usize);
        visit_inertial_sensor(&mut list[i], component_index, component, sensor_index, sensor, i, visitor, stop);
        proof {
            let now = |i: int| inertial_sensor_slots(list@[i], component_index, *component, sensor_index, *sensor, i as usize);
            assert(list@ =~= had.update(i as int, list@[i as int]));
            flat_is_local(i as nat, done, now);
            walk_on(
                f,
                flat(i as nat, before),
                flat(i as nat, now),
                before(i as int),
                now(i as int),
                first,
                reached,
                *stop,
            );
        }
        i += 1;
    }
    proof {
        assert(keeps_inertial_sensors(start, list@));
    }
}

/// The resources of a sensor category.
pub open spec fn sensor_category_slots(x: SensorCategory, component_index: usize, component: String, sensor_index: usize, sensor: Option<String>, kind: SensorGeometryKind, index: usize) -> Seq<Slot> {
    geometry_slots(
        x.geometry,
        ResourceSite::SensorGeometryMesh {
            component_index,
            component,
            sensor_index,
            sensor,
            kind,
            category_index: index,
            fov_index: None,
        },
    )
}

/// Whether a sensor category is the same but for the addresses and digests of its resources.
pub open spec fn keeps_sensor_category(x: SensorCategory, y: SensorCategory) -> bool {
    y == (SensorCategory { geometry: y.geometry, ..x }) && keeps_geometry(x.geometry, y.geometry)
}

fn visit_sensor_category<E, F: FnMut(&ResourceSite, ResourceReference<'_>) -> Result<ResourceRewrite, E>>(
    x: &mut SensorCategory,
    component_index: usize,
    component: &String,
    sensor_index: usize,
    sensor: &Option<String>,
    kind: SensorGeometryKind,
    index: usize,
    visitor: &mut F,
    stop: &mut Option<E>,
)
    requires
        accepts(*old(visitor)),
    ensures
        walk(
            *old(visitor),
            sensor_category_slots(*old(x), component_index, *component, sensor_index, *sensor, kind, index),
            sensor_category_slots(*final(x), component_index, *component, sensor_index, *sensor, kind, index),
            *old(stop),
            *final(stop),
        ),
        *final(visitor) == *old(visitor),
        keeps_sensor_category(*old(x), *final(x)),
{
    let site = ResourceSite::SensorGeometryMesh {
        component_index,
        component: component.clone(),
        sensor_index,
        sensor: clone_option(sensor),
        kind,
        category_index: index,
        fov_index: None,
    };
    visit_geometry(&mut x.geometry, &site, visitor, stop);
}

/// The resources of the sensors of a category.
pub open spec fn sensor_categories_slots(list: Seq<SensorCategory>, component_index: usize, component: String, sensor_index: usize, sensor: Option<String>, kind: SensorGeometryKind) -> Seq<Slot> {
    flat(list.len(), |i: int| sensor_category_slots(list[i], component_index, component, sensor_index, sensor, kind, i as usize))
}

/// Whether the sensors of a category are the same but for the addresses and digests of their resources.
pub open spec fn keeps_sensor_categories(a: Seq<SensorCategory>, b: Seq<SensorCategory>) -> bool {
    a.len() == b.len() && forall|i: int|
        #![trigger a[i]]
        #![trigger b[i]]
        0 <= i < a.len() ==> keeps_sensor_category(a[i], b[i])
}

fn visit_sensor_categories<E, F: FnMut(&ResourceSite, ResourceReference<'_>) -> Result<ResourceRewrite, E>>(
    list: &mut Vec<SensorCategory>,
    component_index: usize,
    component: &String,
    sensor_index: usize,
    sensor: &Option<String>,
    kind: SensorGeometryKind,
    visitor: &mut F,
    stop: &mut Option<E>,
)
    requires
        accepts(*old(visitor)),
    ensures
        walk(
            *old(visitor),
            sensor_categories_slots(old(list)@, component_index, *component, sensor_index, *sensor, kind),
            sensor_categories_slots(final(list)@, component_index, *component, sensor_index, *sensor, kind),
            *old(stop),
            *final(stop),
        ),
        *final(visitor) == *old(visitor),
        keeps_sensor_categories(old(list)@, final(list)@),
{
    let ghost start = list@;
    let ghost f = *visitor;
    let ghost first = *stop;
    let ghost before = |i: int| sensor_category_slots(start[i], component_index, *component, sensor_index, *sensor, kind, i as usize);
    let n: usize = list.len();
    let mut i: usize = 0;
    proof {
        walk_nothing(f, first);
    }
    while i < n
        invariant
            i <= n == start.len() == list@.len(),
            accepts(f),
            *visitor == f,
            before == (|i: int| sensor_category_slots(start[i], component_index, *component, sensor_index, *sensor, kind, i as usize)),
            walk(
                f,
                flat(i as nat, before),
                flat(i as nat, |i: int| sensor_category_slots(list@[i], component_index, *component, sensor_index, *sensor, kind, i as usize)),
                first,
                *stop,
            ),
            forall|k: int|
                #![trigger start[k]]
                #![trigger list@[k]]
                0 <= k < i ==> keeps_sensor_category(start[k], list@[k]),
            forall|k: int| i <= k < n ==> list@[k] == start[k],
        decreases n - i,
    {
        let ghost had = list@;
        let ghost reached = *stop;
        let ghost done = |i: int| sensor_category_slots(had[i], component_index, *component, sensor_index, *sensor, kind, i as usize);
        visit_sensor_category(&mut list[i], component_index, component, sensor_index, sensor, kind, i, visitor, stop);
        proof {
            let now = |i: int| sensor_category_slots(list@[i], component_index, *component, sensor_index, *sensor, kind, i as usize);
            assert(list@ =~= had.update(i as int, list@[i as int]));
            flat_is_local(i as nat, done, now);
            walk_on(
                f,
                flat(i as nat, before),
                flat(i as nat, now),
                before(i as int),
                now(i as int),
                first,
                reached,
                *stop,
            );
        }
        i += 1;
    }
    proof {
        assert(keeps_sensor_categories(start, list@));
    }
}

/// The resources of a fluid sensor.
pub open spec fn fluid_sensor_slots(x: FluidSensor, component_index: usize, component: String, sensor_index: usize, sensor: Option<String>, index: usize) -> Seq<Slot> {
    geometry_slots(
        x.geometry,
        ResourceSite::SensorGeometryMesh {
            component_index,
            component,
            sensor_index,
            sensor,
            kind: SensorGeometryKind::Fluid,
            category_index: index,
            fov_index: None,
        },
    )
}

/// Whether a fluid sensor is the same but for the addresses and digests of its resources.
pub open spec fn keeps_fluid_sensor(x: FluidSensor, y: FluidSensor) -> bool {
    y == (FluidSensor { geometry: y.geometry, ..x }) && keeps_geometry(x.geometry, y.geometry)
}

fn visit_fluid_sensor<E, F: FnMut(&ResourceSite, ResourceReference<'_>) -> Result<ResourceRewrite, E>>(
    x: &mut FluidSensor,
    component_index: usize,
    component: &String,
    sensor_index: usize,
    sensor: &Option<String>,
    index: usize,
    visitor: &mut F,
    stop: &mut Option<E>,
)
    requires
        accepts(*old(visitor)),
    ensures
        walk(
            *old(visitor),
            fluid_sensor_slots(*old(x), component_index, *component, sensor_index, *sensor, index),
            fluid_sensor_slots(*final(x), component_index, *component, sensor_index, *sensor, index),
            *old(stop),
            *final(stop),
        ),
        *final(visitor) == *old(visitor),
        keeps_fluid_sensor(*old(x), *final(x)),
{
    let site = ResourceSite::SensorGeometryMesh {
        component_index,
        component: component.clone(),
        sensor_index,
        sensor: clone_option(sensor),
        kind: SensorGeometryKind::Fluid,
        category_index: index,
        fov_index: None,
    };
    visit_geometry(&mut x.geometry, &site, visitor, stop);
}

/// The resources of fluid sensors.
pub open spec fn fluid_sensors_slots(list: Seq<FluidSensor>, component_index: usize, component: String, sensor_index: usize, sensor: Option<String>) -> Seq<Slot> {
    flat(list.len(), |i: int| fluid_sensor_slots(list[i], component_index, component, sensor_index, sensor, i as usize))
}

/// Whether fluid sensors are the same but for the addresses and digests of their resources.
pub open spec fn keeps_fluid_sensors(a: Seq<FluidSensor>, b: Seq<FluidSensor>) -> bool {
    a.len() == b.len() && forall|i: int|
        #![trigger a[i]]
        #![trigger b[i]]
        0 <= i < a.len() ==> keeps_fluid_sensor(a[i], b[i])
}

fn visit_fluid_sensors<E, F: FnMut(&ResourceSite, ResourceReference<'_>) -> Result<ResourceRewrite, E>>(
    list: &mut Vec<FluidSensor>,
    component_index: usize,
    component: &String,
    sensor_index: usize,
    sensor: &Option<String>,
    visitor: &mut F,
    stop: &mut Option<E>,
)
    requires
        accepts(*old(visitor)),
    ensures
        walk(
            *old(visitor),
            fluid_sensors_slots(old(list)@, component_index, *component, sensor_index, *sensor),
            fluid_sensors_slots(final(list)@, component_index, *component, sensor_index, *sensor),
            *old(stop),
            *final(stop),
        ),
        *final(visitor) == *old(visitor),
        keeps_fluid_sensors(old(list)@, final(list)@),
{
    let ghost start = list@;
    let ghost f = *visitor;
    let ghost first = *stop;
    let ghost before = |i: int| fluid_sensor_slots(start[i], component_index, *component, sensor_index, *sensor, i as usize);
    let n: usize = list.len();
    let mut i: usize = 0;
    proof {
        walk_nothing(f, first);
    }
    while i < n
        invariant
            i <= n == start.len() == list@.len(),
            accepts(f),
            *visitor == f,
            before == (|i: int| fluid_sensor_slots(start[i], component_index, *component, sensor_index, *sensor, i as usize)),
            walk(
                f,
                flat(i as nat, before),
                flat(i as nat, |i: int| fluid_sensor_slots(list@[i], component_index, *component, sensor_index, *sensor, i as usize)),
                first,
                *stop,
            ),
            forall|k: int|
                #![trigger start[k]]
                #![trigger list@[k]]
                0 <= k < i ==> keeps_fluid_sensor(start[k], list@[k]),
            forall|k: int| i <= k < n ==> list@[k] == start[k],
        decreases n - i,
    {
        let ghost had = list@;
        let ghost reached = *stop;
        let ghost done = |i: int| fluid_sensor_slots(had[i], component_index, *component, sensor_index, *sensor, i as usize);
        visit_fluid_sensor(&mut list[i], component_index, component, sensor_index, sensor, i, visitor, stop);
        proof {
            let now = |i: int| fluid_sensor_slots(list@[i], component_index, *component, sensor_index, *sensor, i as usize);
            assert(list@ =~= had.update(i as int, list@[i as int]));
            flat_is_local(i as nat, done, now);
            walk_on(
                f,
                flat(i as nat, before),
                flat(i as nat, now),
                before(i as int),
                now(i as int),
                first,
                reached,
                *stop,
            );
        }
        i += 1;
    }
    proof {
        assert(keeps_fluid_sensors(start, list@));
    }
}

/// The resources of a field of view.
pub open spec fn fov_slots(x: SensorFov, component_index: usize, component: String, sensor_index: usize, sensor: Option<String>, category_index: usize, index: usize) -> Seq<Slot> {
    geometry_slots(
        x.geometry,
        ResourceSite::SensorGeometryMesh {
            component_index,
            component,
            sensor_index,
            sensor,
            kind: SensorGeometryKind::OpticalFov,
            category_index,
            fov_index: Some(index),
        },
    )
}

/// Whether a field of view is the same but for the addresses and digests of its resources.
pub open spec fn keeps_fov(x: SensorFov, y: SensorFov) -> bool {
    y == (SensorFov { geometry: y.geometry, ..x }) && keeps_geometry(x.geometry, y.geometry)
}

fn visit_fov<E, F: FnMut(&ResourceSite, ResourceReference<'_>) -> Result<ResourceRewrite, E>>(
    x: &mut SensorFov,
    component_index: usize,
    component: &String,
    sensor_index: usize,
    sensor: &Option<String>,
    category_index: usize,
    index: usize,
    visitor: &mut F,
    stop: &mut Option<E>,
)
    requires
        accepts(*old(visitor)),
    ensures
        walk(
            *old(visitor),
            fov_slots(*old(x), component_index, *component, sensor_index, *sensor, category_index, index),
            fov_slots(*final(x), component_index, *component, sensor_index, *sensor, category_index, index),
            *old(stop),
            *final(stop),
        ),
        *final(visitor) == *old(visitor),
        keeps_fov(*old(x), *final(x)),
{
    let site = ResourceSite::SensorGeometryMesh {
        component_index,
        component: component.clone(),
        sensor_index,
        sensor: clone_option(sensor),
        kind: SensorGeometryKind::OpticalFov,
        category_index,
        fov_index: Some(index),
    };
    visit_geometry(&mut x.geometry, &site, visitor, stop);
}

/// The resources of fields of view.
pub open spec fn fovs_slots(list: Seq<SensorFov>, component_index: usize, component: String, sensor_index: usize, sensor: Option<String>, category_index: usize) -> Seq<Slot> {
    flat(list.len(), |i: int| fov_slots(list[i], component_index, component, sensor_index, sensor, category_index, i as usize))
}

/// Whether fields of view are the same but for the addresses and digests of their resources.
pub open spec fn keeps_fovs(a: Seq<SensorFov>, b: Seq<SensorFov>) -> bool {
    a.len() == b.len() && forall|i: int|
        #![trigger a[i]]
        #![trigger b[i]]
        0 <= i < a.len() ==> keeps_fov(a[i], b[i])
}

fn visit_fovs<E, F: FnMut(&ResourceSite, ResourceReference<'_>) -> Result<ResourceRewrite, E>>(
    list: &mut Vec<SensorFov>,
    component_index: usize,
    component: &String,
    sensor_index: usize,
    sensor: &Option<String>,
    category_index: usize,
    visitor: &mut F,
    stop: &mut Option<E>,
)
    requires
        accepts(*old(visitor)),
    ensures
        walk(
            *old(visitor),
            fovs_slots(old(list)@, component_index, *component, sensor_index, *sensor, category_index),
            fovs_slots(final(list)@, component_index, *component, sensor_index, *sensor, category_index),
            *old(stop),
            *final(stop),
        ),
        *final(visitor) == *old(visitor),
        keeps_fovs(old(list)@, final(list)@),
{
    let ghost start = list@;
    let ghost f = *visitor;
    let ghost first = *stop;
    let ghost before = |i: int| fov_slots(start[i], component_index, *component, sensor_index, *sensor, category_index, i as usize);
    let n: usize = list.len();
    let mut i: usize = 0;
    proof {
        walk_nothing(f, first);
    }
    while i < n
        invariant
            i <= n == start.len() == list@.len(),
            accepts(f),
            *visitor == f,
            before == (|i: int| fov_slots(start[i], component_index, *component, sensor_index, *sensor, category_index, i as usize)),
            walk(
                f,
                flat(i as nat, before),
                flat(i as nat, |i: int| fov_slots(list@[i], component_index, *component, sensor_index, *sensor, category_index, i as usize)),
                first,
                *stop,
            ),
            forall|k: int|
                #![trigger start[k]]
                #![trigger list@[k]]
                0 <= k < i ==> keeps_fov(start[k], list@[k]),
            forall|k: int| i <= k < n ==> list@[k] == start[k],
        decreases n - i,
    {
        let ghost had = list@;
        let ghost reached = *stop;
        let ghost done = |i: int| fov_slots(had[i], component_index, *component, sensor_index, *sensor, category_index, i as usize);
        visit_fov(&mut list[i], component_index, component, sensor_index, sensor, category_index, i, visitor, stop);
        proof {
            let now = |i: int| fov_slots(list@[i], component_index, *component, sensor_index, *sensor, category_index, i as usize);
            assert(list@ =~= had.update(i as int, list@[i as int]));
            flat_is_local(i as nat, done, now);
            walk_on(
                f,
                flat(i as nat, before),
                flat(i as nat, now),
                before(i as int),
                now(i as int),
                first,
                reached,
                *stop,
            );
        }
        i += 1;
    }
    proof {
        assert(keeps_fovs(start, list@));
    }
}

/// The site of an optical sensor.
pub open spec fn optical_site(
    component_index: usize,
    component: String,
    sensor_index: usize,
    sensor: Option<String>,
    index: usize,
) -> ResourceSite {
    ResourceSite::SensorGeometryMesh {
        component_index,
        component,
        sensor_index,
        sensor,
        kind: SensorGeometryKind::Optical,
        category_index: index,
        fov_index: None,
    }
}

/// The resources of an optical sensor.
pub open spec fn optical_sensor_slots(x: OpticalSensor, component_index: usize, component: String, sensor_index: usize, sensor: Option<String>, index: usize) -> Seq<Slot> {
    geometry_slots(x.geometry, optical_site(component_index, component, sensor_index, sensor, index))
        + fovs_slots(x.fov@, component_index, component, sensor_index, sensor, index)
}

/// Whether an optical sensor is the same but for the addresses and digests of its resources.
pub open spec fn keeps_optical_sensor(x: OpticalSensor, y: OpticalSensor) -> bool {
    &&& y == (OpticalSensor { geometry: y.geometry, fov: y.fov, ..x })
    &&& keeps_geometry(x.geometry, y.geometry)
    &&& keeps_fovs(x.fov@, y.fov@)
}

fn visit_optical_sensor<E, F: FnMut(&ResourceSite, ResourceReference<'_>) -> Result<ResourceRewrite, E>>(
    x: &mut OpticalSensor,
    component_index: usize,
    component: &String,
    sensor_index: usize,
    sensor: &Option<String>,
    index: usize,
    visitor: &mut F,
    stop: &mut Option<E>,
)
    requires
        accepts(*old(visitor)),
    ensures
        walk(
            *old(visitor),
            optical_sensor_slots(*old(x), component_index, *component, sensor_index, *sensor, index),
            optical_sensor_slots(*final(x), component_index, *component, sensor_index, *sensor, index),
            *old(stop),
            *final(stop),
        ),
        *final(visitor) == *old(visitor),
        keeps_optical_sensor(*old(x), *final(x)),
{
    let ghost f = *visitor;
    let ghost first = *stop;
    let ghost old_x = *x;
    let site = ResourceSite::SensorGeometryMesh {
        component_index,
        component: component.clone(),
        sensor_index,
        sensor: clone_option(sensor),
        kind: SensorGeometryKind::Optical,
        category_index: index,
        fov_index: None,
    };
    visit_geometry(&mut x.geometry, &site, visitor, stop);
    let ghost a = geometry_slots(old_x.geometry, optical_site(component_index, *component, sensor_index, *sensor, index));
    let ghost b = geometry_slots(x.geometry, optical_site(component_index, *component, sensor_index, *sensor, index));
    let ghost reached = *stop;
    visit_fovs(&mut x.fov, component_index, component, sensor_index, sensor, index, visitor, stop);
    proof {
        walk_on(f, a, b, fovs_slots(old_x.fov@, component_index, *component, sensor_index, *sensor, index), fovs_slots(x.fov@, component_index, *component, sensor_index, *sensor, index), first, reached, *stop);
    }
    let ghost a = a + fovs_slots(old_x.fov@, component_index, *component, sensor_index, *sensor, index);
    let ghost b = b + fovs_slots(x.fov@, component_index, *component, sensor_index, *sensor, index);
}

/// The resources of optical sensors.
pub open spec fn optical_sensors_slots(list: Seq<OpticalSensor>, component_index: usize, component: String, sensor_index: usize, sensor: Option<String>) -> Seq<Slot> {
    flat(list.len(), |i: int| optical_sensor_slots(list[i], component_index, component, sensor_index, sensor, i as usize))
}

/// Whether optical sensors are the same but for the addresses and digests of their resources.
pub open spec fn keeps_optical_sensors(a: Seq<OpticalSensor>, b: Seq<OpticalSensor>) -> bool {
    a.len() == b.len() && forall|i: int|
        #![trigger a[i]]
        #![trigger b[i]]
        0 <= i < a.len() ==> keeps_optical_sensor(a[i], b[i])
}

fn visit_optical_sensors<E, F: FnMut(&ResourceSite, ResourceReference<'_>) -> Result<ResourceRewrite, E>>(
    list: &mut Vec<OpticalSensor>,
    component_index: usize,
    component: &String,
    sensor_index: usize,
    sensor: &Option<String>,
    visitor: &mut F,
    stop: &mut Option<E>,
)
    requires
        accepts(*old(visitor)),
    ensures
        walk(
            *old(visitor),
            optical_sensors_slots(old(list)@, component_index, *component, sensor_index, *sensor),
            optical_sensors_slots(final(list)@, component_index, *component, sensor_index, *sensor),
            *old(stop),
            *final(stop),
        ),
        *final(visitor) == *old(visitor),
        keeps_optical_sensors(old(list)@, final(list)@),
{
    let ghost start = list@;
    let ghost f = *visitor;
    let ghost first = *stop;
    let ghost before = |i: int| optical_sensor_slots(start[i], component_index, *component, sensor_index, *sensor, i as usize);
    let n: usize = list.len();
    let mut i: usize = 0;
    proof {
        walk_nothing(f, first);
    }
    while i < n
        invariant
            i <= n == start.len() == list@.len(),
            accepts(f),
            *visitor == f,
            before == (|i: int| optical_sensor_slots(start[i], component_index, *component, sensor_index, *sensor, i as usize)),
            walk(
                f,
                flat(i as nat, before),
                flat(i as nat, |i: int| optical_sensor_slots(list@[i], component_index, *component, sensor_index, *sensor, i as usize)),
                first,
                *stop,
            ),
            forall|k: int|
                #![trigger start[k]]
                #![trigger list@[k]]
                0 <= k < i ==> keeps_optical_sensor(start[k], list@[k]),
            forall|k: int| i <= k < n ==> list@[k] == start[k],
        decreases n - i,
    {
        let ghost had = list@;
        let ghost reached = *stop;
        let ghost done = |i: int| optical_sensor_slots(had[i], component_index, *component, sensor_index, *sensor, i as usize);
        visit_optical_sensor(&mut list[i], component_index, component, sensor_index, sensor, i, visitor, stop);
        proof {
            let now = |i: int| optical_sensor_slots(list@[i], component_index, *component, sensor_index, *sensor, i as usize);
            assert(list@ =~= had.update(i as int, list@[i as int]));
            flat_is_local(i as nat, done, now);
            walk_on(
                f,
                flat(i as nat, before),
                flat(i as nat, now),
                before(i as int),
                now(i as int),
                first,
                reached,
                *stop,
            );
        }
        i += 1;
    }
    proof {
        assert(keeps_optical_sensors(start, list@));
    }
}

/// The resources of a sensor.
#[verifier::opaque]
pub open spec fn sensor_slots(x: Sensor, component_index: usize, component: String, sensor_index: usize) -> Seq<Slot> {
    inertial_sensors_slots(x.inertial@, component_index, component, sensor_index, x.name)
        + sensor_categories_slots(x.em@, component_index, component, sensor_index, x.name, SensorGeometryKind::Em)
        + optical_sensors_slots(x.optical@, component_index, component, sensor_index, x.name)
        + sensor_categories_slots(x.rf@, component_index, component, sensor_index, x.name, SensorGeometryKind::Rf)
        + sensor_categories_slots(x.chemical@, component_index, component, sensor_index, x.name, SensorGeometryKind::Chemical)
        + sensor_categories_slots(x.force@, component_index, component, sensor_index, x.name, SensorGeometryKind::Force)
        + sensor_categories_slots(x.encoder@, component_index, component, sensor_index, x.name, SensorGeometryKind::Encoder)
        + sensor_categories_slots(x.temperature@, component_index, component, sensor_index, x.name, SensorGeometryKind::Temperature)
        + sensor_categories_slots(x.radiation@, component_index, component, sensor_index, x.name, SensorGeometryKind::Radiation)
        + sensor_categories_slots(x.audio@, component_index, component, sensor_index, x.name, SensorGeometryKind::Audio)
        + sensor_categories_slots(x.tactile@, component_index, component, sensor_index, x.name, SensorGeometryKind::Tactile)
        + fluid_sensors_slots(x.fluid@, component_index, component, sensor_index, x.name)
}

/// Whether a sensor is the same but for the addresses and digests of its resources.
#[verifier::opaque]
pub open spec fn keeps_sensor(x: Sensor, y: Sensor) -> bool {
    &&& y == (Sensor { inertial: y.inertial, em: y.em, optical: y.optical, rf: y.rf, chemical: y.chemical, force: y.force, encoder: y.encoder, temperature: y.temperature, radiation: y.radiation, audio: y.audio, tactile: y.tactile, fluid: y.fluid, ..x })
    &&& keeps_inertial_sensors(x.inertial@, y.inertial@)
    &&& keeps_sensor_categories(x.em@, y.em@)
    &&& keeps_optical_sensors(x.optical@, y.optical@)
    &&& keeps_sensor_categories(x.rf@, y.rf@)
    &&& keeps_sensor_categories(x.chemical@, y.chemical@)
    &&& keeps_sensor_categories(x.force@, y.force@)
    &&& keeps_sensor_categories(x.encoder@, y.encoder@)
    &&& keeps_sensor_categories(x.temperature@, y.temperature@)
    &&& keeps_sensor_categories(x.radiation@, y.radiation@)
    &&& keeps_sensor_categories(x.audio@, y.audio@)
    &&& keeps_sensor_categories(x.tactile@, y.tactile@)
    &&& keeps_fluid_sensors(x.fluid@, y.fluid@)
}

fn visit_sensor<E, F: FnMut(&ResourceSite, ResourceReference<'_>) -> Result<ResourceRewrite, E>>(
    x: &mut Sensor,
    component_index: usize,
    component: &String,
    sensor_index: usize,
    visitor: &mut F,
    stop: &mut Option<E>,
)
    requires
        accepts(*old(visitor)),
    ensures
        walk(
            *old(visitor),
            sensor_slots(*old(x), component_index, *component, sensor_index),
            sensor_slots(*final(x), component_index, *component, sensor_index),
            *old(stop),
            *final(stop),
        ),
        *final(visitor) == *old(visitor),
        keeps_sensor(*old(x), *final(x)),
{
    proof {
        reveal(sensor_slots);
        reveal(keeps_sensor);
    }
    let ghost f = *visitor;
    let ghost first = *stop;
    let ghost old_x = *x;
    let name = clone_option(&x.name);
    visit_inertial_sensors(&mut x.inertial, component_index, component, sensor_index, &name, visitor, stop);
    let ghost a = inertial_sensors_slots(old_x.inertial@, component_index, *component, sensor_index, name);
    let ghost b = inertial_sensors_slots(x.inertial@, component_index, *component, sensor_index, name);
    let ghost reached = *stop;
    visit_sensor_categories(&mut x.em, component_index, component, sensor_index, &name, SensorGeometryKind::Em, visitor, stop);
    proof {
        walk_on(f, a, b, sensor_categories_slots(old_x.em@, component_index, *component, sensor_index, name, SensorGeometryKind::Em), sensor_categories_slots(x.em@, component_index, *component, sensor_index, name, SensorGeometryKind::Em), first, reached, *stop);
    }
    let ghost a = a + sensor_categories_slots(old_x.em@, component_index, *component, sensor_index, name, SensorGeometryKind::Em);
    let ghost b = b + sensor_categories_slots(x.em@, component_index, *component, sensor_index, name, SensorGeometryKind::Em);
    let ghost reached = *stop;
    visit_optical_sensors(&mut x.optical, component_index, component, sensor_index, &name, visitor, stop);
    proof {
        walk_on(f, a, b, optical_sensors_slots(old_x.optical@, component_index, *component, sensor_index, name), optical_sensors_slots(x.optical@, component_index, *component, sensor_index, name), first, reached, *stop);
    }
    let ghost a = a + optical_sensors_slots(old_x.optical@, component_index, *component, sensor_index, name);
    let ghost b = b + optical_sensors_slots(x.optical@, component_index, *component, sensor_index, name);
    let ghost reached = *stop;
    visit_sensor_categories(&mut x.rf, component_index, component, sensor_index, &name, SensorGeometryKind::Rf, visitor, stop);
    proof {
        walk_on(f, a, b, sensor_categories_slots(old_x.rf@, component_index, *component, sensor_index, name, SensorGeometryKind::Rf), sensor_categories_slots(x.rf@, component_index, *component, sensor_index, name, SensorGeometryKind::Rf), first, reached, *stop);
    }
    let ghost a = a + sensor_categories_slots(old_x.rf@, component_index, *component, sensor_index, name, SensorGeometryKind::Rf);
    let ghost b = b + sensor_categories_slots(x.rf@, component_index, *component, sensor_index, name, SensorGeometryKind::Rf);
    let ghost reached = *stop;
    visit_sensor_categories(&mut x.chemical, component_index, component, sensor_index, &name, SensorGeometryKind::Chemical, visitor, stop);
    proof {
        walk_on(f, a, b, sensor_categories_slots(old_x.chemical@, component_index, *component, sensor_index, name, SensorGeometryKind::Chemical), sensor_categories_slots(x.chemical@, component_index, *component, sensor_index, name, SensorGeometryKind::Chemical), first, reached, *stop);
    }
    let ghost a = a + sensor_categories_slots(old_x.chemical@, component_index, *component, sensor_index, name, SensorGeometryKind::Chemical);
    let ghost b = b + sensor_categories_slots(x.chemical@, component_index, *component, sensor_index, name, SensorGeometryKind::Chemical);
    let ghost reached = *stop;
    visit_sensor_categories(&mut x.force, component_index, component, sensor_index, &name, SensorGeometryKind::Force, visitor, stop);
    proof {
        walk_on(f, a, b, sensor_categories_slots(old_x.force@, component_index, *component, sensor_index, name, SensorGeometryKind::Force), sensor_categories_slots(x.force@, component_index, *component, sensor_index, name, SensorGeometryKind::Force), first, reached, *stop);
    }
    let ghost a = a + sensor_categories_slots(old_x.force@, component_index, *component, sensor_index, name, SensorGeometryKind::Force);
    let ghost b = b + sensor_categories_slots(x.force@, component_index, *component, sensor_index, name, SensorGeometryKind::Force);
    let ghost reached = *stop;
    visit_sensor_categories(&mut x.encoder, component_index, component, sensor_index, &name, SensorGeometryKind::Encoder, visitor, stop);
    proof {
        walk_on(f, a, b, sensor_categories_slots(old_x.encoder@, component_index, *component, sensor_index, name, SensorGeometryKind::Encoder), sensor_categories_slots(x.encoder@, component_index, *component, sensor_index, name, SensorGeometryKind::Encoder), first, reached, *stop);
    }
    let ghost a = a + sensor_categories_slots(old_x.encoder@, component_index, *component, sensor_index, name, SensorGeometryKind::Encoder);
    let ghost b = b + sensor_categories_slots(x.encoder@, component_index, *component, sensor_index, name, SensorGeometryKind::Encoder);
    let ghost reached = *stop;
    visit_sensor_categories(&mut x.temperature, component_index, component, sensor_index, &name, SensorGeometryKind::Temperature, visitor, stop);
    proof {
        walk_on(f, a, b, sensor_categories_slots(old_x.temperature@, component_index, *component, sensor_index, name, SensorGeometryKind::Temperature), sensor_categories_slots(x.temperature@, component_index, *component, sensor_index, name, SensorGeometryKind::Temperature), first, reached, *stop);
    }
    let ghost a = a + sensor_categories_slots(old_x.temperature@, component_index, *component, sensor_index, name, SensorGeometryKind::Temperature);
    let ghost b = b + sensor_categories_slots(x.temperature@, component_index, *component, sensor_index, name, SensorGeometryKind::Temperature);
    let ghost reached = *stop;
    visit_sensor_categories(&mut x.radiation, component_index, component, sensor_index, &name, SensorGeometryKind::Radiation, visitor, stop);
    proof {
        walk_on(f, a, b, sensor_categories_slots(old_x.radiation@, component_index, *component, sensor_index, name, SensorGeometryKind::Radiation), sensor_categories_slots(x.radiation@, component_index, *component, sensor_index, name, SensorGeometryKind::Radiation), first, reached, *stop);
    }
    let ghost a = a + sensor_categories_slots(old_x.radiation@, component_index, *component, sensor_index, name, SensorGeometryKind::Radiation);
    let ghost b = b + sensor_categories_slots(x.radiation@, component_index, *component, sensor_index, name, SensorGeometryKind::Radiation);
    let ghost reached = *stop;
    visit_sensor_categories(&mut x.audio, component_index, component, sensor_index, &name, SensorGeometryKind::Audio, visitor, stop);
    proof {
        walk_on(f, a, b, sensor_categories_slots(old_x.audio@, component_index, *component, sensor_index, name, SensorGeometryKind::Audio), sensor_categories_slots(x.audio@, component_index, *component, sensor_index, name, SensorGeometryKind::Audio), first, reached, *stop);
    }
    let ghost a = a + sensor_categories_slots(old_x.audio@, component_index, *component, sensor_index, name, SensorGeometryKind::Audio);
    let ghost b = b + sensor_categories_slots(x.audio@, component_index, *component, sensor_index, name, SensorGeometryKind::Audio);
    let ghost reached = *stop;
    visit_sensor_categories(&mut x.tactile, component_index, component, sensor_index, &name, SensorGeometryKind::Tactile, visitor, stop);
    proof {
        walk_on(f, a, b, sensor_categories_slots(old_x.tactile@, component_index, *component, sensor_index, name, SensorGeometryKind::Tactile), sensor_categories_slots(x.tactile@, component_index, *component, sensor_index, name, SensorGeometryKind::Tactile), first, reached, *stop);
    }
    let ghost a = a + sensor_categories_slots(old_x.tactile@, component_index, *component, sensor_index, name, SensorGeometryKind::Tactile);
    let ghost b = b + sensor_categories_slots(x.tactile@, component_index, *component, sensor_index, name, SensorGeometryKind::Tactile);
    let ghost reached = *stop;
    visit_fluid_sensors(&mut x.fluid, component_index, component, sensor_index, &name, visitor, stop);
    proof {
        walk_on(f, a, b, fluid_sensors_slots(old_x.fluid@, component_index, *component, sensor_index, name), fluid_sensors_slots(x.fluid@, component_index, *component, sensor_index, name), first, reached, *stop);
    }
    let ghost a = a + fluid_sensors_slots(old_x.fluid@, component_index, *component, sensor_index, name);
    let ghost b = b + fluid_sensors_slots(x.fluid@, component_index, *component, sensor_index, name);
}

/// The resources of sensors.
pub open spec fn sensors_slots(list: Seq<Sensor>, component_index: usize, component: String) -> Seq<Slot> {
    flat(list.len(), |i: int| sensor_slots(list[i], component_index, component, i as usize))
}

/// Whether sensors are the same but for the addresses and digests of their resources.
pub open spec fn keeps_sensors(a: Seq<Sensor>, b: Seq<Sensor>) -> bool {
    a.len() == b.len() && forall|i: int|
        #![trigger a[i]]
        #![trigger b[i]]
        0 <= i < a.len() ==> keeps_sensor(a[i], b[i])
}

fn visit_sensors<E, F: FnMut(&ResourceSite, ResourceReference<'_>) -> Result<ResourceRewrite, E>>(
    list: &mut Vec<Sensor>,
    component_index: usize,
    component: &String,
    visitor: &mut F,
    stop: &mut Option<E>,
)
    requires
        accepts(*old(visitor)),
    ensures
        walk(
            *old(visitor),
            sensors_slots(old(list)@, component_index, *component),
            sensors_slots(final(list)@, component_index, *component),
            *old(stop),
            *final(stop),
        ),
        *final(visitor) == *old(visitor),
        keeps_sensors(old(list)@, final(list)@),
{
    let ghost start = list@;
    let ghost f = *visitor;
    let ghost first = *stop;
    let ghost before = |i: int| sensor_slots(start[i], component_index, *component, i as usize);
    let n: usize = list.len();
    let mut i: usize = 0;
    proof {
        walk_nothing(f, first);
    }
    while i < n
        invariant
            i <= n == start.len() == list@.len(),
            accepts(f),
            *visitor == f,
            before == (|i: int| sensor_slots(start[i], component_index, *component, i as usize)),
            walk(
                f,
                flat(i as nat, before),
                flat(i as nat, |i: int| sensor_slots(list@[i], component_index, *component, i as usize)),
                first,
                *stop,
            ),
            forall|k: int|
                #![trigger start[k]]
                #![trigger list@[k]]
                0 <= k < i ==> keeps_sensor(start[k], list@[k]),
            forall|k: int| i <= k < n ==> list@[k] == start[k],
        decreases n - i,
    {
        let ghost had = list@;
        let ghost reached = *stop;
        let ghost done = |i: int| sensor_slots(had[i], component_index, *component, i as usize);
        visit_sensor(&mut list[i], component_index, component, i, visitor, stop);
        proof {
            let now = |i: int| sensor_slots(list@[i], component_index, *component, i as usize);
            assert(list@ =~= had.update(i as int, list@[i as int]));
            flat_is_local(i as nat, done, now);
            walk_on(
                f,
                flat(i as nat, before),
                flat(i as nat, now),
                before(i as int),
                now(i as int),
                first,
                reached,
                *stop,
            );
        }
        i += 1;
    }
    proof {
        assert(keeps_sensors(start, list@));
    }
}

/// The resources of an operator element.
pub open spec fn hmi_slots(x: HmiElement, component_index: usize, component: String, index: usize) -> Seq<Slot> {
    geometry_slots(
        x.geometry,
        ResourceSite::HmiGeometryMesh { component_index, component, hmi_index: index, hmi: x.name },
    )
}

/// Whether an operator element is the same but for the addresses and digests of its resources.
pub open spec fn keeps_hmi(x: HmiElement, y: HmiElement) -> bool {
    y == (HmiElement { geometry: y.geometry, ..x }) && keeps_geometry(x.geometry, y.geometry)
}

fn visit_hmi<E, F: FnMut(&ResourceSite, ResourceReference<'_>) -> Result<ResourceRewrite, E>>(
    x: &mut HmiElement,
    component_index: usize,
    component: &String,
    index: usize,
    visitor: &mut F,
    stop: &mut Option<E>,
)
    requires
        accepts(*old(visitor)),
    ensures
        walk(
            *old(visitor),
            hmi_slots(*old(x), component_index, *component, index),
            hmi_slots(*final(x), component_index, *component, index),
            *old(stop),
            *final(stop),
        ),
        *final(visitor) == *old(visitor),
        keeps_hmi(*old(x), *final(x)),
{
    let site = ResourceSite::HmiGeometryMesh {
        component_index,
        component: component.clone(),
        hmi_index: index,
        hmi: clone_option(&x.name),
    };
    visit_geometry(&mut x.geometry, &site, visitor, stop);
}

/// The resources of operator elements.
pub open spec fn hmis_slots(list: Seq<HmiElement>, component_index: usize, component: String) -> Seq<Slot> {
    flat(list.len(), |i: int| hmi_slots(list[i], component_index, component, i as usize))
}

/// Whether operator elements are the same but for the addresses and digests of their resources.
pub open spec fn keeps_hmis(a: Seq<HmiElement>, b: Seq<HmiElement>) -> bool {
    a.len() == b.len() && forall|i: int|
        #![trigger a[i]]
        #![trigger b[i]]
        0 <= i < a.len() ==> keeps_hmi(a[i], b[i])
}

fn visit_hmis<E, F: FnMut(&ResourceSite, ResourceReference<'_>) -> Result<ResourceRewrite, E>>(
    list: &mut Vec<HmiElement>,
    component_index: usize,
    component: &String,
    visitor: &mut F,
    stop: &mut Option<E>,
)
    requires
        accepts(*old(visitor)),
    ensures
        walk(
            *old(visitor),
            hmis_slots(old(list)@, component_index, *component),
            hmis_slots(final(list)@, component_index, *component),
            *old(stop),
            *final(stop),
        ),
        *final(visitor) == *old(visitor),
        keeps_hmis(old(list)@, final(list)@),
{
    let ghost start = list@;
    let ghost f = *visitor;
    let ghost first = *stop;
    let ghost before = |i: int| hmi_slots(start[i], component_index, *component, i as usize);
    let n: usize = list.len();
    let mut i: usize = 0;
    proof {
        walk_nothing(f, first);
    }
    while i < n
        invariant
            i <= n == start.len() == list@.len(),
            accepts(f),
            *visitor == f,
            before == (|i: int| hmi_slots(start[i], component_index, *component, i as usize)),
            walk(
                f,
                flat(i as nat, before),
                flat(i as nat, |i: int| hmi_slots(list@[i], component_index, *component, i as usize)),
                first,
                *stop,
            ),
            forall|k: int|
                #![trigger start[k]]
                #![trigger list@[k]]
                0 <= k < i ==> keeps_hmi(start[k], list@[k]),
            forall|k: int| i <= k < n ==> list@[k] == start[k],
        decreases n - i,
    {
        let ghost had = list@;
        let ghost reached = *stop;
        let ghost done = |i: int| hmi_slots(had[i], component_index, *component, i as usize);
        visit_hmi(&mut list[i], component_index, component, i, visitor, stop);
        proof {
            let now = |i: int| hmi_slots(list@[i], component_index, *component, i as usize);
            assert(list@ =~= had.update(i as int, list@[i as int]));
            flat_is_local(i as nat, done, now);
            walk_on(
                f,
                flat(i as nat, before),
                flat(i as nat, now),
                before(i as int),
                now(i as int),
                first,
                reached,
                *stop,
            );
        }
        i += 1;
    }
    proof {
        assert(keeps_hmis(start, list@));
    }
}

fn copy_container(container: &ConnectivityContainer) -> (r: ConnectivityContainer)
    ensures
        r == *container,
{
    match container {
        ConnectivityContainer::Component { component_index, component } =>
            ConnectivityContainer::Component {
            component_index: *component_index,
            component: component.clone(),
        },
        ConnectivityContainer::Assembly { kind, assembly_index, assembly } =>
            ConnectivityContainer::Assembly {
            kind: *kind,
            assembly_index: *assembly_index,
            assembly: assembly.clone(),
        },
    }
}

/// Visits a resource that always has an address.
fn visit_required<E, F: FnMut(&ResourceSite, ResourceReference<'_>) -> Result<ResourceRewrite, E>>(
    site: &ResourceSite,
    uri: &mut String,
    sha: &mut Option<String>,
    visitor: &mut F,
    stop: &mut Option<E>,
)
    requires
        accepts(*old(visitor)),
    ensures
        walk(
            *old(visitor),
            seq![Slot { site: *site, uri: old(uri)@, sha: text_view(*old(sha)) }],
            seq![Slot { site: *site, uri: final(uri)@, sha: text_view(*final(sha)) }],
            *old(stop),
            *final(stop),
        ),
        *final(visitor) == *old(visitor),
{
    if stop.is_some() {
        return;
    }
    let ghost f = *visitor;
    let ghost before = seq![Slot { site: *site, uri: uri@, sha: text_view(*sha) }];
    match ask(site, &*uri, &*sha, visitor) {
        Err(error) => {
            *stop = Some(error);
            proof {
                assert(*stop == Some(error));
                assert(refuses_at(f, before, before, (*stop)->0, 0int));
                assert(exists|k: int| #[trigger] refuses_at(f, before, before, (*stop)->0, k));
            }
        },
        Ok(ResourceRewrite::Keep) => {
            proof {
                assert(answers(f, before[0], Ok(ResourceRewrite::Keep)));
                assert(turns(f, before[0], before[0]));
            }
        },
        Ok(ResourceRewrite::Replace { uri: next_uri, sha: next_sha }) => {
            let ghost action = ResourceRewrite::Replace { uri: next_uri, sha: next_sha };
            *uri = next_uri;
            *sha = next_sha;
            proof {
                let after = seq![Slot { site: *site, uri: uri@, sha: text_view(*sha) }];
                assert(answers(f, before[0], Ok(action)));
                assert(after[0] == applied(before[0], action));
                assert(turns(f, before[0], after[0]));
            }
        },
    }
}

/// The resources of a representation.
pub open spec fn representation_slots(x: Option<Representation>, container: ConnectivityContainer, owner: ConnectivityRepresentationOwner) -> Seq<Slot> {
    match x {
        Some(representation) => match representation.variant {
            RepresentationChoice::Model(model) => seq![
                Slot {
                    site: ResourceSite::ConnectivityModel { container, owner },
                    uri: model.uri@,
                    sha: text_view(model.sha),
                },
            ],
            _ => Seq::empty(),
        },
        None => Seq::empty(),
    }
}

/// Whether a representation is the same but for the addresses and digests of its resources.
pub open spec fn keeps_representation(x: Option<Representation>, y: Option<Representation>) -> bool {
    match (x, y) {
        (Some(a), Some(b)) => match (a.variant, b.variant) {
            (RepresentationChoice::Model(m), RepresentationChoice::Model(n)) => n == (
            ModelRepresentation { uri: n.uri, sha: n.sha, ..m }),
            _ => b == a,
        },
        (None, None) => true,
        _ => false,
    }
}

fn visit_representation<E, F: FnMut(&ResourceSite, ResourceReference<'_>) -> Result<ResourceRewrite, E>>(
    x: &mut Option<Representation>,
    container: &ConnectivityContainer,
    owner: ConnectivityRepresentationOwner,
    visitor: &mut F,
    stop: &mut Option<E>,
)
    requires
        accepts(*old(visitor)),
    ensures
        walk(
            *old(visitor),
            representation_slots(*old(x), *container, owner),
            representation_slots(*final(x), *container, owner),
            *old(stop),
            *final(stop),
        ),
        *final(visitor) == *old(visitor),
        keeps_representation(*old(x), *final(x)),
{
    match x {
        Some(representation) => match &mut representation.variant {
            RepresentationChoice::Model(model) => {
                let site = ResourceSite::ConnectivityModel {
                    container: copy_container(container),
                    owner,
                };
                visit_required(&site, &mut model.uri, &mut model.sha, visitor, stop);
            },
            _ => {
                proof {
                    walk_nothing(*visitor, *stop);
                }
            },
        },
        None => {
            proof {
                walk_nothing(*visitor, *stop);
            }
        },
    }
}

/// The resources of a position.
pub open spec fn position_slots(x: Position, container: ConnectivityContainer, connector_index: usize, connector: String, kind: PositionKind, index: usize) -> Seq<Slot> {
    representation_slots(x.representation, container, ConnectivityRepresentationOwner::Position {
            connector_index,
            connector,
            kind,
            index,
            name: x.name,
        })
}

/// Whether a position is the same but for the addresses and digests of its resources.
pub open spec fn keeps_position(x: Position, y: Position) -> bool {
    y == (Position { representation: y.representation, ..x }) && keeps_representation(
        x.representation,
        y.representation,
    )
}

fn visit_position<E, F: FnMut(&ResourceSite, ResourceReference<'_>) -> Result<ResourceRewrite, E>>(
    x: &mut Position,
    container: &ConnectivityContainer,
    connector_index: usize,
    connector: &String,
    kind: PositionKind,
    index: usize,
    visitor: &mut F,
    stop: &mut Option<E>,
)
    requires
        accepts(*old(visitor)),
    ensures
        walk(
            *old(visitor),
            position_slots(*old(x), *container, connector_index, *connector, kind, index),
            position_slots(*final(x), *container, connector_index, *connector, kind, index),
            *old(stop),
            *final(stop),
        ),
        *final(visitor) == *old(visitor),
        keeps_position(*old(x), *final(x)),
{
    let owner = ConnectivityRepresentationOwner::Position {
        connector_index,
        connector: connector.clone(),
        kind,
        index,
        name: x.name.clone(),
    };
    visit_representation(&mut x.representation, container, owner, visitor, stop);
}

/// The resources of positions.
pub open spec fn positions_slots(list: Seq<Position>, container: ConnectivityContainer, connector_index: usize, connector: String, kind: PositionKind) -> Seq<Slot> {
    flat(list.len(), |i: int| position_slots(list[i], container, connector_index, connector, kind, i as usize))
}

/// Whether positions are the same but for the addresses and digests of their resources.
pub open spec fn keeps_positions(a: Seq<Position>, b: Seq<Position>) -> bool {
    a.len() == b.len() && forall|i: int|
        #![trigger a[i]]
        #![trigger b[i]]
        0 <= i < a.len() ==> keeps_position(a[i], b[i])
}

fn visit_positions<E, F: FnMut(&ResourceSite, ResourceReference<'_>) -> Result<ResourceRewrite, E>>(
    list: &mut Vec<Position>,
    container: &ConnectivityContainer,
    connector_index: usize,
    connector: &String,
    kind: PositionKind,
    visitor: &mut F,
    stop: &mut Option<E>,
)
    requires
        accepts(*old(visitor)),
    ensures
        walk(
            *old(visitor),
            positions_slots(old(list)@, *container, connector_index, *connector, kind),
            positions_slots(final(list)@, *container, connector_index, *connector, kind),
            *old(stop),
            *final(stop),
        ),
        *final(visitor) == *old(visitor),
        keeps_positions(old(list)@, final(list)@),
{
    let ghost start = list@;
    let ghost f = *visitor;
    let ghost first = *stop;
    let ghost before = |i: int| position_slots(start[i], *container, connector_index, *connector, kind, i as usize);
    let n: usize = list.len();
    let mut i: usize = 0;
    proof {
        walk_nothing(f, first);
    }
    while i < n
        invariant
            i <= n == start.len() == list@.len(),
            accepts(f),
            *visitor == f,
            before == (|i: int| position_slots(start[i], *container, connector_index, *connector, kind, i as usize)),
            walk(
                f,
                flat(i as nat, before),
                flat(i as nat, |i: int| position_slots(list@[i], *container, connector_index, *connector, kind, i as usize)),
                first,
                *stop,
            ),
            forall|k: int|
                #![trigger start[k]]
                #![trigger list@[k]]
                0 <= k < i ==> keeps_position(start[k], list@[k]),
            forall|k: int| i <= k < n ==> list@[k] == start[k],
        decreases n - i,
    {
        let ghost had = list@;
        let ghost reached = *stop;
        let ghost done = |i: int| position_slots(had[i], *container, connector_index, *connector, kind, i as usize);
        visit_position(&mut list[i], container, connector_index, connector, kind, i, visitor, stop);
        proof {
            let now = |i: int| position_slots(list@[i], *container, connector_index, *connector, kind, i as usize);
            assert(list@ =~= had.update(i as int, list@[i as int]));
            flat_is_local(i as nat, done, now);
            walk_on(
                f,
                flat(i as nat, before),
                flat(i as nat, now),
                before(i as int),
                now(i as int),
                first,
                reached,
                *stop,
            );
        }
        i += 1;
    }
    proof {
        assert(keeps_positions(start, list@));
    }
}

/// The resources of a connector.
pub open spec fn connector_slots(x: Connector, container: ConnectivityContainer, index: usize) -> Seq<Slot> {
    representation_slots(x.representation, container, ConnectivityRepresentationOwner::Connector { index, name: x.name })
        + positions_slots(x.pin@, container, index, x.name, PositionKind::Pin)
        + positions_slots(x.socket@, container, index, x.name, PositionKind::Socket)
        + positions_slots(x.contact@, container, index, x.name, PositionKind::Contact)
        + positions_slots(x.fiber@, container, index, x.name, PositionKind::Fiber)
        + positions_slots(x.passage@, container, index, x.name, PositionKind::Passage)
        + positions_slots(x.feed@, container, index, x.name, PositionKind::Feed)
        + positions_slots(x.waveguide_opening@, container, index, x.name, PositionKind::WaveguideOpening)
}

/// Whether a connector is the same but for the addresses and digests of its resources.
pub open spec fn keeps_connector(x: Connector, y: Connector) -> bool {
    &&& y == (Connector { representation: y.representation, pin: y.pin, socket: y.socket, contact: y.contact, fiber: y.fiber, passage: y.passage, feed: y.feed, waveguide_opening: y.waveguide_opening, ..x })
    &&& keeps_representation(x.representation, y.representation)
    &&& keeps_positions(x.pin@, y.pin@)
    &&& keeps_positions(x.socket@, y.socket@)
    &&& keeps_positions(x.contact@, y.contact@)
    &&& keeps_positions(x.fiber@, y.fiber@)
    &&& keeps_positions(x.passage@, y.passage@)
    &&& keeps_positions(x.feed@, y.feed@)
    &&& keeps_positions(x.waveguide_opening@, y.waveguide_opening@)
}

fn visit_connector<E, F: FnMut(&ResourceSite, ResourceReference<'_>) -> Result<ResourceRewrite, E>>(
    x: &mut Connector,
    container: &ConnectivityContainer,
    index: usize,
    visitor: &mut F,
    stop: &mut Option<E>,
)
    requires
        accepts(*old(visitor)),
    ensures
        walk(
            *old(visitor),
            connector_slots(*old(x), *container, index),
            connector_slots(*final(x), *container, index),
            *old(stop),
            *final(stop),
        ),
        *final(visitor) == *old(visitor),
        keeps_connector(*old(x), *final(x)),
{
    let ghost f = *visitor;
    let ghost first = *stop;
    let ghost old_x = *x;
    let name = x.name.clone();
    visit_representation(&mut x.representation, container, ConnectivityRepresentationOwner::Connector { index, name: name.clone() }, visitor, stop);
    let ghost a = representation_slots(old_x.representation, *container, ConnectivityRepresentationOwner::Connector { index, name: name });
    let ghost b = representation_slots(x.representation, *container, ConnectivityRepresentationOwner::Connector { index, name: name });
    let ghost reached = *stop;
    visit_positions(&mut x.pin, container, index, &name, PositionKind::Pin, visitor, stop);
    proof {
        walk_on(f, a, b, positions_slots(old_x.pin@, *container, index, name, PositionKind::Pin), positions_slots(x.pin@, *container, index, name, PositionKind::Pin), first, reached, *stop);
    }
    let ghost a = a + positions_slots(old_x.pin@, *container, index, name, PositionKind::Pin);
    let ghost b = b + positions_slots(x.pin@, *container, index, name, PositionKind::Pin);
    let ghost reached = *stop;
    visit_positions(&mut x.socket, container, index, &name, PositionKind::Socket, visitor, stop);
    proof {
        walk_on(f, a, b, positions_slots(old_x.socket@, *container, index, name, PositionKind::Socket), positions_slots(x.socket@, *container, index, name, PositionKind::Socket), first, reached, *stop);
    }
    let ghost a = a + positions_slots(old_x.socket@, *container, index, name, PositionKind::Socket);
    let ghost b = b + positions_slots(x.socket@, *container, index, name, PositionKind::Socket);
    let ghost reached = *stop;
    visit_positions(&mut x.contact, container, index, &name, PositionKind::Contact, visitor, stop);
    proof {
        walk_on(f, a, b, positions_slots(old_x.contact@, *container, index, name, PositionKind::Contact), positions_slots(x.contact@, *container, index, name, PositionKind::Contact), first, reached, *stop);
    }
    let ghost a = a + positions_slots(old_x.contact@, *container, index, name, PositionKind::Contact);
    let ghost b = b + positions_slots(x.contact@, *container, index, name, PositionKind::Contact);
    let ghost reached = *stop;
    visit_positions(&mut x.fiber, container, index, &name, PositionKind::Fiber, visitor, stop);
    proof {
        walk_on(f, a, b, positions_slots(old_x.fiber@, *container, index, name, PositionKind::Fiber), positions_slots(x.fiber@, *container, index, name, PositionKind::Fiber), first, reached, *stop);
    }
    let ghost a = a + positions_slots(old_x.fiber@, *container, index, name, PositionKind::Fiber);
    let ghost b = b + positions_slots(x.fiber@, *container, index, name, PositionKind::Fiber);
    let ghost reached = *stop;
    visit_positions(&mut x.passage, container, index, &name, PositionKind::Passage, visitor, stop);
    proof {
        walk_on(f, a, b, positions_slots(old_x.passage@, *container, index, name, PositionKind::Passage), positions_slots(x.passage@, *container, index, name, PositionKind::Passage), first, reached, *stop);
    }
    let ghost a = a + positions_slots(old_x.passage@, *container, index, name, PositionKind::Passage);
    let ghost b = b + positions_slots(x.passage@, *container, index, name, PositionKind::Passage);
    let ghost reached = *stop;
    visit_positions(&mut x.feed, container, index, &name, PositionKind::Feed, visitor, stop);
    proof {
        walk_on(f, a, b, positions_slots(old_x.feed@, *container, index, name, PositionKind::Feed), positions_slots(x.feed@, *container, index, name, PositionKind::Feed), first, reached, *stop);
    }
    let ghost a = a + positions_slots(old_x.feed@, *container, index, name, PositionKind::Feed);
    let ghost b = b + positions_slots(x.feed@, *container, index, name, PositionKind::Feed);
    let ghost reached = *stop;
    visit_positions(&mut x.waveguide_opening, container, index, &name, PositionKind::WaveguideOpening, visitor, stop);
    proof {
        walk_on(f, a, b, positions_slots(old_x.waveguide_opening@, *container, index, name, PositionKind::WaveguideOpening), positions_slots(x.waveguide_opening@, *container, index, name, PositionKind::WaveguideOpening), first, reached, *stop);
    }
    let ghost a = a + positions_slots(old_x.waveguide_opening@, *container, index, name, PositionKind::WaveguideOpening);
    let ghost b = b + positions_slots(x.waveguide_opening@, *container, index, name, PositionKind::WaveguideOpening);
}

/// The resources of connectors.
pub open spec fn connectors_slots(list: Seq<Connector>, container: ConnectivityContainer) -> Seq<Slot> {
    flat(list.len(), |i: int| connector_slots(list[i], container, i as usize))
}

/// Whether connectors are the same but for the addresses and digests of their resources.
pub open spec fn keeps_connectors(a: Seq<Connector>, b: Seq<Connector>) -> bool {
    a.len() == b.len() && forall|i: int|
        #![trigger a[i]]
        #![trigger b[i]]
        0 <= i < a.len() ==> keeps_connector(a[i], b[i])
}

fn visit_connectors<E, F: FnMut(&ResourceSite, ResourceReference<'_>) -> Result<ResourceRewrite, E>>(
    list: &mut Vec<Connector>,
    container: &ConnectivityContainer,
    visitor: &mut F,
    stop: &mut Option<E>,
)
    requires
        accepts(*old(visitor)),
    ensures
        walk(
            *old(visitor),
            connectors_slots(old(list)@, *container),
            connectors_slots(final(list)@, *container),
            *old(stop),
            *final(stop),
        ),
        *final(visitor) == *old(visitor),
        keeps_connectors(old(list)@, final(list)@),
{
    let ghost start = list@;
    let ghost f = *visitor;
    let ghost first = *stop;
    let ghost before = |i: int| connector_slots(start[i], *container, i as usize);
    let n: usize = list.len();
    let mut i: usize = 0;
    proof {
        walk_nothing(f, first);
    }
    while i < n
        invariant
            i <= n == start.len() == list@.len(),
            accepts(f),
            *visitor == f,
            before == (|i: int| connector_slots(start[i], *container, i as usize)),
            walk(
                f,
                flat(i as nat, before),
                flat(i as nat, |i: int| connector_slots(list@[i], *container, i as usize)),
                first,
                *stop,
            ),
            forall|k: int|
                #![trigger start[k]]
                #![trigger list@[k]]
                0 <= k < i ==> keeps_connector(start[k], list@[k]),
            forall|k: int| i <= k < n ==> list@[k] == start[k],
        decreases n - i,
    {
        let ghost had = list@;
        let ghost reached = *stop;
        let ghost done = |i: int| connector_slots(had[i], *container, i as usize);
        visit_connector(&mut list[i], container, i, visitor, stop);
        proof {
            let now = |i: int| connector_slots(list@[i], *container, i as usize);
            assert(list@ =~= had.update(i as int, list@[i as int]));
            flat_is_local(i as nat, done, now);
            walk_on(
                f,
                flat(i as nat, before),
                flat(i as nat, now),
                before(i as int),
                now(i as int),
                first,
                reached,
                *stop,
            );
        }
        i += 1;
    }
    proof {
        assert(keeps_connectors(start, list@));
    }
}

/// The resources of an antenna.
pub open spec fn antenna_slots(x: Antenna, container: ConnectivityContainer, index: usize) -> Seq<Slot> {
    representation_slots(x.representation, container, ConnectivityRepresentationOwner::Antenna { index, name: x.name })
}

/// Whether an antenna is the same but for the addresses and digests of its resources.
pub open spec fn keeps_antenna(x: Antenna, y: Antenna) -> bool {
    y == (Antenna { representation: y.representation, ..x }) && keeps_representation(
        x.representation,
        y.representation,
    )
}

fn visit_antenna<E, F: FnMut(&ResourceSite, ResourceReference<'_>) -> Result<ResourceRewrite, E>>(
    x: &mut Antenna,
    container: &ConnectivityContainer,
    index: usize,
    visitor: &mut F,
    stop: &mut Option<E>,
)
    requires
        accepts(*old(visitor)),
    ensures
        walk(
            *old(visitor),
            antenna_slots(*old(x), *container, index),
            antenna_slots(*final(x), *container, index),
            *old(stop),
            *final(stop),
        ),
        *final(visitor) == *old(visitor),
        keeps_antenna(*old(x), *final(x)),
{
    let owner = ConnectivityRepresentationOwner::Antenna { index, name: x.name.clone() };
    visit_representation(&mut x.representation, container, owner, visitor, stop);
}

/// The resources of antennas.
pub open spec fn antennas_slots(list: Seq<Antenna>, container: ConnectivityContainer) -> Seq<Slot> {
    flat(list.len(), |i: int| antenna_slots(list[i], container, i as usize))
}

/// Whether antennas are the same but for the addresses and digests of their resources.
pub open spec fn keeps_antennas(a: Seq<Antenna>, b: Seq<Antenna>) -> bool {
    a.len() == b.len() && forall|i: int|
        #![trigger a[i]]
        #![trigger b[i]]
        0 <= i < a.len() ==> keeps_antenna(a[i], b[i])
}

fn visit_antennas<E, F: FnMut(&ResourceSite, ResourceReference<'_>) -> Result<ResourceRewrite, E>>(
    list: &mut Vec<Antenna>,
    container: &ConnectivityContainer,
    visitor: &mut F,
    stop: &mut Option<E>,
)
    requires
        accepts(*old(visitor)),
    ensures
        walk(
            *old(visitor),
            antennas_slots(old(list)@, *container),
            antennas_slots(final(list)@, *container),
            *old(stop),
            *final(stop),
        ),
        *final(visitor) == *old(visitor),
        keeps_antennas(old(list)@, final(list)@),
{
    let ghost start = list@;
    let ghost f = *visitor;
    let ghost first = *stop;
    let ghost before = |i: int| antenna_slots(start[i], *container, i as usize);
    let n: usize = list.len();
    let mut i: usize = 0;
    proof {
        walk_nothing(f, first);
    }
    while i < n
        invariant
            i <= n == start.len() == list@.len(),
            accepts(f),
            *visitor == f,
            before == (|i: int| antenna_slots(start[i], *container, i as usize)),
            walk(
                f,
                flat(i as nat, before),
                flat(i as nat, |i: int| antenna_slots(list@[i], *container, i as usize)),
                first,
                *stop,
            ),
            forall|k: int|
                #![trigger start[k]]
                #![trigger list@[k]]
                0 <= k < i ==> keeps_antenna(start[k], list@[k]),
            forall|k: int| i <= k < n ==> list@[k] == start[k],
        decreases n - i,
    {
        let ghost had = list@;
        let ghost reached = *stop;
        let ghost done = |i: int| antenna_slots(had[i], *container, i as usize);
        visit_antenna(&mut list[i], container, i, visitor, stop);
        proof {
            let now = |i: int| antenna_slots(list@[i], *container, i as usize);
            assert(list@ =~= had.update(i as int, list@[i as int]));
            flat_is_local(i as nat, done, now);
            walk_on(
                f,
                flat(i as nat, before),
                flat(i as nat, now),
                before(i as int),
                now(i as int),
                first,
                reached,
                *stop,
            );
        }
        i += 1;
    }
    proof {
        assert(keeps_antennas(start, list@));
    }
}

/// The resources of a path.
pub open spec fn path_slots(x: Path, container: ConnectivityContainer, kind: PathKind, index: usize) -> Seq<Slot> {
    representation_slots(x.representation, container, ConnectivityRepresentationOwner::Path { kind, index, name: x.name })
}

/// Whether a path is the same but for the addresses and digests of its resources.
pub open spec fn keeps_path(x: Path, y: Path) -> bool {
    y == (Path { representation: y.representation, ..x }) && keeps_representation(
        x.representation,
        y.representation,
    )
}

fn visit_path<E, F: FnMut(&ResourceSite, ResourceReference<'_>) -> Result<ResourceRewrite, E>>(
    x: &mut Path,
    container: &ConnectivityContainer,
    kind: PathKind,
    index: usize,
    visitor: &mut F,
    stop: &mut Option<E>,
)
    requires
        accepts(*old(visitor)),
    ensures
        walk(
            *old(visitor),
            path_slots(*old(x), *container, kind, index),
            path_slots(*final(x), *container, kind, index),
            *old(stop),
            *final(stop),
        ),
        *final(visitor) == *old(visitor),
        keeps_path(*old(x), *final(x)),
{
    let owner = ConnectivityRepresentationOwner::Path { kind, index, name: x.name.clone() };
    visit_representation(&mut x.representation, container, owner, visitor, stop);
}

/// The resources of paths.
pub open spec fn paths_slots(list: Seq<Path>, container: ConnectivityContainer, kind: PathKind) -> Seq<Slot> {
    flat(list.len(), |i: int| path_slots(list[i], container, kind, i as usize))
}

/// Whether paths are the same but for the addresses and digests of their resources.
pub open spec fn keeps_paths(a: Seq<Path>, b: Seq<Path>) -> bool {
    a.len() == b.len() && forall|i: int|
        #![trigger a[i]]
        #![trigger b[i]]
        0 <= i < a.len() ==> keeps_path(a[i], b[i])
}

fn visit_paths<E, F: FnMut(&ResourceSite, ResourceReference<'_>) -> Result<ResourceRewrite, E>>(
    list: &mut Vec<Path>,
    container: &ConnectivityContainer,
    kind: PathKind,
    visitor: &mut F,
    stop: &mut Option<E>,
)
    requires
        accepts(*old(visitor)),
    ensures
        walk(
            *old(visitor),
            paths_slots(old(list)@, *container, kind),
            paths_slots(final(list)@, *container, kind),
            *old(stop),
            *final(stop),
        ),
        *final(visitor) == *old(visitor),
        keeps_paths(old(list)@, final(list)@),
{
    let ghost start = list@;
    let ghost f = *visitor;
    let ghost first = *stop;
    let ghost before = |i: int| path_slots(start[i], *container, kind, i as usize);
    let n: usize = list.len();
    let mut i: usize = 0;
    proof {
        walk_nothing(f, first);
    }
    while i < n
        invariant
            i <= n == start.len() == list@.len(),
            accepts(f),
            *visitor == f,
            before == (|i: int| path_slots(start[i], *container, kind, i as usize)),
            walk(
                f,
                flat(i as nat, before),
                flat(i as nat, |i: int| path_slots(list@[i], *container, kind, i as usize)),
                first,
                *stop,
            ),
            forall|k: int|
                #![trigger start[k]]
                #![trigger list@[k]]
                0 <= k < i ==> keeps_path(start[k], list@[k]),
            forall|k: int| i <= k < n ==> list@[k] == start[k],
        decreases n - i,
    {
        let ghost had = list@;
        let ghost reached = *stop;
        let ghost done = |i: int| path_slots(had[i], *container, kind, i as usize);
        visit_path(&mut list[i], container, kind, i, visitor, stop);
        proof {
            let now = |i: int| path_slots(list@[i], *container, kind, i as usize);
            assert(list@ =~= had.update(i as int, list@[i as int]));
            flat_is_local(i as nat, done, now);
            walk_on(
                f,
                flat(i as nat, before),
                flat(i as nat, now),
                before(i as int),
                now(i as int),
                first,
                reached,
                *stop,
            );
        }
        i += 1;
    }
    proof {
        assert(keeps_paths(start, list@));
    }
}

/// The resources of a junction.
pub open spec fn junction_slots(x: Junction, container: ConnectivityContainer, kind: JunctionKind, index: usize) -> Seq<Slot> {
    representation_slots(x.representation, container, ConnectivityRepresentationOwner::Junction { kind, index, name: x.name })
}

/// Whether a junction is the same but for the addresses and digests of its resources.
pub open spec fn keeps_junction(x: Junction, y: Junction) -> bool {
    y == (Junction { representation: y.representation, ..x }) && keeps_representation(
        x.representation,
        y.representation,
    )
}

fn visit_junction<E, F: FnMut(&ResourceSite, ResourceReference<'_>) -> Result<ResourceRewrite, E>>(
    x: &mut Junction,
    container: &ConnectivityContainer,
    kind: JunctionKind,
    index: usize,
    visitor: &mut F,
    stop: &mut Option<E>,
)
    requires
        accepts(*old(visitor)),
    ensures
        walk(
            *old(visitor),
            junction_slots(*old(x), *container, kind, index),
            junction_slots(*final(x), *container, kind, index),
            *old(stop),
            *final(stop),
        ),
        *final(visitor) == *old(visitor),
        keeps_junction(*old(x), *final(x)),
{
    let owner = ConnectivityRepresentationOwner::Junction { kind, index, name: x.name.clone() };
    visit_representation(&mut x.representation, container, owner, visitor, stop);
}

/// The resources of junctions.
pub open spec fn junctions_slots(list: Seq<Junction>, container: ConnectivityContainer, kind: JunctionKind) -> Seq<Slot> {
    flat(list.len(), |i: int| junction_slots(list[i], container, kind, i as usize))
}

/// Whether junctions are the same but for the addresses and digests of their resources.
pub open spec fn keeps_junctions(a: Seq<Junction>, b: Seq<Junction>) -> bool {
    a.len() == b.len() && forall|i: int|
        #![trigger a[i]]
        #![trigger b[i]]
        0 <= i < a.len() ==> keeps_junction(a[i], b[i])
}

fn visit_junctions<E, F: FnMut(&ResourceSite, ResourceReference<'_>) -> Result<ResourceRewrite, E>>(
    list: &mut Vec<Junction>,
    container: &ConnectivityContainer,
    kind: JunctionKind,
    visitor: &mut F,
    stop: &mut Option<E>,
)
    requires
        accepts(*old(visitor)),
    ensures
        walk(
            *old(visitor),
            junctions_slots(old(list)@, *container, kind),
            junctions_slots(final(list)@, *container, kind),
            *old(stop),
            *final(stop),
        ),
        *final(visitor) == *old(visitor),
        keeps_junctions(old(list)@, final(list)@),
{
    let ghost start = list@;
    let ghost f = *visitor;
    let ghost first = *stop;
    let ghost before = |i: int| junction_slots(start[i], *container, kind, i as usize);
    let n: usize = list.len();
    let mut i: usize = 0;
    proof {
        walk_nothing(f, first);
    }
    while i < n
        invariant
            i <= n == start.len() == list@.len(),
            accepts(f),
            *visitor == f,
            before == (|i: int| junction_slots(start[i], *container, kind, i as usize)),
            walk(
                f,
                flat(i as nat, before),
                flat(i as nat, |i: int| junction_slots(list@[i], *container, kind, i as usize)),
                first,
                *stop,
            ),
            forall|k: int|
                #![trigger start[k]]
                #![trigger list@[k]]
                0 <= k < i ==> keeps_junction(start[k], list@[k]),
            forall|k: int| i <= k < n ==> list@[k] == start[k],
        decreases n - i,
    {
        let ghost had = list@;
        let ghost reached = *stop;
        let ghost done = |i: int| junction_slots(had[i], *container, kind, i as usize);
        visit_junction(&mut list[i], container, kind, i, visitor, stop);
        proof {
            let now = |i: int| junction_slots(list@[i], *container, kind, i as usize);
            assert(list@ =~= had.update(i as int, list@[i as int]));
            flat_is_local(i as nat, done, now);
            walk_on(
                f,
                flat(i as nat, before),
                flat(i as nat, now),
                before(i as int),
                now(i as int),
                first,
                reached,
                *stop,
            );
        }
        i += 1;
    }
    proof {
        assert(keeps_junctions(start, list@));
    }
}

/// The resources of a termination.
pub open spec fn termination_slots(x: Termination, container: ConnectivityContainer, index: usize) -> Seq<Slot> {
    representation_slots(x.representation, container, ConnectivityRepresentationOwner::Termination { index, name: x.name })
}

/// Whether a termination is the same but for the addresses and digests of its resources.
pub open spec fn keeps_termination(x: Termination, y: Termination) -> bool {
    y == (Termination { representation: y.representation, ..x }) && keeps_representation(
        x.representation,
        y.representation,
    )
}

fn visit_termination<E, F: FnMut(&ResourceSite, ResourceReference<'_>) -> Result<ResourceRewrite, E>>(
    x: &mut Termination,
    container: &ConnectivityContainer,
    index: usize,
    visitor: &mut F,
    stop: &mut Option<E>,
)
    requires
        accepts(*old(visitor)),
    ensures
        walk(
            *old(visitor),
            termination_slots(*old(x), *container, index),
            termination_slots(*final(x), *container, index),
            *old(stop),
            *final(stop),
        ),
        *final(visitor) == *old(visitor),
        keeps_termination(*old(x), *final(x)),
{
    let owner = ConnectivityRepresentationOwner::Termination { index, name: x.name.clone() };
    visit_representation(&mut x.representation, container, owner, visitor, stop);
}

/// The resources of terminations.
pub open spec fn terminations_slots(list: Seq<Termination>, container: ConnectivityContainer) -> Seq<Slot> {
    flat(list.len(), |i: int| termination_slots(list[i], container, i as usize))
}

/// Whether terminations are the same but for the addresses and digests of their resources.
pub open spec fn keeps_terminations(a: Seq<Termination>, b: Seq<Termination>) -> bool {
    a.len() == b.len() && forall|i: int|
        #![trigger a[i]]
        #![trigger b[i]]
        0 <= i < a.len() ==> keeps_termination(a[i], b[i])
}

fn visit_terminations<E, F: FnMut(&ResourceSite, ResourceReference<'_>) -> Result<ResourceRewrite, E>>(
    list: &mut Vec<Termination>,
    container: &ConnectivityContainer,
    visitor: &mut F,
    stop: &mut Option<E>,
)
    requires
        accepts(*old(visitor)),
    ensures
        walk(
            *old(visitor),
            terminations_slots(old(list)@, *container),
            terminations_slots(final(list)@, *container),
            *old(stop),
            *final(stop),
        ),
        *final(visitor) == *old(visitor),
        keeps_terminations(old(list)@, final(list)@),
{
    let ghost start = list@;
    let ghost f = *visitor;
    let ghost first = *stop;
    let ghost before = |i: int| termination_slots(start[i], *container, i as usize);
    let n: usize = list.len();
    let mut i: usize = 0;
    proof {
        walk_nothing(f, first);
    }
    while i < n
        invariant
            i <= n == start.len() == list@.len(),
            accepts(f),
            *visitor == f,
            before == (|i: int| termination_slots(start[i], *container, i as usize)),
            walk(
                f,
                flat(i as nat, before),
                flat(i as nat, |i: int| termination_slots(list@[i], *container, i as usize)),
                first,
                *stop,
            ),
            forall|k: int|
                #![trigger start[k]]
                #![trigger list@[k]]
                0 <= k < i ==> keeps_termination(start[k], list@[k]),
            forall|k: int| i <= k < n ==> list@[k] == start[k],
        decreases n - i,
    {
        let ghost had = list@;
        let ghost reached = *stop;
        let ghost done = |i: int| termination_slots(had[i], *container, i as usize);
        visit_termination(&mut list[i], container, i, visitor, stop);
        proof {
            let now = |i: int| termination_slots(list@[i], *container, i as usize);
            assert(list@ =~= had.update(i as int, list@[i as int]));
            flat_is_local(i as nat, done, now);
            walk_on(
                f,
                flat(i as nat, before),
                flat(i as nat, now),
                before(i as int),
                now(i as int),
                first,
                reached,
                *stop,
            );
        }
        i += 1;
    }
    proof {
        assert(keeps_terminations(start, list@));
    }
}

/// The assembly that its connectivity elements belong to.
pub open spec fn assembly_container(name: String, kind: AssemblyKind, index: usize) ->
    ConnectivityContainer {
    ConnectivityContainer::Assembly { kind, assembly_index: index, assembly: name }
}

/// The component that its connectivity elements belong to.
pub open spec fn component_container(name: String, index: usize) -> ConnectivityContainer {
    ConnectivityContainer::Component { component_index: index, component: name }
}

/// The resources of an assembly.
#[verifier::opaque]
pub open spec fn assembly_slots(x: Assembly, kind: AssemblyKind, index: usize) -> Seq<Slot> {
    connectors_slots(x.connector@, assembly_container(x.name, kind, index))
        + paths_slots(x.wire@, assembly_container(x.name, kind, index), PathKind::Wire)
        + paths_slots(x.conductor@, assembly_container(x.name, kind, index), PathKind::Conductor)
        + paths_slots(x.cable_member@, assembly_container(x.name, kind, index), PathKind::CableMember)
        + paths_slots(x.fiber@, assembly_container(x.name, kind, index), PathKind::Fiber)
        + paths_slots(x.coax@, assembly_container(x.name, kind, index), PathKind::Coax)
        + paths_slots(x.waveguide@, assembly_container(x.name, kind, index), PathKind::Waveguide)
        + paths_slots(x.feed@, assembly_container(x.name, kind, index), PathKind::Feed)
        + paths_slots(x.hose@, assembly_container(x.name, kind, index), PathKind::Hose)
        + paths_slots(x.pipe@, assembly_container(x.name, kind, index), PathKind::Pipe)
        + paths_slots(x.passage@, assembly_container(x.name, kind, index), PathKind::Passage)
        + junctions_slots(x.splice@, assembly_container(x.name, kind, index), JunctionKind::Splice)
        + junctions_slots(x.tee@, assembly_container(x.name, kind, index), JunctionKind::Tee)
        + junctions_slots(x.manifold@, assembly_container(x.name, kind, index), JunctionKind::Manifold)
        + junctions_slots(x.busbar@, assembly_container(x.name, kind, index), JunctionKind::Busbar)
        + junctions_slots(x.optical_splitter@, assembly_container(x.name, kind, index), JunctionKind::OpticalSplitter)
        + terminations_slots(x.termination@, assembly_container(x.name, kind, index))
        + representation_slots(x.representation, assembly_container(x.name, kind, index), ConnectivityRepresentationOwner::Assembly)
}

/// Whether an assembly is the same but for the addresses and digests of its resources.
#[verifier::opaque]
pub open spec fn keeps_assembly(x: Assembly, y: Assembly) -> bool {
    &&& y == (Assembly { representation: y.representation, connector: y.connector, wire: y.wire, conductor: y.conductor, cable_member: y.cable_member, fiber: y.fiber, coax: y.coax, waveguide: y.waveguide, feed: y.feed, hose: y.hose, pipe: y.pipe, passage: y.passage, splice: y.splice, tee: y.tee, manifold: y.manifold, busbar: y.busbar, optical_splitter: y.optical_splitter, termination: y.termination, ..x })
    &&& keeps_representation(x.representation, y.representation)
    &&& keeps_connectors(x.connector@, y.connector@)
    &&& keeps_paths(x.wire@, y.wire@)
    &&& keeps_paths(x.conductor@, y.conductor@)
    &&& keeps_paths(x.cable_member@, y.cable_member@)
    &&& keeps_paths(x.fiber@, y.fiber@)
    &&& keeps_paths(x.coax@, y.coax@)
    &&& keeps_paths(x.waveguide@, y.waveguide@)
    &&& keeps_paths(x.feed@, y.feed@)
    &&& keeps_paths(x.hose@, y.hose@)
    &&& keeps_paths(x.pipe@, y.pipe@)
    &&& keeps_paths(x.passage@, y.passage@)
    &&& keeps_junctions(x.splice@, y.splice@)
    &&& keeps_junctions(x.tee@, y.tee@)
    &&& keeps_junctions(x.manifold@, y.manifold@)
    &&& keeps_junctions(x.busbar@, y.busbar@)
    &&& keeps_junctions(x.optical_splitter@, y.optical_splitter@)
    &&& keeps_terminations(x.termination@, y.termination@)
}

fn visit_assembly<E, F: FnMut(&ResourceSite, ResourceReference<'_>) -> Result<ResourceRewrite, E>>(
    x: &mut Assembly,
    kind: AssemblyKind,
    index: usize,
    visitor: &mut F,
    stop: &mut Option<E>,
)
    requires
        accepts(*old(visitor)),
    ensures
        walk(
            *old(visitor),
            assembly_slots(*old(x), kind, index),
            assembly_slots(*final(x), kind, index),
            *old(stop),
            *final(stop),
        ),
        *final(visitor) == *old(visitor),
        keeps_assembly(*old(x), *final(x)),
{
    proof {
        reveal(assembly_slots);
        reveal(keeps_assembly);
    }
    let ghost f = *visitor;
    let ghost first = *stop;
    let ghost old_x = *x;
    let container = ConnectivityContainer::Assembly {
        kind,
        assembly_index: index,
        assembly: x.name.clone(),
    };
    visit_connectors(&mut x.connector, &container, visitor, stop);
    let ghost a = connectors_slots(old_x.connector@, assembly_container(old_x.name, kind, index));
    let ghost b = connectors_slots(x.connector@, assembly_container(x.name, kind, index));
    let ghost reached = *stop;
    visit_paths(&mut x.wire, &container, PathKind::Wire, visitor, stop);
    proof {
        walk_on(f, a, b, paths_slots(old_x.wire@, assembly_container(old_x.name, kind, index), PathKind::Wire), paths_slots(x.wire@, assembly_container(x.name, kind, index), PathKind::Wire), first, reached, *stop);
    }
    let ghost a = a + paths_slots(old_x.wire@, assembly_container(old_x.name, kind, index), PathKind::Wire);
    let ghost b = b + paths_slots(x.wire@, assembly_container(x.name, kind, index), PathKind::Wire);
    let ghost reached = *stop;
    visit_paths(&mut x.conductor, &container, PathKind::Conductor, visitor, stop);
    proof {
        walk_on(f, a, b, paths_slots(old_x.conductor@, assembly_container(old_x.name, kind, index), PathKind::Conductor), paths_slots(x.conductor@, assembly_container(x.name, kind, index), PathKind::Conductor), first, reached, *stop);
    }
    let ghost a = a + paths_slots(old_x.conductor@, assembly_container(old_x.name, kind, index), PathKind::Conductor);
    let ghost b = b + paths_slots(x.conductor@, assembly_container(x.name, kind, index), PathKind::Conductor);
    let ghost reached = *stop;
    visit_paths(&mut x.cable_member, &container, PathKind::CableMember, visitor, stop);
    proof {
        walk_on(f, a, b, paths_slots(old_x.cable_member@, assembly_container(old_x.name, kind, index), PathKind::CableMember), paths_slots(x.cable_member@, assembly_container(x.name, kind, index), PathKind::CableMember), first, reached, *stop);
    }
    let ghost a = a + paths_slots(old_x.cable_member@, assembly_container(old_x.name, kind, index), PathKind::CableMember);
    let ghost b = b + paths_slots(x.cable_member@, assembly_container(x.name, kind, index), PathKind::CableMember);
    let ghost reached = *stop;
    visit_paths(&mut x.fiber, &container, PathKind::Fiber, visitor, stop);
    proof {
        walk_on(f, a, b, paths_slots(old_x.fiber@, assembly_container(old_x.name, kind, index), PathKind::Fiber), paths_slots(x.fiber@, assembly_container(x.name, kind, index), PathKind::Fiber), first, reached, *stop);
    }
    let ghost a = a + paths_slots(old_x.fiber@, assembly_container(old_x.name, kind, index), PathKind::Fiber);
    let ghost b = b + paths_slots(x.fiber@, assembly_container(x.name, kind, index), PathKind::Fiber);
    let ghost reached = *stop;
    visit_paths(&mut x.coax, &container, PathKind::Coax, visitor, stop);
    proof {
        walk_on(f, a, b, paths_slots(old_x.coax@, assembly_container(old_x.name, kind, index), PathKind::Coax), paths_slots(x.coax@, assembly_container(x.name, kind, index), PathKind::Coax), first, reached, *stop);
    }
    let ghost a = a + paths_slots(old_x.coax@, assembly_container(old_x.name, kind, index), PathKind::Coax);
    let ghost b = b + paths_slots(x.coax@, assembly_container(x.name, kind, index), PathKind::Coax);
    let ghost reached = *stop;
    visit_paths(&mut x.waveguide, &container, PathKind::Waveguide, visitor, stop);
    proof {
        walk_on(f, a, b, paths_slots(old_x.waveguide@, assembly_container(old_x.name, kind, index), PathKind::Waveguide), paths_slots(x.waveguide@, assembly_container(x.name, kind, index), PathKind::Waveguide), first, reached, *stop);
    }
    let ghost a = a + paths_slots(old_x.waveguide@, assembly_container(old_x.name, kind, index), PathKind::Waveguide);
    let ghost b = b + paths_slots(x.waveguide@, assembly_container(x.name, kind, index), PathKind::Waveguide);
    let ghost reached = *stop;
    visit_paths(&mut x.feed, &container, PathKind::Feed, visitor, stop);
    proof {
        walk_on(f, a, b, paths_slots(old_x.feed@, assembly_container(old_x.name, kind, index), PathKind::Feed), paths_slots(x.feed@, assembly_container(x.name, kind, index), PathKind::Feed), first, reached, *stop);
    }
    let ghost a = a + paths_slots(old_x.feed@, assembly_container(old_x.name, kind, index), PathKind::Feed);
    let ghost b = b + paths_slots(x.feed@, assembly_container(x.name, kind, index), PathKind::Feed);
    let ghost reached = *stop;
    visit_paths(&mut x.hose, &container, PathKind::Hose, visitor, stop);
    proof {
        walk_on(f, a, b, paths_slots(old_x.hose@, assembly_container(old_x.name, kind, index), PathKind::Hose), paths_slots(x.hose@, assembly_container(x.name, kind, index), PathKind::Hose), first, reached, *stop);
    }
    let ghost a = a + paths_slots(old_x.hose@, assembly_container(old_x.name, kind, index), PathKind::Hose);
    let ghost b = b + paths_slots(x.hose@, assembly_container(x.name, kind, index), PathKind::Hose);
    let ghost reached = *stop;
    visit_paths(&mut x.pipe, &container, PathKind::Pipe, visitor, stop);
    proof {
        walk_on(f, a, b, paths_slots(old_x.pipe@, assembly_container(old_x.name, kind, index), PathKind::Pipe), paths_slots(x.pipe@, assembly_container(x.name, kind, index), PathKind::Pipe), first, reached, *stop);
    }
    let ghost a = a + paths_slots(old_x.pipe@, assembly_container(old_x.name, kind, index), PathKind::Pipe);
    let ghost b = b + paths_slots(x.pipe@, assembly_container(x.name, kind, index), PathKind::Pipe);
    let ghost reached = *stop;
    visit_paths(&mut x.passage, &container, PathKind::Passage, visitor, stop);
    proof {
        walk_on(f, a, b, paths_slots(old_x.passage@, assembly_container(old_x.name, kind, index), PathKind::Passage), paths_slots(x.passage@, assembly_container(x.name, kind, index), PathKind::Passage), first, reached, *stop);
    }
    let ghost a = a + paths_slots(old_x.passage@, assembly_container(old_x.name, kind, index), PathKind::Passage);
    let ghost b = b + paths_slots(x.passage@, assembly_container(x.name, kind, index), PathKind::Passage);
    let ghost reached = *stop;
    visit_junctions(&mut x.splice, &container, JunctionKind::Splice, visitor, stop);
    proof {
        walk_on(f, a, b, junctions_slots(old_x.splice@, assembly_container(old_x.name, kind, index), JunctionKind::Splice), junctions_slots(x.splice@, assembly_container(x.name, kind, index), JunctionKind::Splice), first, reached, *stop);
    }
    let ghost a = a + junctions_slots(old_x.splice@, assembly_container(old_x.name, kind, index), JunctionKind::Splice);
    let ghost b = b + junctions_slots(x.splice@, assembly_container(x.name, kind, index), JunctionKind::Splice);
    let ghost reached = *stop;
    visit_junctions(&mut x.tee, &container, JunctionKind::Tee, visitor, stop);
    proof {
        walk_on(f, a, b, junctions_slots(old_x.tee@, assembly_container(old_x.name, kind, index), JunctionKind::Tee), junctions_slots(x.tee@, assembly_container(x.name, kind, index), JunctionKind::Tee), first, reached, *stop);
    }
    let ghost a = a + junctions_slots(old_x.tee@, assembly_container(old_x.name, kind, index), JunctionKind::Tee);
    let ghost b = b + junctions_slots(x.tee@, assembly_container(x.name, kind, index), JunctionKind::Tee);
    let ghost reached = *stop;
    visit_junctions(&mut x.manifold, &container, JunctionKind::Manifold, visitor, stop);
    proof {
        walk_on(f, a, b, junctions_slots(old_x.manifold@, assembly_container(old_x.name, kind, index), JunctionKind::Manifold), junctions_slots(x.manifold@, assembly_container(x.name, kind, index), JunctionKind::Manifold), first, reached, *stop);
    }
    let ghost a = a + junctions_slots(old_x.manifold@, assembly_container(old_x.name, kind, index), JunctionKind::Manifold);
    let ghost b = b + junctions_slots(x.manifold@, assembly_container(x.name, kind, index), JunctionKind::Manifold);
    let ghost reached = *stop;
    visit_junctions(&mut x.busbar, &container, JunctionKind::Busbar, visitor, stop);
    proof {
        walk_on(f, a, b, junctions_slots(old_x.busbar@, assembly_container(old_x.name, kind, index), JunctionKind::Busbar), junctions_slots(x.busbar@, assembly_container(x.name, kind, index), JunctionKind::Busbar), first, reached, *stop);
    }
    let ghost a = a + junctions_slots(old_x.busbar@, assembly_container(old_x.name, kind, index), JunctionKind::Busbar);
    let ghost b = b + junctions_slots(x.busbar@, assembly_container(x.name, kind, index), JunctionKind::Busbar);
    let ghost reached = *stop;
    visit_junctions(&mut x.optical_splitter, &container, JunctionKind::OpticalSplitter, visitor, stop);
    proof {
        walk_on(f, a, b, junctions_slots(old_x.optical_splitter@, assembly_container(old_x.name, kind, index), JunctionKind::OpticalSplitter), junctions_slots(x.optical_splitter@, assembly_container(x.name, kind, index), JunctionKind::OpticalSplitter), first, reached, *stop);
    }
    let ghost a = a + junctions_slots(old_x.optical_splitter@, assembly_container(old_x.name, kind, index), JunctionKind::OpticalSplitter);
    let ghost b = b + junctions_slots(x.optical_splitter@, assembly_container(x.name, kind, index), JunctionKind::OpticalSplitter);
    let ghost reached = *stop;
    visit_terminations(&mut x.termination, &container, visitor, stop);
    proof {
        walk_on(f, a, b, terminations_slots(old_x.termination@, assembly_container(old_x.name, kind, index)), terminations_slots(x.termination@, assembly_container(x.name, kind, index)), first, reached, *stop);
    }
    let ghost a = a + terminations_slots(old_x.termination@, assembly_container(old_x.name, kind, index));
    let ghost b = b + terminations_slots(x.termination@, assembly_container(x.name, kind, index));
    let ghost reached = *stop;
    visit_representation(&mut x.representation, &container, ConnectivityRepresentationOwner::Assembly, visitor, stop);
    proof {
        walk_on(f, a, b, representation_slots(old_x.representation, assembly_container(old_x.name, kind, index), ConnectivityRepresentationOwner::Assembly), representation_slots(x.representation, assembly_container(x.name, kind, index), ConnectivityRepresentationOwner::Assembly), first, reached, *stop);
    }
    let ghost a = a + representation_slots(old_x.representation, assembly_container(old_x.name, kind, index), ConnectivityRepresentationOwner::Assembly);
    let ghost b = b + representation_slots(x.representation, assembly_container(x.name, kind, index), ConnectivityRepresentationOwner::Assembly);
}

/// The resources of assemblies.
pub open spec fn assemblies_slots(list: Seq<Assembly>, kind: AssemblyKind) -> Seq<Slot> {
    flat(list.len(), |i: int| assembly_slots(list[i], kind, i as usize))
}

/// Whether assemblies are the same but for the addresses and digests of their resources.
pub open spec fn keeps_assemblies(a: Seq<Assembly>, b: Seq<Assembly>) -> bool {
    a.len() == b.len() && forall|i: int|
        #![trigger a[i]]
        #![trigger b[i]]
        0 <= i < a.len() ==> keeps_assembly(a[i], b[i])
}

fn visit_assemblies<E, F: FnMut(&ResourceSite, ResourceReference<'_>) -> Result<ResourceRewrite, E>>(
    list: &mut Vec<Assembly>,
    kind: AssemblyKind,
    visitor: &mut F,
    stop: &mut Option<E>,
)
    requires
        accepts(*old(visitor)),
    ensures
        walk(
            *old(visitor),
            assemblies_slots(old(list)@, kind),
            assemblies_slots(final(list)@, kind),
            *old(stop),
            *final(stop),
        ),
        *final(visitor) == *old(visitor),
        keeps_assemblies(old(list)@, final(list)@),
{
    let ghost start = list@;
    let ghost f = *visitor;
    let ghost first = *stop;
    let ghost before = |i: int| assembly_slots(start[i], kind, i as usize);
    let n: usize = list.len();
    let mut i: usize = 0;
    proof {
        walk_nothing(f, first);
    }
    while i < n
        invariant
            i <= n == start.len() == list@.len(),
            accepts(f),
            *visitor == f,
            before == (|i: int| assembly_slots(start[i], kind, i as usize)),
            walk(
                f,
                flat(i as nat, before),
                flat(i as nat, |i: int| assembly_slots(list@[i], kind, i as usize)),
                first,
                *stop,
            ),
            forall|k: int|
                #![trigger start[k]]
                #![trigger list@[k]]
                0 <= k < i ==> keeps_assembly(start[k], list@[k]),
            forall|k: int| i <= k < n ==> list@[k] == start[k],
        decreases n - i,
    {
        let ghost had = list@;
        let ghost reached = *stop;
        let ghost done = |i: int| assembly_slots(had[i], kind, i as usize);
        visit_assembly(&mut list[i], kind, i, visitor, stop);
        proof {
            let now = |i: int| assembly_slots(list@[i], kind, i as usize);
            assert(list@ =~= had.update(i as int, list@[i as int]));
            flat_is_local(i as nat, done, now);
            walk_on(
                f,
                flat(i as nat, before),
                flat(i as nat, now),
                before(i as int),
                now(i as int),
                first,
                reached,
                *stop,
            );
        }
        i += 1;
    }
    proof {
        assert(keeps_assemblies(start, list@));
    }
}

/// The resources of a component.
#[verifier::opaque]
pub open spec fn comp_slots(x: Comp, index: usize) -> Seq<Slot> {
    visuals_slots(x.visual@, index, x.name)
        + collisions_slots(x.collision@, index, x.name)
        + sensors_slots(x.sensor@, index, x.name)
        + hmis_slots(x.hmi@, index, x.name)
        + connectors_slots(x.connector@, component_container(x.name, index))
        + antennas_slots(x.antenna@, component_container(x.name, index))
        + paths_slots(x.wire@, component_container(x.name, index), PathKind::Wire)
        + paths_slots(x.conductor@, component_container(x.name, index), PathKind::Conductor)
        + paths_slots(x.cable_member@, component_container(x.name, index), PathKind::CableMember)
        + paths_slots(x.fiber@, component_container(x.name, index), PathKind::Fiber)
        + paths_slots(x.coax@, component_container(x.name, index), PathKind::Coax)
        + paths_slots(x.waveguide@, component_container(x.name, index), PathKind::Waveguide)
        + paths_slots(x.feed@, component_container(x.name, index), PathKind::Feed)
        + paths_slots(x.hose@, component_container(x.name, index), PathKind::Hose)
        + paths_slots(x.pipe@, component_container(x.name, index), PathKind::Pipe)
        + paths_slots(x.passage@, component_container(x.name, index), PathKind::Passage)
        + junctions_slots(x.splice@, component_container(x.name, index), JunctionKind::Splice)
        + junctions_slots(x.tee@, component_container(x.name, index), JunctionKind::Tee)
        + junctions_slots(x.manifold@, component_container(x.name, index), JunctionKind::Manifold)
        + junctions_slots(x.busbar@, component_container(x.name, index), JunctionKind::Busbar)
        + junctions_slots(x.optical_splitter@, component_container(x.name, index), JunctionKind::OpticalSplitter)
        + terminations_slots(x.termination@, component_container(x.name, index))
}

/// Whether a component is the same but for the addresses and digests of its resources.
#[verifier::opaque]
pub open spec fn keeps_comp(x: Comp, y: Comp) -> bool {
    &&& y == (Comp { visual: y.visual, collision: y.collision, sensor: y.sensor, hmi: y.hmi, antenna: y.antenna, connector: y.connector, wire: y.wire, conductor: y.conductor, cable_member: y.cable_member, fiber: y.fiber, coax: y.coax, waveguide: y.waveguide, feed: y.feed, hose: y.hose, pipe: y.pipe, passage: y.passage, splice: y.splice, tee: y.tee, manifold: y.manifold, busbar: y.busbar, optical_splitter: y.optical_splitter, termination: y.termination, ..x })
    &&& keeps_visuals(x.visual@, y.visual@)
    &&& keeps_collisions(x.collision@, y.collision@)
    &&& keeps_sensors(x.sensor@, y.sensor@)
    &&& keeps_hmis(x.hmi@, y.hmi@)
    &&& keeps_connectors(x.connector@, y.connector@)
    &&& keeps_antennas(x.antenna@, y.antenna@)
    &&& keeps_paths(x.wire@, y.wire@)
    &&& keeps_paths(x.conductor@, y.conductor@)
    &&& keeps_paths(x.cable_member@, y.cable_member@)
    &&& keeps_paths(x.fiber@, y.fiber@)
    &&& keeps_paths(x.coax@, y.coax@)
    &&& keeps_paths(x.waveguide@, y.waveguide@)
    &&& keeps_paths(x.feed@, y.feed@)
    &&& keeps_paths(x.hose@, y.hose@)
    &&& keeps_paths(x.pipe@, y.pipe@)
    &&& keeps_paths(x.passage@, y.passage@)
    &&& keeps_junctions(x.splice@, y.splice@)
    &&& keeps_junctions(x.tee@, y.tee@)
    &&& keeps_junctions(x.manifold@, y.manifold@)
    &&& keeps_junctions(x.busbar@, y.busbar@)
    &&& keeps_junctions(x.optical_splitter@, y.optical_splitter@)
    &&& keeps_terminations(x.termination@, y.termination@)
}

fn visit_comp<E, F: FnMut(&ResourceSite, ResourceReference<'_>) -> Result<ResourceRewrite, E>>(
    x: &mut Comp,
    index: usize,
    visitor: &mut F,
    stop: &mut Option<E>,
)
    requires
        accepts(*old(visitor)),
    ensures
        walk(
            *old(visitor),
            comp_slots(*old(x), index),
            comp_slots(*final(x), index),
            *old(stop),
            *final(stop),
        ),
        *final(visitor) == *old(visitor),
        keeps_comp(*old(x), *final(x)),
{
    proof {
        reveal(comp_slots);
        reveal(keeps_comp);
    }
    let ghost f = *visitor;
    let ghost first = *stop;
    let ghost old_x = *x;
    let name = x.name.clone();
    let container = ConnectivityContainer::Component { component_index: index, component: x.name.clone() };
    visit_visuals(&mut x.visual, index, &name, visitor, stop);
    let ghost a = visuals_slots(old_x.visual@, index, old_x.name);
    let ghost b = visuals_slots(x.visual@, index, x.name);
    let ghost reached = *stop;
    visit_collisions(&mut x.collision, index, &name, visitor, stop);
    proof {
        walk_on(f, a, b, collisions_slots(old_x.collision@, index, old_x.name), collisions_slots(x.collision@, index, x.name), first, reached, *stop);
    }
    let ghost a = a + collisions_slots(old_x.collision@, index, old_x.name);
    let ghost b = b + collisions_slots(x.collision@, index, x.name);
    let ghost reached = *stop;
    visit_sensors(&mut x.sensor, index, &name, visitor, stop);
    proof {
        walk_on(f, a, b, sensors_slots(old_x.sensor@, index, old_x.name), sensors_slots(x.sensor@, index, x.name), first, reached, *stop);
    }
    let ghost a = a + sensors_slots(old_x.sensor@, index, old_x.name);
    let ghost b = b + sensors_slots(x.sensor@, index, x.name);
    let ghost reached = *stop;
    visit_hmis(&mut x.hmi, index, &name, visitor, stop);
    proof {
        walk_on(f, a, b, hmis_slots(old_x.hmi@, index, old_x.name), hmis_slots(x.hmi@, index, x.name), first, reached, *stop);
    }
    let ghost a = a + hmis_slots(old_x.hmi@, index, old_x.name);
    let ghost b = b + hmis_slots(x.hmi@, index, x.name);
    let ghost reached = *stop;
    visit_connectors(&mut x.connector, &container, visitor, stop);
    proof {
        walk_on(f, a, b, connectors_slots(old_x.connector@, component_container(old_x.name, index)), connectors_slots(x.connector@, component_container(x.name, index)), first, reached, *stop);
    }
    let ghost a = a + connectors_slots(old_x.connector@, component_container(old_x.name, index));
    let ghost b = b + connectors_slots(x.connector@, component_container(x.name, index));
    let ghost reached = *stop;
    visit_antennas(&mut x.antenna, &container, visitor, stop);
    proof {
        walk_on(f, a, b, antennas_slots(old_x.antenna@, component_container(old_x.name, index)), antennas_slots(x.antenna@, component_container(x.name, index)), first, reached, *stop);
    }
    let ghost a = a + antennas_slots(old_x.antenna@, component_container(old_x.name, index));
    let ghost b = b + antennas_slots(x.antenna@, component_container(x.name, index));
    let ghost reached = *stop;
    visit_paths(&mut x.wire, &container, PathKind::Wire, visitor, stop);
    proof {
        walk_on(f, a, b, paths_slots(old_x.wire@, component_container(old_x.name, index), PathKind::Wire), paths_slots(x.wire@, component_container(x.name, index), PathKind::Wire), first, reached, *stop);
    }
    let ghost a = a + paths_slots(old_x.wire@, component_container(old_x.name, index), PathKind::Wire);
    let ghost b = b + paths_slots(x.wire@, component_container(x.name, index), PathKind::Wire);
    let ghost reached = *stop;
    visit_paths(&mut x.conductor, &container, PathKind::Conductor, visitor, stop);
    proof {
        walk_on(f, a, b, paths_slots(old_x.conductor@, component_container(old_x.name, index), PathKind::Conductor), paths_slots(x.conductor@, component_container(x.name, index), PathKind::Conductor), first, reached, *stop);
    }
    let ghost a = a + paths_slots(old_x.conductor@, component_container(old_x.name, index), PathKind::Conductor);
    let ghost b = b + paths_slots(x.conductor@, component_container(x.name, index), PathKind::Conductor);
    let ghost reached = *stop;
    visit_paths(&mut x.cable_member, &container, PathKind::CableMember, visitor, stop);
    proof {
        walk_on(f, a, b, paths_slots(old_x.cable_member@, component_container(old_x.name, index), PathKind::CableMember), paths_slots(x.cable_member@, component_container(x.name, index), PathKind::CableMember), first, reached, *stop);
    }
    let ghost a = a + paths_slots(old_x.cable_member@, component_container(old_x.name, index), PathKind::CableMember);
    let ghost b = b + paths_slots(x.cable_member@, component_container(x.name, index), PathKind::CableMember);
    let ghost reached = *stop;
    visit_paths(&mut x.fiber, &container, PathKind::Fiber, visitor, stop);
    proof {
        walk_on(f, a, b, paths_slots(old_x.fiber@, component_container(old_x.name, index), PathKind::Fiber), paths_slots(x.fiber@, component_container(x.name, index), PathKind::Fiber), first, reached, *stop);
    }
    let ghost a = a + paths_slots(old_x.fiber@, component_container(old_x.name, index), PathKind::Fiber);
    let ghost b = b + paths_slots(x.fiber@, component_container(x.name, index), PathKind::Fiber);
    let ghost reached = *stop;
    visit_paths(&mut x.coax, &container, PathKind::Coax, visitor, stop);
    proof {
        walk_on(f, a, b, paths_slots(old_x.coax@, component_container(old_x.name, index), PathKind::Coax), paths_slots(x.coax@, component_container(x.name, index), PathKind::Coax), first, reached, *stop);
    }
    let ghost a = a + paths_slots(old_x.coax@, component_container(old_x.name, index), PathKind::Coax);
    let ghost b = b + paths_slots(x.coax@, component_container(x.name, index), PathKind::Coax);
    let ghost reached = *stop;
    visit_paths(&mut x.waveguide, &container, PathKind::Waveguide, visitor, stop);
    proof {
        walk_on(f, a, b, paths_slots(old_x.waveguide@, component_container(old_x.name, index), PathKind::Waveguide), paths_slots(x.waveguide@, component_container(x.name, index), PathKind::Waveguide), first, reached, *stop);
    }
    let ghost a = a + paths_slots(old_x.waveguide@, component_container(old_x.name, index), PathKind::Waveguide);
    let ghost b = b + paths_slots(x.waveguide@, component_container(x.name, index), PathKind::Waveguide);
    let ghost reached = *stop;
    visit_paths(&mut x.feed, &container, PathKind::Feed, visitor, stop);
    proof {
        walk_on(f, a, b, paths_slots(old_x.feed@, component_container(old_x.name, index), PathKind::Feed), paths_slots(x.feed@, component_container(x.name, index), PathKind::Feed), first, reached, *stop);
    }
    let ghost a = a + paths_slots(old_x.feed@, component_container(old_x.name, index), PathKind::Feed);
    let ghost b = b + paths_slots(x.feed@, component_container(x.name, index), PathKind::Feed);
    let ghost reached = *stop;
    visit_paths(&mut x.hose, &container, PathKind::Hose, visitor, stop);
    proof {
        walk_on(f, a, b, paths_slots(old_x.hose@, component_container(old_x.name, index), PathKind::Hose), paths_slots(x.hose@, component_container(x.name, index), PathKind::Hose), first, reached, *stop);
    }
    let ghost a = a + paths_slots(old_x.hose@, component_container(old_x.name, index), PathKind::Hose);
    let ghost b = b + paths_slots(x.hose@, component_container(x.name, index), PathKind::Hose);
    let ghost reached = *stop;
    visit_paths(&mut x.pipe, &container, PathKind::Pipe, visitor, stop);
    proof {
        walk_on(f, a, b, paths_slots(old_x.pipe@, component_container(old_x.name, index), PathKind::Pipe), paths_slots(x.pipe@, component_container(x.name, index), PathKind::Pipe), first, reached, *stop);
    }
    let ghost a = a + paths_slots(old_x.pipe@, component_container(old_x.name, index), PathKind::Pipe);
    let ghost b = b + paths_slots(x.pipe@, component_container(x.name, index), PathKind::Pipe);
    let ghost reached = *stop;
    visit_paths(&mut x.passage, &container, PathKind::Passage, visitor, stop);
    proof {
        walk_on(f, a, b, paths_slots(old_x.passage@, component_container(old_x.name, index), PathKind::Passage), paths_slots(x.passage@, component_container(x.name, index), PathKind::Passage), first, reached, *stop);
    }
    let ghost a = a + paths_slots(old_x.passage@, component_container(old_x.name, index), PathKind::Passage);
    let ghost b = b + paths_slots(x.passage@, component_container(x.name, index), PathKind::Passage);
    let ghost reached = *stop;
    visit_junctions(&mut x.splice, &container, JunctionKind::Splice, visitor, stop);
    proof {
        walk_on(f, a, b, junctions_slots(old_x.splice@, component_container(old_x.name, index), JunctionKind::Splice), junctions_slots(x.splice@, component_container(x.name, index), JunctionKind::Splice), first, reached, *stop);
    }
    let ghost a = a + junctions_slots(old_x.splice@, component_container(old_x.name, index), JunctionKind::Splice);
    let ghost b = b + junctions_slots(x.splice@, component_container(x.name, index), JunctionKind::Splice);
    let ghost reached = *stop;
    visit_junctions(&mut x.tee, &container, JunctionKind::Tee, visitor, stop);
    proof {
        walk_on(f, a, b, junctions_slots(old_x.tee@, component_container(old_x.name, index), JunctionKind::Tee), junctions_slots(x.tee@, component_container(x.name, index), JunctionKind::Tee), first, reached, *stop);
    }
    let ghost a = a + junctions_slots(old_x.tee@, component_container(old_x.name, index), JunctionKind::Tee);
    let ghost b = b + junctions_slots(x.tee@, component_container(x.name, index), JunctionKind::Tee);
    let ghost reached = *stop;
    visit_junctions(&mut x.manifold, &container, JunctionKind::Manifold, visitor, stop);
    proof {
        walk_on(f, a, b, junctions_slots(old_x.manifold@, component_container(old_x.name, index), JunctionKind::Manifold), junctions_slots(x.manifold@, component_container(x.name, index), JunctionKind::Manifold), first, reached, *stop);
    }
    let ghost a = a + junctions_slots(old_x.manifold@, component_container(old_x.name, index), JunctionKind::Manifold);
    let ghost b = b + junctions_slots(x.manifold@, component_container(x.name, index), JunctionKind::Manifold);
    let ghost reached = *stop;
    visit_junctions(&mut x.busbar, &container, JunctionKind::Busbar, visitor, stop);
    proof {
        walk_on(f, a, b, junctions_slots(old_x.busbar@, component_container(old_x.name, index), JunctionKind::Busbar), junctions_slots(x.busbar@, component_container(x.name, index), JunctionKind::Busbar), first, reached, *stop);
    }
    let ghost a = a + junctions_slots(old_x.busbar@, component_container(old_x.name, index), JunctionKind::Busbar);
    let ghost b = b + junctions_slots(x.busbar@, component_container(x.name, index), JunctionKind::Busbar);
    let ghost reached = *stop;
    visit_junctions(&mut x.optical_splitter, &container, JunctionKind::OpticalSplitter, visitor, stop);
    proof {
        walk_on(f, a, b, junctions_slots(old_x.optical_splitter@, component_container(old_x.name, index), JunctionKind::OpticalSplitter), junctions_slots(x.optical_splitter@, component_container(x.name, index), JunctionKind::OpticalSplitter), first, reached, *stop);
    }
    let ghost a = a + junctions_slots(old_x.optical_splitter@, component_container(old_x.name, index), JunctionKind::OpticalSplitter);
    let ghost b = b + junctions_slots(x.optical_splitter@, component_container(x.name, index), JunctionKind::OpticalSplitter);
    let ghost reached = *stop;
    visit_terminations(&mut x.termination, &container, visitor, stop);
    proof {
        walk_on(f, a, b, terminations_slots(old_x.termination@, component_container(old_x.name, index)), terminations_slots(x.termination@, component_container(x.name, index)), first, reached, *stop);
    }
    let ghost a = a + terminations_slots(old_x.termination@, component_container(old_x.name, index));
    let ghost b = b + terminations_slots(x.termination@, component_container(x.name, index));
}

/// The resources of components.
pub open spec fn comps_slots(list: Seq<Comp>) -> Seq<Slot> {
    flat(list.len(), |i: int| comp_slots(list[i], i as usize))
}

/// Whether components are the same but for the addresses and digests of their resources.
pub open spec fn keeps_comps(a: Seq<Comp>, b: Seq<Comp>) -> bool {
    a.len() == b.len() && forall|i: int|
        #![trigger a[i]]
        #![trigger b[i]]
        0 <= i < a.len() ==> keeps_comp(a[i], b[i])
}

fn visit_comps<E, F: FnMut(&ResourceSite, ResourceReference<'_>) -> Result<ResourceRewrite, E>>(
    list: &mut Vec<Comp>,
    visitor: &mut F,
    stop: &mut Option<E>,
)
    requires
        accepts(*old(visitor)),
    ensures
        walk(
            *old(visitor),
            comps_slots(old(list)@),
            comps_slots(final(list)@),
            *old(stop),
            *final(stop),
        ),
        *final(visitor) == *old(visitor),
        keeps_comps(old(list)@, final(list)@),
{
    let ghost start = list@;
    let ghost f = *visitor;
    let ghost first = *stop;
    let ghost before = |i: int| comp_slots(start[i], i as usize);
    let n: usize = list.len();
    let mut i: usize = 0;
    proof {
        walk_nothing(f, first);
    }
    while i < n
        invariant
            i <= n == start.len() == list@.len(),
            accepts(f),
            *visitor == f,
            before == (|i: int| comp_slots(start[i], i as usize)),
            walk(
                f,
                flat(i as nat, before),
                flat(i as nat, |i: int| comp_slots(list@[i], i as usize)),
                first,
                *stop,
            ),
            forall|k: int|
                #![trigger start[k]]
                #![trigger list@[k]]
                0 <= k < i ==> keeps_comp(start[k], list@[k]),
            forall|k: int| i <= k < n ==> list@[k] == start[k],
        decreases n - i,
    {
        let ghost had = list@;
        let ghost reached = *stop;
        let ghost done = |i: int| comp_slots(had[i], i as usize);
        visit_comp(&mut list[i], i, visitor, stop);
        proof {
            let now = |i: int| comp_slots(list@[i], i as usize);
            assert(list@ =~= had.update(i as int, list@[i as int]));
            flat_is_local(i as nat, done, now);
            walk_on(
                f,
                flat(i as nat, before),
                flat(i as nat, now),
                before(i as int),
                now(i as int),
                first,
                reached,
                *stop,
            );
        }
        i += 1;
    }
    proof {
        assert(keeps_comps(start, list@));
    }
}

/// The resources of a document, in the order in which they are written.
pub open spec fn document_slots(x: Hcdf) -> Seq<Slot> {
    inclusions_slots(x.includes@)
        + comps_slots(x.comp@)
        + assemblies_slots(x.harness@, AssemblyKind::Harness)
        + assemblies_slots(x.cable@, AssemblyKind::Cable)
        + assemblies_slots(x.plumbing@, AssemblyKind::Plumbing)
        + assemblies_slots(x.umbilical@, AssemblyKind::Umbilical)
}

/// Whether a document is the same but for the addresses and digests of its resources.
pub open spec fn keeps_document(x: Hcdf, y: Hcdf) -> bool {
    &&& y == (Hcdf { includes: y.includes, comp: y.comp, harness: y.harness, cable: y.cable, plumbing: y.plumbing, umbilical: y.umbilical, ..x })
    &&& keeps_inclusions(x.includes@, y.includes@)
    &&& keeps_comps(x.comp@, y.comp@)
    &&& keeps_assemblies(x.harness@, y.harness@)
    &&& keeps_assemblies(x.cable@, y.cable@)
    &&& keeps_assemblies(x.plumbing@, y.plumbing@)
    &&& keeps_assemblies(x.umbilical@, y.umbilical@)
}

fn visit_document<E, F: FnMut(&ResourceSite, ResourceReference<'_>) -> Result<ResourceRewrite, E>>(
    x: &mut Hcdf,
    visitor: &mut F,
    stop: &mut Option<E>,
)
    requires
        accepts(*old(visitor)),
    ensures
        walk(
            *old(visitor),
            document_slots(*old(x)),
            document_slots(*final(x)),
            *old(stop),
            *final(stop),
        ),
        *final(visitor) == *old(visitor),
        keeps_document(*old(x), *final(x)),
{
    let ghost f = *visitor;
    let ghost first = *stop;
    let ghost old_x = *x;
    visit_inclusions(&mut x.includes, visitor, stop);
    let ghost a = inclusions_slots(old_x.includes@);
    let ghost b = inclusions_slots(x.includes@);
    let ghost reached = *stop;
    visit_comps(&mut x.comp, visitor, stop);
    proof {
        walk_on(f, a, b, comps_slots(old_x.comp@), comps_slots(x.comp@), first, reached, *stop);
    }
    let ghost a = a + comps_slots(old_x.comp@);
    let ghost b = b + comps_slots(x.comp@);
    let ghost reached = *stop;
    visit_assemblies(&mut x.harness, AssemblyKind::Harness, visitor, stop);
    proof {
        walk_on(f, a, b, assemblies_slots(old_x.harness@, AssemblyKind::Harness), assemblies_slots(x.harness@, AssemblyKind::Harness), first, reached, *stop);
    }
    let ghost a = a + assemblies_slots(old_x.harness@, AssemblyKind::Harness);
    let ghost b = b + assemblies_slots(x.harness@, AssemblyKind::Harness);
    let ghost reached = *stop;
    visit_assemblies(&mut x.cable, AssemblyKind::Cable, visitor, stop);
    proof {
        walk_on(f, a, b, assemblies_slots(old_x.cable@, AssemblyKind::Cable), assemblies_slots(x.cable@, AssemblyKind::Cable), first, reached, *stop);
    }
    let ghost a = a + assemblies_slots(old_x.cable@, AssemblyKind::Cable);
    let ghost b = b + assemblies_slots(x.cable@, AssemblyKind::Cable);
    let ghost reached = *stop;
    visit_assemblies(&mut x.plumbing, AssemblyKind::Plumbing, visitor, stop);
    proof {
        walk_on(f, a, b, assemblies_slots(old_x.plumbing@, AssemblyKind::Plumbing), assemblies_slots(x.plumbing@, AssemblyKind::Plumbing), first, reached, *stop);
    }
    let ghost a = a + assemblies_slots(old_x.plumbing@, AssemblyKind::Plumbing);
    let ghost b = b + assemblies_slots(x.plumbing@, AssemblyKind::Plumbing);
    let ghost reached = *stop;
    visit_assemblies(&mut x.umbilical, AssemblyKind::Umbilical, visitor, stop);
    proof {
        walk_on(f, a, b, assemblies_slots(old_x.umbilical@, AssemblyKind::Umbilical), assemblies_slots(x.umbilical@, AssemblyKind::Umbilical), first, reached, *stop);
    }
    let ghost a = a + assemblies_slots(old_x.umbilical@, AssemblyKind::Umbilical);
    let ghost b = b + assemblies_slots(x.umbilical@, AssemblyKind::Umbilical);
}

/// Asks a visitor about every resource of a document in turn and applies its answers. A replacement
/// changes the address and the digest of a resource together. An error ends the visit: the resource
/// that the visitor was asked about stays as it is, and what was replaced before stays replaced.
pub fn visit_resources<E, F: FnMut(&ResourceSite, ResourceReference<'_>) -> Result<
    ResourceRewrite,
    E,
>>(doc: &mut Hcdf, visitor: F) -> (r: Result<(), E>)
    requires
        accepts(visitor),
    ensures
        walk(
            visitor,
            document_slots(*old(doc)),
            document_slots(*final(doc)),
            None,
            match r {
                Ok(_) => None,
                Err(error) => Some(error),
            },
        ),
        keeps_document(*old(doc), *final(doc)),
{
    let mut visitor = visitor;
    let mut stop: Option<E> = None;
    visit_document(doc, &mut visitor, &mut stop);
    match stop {
        None => Ok(()),
        Some(error) => Err(error),
    }
}

/// A visit moves no resource: each stays at its site, whatever the visitor answers.
pub proof fn visits_move_nothing<
    E,
    F: FnMut(&ResourceSite, ResourceReference<'_>) -> Result<ResourceRewrite, E>,
>(f: F, before: Seq<Slot>, after: Seq<Slot>, start: Option<E>, end: Option<E>)
    requires
        walk(f, before, after, start, end),
    ensures
        after.len() == before.len(),
        forall|i: int| 0 <= i < before.len() ==> (#[trigger] after[i]).site == before[i].site,
{
    assert forall|i: int| 0 <= i < before.len() implies (#[trigger] after[i]).site
        == before[i].site by {
        if start is None && end is Some {
            let k = choose|k: int| #[trigger] refuses_at(f, before, after, end->0, k);
            assert(refuses_at(f, before, after, end->0, k));
            if i < k {
                assert(turns(f, before[i], after[i]));
            }
        } else if start is None {
            assert(turns(f, before[i], after[i]));
        }
    }
}

/// A visitor that answers nothing but to keep leaves every address and digest as it was.
pub proof fn keeping_changes_nothing<
    E,
    F: FnMut(&ResourceSite, ResourceReference<'_>) -> Result<ResourceRewrite, E>,
>(f: F, before: Seq<Slot>, after: Seq<Slot>, start: Option<E>, end: Option<E>)
    requires
        walk(f, before, after, start, end),
        forall|slot: Slot, action: ResourceRewrite|
            #[trigger] answers(f, slot, Ok(action)) ==> action is Keep,
    ensures
        after == before,
{
    assert forall|i: int| 0 <= i < before.len() implies after[i] == before[i] by {
        if start is None && end is Some {
            let k = choose|k: int| #[trigger] refuses_at(f, before, after, end->0, k);
            assert(refuses_at(f, before, after, end->0, k));
            if i < k {
                assert(turns(f, before[i], after[i]));
            }
        } else if start is None {
            assert(turns(f, before[i], after[i]));
        }
    }
    assert(after =~= before);
}

/// Whether a visitor may have answered to replace a resource by the other, address and digest alike.
pub open spec fn replaces<
    E,
    F: FnMut(&ResourceSite, ResourceReference<'_>) -> Result<ResourceRewrite, E>,
>(f: F, slot: Slot, after: Slot) -> bool {
    exists|uri: String, sha: Option<String>| #[trigger]
        answers(f, slot, Ok(ResourceRewrite::Replace { uri, sha })) && after.uri == uri@ && after.sha
            == text_view(sha)
}

/// A resource is kept whole or replaced whole: its address never changes without its digest coming
/// from the same answer.
pub proof fn resources_change_whole<
    E,
    F: FnMut(&ResourceSite, ResourceReference<'_>) -> Result<ResourceRewrite, E>,
>(f: F, before: Seq<Slot>, after: Seq<Slot>, start: Option<E>, end: Option<E>)
    requires
        walk(f, before, after, start, end),
    ensures
        forall|i: int|
            0 <= i < before.len() ==> (#[trigger] after[i]) == before[i] || replaces(
                f,
                before[i],
                after[i],
            ),
{
    assert forall|i: int| 0 <= i < before.len() implies (#[trigger] after[i]) == before[i] || replaces(
        f,
        before[i],
        after[i],
    ) by {
        let refused = start is None && end is Some;
        let k = choose|k: int| #[trigger] refuses_at(f, before, after, end->0, k);
        if refused {
            assert(refuses_at(f, before, after, end->0, k));
        }
        if start is None && (end is None || i < k) {
            assert(turns(f, before[i], after[i]));
            let action = choose|action: ResourceRewrite|
                #[trigger] answers(f, before[i], Ok(action)) && after[i] == applied(before[i], action);
            if let ResourceRewrite::Replace { uri, sha } = action {
                assert(answers(f, before[i], Ok(ResourceRewrite::Replace { uri, sha })));
            }
        }
    }
}

} // verus!
