//! Checks that representations select things that exist: component frames, visuals and assemblies.
use vstd::prelude::*;
use crate::faults;
use super::connectivity as canonical;
use super::conversion;
use super::conversion::{ConnectivityConversionError, Converted, Failure};
use crate::text;

verus! {

/// Whether `at` is the one place of a list where `matches` holds.
pub open spec fn is_only<X>(list: Seq<X>, matches: spec_fn(X) -> bool, at: int) -> bool {
    &&& 0 <= at < list.len()
    &&& matches(list[at])
    &&& forall|j: int| 0 <= j < list.len() && j != at ==> !matches(#[trigger] list[j])
}

/// The one place of a list where `matches` holds, if there is exactly one.
pub open spec fn the_only<X>(list: Seq<X>, matches: spec_fn(X) -> bool) -> Option<int> {
    if exists|at: int| #[trigger] is_only(list, matches, at) {
        Some(choose|at: int| #[trigger] is_only(list, matches, at))
    } else {
        None
    }
}

/// Finds the one place of a list where `test` holds.
fn find_only<X, F: Fn(&X) -> bool>(
    list: &Vec<X>,
    test: F,
    Ghost(matches): Ghost<spec_fn(X) -> bool>,
) -> (r: Option<usize>)
    requires
        forall|x: X| #[trigger] call_requires(test, (&x,)),
        forall|x: X, b: bool| #[trigger] call_ensures(test, (&x,), b) ==> b == matches(x),
    ensures
        match r {
            Some(at) => the_only(list@, matches) == Some(at as int) && at < list@.len(),
            None => the_only(list@, matches) is None,
        },
{
    let mut found: Option<usize> = None;
    let mut i: usize = 0;
    while i < list.len()
        invariant
            i <= list@.len(),
            forall|x: X| #[trigger] call_requires(test, (&x,)),
            forall|x: X, b: bool| #[trigger] call_ensures(test, (&x,), b) ==> b == matches(x),
            match found {
                Some(at) => at < i && matches(list@[at as int]) && forall|j: int|
                    0 <= j < i && j != at ==> !matches(#[trigger] list@[j]),
                None => forall|j: int| 0 <= j < i ==> !matches(#[trigger] list@[j]),
            },
        decreases list@.len() - i,
    {
        if test(&list[i]) {
            if let Some(at) = found {
                assert forall|k: int| !(#[trigger] is_only(list@, matches, k)) by {
                    if is_only(list@, matches, k) {
                        if k == at {
                            assert(matches(list@[i as int]));
                        } else {
                            assert(matches(list@[at as int]));
                        }
                    }
                }
                return None;
            }
            found = Some(i);
        }
        i += 1;
    }
    proof {
        match found {
            Some(at) => {
                assert(is_only(list@, matches, at as int));
                let k = choose|k: int| #[trigger] is_only(list@, matches, k);
                if k != at {
                    assert(matches(list@[at as int]));
                }
            },
            None => {
                assert forall|k: int| !(#[trigger] is_only(list@, matches, k)) by {};
            },
        }
    }
    found
}

/// The components of this name.
pub open spec fn component_named(name: Seq<char>) -> spec_fn(super::Comp) -> bool {
    |c: super::Comp| c.name@ == name
}

/// The visuals of this name.
pub open spec fn visual_named(name: Seq<char>) -> spec_fn(super::Visual) -> bool {
    |v: super::Visual| v.name@ == name
}

/// The frames of this name.
pub open spec fn frame_named(name: Seq<char>) -> spec_fn(super::Frame) -> bool {
    |f: super::Frame| f.name@ == name
}

/// The assemblies of this name.
pub open spec fn assembly_named(name: Seq<char>) -> spec_fn(canonical::PhysicalAssembly) -> bool {
    |a: canonical::PhysicalAssembly| a.name@ == name
}

fn find_component(document: &super::Hcdf, name: &String) -> (r: Option<usize>)
    ensures
        match r {
            Some(at) => the_only(document.comp@, component_named(name@)) == Some(at as int) && at
                < document.comp@.len(),
            None => the_only(document.comp@, component_named(name@)) is None,
        },
{
    find_only(
        &document.comp,
        |c: &super::Comp| -> (b: bool)
            ensures
                b == (c.name@ == name@)
        { text::same(c.name.as_str(), name.as_str()) },
        Ghost(component_named(name@)),
    )
}

/// The failure of a frame that must stand on one component of the document.
pub open spec fn local_frame_due(
    document: super::Hcdf,
    component: canonical::ComponentRef,
    frame: Option<Seq<char>>,
    path: Seq<char>,
) -> Option<Failure> {
    if component.scope != canonical::ReferenceScope::Local {
        None
    } else {
        match the_only(document.comp@, component_named(component.component@)) {
            None => Some(
                conversion::failure(
                    "E_CONN_FRAME_REFERENCE"@,
                    path,
                    "component frame requires exactly one component "@ + text::debug_chars(
                        component.component@,
                    ),
                ),
            ),
            Some(at) => match frame {
                None => None,
                Some(name) => match the_only(document.comp@[at].frame@, frame_named(name)) {
                    Some(_) => None,
                    None => Some(
                        conversion::failure(
                            "E_CONN_FRAME_REFERENCE"@,
                            path,
                            "component frame requires exactly one frame "@ + text::debug_chars(name)
                                + " on component "@ + text::debug_chars(document.comp@[at].name@),
                        ),
                    ),
                },
            },
        }
    }
}

/// The failure of a frame reference.
pub open spec fn structural_frame_due(
    document: super::Hcdf,
    frame: canonical::RouteFrameRef,
    path: Seq<char>,
) -> Option<Failure> {
    match frame {
        canonical::RouteFrameRef::World => None,
        canonical::RouteFrameRef::ComponentOrigin { component } => local_frame_due(
            document,
            component,
            None,
            path,
        ),
        canonical::RouteFrameRef::ComponentFrame { component, frame } => local_frame_due(
            document,
            component,
            Some(frame@),
            path,
        ),
    }
}

fn is_local(scope: &canonical::ReferenceScope) -> (r: bool)
    ensures
        r == (*scope == canonical::ReferenceScope::Local),
{
    match scope {
        canonical::ReferenceScope::Local => true,
        _ => false,
    }
}

/// Checks that a frame reference stands on exactly one component, and names exactly one frame.
fn validate_structural_frame(
    document: &super::Hcdf,
    frame: &canonical::RouteFrameRef,
    path: &str,
) -> (r: Converted<()>)
    ensures
        conversion::outcome(r, structural_frame_due(*document, *frame, path@), |y: ()| true),
{
    let (component, named): (&canonical::ComponentRef, Option<&String>) = match frame {
        canonical::RouteFrameRef::World => {
            return Ok(());
        },
        canonical::RouteFrameRef::ComponentOrigin { component } => (component, None),
        canonical::RouteFrameRef::ComponentFrame { component, frame } => (component, Some(frame)),
    };
    if !is_local(&component.scope) {
        return Ok(());
    }
    match find_component(document, &component.component) {
        None => {
            let mut reason: String = "component frame requires exactly one component ".to_owned();
            reason.append(text::debug_text(component.component.as_str()).as_str());
            Err(ConnectivityConversionError::coded("E_CONN_FRAME_REFERENCE", path, reason.as_str()))
        },
        Some(at) => {
            let owner = &document.comp[at];
            match named {
                None => Ok(()),
                Some(name) => {
                    let found = find_only(
                        &owner.frame,
                        |f: &super::Frame| -> (b: bool)
                            ensures
                                b == (f.name@ == name@)
                        { text::same(f.name.as_str(), name.as_str()) },
                        Ghost(frame_named(name@)),
                    );
                    if found.is_none() {
                        let mut reason: String = "component frame requires exactly one frame ".to_owned();
                        reason.append(text::debug_text(name.as_str()).as_str());
                        reason.append(" on component ");
                        reason.append(text::debug_text(owner.name.as_str()).as_str());
                        return Err(
                            ConnectivityConversionError::coded(
                                "E_CONN_FRAME_REFERENCE",
                                path,
                                reason.as_str(),
                            ),
                        );
                    }
                    Ok(())
                },
            }
        },
    }
}

/// The failure of a selector of a visual of a component.
pub open spec fn component_visual_due(
    document: super::Hcdf,
    component: canonical::ComponentRef,
    visual: Seq<char>,
    path: Seq<char>,
) -> Option<Failure> {
    if component.scope != canonical::ReferenceScope::Local {
        None
    } else {
        match the_only(document.comp@, component_named(component.component@)) {
            None => Some(
                conversion::failure(
                    "E_CONN_UNRESOLVED_REFERENCE"@,
                    path,
                    "component-visual selector requires exactly one component "@
                        + text::debug_chars(component.component@),
                ),
            ),
            Some(at) => match the_only(document.comp@[at].visual@, visual_named(visual)) {
                None => Some(
                    conversion::failure(
                        "E_CONN_UNRESOLVED_REFERENCE"@,
                        path,
                        "component-visual selector requires exactly one visual "@
                            + text::debug_chars(visual),
                    ),
                ),
                Some(v) => if document.comp@[at].visual@[v].appearance is Model {
                    None
                } else {
                    Some(
                        conversion::failure(
                            "E_CONN_MODEL_ROOT_TYPE"@,
                            path,
                            "component-visual selector requires a visual backed by a model"@,
                        ),
                    )
                },
            },
        }
    }
}

/// Whether an assembly has a standalone model representation.
pub open spec fn has_model(assembly: canonical::PhysicalAssembly) -> bool {
    assembly.representation matches Some(representation) && representation is Model
}

/// The failure of a selector of the model of an assembly.
pub open spec fn assembly_model_due(
    assemblies: Seq<canonical::PhysicalAssembly>,
    assembly: canonical::AssemblyRef,
    path: Seq<char>,
) -> Option<Failure> {
    if assembly.scope != canonical::ReferenceScope::Local {
        None
    } else {
        match the_only(assemblies, assembly_named(assembly.assembly@)) {
            None => Some(
                conversion::failure(
                    "E_CONN_UNRESOLVED_REFERENCE"@,
                    path,
                    "assembly-model selector requires exactly one assembly "@ + text::debug_chars(
                        assembly.assembly@,
                    ),
                ),
            ),
            Some(at) => if has_model(assemblies[at]) {
                None
            } else {
                Some(
                    conversion::failure(
                        "E_CONN_MODEL_ROOT_TYPE"@,
                        path,
                        "assembly-model selector requires an assembly with a standalone model representation"@,
                    ),
                )
            },
        }
    }
}

/// The failure of the selector of a model part.
pub open spec fn model_part_due(
    document: super::Hcdf,
    scope: canonical::ConnectivityScope,
    part: canonical::ModelPartRepresentation,
    path: Seq<char>,
) -> Option<Failure> {
    if text::is_blank(part.node_path@) {
        Some(
            conversion::failure(
                "E_CONN_REPRESENTATION_SHAPE"@,
                path,
                "model-part @node-path must not be empty"@,
            ),
        )
    } else {
        match part.model_root {
            canonical::ModelRootRef::ComponentVisual { component, visual } => component_visual_due(
                document,
                component,
                visual@,
                path,
            ),
            canonical::ModelRootRef::AssemblyModel { assembly } => assembly_model_due(
                scope.assemblies@,
                assembly,
                path,
            ),
        }
    }
}

fn validate_component_visual(
    document: &super::Hcdf,
    component: &canonical::ComponentRef,
    visual: &String,
    path: &str,
) -> (r: Converted<()>)
    ensures
        conversion::outcome(
            r,
            component_visual_due(*document, *component, visual@, path@),
            |y: ()| true,
        ),
{
    if !is_local(&component.scope) {
        return Ok(());
    }
    let at = match find_component(document, &component.component) {
        Some(at) => at,
        None => {
            let mut reason: String = "component-visual selector requires exactly one component ".to_owned();
            reason.append(text::debug_text(component.component.as_str()).as_str());
            return Err(
                ConnectivityConversionError::coded(
                    "E_CONN_UNRESOLVED_REFERENCE",
                    path,
                    reason.as_str(),
                ),
            );
        },
    };
    let owner = &document.comp[at];
    let found = find_only(
        &owner.visual,
        |v: &super::Visual| -> (b: bool)
            ensures
                b == (v.name@ == visual@)
        { text::same(v.name.as_str(), visual.as_str()) },
        Ghost(visual_named(visual@)),
    );
    match found {
        None => {
            let mut reason: String = "component-visual selector requires exactly one visual ".to_owned();
            reason.append(text::debug_text(visual.as_str()).as_str());
            Err(
                ConnectivityConversionError::coded(
                    "E_CONN_UNRESOLVED_REFERENCE",
                    path,
                    reason.as_str(),
                ),
            )
        },
        Some(v) => match &owner.visual[v].appearance {
            super::VisualAppearance::Model { .. } => Ok(()),
            _ => Err(
                ConnectivityConversionError::coded(
                    "E_CONN_MODEL_ROOT_TYPE",
                    path,
                    "component-visual selector requires a visual backed by a model",
                ),
            ),
        },
    }
}

fn validate_assembly_model(
    scope: &canonical::ConnectivityScope,
    assembly: &canonical::AssemblyRef,
    path: &str,
) -> (r: Converted<()>)
    ensures
        conversion::outcome(
            r,
            assembly_model_due(scope.assemblies@, *assembly, path@),
            |y: ()| true,
        ),
{
    if !is_local(&assembly.scope) {
        return Ok(());
    }
    let name = &assembly.assembly;
    let found = find_only(
        &scope.assemblies,
        |a: &canonical::PhysicalAssembly| -> (b: bool)
            ensures
                b == (a.name@ == name@)
        { text::same(a.name.as_str(), name.as_str()) },
        Ghost(assembly_named(name@)),
    );
    match found {
        None => {
            let mut reason: String = "assembly-model selector requires exactly one assembly ".to_owned();
            reason.append(text::debug_text(name.as_str()).as_str());
            Err(
                ConnectivityConversionError::coded(
                    "E_CONN_UNRESOLVED_REFERENCE",
                    path,
                    reason.as_str(),
                ),
            )
        },
        Some(at) => match &scope.assemblies[at].representation {
            Some(canonical::Representation::Model { .. }) => Ok(()),
            _ => Err(
                ConnectivityConversionError::coded(
                    "E_CONN_MODEL_ROOT_TYPE",
                    path,
                    "assembly-model selector requires an assembly with a standalone model representation",
                ),
            ),
        },
    }
}

/// The failure of the waypoint at a place of a route.
pub open spec fn route_due(
    document: super::Hcdf,
    waypoints: Seq<canonical::RoutePoint>,
    path: Seq<char>,
) -> spec_fn(int) -> Option<Failure> {
    |i: int|
        structural_frame_due(
            document,
            waypoints[i].frame,
            conversion::indexed_path(path, "waypoint"@, i),
        )
}

/// The failure of the selectors of an optional representation.
pub open spec fn representation_due(
    document: super::Hcdf,
    scope: canonical::ConnectivityScope,
    representation: Option<canonical::Representation>,
    path: Seq<char>,
) -> Option<Failure> {
    match representation {
        None => None,
        Some(canonical::Representation::Primitive { placement, .. }) => structural_frame_due(
            document,
            placement.frame,
            path,
        ),
        Some(canonical::Representation::Model { placement, .. }) => structural_frame_due(
            document,
            placement.frame,
            path,
        ),
        Some(canonical::Representation::ModelPart(part)) => model_part_due(
            document,
            scope,
            part,
            path,
        ),
        Some(canonical::Representation::DerivedRoute(route)) => faults::first_failure(
            route.waypoints@.len(),
            route_due(document, route.waypoints@, path),
        ),
    }
}

/// Checks the selectors of an optional representation.
fn validate_optional_representation(
    document: &super::Hcdf,
    scope: &canonical::ConnectivityScope,
    representation: &Option<canonical::Representation>,
    path: &str,
) -> (r: Converted<()>)
    ensures
        conversion::outcome(
            r,
            representation_due(*document, *scope, *representation, path@),
            |y: ()| true,
        ),
{
    match representation {
        None => Ok(()),
        Some(canonical::Representation::Primitive { placement, .. }) => validate_structural_frame(
            document,
            &placement.frame,
            path,
        ),
        Some(canonical::Representation::Model { placement, .. }) => validate_structural_frame(
            document,
            &placement.frame,
            path,
        ),
        Some(canonical::Representation::ModelPart(part)) => {
            if text::blank(part.node_path.as_str()) {
                return Err(
                    ConnectivityConversionError::coded(
                        "E_CONN_REPRESENTATION_SHAPE",
                        path,
                        "model-part @node-path must not be empty",
                    ),
                );
            }
            match &part.model_root {
                canonical::ModelRootRef::ComponentVisual { component, visual } => {
                    validate_component_visual(document, component, visual, path)
                },
                canonical::ModelRootRef::AssemblyModel { assembly } => validate_assembly_model(
                    scope,
                    assembly,
                    path,
                ),
            }
        },
        Some(canonical::Representation::DerivedRoute(route)) => {
            let _ = conversion::convert_list(
                &route.waypoints,
                |point: &canonical::RoutePoint, index: usize| -> (r: Converted<()>)
                    ensures
                        conversion::outcome(
                            r,
                            structural_frame_due(
                                *document,
                                point.frame,
                                conversion::indexed_path(path@, "waypoint"@, index as int),
                            ),
                            |y: ()| true,
                        )
                {
                    validate_structural_frame(
                        document,
                        &point.frame,
                        conversion::indexed(path, "waypoint", index).as_str(),
                    )
                },
                Ghost(route_due(*document, route.waypoints@, path@)),
                Ghost(|a: canonical::RoutePoint, b: ()| true),
            )?;
            Ok(())
        },
    }
}

/// The failure of the position at a place of a list.
pub open spec fn positions_due(
    document: super::Hcdf,
    scope: canonical::ConnectivityScope,
    list: Seq<canonical::Position>,
    base: Seq<char>,
) -> spec_fn(int) -> Option<Failure> {
    |i: int|
        representation_due(document, scope, list[i].representation, conversion::named_path(base, "position"@, list[i].name@))
}

/// Checks the selectors of a list of items, each a position.
fn validate_positions(
    document: &super::Hcdf,
    scope: &canonical::ConnectivityScope,
    list: &Vec<canonical::Position>,
    base: &str,
) -> (r: Converted<()>)
    ensures
        conversion::outcome(
            r,
            faults::first_failure(list@.len(), positions_due(*document, *scope, list@, base@)),
            |y: ()| true,
        ),
{
    let _ = conversion::convert_list(
        list,
        |value: &canonical::Position, index: usize| -> (r: Converted<()>)
            ensures
                conversion::outcome(
                    r,
                    representation_due(*document, *scope, value.representation, conversion::named_path(base@, "position"@, value.name@)),
                    |y: ()| true,
                )
        {
            validate_optional_representation(document, scope, &value.representation, conversion::named(base, "position", value.name.as_str()).as_str())
        },
        Ghost(positions_due(*document, *scope, list@, base@)),
        Ghost(|a: canonical::Position, b: ()| true),
    )?;
    Ok(())
}

/// The failure of a connector: its own representation, then those of its positions.
pub open spec fn connector_due(
    document: super::Hcdf,
    scope: canonical::ConnectivityScope,
    connector: canonical::Connector,
    base: Seq<char>,
) -> Option<Failure> {
    let path = conversion::named_path(base, "connector"@, connector.name@);
    faults::either(
        representation_due(document, scope, connector.representation, path),
        faults::first_failure(
            connector.positions@.len(),
            positions_due(document, scope, connector.positions@, path),
        ),
    )
}

/// Checks the selectors of a connector and its positions.
fn validate_connector(
    document: &super::Hcdf,
    scope: &canonical::ConnectivityScope,
    connector: &canonical::Connector,
    base: &str,
) -> (r: Converted<()>)
    ensures
        conversion::outcome(
            r,
            connector_due(*document, *scope, *connector, base@),
            |y: ()| true,
        ),
{
    let path = conversion::named(base, "connector", connector.name.as_str());
    let _ = validate_optional_representation(
        document,
        scope,
        &connector.representation,
        path.as_str(),
    )?;
    validate_positions(document, scope, &connector.positions, path.as_str())
}

/// The failure of the connector at a place of a list.
pub open spec fn connectors_due(
    document: super::Hcdf,
    scope: canonical::ConnectivityScope,
    list: Seq<canonical::Connector>,
    base: Seq<char>,
) -> spec_fn(int) -> Option<Failure> {
    |i: int|
        connector_due(document, scope, list[i], base)
}

/// Checks the selectors of a list of items, each a connector.
fn validate_connectors(
    document: &super::Hcdf,
    scope: &canonical::ConnectivityScope,
    list: &Vec<canonical::Connector>,
    base: &str,
) -> (r: Converted<()>)
    ensures
        conversion::outcome(
            r,
            faults::first_failure(list@.len(), connectors_due(*document, *scope, list@, base@)),
            |y: ()| true,
        ),
{
    let _ = conversion::convert_list(
        list,
        |value: &canonical::Connector, index: usize| -> (r: Converted<()>)
            ensures
                conversion::outcome(
                    r,
                    connector_due(*document, *scope, *value, base@),
                    |y: ()| true,
                )
        {
            validate_connector(document, scope, value, base)
        },
        Ghost(connectors_due(*document, *scope, list@, base@)),
        Ghost(|a: canonical::Connector, b: ()| true),
    )?;
    Ok(())
}

/// The failure of the antenna at a place of a list.
pub open spec fn antennas_due(
    document: super::Hcdf,
    scope: canonical::ConnectivityScope,
    list: Seq<canonical::Antenna>,
    base: Seq<char>,
) -> spec_fn(int) -> Option<Failure> {
    |i: int|
        representation_due(document, scope, list[i].representation, conversion::named_path(base, "antenna"@, list[i].name@))
}

/// Checks the selectors of a list of items, each an antenna.
fn validate_antennas(
    document: &super::Hcdf,
    scope: &canonical::ConnectivityScope,
    list: &Vec<canonical::Antenna>,
    base: &str,
) -> (r: Converted<()>)
    ensures
        conversion::outcome(
            r,
            faults::first_failure(list@.len(), antennas_due(*document, *scope, list@, base@)),
            |y: ()| true,
        ),
{
    let _ = conversion::convert_list(
        list,
        |value: &canonical::Antenna, index: usize| -> (r: Converted<()>)
            ensures
                conversion::outcome(
                    r,
                    representation_due(*document, *scope, value.representation, conversion::named_path(base@, "antenna"@, value.name@)),
                    |y: ()| true,
                )
        {
            validate_optional_representation(document, scope, &value.representation, conversion::named(base, "antenna", value.name.as_str()).as_str())
        },
        Ghost(antennas_due(*document, *scope, list@, base@)),
        Ghost(|a: canonical::Antenna, b: ()| true),
    )?;
    Ok(())
}

/// The failure of the path at a place of a list.
pub open spec fn paths_due(
    document: super::Hcdf,
    scope: canonical::ConnectivityScope,
    list: Seq<canonical::PhysicalPath>,
    base: Seq<char>,
) -> spec_fn(int) -> Option<Failure> {
    |i: int|
        representation_due(document, scope, list[i].representation, conversion::named_path(base, "path"@, list[i].name@))
}

/// Checks the selectors of a list of items, each a path.
fn validate_paths(
    document: &super::Hcdf,
    scope: &canonical::ConnectivityScope,
    list: &Vec<canonical::PhysicalPath>,
    base: &str,
) -> (r: Converted<()>)
    ensures
        conversion::outcome(
            r,
            faults::first_failure(list@.len(), paths_due(*document, *scope, list@, base@)),
            |y: ()| true,
        ),
{
    let _ = conversion::convert_list(
        list,
        |value: &canonical::PhysicalPath, index: usize| -> (r: Converted<()>)
            ensures
                conversion::outcome(
                    r,
                    representation_due(*document, *scope, value.representation, conversion::named_path(base@, "path"@, value.name@)),
                    |y: ()| true,
                )
        {
            validate_optional_representation(document, scope, &value.representation, conversion::named(base, "path", value.name.as_str()).as_str())
        },
        Ghost(paths_due(*document, *scope, list@, base@)),
        Ghost(|a: canonical::PhysicalPath, b: ()| true),
    )?;
    Ok(())
}

/// The failure of the junction at a place of a list.
pub open spec fn junctions_due(
    document: super::Hcdf,
    scope: canonical::ConnectivityScope,
    list: Seq<canonical::Junction>,
    base: Seq<char>,
) -> spec_fn(int) -> Option<Failure> {
    |i: int|
        representation_due(document, scope, list[i].representation, conversion::named_path(base, "junction"@, list[i].name@))
}

/// Checks the selectors of a list of items, each a junction.
fn validate_junctions(
    document: &super::Hcdf,
    scope: &canonical::ConnectivityScope,
    list: &Vec<canonical::Junction>,
    base: &str,
) -> (r: Converted<()>)
    ensures
        conversion::outcome(
            r,
            faults::first_failure(list@.len(), junctions_due(*document, *scope, list@, base@)),
            |y: ()| true,
        ),
{
    let _ = conversion::convert_list(
        list,
        |value: &canonical::Junction, index: usize| -> (r: Converted<()>)
            ensures
                conversion::outcome(
                    r,
                    representation_due(*document, *scope, value.representation, conversion::named_path(base@, "junction"@, value.name@)),
                    |y: ()| true,
                )
        {
            validate_optional_representation(document, scope, &value.representation, conversion::named(base, "junction", value.name.as_str()).as_str())
        },
        Ghost(junctions_due(*document, *scope, list@, base@)),
        Ghost(|a: canonical::Junction, b: ()| true),
    )?;
    Ok(())
}

/// The failure of the termination at a place of a list.
pub open spec fn terminations_due(
    document: super::Hcdf,
    scope: canonical::ConnectivityScope,
    list: Seq<canonical::Termination>,
    base: Seq<char>,
) -> spec_fn(int) -> Option<Failure> {
    |i: int|
        representation_due(document, scope, list[i].representation, conversion::named_path(base, "termination"@, list[i].name@))
}

/// Checks the selectors of a list of items, each a termination.
fn validate_terminations(
    document: &super::Hcdf,
    scope: &canonical::ConnectivityScope,
    list: &Vec<canonical::Termination>,
    base: &str,
) -> (r: Converted<()>)
    ensures
        conversion::outcome(
            r,
            faults::first_failure(list@.len(), terminations_due(*document, *scope, list@, base@)),
            |y: ()| true,
        ),
{
    let _ = conversion::convert_list(
        list,
        |value: &canonical::Termination, index: usize| -> (r: Converted<()>)
            ensures
                conversion::outcome(
                    r,
                    representation_due(*document, *scope, value.representation, conversion::named_path(base@, "termination"@, value.name@)),
                    |y: ()| true,
                )
        {
            validate_optional_representation(document, scope, &value.representation, conversion::named(base, "termination", value.name.as_str()).as_str())
        },
        Ghost(terminations_due(*document, *scope, list@, base@)),
        Ghost(|a: canonical::Termination, b: ()| true),
    )?;
    Ok(())
}

/// The failure of the selectors of a component.
pub open spec fn component_due(
    document: super::Hcdf,
    scope: canonical::ConnectivityScope,
    component: canonical::ComponentConnectivity,
) -> Option<Failure> {
    let base = conversion::top_path("comp"@, component.component@);
    faults::either(
        faults::first_failure(
            component.connectors@.len(),
            connectors_due(document, scope, component.connectors@, base),
        ),
        faults::either(
            faults::first_failure(
                component.antennas@.len(),
                antennas_due(document, scope, component.antennas@, base),
            ),
            faults::either(
                faults::first_failure(
                    component.paths@.len(),
                    paths_due(document, scope, component.paths@, base),
                ),
                faults::either(
                    faults::first_failure(
                        component.junctions@.len(),
                        junctions_due(document, scope, component.junctions@, base),
                    ),
                    faults::first_failure(
                        component.terminations@.len(),
                        terminations_due(document, scope, component.terminations@, base),
                    ),
                ),
            ),
        ),
    )
}

/// Checks the selectors of a component.
fn validate_component(
    document: &super::Hcdf,
    scope: &canonical::ConnectivityScope,
    component: &canonical::ComponentConnectivity,
) -> (r: Converted<()>)
    ensures
        conversion::outcome(r, component_due(*document, *scope, *component), |y: ()| true),
{
    let base = conversion::top("comp", component.component.as_str());
    let _ = validate_connectors(document, scope, &component.connectors, base.as_str())?;
    let _ = validate_antennas(document, scope, &component.antennas, base.as_str())?;
    let _ = validate_paths(document, scope, &component.paths, base.as_str())?;
    let _ = validate_junctions(document, scope, &component.junctions, base.as_str())?;
    let _ = validate_terminations(document, scope, &component.terminations, base.as_str())?;
    Ok(())
}

/// The failure of the selectors of an assembly.
pub open spec fn assembly_due(
    document: super::Hcdf,
    scope: canonical::ConnectivityScope,
    assembly: canonical::PhysicalAssembly,
) -> Option<Failure> {
    let base = conversion::top_path("assembly"@, assembly.name@);
    faults::either(
        representation_due(document, scope, assembly.representation, base),
        faults::either(
            faults::first_failure(
                assembly.connectors@.len(),
                connectors_due(document, scope, assembly.connectors@, base),
            ),
            faults::either(
                faults::first_failure(
                    assembly.paths@.len(),
                    paths_due(document, scope, assembly.paths@, base),
                ),
                faults::either(
                    faults::first_failure(
                        assembly.junctions@.len(),
                        junctions_due(document, scope, assembly.junctions@, base),
                    ),
                    faults::first_failure(
                        assembly.terminations@.len(),
                        terminations_due(document, scope, assembly.terminations@, base),
                    ),
                ),
            ),
        ),
    )
}

/// Checks the selectors of an assembly.
fn validate_assembly(
    document: &super::Hcdf,
    scope: &canonical::ConnectivityScope,
    assembly: &canonical::PhysicalAssembly,
) -> (r: Converted<()>)
    ensures
        conversion::outcome(r, assembly_due(*document, *scope, *assembly), |y: ()| true),
{
    let base = conversion::top("assembly", assembly.name.as_str());
    let _ = validate_optional_representation(
        document,
        scope,
        &assembly.representation,
        base.as_str(),
    )?;
    let _ = validate_connectors(document, scope, &assembly.connectors, base.as_str())?;
    let _ = validate_paths(document, scope, &assembly.paths, base.as_str())?;
    let _ = validate_junctions(document, scope, &assembly.junctions, base.as_str())?;
    let _ = validate_terminations(document, scope, &assembly.terminations, base.as_str())?;
    Ok(())
}

/// The failure of the component at a place of a scope.
pub open spec fn components_due(
    document: super::Hcdf,
    scope: canonical::ConnectivityScope,
) -> spec_fn(int) -> Option<Failure> {
    |i: int| component_due(document, scope, scope.components@[i])
}

/// The failure of the assembly at a place of a scope.
pub open spec fn assemblies_due(
    document: super::Hcdf,
    scope: canonical::ConnectivityScope,
) -> spec_fn(int) -> Option<Failure> {
    |i: int| assembly_due(document, scope, scope.assemblies@[i])
}

/// The first failure of the selectors of a scope against its document.
#[verifier::opaque]
pub open spec fn selectors_due(
    document: super::Hcdf,
    scope: canonical::ConnectivityScope,
) -> Option<Failure> {
    faults::either(
        faults::first_failure(scope.components@.len(), components_due(document, scope)),
        faults::first_failure(scope.assemblies@.len(), assemblies_due(document, scope)),
    )
}

/// Checks that every representation of a scope selects things that exist.
pub(crate) fn validate_representation_selectors(
    document: &super::Hcdf,
    scope: &canonical::ConnectivityScope,
) -> (r: Converted<()>)
    ensures
        conversion::outcome(r, selectors_due(*document, *scope), |y: ()| true),
{
    proof {
        reveal(selectors_due);
    }
    let _ = conversion::convert_list(
        &scope.components,
        |value: &canonical::ComponentConnectivity, index: usize| -> (r: Converted<()>)
            ensures
                conversion::outcome(r, component_due(*document, *scope, *value), |y: ()| true)
        { validate_component(document, scope, value) },
        Ghost(components_due(*document, *scope)),
        Ghost(|a: canonical::ComponentConnectivity, b: ()| true),
    )?;
    let _ = conversion::convert_list(
        &scope.assemblies,
        |value: &canonical::PhysicalAssembly, index: usize| -> (r: Converted<()>)
            ensures
                conversion::outcome(r, assembly_due(*document, *scope, *value), |y: ()| true)
        { validate_assembly(document, scope, value) },
        Ghost(assemblies_due(*document, *scope)),
        Ghost(|a: canonical::PhysicalAssembly, b: ()| true),
    )?;
    Ok(())
}

} // verus!
