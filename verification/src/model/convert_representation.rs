//! Conversion of representations: primitives, models, model parts and derived routes.
use vstd::prelude::*;
use crate::faults;
use super::connectivity as canonical;
use super::connectivity_xml as xml;
use super::conversion;
use super::conversion::{ConnectivityConversionError, Converted, Failure};
use super::convert_refs;

verus! {

/// The failure of an authored frame, named by `label`.
pub open spec fn route_frame_due(
    value: xml::RouteFrame,
    path: Seq<char>,
    label: Seq<char>,
) -> Option<Failure> {
    match value.frame {
        xml::RouteFrameChoice::World(_) => None,
        xml::RouteFrameChoice::ComponentOrigin(frame) => faults::either(
            convert_refs::nonempty_due(
                "E_CONN_FRAME_REFERENCE"@,
                frame.component@,
                path,
                label + " component"@,
            ),
            convert_refs::scope_due(frame.instance, path),
        ),
        xml::RouteFrameChoice::ComponentFrame(frame) => faults::either(
            convert_refs::nonempty_due(
                "E_CONN_FRAME_REFERENCE"@,
                frame.component@,
                path,
                label + " component"@,
            ),
            faults::either(
                convert_refs::nonempty_due(
                    "E_CONN_FRAME_REFERENCE"@,
                    frame.frame@,
                    path,
                    label + " frame"@,
                ),
                convert_refs::scope_due(frame.instance, path),
            ),
        ),
    }
}

/// Whether the canonical frame carries the authored one.
pub open spec fn route_frame_maps(
    value: xml::RouteFrame,
    mapped: canonical::RouteFrameRef,
) -> bool {
    match (value.frame, mapped) {
        (xml::RouteFrameChoice::World(_), canonical::RouteFrameRef::World) => true,
        (
            xml::RouteFrameChoice::ComponentOrigin(frame),
            canonical::RouteFrameRef::ComponentOrigin { component },
        ) => {
            &&& convert_refs::scope_maps(frame.instance, component.scope)
            &&& component.component == frame.component
        },
        (
            xml::RouteFrameChoice::ComponentFrame(authored),
            canonical::RouteFrameRef::ComponentFrame { component, frame },
        ) => {
            &&& convert_refs::scope_maps(authored.instance, component.scope)
            &&& component.component == authored.component
            &&& frame == authored.frame
        },
        _ => false,
    }
}

/// Converts a frame, named by `label` in errors.
pub(crate) fn route_frame(value: &xml::RouteFrame, path: &str, label: &str) -> (r: Converted<canonical::RouteFrameRef>)
    ensures
        conversion::outcome(
            r,
            route_frame_due(*value, path@, label@),
            |y: canonical::RouteFrameRef| route_frame_maps(*value, y),
        ),
{
    match &value.frame {
        xml::RouteFrameChoice::World(_) => Ok(canonical::RouteFrameRef::World),
        xml::RouteFrameChoice::ComponentOrigin(frame) => {
            let mut component_label: String = label.to_owned();
            component_label.append(" component");
            let _ = convert_refs::nonempty_frame(
                frame.component.as_str(),
                path,
                component_label.as_str(),
            )?;
            let scope = convert_refs::scope(&frame.instance, path)?;
            Ok(
                canonical::RouteFrameRef::ComponentOrigin {
                    component: canonical::ComponentRef {
                        scope,
                        component: frame.component.clone(),
                    },
                },
            )
        },
        xml::RouteFrameChoice::ComponentFrame(frame) => {
            let mut component_label: String = label.to_owned();
            component_label.append(" component");
            let _ = convert_refs::nonempty_frame(
                frame.component.as_str(),
                path,
                component_label.as_str(),
            )?;
            let mut frame_label: String = label.to_owned();
            frame_label.append(" frame");
            let _ = convert_refs::nonempty_frame(frame.frame.as_str(), path, frame_label.as_str())?;
            let scope = convert_refs::scope(&frame.instance, path)?;
            Ok(
                canonical::RouteFrameRef::ComponentFrame {
                    component: canonical::ComponentRef {
                        scope,
                        component: frame.component.clone(),
                    },
                    frame: frame.frame.clone(),
                },
            )
        },
    }
}

/// Whether the canonical rotation carries the authored one.
pub open spec fn rotation_maps(
    value: xml::PlacementRotation,
    mapped: canonical::PlacementRotation,
) -> bool {
    match (value.rotation, mapped) {
        (xml::PlacementRotationChoice::Rpy(a), canonical::PlacementRotation::Rpy(b)) => b
            == a.value,
        (
            xml::PlacementRotationChoice::Quaternion(a),
            canonical::PlacementRotation::Quaternion(b),
        ) => b == a.value,
        _ => false,
    }
}

/// Converts a rotation.
pub(crate) fn rotation(value: &xml::PlacementRotation) -> (r: canonical::PlacementRotation)
    ensures
        rotation_maps(*value, r),
{
    match &value.rotation {
        xml::PlacementRotationChoice::Rpy(rotation) => canonical::PlacementRotation::Rpy(
            rotation.value,
        ),
        xml::PlacementRotationChoice::Quaternion(rotation) => {
            canonical::PlacementRotation::Quaternion(rotation.value)
        },
    }
}

/// Whether the canonical placement carries the authored one.
pub open spec fn placement_maps(value: xml::Placement, mapped: canonical::Placement) -> bool {
    &&& route_frame_maps(value.frame, mapped.frame)
    &&& mapped.xyz == value.xyz
    &&& rotation_maps(value.rotation, mapped.rotation)
}

/// Converts a placement.
pub(crate) fn placement(value: &xml::Placement, path: &str) -> (r: Converted<canonical::Placement>)
    ensures
        conversion::outcome(
            r,
            route_frame_due(value.frame, path@, "placement"@),
            |y: canonical::Placement| placement_maps(*value, y),
        ),
{
    let frame = route_frame(&value.frame, path, "placement")?;
    Ok(canonical::Placement { frame, xyz: value.xyz, rotation: rotation(&value.rotation) })
}

/// Whether the dimensions of a route section are finite and greater than zero.
pub open spec fn section_is_valid(section: Option<xml::RouteSectionChoice>) -> bool {
    match section {
        None => true,
        Some(xml::RouteSectionChoice::Round(section)) => section.diameter.is_positive_finite(),
        Some(xml::RouteSectionChoice::Rectangular(section)) => {
            section.width.is_positive_finite() && section.height.is_positive_finite()
        },
    }
}

/// The failure of an authored route section.
pub open spec fn route_section_due(
    value: xml::DerivedRouteRepresentation,
    path: Seq<char>,
) -> Option<Failure> {
    if section_is_valid(value.section) {
        None
    } else {
        Some(
            conversion::failure(
                "E_CONN_REPRESENTATION_SHAPE"@,
                conversion::part_path(path, "derived-route"@),
                "route section dimensions must be finite and greater than zero"@,
            ),
        )
    }
}

/// Whether the canonical section carries the authored one.
pub open spec fn route_section_maps(
    value: Option<xml::RouteSectionChoice>,
    mapped: Option<canonical::RouteSection>,
) -> bool {
    match (value, mapped) {
        (None, None) => true,
        (
            Some(xml::RouteSectionChoice::Round(a)),
            Some(canonical::RouteSection::Round { diameter }),
        ) => diameter == a.diameter,
        (
            Some(xml::RouteSectionChoice::Rectangular(a)),
            Some(canonical::RouteSection::Rectangular { width, height }),
        ) => width == a.width && height == a.height,
        _ => false,
    }
}

/// Converts the section of a derived route.
pub(crate) fn route_section(value: &xml::DerivedRouteRepresentation, path: &str) -> (r: Converted<Option<canonical::RouteSection>>)
    ensures
        conversion::outcome(
            r,
            route_section_due(*value, path@),
            |y: Option<canonical::RouteSection>| route_section_maps(value.section, y),
        ),
{
    let section = match &value.section {
        None => None,
        Some(xml::RouteSectionChoice::Round(section)) => Some(
            canonical::RouteSection::Round { diameter: section.diameter },
        ),
        Some(xml::RouteSectionChoice::Rectangular(section)) => Some(
            canonical::RouteSection::Rectangular { width: section.width, height: section.height },
        ),
    };
    let valid = match &section {
        None => true,
        Some(canonical::RouteSection::Round { diameter }) => diameter.positive_finite(),
        Some(canonical::RouteSection::Rectangular { width, height }) => width.positive_finite()
            && height.positive_finite(),
    };
    if !valid {
        return Err(
            ConnectivityConversionError::coded(
                "E_CONN_REPRESENTATION_SHAPE",
                conversion::part(path, "derived-route").as_str(),
                "route section dimensions must be finite and greater than zero",
            ),
        );
    }
    Ok(section)
}

/// The failure of the waypoint at a place of a derived route.
pub open spec fn waypoints_due(waypoints: Seq<xml::RoutePoint>, path: Seq<char>) -> spec_fn(
    int,
) -> Option<Failure> {
    |i: int|
        route_frame_due(
            waypoints[i].frame,
            conversion::indexed_path(path, "derived-route/waypoint"@, i),
            "waypoint"@,
        )
}

/// Whether the canonical waypoint carries the authored one.
pub open spec fn waypoint_maps(value: xml::RoutePoint, mapped: canonical::RoutePoint) -> bool {
    &&& route_frame_maps(value.frame, mapped.frame)
    &&& mapped.xyz == value.xyz
    &&& match (value.rotation, mapped.rotation) {
        (None, None) => true,
        (Some(a), Some(b)) => rotation_maps(a, b),
        _ => false,
    }
}

/// Converts the waypoint at a place of a derived route.
fn waypoint(value: &xml::RoutePoint, path: &str, index: usize) -> (r: Converted<canonical::RoutePoint>)
    ensures
        conversion::outcome(
            r,
            route_frame_due(
                value.frame,
                conversion::indexed_path(path@, "derived-route/waypoint"@, index as int),
                "waypoint"@,
            ),
            |y: canonical::RoutePoint| waypoint_maps(*value, y),
        ),
{
    let inner = conversion::indexed(path, "derived-route/waypoint", index);
    let frame = route_frame(&value.frame, inner.as_str(), "waypoint")?;
    let rotation = match &value.rotation {
        None => None,
        Some(value) => Some(rotation(value)),
    };
    Ok(canonical::RoutePoint { frame, xyz: value.xyz, rotation })
}

/// The failure of an authored derived route.
pub open spec fn derived_route_due(
    value: xml::DerivedRouteRepresentation,
    path: Seq<char>,
) -> Option<Failure> {
    faults::either(
        route_section_due(value, path),
        if value.waypoint@.len() < 2 {
            Some(
                conversion::failure(
                    "E_CONN_REPRESENTATION_SHAPE"@,
                    conversion::part_path(path, "derived-route"@),
                    "a derived route requires at least two framed waypoints"@,
                ),
            )
        } else {
            faults::first_failure(
                value.waypoint@.len(),
                waypoints_due(value.waypoint@, path),
            )
        },
    )
}

/// Whether the canonical route carries the authored one.
pub open spec fn derived_route_maps(
    value: xml::DerivedRouteRepresentation,
    mapped: canonical::DerivedRouteRepresentation,
) -> bool {
    &&& conversion::each_maps(
        value.waypoint@,
        mapped.waypoints@,
        |a: xml::RoutePoint, b: canonical::RoutePoint| waypoint_maps(a, b),
    )
    &&& route_section_maps(value.section, mapped.section)
}

/// Converts a derived route.
fn derived_route(value: &xml::DerivedRouteRepresentation, path: &str) -> (r: Converted<canonical::DerivedRouteRepresentation>)
    ensures
        conversion::outcome(
            r,
            derived_route_due(*value, path@),
            |y: canonical::DerivedRouteRepresentation| derived_route_maps(*value, y),
        ),
{
    let section = route_section(value, path)?;
    if value.waypoint.len() < 2 {
        return Err(
            ConnectivityConversionError::coded(
                "E_CONN_REPRESENTATION_SHAPE",
                conversion::part(path, "derived-route").as_str(),
                "a derived route requires at least two framed waypoints",
            ),
        );
    }
    let waypoints = conversion::convert_list(
        &value.waypoint,
        |point: &xml::RoutePoint, index: usize| -> (r: Converted<canonical::RoutePoint>)
            ensures
                conversion::outcome(
                    r,
                    route_frame_due(
                        point.frame,
                        conversion::indexed_path(path@, "derived-route/waypoint"@, index as int),
                        "waypoint"@,
                    ),
                    |y: canonical::RoutePoint| waypoint_maps(*point, y),
                )
        { waypoint(point, path, index) },
        Ghost(waypoints_due(value.waypoint@, path@)),
        Ghost(|a: xml::RoutePoint, b: canonical::RoutePoint| waypoint_maps(a, b)),
    )?;
    Ok(canonical::DerivedRouteRepresentation { waypoints, section })
}

/// The failure of an optional text that must not be blank when present.
pub open spec fn optional_text_due(
    value: Option<String>,
    path: Seq<char>,
    label: Seq<char>,
) -> Option<Failure> {
    match value {
        Some(text) => convert_refs::nonempty_due(
            "E_CONN_REPRESENTATION_SHAPE"@,
            text@,
            path,
            label,
        ),
        None => None,
    }
}

/// Requires that an optional text is not blank when present.
fn optional_text(value: &Option<String>, path: &str, label: &str) -> (r: Converted<()>)
    ensures
        conversion::outcome(r, optional_text_due(*value, path@, label@), |y: ()| true),
{
    match value {
        Some(text) => convert_refs::nonempty(text.as_str(), path, label),
        None => Ok(()),
    }
}

/// The failure of an authored standalone model.
pub open spec fn model_due(value: xml::ModelRepresentation, path: Seq<char>) -> Option<Failure> {
    faults::either(
        convert_refs::nonempty_due(
            "E_CONN_REPRESENTATION_SHAPE"@,
            value.uri@,
            conversion::part_path(path, "model/@uri"@),
            "standalone model @uri"@,
        ),
        faults::either(
            optional_text_due(
                value.sha,
                conversion::part_path(path, "model/@sha"@),
                "standalone model @sha"@,
            ),
            faults::either(
                optional_text_due(
                    value.node_path,
                    conversion::part_path(path, "model/@node-path"@),
                    "standalone model @node-path"@,
                ),
                route_frame_due(
                    value.placement.frame,
                    conversion::part_path(path, "model/placement"@),
                    "placement"@,
                ),
            ),
        ),
    )
}

/// The failure of an authored model root.
pub open spec fn model_root_due(value: xml::ModelRoot, path: Seq<char>) -> Option<Failure> {
    match value.root {
        xml::ModelRootChoice::ComponentVisual(root) => convert_refs::scope_due(
            root.instance,
            conversion::part_path(path, "model-part/model-root/component-visual"@),
        ),
        xml::ModelRootChoice::AssemblyModel(root) => convert_refs::scope_due(
            root.instance,
            conversion::part_path(path, "model-part/model-root/assembly-model"@),
        ),
    }
}

/// Whether the canonical model root carries the authored one.
pub open spec fn model_root_maps(
    value: xml::ModelRoot,
    mapped: canonical::ModelRootRef,
) -> bool {
    match (value.root, mapped) {
        (
            xml::ModelRootChoice::ComponentVisual(root),
            canonical::ModelRootRef::ComponentVisual { component, visual },
        ) => {
            &&& convert_refs::scope_maps(root.instance, component.scope)
            &&& component.component == root.component
            &&& visual == root.visual
        },
        (
            xml::ModelRootChoice::AssemblyModel(root),
            canonical::ModelRootRef::AssemblyModel { assembly },
        ) => {
            &&& convert_refs::scope_maps(root.instance, assembly.scope)
            &&& assembly.assembly == root.assembly
        },
        _ => false,
    }
}

/// Converts a model root.
fn model_root(value: &xml::ModelRoot, path: &str) -> (r: Converted<canonical::ModelRootRef>)
    ensures
        conversion::outcome(
            r,
            model_root_due(*value, path@),
            |y: canonical::ModelRootRef| model_root_maps(*value, y),
        ),
{
    match &value.root {
        xml::ModelRootChoice::ComponentVisual(root) => {
            let scope = convert_refs::scope(
                &root.instance,
                conversion::part(path, "model-part/model-root/component-visual").as_str(),
            )?;
            Ok(
                canonical::ModelRootRef::ComponentVisual {
                    component: canonical::ComponentRef {
                        scope,
                        component: root.component.clone(),
                    },
                    visual: root.visual.clone(),
                },
            )
        },
        xml::ModelRootChoice::AssemblyModel(root) => {
            let scope = convert_refs::scope(
                &root.instance,
                conversion::part(path, "model-part/model-root/assembly-model").as_str(),
            )?;
            Ok(
                canonical::ModelRootRef::AssemblyModel {
                    assembly: canonical::AssemblyRef { scope, assembly: root.assembly.clone() },
                },
            )
        },
    }
}

/// The failure of an authored model part.
pub open spec fn model_part_due(
    value: xml::ModelPartRepresentation,
    path: Seq<char>,
) -> Option<Failure> {
    faults::either(
        convert_refs::nonempty_due(
            "E_CONN_REPRESENTATION_SHAPE"@,
            value.node_path@,
            conversion::part_path(path, "model-part/@node-path"@),
            "model-part @node-path"@,
        ),
        faults::either(
            optional_text_due(
                value.submesh_fallback,
                conversion::part_path(path, "model-part/@submesh-fallback"@),
                "model-part @submesh-fallback"@,
            ),
            model_root_due(value.model_root, path),
        ),
    )
}

/// The failure of an authored representation.
pub open spec fn representation_due(value: xml::Representation, path: Seq<char>) -> Option<
    Failure,
> {
    match value.variant {
        xml::RepresentationChoice::Box(value) => route_frame_due(
            value.placement.frame,
            conversion::part_path(path, "box/placement"@),
            "placement"@,
        ),
        xml::RepresentationChoice::Cylinder(value) => route_frame_due(
            value.placement.frame,
            conversion::part_path(path, "cylinder/placement"@),
            "placement"@,
        ),
        xml::RepresentationChoice::Sphere(value) => route_frame_due(
            value.placement.frame,
            conversion::part_path(path, "sphere/placement"@),
            "placement"@,
        ),
        xml::RepresentationChoice::Model(value) => model_due(value, path),
        xml::RepresentationChoice::ModelPart(value) => model_part_due(value, path),
        xml::RepresentationChoice::DerivedRoute(value) => derived_route_due(value, path),
    }
}

/// Whether the canonical representation carries the authored one.
pub open spec fn representation_maps(
    value: xml::Representation,
    mapped: canonical::Representation,
) -> bool {
    match (value.variant, mapped) {
        (
            xml::RepresentationChoice::Box(value),
            canonical::Representation::Primitive {
                primitive: canonical::PrimitiveRepresentation::Box { size },
                placement,
            },
        ) => size == value.size && placement_maps(value.placement, placement),
        (
            xml::RepresentationChoice::Cylinder(value),
            canonical::Representation::Primitive {
                primitive: canonical::PrimitiveRepresentation::Cylinder { radius, length },
                placement,
            },
        ) => radius == value.radius && length == value.length && placement_maps(
            value.placement,
            placement,
        ),
        (
            xml::RepresentationChoice::Sphere(value),
            canonical::Representation::Primitive {
                primitive: canonical::PrimitiveRepresentation::Sphere { radius },
                placement,
            },
        ) => radius == value.radius && placement_maps(value.placement, placement),
        (
            xml::RepresentationChoice::Model(value),
            canonical::Representation::Model { model, placement },
        ) => {
            &&& model.uri == value.uri
            &&& model.sha == value.sha
            &&& model.node_path == value.node_path
            &&& placement_maps(value.placement, placement)
        },
        (
            xml::RepresentationChoice::ModelPart(value),
            canonical::Representation::ModelPart(part),
        ) => {
            &&& model_root_maps(value.model_root, part.model_root)
            &&& part.node_path == value.node_path
            &&& part.submesh_fallback == value.submesh_fallback
        },
        (
            xml::RepresentationChoice::DerivedRoute(value),
            canonical::Representation::DerivedRoute(route),
        ) => derived_route_maps(value, route),
        _ => false,
    }
}

/// Converts a representation.
pub(crate) fn representation(value: &xml::Representation, path: &str) -> (r: Converted<canonical::Representation>)
    ensures
        conversion::outcome(
            r,
            representation_due(*value, path@),
            |y: canonical::Representation| representation_maps(*value, y),
        ),
{
    match &value.variant {
        xml::RepresentationChoice::Box(value) => {
            let placement = placement(
                &value.placement,
                conversion::part(path, "box/placement").as_str(),
            )?;
            Ok(
                canonical::Representation::Primitive {
                    primitive: canonical::PrimitiveRepresentation::Box { size: value.size },
                    placement,
                },
            )
        },
        xml::RepresentationChoice::Cylinder(value) => {
            let placement = placement(
                &value.placement,
                conversion::part(path, "cylinder/placement").as_str(),
            )?;
            Ok(
                canonical::Representation::Primitive {
                    primitive: canonical::PrimitiveRepresentation::Cylinder {
                        radius: value.radius,
                        length: value.length,
                    },
                    placement,
                },
            )
        },
        xml::RepresentationChoice::Sphere(value) => {
            let placement = placement(
                &value.placement,
                conversion::part(path, "sphere/placement").as_str(),
            )?;
            Ok(
                canonical::Representation::Primitive {
                    primitive: canonical::PrimitiveRepresentation::Sphere { radius: value.radius },
                    placement,
                },
            )
        },
        xml::RepresentationChoice::Model(value) => {
            let _ = convert_refs::nonempty(
                value.uri.as_str(),
                conversion::part(path, "model/@uri").as_str(),
                "standalone model @uri",
            )?;
            let _ = optional_text(
                &value.sha,
                conversion::part(path, "model/@sha").as_str(),
                "standalone model @sha",
            )?;
            let _ = optional_text(
                &value.node_path,
                conversion::part(path, "model/@node-path").as_str(),
                "standalone model @node-path",
            )?;
            let placement = placement(
                &value.placement,
                conversion::part(path, "model/placement").as_str(),
            )?;
            Ok(
                canonical::Representation::Model {
                    model: canonical::ModelRepresentation {
                        uri: value.uri.clone(),
                        sha: crate::text::clone_option(&value.sha),
                        node_path: crate::text::clone_option(&value.node_path),
                    },
                    placement,
                },
            )
        },
        xml::RepresentationChoice::ModelPart(value) => {
            let _ = convert_refs::nonempty(
                value.node_path.as_str(),
                conversion::part(path, "model-part/@node-path").as_str(),
                "model-part @node-path",
            )?;
            let _ = optional_text(
                &value.submesh_fallback,
                conversion::part(path, "model-part/@submesh-fallback").as_str(),
                "model-part @submesh-fallback",
            )?;
            let model_root = model_root(&value.model_root, path)?;
            Ok(
                canonical::Representation::ModelPart(
                    canonical::ModelPartRepresentation {
                        model_root,
                        node_path: value.node_path.clone(),
                        submesh_fallback: crate::text::clone_option(&value.submesh_fallback),
                    },
                ),
            )
        },
        xml::RepresentationChoice::DerivedRoute(value) => {
            let route = derived_route(value, path)?;
            Ok(canonical::Representation::DerivedRoute(route))
        },
    }
}

/// The failure of an optional representation of the element at `path`.
pub open spec fn optional_representation_due(
    value: Option<xml::Representation>,
    path: Seq<char>,
) -> Option<Failure> {
    match value {
        Some(value) => representation_due(value, conversion::part_path(path, "representation"@)),
        None => None,
    }
}

/// Whether the optional canonical representation carries the authored one.
pub open spec fn optional_representation_maps(
    value: Option<xml::Representation>,
    mapped: Option<canonical::Representation>,
) -> bool {
    match (value, mapped) {
        (Some(a), Some(b)) => representation_maps(a, b),
        (None, None) => true,
        _ => false,
    }
}

/// Converts the optional representation of the element at `path`.
pub(crate) fn optional_representation(value: &Option<xml::Representation>, path: &str) -> (r: Converted<Option<canonical::Representation>>)
    ensures
        conversion::outcome(
            r,
            optional_representation_due(*value, path@),
            |y: Option<canonical::Representation>| optional_representation_maps(*value, y),
        ),
{
    match value {
        None => Ok(None),
        Some(value) => {
            let mapped = representation(
                value,
                conversion::part(path, "representation").as_str(),
            )?;
            Ok(Some(mapped))
        },
    }
}

} // verus!
