//! Conversion of identifiers and references.
use vstd::prelude::*;
use crate::faults;
use super::connectivity as canonical;
use super::connectivity_xml as xml;
use super::conversion;
use super::conversion::{ConnectivityConversionError, Converted, Failure};
use crate::text;

verus! {

/// The failure of a blank text in a place that must name something.
pub open spec fn nonempty_due(
    code: Seq<char>,
    value: Seq<char>,
    path: Seq<char>,
    label: Seq<char>,
) -> Option<Failure> {
    if text::is_blank(value) {
        Some(conversion::failure(code, path, label + " must not be empty"@))
    } else {
        None
    }
}

/// Requires a text that is not blank.
fn nonempty_coded(code: &'static str, value: &str, path: &str, label: &str) -> (r: Converted<()>)
    ensures
        conversion::outcome(r, nonempty_due(code@, value@, path@, label@), |y: ()| true),
{
    if text::blank(value) {
        let mut reason: String = label.to_owned();
        reason.append(" must not be empty");
        return Err(ConnectivityConversionError::coded(code, path, reason.as_str()));
    }
    Ok(())
}

/// Requires a representation text that is not blank.
pub(crate) fn nonempty(value: &str, path: &str, label: &str) -> (r: Converted<()>)
    ensures
        conversion::outcome(
            r,
            nonempty_due("E_CONN_REPRESENTATION_SHAPE"@, value@, path@, label@),
            |y: ()| true,
        ),
{
    nonempty_coded("E_CONN_REPRESENTATION_SHAPE", value, path, label)
}

/// Requires a reference that is not blank.
pub(crate) fn nonempty_reference(value: &str, path: &str, label: &str) -> (r: Converted<()>)
    ensures
        conversion::outcome(
            r,
            nonempty_due("E_CONN_EMPTY_REFERENCE"@, value@, path@, label@),
            |y: ()| true,
        ),
{
    nonempty_coded("E_CONN_EMPTY_REFERENCE", value, path, label)
}

/// Requires a frame reference that is not blank.
pub(crate) fn nonempty_frame(value: &str, path: &str, label: &str) -> (r: Converted<()>)
    ensures
        conversion::outcome(
            r,
            nonempty_due("E_CONN_FRAME_REFERENCE"@, value@, path@, label@),
            |y: ()| true,
        ),
{
    nonempty_coded("E_CONN_FRAME_REFERENCE", value, path, label)
}

/// The failure of a text that is not a qualified identifier.
pub open spec fn qualified_due(value: Seq<char>, path: Seq<char>) -> Option<Failure> {
    if canonical::is_qualified(value) {
        None
    } else {
        Some(
            conversion::failure(
                "E_CONN_QUALIFIED_ID"@,
                path,
                "invalid qualified identifier: "@ + ("qualified identifier "@ + text::debug_chars(
                    value,
                ) + " must use a safe ASCII authority:local token"@),
            ),
        )
    }
}

/// Reads a qualified identifier.
pub(crate) fn qualified(value: &str, path: &str) -> (r: Converted<canonical::QualifiedId>)
    ensures
        conversion::outcome(
            r,
            qualified_due(value@, path@),
            |y: canonical::QualifiedId| y.text() == value@,
        ),
{
    match canonical::QualifiedId::new(value.to_owned()) {
        Ok(id) => Ok(id),
        Err(error) => {
            let mut reason: String = "invalid qualified identifier: ".to_owned();
            reason.append(error.message().as_str());
            Err(ConnectivityConversionError::coded("E_CONN_QUALIFIED_ID", path, reason.as_str()))
        },
    }
}

/// The failure of an optional identifier in the attribute `attribute`.
pub open spec fn optional_id_due(
    value: Option<String>,
    path: Seq<char>,
    attribute: Seq<char>,
) -> Option<Failure> {
    match value {
        Some(text) => qualified_due(text@, conversion::part_path(path, attribute)),
        None => None,
    }
}

/// Whether an optional identifier holds the authored text.
pub open spec fn optional_id_maps(
    value: Option<String>,
    id: Option<canonical::QualifiedId>,
) -> bool {
    match (value, id) {
        (Some(text), Some(id)) => id.text() == text@,
        (None, None) => true,
        _ => false,
    }
}

/// Reads the optional identifier in the attribute `attribute`.
pub(crate) fn optional_id(value: &Option<String>, path: &str, attribute: &str) -> (r: Converted<Option<canonical::QualifiedId>>)
    ensures
        conversion::outcome(
            r,
            optional_id_due(*value, path@, attribute@),
            |y: Option<canonical::QualifiedId>| optional_id_maps(*value, y),
        ),
{
    match value {
        None => Ok(None),
        Some(text) => {
            let id = qualified(text.as_str(), conversion::part(path, attribute).as_str())?;
            Ok(Some(id))
        },
    }
}

/// Whether an authored segment name is present and empty.
pub open spec fn has_empty_name(segment: xml::InstanceSegment) -> bool {
    segment.name matches Some(name) && name@.len() == 0
}

/// The failure of an explicit instance reference: no segments, or a segment with an empty name.
pub open spec fn scope_due(instance: Option<xml::InstanceRef>, path: Seq<char>) -> Option<
    Failure,
> {
    match instance {
        None => None,
        Some(reference) => if reference.segment@.len() == 0 {
            Some(
                conversion::failure(
                    "E_CONN_CONVERSION"@,
                    path,
                    "an explicit instance reference must contain at least one segment"@,
                ),
            )
        } else if exists|i: int|
            0 <= i < reference.segment@.len() && has_empty_name(#[trigger] reference.segment@[i]) {
            Some(
                conversion::failure(
                    "E_CONN_CONVERSION"@,
                    path,
                    "named instance segment names must not be empty"@,
                ),
            )
        } else {
            None
        },
    }
}

/// Whether a canonical segment carries the authored one.
pub open spec fn segment_maps(
    segment: xml::InstanceSegment,
    mapped: canonical::IncludeInstanceSegment,
) -> bool {
    &&& mapped.occurrence == segment.occurrence
    &&& match (segment.name, mapped.name) {
        (None, canonical::IncludeSegmentName::Unnamed) => true,
        (Some(a), canonical::IncludeSegmentName::Named(b)) => a == b,
        _ => false,
    }
}

/// Whether a scope carries the authored instance reference.
pub open spec fn scope_maps(
    instance: Option<xml::InstanceRef>,
    scope: canonical::ReferenceScope,
) -> bool {
    match (instance, scope) {
        (None, canonical::ReferenceScope::Local) => true,
        (Some(reference), canonical::ReferenceScope::Instance(id)) => conversion::each_maps(
            reference.segment@,
            id@,
            |s: xml::InstanceSegment, t: canonical::IncludeInstanceSegment| segment_maps(s, t),
        ),
        _ => false,
    }
}

/// Converts an optional instance reference to a scope.
pub(crate) fn scope(instance: &Option<xml::InstanceRef>, path: &str) -> (r: Converted<canonical::ReferenceScope>)
    ensures
        conversion::outcome(
            r,
            scope_due(*instance, path@),
            |y: canonical::ReferenceScope| scope_maps(*instance, y),
        ),
{
    let reference = match instance {
        None => {
            return Ok(canonical::ReferenceScope::Local);
        },
        Some(reference) => reference,
    };
    if reference.segment.len() == 0 {
        return Err(
            ConnectivityConversionError::new(
                path,
                "an explicit instance reference must contain at least one segment",
            ),
        );
    }
    let mut id = canonical::IncludeInstanceId::root();
    let mut i: usize = 0;
    while i < reference.segment.len()
        invariant
            i <= reference.segment@.len(),
            reference.segment@.len() > 0,
            *instance == Some(*reference),
            id@.len() == i,
            forall|k: int|
                0 <= k < i ==> segment_maps(reference.segment@[k], #[trigger] id@[k])
                    && !has_empty_name(reference.segment@[k]),
        decreases reference.segment@.len() - i,
    {
        let segment = &reference.segment[i];
        let ghost before = id@;
        match &segment.name {
            None => {
                id = id.unnamed_child(segment.occurrence);
            },
            Some(name) => {
                if name.as_str().is_empty() {
                    assert(has_empty_name(reference.segment@[i as int]));
                    return Err(
                        ConnectivityConversionError::new(
                            path,
                            "named instance segment names must not be empty",
                        ),
                    );
                }
                id = id.named_child(name.clone(), segment.occurrence);
            },
        }
        i += 1;
        assert(segment_maps(reference.segment@[i - 1], id@[i - 1]));
        assert(!has_empty_name(reference.segment@[i - 1]));
        assert forall|k: int| 0 <= k < i implies segment_maps(
            reference.segment@[k],
            #[trigger] id@[k],
        ) && !has_empty_name(reference.segment@[k]) by {
            if k < i - 1 {
                assert(id@[k] == before[k]);
            }
        }
    }
    assert forall|k: int| 0 <= k < reference.segment@.len() implies !has_empty_name(
        #[trigger] reference.segment@[k],
    ) by {
        assert(segment_maps(reference.segment@[k], id@[k]));
    }
    Ok(canonical::ReferenceScope::Instance(id))
}

/// Whether the canonical reference carries the authored component.
pub open spec fn component_ref_maps(value: xml::ComponentRef, mapped: canonical::ComponentRef) -> bool {
    &&& scope_maps(value.instance, mapped.scope)
    &&& mapped.component == value.component
}

/// Converts a reference to a component.
pub(crate) fn component_ref(value: &xml::ComponentRef, path: &str) -> (r: Converted<canonical::ComponentRef>)
    ensures
        conversion::outcome(
            r,
            scope_due(value.instance, path@),
            |y: canonical::ComponentRef| component_ref_maps(*value, y),
        ),
{
    let scope = scope(&value.instance, path)?;
    Ok(canonical::ComponentRef { scope, component: value.component.clone() })
}

/// Whether the canonical reference carries the authored function.
pub open spec fn connectivity_function_ref_maps(value: xml::ConnectivityFunctionRef, mapped: canonical::ConnectivityFunctionRef) -> bool {
    &&& scope_maps(value.instance, mapped.component.scope)
    &&& mapped.component.component == value.component
    &&& mapped.function == value.function
}

/// Converts a reference to a function.
pub(crate) fn connectivity_function_ref(value: &xml::ConnectivityFunctionRef, path: &str) -> (r: Converted<canonical::ConnectivityFunctionRef>)
    ensures
        conversion::outcome(
            r,
            scope_due(value.instance, path@),
            |y: canonical::ConnectivityFunctionRef| connectivity_function_ref_maps(*value, y),
        ),
{
    let scope = scope(&value.instance, path)?;
    Ok(canonical::ConnectivityFunctionRef {
            component: canonical::ComponentRef { scope, component: value.component.clone() },
            function: value.function.clone(),
        })
}

/// Whether the canonical reference carries the authored network.
pub open spec fn network_ref_maps(value: xml::NetworkRef, mapped: canonical::NetworkRef) -> bool {
    &&& scope_maps(value.instance, mapped.scope)
    &&& mapped.network == value.network
}

/// Converts a reference to a network.
pub(crate) fn network_ref(value: &xml::NetworkRef, path: &str) -> (r: Converted<canonical::NetworkRef>)
    ensures
        conversion::outcome(
            r,
            scope_due(value.instance, path@),
            |y: canonical::NetworkRef| network_ref_maps(*value, y),
        ),
{
    let scope = scope(&value.instance, path)?;
    Ok(canonical::NetworkRef { scope, network: value.network.clone() })
}

/// Whether the canonical reference carries the authored participant.
pub open spec fn participant_ref_maps(value: xml::ParticipantRef, mapped: canonical::ParticipantRef) -> bool {
    &&& scope_maps(value.instance, mapped.network.scope)
    &&& mapped.network.network == value.network
    &&& mapped.participant == value.participant
}

/// Converts a reference to a participant.
pub(crate) fn participant_ref(value: &xml::ParticipantRef, path: &str) -> (r: Converted<canonical::ParticipantRef>)
    ensures
        conversion::outcome(
            r,
            scope_due(value.instance, path@),
            |y: canonical::ParticipantRef| participant_ref_maps(*value, y),
        ),
{
    let scope = scope(&value.instance, path)?;
    Ok(canonical::ParticipantRef {
            network: canonical::NetworkRef { scope, network: value.network.clone() },
            participant: value.participant.clone(),
        })
}

/// Whether the canonical reference carries the authored leg.
pub open spec fn leg_ref_maps(value: xml::LegRef, mapped: canonical::LegRef) -> bool {
    &&& scope_maps(value.instance, mapped.network.scope)
    &&& mapped.network.network == value.network
    &&& mapped.leg == value.leg
}

/// Converts a reference to a leg.
pub(crate) fn leg_ref(value: &xml::LegRef, path: &str) -> (r: Converted<canonical::LegRef>)
    ensures
        conversion::outcome(
            r,
            scope_due(value.instance, path@),
            |y: canonical::LegRef| leg_ref_maps(*value, y),
        ),
{
    let scope = scope(&value.instance, path)?;
    Ok(canonical::LegRef {
            network: canonical::NetworkRef { scope, network: value.network.clone() },
            leg: value.leg.clone(),
        })
}

/// Whether the canonical reference carries the authored MACsec policy.
pub open spec fn macsec_policy_ref_maps(value: xml::MacsecPolicyRef, mapped: canonical::MacsecPolicyRef) -> bool {
    &&& scope_maps(value.instance, mapped.network.scope)
    &&& mapped.network.network == value.network
    &&& mapped.policy == value.policy
}

/// Converts a reference to a MACsec policy.
pub(crate) fn macsec_policy_ref(value: &xml::MacsecPolicyRef, path: &str) -> (r: Converted<canonical::MacsecPolicyRef>)
    ensures
        conversion::outcome(
            r,
            scope_due(value.instance, path@),
            |y: canonical::MacsecPolicyRef| macsec_policy_ref_maps(*value, y),
        ),
{
    let scope = scope(&value.instance, path)?;
    Ok(canonical::MacsecPolicyRef {
            network: canonical::NetworkRef { scope, network: value.network.clone() },
            policy: value.policy.clone(),
        })
}

/// Whether the canonical reference carries the authored traffic class.
pub open spec fn traffic_class_ref_maps(value: xml::TrafficClassRef, mapped: canonical::TrafficClassRef) -> bool {
    &&& scope_maps(value.instance, mapped.network.scope)
    &&& mapped.network.network == value.network
    &&& mapped.traffic_class == value.traffic_class
}

/// Converts a reference to a traffic class.
pub(crate) fn traffic_class_ref(value: &xml::TrafficClassRef, path: &str) -> (r: Converted<canonical::TrafficClassRef>)
    ensures
        conversion::outcome(
            r,
            scope_due(value.instance, path@),
            |y: canonical::TrafficClassRef| traffic_class_ref_maps(*value, y),
        ),
{
    let scope = scope(&value.instance, path)?;
    Ok(canonical::TrafficClassRef {
            network: canonical::NetworkRef { scope, network: value.network.clone() },
            traffic_class: value.traffic_class.clone(),
        })
}

/// Whether the canonical reference carries the authored schedule.
pub open spec fn schedule_ref_maps(value: xml::ScheduleRef, mapped: canonical::ScheduleRef) -> bool {
    &&& scope_maps(value.instance, mapped.network.scope)
    &&& mapped.network.network == value.network
    &&& mapped.schedule == value.schedule
}

/// Converts a reference to a schedule.
pub(crate) fn schedule_ref(value: &xml::ScheduleRef, path: &str) -> (r: Converted<canonical::ScheduleRef>)
    ensures
        conversion::outcome(
            r,
            scope_due(value.instance, path@),
            |y: canonical::ScheduleRef| schedule_ref_maps(*value, y),
        ),
{
    let scope = scope(&value.instance, path)?;
    Ok(canonical::ScheduleRef {
            network: canonical::NetworkRef { scope, network: value.network.clone() },
            schedule: value.schedule.clone(),
        })
}

/// Whether the canonical reference carries the authored hop.
pub open spec fn hop_ref_maps(value: xml::HopRef, mapped: canonical::HopRef) -> bool {
    &&& scope_maps(value.instance, mapped.network.scope)
    &&& mapped.network.network == value.network
    &&& mapped.hop == value.hop
}

/// Converts a reference to a hop.
pub(crate) fn hop_ref(value: &xml::HopRef, path: &str) -> (r: Converted<canonical::HopRef>)
    ensures
        conversion::outcome(
            r,
            scope_due(value.instance, path@),
            |y: canonical::HopRef| hop_ref_maps(*value, y),
        ),
{
    let scope = scope(&value.instance, path)?;
    Ok(canonical::HopRef {
            network: canonical::NetworkRef { scope, network: value.network.clone() },
            hop: value.hop.clone(),
        })
}

/// Whether the canonical reference carries the authored port.
pub open spec fn port_ref_maps(value: xml::PortRef, mapped: canonical::PortRef) -> bool {
    &&& scope_maps(value.instance, mapped.scope)
    &&& mapped.component == value.component
    &&& mapped.port == value.port
}

/// Converts a reference to a port.
pub(crate) fn port_ref(value: &xml::PortRef, path: &str) -> (r: Converted<canonical::PortRef>)
    ensures
        conversion::outcome(
            r,
            scope_due(value.instance, path@),
            |y: canonical::PortRef| port_ref_maps(*value, y),
        ),
{
    let scope = scope(&value.instance, path)?;
    Ok(canonical::PortRef {
            scope,
            component: value.component.clone(),
            port: value.port.clone(),
        })
}

/// Whether the canonical reference carries the authored channel.
pub open spec fn channel_ref_maps(value: xml::ChannelRef, mapped: canonical::ChannelRef) -> bool {
    &&& scope_maps(value.instance, mapped.scope)
    &&& mapped.component == value.component
    &&& mapped.port == value.port
    &&& mapped.channel == value.channel
}

/// Converts a reference to a channel.
pub(crate) fn channel_ref(value: &xml::ChannelRef, path: &str) -> (r: Converted<canonical::ChannelRef>)
    ensures
        conversion::outcome(
            r,
            scope_due(value.instance, path@),
            |y: canonical::ChannelRef| channel_ref_maps(*value, y),
        ),
{
    let scope = scope(&value.instance, path)?;
    Ok(canonical::ChannelRef {
            scope,
            component: value.component.clone(),
            port: value.port.clone(),
            channel: value.channel.clone(),
        })
}

/// The failure of an authored functional endpoint.
pub open spec fn functional_endpoint_due(value: xml::FunctionalEndpointRef, path: Seq<char>) -> Option<Failure> {
    match value.endpoint {
        xml::FunctionalEndpointChoice::Port(reference) => scope_due(reference.instance, conversion::part_path(path, "port-ref"@)),
        xml::FunctionalEndpointChoice::Channel(reference) => scope_due(reference.instance, conversion::part_path(path, "channel-ref"@)),
    }
}

/// Whether the canonical functional endpoint carries the authored one.
pub open spec fn functional_endpoint_maps(value: xml::FunctionalEndpointRef, mapped: canonical::FunctionalEndpointRef) -> bool {
    match (value.endpoint, mapped) {
        (xml::FunctionalEndpointChoice::Port(a), canonical::FunctionalEndpointRef::Port(b)) => port_ref_maps(a, b),
        (xml::FunctionalEndpointChoice::Channel(a), canonical::FunctionalEndpointRef::Channel(b)) => channel_ref_maps(a, b),
        _ => false,
    }
}

/// Converts a functional endpoint.
pub(crate) fn functional_endpoint(value: &xml::FunctionalEndpointRef, path: &str) -> (r: Converted<canonical::FunctionalEndpointRef>)
    ensures
        conversion::outcome(
            r,
            functional_endpoint_due(*value, path@),
            |y: canonical::FunctionalEndpointRef| functional_endpoint_maps(*value, y),
        ),
{
    match &value.endpoint {
        xml::FunctionalEndpointChoice::Port(reference) => {
            let mapped = port_ref(reference, conversion::part(path, "port-ref").as_str())?;
            Ok(canonical::FunctionalEndpointRef::Port(mapped))
        },
        xml::FunctionalEndpointChoice::Channel(reference) => {
            let mapped = channel_ref(reference, conversion::part(path, "channel-ref").as_str())?;
            Ok(canonical::FunctionalEndpointRef::Channel(mapped))
        },
    }
}

/// The failure of an authored physical owner.
pub open spec fn owner_due(value: xml::PhysicalOwnerChoice, path: Seq<char>) -> Option<Failure> {
    match value {
        xml::PhysicalOwnerChoice::Component(reference) => {
            let inner = conversion::part_path(path, "component-ref"@);
            faults::either(
                nonempty_due(
                    "E_CONN_EMPTY_REFERENCE"@,
                    reference.component@,
                    conversion::part_path(inner, "@component"@),
                    "physical owner component"@,
                ),
                scope_due(reference.instance, inner),
            )
        },
        xml::PhysicalOwnerChoice::Assembly(reference) => {
            let inner = conversion::part_path(path, "assembly-ref"@);
            faults::either(
                nonempty_due(
                    "E_CONN_EMPTY_REFERENCE"@,
                    reference.assembly@,
                    conversion::part_path(inner, "@assembly"@),
                    "physical owner assembly"@,
                ),
                scope_due(reference.instance, inner),
            )
        },
    }
}

/// Whether the canonical owner carries the authored one.
pub open spec fn owner_maps(value: xml::PhysicalOwnerChoice, mapped: canonical::OwnerRef) -> bool {
    match (value, mapped) {
        (xml::PhysicalOwnerChoice::Component(a), canonical::OwnerRef::Component(b)) => {
            component_ref_maps(a, b)
        },
        (xml::PhysicalOwnerChoice::Assembly(a), canonical::OwnerRef::Assembly(b)) => {
            scope_maps(a.instance, b.scope) && b.assembly == a.assembly
        },
        _ => false,
    }
}

/// Converts a physical owner.
pub(crate) fn owner(value: &xml::PhysicalOwnerChoice, path: &str) -> (r: Converted<canonical::OwnerRef>)
    ensures
        conversion::outcome(
            r,
            owner_due(*value, path@),
            |y: canonical::OwnerRef| owner_maps(*value, y),
        ),
{
    match value {
        xml::PhysicalOwnerChoice::Component(reference) => {
            let inner = conversion::part(path, "component-ref");
            let _ = nonempty_reference(
                reference.component.as_str(),
                conversion::part(inner.as_str(), "@component").as_str(),
                "physical owner component",
            )?;
            let scope = scope(&reference.instance, inner.as_str())?;
            Ok(
                canonical::OwnerRef::Component(
                    canonical::ComponentRef { scope, component: reference.component.clone() },
                ),
            )
        },
        xml::PhysicalOwnerChoice::Assembly(reference) => {
            let inner = conversion::part(path, "assembly-ref");
            let _ = nonempty_reference(
                reference.assembly.as_str(),
                conversion::part(inner.as_str(), "@assembly").as_str(),
                "physical owner assembly",
            )?;
            let scope = scope(&reference.instance, inner.as_str())?;
            Ok(
                canonical::OwnerRef::Assembly(
                    canonical::AssemblyRef { scope, assembly: reference.assembly.clone() },
                ),
            )
        },
    }
}

/// The failure of an authored reference to a connector.
pub open spec fn connector_ref_due(value: xml::ConnectorRef, path: Seq<char>) -> Option<Failure> {
    faults::either(
        nonempty_due(
            "E_CONN_EMPTY_REFERENCE"@,
            value.connector@,
            conversion::part_path(path, "@connector"@),
            "connector reference"@,
        ),
        owner_due(value.owner, path),
    )
}

/// Whether the canonical reference carries the authored connector.
pub open spec fn connector_ref_maps(value: xml::ConnectorRef, mapped: canonical::ConnectorRef) -> bool {
    &&& owner_maps(value.owner, mapped.owner)
    &&& mapped.connector == value.connector
}

/// Converts a reference to a connector.
pub(crate) fn connector_ref(value: &xml::ConnectorRef, path: &str) -> (r: Converted<canonical::ConnectorRef>)
    ensures
        conversion::outcome(
            r,
            connector_ref_due(*value, path@),
            |y: canonical::ConnectorRef| connector_ref_maps(*value, y),
        ),
{
    let _ = nonempty_reference(
        value.connector.as_str(),
        conversion::part(path, "@connector").as_str(),
        "connector reference",
    )?;
    let owner = owner(&value.owner, path)?;
    Ok(canonical::ConnectorRef { owner, connector: value.connector.clone() })
}

/// The failure of an authored reference to a position.
pub open spec fn position_ref_due(value: xml::PositionRef, path: Seq<char>) -> Option<Failure> {
    faults::either(
        nonempty_due(
            "E_CONN_EMPTY_REFERENCE"@,
            value.connector@,
            conversion::part_path(path, "@connector"@),
            "position connector reference"@,
        ),
        faults::either(
            nonempty_due(
                "E_CONN_EMPTY_REFERENCE"@,
                value.position@,
                conversion::part_path(path, "@position"@),
                "position reference"@,
            ),
            owner_due(value.owner, path),
        ),
    )
}

/// Whether the canonical reference carries the authored position.
pub open spec fn position_ref_maps(value: xml::PositionRef, mapped: canonical::PositionRef) -> bool {
    &&& owner_maps(value.owner, mapped.owner)
    &&& mapped.connector == value.connector
    &&& mapped.position == value.position
}

/// Converts a reference to a position.
pub(crate) fn position_ref(value: &xml::PositionRef, path: &str) -> (r: Converted<canonical::PositionRef>)
    ensures
        conversion::outcome(
            r,
            position_ref_due(*value, path@),
            |y: canonical::PositionRef| position_ref_maps(*value, y),
        ),
{
    let _ = nonempty_reference(
        value.connector.as_str(),
        conversion::part(path, "@connector").as_str(),
        "position connector reference",
    )?;
    let _ = nonempty_reference(
        value.position.as_str(),
        conversion::part(path, "@position").as_str(),
        "position reference",
    )?;
    let owner = owner(&value.owner, path)?;
    Ok(canonical::PositionRef { owner, connector: value.connector.clone(), position: value.position.clone() })
}

/// The failure of an authored reference to a junction.
pub open spec fn junction_ref_due(value: xml::JunctionRef, path: Seq<char>) -> Option<Failure> {
    faults::either(
        nonempty_due(
            "E_CONN_EMPTY_REFERENCE"@,
            value.junction@,
            conversion::part_path(path, "@junction"@),
            "junction reference"@,
        ),
        owner_due(value.owner, path),
    )
}

/// Whether the canonical reference carries the authored junction.
pub open spec fn junction_ref_maps(value: xml::JunctionRef, mapped: canonical::JunctionRef) -> bool {
    &&& owner_maps(value.owner, mapped.owner)
    &&& mapped.junction == value.junction
}

/// Converts a reference to a junction.
pub(crate) fn junction_ref(value: &xml::JunctionRef, path: &str) -> (r: Converted<canonical::JunctionRef>)
    ensures
        conversion::outcome(
            r,
            junction_ref_due(*value, path@),
            |y: canonical::JunctionRef| junction_ref_maps(*value, y),
        ),
{
    let _ = nonempty_reference(
        value.junction.as_str(),
        conversion::part(path, "@junction").as_str(),
        "junction reference",
    )?;
    let owner = owner(&value.owner, path)?;
    Ok(canonical::JunctionRef { owner, junction: value.junction.clone() })
}

/// The failure of an authored physical endpoint.
pub open spec fn physical_endpoint_due(value: xml::PhysicalEndpointRef, path: Seq<char>) -> Option<Failure> {
    match value.endpoint {
        xml::PhysicalEndpointChoice::Connector(reference) => connector_ref_due(reference, conversion::part_path(path, "connector-ref"@)),
        xml::PhysicalEndpointChoice::Position(reference) => position_ref_due(reference, conversion::part_path(path, "position-ref"@)),
        xml::PhysicalEndpointChoice::Junction(reference) => junction_ref_due(reference, conversion::part_path(path, "junction-ref"@)),
    }
}

/// Whether the canonical physical endpoint carries the authored one.
pub open spec fn physical_endpoint_maps(value: xml::PhysicalEndpointRef, mapped: canonical::PhysicalEndpointRef) -> bool {
    match (value.endpoint, mapped) {
        (xml::PhysicalEndpointChoice::Connector(a), canonical::PhysicalEndpointRef::Connector(b)) => connector_ref_maps(a, b),
        (xml::PhysicalEndpointChoice::Position(a), canonical::PhysicalEndpointRef::Position(b)) => position_ref_maps(a, b),
        (xml::PhysicalEndpointChoice::Junction(a), canonical::PhysicalEndpointRef::Junction(b)) => junction_ref_maps(a, b),
        _ => false,
    }
}

/// Converts a physical endpoint.
pub(crate) fn physical_endpoint(value: &xml::PhysicalEndpointRef, path: &str) -> (r: Converted<canonical::PhysicalEndpointRef>)
    ensures
        conversion::outcome(
            r,
            physical_endpoint_due(*value, path@),
            |y: canonical::PhysicalEndpointRef| physical_endpoint_maps(*value, y),
        ),
{
    match &value.endpoint {
        xml::PhysicalEndpointChoice::Connector(reference) => {
            let mapped = connector_ref(reference, conversion::part(path, "connector-ref").as_str())?;
            Ok(canonical::PhysicalEndpointRef::Connector(mapped))
        },
        xml::PhysicalEndpointChoice::Position(reference) => {
            let mapped = position_ref(reference, conversion::part(path, "position-ref").as_str())?;
            Ok(canonical::PhysicalEndpointRef::Position(mapped))
        },
        xml::PhysicalEndpointChoice::Junction(reference) => {
            let mapped = junction_ref(reference, conversion::part(path, "junction-ref").as_str())?;
            Ok(canonical::PhysicalEndpointRef::Junction(mapped))
        },
    }
}

} // verus!
