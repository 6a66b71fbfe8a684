//! Conversion of networks: participants, hops, legs and the parts shared by every topology.
use vstd::prelude::*;
use crate::faults;
use super::connectivity as canonical;
use super::connectivity_xml as xml;
use super::conversion;
use super::conversion::{ConnectivityConversionError, Converted, Failure};
use super::convert_refs;
use super::convert_configuration;
use super::convert_selection;
use crate::text;

verus! {

/// The failure of an authored hop owner under `path`.
pub open spec fn hop_owner_due(value: xml::HopOwnerRef, path: Seq<char>) -> Option<Failure> {
    match value.owner {
        xml::HopOwnerChoice::Component(reference) => convert_refs::scope_due(
            reference.instance,
            conversion::part_path(path, "owner/component-ref"@),
        ),
        xml::HopOwnerChoice::Function(reference) => convert_refs::scope_due(
            reference.instance,
            conversion::part_path(path, "owner/function-ref"@),
        ),
    }
}

/// Whether the canonical hop owner carries the authored one.
pub open spec fn hop_owner_maps(value: xml::HopOwnerRef, mapped: canonical::HopOwnerRef) -> bool {
    match (value.owner, mapped) {
        (xml::HopOwnerChoice::Component(a), canonical::HopOwnerRef::Component(b)) => {
            convert_refs::component_ref_maps(a, b)
        },
        (xml::HopOwnerChoice::Function(a), canonical::HopOwnerRef::Function(b)) => {
            convert_refs::connectivity_function_ref_maps(a, b)
        },
        _ => false,
    }
}

/// Converts a hop owner under `path`.
fn hop_owner(value: &xml::HopOwnerRef, path: &str) -> (r: Converted<canonical::HopOwnerRef>)
    ensures
        conversion::outcome(
            r,
            hop_owner_due(*value, path@),
            |y: canonical::HopOwnerRef| hop_owner_maps(*value, y),
        ),
{
    match &value.owner {
        xml::HopOwnerChoice::Component(reference) => {
            let mapped = convert_refs::component_ref(
                reference,
                conversion::part(path, "owner/component-ref").as_str(),
            )?;
            Ok(canonical::HopOwnerRef::Component(mapped))
        },
        xml::HopOwnerChoice::Function(reference) => {
            let mapped = convert_refs::connectivity_function_ref(
                reference,
                conversion::part(path, "owner/function-ref").as_str(),
            )?;
            Ok(canonical::HopOwnerRef::Function(mapped))
        },
    }
}

/// The failure of an authored hop.
pub open spec fn convert_hop_due(value: xml::Hop, path: Seq<char>, index: int) -> Option<Failure> {
    let inner = conversion::named_path(path, "hop"@, value.name@);
    faults::either(
        hop_owner_due(value.owner, inner),
        convert_refs::optional_id_due(value.role, inner, "@role"@),
    )
}

/// Whether the canonical hop carries the authored one.
pub open spec fn convert_hop_maps(value: xml::Hop, mapped: canonical::Hop) -> bool {
    &&& mapped.name == value.name
    &&& hop_owner_maps(value.owner, mapped.owner)
    &&& convert_refs::optional_id_maps(value.role, mapped.role)
    &&& mapped.description == value.description
    &&& mapped.processing_delay_ns == value.processing_delay_ns
}

/// Converts a hop.
fn convert_hop(value: &xml::Hop, path: &str, index: usize) -> (r: Converted<canonical::Hop>)
    ensures
        conversion::outcome(
            r,
            convert_hop_due(*value, path@, index as int),
            |y: canonical::Hop| convert_hop_maps(*value, y),
        ),
{
    let inner = conversion::named(path, "hop", value.name.as_str());
    let owner = hop_owner(&value.owner, inner.as_str())?;
    let role = convert_refs::optional_id(&value.role, inner.as_str(), "@role")?;
    Ok(
        canonical::Hop {
            name: value.name.clone(),
            owner,
            role,
            description: text::clone_option(&value.description),
            processing_delay_ns: value.processing_delay_ns,
        },
    )
}

/// The failure of the hop at a place of a list.
pub open spec fn hops_due(list: Seq<xml::Hop>, path: Seq<char>) -> spec_fn(int) -> Option<Failure> {
    |i: int| convert_hop_due(list[i], path, i)
}

/// Whether a list of canonical items carries a list of authored ones.
pub open spec fn hops_map(list: Seq<xml::Hop>, mapped: Seq<canonical::Hop>) -> bool {
    conversion::each_maps(list, mapped, |a: xml::Hop, b: canonical::Hop| convert_hop_maps(a, b))
}

/// Converts a list of items, each a hop.
fn hops(list: &Vec<xml::Hop>, path: &str) -> (r: Converted<Vec<canonical::Hop>>)
    ensures
        conversion::outcome(
            r,
            faults::first_failure(list@.len(), hops_due(list@, path@)),
            |y: Vec<canonical::Hop>| hops_map(list@, y@),
        ),
{
    conversion::convert_list(
        list,
        |value: &xml::Hop, index: usize| -> (r: Converted<canonical::Hop>)
            ensures
                conversion::outcome(
                    r,
                    convert_hop_due(*value, path@, index as int),
                    |y: canonical::Hop| convert_hop_maps(*value, y),
                )
        { convert_hop(value, path, index) },
        Ghost(hops_due(list@, path@)),
        Ghost(|a: xml::Hop, b: canonical::Hop| convert_hop_maps(a, b)),
    )
}

/// The failure of an authored leg end at `path`.
pub open spec fn leg_end_due(value: xml::LegEnd, path: Seq<char>) -> Option<Failure> {
    faults::either(
        convert_refs::scope_due(value.hop.instance, conversion::part_path(path, "hop-ref"@)),
        convert_refs::scope_due(
            value.participant.instance,
            conversion::part_path(path, "participant-ref"@),
        ),
    )
}

/// Whether the canonical leg end carries the authored one.
pub open spec fn leg_end_maps(value: xml::LegEnd, mapped: canonical::LegEnd) -> bool {
    &&& convert_refs::hop_ref_maps(value.hop, mapped.hop)
    &&& convert_refs::participant_ref_maps(value.participant, mapped.participant)
}

/// Converts the leg end at `path`.
fn leg_end(value: &xml::LegEnd, path: &str) -> (r: Converted<canonical::LegEnd>)
    ensures
        conversion::outcome(
            r,
            leg_end_due(*value, path@),
            |y: canonical::LegEnd| leg_end_maps(*value, y),
        ),
{
    let hop = convert_refs::hop_ref(&value.hop, conversion::part(path, "hop-ref").as_str())?;
    let participant = convert_refs::participant_ref(
        &value.participant,
        conversion::part(path, "participant-ref").as_str(),
    )?;
    Ok(canonical::LegEnd { hop, participant })
}

/// The failure of an authored leg.
pub open spec fn convert_leg_due(value: xml::Leg, path: Seq<char>, index: int) -> Option<Failure> {
    let inner = conversion::named_path(path, "leg"@, value.name@);
    faults::either(
        leg_end_due(value.from, conversion::part_path(inner, "from"@)),
        leg_end_due(value.to, conversion::part_path(inner, "to"@)),
    )
}

/// Whether the canonical leg carries the authored one.
pub open spec fn convert_leg_maps(value: xml::Leg, mapped: canonical::Leg) -> bool {
    &&& mapped.name == value.name
    &&& leg_end_maps(value.from, mapped.from)
    &&& leg_end_maps(value.to, mapped.to)
}

/// Converts a leg.
fn convert_leg(value: &xml::Leg, path: &str, index: usize) -> (r: Converted<canonical::Leg>)
    ensures
        conversion::outcome(
            r,
            convert_leg_due(*value, path@, index as int),
            |y: canonical::Leg| convert_leg_maps(*value, y),
        ),
{
    let inner = conversion::named(path, "leg", value.name.as_str());
    let from = leg_end(&value.from, conversion::part(inner.as_str(), "from").as_str())?;
    let to = leg_end(&value.to, conversion::part(inner.as_str(), "to").as_str())?;
    Ok(canonical::Leg { name: value.name.clone(), from, to })
}

/// The failure of the leg at a place of a list.
pub open spec fn legs_due(list: Seq<xml::Leg>, path: Seq<char>) -> spec_fn(int) -> Option<Failure> {
    |i: int| convert_leg_due(list[i], path, i)
}

/// Whether a list of canonical items carries a list of authored ones.
pub open spec fn legs_map(list: Seq<xml::Leg>, mapped: Seq<canonical::Leg>) -> bool {
    conversion::each_maps(list, mapped, |a: xml::Leg, b: canonical::Leg| convert_leg_maps(a, b))
}

/// Converts a list of items, each a leg.
fn legs(list: &Vec<xml::Leg>, path: &str) -> (r: Converted<Vec<canonical::Leg>>)
    ensures
        conversion::outcome(
            r,
            faults::first_failure(list@.len(), legs_due(list@, path@)),
            |y: Vec<canonical::Leg>| legs_map(list@, y@),
        ),
{
    conversion::convert_list(
        list,
        |value: &xml::Leg, index: usize| -> (r: Converted<canonical::Leg>)
            ensures
                conversion::outcome(
                    r,
                    convert_leg_due(*value, path@, index as int),
                    |y: canonical::Leg| convert_leg_maps(*value, y),
                )
        { convert_leg(value, path, index) },
        Ghost(legs_due(list@, path@)),
        Ghost(|a: xml::Leg, b: canonical::Leg| convert_leg_maps(a, b)),
    )
}

/// The failure of the authored hops and legs of the network at `path`.
pub open spec fn path_topology_due(
    hops: Seq<xml::Hop>,
    legs: Seq<xml::Leg>,
    path: Seq<char>,
) -> Option<Failure> {
    faults::either(
        faults::first_failure(hops.len(), hops_due(hops, path)),
        faults::first_failure(legs.len(), legs_due(legs, path)),
    )
}

/// Whether a canonical topology carries the authored hops and legs.
pub open spec fn path_topology_maps(
    hops: Seq<xml::Hop>,
    legs: Seq<xml::Leg>,
    mapped: canonical::PathTopology,
) -> bool {
    &&& hops_map(hops, mapped.hops@)
    &&& legs_map(legs, mapped.legs@)
}

/// Converts the hops and legs of the network at `path`.
pub(crate) fn path_topology(hop: &Vec<xml::Hop>, leg: &Vec<xml::Leg>, path: &str) -> (r: Converted<
    canonical::PathTopology,
>)
    ensures
        conversion::outcome(
            r,
            path_topology_due(hop@, leg@, path@),
            |y: canonical::PathTopology| path_topology_maps(hop@, leg@, y),
        ),
{
    let hops = hops(hop, path)?;
    let legs = legs(leg, path)?;
    Ok(canonical::PathTopology { hops, legs })
}

/// The failure of an authored participant.
pub open spec fn participant_due(value: xml::Participant, path: Seq<char>, index: int) -> Option<Failure> {
    let inner = conversion::named_path(path, "participant"@, value.name@);
    faults::either(
        convert_refs::functional_endpoint_due(
            value.endpoint,
            conversion::part_path(inner, "endpoint"@),
        ),
        convert_refs::optional_id_due(value.role, inner, "@role"@),
    )
}

/// Whether the canonical participant carries the authored one.
pub open spec fn participant_maps(value: xml::Participant, mapped: canonical::Participant) -> bool {
    &&& mapped.name == value.name
    &&& convert_refs::functional_endpoint_maps(value.endpoint, mapped.endpoint)
    &&& convert_refs::optional_id_maps(value.role, mapped.role)
}

/// Converts a participant.
fn participant(value: &xml::Participant, path: &str, index: usize) -> (r: Converted<canonical::Participant>)
    ensures
        conversion::outcome(
            r,
            participant_due(*value, path@, index as int),
            |y: canonical::Participant| participant_maps(*value, y),
        ),
{
    let inner = conversion::named(path, "participant", value.name.as_str());
    let endpoint = convert_refs::functional_endpoint(
        &value.endpoint,
        conversion::part(inner.as_str(), "endpoint").as_str(),
    )?;
    let role = convert_refs::optional_id(&value.role, inner.as_str(), "@role")?;
    Ok(canonical::Participant { name: value.name.clone(), endpoint, role })
}

/// The failure of the participant at a place of a list.
pub open spec fn participants_due(list: Seq<xml::Participant>, path: Seq<char>) -> spec_fn(int) -> Option<Failure> {
    |i: int| participant_due(list[i], path, i)
}

/// Whether a list of canonical items carries a list of authored ones.
pub open spec fn participants_map(list: Seq<xml::Participant>, mapped: Seq<canonical::Participant>) -> bool {
    conversion::each_maps(list, mapped, |a: xml::Participant, b: canonical::Participant| participant_maps(a, b))
}

/// Converts a list of items, each a participant.
fn participants(list: &Vec<xml::Participant>, path: &str) -> (r: Converted<Vec<canonical::Participant>>)
    ensures
        conversion::outcome(
            r,
            faults::first_failure(list@.len(), participants_due(list@, path@)),
            |y: Vec<canonical::Participant>| participants_map(list@, y@),
        ),
{
    conversion::convert_list(
        list,
        |value: &xml::Participant, index: usize| -> (r: Converted<canonical::Participant>)
            ensures
                conversion::outcome(
                    r,
                    participant_due(*value, path@, index as int),
                    |y: canonical::Participant| participant_maps(*value, y),
                )
        { participant(value, path, index) },
        Ghost(participants_due(list@, path@)),
        Ghost(|a: xml::Participant, b: canonical::Participant| participant_maps(a, b)),
    )
}

/// The parts that every authored network has, whatever its structure.
pub struct NetworkParts<'a> {
    pub name: &'a String,
    pub description: &'a Option<String>,
    pub selected: &'a Option<xml::NetworkSelection>,
    pub configuration: &'a Option<xml::NetworkConfiguration>,
    pub participant: &'a Vec<xml::Participant>,
}

/// The failure of an authored network of the kind `tag`, apart from its structure.
pub open spec fn convert_network_due(parts: NetworkParts, tag: Seq<char>) -> Option<Failure> {
    let path = conversion::top_path(tag, parts.name@);
    faults::either(
        faults::first_failure(
            parts.participant@.len(),
            participants_due(parts.participant@, path),
        ),
        match *parts.selected {
            None => Some(
                conversion::failure(
                    "E_CONN_SELECTED_REQUIRED"@,
                    conversion::part_path(path, "selected"@),
                    "network requires an explicit selected configuration"@,
                ),
            ),
            Some(selected) => faults::either(
                convert_selection::network_selection_due(selected, path),
                convert_configuration::network_configuration_due(*parts.configuration, path),
            ),
        },
    )
}

/// Whether the canonical network carries the authored parts, apart from its structure.
pub open spec fn convert_network_maps(parts: NetworkParts, mapped: canonical::Network) -> bool {
    &&& mapped.name == *parts.name
    &&& mapped.description == *parts.description
    &&& *parts.selected matches Some(selected)
        && convert_selection::network_selection_maps(selected, mapped.selected)
    &&& participants_map(parts.participant@, mapped.participants@)
    &&& convert_configuration::network_configuration_maps(
        *parts.configuration,
        mapped.configuration,
    )
}

/// Converts the network of the kind `tag` with this structure.
pub(crate) fn convert_network(
    parts: &NetworkParts,
    structure: canonical::NetworkStructure,
    tag: &str,
) -> (r: Converted<canonical::Network>)
    ensures
        conversion::outcome(
            r,
            convert_network_due(*parts, tag@),
            |y: canonical::Network| convert_network_maps(*parts, y) && y.structure == structure,
        ),
{
    let path = conversion::top(tag, parts.name.as_str());
    let participants = participants(parts.participant, path.as_str())?;
    let selected = match parts.selected {
        None => {
            return Err(
                ConnectivityConversionError::coded(
                    "E_CONN_SELECTED_REQUIRED",
                    conversion::part(path.as_str(), "selected").as_str(),
                    "network requires an explicit selected configuration",
                ),
            );
        },
        Some(selected) => selected,
    };
    let selected = convert_selection::network_selection(selected, path.as_str())?;
    let configuration = convert_configuration::network_configuration(
        parts.configuration,
        path.as_str(),
    )?;
    Ok(
        canonical::Network {
            name: parts.name.clone(),
            structure,
            description: text::clone_option(parts.description),
            selected,
            participants,
            configuration,
        },
    )
}

} // verus!
