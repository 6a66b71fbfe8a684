//! Conversion of a whole document to its canonical connectivity.
use vstd::prelude::*;
use crate::faults;
use super::connectivity as canonical;
use super::connectivity_xml as xml;
use super::conversion;
use super::conversion::{ConnectivityConversionError, Converted, Failure};
use super::convert_refs;
use super::convert_component;
use super::convert_network;
use super::convert_network::NetworkParts;
use super::selectors;

verus! {

// Structural anchors.

/// Whether a visual is backed by a model.
pub open spec fn is_model_backed(visual: super::Visual) -> bool {
    visual.appearance is Model
}

/// Whether the anchor of a visual carries the visual.
pub open spec fn visual_maps(visual: super::Visual, mapped: canonical::StructuralVisual) -> bool {
    mapped.name == visual.name && mapped.model_backed == is_model_backed(visual)
}

/// Whether the anchors of a component carry its name, visuals and frames.
pub open spec fn anchors_maps(
    component: super::Comp,
    mapped: canonical::StructuralAnchors,
) -> bool {
    &&& mapped.component == component.name
    &&& conversion::each_maps(
        component.visual@,
        mapped.visuals@,
        |a: super::Visual, b: canonical::StructuralVisual| visual_maps(a, b),
    )
    &&& conversion::each_maps(
        component.frame@,
        mapped.frames@,
        |a: super::Frame, b: String| b == a.name,
    )
}

/// Takes the structural anchors of a component.
fn anchors(component: &super::Comp) -> (r: canonical::StructuralAnchors)
    ensures
        anchors_maps(*component, r),
{
    let mut visuals: Vec<canonical::StructuralVisual> = Vec::new();
    let mut i: usize = 0;
    while i < component.visual.len()
        invariant
            i <= component.visual@.len(),
            visuals@.len() == i,
            forall|k: int| 0 <= k < i ==> visual_maps(component.visual@[k], #[trigger] visuals@[k]),
        decreases component.visual@.len() - i,
    {
        let visual = &component.visual[i];
        let model_backed = match &visual.appearance {
            super::VisualAppearance::Model { .. } => true,
            _ => false,
        };
        visuals.push(canonical::StructuralVisual { name: visual.name.clone(), model_backed });
        i += 1;
    }
    let mut frames: Vec<String> = Vec::new();
    let mut j: usize = 0;
    while j < component.frame.len()
        invariant
            j <= component.frame@.len(),
            frames@.len() == j,
            forall|k: int| 0 <= k < j ==> component.frame@[k].name == #[trigger] frames@[k],
        decreases component.frame@.len() - j,
    {
        frames.push(component.frame[j].name.clone());
        j += 1;
    }
    canonical::StructuralAnchors { component: component.name.clone(), visuals, frames }
}

/// Takes the structural anchors of every component.
fn all_anchors(list: &Vec<super::Comp>) -> (r: Vec<canonical::StructuralAnchors>)
    ensures
        conversion::each_maps(
            list@,
            r@,
            |a: super::Comp, b: canonical::StructuralAnchors| anchors_maps(a, b),
        ),
{
    let mut out: Vec<canonical::StructuralAnchors> = Vec::new();
    let mut i: usize = 0;
    while i < list.len()
        invariant
            i <= list@.len(),
            out@.len() == i,
            forall|k: int| 0 <= k < i ==> anchors_maps(list@[k], #[trigger] out@[k]),
        decreases list@.len() - i,
    {
        out.push(anchors(&list[i]));
        i += 1;
    }
    out
}

// Assemblies.

/// Whether the items from `start` on carry a list of authored assemblies of one kind.
pub open spec fn assembly_run(
    list: Seq<xml::Assembly>,
    mapped: Seq<canonical::PhysicalAssembly>,
    start: int,
    kind: canonical::AssemblyKind,
) -> bool {
    forall|i: int|
        0 <= i < list.len() ==> convert_component::assembly_maps(
            #[trigger] list[i],
            mapped[start + i],
            kind,
        )
}

/// Converts a list of assemblies of one kind and appends them; on failure nothing is appended.
fn append_assemblies(
    output: &mut Vec<canonical::PhysicalAssembly>,
    list: &Vec<xml::Assembly>,
    kind: canonical::AssemblyKind,
    tag: &str,
) -> (r: Converted<()>)
    ensures
        conversion::outcome(
            r,
            faults::first_failure(list@.len(), convert_component::assemblies_due(list@, tag@)),
            |y: ()| true,
        ),
        r is Err ==> final(output)@ == old(output)@,
        r is Ok ==> final(output)@.len() == old(output)@.len() + list@.len(),
        r is Ok ==> forall|k: int|
            0 <= k < old(output)@.len() ==> #[trigger] final(output)@[k] == old(output)@[k],
        r is Ok ==> assembly_run(list@, final(output)@, old(output)@.len() as int, kind),
{
    let mut more = convert_component::assemblies(list, tag, kind)?;
    let ghost added = more@;
    output.append(&mut more);
    assert forall|i: int| 0 <= i < list@.len() implies convert_component::assembly_maps(
        #[trigger] list@[i],
        output@[old(output)@.len() + i],
        kind,
    ) by {
        assert(convert_component::assembly_maps(list@[i], added[i], kind));
    }
    Ok(())
}

/// The failure of the authored assemblies of a document.
#[verifier::opaque]
pub open spec fn document_assemblies_due(document: super::Hcdf) -> Option<Failure> {
    faults::either(
        faults::first_failure(
            document.harness@.len(),
            convert_component::assemblies_due(document.harness@, "harness"@),
        ),
        faults::either(
            faults::first_failure(
                document.cable@.len(),
                convert_component::assemblies_due(document.cable@, "cable"@),
            ),
            faults::either(
                faults::first_failure(
                    document.plumbing@.len(),
                    convert_component::assemblies_due(document.plumbing@, "plumbing"@),
                ),
                faults::first_failure(
                    document.umbilical@.len(),
                    convert_component::assemblies_due(document.umbilical@, "umbilical"@),
                ),
            ),
        ),
    )
}

/// Whether the canonical assemblies carry the authored ones, one kind after the other.
#[verifier::opaque]
pub open spec fn document_assemblies_map(
    document: super::Hcdf,
    mapped: Seq<canonical::PhysicalAssembly>,
) -> bool {
    let end1 = document.harness@.len() as int;
    let end2 = end1 + document.cable@.len();
    let end3 = end2 + document.plumbing@.len();
    let end4 = end3 + document.umbilical@.len();
    &&& assembly_run(document.harness@, mapped, 0, canonical::AssemblyKind::Harness)
    &&& assembly_run(document.cable@, mapped, end1, canonical::AssemblyKind::Cable)
    &&& assembly_run(document.plumbing@, mapped, end2, canonical::AssemblyKind::Plumbing)
    &&& assembly_run(document.umbilical@, mapped, end3, canonical::AssemblyKind::Umbilical)
    &&& mapped.len() == end4
}

/// Converts the assemblies of a document.
fn document_assemblies(document: &super::Hcdf) -> (r: Converted<Vec<canonical::PhysicalAssembly>>)
    ensures
        conversion::outcome(
            r,
            document_assemblies_due(*document),
            |y: Vec<canonical::PhysicalAssembly>| document_assemblies_map(*document, y@),
        ),
{
    proof {
        reveal(document_assemblies_due);
        reveal(document_assemblies_map);
    }
    let mut output: Vec<canonical::PhysicalAssembly> = Vec::new();
    let _ = append_assemblies(
        &mut output,
        &document.harness,
        canonical::AssemblyKind::Harness,
        "harness",
    )?;
    let _ = append_assemblies(
        &mut output,
        &document.cable,
        canonical::AssemblyKind::Cable,
        "cable",
    )?;
    let _ = append_assemblies(
        &mut output,
        &document.plumbing,
        canonical::AssemblyKind::Plumbing,
        "plumbing",
    )?;
    let _ = append_assemblies(
        &mut output,
        &document.umbilical,
        canonical::AssemblyKind::Umbilical,
        "umbilical",
    )?;
    Ok(output)
}

// Bindings, mates and networks.

/// The failure of an authored binding.
pub open spec fn binding_due(value: xml::Binding, index: int) -> Option<Failure> {
    let inner = conversion::top_path("binding"@, value.name@);
    faults::either(
        convert_refs::functional_endpoint_due(
            value.functional,
            conversion::part_path(inner, "functional"@),
        ),
        convert_refs::physical_endpoint_due(
            value.physical,
            conversion::part_path(inner, "physical"@),
        ),
    )
}

/// Whether the canonical binding carries the authored one.
pub open spec fn binding_maps(value: xml::Binding, mapped: canonical::Binding) -> bool {
    &&& mapped.name == value.name
    &&& convert_refs::functional_endpoint_maps(value.functional, mapped.functional)
    &&& convert_refs::physical_endpoint_maps(value.physical, mapped.physical)
    &&& mapped.fidelity == value.fidelity
}

/// Converts a binding.
fn binding(value: &xml::Binding, index: usize) -> (r: Converted<canonical::Binding>)
    ensures
        conversion::outcome(
            r,
            binding_due(*value, index as int),
            |y: canonical::Binding| binding_maps(*value, y),
        ),
{
    let inner = conversion::top("binding", value.name.as_str());
    let functional = convert_refs::functional_endpoint(
        &value.functional,
        conversion::part(inner.as_str(), "functional").as_str(),
    )?;
    let physical = convert_refs::physical_endpoint(
        &value.physical,
        conversion::part(inner.as_str(), "physical").as_str(),
    )?;
    Ok(
        canonical::Binding {
            name: value.name.clone(),
            functional,
            physical,
            fidelity: value.fidelity,
        },
    )
}

/// The failure of the binding at a place of a list.
pub open spec fn bindings_due(list: Seq<xml::Binding>) -> spec_fn(int) -> Option<Failure> {
    |i: int| binding_due(list[i], i)
}

/// Whether a list of canonical items carries a list of authored ones.
pub open spec fn bindings_map(list: Seq<xml::Binding>, mapped: Seq<canonical::Binding>) -> bool {
    conversion::each_maps(list, mapped, |a: xml::Binding, b: canonical::Binding| binding_maps(a, b))
}

/// Converts a list of items, each a binding.
fn bindings(list: &Vec<xml::Binding>) -> (r: Converted<Vec<canonical::Binding>>)
    ensures
        conversion::outcome(
            r,
            faults::first_failure(list@.len(), bindings_due(list@)),
            |y: Vec<canonical::Binding>| bindings_map(list@, y@),
        ),
{
    conversion::convert_list(
        list,
        |value: &xml::Binding, index: usize| -> (r: Converted<canonical::Binding>)
            ensures
                conversion::outcome(
                    r,
                    binding_due(*value, index as int),
                    |y: canonical::Binding| binding_maps(*value, y),
                )
        { binding(value, index) },
        Ghost(bindings_due(list@)),
        Ghost(|a: xml::Binding, b: canonical::Binding| binding_maps(a, b)),
    )
}

/// The failure of an authored position mapping.
pub open spec fn position_mapping_due(value: xml::PositionMapping, path: Seq<char>, index: int) -> Option<Failure> {
    let inner = conversion::indexed_path(path, "position-mapping"@, index);
    faults::either(
        convert_refs::position_ref_due(value.first, conversion::part_path(inner, "first"@)),
        convert_refs::position_ref_due(value.second, conversion::part_path(inner, "second"@)),
    )
}

/// Whether the canonical position mapping carries the authored one.
pub open spec fn position_mapping_maps(value: xml::PositionMapping, mapped: canonical::PositionMapping) -> bool {
    &&& convert_refs::position_ref_maps(value.first, mapped.first)
    &&& convert_refs::position_ref_maps(value.second, mapped.second)
}

/// Converts a position mapping.
fn position_mapping(value: &xml::PositionMapping, path: &str, index: usize) -> (r: Converted<canonical::PositionMapping>)
    ensures
        conversion::outcome(
            r,
            position_mapping_due(*value, path@, index as int),
            |y: canonical::PositionMapping| position_mapping_maps(*value, y),
        ),
{
    let inner = conversion::indexed(path, "position-mapping", index);
    let first = convert_refs::position_ref(
        &value.first,
        conversion::part(inner.as_str(), "first").as_str(),
    )?;
    let second = convert_refs::position_ref(
        &value.second,
        conversion::part(inner.as_str(), "second").as_str(),
    )?;
    Ok(canonical::PositionMapping { first, second })
}

/// The failure of the position mapping at a place of a list.
pub open spec fn position_mappings_due(list: Seq<xml::PositionMapping>, path: Seq<char>) -> spec_fn(int) -> Option<Failure> {
    |i: int| position_mapping_due(list[i], path, i)
}

/// Whether a list of canonical items carries a list of authored ones.
pub open spec fn position_mappings_map(list: Seq<xml::PositionMapping>, mapped: Seq<canonical::PositionMapping>) -> bool {
    conversion::each_maps(list, mapped, |a: xml::PositionMapping, b: canonical::PositionMapping| position_mapping_maps(a, b))
}

/// Converts a list of items, each a position mapping.
fn position_mappings(list: &Vec<xml::PositionMapping>, path: &str) -> (r: Converted<Vec<canonical::PositionMapping>>)
    ensures
        conversion::outcome(
            r,
            faults::first_failure(list@.len(), position_mappings_due(list@, path@)),
            |y: Vec<canonical::PositionMapping>| position_mappings_map(list@, y@),
        ),
{
    conversion::convert_list(
        list,
        |value: &xml::PositionMapping, index: usize| -> (r: Converted<canonical::PositionMapping>)
            ensures
                conversion::outcome(
                    r,
                    position_mapping_due(*value, path@, index as int),
                    |y: canonical::PositionMapping| position_mapping_maps(*value, y),
                )
        { position_mapping(value, path, index) },
        Ghost(position_mappings_due(list@, path@)),
        Ghost(|a: xml::PositionMapping, b: canonical::PositionMapping| position_mapping_maps(a, b)),
    )
}

/// The failure of an authored mate.
pub open spec fn mate_due(value: xml::Mate, index: int) -> Option<Failure> {
    let inner = conversion::top_path("mate"@, value.name@);
    faults::either(
        faults::first_failure(
            value.position_mapping@.len(),
            position_mappings_due(value.position_mapping@, inner),
        ),
        faults::either(
            convert_refs::connector_ref_due(value.first, conversion::part_path(inner, "first"@)),
            convert_refs::connector_ref_due(value.second, conversion::part_path(inner, "second"@)),
        ),
    )
}

/// Whether the canonical mate carries the authored one.
pub open spec fn mate_maps(value: xml::Mate, mapped: canonical::Mate) -> bool {
    &&& mapped.name == value.name
    &&& convert_refs::connector_ref_maps(value.first, mapped.first)
    &&& convert_refs::connector_ref_maps(value.second, mapped.second)
    &&& position_mappings_map(value.position_mapping@, mapped.mappings@)
    &&& mapped.fidelity == value.fidelity
}

/// Converts a mate.
fn mate(value: &xml::Mate, index: usize) -> (r: Converted<canonical::Mate>)
    ensures
        conversion::outcome(
            r,
            mate_due(*value, index as int),
            |y: canonical::Mate| mate_maps(*value, y),
        ),
{
    let inner = conversion::top("mate", value.name.as_str());
    let mappings = position_mappings(&value.position_mapping, inner.as_str())?;
    let first = convert_refs::connector_ref(
        &value.first,
        conversion::part(inner.as_str(), "first").as_str(),
    )?;
    let second = convert_refs::connector_ref(
        &value.second,
        conversion::part(inner.as_str(), "second").as_str(),
    )?;
    Ok(
        canonical::Mate {
            name: value.name.clone(),
            first,
            second,
            mappings,
            fidelity: value.fidelity,
        },
    )
}

/// The failure of the mate at a place of a list.
pub open spec fn mates_due(list: Seq<xml::Mate>) -> spec_fn(int) -> Option<Failure> {
    |i: int| mate_due(list[i], i)
}

/// Whether a list of canonical items carries a list of authored ones.
pub open spec fn mates_map(list: Seq<xml::Mate>, mapped: Seq<canonical::Mate>) -> bool {
    conversion::each_maps(list, mapped, |a: xml::Mate, b: canonical::Mate| mate_maps(a, b))
}

/// Converts a list of items, each a mate.
fn mates(list: &Vec<xml::Mate>) -> (r: Converted<Vec<canonical::Mate>>)
    ensures
        conversion::outcome(
            r,
            faults::first_failure(list@.len(), mates_due(list@)),
            |y: Vec<canonical::Mate>| mates_map(list@, y@),
        ),
{
    conversion::convert_list(
        list,
        |value: &xml::Mate, index: usize| -> (r: Converted<canonical::Mate>)
            ensures
                conversion::outcome(
                    r,
                    mate_due(*value, index as int),
                    |y: canonical::Mate| mate_maps(*value, y),
                )
        { mate(value, index) },
        Ghost(mates_due(list@)),
        Ghost(|a: xml::Mate, b: canonical::Mate| mate_maps(a, b)),
    )
}

/// The parts that the link shares with every network.
pub open spec fn link_parts<'a>(value: &'a xml::Link) -> NetworkParts<'a> {
    NetworkParts {
        name: &value.name,
        description: &value.description,
        selected: &value.selected,
        configuration: &value.configuration,
        participant: &value.participant,
    }
}

/// The failure of an authored link network.
pub open spec fn link_due(value: xml::Link, index: int) -> Option<Failure> {
    convert_network::convert_network_due(link_parts(&value), "link"@)
}

/// Whether the canonical link network carries the authored one.
pub open spec fn link_maps(value: xml::Link, mapped: canonical::Network) -> bool {
    &&& convert_network::convert_network_maps(link_parts(&value), mapped)
    &&& mapped.structure == canonical::NetworkStructure::Link
}

/// Converts a link network.
fn link(value: &xml::Link, index: usize) -> (r: Converted<canonical::Network>)
    ensures
        conversion::outcome(
            r,
            link_due(*value, index as int),
            |y: canonical::Network| link_maps(*value, y),
        ),
{
    let parts = NetworkParts {
        name: &value.name,
        description: &value.description,
        selected: &value.selected,
        configuration: &value.configuration,
        participant: &value.participant,
    };
    convert_network::convert_network(&parts, canonical::NetworkStructure::Link, "link")
}

/// The failure of the link network at a place of a list.
pub open spec fn link_networks_due(list: Seq<xml::Link>) -> spec_fn(int) -> Option<Failure> {
    |i: int| link_due(list[i], i)
}

/// Whether a list of canonical items carries a list of authored ones.
pub open spec fn link_networks_map(list: Seq<xml::Link>, mapped: Seq<canonical::Network>) -> bool {
    conversion::each_maps(list, mapped, |a: xml::Link, b: canonical::Network| link_maps(a, b))
}

/// Converts a list of items, each a link network.
fn link_networks(list: &Vec<xml::Link>) -> (r: Converted<Vec<canonical::Network>>)
    ensures
        conversion::outcome(
            r,
            faults::first_failure(list@.len(), link_networks_due(list@)),
            |y: Vec<canonical::Network>| link_networks_map(list@, y@),
        ),
{
    conversion::convert_list(
        list,
        |value: &xml::Link, index: usize| -> (r: Converted<canonical::Network>)
            ensures
                conversion::outcome(
                    r,
                    link_due(*value, index as int),
                    |y: canonical::Network| link_maps(*value, y),
                )
        { link(value, index) },
        Ghost(link_networks_due(list@)),
        Ghost(|a: xml::Link, b: canonical::Network| link_maps(a, b)),
    )
}

/// The parts that the bus shares with every network.
pub open spec fn bus_parts<'a>(value: &'a xml::Bus) -> NetworkParts<'a> {
    NetworkParts {
        name: &value.name,
        description: &value.description,
        selected: &value.selected,
        configuration: &value.configuration,
        participant: &value.participant,
    }
}

/// The failure of an authored bus network.
pub open spec fn bus_due(value: xml::Bus, index: int) -> Option<Failure> {
    convert_network::convert_network_due(bus_parts(&value), "bus"@)
}

/// Whether the canonical bus network carries the authored one.
pub open spec fn bus_maps(value: xml::Bus, mapped: canonical::Network) -> bool {
    &&& convert_network::convert_network_maps(bus_parts(&value), mapped)
    &&& mapped.structure == canonical::NetworkStructure::Bus
}

/// Converts a bus network.
fn bus(value: &xml::Bus, index: usize) -> (r: Converted<canonical::Network>)
    ensures
        conversion::outcome(
            r,
            bus_due(*value, index as int),
            |y: canonical::Network| bus_maps(*value, y),
        ),
{
    let parts = NetworkParts {
        name: &value.name,
        description: &value.description,
        selected: &value.selected,
        configuration: &value.configuration,
        participant: &value.participant,
    };
    convert_network::convert_network(&parts, canonical::NetworkStructure::Bus, "bus")
}

/// The failure of the bus network at a place of a list.
pub open spec fn bus_networks_due(list: Seq<xml::Bus>) -> spec_fn(int) -> Option<Failure> {
    |i: int| bus_due(list[i], i)
}

/// Whether a list of canonical items carries a list of authored ones.
pub open spec fn bus_networks_map(list: Seq<xml::Bus>, mapped: Seq<canonical::Network>) -> bool {
    conversion::each_maps(list, mapped, |a: xml::Bus, b: canonical::Network| bus_maps(a, b))
}

/// Converts a list of items, each a bus network.
fn bus_networks(list: &Vec<xml::Bus>) -> (r: Converted<Vec<canonical::Network>>)
    ensures
        conversion::outcome(
            r,
            faults::first_failure(list@.len(), bus_networks_due(list@)),
            |y: Vec<canonical::Network>| bus_networks_map(list@, y@),
        ),
{
    conversion::convert_list(
        list,
        |value: &xml::Bus, index: usize| -> (r: Converted<canonical::Network>)
            ensures
                conversion::outcome(
                    r,
                    bus_due(*value, index as int),
                    |y: canonical::Network| bus_maps(*value, y),
                )
        { bus(value, index) },
        Ghost(bus_networks_due(list@)),
        Ghost(|a: xml::Bus, b: canonical::Network| bus_maps(a, b)),
    )
}

/// The parts that the chain shares with every network.
pub open spec fn chain_parts<'a>(value: &'a xml::Chain) -> NetworkParts<'a> {
    NetworkParts {
        name: &value.name,
        description: &value.description,
        selected: &value.selected,
        configuration: &value.configuration,
        participant: &value.participant,
    }
}

/// The failure of an authored chain network.
pub open spec fn chain_due(value: xml::Chain, index: int) -> Option<Failure> {
    let inner = conversion::top_path("chain"@, value.name@);
    faults::either(
        convert_network::path_topology_due(value.hop@, value.leg@, inner),
        convert_network::convert_network_due(chain_parts(&value), "chain"@),
    )
}

/// Whether the canonical chain network carries the authored one.
pub open spec fn chain_maps(value: xml::Chain, mapped: canonical::Network) -> bool {
    &&& convert_network::convert_network_maps(chain_parts(&value), mapped)
    &&& mapped.structure matches canonical::NetworkStructure::Chain(topology)
        && convert_network::path_topology_maps(value.hop@, value.leg@, topology)
}

/// Converts a chain network.
fn chain(value: &xml::Chain, index: usize) -> (r: Converted<canonical::Network>)
    ensures
        conversion::outcome(
            r,
            chain_due(*value, index as int),
            |y: canonical::Network| chain_maps(*value, y),
        ),
{
    let inner = conversion::top("chain", value.name.as_str());
    let topology = convert_network::path_topology(&value.hop, &value.leg, inner.as_str())?;
    let parts = NetworkParts {
        name: &value.name,
        description: &value.description,
        selected: &value.selected,
        configuration: &value.configuration,
        participant: &value.participant,
    };
    convert_network::convert_network(&parts, canonical::NetworkStructure::Chain(topology), "chain")
}

/// The failure of the chain network at a place of a list.
pub open spec fn chain_networks_due(list: Seq<xml::Chain>) -> spec_fn(int) -> Option<Failure> {
    |i: int| chain_due(list[i], i)
}

/// Whether a list of canonical items carries a list of authored ones.
pub open spec fn chain_networks_map(list: Seq<xml::Chain>, mapped: Seq<canonical::Network>) -> bool {
    conversion::each_maps(list, mapped, |a: xml::Chain, b: canonical::Network| chain_maps(a, b))
}

/// Converts a list of items, each a chain network.
fn chain_networks(list: &Vec<xml::Chain>) -> (r: Converted<Vec<canonical::Network>>)
    ensures
        conversion::outcome(
            r,
            faults::first_failure(list@.len(), chain_networks_due(list@)),
            |y: Vec<canonical::Network>| chain_networks_map(list@, y@),
        ),
{
    conversion::convert_list(
        list,
        |value: &xml::Chain, index: usize| -> (r: Converted<canonical::Network>)
            ensures
                conversion::outcome(
                    r,
                    chain_due(*value, index as int),
                    |y: canonical::Network| chain_maps(*value, y),
                )
        { chain(value, index) },
        Ghost(chain_networks_due(list@)),
        Ghost(|a: xml::Chain, b: canonical::Network| chain_maps(a, b)),
    )
}

/// The parts that the star shares with every network.
pub open spec fn star_parts<'a>(value: &'a xml::Star) -> NetworkParts<'a> {
    NetworkParts {
        name: &value.name,
        description: &value.description,
        selected: &value.selected,
        configuration: &value.configuration,
        participant: &value.participant,
    }
}

/// The failure of an authored star network.
pub open spec fn star_due(value: xml::Star, index: int) -> Option<Failure> {
    let inner = conversion::top_path("star"@, value.name@);
    faults::either(
        convert_refs::scope_due(
            value.coordinator.participant.instance,
            conversion::part_path(inner, "coordinator/participant-ref"@),
        ),
        convert_network::convert_network_due(star_parts(&value), "star"@),
    )
}

/// Whether the canonical star network carries the authored one.
pub open spec fn star_maps(value: xml::Star, mapped: canonical::Network) -> bool {
    &&& convert_network::convert_network_maps(star_parts(&value), mapped)
    &&& mapped.structure matches canonical::NetworkStructure::Star(topology)
        && convert_refs::participant_ref_maps(
            value.coordinator.participant,
            topology.coordinator,
        )
}

/// Converts a star network.
fn star(value: &xml::Star, index: usize) -> (r: Converted<canonical::Network>)
    ensures
        conversion::outcome(
            r,
            star_due(*value, index as int),
            |y: canonical::Network| star_maps(*value, y),
        ),
{
    let inner = conversion::top("star", value.name.as_str());
    let coordinator = convert_refs::participant_ref(
        &value.coordinator.participant,
        conversion::part(inner.as_str(), "coordinator/participant-ref").as_str(),
    )?;
    let parts = NetworkParts {
        name: &value.name,
        description: &value.description,
        selected: &value.selected,
        configuration: &value.configuration,
        participant: &value.participant,
    };
    convert_network::convert_network(&parts, canonical::NetworkStructure::Star(canonical::StarTopology { coordinator }), "star")
}

/// The failure of the star network at a place of a list.
pub open spec fn star_networks_due(list: Seq<xml::Star>) -> spec_fn(int) -> Option<Failure> {
    |i: int| star_due(list[i], i)
}

/// Whether a list of canonical items carries a list of authored ones.
pub open spec fn star_networks_map(list: Seq<xml::Star>, mapped: Seq<canonical::Network>) -> bool {
    conversion::each_maps(list, mapped, |a: xml::Star, b: canonical::Network| star_maps(a, b))
}

/// Converts a list of items, each a star network.
fn star_networks(list: &Vec<xml::Star>) -> (r: Converted<Vec<canonical::Network>>)
    ensures
        conversion::outcome(
            r,
            faults::first_failure(list@.len(), star_networks_due(list@)),
            |y: Vec<canonical::Network>| star_networks_map(list@, y@),
        ),
{
    conversion::convert_list(
        list,
        |value: &xml::Star, index: usize| -> (r: Converted<canonical::Network>)
            ensures
                conversion::outcome(
                    r,
                    star_due(*value, index as int),
                    |y: canonical::Network| star_maps(*value, y),
                )
        { star(value, index) },
        Ghost(star_networks_due(list@)),
        Ghost(|a: xml::Star, b: canonical::Network| star_maps(a, b)),
    )
}

/// The parts that the ring shares with every network.
pub open spec fn ring_parts<'a>(value: &'a xml::Ring) -> NetworkParts<'a> {
    NetworkParts {
        name: &value.name,
        description: &value.description,
        selected: &value.selected,
        configuration: &value.configuration,
        participant: &value.participant,
    }
}

/// The failure of an authored ring network.
pub open spec fn ring_due(value: xml::Ring, index: int) -> Option<Failure> {
    let inner = conversion::top_path("ring"@, value.name@);
    faults::either(
        convert_network::path_topology_due(value.hop@, value.leg@, inner),
        convert_network::convert_network_due(ring_parts(&value), "ring"@),
    )
}

/// Whether the canonical ring network carries the authored one.
pub open spec fn ring_maps(value: xml::Ring, mapped: canonical::Network) -> bool {
    &&& convert_network::convert_network_maps(ring_parts(&value), mapped)
    &&& mapped.structure matches canonical::NetworkStructure::Ring(topology)
        && convert_network::path_topology_maps(value.hop@, value.leg@, topology)
}

/// Converts a ring network.
fn ring(value: &xml::Ring, index: usize) -> (r: Converted<canonical::Network>)
    ensures
        conversion::outcome(
            r,
            ring_due(*value, index as int),
            |y: canonical::Network| ring_maps(*value, y),
        ),
{
    let inner = conversion::top("ring", value.name.as_str());
    let topology = convert_network::path_topology(&value.hop, &value.leg, inner.as_str())?;
    let parts = NetworkParts {
        name: &value.name,
        description: &value.description,
        selected: &value.selected,
        configuration: &value.configuration,
        participant: &value.participant,
    };
    convert_network::convert_network(&parts, canonical::NetworkStructure::Ring(topology), "ring")
}

/// The failure of the ring network at a place of a list.
pub open spec fn ring_networks_due(list: Seq<xml::Ring>) -> spec_fn(int) -> Option<Failure> {
    |i: int| ring_due(list[i], i)
}

/// Whether a list of canonical items carries a list of authored ones.
pub open spec fn ring_networks_map(list: Seq<xml::Ring>, mapped: Seq<canonical::Network>) -> bool {
    conversion::each_maps(list, mapped, |a: xml::Ring, b: canonical::Network| ring_maps(a, b))
}

/// Converts a list of items, each a ring network.
fn ring_networks(list: &Vec<xml::Ring>) -> (r: Converted<Vec<canonical::Network>>)
    ensures
        conversion::outcome(
            r,
            faults::first_failure(list@.len(), ring_networks_due(list@)),
            |y: Vec<canonical::Network>| ring_networks_map(list@, y@),
        ),
{
    conversion::convert_list(
        list,
        |value: &xml::Ring, index: usize| -> (r: Converted<canonical::Network>)
            ensures
                conversion::outcome(
                    r,
                    ring_due(*value, index as int),
                    |y: canonical::Network| ring_maps(*value, y),
                )
        { ring(value, index) },
        Ghost(ring_networks_due(list@)),
        Ghost(|a: xml::Ring, b: canonical::Network| ring_maps(a, b)),
    )
}

/// The parts that the mesh shares with every network.
pub open spec fn mesh_parts<'a>(value: &'a xml::Mesh) -> NetworkParts<'a> {
    NetworkParts {
        name: &value.name,
        description: &value.description,
        selected: &value.selected,
        configuration: &value.configuration,
        participant: &value.participant,
    }
}

/// The failure of an authored mesh network.
pub open spec fn mesh_due(value: xml::Mesh, index: int) -> Option<Failure> {
    convert_network::convert_network_due(mesh_parts(&value), "mesh"@)
}

/// Whether the canonical mesh network carries the authored one.
pub open spec fn mesh_maps(value: xml::Mesh, mapped: canonical::Network) -> bool {
    &&& convert_network::convert_network_maps(mesh_parts(&value), mapped)
    &&& mapped.structure == canonical::NetworkStructure::Mesh
}

/// Converts a mesh network.
fn mesh(value: &xml::Mesh, index: usize) -> (r: Converted<canonical::Network>)
    ensures
        conversion::outcome(
            r,
            mesh_due(*value, index as int),
            |y: canonical::Network| mesh_maps(*value, y),
        ),
{
    let parts = NetworkParts {
        name: &value.name,
        description: &value.description,
        selected: &value.selected,
        configuration: &value.configuration,
        participant: &value.participant,
    };
    convert_network::convert_network(&parts, canonical::NetworkStructure::Mesh, "mesh")
}

/// The failure of the mesh network at a place of a list.
pub open spec fn mesh_networks_due(list: Seq<xml::Mesh>) -> spec_fn(int) -> Option<Failure> {
    |i: int| mesh_due(list[i], i)
}

/// Whether a list of canonical items carries a list of authored ones.
pub open spec fn mesh_networks_map(list: Seq<xml::Mesh>, mapped: Seq<canonical::Network>) -> bool {
    conversion::each_maps(list, mapped, |a: xml::Mesh, b: canonical::Network| mesh_maps(a, b))
}

/// Converts a list of items, each a mesh network.
fn mesh_networks(list: &Vec<xml::Mesh>) -> (r: Converted<Vec<canonical::Network>>)
    ensures
        conversion::outcome(
            r,
            faults::first_failure(list@.len(), mesh_networks_due(list@)),
            |y: Vec<canonical::Network>| mesh_networks_map(list@, y@),
        ),
{
    conversion::convert_list(
        list,
        |value: &xml::Mesh, index: usize| -> (r: Converted<canonical::Network>)
            ensures
                conversion::outcome(
                    r,
                    mesh_due(*value, index as int),
                    |y: canonical::Network| mesh_maps(*value, y),
                )
        { mesh(value, index) },
        Ghost(mesh_networks_due(list@)),
        Ghost(|a: xml::Mesh, b: canonical::Network| mesh_maps(a, b)),
    )
}

/// The parts that the tree shares with every network.
pub open spec fn tree_parts<'a>(value: &'a xml::Tree) -> NetworkParts<'a> {
    NetworkParts {
        name: &value.name,
        description: &value.description,
        selected: &value.selected,
        configuration: &value.configuration,
        participant: &value.participant,
    }
}

/// The failure of an authored tree network.
pub open spec fn tree_due(value: xml::Tree, index: int) -> Option<Failure> {
    let inner = conversion::top_path("tree"@, value.name@);
    faults::either(
        convert_network::path_topology_due(value.hop@, value.leg@, inner),
        faults::either(
            convert_refs::scope_due(
                value.root.hop.instance,
                conversion::part_path(inner, "root/hop-ref"@),
            ),
            convert_network::convert_network_due(tree_parts(&value), "tree"@),
        ),
    )
}

/// Whether the canonical tree network carries the authored one.
pub open spec fn tree_maps(value: xml::Tree, mapped: canonical::Network) -> bool {
    &&& convert_network::convert_network_maps(tree_parts(&value), mapped)
    &&& mapped.structure matches canonical::NetworkStructure::Tree(topology)
        && convert_network::path_topology_maps(
            value.hop@,
            value.leg@,
            canonical::PathTopology { hops: topology.hops, legs: topology.legs },
        ) && convert_refs::hop_ref_maps(value.root.hop, topology.root)
}

/// Converts a tree network.
fn tree(value: &xml::Tree, index: usize) -> (r: Converted<canonical::Network>)
    ensures
        conversion::outcome(
            r,
            tree_due(*value, index as int),
            |y: canonical::Network| tree_maps(*value, y),
        ),
{
    let inner = conversion::top("tree", value.name.as_str());
    let topology = convert_network::path_topology(&value.hop, &value.leg, inner.as_str())?;
    let root = convert_refs::hop_ref(
        &value.root.hop,
        conversion::part(inner.as_str(), "root/hop-ref").as_str(),
    )?;
    let tree = canonical::TreeTopology { root, hops: topology.hops, legs: topology.legs };
    let parts = NetworkParts {
        name: &value.name,
        description: &value.description,
        selected: &value.selected,
        configuration: &value.configuration,
        participant: &value.participant,
    };
    convert_network::convert_network(&parts, canonical::NetworkStructure::Tree(tree), "tree")
}

/// The failure of the tree network at a place of a list.
pub open spec fn tree_networks_due(list: Seq<xml::Tree>) -> spec_fn(int) -> Option<Failure> {
    |i: int| tree_due(list[i], i)
}

/// Whether a list of canonical items carries a list of authored ones.
pub open spec fn tree_networks_map(list: Seq<xml::Tree>, mapped: Seq<canonical::Network>) -> bool {
    conversion::each_maps(list, mapped, |a: xml::Tree, b: canonical::Network| tree_maps(a, b))
}

/// Converts a list of items, each a tree network.
fn tree_networks(list: &Vec<xml::Tree>) -> (r: Converted<Vec<canonical::Network>>)
    ensures
        conversion::outcome(
            r,
            faults::first_failure(list@.len(), tree_networks_due(list@)),
            |y: Vec<canonical::Network>| tree_networks_map(list@, y@),
        ),
{
    conversion::convert_list(
        list,
        |value: &xml::Tree, index: usize| -> (r: Converted<canonical::Network>)
            ensures
                conversion::outcome(
                    r,
                    tree_due(*value, index as int),
                    |y: canonical::Network| tree_maps(*value, y),
                )
        { tree(value, index) },
        Ghost(tree_networks_due(list@)),
        Ghost(|a: xml::Tree, b: canonical::Network| tree_maps(a, b)),
    )
}

/// Whether the networks from `start` on carry a list of authored link networks.
pub open spec fn link_run(
    list: Seq<xml::Link>,
    mapped: Seq<canonical::Network>,
    start: int,
) -> bool {
    forall|i: int| 0 <= i < list.len() ==> link_maps(#[trigger] list[i], mapped[start + i])
}

fn append_link_networks(output: &mut Vec<canonical::Network>, list: &Vec<xml::Link>) -> (r:
    Converted<()>)
    ensures
        conversion::outcome(
            r,
            faults::first_failure(list@.len(), link_networks_due(list@)),
            |y: ()| true,
        ),
        r is Err ==> final(output)@ == old(output)@,
        r is Ok ==> final(output)@.len() == old(output)@.len() + list@.len(),
        r is Ok ==> forall|k: int|
            0 <= k < old(output)@.len() ==> #[trigger] final(output)@[k] == old(output)@[k],
        r is Ok ==> link_run(list@, final(output)@, old(output)@.len() as int),
{
    let mut more = link_networks(list)?;
    let ghost added = more@;
    output.append(&mut more);
    assert forall|i: int| 0 <= i < list@.len() implies link_maps(
        #[trigger] list@[i],
        output@[old(output)@.len() + i],
    ) by {
        assert(link_maps(list@[i], added[i]));
    }
    Ok(())
}

/// Whether the networks from `start` on carry a list of authored bus networks.
pub open spec fn bus_run(
    list: Seq<xml::Bus>,
    mapped: Seq<canonical::Network>,
    start: int,
) -> bool {
    forall|i: int| 0 <= i < list.len() ==> bus_maps(#[trigger] list[i], mapped[start + i])
}

fn append_bus_networks(output: &mut Vec<canonical::Network>, list: &Vec<xml::Bus>) -> (r:
    Converted<()>)
    ensures
        conversion::outcome(
            r,
            faults::first_failure(list@.len(), bus_networks_due(list@)),
            |y: ()| true,
        ),
        r is Err ==> final(output)@ == old(output)@,
        r is Ok ==> final(output)@.len() == old(output)@.len() + list@.len(),
        r is Ok ==> forall|k: int|
            0 <= k < old(output)@.len() ==> #[trigger] final(output)@[k] == old(output)@[k],
        r is Ok ==> bus_run(list@, final(output)@, old(output)@.len() as int),
{
    let mut more = bus_networks(list)?;
    let ghost added = more@;
    output.append(&mut more);
    assert forall|i: int| 0 <= i < list@.len() implies bus_maps(
        #[trigger] list@[i],
        output@[old(output)@.len() + i],
    ) by {
        assert(bus_maps(list@[i], added[i]));
    }
    Ok(())
}

/// Whether the networks from `start` on carry a list of authored chain networks.
pub open spec fn chain_run(
    list: Seq<xml::Chain>,
    mapped: Seq<canonical::Network>,
    start: int,
) -> bool {
    forall|i: int| 0 <= i < list.len() ==> chain_maps(#[trigger] list[i], mapped[start + i])
}

fn append_chain_networks(output: &mut Vec<canonical::Network>, list: &Vec<xml::Chain>) -> (r:
    Converted<()>)
    ensures
        conversion::outcome(
            r,
            faults::first_failure(list@.len(), chain_networks_due(list@)),
            |y: ()| true,
        ),
        r is Err ==> final(output)@ == old(output)@,
        r is Ok ==> final(output)@.len() == old(output)@.len() + list@.len(),
        r is Ok ==> forall|k: int|
            0 <= k < old(output)@.len() ==> #[trigger] final(output)@[k] == old(output)@[k],
        r is Ok ==> chain_run(list@, final(output)@, old(output)@.len() as int),
{
    let mut more = chain_networks(list)?;
    let ghost added = more@;
    output.append(&mut more);
    assert forall|i: int| 0 <= i < list@.len() implies chain_maps(
        #[trigger] list@[i],
        output@[old(output)@.len() + i],
    ) by {
        assert(chain_maps(list@[i], added[i]));
    }
    Ok(())
}

/// Whether the networks from `start` on carry a list of authored star networks.
pub open spec fn star_run(
    list: Seq<xml::Star>,
    mapped: Seq<canonical::Network>,
    start: int,
) -> bool {
    forall|i: int| 0 <= i < list.len() ==> star_maps(#[trigger] list[i], mapped[start + i])
}

fn append_star_networks(output: &mut Vec<canonical::Network>, list: &Vec<xml::Star>) -> (r:
    Converted<()>)
    ensures
        conversion::outcome(
            r,
            faults::first_failure(list@.len(), star_networks_due(list@)),
            |y: ()| true,
        ),
        r is Err ==> final(output)@ == old(output)@,
        r is Ok ==> final(output)@.len() == old(output)@.len() + list@.len(),
        r is Ok ==> forall|k: int|
            0 <= k < old(output)@.len() ==> #[trigger] final(output)@[k] == old(output)@[k],
        r is Ok ==> star_run(list@, final(output)@, old(output)@.len() as int),
{
    let mut more = star_networks(list)?;
    let ghost added = more@;
    output.append(&mut more);
    assert forall|i: int| 0 <= i < list@.len() implies star_maps(
        #[trigger] list@[i],
        output@[old(output)@.len() + i],
    ) by {
        assert(star_maps(list@[i], added[i]));
    }
    Ok(())
}

/// Whether the networks from `start` on carry a list of authored ring networks.
pub open spec fn ring_run(
    list: Seq<xml::Ring>,
    mapped: Seq<canonical::Network>,
    start: int,
) -> bool {
    forall|i: int| 0 <= i < list.len() ==> ring_maps(#[trigger] list[i], mapped[start + i])
}

fn append_ring_networks(output: &mut Vec<canonical::Network>, list: &Vec<xml::Ring>) -> (r:
    Converted<()>)
    ensures
        conversion::outcome(
            r,
            faults::first_failure(list@.len(), ring_networks_due(list@)),
            |y: ()| true,
        ),
        r is Err ==> final(output)@ == old(output)@,
        r is Ok ==> final(output)@.len() == old(output)@.len() + list@.len(),
        r is Ok ==> forall|k: int|
            0 <= k < old(output)@.len() ==> #[trigger] final(output)@[k] == old(output)@[k],
        r is Ok ==> ring_run(list@, final(output)@, old(output)@.len() as int),
{
    let mut more = ring_networks(list)?;
    let ghost added = more@;
    output.append(&mut more);
    assert forall|i: int| 0 <= i < list@.len() implies ring_maps(
        #[trigger] list@[i],
        output@[old(output)@.len() + i],
    ) by {
        assert(ring_maps(list@[i], added[i]));
    }
    Ok(())
}

/// Whether the networks from `start` on carry a list of authored mesh networks.
pub open spec fn mesh_run(
    list: Seq<xml::Mesh>,
    mapped: Seq<canonical::Network>,
    start: int,
) -> bool {
    forall|i: int| 0 <= i < list.len() ==> mesh_maps(#[trigger] list[i], mapped[start + i])
}

fn append_mesh_networks(output: &mut Vec<canonical::Network>, list: &Vec<xml::Mesh>) -> (r:
    Converted<()>)
    ensures
        conversion::outcome(
            r,
            faults::first_failure(list@.len(), mesh_networks_due(list@)),
            |y: ()| true,
        ),
        r is Err ==> final(output)@ == old(output)@,
        r is Ok ==> final(output)@.len() == old(output)@.len() + list@.len(),
        r is Ok ==> forall|k: int|
            0 <= k < old(output)@.len() ==> #[trigger] final(output)@[k] == old(output)@[k],
        r is Ok ==> mesh_run(list@, final(output)@, old(output)@.len() as int),
{
    let mut more = mesh_networks(list)?;
    let ghost added = more@;
    output.append(&mut more);
    assert forall|i: int| 0 <= i < list@.len() implies mesh_maps(
        #[trigger] list@[i],
        output@[old(output)@.len() + i],
    ) by {
        assert(mesh_maps(list@[i], added[i]));
    }
    Ok(())
}

/// Whether the networks from `start` on carry a list of authored tree networks.
pub open spec fn tree_run(
    list: Seq<xml::Tree>,
    mapped: Seq<canonical::Network>,
    start: int,
) -> bool {
    forall|i: int| 0 <= i < list.len() ==> tree_maps(#[trigger] list[i], mapped[start + i])
}

fn append_tree_networks(output: &mut Vec<canonical::Network>, list: &Vec<xml::Tree>) -> (r:
    Converted<()>)
    ensures
        conversion::outcome(
            r,
            faults::first_failure(list@.len(), tree_networks_due(list@)),
            |y: ()| true,
        ),
        r is Err ==> final(output)@ == old(output)@,
        r is Ok ==> final(output)@.len() == old(output)@.len() + list@.len(),
        r is Ok ==> forall|k: int|
            0 <= k < old(output)@.len() ==> #[trigger] final(output)@[k] == old(output)@[k],
        r is Ok ==> tree_run(list@, final(output)@, old(output)@.len() as int),
{
    let mut more = tree_networks(list)?;
    let ghost added = more@;
    output.append(&mut more);
    assert forall|i: int| 0 <= i < list@.len() implies tree_maps(
        #[trigger] list@[i],
        output@[old(output)@.len() + i],
    ) by {
        assert(tree_maps(list@[i], added[i]));
    }
    Ok(())
}

/// The failure of the authored networks of a document.
#[verifier::opaque]
pub open spec fn document_networks_due(document: super::Hcdf) -> Option<Failure> {
    faults::either(
        faults::first_failure(document.link@.len(), link_networks_due(document.link@)),
        faults::either(
            faults::first_failure(document.bus@.len(), bus_networks_due(document.bus@)),
            faults::either(
                faults::first_failure(document.chain@.len(), chain_networks_due(document.chain@)),
                faults::either(
                    faults::first_failure(document.star@.len(), star_networks_due(document.star@)),
                    faults::either(
                        faults::first_failure(document.ring@.len(), ring_networks_due(document.ring@)),
                        faults::either(
                            faults::first_failure(document.mesh@.len(), mesh_networks_due(document.mesh@)),
                            faults::first_failure(document.tree@.len(), tree_networks_due(document.tree@)),
                        ),
                    ),
                ),
            ),
        ),
    )
}

/// Whether the canonical networks carry the authored ones, one topology after the other.
#[verifier::opaque]
pub open spec fn document_networks_map(
    document: super::Hcdf,
    mapped: Seq<canonical::Network>,
) -> bool {
    let end1 = document.link@.len() as int;
    let end2 = end1 + document.bus@.len();
    let end3 = end2 + document.chain@.len();
    let end4 = end3 + document.star@.len();
    let end5 = end4 + document.ring@.len();
    let end6 = end5 + document.mesh@.len();
    let end7 = end6 + document.tree@.len();
    &&& link_run(document.link@, mapped, 0)
    &&& bus_run(document.bus@, mapped, end1)
    &&& chain_run(document.chain@, mapped, end2)
    &&& star_run(document.star@, mapped, end3)
    &&& ring_run(document.ring@, mapped, end4)
    &&& mesh_run(document.mesh@, mapped, end5)
    &&& tree_run(document.tree@, mapped, end6)
    &&& mapped.len() == end7
}

/// Converts the networks of a document.
fn document_networks(document: &super::Hcdf) -> (r: Converted<Vec<canonical::Network>>)
    ensures
        conversion::outcome(
            r,
            document_networks_due(*document),
            |y: Vec<canonical::Network>| document_networks_map(*document, y@),
        ),
{
    proof {
        reveal(document_networks_due);
        reveal(document_networks_map);
    }
    let mut output: Vec<canonical::Network> = Vec::new();
    let _ = append_link_networks(&mut output, &document.link)?;
    let _ = append_bus_networks(&mut output, &document.bus)?;
    let _ = append_chain_networks(&mut output, &document.chain)?;
    let _ = append_star_networks(&mut output, &document.star)?;
    let _ = append_ring_networks(&mut output, &document.ring)?;
    let _ = append_mesh_networks(&mut output, &document.mesh)?;
    let _ = append_tree_networks(&mut output, &document.tree)?;
    Ok(output)
}

// Documents.

/// The failure of a document before its selectors are checked.
#[verifier::opaque]
pub open spec fn document_due(document: super::Hcdf) -> Option<Failure> {
    faults::either(
        faults::first_failure(
            document.comp@.len(),
            convert_component::components_due(document.comp@),
        ),
        faults::either(
            document_assemblies_due(document),
            faults::either(
                faults::first_failure(document.binding@.len(), bindings_due(document.binding@)),
                faults::either(
                    faults::first_failure(document.mate@.len(), mates_due(document.mate@)),
                    document_networks_due(document),
                ),
            ),
        ),
    )
}

/// Whether a canonical scope carries the connectivity of a document, as the given instance.
#[verifier::opaque]
pub open spec fn scope_carries(
    document: super::Hcdf,
    instance: canonical::IncludeInstanceId,
    scope: canonical::ConnectivityScope,
) -> bool {
    &&& scope.instance == instance
    &&& conversion::each_maps(
        document.comp@,
        scope.structural_anchors@,
        |a: super::Comp, b: canonical::StructuralAnchors| anchors_maps(a, b),
    )
    &&& convert_component::components_map(document.comp@, scope.components@)
    &&& document_assemblies_map(document, scope.assemblies@)
    &&& bindings_map(document.binding@, scope.bindings@)
    &&& mates_map(document.mate@, scope.mates@)
    &&& document_networks_map(document, scope.networks@)
}

/// Whether converting a document to the scope of an instance fails this way: with the first failure
/// of its elements, or, where they all convert, with the first failure of its selectors.
pub open spec fn scope_fails(
    document: super::Hcdf,
    instance: canonical::IncludeInstanceId,
    failure: Failure,
) -> bool {
    match document_due(document) {
        Some(due) => failure == due,
        None => exists|scope: canonical::ConnectivityScope| #[trigger]
            scope_carries(document, instance, scope) && selectors::selectors_due(document, scope)
                == Some(failure),
    }
}

/// Whether a result is what converting a document to the scope of an instance gives: the first
/// failure of its elements, else the first failure of its selectors, else the scope.
pub open spec fn scope_outcome(
    document: super::Hcdf,
    instance: canonical::IncludeInstanceId,
    r: Converted<canonical::ConnectivityScope>,
) -> bool {
    match r {
        Ok(scope) => {
            &&& document_due(document) is None
            &&& scope_carries(document, instance, scope)
            &&& selectors::selectors_due(document, scope) is None
        },
        Err(e) => scope_fails(document, instance, e@),
    }
}

/// Whether converting a document to the scope of the root instance fails this way.
pub open spec fn root_fails(source: super::Hcdf, failure: Failure) -> bool {
    exists|root: canonical::IncludeInstanceId|
        root@.len() == 0 && #[trigger] scope_fails(source, root, failure)
}

/// Whether a result is what converting a document without inclusions gives: one scope, of the root
/// instance.
pub open spec fn whole_outcome(
    source: super::Hcdf,
    document: canonical::DocumentIdentity,
    r: Converted<canonical::ConnectivityDocument>,
) -> bool {
    match r {
        Ok(y) => {
            &&& y.document == document
            &&& y.scopes@.len() == 1
            &&& y.scopes@[0].instance@.len() == 0
            &&& scope_outcome(source, y.scopes@[0].instance, Ok(y.scopes@[0]))
        },
        Err(e) => root_fails(source, e@),
    }
}

/// Whether a result is what converting a document gives. Unresolved inclusions are refused.
pub open spec fn document_outcome(
    source: super::Hcdf,
    document: canonical::DocumentIdentity,
    r: Converted<canonical::ConnectivityDocument>,
) -> bool {
    if source.includes@.len() > 0 {
        r matches Err(e) && e@ == conversion::failure(
            "E_CONN_DOCUMENT_SET_REQUIRED"@,
            "hcdf/include"@,
            "connectivity conversion requires a flattened document or a document-set loader; unresolved includes cannot be omitted from a complete graph"@,
        )
    } else {
        whole_outcome(source, document, r)
    }
}

impl super::Hcdf {
    /// The canonical connectivity of this document, which must not have unresolved inclusions.
    pub fn to_connectivity_document(&self, document: canonical::DocumentIdentity) -> (r: Converted<
        canonical::ConnectivityDocument,
    >)
        ensures
            document_outcome(*self, document, r),
    {
        if self.includes.len() > 0 {
            return Err(
                ConnectivityConversionError::coded(
                    "E_CONN_DOCUMENT_SET_REQUIRED",
                    "hcdf/include",
                    "connectivity conversion requires a flattened document or a document-set loader; unresolved includes cannot be omitted from a complete graph",
                ),
            );
        }
        let root = canonical::IncludeInstanceId::root();
        let ghost instance = root;
        proof {
            reveal(scope_carries);
        }
        match self.to_connectivity_scope(root) {
            Ok(scope) => {
                let ghost made = scope;
                assert(made.instance == instance);
                assert(scope_outcome(*self, made.instance, Ok(made)));
                let mut scopes: Vec<canonical::ConnectivityScope> = Vec::new();
                scopes.push(scope);
                let y = canonical::ConnectivityDocument { document, scopes };
                assert(y.scopes@[0] == made);
                assert(y.scopes@[0].instance@.len() == 0);
                assert(scope_outcome(*self, y.scopes@[0].instance, Ok(y.scopes@[0])));
                assert(whole_outcome(*self, document, Ok(y)));
                Ok(y)
            },
            Err(e) => {
                assert(instance@.len() == 0);
                assert(scope_fails(*self, instance, e@));
                assert(root_fails(*self, e@));
                Err(e)
            },
        }
    }

    /// The canonical connectivity of this document as the scope of one instance. Local references
    /// stay local, and explicit instance references stay relative to the scope.
    pub fn to_connectivity_scope(&self, instance: canonical::IncludeInstanceId) -> (r: Converted<
        canonical::ConnectivityScope,
    >)
        ensures
            scope_outcome(*self, instance, r),
    {
        proof {
            reveal(document_due);
            reveal(scope_carries);
        }
        let structural_anchors = all_anchors(&self.comp);
        let components = convert_component::components(&self.comp)?;
        let assemblies = document_assemblies(self)?;
        let bindings = bindings(&self.binding)?;
        let mates = mates(&self.mate)?;
        let networks = document_networks(self)?;
        let scope = canonical::ConnectivityScope {
            instance,
            structural_anchors,
            components,
            assemblies,
            bindings,
            mates,
            networks,
        };
        assert(scope_carries(*self, instance, scope));
        match selectors::validate_representation_selectors(self, &scope) {
            Ok(_) => Ok(scope),
            Err(e) => {
                assert(selectors::selectors_due(*self, scope) == Some(e@));
                Err(e)
            },
        }
    }
}

// Normalization.

/// Why a document has no normalized connectivity: it has no canonical one, or what normalizes refused
/// it.
#[derive(Debug, Clone, PartialEq, Eq)]
pub enum HcdfConnectivityError<N> {
    Conversion(ConnectivityConversionError),
    Normalization(N),
}

/// Whether `r` is what normalizing the canonical connectivity of a document may give.
pub open spec fn may_normalize<G, N, F: Fn(&canonical::ConnectivityDocument) -> Result<G, N>>(
    source: super::Hcdf,
    document: canonical::DocumentIdentity,
    normalize: F,
    r: Result<G, N>,
) -> bool {
    exists|authored: canonical::ConnectivityDocument| #[trigger]
        document_outcome(source, document, Ok(authored)) && call_ensures(
            normalize,
            (&authored,),
            r,
        )
}

/// Whether `r` is what normalizing the canonical connectivity of a document with options may give.
pub open spec fn may_normalize_with<
    O,
    G,
    N,
    F: Fn(&canonical::ConnectivityDocument, O) -> Result<G, N>,
>(
    source: super::Hcdf,
    document: canonical::DocumentIdentity,
    options: O,
    normalize: F,
    r: Result<G, N>,
) -> bool {
    exists|authored: canonical::ConnectivityDocument| #[trigger]
        document_outcome(source, document, Ok(authored)) && call_ensures(
            normalize,
            (&authored, options),
            r,
        )
}

impl super::Hcdf {
    /// The canonical connectivity of this document, normalized.
    pub fn to_normalized_connectivity<
        G,
        N,
        F: Fn(&canonical::ConnectivityDocument) -> Result<G, N>,
    >(&self, document: canonical::DocumentIdentity, normalize: &F) -> (r: Result<
        G,
        HcdfConnectivityError<N>,
    >)
        requires
            forall|authored: &canonical::ConnectivityDocument| #[trigger]
                call_requires(normalize, (authored,)),
        ensures
            match r {
                Ok(graph) => may_normalize(*self, document, *normalize, Ok(graph)),
                Err(HcdfConnectivityError::Normalization(error)) => may_normalize(
                    *self,
                    document,
                    *normalize,
                    Err(error),
                ),
                Err(HcdfConnectivityError::Conversion(error)) => document_outcome(
                    *self,
                    document,
                    Err(error),
                ),
            },
    {
        let ghost asked = document;
        match self.to_connectivity_document(document) {
            Err(error) => Err(HcdfConnectivityError::Conversion(error)),
            Ok(authored) => {
                let made = normalize(&authored);
                assert(document_outcome(*self, asked, Ok(authored)));
                assert(may_normalize(*self, asked, *normalize, made));
                match made {
                    Ok(graph) => Ok(graph),
                    Err(error) => Err(HcdfConnectivityError::Normalization(error)),
                }
            },
        }
    }

    /// The canonical connectivity of this document, normalized with options.
    pub fn to_normalized_connectivity_with_options<
        O,
        G,
        N,
        F: Fn(&canonical::ConnectivityDocument, O) -> Result<G, N>,
    >(&self, document: canonical::DocumentIdentity, options: O, normalize: &F) -> (r: Result<
        G,
        HcdfConnectivityError<N>,
    >)
        requires
            forall|authored: &canonical::ConnectivityDocument| #[trigger]
                call_requires(normalize, (authored, options)),
        ensures
            match r {
                Ok(graph) => may_normalize_with(*self, document, options, *normalize, Ok(graph)),
                Err(HcdfConnectivityError::Normalization(error)) => may_normalize_with(
                    *self,
                    document,
                    options,
                    *normalize,
                    Err(error),
                ),
                Err(HcdfConnectivityError::Conversion(error)) => document_outcome(
                    *self,
                    document,
                    Err(error),
                ),
            },
    {
        let ghost asked = document;
        let ghost with = options;
        match self.to_connectivity_document(document) {
            Err(error) => Err(HcdfConnectivityError::Conversion(error)),
            Ok(authored) => {
                let made = normalize(&authored, options);
                assert(document_outcome(*self, asked, Ok(authored)));
                assert(may_normalize_with(*self, asked, with, *normalize, made));
                match made {
                    Ok(graph) => Ok(graph),
                    Err(error) => Err(HcdfConnectivityError::Normalization(error)),
                }
            },
        }
    }
}

} // verus!
