//! Conversion of components and physical assemblies.
use vstd::prelude::*;
use crate::faults;
use super::connectivity as canonical;
use super::connectivity_xml as xml;
use super::conversion;
use super::conversion::{Converted, Failure};
use super::convert_refs;
use super::convert_representation;
use super::convert_selection;
use crate::text;

verus! {

/// The failure of an authored channel.
pub open spec fn channel_due(value: xml::Channel, path: Seq<char>, index: int) -> Option<Failure> {
    let inner = conversion::named_path(path, "channel"@, value.name@);
    faults::either(
        convert_refs::optional_id_due(value.role, inner, "@role"@),
        convert_selection::capabilities_due(value.capabilities, inner),
    )
}

/// Whether the canonical channel carries the authored one.
pub open spec fn channel_maps(value: xml::Channel, mapped: canonical::Channel) -> bool {
    &&& mapped.name == value.name
    &&& convert_refs::optional_id_maps(value.role, mapped.role)
    &&& mapped.local_group == value.local_group
    &&& convert_selection::capabilities_map(value.capabilities, mapped.capabilities)
}

/// Converts a channel.
fn channel(value: &xml::Channel, path: &str, index: usize) -> (r: Converted<canonical::Channel>)
    ensures
        conversion::outcome(
            r,
            channel_due(*value, path@, index as int),
            |y: canonical::Channel| channel_maps(*value, y),
        ),
{
    let inner = conversion::named(path, "channel", value.name.as_str());
    let role = convert_refs::optional_id(&value.role, inner.as_str(), "@role")?;
    let capabilities = convert_selection::capabilities(&value.capabilities, inner.as_str())?;
    Ok(
        canonical::Channel {
            name: value.name.clone(),
            role,
            local_group: text::clone_option(&value.local_group),
            capabilities,
        },
    )
}

/// The failure of the channel at a place of a list.
pub open spec fn channels_due(list: Seq<xml::Channel>, path: Seq<char>) -> spec_fn(int) -> Option<Failure> {
    |i: int| channel_due(list[i], path, i)
}

/// Whether a list of canonical items carries a list of authored ones.
pub open spec fn channels_map(list: Seq<xml::Channel>, mapped: Seq<canonical::Channel>) -> bool {
    conversion::each_maps(list, mapped, |a: xml::Channel, b: canonical::Channel| channel_maps(a, b))
}

/// Converts a list of items, each a channel.
fn channels(list: &Vec<xml::Channel>, path: &str) -> (r: Converted<Vec<canonical::Channel>>)
    ensures
        conversion::outcome(
            r,
            faults::first_failure(list@.len(), channels_due(list@, path@)),
            |y: Vec<canonical::Channel>| channels_map(list@, y@),
        ),
{
    conversion::convert_list(
        list,
        |value: &xml::Channel, index: usize| -> (r: Converted<canonical::Channel>)
            ensures
                conversion::outcome(
                    r,
                    channel_due(*value, path@, index as int),
                    |y: canonical::Channel| channel_maps(*value, y),
                )
        { channel(value, path, index) },
        Ghost(channels_due(list@, path@)),
        Ghost(|a: xml::Channel, b: canonical::Channel| channel_maps(a, b)),
    )
}

/// The failure of an authored port.
pub open spec fn port_due(value: xml::Port, path: Seq<char>, index: int) -> Option<Failure> {
    let inner = conversion::named_path(path, "port"@, value.name@);
    faults::either(
        faults::first_failure(value.channel@.len(), channels_due(value.channel@, inner)),
        convert_selection::capabilities_due(value.capabilities, inner),
    )
}

/// Whether the canonical port carries the authored one.
pub open spec fn port_maps(value: xml::Port, mapped: canonical::Port) -> bool {
    &&& mapped.name == value.name
    &&& convert_selection::capabilities_map(value.capabilities, mapped.capabilities)
    &&& channels_map(value.channel@, mapped.channels@)
}

/// Converts a port.
fn port(value: &xml::Port, path: &str, index: usize) -> (r: Converted<canonical::Port>)
    ensures
        conversion::outcome(
            r,
            port_due(*value, path@, index as int),
            |y: canonical::Port| port_maps(*value, y),
        ),
{
    let inner = conversion::named(path, "port", value.name.as_str());
    let channels = channels(&value.channel, inner.as_str())?;
    let capabilities = convert_selection::capabilities(&value.capabilities, inner.as_str())?;
    Ok(canonical::Port { name: value.name.clone(), capabilities, channels })
}

/// The failure of the port at a place of a list.
pub open spec fn ports_due(list: Seq<xml::Port>, path: Seq<char>) -> spec_fn(int) -> Option<Failure> {
    |i: int| port_due(list[i], path, i)
}

/// Whether a list of canonical items carries a list of authored ones.
pub open spec fn ports_map(list: Seq<xml::Port>, mapped: Seq<canonical::Port>) -> bool {
    conversion::each_maps(list, mapped, |a: xml::Port, b: canonical::Port| port_maps(a, b))
}

/// Converts a list of items, each a port.
fn ports(list: &Vec<xml::Port>, path: &str) -> (r: Converted<Vec<canonical::Port>>)
    ensures
        conversion::outcome(
            r,
            faults::first_failure(list@.len(), ports_due(list@, path@)),
            |y: Vec<canonical::Port>| ports_map(list@, y@),
        ),
{
    conversion::convert_list(
        list,
        |value: &xml::Port, index: usize| -> (r: Converted<canonical::Port>)
            ensures
                conversion::outcome(
                    r,
                    port_due(*value, path@, index as int),
                    |y: canonical::Port| port_maps(*value, y),
                )
        { port(value, path, index) },
        Ghost(ports_due(list@, path@)),
        Ghost(|a: xml::Port, b: canonical::Port| port_maps(a, b)),
    )
}

/// The failure of an authored position.
pub open spec fn position_due(value: xml::Position, path: Seq<char>, index: int, tag: Seq<char>) -> Option<Failure> {
    let inner = conversion::named_path(path, tag, value.name@);
    faults::either(
        convert_refs::optional_id_due(value.role, inner, "@role"@),
        convert_representation::optional_representation_due(value.representation, inner),
    )
}

/// Whether the canonical position carries the authored one.
pub open spec fn position_maps(value: xml::Position, mapped: canonical::Position, kind: canonical::PositionKind) -> bool {
    &&& mapped.name == value.name
    &&& mapped.kind == kind
    &&& convert_refs::optional_id_maps(value.role, mapped.role)
    &&& mapped.local_group == value.local_group
    &&& convert_representation::optional_representation_maps(
        value.representation,
        mapped.representation,
    )
}

/// Converts a position.
fn position(value: &xml::Position, path: &str, index: usize, tag: &str, kind: canonical::PositionKind) -> (r: Converted<canonical::Position>)
    ensures
        conversion::outcome(
            r,
            position_due(*value, path@, index as int, tag@),
            |y: canonical::Position| position_maps(*value, y, kind),
        ),
{
    let inner = conversion::named(path, tag, value.name.as_str());
    let role = convert_refs::optional_id(&value.role, inner.as_str(), "@role")?;
    let representation = convert_representation::optional_representation(
        &value.representation,
        inner.as_str(),
    )?;
    Ok(
        canonical::Position {
            name: value.name.clone(),
            kind,
            role,
            local_group: text::clone_option(&value.local_group),
            representation,
        },
    )
}

/// The failure of the position at a place of a list.
pub open spec fn positions_due(list: Seq<xml::Position>, path: Seq<char>, tag: Seq<char>) -> spec_fn(int) -> Option<Failure> {
    |i: int| position_due(list[i], path, i, tag)
}

/// Whether a list of canonical items carries a list of authored ones.
pub open spec fn positions_map(list: Seq<xml::Position>, mapped: Seq<canonical::Position>, kind: canonical::PositionKind) -> bool {
    conversion::each_maps(list, mapped, |a: xml::Position, b: canonical::Position| position_maps(a, b, kind))
}

/// Converts a list of items, each a position.
fn positions(list: &Vec<xml::Position>, path: &str, tag: &str, kind: canonical::PositionKind) -> (r: Converted<Vec<canonical::Position>>)
    ensures
        conversion::outcome(
            r,
            faults::first_failure(list@.len(), positions_due(list@, path@, tag@)),
            |y: Vec<canonical::Position>| positions_map(list@, y@, kind),
        ),
{
    conversion::convert_list(
        list,
        |value: &xml::Position, index: usize| -> (r: Converted<canonical::Position>)
            ensures
                conversion::outcome(
                    r,
                    position_due(*value, path@, index as int, tag@),
                    |y: canonical::Position| position_maps(*value, y, kind),
                )
        { position(value, path, index, tag, kind) },
        Ghost(positions_due(list@, path@, tag@)),
        Ghost(|a: xml::Position, b: canonical::Position| position_maps(a, b, kind)),
    )
}

/// Whether the items from `start` on carry a list of authored ones of one kind.
pub open spec fn position_run(list: Seq<xml::Position>, mapped: Seq<canonical::Position>, start: int, kind: canonical::PositionKind) -> bool {
    forall|i: int|
        0 <= i < list.len() ==> position_maps(#[trigger] list[i], mapped[start + i], kind)
}

/// Converts a list of one kind and appends the positions; on failure nothing is appended.
fn append_positions(
    output: &mut Vec<canonical::Position>,
    list: &Vec<xml::Position>,
    kind: canonical::PositionKind,
    path: &str,
    tag: &str,
) -> (r: Converted<()>)
    ensures
        conversion::outcome(
            r,
            faults::first_failure(list@.len(), positions_due(list@, path@, tag@)),
            |y: ()| true,
        ),
        r is Err ==> final(output)@ == old(output)@,
        r is Ok ==> final(output)@.len() == old(output)@.len() + list@.len(),
        r is Ok ==> forall|k: int|
            0 <= k < old(output)@.len() ==> #[trigger] final(output)@[k] == old(output)@[k],
        r is Ok ==> position_run(list@, final(output)@, old(output)@.len() as int, kind),
{
    let mut more = positions(list, path, tag, kind)?;
    let ghost added = more@;
    output.append(&mut more);
    assert forall|i: int| 0 <= i < list@.len() implies position_maps(
        #[trigger] list@[i],
        output@[old(output)@.len() + i],
        kind,
    ) by {
        assert(position_maps(list@[i], added[i], kind));
    }
    Ok(())
}

/// The authored lists of positions, one per kind.
pub struct PositionLists<'a> {
    pub pin: &'a Vec<xml::Position>,
    pub socket: &'a Vec<xml::Position>,
    pub contact: &'a Vec<xml::Position>,
    pub fiber: &'a Vec<xml::Position>,
    pub passage: &'a Vec<xml::Position>,
    pub feed: &'a Vec<xml::Position>,
    pub waveguide_opening: &'a Vec<xml::Position>,
}

/// The failure of the authored positions of the element at `path`.
pub open spec fn all_positions_due(lists: PositionLists, path: Seq<char>) -> Option<Failure> {
    faults::either(
        faults::first_failure(lists.pin@.len(), positions_due(lists.pin@, path, "pin"@)),
        faults::either(
            faults::first_failure(lists.socket@.len(), positions_due(lists.socket@, path, "socket"@)),
            faults::either(
                faults::first_failure(lists.contact@.len(), positions_due(lists.contact@, path, "contact"@)),
                faults::either(
                    faults::first_failure(lists.fiber@.len(), positions_due(lists.fiber@, path, "fiber"@)),
                    faults::either(
                        faults::first_failure(lists.passage@.len(), positions_due(lists.passage@, path, "passage"@)),
                        faults::either(
                            faults::first_failure(lists.feed@.len(), positions_due(lists.feed@, path, "feed"@)),
                            faults::first_failure(lists.waveguide_opening@.len(), positions_due(lists.waveguide_opening@, path, "waveguide-opening"@)),
                        ),
                    ),
                ),
            ),
        ),
    )
}

/// Whether the canonical positions carry the authored lists, one kind after the other.
pub open spec fn all_positions_map(lists: PositionLists, mapped: Seq<canonical::Position>) -> bool {
    let end1 = lists.pin@.len() as int;
    let end2 = end1 + lists.socket@.len();
    let end3 = end2 + lists.contact@.len();
    let end4 = end3 + lists.fiber@.len();
    let end5 = end4 + lists.passage@.len();
    let end6 = end5 + lists.feed@.len();
    let end7 = end6 + lists.waveguide_opening@.len();
    &&& position_run(lists.pin@, mapped, 0, canonical::PositionKind::Pin)
    &&& position_run(lists.socket@, mapped, end1, canonical::PositionKind::Socket)
    &&& position_run(lists.contact@, mapped, end2, canonical::PositionKind::Contact)
    &&& position_run(lists.fiber@, mapped, end3, canonical::PositionKind::Fiber)
    &&& position_run(lists.passage@, mapped, end4, canonical::PositionKind::Passage)
    &&& position_run(lists.feed@, mapped, end5, canonical::PositionKind::Feed)
    &&& position_run(lists.waveguide_opening@, mapped, end6, canonical::PositionKind::WaveguideOpening)
    &&& mapped.len() == end7
}

/// Converts the positions of the element at `path`.
fn all_positions(lists: &PositionLists, path: &str) -> (r: Converted<Vec<canonical::Position>>)
    ensures
        conversion::outcome(
            r,
            all_positions_due(*lists, path@),
            |y: Vec<canonical::Position>| all_positions_map(*lists, y@),
        ),
{
    let mut output: Vec<canonical::Position> = Vec::new();
    let _ = append_positions(&mut output, lists.pin, canonical::PositionKind::Pin, path, "pin")?;
    let _ = append_positions(&mut output, lists.socket, canonical::PositionKind::Socket, path, "socket")?;
    let _ = append_positions(&mut output, lists.contact, canonical::PositionKind::Contact, path, "contact")?;
    let _ = append_positions(&mut output, lists.fiber, canonical::PositionKind::Fiber, path, "fiber")?;
    let _ = append_positions(&mut output, lists.passage, canonical::PositionKind::Passage, path, "passage")?;
    let _ = append_positions(&mut output, lists.feed, canonical::PositionKind::Feed, path, "feed")?;
    let _ = append_positions(&mut output, lists.waveguide_opening, canonical::PositionKind::WaveguideOpening, path, "waveguide-opening")?;
    Ok(output)
}

/// The lists of this element.
pub open spec fn position_lists_of<'a>(value: &'a xml::Connector) -> PositionLists<'a> {
    PositionLists {
        pin: &value.pin,
        socket: &value.socket,
        contact: &value.contact,
        fiber: &value.fiber,
        passage: &value.passage,
        feed: &value.feed,
        waveguide_opening: &value.waveguide_opening,
    }
}

/// The failure of an authored connector.
pub open spec fn convert_connector_due(value: xml::Connector, path: Seq<char>, index: int) -> Option<Failure> {
    let inner = conversion::named_path(path, "connector"@, value.name@);
    faults::either(
        all_positions_due(position_lists_of(&value), inner),
        faults::either(
            convert_refs::optional_id_due(value.family, inner, "@family"@),
            convert_representation::optional_representation_due(value.representation, inner),
        ),
    )
}

/// Whether the canonical connector carries the authored one.
pub open spec fn convert_connector_maps(value: xml::Connector, mapped: canonical::Connector) -> bool {
    &&& mapped.name == value.name
    &&& convert_refs::optional_id_maps(value.family, mapped.family)
    &&& all_positions_map(position_lists_of(&value), mapped.positions@)
    &&& convert_representation::optional_representation_maps(
        value.representation,
        mapped.representation,
    )
}

/// Converts a connector.
fn convert_connector(value: &xml::Connector, path: &str, index: usize) -> (r: Converted<canonical::Connector>)
    ensures
        conversion::outcome(
            r,
            convert_connector_due(*value, path@, index as int),
            |y: canonical::Connector| convert_connector_maps(*value, y),
        ),
{
    let inner = conversion::named(path, "connector", value.name.as_str());
    let lists = PositionLists {
        pin: &value.pin,
        socket: &value.socket,
        contact: &value.contact,
        fiber: &value.fiber,
        passage: &value.passage,
        feed: &value.feed,
        waveguide_opening: &value.waveguide_opening,
    };
    let positions = all_positions(&lists, inner.as_str())?;
    let family = convert_refs::optional_id(&value.family, inner.as_str(), "@family")?;
    let representation = convert_representation::optional_representation(
        &value.representation,
        inner.as_str(),
    )?;
    Ok(canonical::Connector { name: value.name.clone(), family, positions, representation })
}

/// The failure of the connector at a place of a list.
pub open spec fn connectors_due(list: Seq<xml::Connector>, path: Seq<char>) -> spec_fn(int) -> Option<Failure> {
    |i: int| convert_connector_due(list[i], path, i)
}

/// Whether a list of canonical items carries a list of authored ones.
pub open spec fn connectors_map(list: Seq<xml::Connector>, mapped: Seq<canonical::Connector>) -> bool {
    conversion::each_maps(list, mapped, |a: xml::Connector, b: canonical::Connector| convert_connector_maps(a, b))
}

/// Converts a list of items, each a connector.
fn connectors(list: &Vec<xml::Connector>, path: &str) -> (r: Converted<Vec<canonical::Connector>>)
    ensures
        conversion::outcome(
            r,
            faults::first_failure(list@.len(), connectors_due(list@, path@)),
            |y: Vec<canonical::Connector>| connectors_map(list@, y@),
        ),
{
    conversion::convert_list(
        list,
        |value: &xml::Connector, index: usize| -> (r: Converted<canonical::Connector>)
            ensures
                conversion::outcome(
                    r,
                    convert_connector_due(*value, path@, index as int),
                    |y: canonical::Connector| convert_connector_maps(*value, y),
                )
        { convert_connector(value, path, index) },
        Ghost(connectors_due(list@, path@)),
        Ghost(|a: xml::Connector, b: canonical::Connector| convert_connector_maps(a, b)),
    )
}

/// The failure of an optional port reference at `path`.
pub open spec fn optional_port_due(value: Option<xml::PortRef>, path: Seq<char>) -> Option<
    Failure,
> {
    match value {
        Some(reference) => convert_refs::scope_due(reference.instance, path),
        None => None,
    }
}

/// Whether an optional canonical port reference carries the authored one.
pub open spec fn optional_port_maps(
    value: Option<xml::PortRef>,
    mapped: Option<canonical::PortRef>,
) -> bool {
    match (value, mapped) {
        (Some(a), Some(b)) => convert_refs::port_ref_maps(a, b),
        (None, None) => true,
        _ => false,
    }
}

/// Converts the optional port reference at `path`.
fn optional_port(value: &Option<xml::PortRef>, path: &str) -> (r: Converted<
    Option<canonical::PortRef>,
>)
    ensures
        conversion::outcome(
            r,
            optional_port_due(*value, path@),
            |y: Option<canonical::PortRef>| optional_port_maps(*value, y),
        ),
{
    match value {
        None => Ok(None),
        Some(reference) => {
            let mapped = convert_refs::port_ref(reference, path)?;
            Ok(Some(mapped))
        },
    }
}

/// The failure of an authored antenna.
pub open spec fn antenna_due(value: xml::Antenna, path: Seq<char>, index: int) -> Option<Failure> {
    let inner = conversion::named_path(path, "antenna"@, value.name@);
    faults::either(
        optional_port_due(value.conducted_port, conversion::part_path(inner, "conducted-port"@)),
        faults::either(
            convert_refs::scope_due(
                value.radiated_port.instance,
                conversion::part_path(inner, "radiated-port"@),
            ),
            convert_representation::optional_representation_due(value.representation, inner),
        ),
    )
}

/// Whether the canonical antenna carries the authored one.
pub open spec fn antenna_maps(value: xml::Antenna, mapped: canonical::Antenna) -> bool {
    &&& mapped.name == value.name
    &&& optional_port_maps(value.conducted_port, mapped.conducted_port)
    &&& convert_refs::port_ref_maps(value.radiated_port, mapped.radiated_port)
    &&& convert_representation::optional_representation_maps(
        value.representation,
        mapped.representation,
    )
}

/// Converts an antenna.
fn antenna(value: &xml::Antenna, path: &str, index: usize) -> (r: Converted<canonical::Antenna>)
    ensures
        conversion::outcome(
            r,
            antenna_due(*value, path@, index as int),
            |y: canonical::Antenna| antenna_maps(*value, y),
        ),
{
    let inner = conversion::named(path, "antenna", value.name.as_str());
    let conducted_port = optional_port(
        &value.conducted_port,
        conversion::part(inner.as_str(), "conducted-port").as_str(),
    )?;
    let radiated_port = convert_refs::port_ref(
        &value.radiated_port,
        conversion::part(inner.as_str(), "radiated-port").as_str(),
    )?;
    let representation = convert_representation::optional_representation(
        &value.representation,
        inner.as_str(),
    )?;
    Ok(
        canonical::Antenna {
            name: value.name.clone(),
            conducted_port,
            radiated_port,
            representation,
        },
    )
}

/// The failure of the antenna at a place of a list.
pub open spec fn antennas_due(list: Seq<xml::Antenna>, path: Seq<char>) -> spec_fn(int) -> Option<Failure> {
    |i: int| antenna_due(list[i], path, i)
}

/// Whether a list of canonical items carries a list of authored ones.
pub open spec fn antennas_map(list: Seq<xml::Antenna>, mapped: Seq<canonical::Antenna>) -> bool {
    conversion::each_maps(list, mapped, |a: xml::Antenna, b: canonical::Antenna| antenna_maps(a, b))
}

/// Converts a list of items, each an antenna.
fn antennas(list: &Vec<xml::Antenna>, path: &str) -> (r: Converted<Vec<canonical::Antenna>>)
    ensures
        conversion::outcome(
            r,
            faults::first_failure(list@.len(), antennas_due(list@, path@)),
            |y: Vec<canonical::Antenna>| antennas_map(list@, y@),
        ),
{
    conversion::convert_list(
        list,
        |value: &xml::Antenna, index: usize| -> (r: Converted<canonical::Antenna>)
            ensures
                conversion::outcome(
                    r,
                    antenna_due(*value, path@, index as int),
                    |y: canonical::Antenna| antenna_maps(*value, y),
                )
        { antenna(value, path, index) },
        Ghost(antennas_due(list@, path@)),
        Ghost(|a: xml::Antenna, b: canonical::Antenna| antenna_maps(a, b)),
    )
}

/// The failure of an authored listed endpoint.
pub open spec fn endpoint_due(value: xml::FunctionalEndpointRef, path: Seq<char>, index: int, tag: Seq<char>) -> Option<Failure> {
    let inner = conversion::indexed_path(path, tag, index);
    convert_refs::functional_endpoint_due(value, inner)
}

/// Whether the canonical listed endpoint carries the authored one.
pub open spec fn endpoint_maps(value: xml::FunctionalEndpointRef, mapped: canonical::FunctionalEndpointRef) -> bool {
    &&& convert_refs::functional_endpoint_maps(value, mapped)
}

/// Converts a listed endpoint.
fn endpoint(value: &xml::FunctionalEndpointRef, path: &str, index: usize, tag: &str) -> (r: Converted<canonical::FunctionalEndpointRef>)
    ensures
        conversion::outcome(
            r,
            endpoint_due(*value, path@, index as int, tag@),
            |y: canonical::FunctionalEndpointRef| endpoint_maps(*value, y),
        ),
{
    let inner = conversion::indexed(path, tag, index);
    convert_refs::functional_endpoint(value, inner.as_str())
}

/// The failure of the listed endpoint at a place of a list.
pub open spec fn endpoint_list_due(list: Seq<xml::FunctionalEndpointRef>, path: Seq<char>, tag: Seq<char>) -> spec_fn(int) -> Option<Failure> {
    |i: int| endpoint_due(list[i], path, i, tag)
}

/// Whether a list of canonical items carries a list of authored ones.
pub open spec fn endpoint_list_map(list: Seq<xml::FunctionalEndpointRef>, mapped: Seq<canonical::FunctionalEndpointRef>) -> bool {
    conversion::each_maps(list, mapped, |a: xml::FunctionalEndpointRef, b: canonical::FunctionalEndpointRef| endpoint_maps(a, b))
}

/// Converts a list of items, each a listed endpoint.
fn endpoint_list(list: &Vec<xml::FunctionalEndpointRef>, path: &str, tag: &str) -> (r: Converted<Vec<canonical::FunctionalEndpointRef>>)
    ensures
        conversion::outcome(
            r,
            faults::first_failure(list@.len(), endpoint_list_due(list@, path@, tag@)),
            |y: Vec<canonical::FunctionalEndpointRef>| endpoint_list_map(list@, y@),
        ),
{
    conversion::convert_list(
        list,
        |value: &xml::FunctionalEndpointRef, index: usize| -> (r: Converted<canonical::FunctionalEndpointRef>)
            ensures
                conversion::outcome(
                    r,
                    endpoint_due(*value, path@, index as int, tag@),
                    |y: canonical::FunctionalEndpointRef| endpoint_maps(*value, y),
                )
        { endpoint(value, path, index, tag) },
        Ghost(endpoint_list_due(list@, path@, tag@)),
        Ghost(|a: xml::FunctionalEndpointRef, b: canonical::FunctionalEndpointRef| endpoint_maps(a, b)),
    )
}

/// The failure of an authored connectivity function.
pub open spec fn function_due(value: xml::Function, path: Seq<char>, index: int, tag: Seq<char>) -> Option<Failure> {
    let inner = conversion::named_path(path, tag, value.name@);
    faults::either(
        faults::first_failure(value.input@.len(), endpoint_list_due(value.input@, inner, "input"@)),
        faults::either(
            faults::first_failure(value.output@.len(), endpoint_list_due(value.output@, inner, "output"@)),
            faults::first_failure(value.bidirectional@.len(), endpoint_list_due(value.bidirectional@, inner, "bidirectional"@)),
        ),
    )
}

/// Whether the canonical connectivity function carries the authored one.
pub open spec fn function_maps(value: xml::Function, mapped: canonical::ConnectivityFunction, kind: canonical::FunctionKind) -> bool {
    &&& mapped.name == value.name
    &&& mapped.kind == kind
    &&& endpoint_list_map(value.input@, mapped.inputs@)
    &&& endpoint_list_map(value.output@, mapped.outputs@)
    &&& endpoint_list_map(value.bidirectional@, mapped.bidirectional@)
}

/// Converts a connectivity function.
fn function(value: &xml::Function, path: &str, index: usize, tag: &str, kind: canonical::FunctionKind) -> (r: Converted<canonical::ConnectivityFunction>)
    ensures
        conversion::outcome(
            r,
            function_due(*value, path@, index as int, tag@),
            |y: canonical::ConnectivityFunction| function_maps(*value, y, kind),
        ),
{
    let inner = conversion::named(path, tag, value.name.as_str());
    let inputs = endpoint_list(&value.input, inner.as_str(), "input")?;
    let outputs = endpoint_list(&value.output, inner.as_str(), "output")?;
    let bidirectional = endpoint_list(&value.bidirectional, inner.as_str(), "bidirectional")?;
    Ok(
        canonical::ConnectivityFunction {
            name: value.name.clone(),
            kind,
            inputs,
            outputs,
            bidirectional,
        },
    )
}

/// The failure of the connectivity function at a place of a list.
pub open spec fn functions_due(list: Seq<xml::Function>, path: Seq<char>, tag: Seq<char>) -> spec_fn(int) -> Option<Failure> {
    |i: int| function_due(list[i], path, i, tag)
}

/// Whether a list of canonical items carries a list of authored ones.
pub open spec fn functions_map(list: Seq<xml::Function>, mapped: Seq<canonical::ConnectivityFunction>, kind: canonical::FunctionKind) -> bool {
    conversion::each_maps(list, mapped, |a: xml::Function, b: canonical::ConnectivityFunction| function_maps(a, b, kind))
}

/// Converts a list of items, each a connectivity function.
fn functions(list: &Vec<xml::Function>, path: &str, tag: &str, kind: canonical::FunctionKind) -> (r: Converted<Vec<canonical::ConnectivityFunction>>)
    ensures
        conversion::outcome(
            r,
            faults::first_failure(list@.len(), functions_due(list@, path@, tag@)),
            |y: Vec<canonical::ConnectivityFunction>| functions_map(list@, y@, kind),
        ),
{
    conversion::convert_list(
        list,
        |value: &xml::Function, index: usize| -> (r: Converted<canonical::ConnectivityFunction>)
            ensures
                conversion::outcome(
                    r,
                    function_due(*value, path@, index as int, tag@),
                    |y: canonical::ConnectivityFunction| function_maps(*value, y, kind),
                )
        { function(value, path, index, tag, kind) },
        Ghost(functions_due(list@, path@, tag@)),
        Ghost(|a: xml::Function, b: canonical::ConnectivityFunction| function_maps(a, b, kind)),
    )
}

/// Whether the items from `start` on carry a list of authored ones of one kind.
pub open spec fn function_run(list: Seq<xml::Function>, mapped: Seq<canonical::ConnectivityFunction>, start: int, kind: canonical::FunctionKind) -> bool {
    forall|i: int|
        0 <= i < list.len() ==> function_maps(#[trigger] list[i], mapped[start + i], kind)
}

/// Converts a list of one kind and appends the functions; on failure nothing is appended.
fn append_functions(
    output: &mut Vec<canonical::ConnectivityFunction>,
    list: &Vec<xml::Function>,
    kind: canonical::FunctionKind,
    path: &str,
    tag: &str,
) -> (r: Converted<()>)
    ensures
        conversion::outcome(
            r,
            faults::first_failure(list@.len(), functions_due(list@, path@, tag@)),
            |y: ()| true,
        ),
        r is Err ==> final(output)@ == old(output)@,
        r is Ok ==> final(output)@.len() == old(output)@.len() + list@.len(),
        r is Ok ==> forall|k: int|
            0 <= k < old(output)@.len() ==> #[trigger] final(output)@[k] == old(output)@[k],
        r is Ok ==> function_run(list@, final(output)@, old(output)@.len() as int, kind),
{
    let mut more = functions(list, path, tag, kind)?;
    let ghost added = more@;
    output.append(&mut more);
    assert forall|i: int| 0 <= i < list@.len() implies function_maps(
        #[trigger] list@[i],
        output@[old(output)@.len() + i],
        kind,
    ) by {
        assert(function_maps(list@[i], added[i], kind));
    }
    Ok(())
}

/// The authored lists of functions, one per kind.
pub struct FunctionLists<'a> {
    pub switch: &'a Vec<xml::Function>,
    pub bridge: &'a Vec<xml::Function>,
    pub converter: &'a Vec<xml::Function>,
    pub transceiver: &'a Vec<xml::Function>,
    pub radio: &'a Vec<xml::Function>,
}

/// The failure of the authored functions of the element at `path`.
pub open spec fn all_functions_due(lists: FunctionLists, path: Seq<char>) -> Option<Failure> {
    faults::either(
        faults::first_failure(lists.switch@.len(), functions_due(lists.switch@, path, "switch"@)),
        faults::either(
            faults::first_failure(lists.bridge@.len(), functions_due(lists.bridge@, path, "bridge"@)),
            faults::either(
                faults::first_failure(lists.converter@.len(), functions_due(lists.converter@, path, "converter"@)),
                faults::either(
                    faults::first_failure(lists.transceiver@.len(), functions_due(lists.transceiver@, path, "transceiver"@)),
                    faults::first_failure(lists.radio@.len(), functions_due(lists.radio@, path, "radio"@)),
                ),
            ),
        ),
    )
}

/// Whether the canonical functions carry the authored lists, one kind after the other.
pub open spec fn all_functions_map(lists: FunctionLists, mapped: Seq<canonical::ConnectivityFunction>) -> bool {
    let end1 = lists.switch@.len() as int;
    let end2 = end1 + lists.bridge@.len();
    let end3 = end2 + lists.converter@.len();
    let end4 = end3 + lists.transceiver@.len();
    let end5 = end4 + lists.radio@.len();
    &&& function_run(lists.switch@, mapped, 0, canonical::FunctionKind::Switch)
    &&& function_run(lists.bridge@, mapped, end1, canonical::FunctionKind::Bridge)
    &&& function_run(lists.converter@, mapped, end2, canonical::FunctionKind::Converter)
    &&& function_run(lists.transceiver@, mapped, end3, canonical::FunctionKind::Transceiver)
    &&& function_run(lists.radio@, mapped, end4, canonical::FunctionKind::Radio)
    &&& mapped.len() == end5
}

/// Converts the functions of the element at `path`.
fn all_functions(lists: &FunctionLists, path: &str) -> (r: Converted<Vec<canonical::ConnectivityFunction>>)
    ensures
        conversion::outcome(
            r,
            all_functions_due(*lists, path@),
            |y: Vec<canonical::ConnectivityFunction>| all_functions_map(*lists, y@),
        ),
{
    let mut output: Vec<canonical::ConnectivityFunction> = Vec::new();
    let _ = append_functions(&mut output, lists.switch, canonical::FunctionKind::Switch, path, "switch")?;
    let _ = append_functions(&mut output, lists.bridge, canonical::FunctionKind::Bridge, path, "bridge")?;
    let _ = append_functions(&mut output, lists.converter, canonical::FunctionKind::Converter, path, "converter")?;
    let _ = append_functions(&mut output, lists.transceiver, canonical::FunctionKind::Transceiver, path, "transceiver")?;
    let _ = append_functions(&mut output, lists.radio, canonical::FunctionKind::Radio, path, "radio")?;
    Ok(output)
}

/// The failure of an authored physical path.
pub open spec fn physical_path_due(value: xml::Path, path: Seq<char>, index: int, tag: Seq<char>) -> Option<Failure> {
    let inner = conversion::named_path(path, tag, value.name@);
    faults::either(
        convert_refs::physical_endpoint_due(value.first, conversion::part_path(inner, "first"@)),
        faults::either(
            convert_refs::physical_endpoint_due(value.second, conversion::part_path(inner, "second"@)),
            faults::either(
                convert_refs::optional_id_due(value.role, inner, "@role"@),
                convert_representation::optional_representation_due(value.representation, inner),
            ),
        ),
    )
}

/// Whether the canonical physical path carries the authored one.
pub open spec fn physical_path_maps(value: xml::Path, mapped: canonical::PhysicalPath, kind: canonical::PathKind) -> bool {
    &&& mapped.name == value.name
    &&& mapped.kind == kind
    &&& convert_refs::physical_endpoint_maps(value.first, mapped.first)
    &&& convert_refs::physical_endpoint_maps(value.second, mapped.second)
    &&& mapped.fidelity == value.fidelity
    &&& convert_refs::optional_id_maps(value.role, mapped.role)
    &&& mapped.local_group == value.local_group
    &&& convert_representation::optional_representation_maps(
        value.representation,
        mapped.representation,
    )
}

/// Converts a physical path.
fn physical_path(value: &xml::Path, path: &str, index: usize, tag: &str, kind: canonical::PathKind) -> (r: Converted<canonical::PhysicalPath>)
    ensures
        conversion::outcome(
            r,
            physical_path_due(*value, path@, index as int, tag@),
            |y: canonical::PhysicalPath| physical_path_maps(*value, y, kind),
        ),
{
    let inner = conversion::named(path, tag, value.name.as_str());
    let first = convert_refs::physical_endpoint(
        &value.first,
        conversion::part(inner.as_str(), "first").as_str(),
    )?;
    let second = convert_refs::physical_endpoint(
        &value.second,
        conversion::part(inner.as_str(), "second").as_str(),
    )?;
    let role = convert_refs::optional_id(&value.role, inner.as_str(), "@role")?;
    let representation = convert_representation::optional_representation(
        &value.representation,
        inner.as_str(),
    )?;
    Ok(
        canonical::PhysicalPath {
            name: value.name.clone(),
            kind,
            first,
            second,
            fidelity: value.fidelity,
            role,
            local_group: text::clone_option(&value.local_group),
            representation,
        },
    )
}

/// The failure of the physical path at a place of a list.
pub open spec fn physical_paths_due(list: Seq<xml::Path>, path: Seq<char>, tag: Seq<char>) -> spec_fn(int) -> Option<Failure> {
    |i: int| physical_path_due(list[i], path, i, tag)
}

/// Whether a list of canonical items carries a list of authored ones.
pub open spec fn physical_paths_map(list: Seq<xml::Path>, mapped: Seq<canonical::PhysicalPath>, kind: canonical::PathKind) -> bool {
    conversion::each_maps(list, mapped, |a: xml::Path, b: canonical::PhysicalPath| physical_path_maps(a, b, kind))
}

/// Converts a list of items, each a physical path.
fn physical_paths(list: &Vec<xml::Path>, path: &str, tag: &str, kind: canonical::PathKind) -> (r: Converted<Vec<canonical::PhysicalPath>>)
    ensures
        conversion::outcome(
            r,
            faults::first_failure(list@.len(), physical_paths_due(list@, path@, tag@)),
            |y: Vec<canonical::PhysicalPath>| physical_paths_map(list@, y@, kind),
        ),
{
    conversion::convert_list(
        list,
        |value: &xml::Path, index: usize| -> (r: Converted<canonical::PhysicalPath>)
            ensures
                conversion::outcome(
                    r,
                    physical_path_due(*value, path@, index as int, tag@),
                    |y: canonical::PhysicalPath| physical_path_maps(*value, y, kind),
                )
        { physical_path(value, path, index, tag, kind) },
        Ghost(physical_paths_due(list@, path@, tag@)),
        Ghost(|a: xml::Path, b: canonical::PhysicalPath| physical_path_maps(a, b, kind)),
    )
}

/// Whether the items from `start` on carry a list of authored ones of one kind.
pub open spec fn physical_path_run(list: Seq<xml::Path>, mapped: Seq<canonical::PhysicalPath>, start: int, kind: canonical::PathKind) -> bool {
    forall|i: int|
        0 <= i < list.len() ==> physical_path_maps(#[trigger] list[i], mapped[start + i], kind)
}

/// Converts a list of one kind and appends the paths; on failure nothing is appended.
fn append_paths(
    output: &mut Vec<canonical::PhysicalPath>,
    list: &Vec<xml::Path>,
    kind: canonical::PathKind,
    path: &str,
    tag: &str,
) -> (r: Converted<()>)
    ensures
        conversion::outcome(
            r,
            faults::first_failure(list@.len(), physical_paths_due(list@, path@, tag@)),
            |y: ()| true,
        ),
        r is Err ==> final(output)@ == old(output)@,
        r is Ok ==> final(output)@.len() == old(output)@.len() + list@.len(),
        r is Ok ==> forall|k: int|
            0 <= k < old(output)@.len() ==> #[trigger] final(output)@[k] == old(output)@[k],
        r is Ok ==> physical_path_run(list@, final(output)@, old(output)@.len() as int, kind),
{
    let mut more = physical_paths(list, path, tag, kind)?;
    let ghost added = more@;
    output.append(&mut more);
    assert forall|i: int| 0 <= i < list@.len() implies physical_path_maps(
        #[trigger] list@[i],
        output@[old(output)@.len() + i],
        kind,
    ) by {
        assert(physical_path_maps(list@[i], added[i], kind));
    }
    Ok(())
}

/// The authored lists of paths, one per kind.
pub struct PathLists<'a> {
    pub wire: &'a Vec<xml::Path>,
    pub conductor: &'a Vec<xml::Path>,
    pub cable_member: &'a Vec<xml::Path>,
    pub fiber: &'a Vec<xml::Path>,
    pub coax: &'a Vec<xml::Path>,
    pub waveguide: &'a Vec<xml::Path>,
    pub feed: &'a Vec<xml::Path>,
    pub hose: &'a Vec<xml::Path>,
    pub pipe: &'a Vec<xml::Path>,
    pub passage: &'a Vec<xml::Path>,
}

/// The failure of the authored paths of the element at `path`.
pub open spec fn all_paths_due(lists: PathLists, path: Seq<char>) -> Option<Failure> {
    faults::either(
        faults::first_failure(lists.wire@.len(), physical_paths_due(lists.wire@, path, "wire"@)),
        faults::either(
            faults::first_failure(lists.conductor@.len(), physical_paths_due(lists.conductor@, path, "conductor"@)),
            faults::either(
                faults::first_failure(lists.cable_member@.len(), physical_paths_due(lists.cable_member@, path, "cable-member"@)),
                faults::either(
                    faults::first_failure(lists.fiber@.len(), physical_paths_due(lists.fiber@, path, "fiber"@)),
                    faults::either(
                        faults::first_failure(lists.coax@.len(), physical_paths_due(lists.coax@, path, "coax"@)),
                        faults::either(
                            faults::first_failure(lists.waveguide@.len(), physical_paths_due(lists.waveguide@, path, "waveguide"@)),
                            faults::either(
                                faults::first_failure(lists.feed@.len(), physical_paths_due(lists.feed@, path, "feed"@)),
                                faults::either(
                                    faults::first_failure(lists.hose@.len(), physical_paths_due(lists.hose@, path, "hose"@)),
                                    faults::either(
                                        faults::first_failure(lists.pipe@.len(), physical_paths_due(lists.pipe@, path, "pipe"@)),
                                        faults::first_failure(lists.passage@.len(), physical_paths_due(lists.passage@, path, "passage"@)),
                                    ),
                                ),
                            ),
                        ),
                    ),
                ),
            ),
        ),
    )
}

/// Whether the canonical paths carry the authored lists, one kind after the other.
pub open spec fn all_paths_map(lists: PathLists, mapped: Seq<canonical::PhysicalPath>) -> bool {
    let end1 = lists.wire@.len() as int;
    let end2 = end1 + lists.conductor@.len();
    let end3 = end2 + lists.cable_member@.len();
    let end4 = end3 + lists.fiber@.len();
    let end5 = end4 + lists.coax@.len();
    let end6 = end5 + lists.waveguide@.len();
    let end7 = end6 + lists.feed@.len();
    let end8 = end7 + lists.hose@.len();
    let end9 = end8 + lists.pipe@.len();
    let end10 = end9 + lists.passage@.len();
    &&& physical_path_run(lists.wire@, mapped, 0, canonical::PathKind::Wire)
    &&& physical_path_run(lists.conductor@, mapped, end1, canonical::PathKind::Conductor)
    &&& physical_path_run(lists.cable_member@, mapped, end2, canonical::PathKind::CableMember)
    &&& physical_path_run(lists.fiber@, mapped, end3, canonical::PathKind::Fiber)
    &&& physical_path_run(lists.coax@, mapped, end4, canonical::PathKind::Coax)
    &&& physical_path_run(lists.waveguide@, mapped, end5, canonical::PathKind::Waveguide)
    &&& physical_path_run(lists.feed@, mapped, end6, canonical::PathKind::Feed)
    &&& physical_path_run(lists.hose@, mapped, end7, canonical::PathKind::Hose)
    &&& physical_path_run(lists.pipe@, mapped, end8, canonical::PathKind::Pipe)
    &&& physical_path_run(lists.passage@, mapped, end9, canonical::PathKind::Passage)
    &&& mapped.len() == end10
}

/// Converts the paths of the element at `path`.
fn all_paths(lists: &PathLists, path: &str) -> (r: Converted<Vec<canonical::PhysicalPath>>)
    ensures
        conversion::outcome(
            r,
            all_paths_due(*lists, path@),
            |y: Vec<canonical::PhysicalPath>| all_paths_map(*lists, y@),
        ),
{
    let mut output: Vec<canonical::PhysicalPath> = Vec::new();
    let _ = append_paths(&mut output, lists.wire, canonical::PathKind::Wire, path, "wire")?;
    let _ = append_paths(&mut output, lists.conductor, canonical::PathKind::Conductor, path, "conductor")?;
    let _ = append_paths(&mut output, lists.cable_member, canonical::PathKind::CableMember, path, "cable-member")?;
    let _ = append_paths(&mut output, lists.fiber, canonical::PathKind::Fiber, path, "fiber")?;
    let _ = append_paths(&mut output, lists.coax, canonical::PathKind::Coax, path, "coax")?;
    let _ = append_paths(&mut output, lists.waveguide, canonical::PathKind::Waveguide, path, "waveguide")?;
    let _ = append_paths(&mut output, lists.feed, canonical::PathKind::Feed, path, "feed")?;
    let _ = append_paths(&mut output, lists.hose, canonical::PathKind::Hose, path, "hose")?;
    let _ = append_paths(&mut output, lists.pipe, canonical::PathKind::Pipe, path, "pipe")?;
    let _ = append_paths(&mut output, lists.passage, canonical::PathKind::Passage, path, "passage")?;
    Ok(output)
}

/// The failure of an authored attachment.
pub open spec fn attachment_due(value: xml::PhysicalEndpointRef, path: Seq<char>, index: int) -> Option<Failure> {
    let inner = conversion::indexed_path(path, "attachment"@, index);
    convert_refs::physical_endpoint_due(value, inner)
}

/// Whether the canonical attachment carries the authored one.
pub open spec fn attachment_maps(value: xml::PhysicalEndpointRef, mapped: canonical::PhysicalEndpointRef) -> bool {
    &&& convert_refs::physical_endpoint_maps(value, mapped)
}

/// Converts an attachment.
fn attachment(value: &xml::PhysicalEndpointRef, path: &str, index: usize) -> (r: Converted<canonical::PhysicalEndpointRef>)
    ensures
        conversion::outcome(
            r,
            attachment_due(*value, path@, index as int),
            |y: canonical::PhysicalEndpointRef| attachment_maps(*value, y),
        ),
{
    let inner = conversion::indexed(path, "attachment", index);
    convert_refs::physical_endpoint(value, inner.as_str())
}

/// The failure of the attachment at a place of a list.
pub open spec fn attachments_due(list: Seq<xml::PhysicalEndpointRef>, path: Seq<char>) -> spec_fn(int) -> Option<Failure> {
    |i: int| attachment_due(list[i], path, i)
}

/// Whether a list of canonical items carries a list of authored ones.
pub open spec fn attachments_map(list: Seq<xml::PhysicalEndpointRef>, mapped: Seq<canonical::PhysicalEndpointRef>) -> bool {
    conversion::each_maps(list, mapped, |a: xml::PhysicalEndpointRef, b: canonical::PhysicalEndpointRef| attachment_maps(a, b))
}

/// Converts a list of items, each an attachment.
fn attachments(list: &Vec<xml::PhysicalEndpointRef>, path: &str) -> (r: Converted<Vec<canonical::PhysicalEndpointRef>>)
    ensures
        conversion::outcome(
            r,
            faults::first_failure(list@.len(), attachments_due(list@, path@)),
            |y: Vec<canonical::PhysicalEndpointRef>| attachments_map(list@, y@),
        ),
{
    conversion::convert_list(
        list,
        |value: &xml::PhysicalEndpointRef, index: usize| -> (r: Converted<canonical::PhysicalEndpointRef>)
            ensures
                conversion::outcome(
                    r,
                    attachment_due(*value, path@, index as int),
                    |y: canonical::PhysicalEndpointRef| attachment_maps(*value, y),
                )
        { attachment(value, path, index) },
        Ghost(attachments_due(list@, path@)),
        Ghost(|a: xml::PhysicalEndpointRef, b: canonical::PhysicalEndpointRef| attachment_maps(a, b)),
    )
}

/// The failure of an authored junction.
pub open spec fn junction_due(value: xml::Junction, path: Seq<char>, index: int, tag: Seq<char>) -> Option<Failure> {
    let inner = conversion::named_path(path, tag, value.name@);
    faults::either(
        faults::first_failure(value.attachment@.len(), attachments_due(value.attachment@, inner)),
        convert_representation::optional_representation_due(value.representation, inner),
    )
}

/// Whether the canonical junction carries the authored one.
pub open spec fn junction_maps(value: xml::Junction, mapped: canonical::Junction, kind: canonical::JunctionKind) -> bool {
    &&& mapped.name == value.name
    &&& mapped.kind == kind
    &&& mapped.fidelity == value.fidelity
    &&& attachments_map(value.attachment@, mapped.attachments@)
    &&& convert_representation::optional_representation_maps(
        value.representation,
        mapped.representation,
    )
}

/// Converts a junction.
fn junction(value: &xml::Junction, path: &str, index: usize, tag: &str, kind: canonical::JunctionKind) -> (r: Converted<canonical::Junction>)
    ensures
        conversion::outcome(
            r,
            junction_due(*value, path@, index as int, tag@),
            |y: canonical::Junction| junction_maps(*value, y, kind),
        ),
{
    let inner = conversion::named(path, tag, value.name.as_str());
    let attachments = attachments(&value.attachment, inner.as_str())?;
    let representation = convert_representation::optional_representation(
        &value.representation,
        inner.as_str(),
    )?;
    Ok(
        canonical::Junction {
            name: value.name.clone(),
            kind,
            fidelity: value.fidelity,
            attachments,
            representation,
        },
    )
}

/// The failure of the junction at a place of a list.
pub open spec fn junctions_due(list: Seq<xml::Junction>, path: Seq<char>, tag: Seq<char>) -> spec_fn(int) -> Option<Failure> {
    |i: int| junction_due(list[i], path, i, tag)
}

/// Whether a list of canonical items carries a list of authored ones.
pub open spec fn junctions_map(list: Seq<xml::Junction>, mapped: Seq<canonical::Junction>, kind: canonical::JunctionKind) -> bool {
    conversion::each_maps(list, mapped, |a: xml::Junction, b: canonical::Junction| junction_maps(a, b, kind))
}

/// Converts a list of items, each a junction.
fn junctions(list: &Vec<xml::Junction>, path: &str, tag: &str, kind: canonical::JunctionKind) -> (r: Converted<Vec<canonical::Junction>>)
    ensures
        conversion::outcome(
            r,
            faults::first_failure(list@.len(), junctions_due(list@, path@, tag@)),
            |y: Vec<canonical::Junction>| junctions_map(list@, y@, kind),
        ),
{
    conversion::convert_list(
        list,
        |value: &xml::Junction, index: usize| -> (r: Converted<canonical::Junction>)
            ensures
                conversion::outcome(
                    r,
                    junction_due(*value, path@, index as int, tag@),
                    |y: canonical::Junction| junction_maps(*value, y, kind),
                )
        { junction(value, path, index, tag, kind) },
        Ghost(junctions_due(list@, path@, tag@)),
        Ghost(|a: xml::Junction, b: canonical::Junction| junction_maps(a, b, kind)),
    )
}

/// Whether the items from `start` on carry a list of authored ones of one kind.
pub open spec fn junction_run(list: Seq<xml::Junction>, mapped: Seq<canonical::Junction>, start: int, kind: canonical::JunctionKind) -> bool {
    forall|i: int|
        0 <= i < list.len() ==> junction_maps(#[trigger] list[i], mapped[start + i], kind)
}

/// Converts a list of one kind and appends the junctions; on failure nothing is appended.
fn append_junctions(
    output: &mut Vec<canonical::Junction>,
    list: &Vec<xml::Junction>,
    kind: canonical::JunctionKind,
    path: &str,
    tag: &str,
) -> (r: Converted<()>)
    ensures
        conversion::outcome(
            r,
            faults::first_failure(list@.len(), junctions_due(list@, path@, tag@)),
            |y: ()| true,
        ),
        r is Err ==> final(output)@ == old(output)@,
        r is Ok ==> final(output)@.len() == old(output)@.len() + list@.len(),
        r is Ok ==> forall|k: int|
            0 <= k < old(output)@.len() ==> #[trigger] final(output)@[k] == old(output)@[k],
        r is Ok ==> junction_run(list@, final(output)@, old(output)@.len() as int, kind),
{
    let mut more = junctions(list, path, tag, kind)?;
    let ghost added = more@;
    output.append(&mut more);
    assert forall|i: int| 0 <= i < list@.len() implies junction_maps(
        #[trigger] list@[i],
        output@[old(output)@.len() + i],
        kind,
    ) by {
        assert(junction_maps(list@[i], added[i], kind));
    }
    Ok(())
}

/// The authored lists of junctions, one per kind.
pub struct JunctionLists<'a> {
    pub splice: &'a Vec<xml::Junction>,
    pub tee: &'a Vec<xml::Junction>,
    pub manifold: &'a Vec<xml::Junction>,
    pub busbar: &'a Vec<xml::Junction>,
    pub optical_splitter: &'a Vec<xml::Junction>,
}

/// The failure of the authored junctions of the element at `path`.
pub open spec fn all_junctions_due(lists: JunctionLists, path: Seq<char>) -> Option<Failure> {
    faults::either(
        faults::first_failure(lists.splice@.len(), junctions_due(lists.splice@, path, "splice"@)),
        faults::either(
            faults::first_failure(lists.tee@.len(), junctions_due(lists.tee@, path, "tee"@)),
            faults::either(
                faults::first_failure(lists.manifold@.len(), junctions_due(lists.manifold@, path, "manifold"@)),
                faults::either(
                    faults::first_failure(lists.busbar@.len(), junctions_due(lists.busbar@, path, "busbar"@)),
                    faults::first_failure(lists.optical_splitter@.len(), junctions_due(lists.optical_splitter@, path, "optical-splitter"@)),
                ),
            ),
        ),
    )
}

/// Whether the canonical junctions carry the authored lists, one kind after the other.
pub open spec fn all_junctions_map(lists: JunctionLists, mapped: Seq<canonical::Junction>) -> bool {
    let end1 = lists.splice@.len() as int;
    let end2 = end1 + lists.tee@.len();
    let end3 = end2 + lists.manifold@.len();
    let end4 = end3 + lists.busbar@.len();
    let end5 = end4 + lists.optical_splitter@.len();
    &&& junction_run(lists.splice@, mapped, 0, canonical::JunctionKind::Splice)
    &&& junction_run(lists.tee@, mapped, end1, canonical::JunctionKind::Tee)
    &&& junction_run(lists.manifold@, mapped, end2, canonical::JunctionKind::Manifold)
    &&& junction_run(lists.busbar@, mapped, end3, canonical::JunctionKind::Busbar)
    &&& junction_run(lists.optical_splitter@, mapped, end4, canonical::JunctionKind::OpticalSplitter)
    &&& mapped.len() == end5
}

/// Converts the junctions of the element at `path`.
fn all_junctions(lists: &JunctionLists, path: &str) -> (r: Converted<Vec<canonical::Junction>>)
    ensures
        conversion::outcome(
            r,
            all_junctions_due(*lists, path@),
            |y: Vec<canonical::Junction>| all_junctions_map(*lists, y@),
        ),
{
    let mut output: Vec<canonical::Junction> = Vec::new();
    let _ = append_junctions(&mut output, lists.splice, canonical::JunctionKind::Splice, path, "splice")?;
    let _ = append_junctions(&mut output, lists.tee, canonical::JunctionKind::Tee, path, "tee")?;
    let _ = append_junctions(&mut output, lists.manifold, canonical::JunctionKind::Manifold, path, "manifold")?;
    let _ = append_junctions(&mut output, lists.busbar, canonical::JunctionKind::Busbar, path, "busbar")?;
    let _ = append_junctions(&mut output, lists.optical_splitter, canonical::JunctionKind::OpticalSplitter, path, "optical-splitter")?;
    Ok(output)
}

/// The failure of an authored named quantity.
pub open spec fn named_quantity_due(value: xml::NamedQuantity, path: Seq<char>, index: int) -> Option<Failure> {
    let inner = conversion::indexed_path(path, "quantity"@, index);
    convert_refs::qualified_due(value.property@, conversion::part_path(inner, "@property"@))
}

/// Whether the canonical named quantity carries the authored one.
pub open spec fn named_quantity_maps(value: xml::NamedQuantity, mapped: canonical::NamedQuantity) -> bool {
    &&& mapped.property.text() == value.property@
    &&& mapped.quantity == convert_selection::quantity_of(value.value, value.unit)
}

/// Converts a named quantity.
fn named_quantity(value: &xml::NamedQuantity, path: &str, index: usize) -> (r: Converted<canonical::NamedQuantity>)
    ensures
        conversion::outcome(
            r,
            named_quantity_due(*value, path@, index as int),
            |y: canonical::NamedQuantity| named_quantity_maps(*value, y),
        ),
{
    let inner = conversion::indexed(path, "quantity", index);
    let property = convert_refs::qualified(
        value.property.as_str(),
        conversion::part(inner.as_str(), "@property").as_str(),
    )?;
    Ok(
        canonical::NamedQuantity {
            property,
            quantity: canonical::Quantity { value: value.value, unit: value.unit.clone() },
        },
    )
}

/// The failure of the named quantity at a place of a list.
pub open spec fn named_quantities_due(list: Seq<xml::NamedQuantity>, path: Seq<char>) -> spec_fn(int) -> Option<Failure> {
    |i: int| named_quantity_due(list[i], path, i)
}

/// Whether a list of canonical items carries a list of authored ones.
pub open spec fn named_quantities_map(list: Seq<xml::NamedQuantity>, mapped: Seq<canonical::NamedQuantity>) -> bool {
    conversion::each_maps(list, mapped, |a: xml::NamedQuantity, b: canonical::NamedQuantity| named_quantity_maps(a, b))
}

/// Converts a list of items, each a named quantity.
fn named_quantities(list: &Vec<xml::NamedQuantity>, path: &str) -> (r: Converted<Vec<canonical::NamedQuantity>>)
    ensures
        conversion::outcome(
            r,
            faults::first_failure(list@.len(), named_quantities_due(list@, path@)),
            |y: Vec<canonical::NamedQuantity>| named_quantities_map(list@, y@),
        ),
{
    conversion::convert_list(
        list,
        |value: &xml::NamedQuantity, index: usize| -> (r: Converted<canonical::NamedQuantity>)
            ensures
                conversion::outcome(
                    r,
                    named_quantity_due(*value, path@, index as int),
                    |y: canonical::NamedQuantity| named_quantity_maps(*value, y),
                )
        { named_quantity(value, path, index) },
        Ghost(named_quantities_due(list@, path@)),
        Ghost(|a: xml::NamedQuantity, b: canonical::NamedQuantity| named_quantity_maps(a, b)),
    )
}

/// The failure of an authored termination.
pub open spec fn convert_termination_due(value: xml::Termination, path: Seq<char>, index: int) -> Option<Failure> {
    let inner = conversion::named_path(path, "termination"@, value.name@);
    faults::either(
        faults::first_failure(value.attachment@.len(), attachments_due(value.attachment@, inner)),
        faults::either(
            faults::first_failure(value.quantity@.len(), named_quantities_due(value.quantity@, inner)),
            faults::either(
                convert_refs::qualified_due(value.kind@, conversion::part_path(inner, "@kind"@)),
                faults::either(
                    convert_refs::optional_id_due(value.profile, inner, "@profile"@),
                    convert_representation::optional_representation_due(value.representation, inner),
                ),
            ),
        ),
    )
}

/// Whether the canonical termination carries the authored one.
pub open spec fn convert_termination_maps(value: xml::Termination, mapped: canonical::Termination) -> bool {
    &&& mapped.name == value.name
    &&& mapped.kind.text() == value.kind@
    &&& mapped.mounting == value.mounting
    &&& attachments_map(value.attachment@, mapped.attachments@)
    &&& named_quantities_map(value.quantity@, mapped.quantities@)
    &&& mapped.fidelity == value.fidelity
    &&& convert_refs::optional_id_maps(value.profile, mapped.profile)
    &&& convert_representation::optional_representation_maps(
        value.representation,
        mapped.representation,
    )
}

/// Converts a termination.
fn convert_termination(value: &xml::Termination, path: &str, index: usize) -> (r: Converted<canonical::Termination>)
    ensures
        conversion::outcome(
            r,
            convert_termination_due(*value, path@, index as int),
            |y: canonical::Termination| convert_termination_maps(*value, y),
        ),
{
    let inner = conversion::named(path, "termination", value.name.as_str());
    let attachments = attachments(&value.attachment, inner.as_str())?;
    let quantities = named_quantities(&value.quantity, inner.as_str())?;
    let kind = convert_refs::qualified(
        value.kind.as_str(),
        conversion::part(inner.as_str(), "@kind").as_str(),
    )?;
    let profile = convert_refs::optional_id(&value.profile, inner.as_str(), "@profile")?;
    let representation = convert_representation::optional_representation(
        &value.representation,
        inner.as_str(),
    )?;
    Ok(
        canonical::Termination {
            name: value.name.clone(),
            kind,
            mounting: value.mounting,
            attachments,
            quantities,
            fidelity: value.fidelity,
            profile,
            representation,
        },
    )
}

/// The failure of the termination at a place of a list.
pub open spec fn terminations_due(list: Seq<xml::Termination>, path: Seq<char>) -> spec_fn(int) -> Option<Failure> {
    |i: int| convert_termination_due(list[i], path, i)
}

/// Whether a list of canonical items carries a list of authored ones.
pub open spec fn terminations_map(list: Seq<xml::Termination>, mapped: Seq<canonical::Termination>) -> bool {
    conversion::each_maps(list, mapped, |a: xml::Termination, b: canonical::Termination| convert_termination_maps(a, b))
}

/// Converts a list of items, each a termination.
fn terminations(list: &Vec<xml::Termination>, path: &str) -> (r: Converted<Vec<canonical::Termination>>)
    ensures
        conversion::outcome(
            r,
            faults::first_failure(list@.len(), terminations_due(list@, path@)),
            |y: Vec<canonical::Termination>| terminations_map(list@, y@),
        ),
{
    conversion::convert_list(
        list,
        |value: &xml::Termination, index: usize| -> (r: Converted<canonical::Termination>)
            ensures
                conversion::outcome(
                    r,
                    convert_termination_due(*value, path@, index as int),
                    |y: canonical::Termination| convert_termination_maps(*value, y),
                )
        { convert_termination(value, path, index) },
        Ghost(terminations_due(list@, path@)),
        Ghost(|a: xml::Termination, b: canonical::Termination| convert_termination_maps(a, b)),
    )
}

/// The lists of this element.
pub open spec fn function_lists_of<'a>(value: &'a super::Comp) -> FunctionLists<'a> {
    FunctionLists {
        switch: &value.switch,
        bridge: &value.bridge,
        converter: &value.converter,
        transceiver: &value.transceiver,
        radio: &value.radio,
    }
}

/// The lists of this element.
pub open spec fn component_path_lists_of<'a>(value: &'a super::Comp) -> PathLists<'a> {
    PathLists {
        wire: &value.wire,
        conductor: &value.conductor,
        cable_member: &value.cable_member,
        fiber: &value.fiber,
        coax: &value.coax,
        waveguide: &value.waveguide,
        feed: &value.feed,
        hose: &value.hose,
        pipe: &value.pipe,
        passage: &value.passage,
    }
}

/// The lists of this element.
pub open spec fn component_junction_lists_of<'a>(value: &'a super::Comp) -> JunctionLists<'a> {
    JunctionLists {
        splice: &value.splice,
        tee: &value.tee,
        manifold: &value.manifold,
        busbar: &value.busbar,
        optical_splitter: &value.optical_splitter,
    }
}

/// The failure of an authored component.
pub open spec fn convert_component_due(value: super::Comp, index: int) -> Option<Failure> {
    let inner = conversion::top_path("comp"@, value.name@);
    faults::either(
        faults::first_failure(value.port@.len(), ports_due(value.port@, inner)),
        faults::either(
            faults::first_failure(value.connector@.len(), connectors_due(value.connector@, inner)),
            faults::either(
                faults::first_failure(value.antenna@.len(), antennas_due(value.antenna@, inner)),
                faults::either(
                    all_functions_due(function_lists_of(&value), inner),
                    faults::either(
                        all_paths_due(component_path_lists_of(&value), inner),
                        faults::either(
                            all_junctions_due(component_junction_lists_of(&value), inner),
                            faults::first_failure(value.termination@.len(), terminations_due(value.termination@, inner)),
                        ),
                    ),
                ),
            ),
        ),
    )
}

/// Whether the canonical component carries the authored one.
pub open spec fn convert_component_maps(value: super::Comp, mapped: canonical::ComponentConnectivity) -> bool {
    &&& mapped.component == value.name
    &&& ports_map(value.port@, mapped.ports@)
    &&& connectors_map(value.connector@, mapped.connectors@)
    &&& antennas_map(value.antenna@, mapped.antennas@)
    &&& all_functions_map(function_lists_of(&value), mapped.functions@)
    &&& all_paths_map(component_path_lists_of(&value), mapped.paths@)
    &&& all_junctions_map(component_junction_lists_of(&value), mapped.junctions@)
    &&& terminations_map(value.termination@, mapped.terminations@)
}

/// Converts a component.
pub(crate) fn convert_component(value: &super::Comp, index: usize) -> (r: Converted<canonical::ComponentConnectivity>)
    ensures
        conversion::outcome(
            r,
            convert_component_due(*value, index as int),
            |y: canonical::ComponentConnectivity| convert_component_maps(*value, y),
        ),
{
    let inner = conversion::top("comp", value.name.as_str());
    let ports = ports(&value.port, inner.as_str())?;
    let connectors = connectors(&value.connector, inner.as_str())?;
    let antennas = antennas(&value.antenna, inner.as_str())?;
    let function_lists = FunctionLists {
        switch: &value.switch,
        bridge: &value.bridge,
        converter: &value.converter,
        transceiver: &value.transceiver,
        radio: &value.radio,
    };
    let functions = all_functions(&function_lists, inner.as_str())?;
    let path_lists = PathLists {
        wire: &value.wire,
        conductor: &value.conductor,
        cable_member: &value.cable_member,
        fiber: &value.fiber,
        coax: &value.coax,
        waveguide: &value.waveguide,
        feed: &value.feed,
        hose: &value.hose,
        pipe: &value.pipe,
        passage: &value.passage,
    };
    let paths = all_paths(&path_lists, inner.as_str())?;
    let junction_lists = JunctionLists {
        splice: &value.splice,
        tee: &value.tee,
        manifold: &value.manifold,
        busbar: &value.busbar,
        optical_splitter: &value.optical_splitter,
    };
    let junctions = all_junctions(&junction_lists, inner.as_str())?;
    let terminations = terminations(&value.termination, inner.as_str())?;
    Ok(
        canonical::ComponentConnectivity {
            component: value.name.clone(),
            ports,
            connectors,
            antennas,
            functions,
            paths,
            junctions,
            terminations,
        },
    )
}

/// The failure of the component at a place of a list.
pub open spec fn components_due(list: Seq<super::Comp>) -> spec_fn(int) -> Option<Failure> {
    |i: int| convert_component_due(list[i], i)
}

/// Whether a list of canonical items carries a list of authored ones.
pub open spec fn components_map(list: Seq<super::Comp>, mapped: Seq<canonical::ComponentConnectivity>) -> bool {
    conversion::each_maps(list, mapped, |a: super::Comp, b: canonical::ComponentConnectivity| convert_component_maps(a, b))
}

/// Converts a list of items, each a component.
pub(crate) fn components(list: &Vec<super::Comp>) -> (r: Converted<Vec<canonical::ComponentConnectivity>>)
    ensures
        conversion::outcome(
            r,
            faults::first_failure(list@.len(), components_due(list@)),
            |y: Vec<canonical::ComponentConnectivity>| components_map(list@, y@),
        ),
{
    conversion::convert_list(
        list,
        |value: &super::Comp, index: usize| -> (r: Converted<canonical::ComponentConnectivity>)
            ensures
                conversion::outcome(
                    r,
                    convert_component_due(*value, index as int),
                    |y: canonical::ComponentConnectivity| convert_component_maps(*value, y),
                )
        { convert_component(value, index) },
        Ghost(components_due(list@)),
        Ghost(|a: super::Comp, b: canonical::ComponentConnectivity| convert_component_maps(a, b)),
    )
}

/// The lists of this element.
pub open spec fn assembly_path_lists_of<'a>(value: &'a xml::Assembly) -> PathLists<'a> {
    PathLists {
        wire: &value.wire,
        conductor: &value.conductor,
        cable_member: &value.cable_member,
        fiber: &value.fiber,
        coax: &value.coax,
        waveguide: &value.waveguide,
        feed: &value.feed,
        hose: &value.hose,
        pipe: &value.pipe,
        passage: &value.passage,
    }
}

/// The lists of this element.
pub open spec fn assembly_junction_lists_of<'a>(value: &'a xml::Assembly) -> JunctionLists<'a> {
    JunctionLists {
        splice: &value.splice,
        tee: &value.tee,
        manifold: &value.manifold,
        busbar: &value.busbar,
        optical_splitter: &value.optical_splitter,
    }
}

/// The failure of an authored assembly.
pub open spec fn assembly_due(value: xml::Assembly, index: int, tag: Seq<char>) -> Option<Failure> {
    let inner = conversion::top_path(tag, value.name@);
    faults::either(
        faults::first_failure(value.connector@.len(), connectors_due(value.connector@, inner)),
        faults::either(
            all_paths_due(assembly_path_lists_of(&value), inner),
            faults::either(
                all_junctions_due(assembly_junction_lists_of(&value), inner),
                faults::either(
                    faults::first_failure(value.termination@.len(), terminations_due(value.termination@, inner)),
                    convert_representation::optional_representation_due(value.representation, inner),
                ),
            ),
        ),
    )
}

/// Whether the canonical assembly carries the authored one.
pub open spec fn assembly_maps(value: xml::Assembly, mapped: canonical::PhysicalAssembly, kind: canonical::AssemblyKind) -> bool {
    &&& mapped.name == value.name
    &&& mapped.kind == kind
    &&& connectors_map(value.connector@, mapped.connectors@)
    &&& all_paths_map(assembly_path_lists_of(&value), mapped.paths@)
    &&& all_junctions_map(assembly_junction_lists_of(&value), mapped.junctions@)
    &&& terminations_map(value.termination@, mapped.terminations@)
    &&& convert_representation::optional_representation_maps(
        value.representation,
        mapped.representation,
    )
}

/// Converts an assembly.
pub(crate) fn assembly(value: &xml::Assembly, index: usize, tag: &str, kind: canonical::AssemblyKind) -> (r: Converted<canonical::PhysicalAssembly>)
    ensures
        conversion::outcome(
            r,
            assembly_due(*value, index as int, tag@),
            |y: canonical::PhysicalAssembly| assembly_maps(*value, y, kind),
        ),
{
    let inner = conversion::top(tag, value.name.as_str());
    let connectors = connectors(&value.connector, inner.as_str())?;
    let path_lists = PathLists {
        wire: &value.wire,
        conductor: &value.conductor,
        cable_member: &value.cable_member,
        fiber: &value.fiber,
        coax: &value.coax,
        waveguide: &value.waveguide,
        feed: &value.feed,
        hose: &value.hose,
        pipe: &value.pipe,
        passage: &value.passage,
    };
    let paths = all_paths(&path_lists, inner.as_str())?;
    let junction_lists = JunctionLists {
        splice: &value.splice,
        tee: &value.tee,
        manifold: &value.manifold,
        busbar: &value.busbar,
        optical_splitter: &value.optical_splitter,
    };
    let junctions = all_junctions(&junction_lists, inner.as_str())?;
    let terminations = terminations(&value.termination, inner.as_str())?;
    let representation = convert_representation::optional_representation(
        &value.representation,
        inner.as_str(),
    )?;
    Ok(
        canonical::PhysicalAssembly {
            name: value.name.clone(),
            connectors,
            kind,
            representation,
            paths,
            junctions,
            terminations,
        },
    )
}

/// The failure of the assembly at a place of a list.
pub open spec fn assemblies_due(list: Seq<xml::Assembly>, tag: Seq<char>) -> spec_fn(int) -> Option<Failure> {
    |i: int| assembly_due(list[i], i, tag)
}

/// Whether a list of canonical items carries a list of authored ones.
pub open spec fn assemblies_map(list: Seq<xml::Assembly>, mapped: Seq<canonical::PhysicalAssembly>, kind: canonical::AssemblyKind) -> bool {
    conversion::each_maps(list, mapped, |a: xml::Assembly, b: canonical::PhysicalAssembly| assembly_maps(a, b, kind))
}

/// Converts a list of items, each an assembly.
pub(crate) fn assemblies(list: &Vec<xml::Assembly>, tag: &str, kind: canonical::AssemblyKind) -> (r: Converted<Vec<canonical::PhysicalAssembly>>)
    ensures
        conversion::outcome(
            r,
            faults::first_failure(list@.len(), assemblies_due(list@, tag@)),
            |y: Vec<canonical::PhysicalAssembly>| assemblies_map(list@, y@, kind),
        ),
{
    conversion::convert_list(
        list,
        |value: &xml::Assembly, index: usize| -> (r: Converted<canonical::PhysicalAssembly>)
            ensures
                conversion::outcome(
                    r,
                    assembly_due(*value, index as int, tag@),
                    |y: canonical::PhysicalAssembly| assembly_maps(*value, y, kind),
                )
        { assembly(value, index, tag, kind) },
        Ghost(assemblies_due(list@, tag@)),
        Ghost(|a: xml::Assembly, b: canonical::PhysicalAssembly| assembly_maps(a, b, kind)),
    )
}

} // verus!
