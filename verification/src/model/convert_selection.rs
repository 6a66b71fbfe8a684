//! Conversion of quantities, capabilities and network selections.
use vstd::prelude::*;
use crate::faults;
use super::connectivity as canonical;
use super::connectivity_xml as xml;
use super::conversion;
use super::conversion::{ConnectivityConversionError, Converted, Failure};
use super::convert_refs;
use crate::float::Float64;
use crate::order::{Ranked, SortedSet};

verus! {

/// A canonical quantity of this number and unit.
pub open spec fn quantity_of(value: Float64, unit: String) -> canonical::Quantity {
    canonical::Quantity { value, unit }
}

/// A canonical quantity of an optional number.
pub open spec fn optional_quantity_of(value: Option<Float64>, unit: String) -> Option<
    canonical::Quantity,
> {
    match value {
        Some(number) => Some(quantity_of(number, unit)),
        None => None,
    }
}

/// Converts a number and a unit.
fn number_with_unit(value: Float64, unit: &String) -> (r: canonical::Quantity)
    ensures
        r == quantity_of(value, *unit),
{
    canonical::Quantity { value, unit: unit.clone() }
}

/// Converts an optional number and a unit.
fn optional_number_with_unit(value: Option<Float64>, unit: &String) -> (r: Option<
    canonical::Quantity,
>)
    ensures
        r == optional_quantity_of(value, *unit),
{
    match value {
        Some(number) => Some(number_with_unit(number, unit)),
        None => None,
    }
}

/// Converts a quantity.
pub(crate) fn quantity(value: &xml::Quantity) -> (r: canonical::Quantity)
    ensures
        r == quantity_of(value.value, value.unit),
{
    number_with_unit(value.value, &value.unit)
}

/// The canonical range of an authored one: each number with the shared unit.
pub open spec fn quantity_range_of(value: Option<xml::QuantityRange>) -> Option<
    canonical::QuantityRange,
> {
    match value {
        None => None,
        Some(range) => Some(
            canonical::QuantityRange {
                minimum: optional_quantity_of(range.minimum, range.unit),
                maximum: optional_quantity_of(range.maximum, range.unit),
                nominal: optional_quantity_of(range.nominal, range.unit),
            },
        ),
    }
}

/// Converts an optional range.
pub(crate) fn quantity_range(value: &Option<xml::QuantityRange>) -> (r: Option<
    canonical::QuantityRange,
>)
    ensures
        r == quantity_range_of(*value),
{
    match value {
        None => None,
        Some(range) => Some(
            canonical::QuantityRange {
                minimum: optional_number_with_unit(range.minimum, &range.unit),
                maximum: optional_number_with_unit(range.maximum, &range.unit),
                nominal: optional_number_with_unit(range.nominal, &range.unit),
            },
        ),
    }
}

/// The canonical form of a selected quantity.
pub open spec fn selection_quantity_of(value: xml::SelectionQuantity) -> canonical::SelectionQuantity {
    match value.selection {
        xml::SelectionQuantityChoice::Nominal(value) => canonical::SelectionQuantity::Nominal(
            quantity_of(value.value, value.unit),
        ),
        xml::SelectionQuantityChoice::Range(range) => canonical::SelectionQuantity::Range(
            canonical::SelectionRange {
                minimum: quantity_of(range.minimum, range.unit),
                maximum: quantity_of(range.maximum, range.unit),
                nominal: optional_quantity_of(range.nominal, range.unit),
            },
        ),
    }
}

/// Converts a selected quantity.
pub(crate) fn selection_quantity(value: &xml::SelectionQuantity) -> (r: canonical::SelectionQuantity)
    ensures
        r == selection_quantity_of(*value),
{
    match &value.selection {
        xml::SelectionQuantityChoice::Nominal(value) => canonical::SelectionQuantity::Nominal(
            quantity(value),
        ),
        xml::SelectionQuantityChoice::Range(range) => canonical::SelectionQuantity::Range(
            canonical::SelectionRange {
                minimum: number_with_unit(range.minimum, &range.unit),
                maximum: number_with_unit(range.maximum, &range.unit),
                nominal: optional_number_with_unit(range.nominal, &range.unit),
            },
        ),
    }
}

/// The canonical form of an optional selected quantity.
pub open spec fn optional_selection_of(value: Option<xml::SelectionQuantity>) -> Option<
    canonical::SelectionQuantity,
> {
    match value {
        Some(value) => Some(selection_quantity_of(value)),
        None => None,
    }
}

/// Converts an optional selected quantity.
fn optional_selection(value: &Option<xml::SelectionQuantity>) -> (r: Option<
    canonical::SelectionQuantity,
>)
    ensures
        r == optional_selection_of(*value),
{
    match value {
        Some(value) => Some(selection_quantity(value)),
        None => None,
    }
}

/// The canonical form of a radio channel selection.
pub open spec fn rf_selection_of(value: xml::RfSelection) -> canonical::RfSelection {
    canonical::RfSelection {
        channel: match value.channel.selection {
            xml::RfChannelSelectionChoice::Numbered(channel) => {
                canonical::RfChannelSelection::Numbered {
                    number: channel.number,
                    center_frequency: optional_selection_of(channel.center_frequency),
                    bandwidth: optional_selection_of(channel.bandwidth),
                }
            },
            xml::RfChannelSelectionChoice::FrequencyDefined(channel) => {
                canonical::RfChannelSelection::FrequencyDefined {
                    center_frequency: selection_quantity_of(channel.center_frequency),
                    bandwidth: optional_selection_of(channel.bandwidth),
                }
            },
        },
    }
}

/// Converts a radio channel selection.
pub(crate) fn rf_selection(value: &xml::RfSelection) -> (r: canonical::RfSelection)
    ensures
        r == rf_selection_of(*value),
{
    let channel = match &value.channel.selection {
        xml::RfChannelSelectionChoice::Numbered(channel) => {
            canonical::RfChannelSelection::Numbered {
                number: channel.number,
                center_frequency: optional_selection(&channel.center_frequency),
                bandwidth: optional_selection(&channel.bandwidth),
            }
        },
        xml::RfChannelSelectionChoice::FrequencyDefined(channel) => {
            canonical::RfChannelSelection::FrequencyDefined {
                center_frequency: selection_quantity(&channel.center_frequency),
                bandwidth: optional_selection(&channel.bandwidth),
            }
        },
    };
    canonical::RfSelection { channel }
}

/// Whether the text at a place of a list stands earlier in it too.
pub open spec fn repeats_text(texts: Seq<String>, at: int) -> bool {
    exists|j: int| 0 <= j < at && #[trigger] texts[j]@ == texts[at]@
}

/// The failure of the profile identifier at a place: malformed, or declared before.
pub open spec fn profiles_due(ids: Seq<String>, path: Seq<char>, tag: Seq<char>) -> spec_fn(
    int,
) -> Option<Failure> {
    |i: int|
        {
            let inner = conversion::part_path(conversion::indexed_path(path, tag, i), "@id"@);
            faults::either(
                convert_refs::qualified_due(ids[i]@, inner),
                if repeats_text(ids, i) {
                    Some(
                        conversion::failure(
                            "E_CONN_DUPLICATE_PROFILE"@,
                            inner,
                            "duplicate profile declaration "@ + ids[i]@,
                        ),
                    )
                } else {
                    None
                },
            )
        }
}

/// Whether a list of identifiers holds this text.
pub open spec fn holds_id(ids: Seq<canonical::QualifiedId>, text: Seq<char>) -> bool {
    exists|k: int| 0 <= k < ids.len() && #[trigger] ids[k].text() == text
}

/// Whether a set of identifiers holds the authored texts and no others, in ascending order.
pub open spec fn profiles_map(ids: Seq<String>, set: SortedSet<canonical::QualifiedId>) -> bool {
    &&& set.wf()
    &&& forall|i: int| 0 <= i < ids.len() ==> holds_id(set@, #[trigger] ids[i]@)
    &&& forall|k: int|
        0 <= k < set@.len() ==> exists|i: int|
            0 <= i < ids.len() && ids[i]@ == (#[trigger] set@[k]).text()
}

proof fn held_rank_is_held_text(set: SortedSet<canonical::QualifiedId>, id: canonical::QualifiedId)
    ensures
        set.has(id.rank()) == holds_id(set@, id.text()),
{
    if set.has(id.rank()) {
        let k = choose|k: int| 0 <= k < set@.len() && #[trigger] set@[k].rank() == id.rank();
        canonical::identifier_rank_is_injective(set@[k], id);
        assert(set@[k].text() == id.text());
    }
    if holds_id(set@, id.text()) {
        let k = choose|k: int| 0 <= k < set@.len() && #[trigger] set@[k].text() == id.text();
        assert(set@[k].rank() == id.rank());
    }
}

/// Collects profile identifiers, each of which may be declared once.
pub(crate) fn qualified_set(ids: &Vec<String>, path: &str, tag: &str) -> (r: Converted<
    SortedSet<canonical::QualifiedId>,
>)
    ensures
        conversion::outcome(
            r,
            faults::first_failure(ids@.len(), profiles_due(ids@, path@, tag@)),
            |y: SortedSet<canonical::QualifiedId>| profiles_map(ids@, y),
        ),
{
    let ghost due = profiles_due(ids@, path@, tag@);
    let mut set: SortedSet<canonical::QualifiedId> = SortedSet::new();
    let mut i: usize = 0;
    while i < ids.len()
        invariant
            i <= ids@.len(),
            due == profiles_due(ids@, path@, tag@),
            faults::first_failure(i as nat, due) is None,
            profiles_map(ids@.take(i as int), set),
        decreases ids@.len() - i,
    {
        let inner = conversion::part(conversion::indexed(path, tag, i).as_str(), "@id");
        let ghost before = set@;
        let value = match convert_refs::qualified(ids[i].as_str(), inner.as_str()) {
            Ok(value) => value,
            Err(e) => {
                proof {
                    faults::first_failure_stays((i + 1) as nat, ids@.len(), due);
                }
                return Err(e);
            },
        };
        let ghost item = value;
        proof {
            held_rank_is_held_text(set, value);
            if holds_id(set@, value.text()) {
                let k = choose|k: int| 0 <= k < set@.len() && #[trigger] set@[k].text() == value.text();
                let j = choose|j: int|
                    0 <= j < ids@.take(i as int).len() && ids@.take(i as int)[j]@ == set@[k].text();
                assert(ids@[j]@ == ids@[i as int]@);
            }
            if repeats_text(ids@, i as int) {
                let j = choose|j: int| 0 <= j < i && #[trigger] ids@[j]@ == ids@[i as int]@;
                assert(ids@.take(i as int)[j]@ == ids@[j]@);
            }
        }
        if !set.insert(value) {
            let mut reason: String = "duplicate profile declaration ".to_owned();
            reason.append(ids[i].as_str());
            proof {
                faults::first_failure_stays((i + 1) as nat, ids@.len(), due);
            }
            return Err(
                ConnectivityConversionError::coded(
                    "E_CONN_DUPLICATE_PROFILE",
                    inner.as_str(),
                    reason.as_str(),
                ),
            );
        }
        proof {
            let at = choose|at: int|
                0 <= at <= before.len() && #[trigger] before.insert(at, item) == set@;
            let upto = ids@.take(i + 1);
            assert(set@[at].text() == ids@[i as int]@);
            assert forall|j: int| 0 <= j < upto.len() implies holds_id(set@, #[trigger] upto[j]@) by {
                if j < i {
                    assert(ids@.take(i as int)[j]@ == upto[j]@);
                    let k = choose|k: int|
                        0 <= k < before.len() && #[trigger] before[k].text() == upto[j]@;
                    let moved = if k < at { k } else { k + 1 };
                    assert(set@[moved].text() == upto[j]@);
                }
            }
            assert forall|k: int| 0 <= k < set@.len() implies exists|j: int|
                0 <= j < upto.len() && upto[j]@ == (#[trigger] set@[k]).text() by {
                if k == at {
                    assert(upto[i as int]@ == set@[k].text());
                } else {
                    let moved = if k < at { k } else { k - 1 };
                    assert(before[moved] == set@[k]);
                    let j = choose|j: int|
                        0 <= j < ids@.take(i as int).len() && ids@.take(i as int)[j]@
                            == before[moved].text();
                    assert(upto[j]@ == set@[k].text());
                }
            }
        }
        i += 1;
    }
    assert(ids@.take(ids@.len() as int) =~= ids@);
    Ok(set)
}

proof fn insertion_adds_one<T>(before: Seq<T>, after: Seq<T>, item: T, at: int)
    requires
        0 <= at <= before.len(),
        after == before.insert(at, item),
    ensures
        forall|x: T| #[trigger] after.contains(x) <==> before.contains(x) || x == item,
{
    assert forall|x: T| #[trigger] after.contains(x) <==> before.contains(x) || x == item by {
        if before.contains(x) {
            let k = choose|k: int| 0 <= k < before.len() && before[k] == x;
            let moved = if k < at { k } else { k + 1 };
            assert(after[moved] == x);
        }
        if x == item {
            assert(after[at] == x);
        }
        if after.contains(x) && x != item {
            let k = choose|k: int| 0 <= k < after.len() && after[k] == x;
            let moved = if k < at { k } else { k - 1 };
            assert(before[moved] == x);
        }
    }
}

/// Whether a purpose is authored in a list.
pub open spec fn has_purpose(list: Seq<xml::PurposeCapability>, value: canonical::Purpose) -> bool {
    exists|i: int| 0 <= i < list.len() && #[trigger] list[i].value == value
}

/// Whether a set holds the authored purposes and no others, in ascending order.
pub open spec fn purposes_map(list: Seq<xml::PurposeCapability>, set: SortedSet<canonical::Purpose>) -> bool {
    &&& set.wf()
    &&& forall|value: canonical::Purpose| #[trigger] set@.contains(value) <==> has_purpose(list, value)
}

/// Collects the authored purposes; a repeated one counts once.
fn purposes(list: &Vec<xml::PurposeCapability>) -> (r: SortedSet<canonical::Purpose>)
    ensures
        purposes_map(list@, r),
{
    let mut set: SortedSet<canonical::Purpose> = SortedSet::new();
    let mut i: usize = 0;
    while i < list.len()
        invariant
            i <= list@.len(),
            purposes_map(list@.take(i as int), set),
        decreases list@.len() - i,
    {
        let item = list[i].value;
        let ghost before = set;
        let added = set.insert(item);
        proof {
            if added {
                let at = choose|at: int|
                    0 <= at <= before@.len() && #[trigger] before@.insert(at, item) == set@;
                insertion_adds_one(before@, set@, item, at);
            } else {
                let k = choose|k: int|
                    0 <= k < before@.len() && #[trigger] before@[k].rank() == item.rank();
                assert(before@[k].rank()[0] == item.rank()[0]);
                assert(before@[k] == item);
            }
            let upto = list@.take(i + 1);
            let part = list@.take(i as int);
            assert forall|value: canonical::Purpose| #[trigger] set@.contains(value) <==> has_purpose(upto, value) by {
                if has_purpose(part, value) {
                    let j = choose|j: int| 0 <= j < part.len() && #[trigger] part[j].value == value;
                    assert(upto[j].value == value);
                }
                if value == item {
                    assert(upto[i as int].value == value);
                }
                if has_purpose(upto, value) && value != item {
                    let j = choose|j: int| 0 <= j < upto.len() && #[trigger] upto[j].value == value;
                    assert(part[j].value == value);
                }
            }
        }
        i += 1;
    }
    assert(list@.take(list@.len() as int) =~= list@);
    set
}

/// Whether a carrier is authored in a list.
pub open spec fn has_carrier(list: Seq<xml::CarrierCapability>, value: canonical::Carrier) -> bool {
    exists|i: int| 0 <= i < list.len() && #[trigger] list[i].value == value
}

/// Whether a set holds the authored carriers and no others, in ascending order.
pub open spec fn carriers_map(list: Seq<xml::CarrierCapability>, set: SortedSet<canonical::Carrier>) -> bool {
    &&& set.wf()
    &&& forall|value: canonical::Carrier| #[trigger] set@.contains(value) <==> has_carrier(list, value)
}

/// Collects the authored carriers; a repeated one counts once.
fn carriers(list: &Vec<xml::CarrierCapability>) -> (r: SortedSet<canonical::Carrier>)
    ensures
        carriers_map(list@, r),
{
    let mut set: SortedSet<canonical::Carrier> = SortedSet::new();
    let mut i: usize = 0;
    while i < list.len()
        invariant
            i <= list@.len(),
            carriers_map(list@.take(i as int), set),
        decreases list@.len() - i,
    {
        let item = list[i].value;
        let ghost before = set;
        let added = set.insert(item);
        proof {
            if added {
                let at = choose|at: int|
                    0 <= at <= before@.len() && #[trigger] before@.insert(at, item) == set@;
                insertion_adds_one(before@, set@, item, at);
            } else {
                let k = choose|k: int|
                    0 <= k < before@.len() && #[trigger] before@[k].rank() == item.rank();
                assert(before@[k].rank()[0] == item.rank()[0]);
                assert(before@[k] == item);
            }
            let upto = list@.take(i + 1);
            let part = list@.take(i as int);
            assert forall|value: canonical::Carrier| #[trigger] set@.contains(value) <==> has_carrier(upto, value) by {
                if has_carrier(part, value) {
                    let j = choose|j: int| 0 <= j < part.len() && #[trigger] part[j].value == value;
                    assert(upto[j].value == value);
                }
                if value == item {
                    assert(upto[i as int].value == value);
                }
                if has_carrier(upto, value) && value != item {
                    let j = choose|j: int| 0 <= j < upto.len() && #[trigger] upto[j].value == value;
                    assert(part[j].value == value);
                }
            }
        }
        i += 1;
    }
    assert(list@.take(list@.len() as int) =~= list@);
    set
}

/// The identifier texts of a list of profiles.
pub open spec fn capability_profile_ids_of(list: Seq<xml::ProfileCapability>) -> Seq<String> {
    list.map_values(|p: xml::ProfileCapability| p.id)
}

/// The identifier texts of a list of profiles.
fn capability_profile_ids(list: &Vec<xml::ProfileCapability>) -> (r: Vec<String>)
    ensures
        r@ == capability_profile_ids_of(list@),
{
    let mut out: Vec<String> = Vec::new();
    let mut i: usize = 0;
    while i < list.len()
        invariant
            i <= list@.len(),
            out@ == capability_profile_ids_of(list@).take(i as int),
        decreases list@.len() - i,
    {
        out.push(list[i].id.clone());
        i += 1;
        assert(out@ =~= capability_profile_ids_of(list@).take(i as int));
    }
    assert(capability_profile_ids_of(list@).take(list@.len() as int) =~= capability_profile_ids_of(list@));
    out
}

/// The identifier texts of a list of profiles.
pub open spec fn selected_profile_ids_of(list: Seq<xml::SelectedProfile>) -> Seq<String> {
    list.map_values(|p: xml::SelectedProfile| p.id)
}

/// The identifier texts of a list of profiles.
fn selected_profile_ids(list: &Vec<xml::SelectedProfile>) -> (r: Vec<String>)
    ensures
        r@ == selected_profile_ids_of(list@),
{
    let mut out: Vec<String> = Vec::new();
    let mut i: usize = 0;
    while i < list.len()
        invariant
            i <= list@.len(),
            out@ == selected_profile_ids_of(list@).take(i as int),
        decreases list@.len() - i,
    {
        out.push(list[i].id.clone());
        i += 1;
        assert(out@ =~= selected_profile_ids_of(list@).take(i as int));
    }
    assert(selected_profile_ids_of(list@).take(list@.len() as int) =~= selected_profile_ids_of(list@));
    out
}

/// The failure of the authored capabilities of the element at `path`.
pub open spec fn capabilities_due(value: Option<xml::Capabilities>, path: Seq<char>) -> Option<
    Failure,
> {
    match value {
        None => None,
        Some(value) => faults::first_failure(
            value.profile@.len(),
            profiles_due(
                capability_profile_ids_of(value.profile@),
                path,
                "capabilities/profile"@,
            ),
        ),
    }
}

/// Whether the canonical capabilities carry the authored ones; none authored is none at all.
pub open spec fn capabilities_map(
    value: Option<xml::Capabilities>,
    mapped: canonical::Capabilities,
) -> bool {
    match value {
        None => {
            &&& mapped.purposes@.len() == 0
            &&& mapped.carriers@.len() == 0
            &&& mapped.profiles@.len() == 0
            &&& mapped.limits == canonical::CapabilityLimits::no_limits()
        },
        Some(value) => {
            &&& purposes_map(value.purpose@, mapped.purposes)
            &&& carriers_map(value.carrier@, mapped.carriers)
            &&& profiles_map(capability_profile_ids_of(value.profile@), mapped.profiles)
            &&& mapped.limits == (canonical::CapabilityLimits {
                rate: quantity_range_of(value.rate),
                voltage: quantity_range_of(value.voltage),
                current: quantity_range_of(value.current),
                power: quantity_range_of(value.power),
                impedance: quantity_range_of(value.impedance),
                frequency: quantity_range_of(value.frequency),
                bandwidth: quantity_range_of(value.bandwidth),
                pressure: quantity_range_of(value.pressure),
                flow: quantity_range_of(value.flow),
                temperature: quantity_range_of(value.temperature),
            })
        },
    }
}

/// Converts the capabilities of the element at `path`.
pub(crate) fn capabilities(value: &Option<xml::Capabilities>, path: &str) -> (r: Converted<
    canonical::Capabilities,
>)
    ensures
        conversion::outcome(
            r,
            capabilities_due(*value, path@),
            |y: canonical::Capabilities| capabilities_map(*value, y),
        ),
{
    let value = match value {
        None => {
            return Ok(canonical::Capabilities::default());
        },
        Some(value) => value,
    };
    let ids = capability_profile_ids(&value.profile);
    let profiles = qualified_set(&ids, path, "capabilities/profile")?;
    Ok(
        canonical::Capabilities {
            purposes: purposes(&value.purpose),
            carriers: carriers(&value.carrier),
            profiles,
            limits: canonical::CapabilityLimits {
                rate: quantity_range(&value.rate),
                voltage: quantity_range(&value.voltage),
                current: quantity_range(&value.current),
                power: quantity_range(&value.power),
                impedance: quantity_range(&value.impedance),
                frequency: quantity_range(&value.frequency),
                bandwidth: quantity_range(&value.bandwidth),
                pressure: quantity_range(&value.pressure),
                flow: quantity_range(&value.flow),
                temperature: quantity_range(&value.temperature),
            },
        },
    )
}

/// The failure of the authored selection of the network at `path`.
pub open spec fn network_selection_due(value: xml::NetworkSelection, path: Seq<char>) -> Option<
    Failure,
> {
    faults::first_failure(
        value.profile@.len(),
        profiles_due(selected_profile_ids_of(value.profile@), path, "selected/profile"@),
    )
}

/// Whether the canonical selection carries the authored one.
pub open spec fn network_selection_maps(
    value: xml::NetworkSelection,
    mapped: canonical::NetworkSelection,
) -> bool {
    &&& mapped.purpose == value.purpose
    &&& mapped.carrier == value.carrier
    &&& profiles_map(selected_profile_ids_of(value.profile@), mapped.profiles)
    &&& mapped.rate == optional_selection_of(value.rate)
    &&& mapped.voltage == optional_selection_of(value.voltage)
    &&& mapped.current == optional_selection_of(value.current)
    &&& mapped.power == optional_selection_of(value.power)
    &&& mapped.impedance == optional_selection_of(value.impedance)
    &&& mapped.frequency == optional_selection_of(value.frequency)
    &&& mapped.pressure == optional_selection_of(value.pressure)
    &&& mapped.flow == optional_selection_of(value.flow)
    &&& mapped.temperature == optional_selection_of(value.temperature)
    &&& mapped.rf == match value.rf {
        Some(rf) => Some(rf_selection_of(rf)),
        None => None,
    }
}

/// Converts the selection of the network at `path`.
pub(crate) fn network_selection(value: &xml::NetworkSelection, path: &str) -> (r: Converted<
    canonical::NetworkSelection,
>)
    ensures
        conversion::outcome(
            r,
            network_selection_due(*value, path@),
            |y: canonical::NetworkSelection| network_selection_maps(*value, y),
        ),
{
    let ids = selected_profile_ids(&value.profile);
    let profiles = qualified_set(&ids, path, "selected/profile")?;
    let rf = match &value.rf {
        Some(rf) => Some(rf_selection(rf)),
        None => None,
    };
    Ok(
        canonical::NetworkSelection {
            purpose: value.purpose,
            carrier: value.carrier,
            profiles,
            rf,
            rate: optional_selection(&value.rate),
            voltage: optional_selection(&value.voltage),
            current: optional_selection(&value.current),
            power: optional_selection(&value.power),
            impedance: optional_selection(&value.impedance),
            frequency: optional_selection(&value.frequency),
            pressure: optional_selection(&value.pressure),
            flow: optional_selection(&value.flow),
            temperature: optional_selection(&value.temperature),
        },
    )
}

} // verus!
