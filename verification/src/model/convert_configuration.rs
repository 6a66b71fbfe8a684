//! Conversion of network configurations: clocks, traffic classes, gate schedules and link security.
use std::collections::BTreeSet;
use vstd::prelude::*;
use crate::faults;
use super::connectivity as canonical;
use super::connectivity_xml as xml;
use super::conversion;
use super::conversion::{ConnectivityConversionError, Converted, Failure};
use super::convert_refs;
use crate::order::{Ranked, SortedSet};
use crate::text;

verus! {

/// The failure of an authored clock.
pub open spec fn clock_due(value: xml::GptpClock, path: Seq<char>, index: int) -> Option<Failure> {
    let inner = conversion::named_path(path, "clock"@, value.name@);
    convert_refs::scope_due(value.participant.instance, conversion::part_path(inner, "participant-ref"@))
}

/// Whether the canonical clock carries the authored one.
pub open spec fn clock_maps(value: xml::GptpClock, mapped: canonical::GptpClock) -> bool {
    &&& mapped.name == value.name
    &&& convert_refs::participant_ref_maps(value.participant, mapped.participant)
    &&& mapped.kind == value.kind
    &&& mapped.gm_capable == value.gm_capable
    &&& mapped.priority1 == value.priority1
    &&& mapped.priority2 == value.priority2
    &&& mapped.clock_class == value.clock_class
    &&& mapped.clock_accuracy == value.clock_accuracy
}

/// Converts a clock.
fn clock(value: &xml::GptpClock, path: &str, index: usize) -> (r: Converted<canonical::GptpClock>)
    ensures
        conversion::outcome(
            r,
            clock_due(*value, path@, index as int),
            |y: canonical::GptpClock| clock_maps(*value, y),
        ),
{
    let inner = conversion::named(path, "clock", value.name.as_str());
    let participant = convert_refs::participant_ref(
        &value.participant,
        conversion::part(inner.as_str(), "participant-ref").as_str(),
    )?;
    Ok(
        canonical::GptpClock {
            name: value.name.clone(),
            participant,
            kind: value.kind,
            gm_capable: value.gm_capable,
            priority1: value.priority1,
            priority2: value.priority2,
            clock_class: value.clock_class,
            clock_accuracy: value.clock_accuracy,
        },
    )
}

/// The failure of the clock at a place of a list.
pub open spec fn clocks_due(list: Seq<xml::GptpClock>, path: Seq<char>) -> spec_fn(int) -> Option<Failure> {
    |i: int| clock_due(list[i], path, i)
}

/// Whether a list of canonical items carries a list of authored ones.
pub open spec fn clocks_map(list: Seq<xml::GptpClock>, mapped: Seq<canonical::GptpClock>) -> bool {
    conversion::each_maps(list, mapped, |a: xml::GptpClock, b: canonical::GptpClock| clock_maps(a, b))
}

/// Converts a list of items, each a clock.
fn clocks(list: &Vec<xml::GptpClock>, path: &str) -> (r: Converted<Vec<canonical::GptpClock>>)
    ensures
        conversion::outcome(
            r,
            faults::first_failure(list@.len(), clocks_due(list@, path@)),
            |y: Vec<canonical::GptpClock>| clocks_map(list@, y@),
        ),
{
    conversion::convert_list(
        list,
        |value: &xml::GptpClock, index: usize| -> (r: Converted<canonical::GptpClock>)
            ensures
                conversion::outcome(
                    r,
                    clock_due(*value, path@, index as int),
                    |y: canonical::GptpClock| clock_maps(*value, y),
                )
        { clock(value, path, index) },
        Ghost(clocks_due(list@, path@)),
        Ghost(|a: xml::GptpClock, b: canonical::GptpClock| clock_maps(a, b)),
    )
}

/// The canonical form of optional port defaults.
pub open spec fn port_defaults_of(value: Option<xml::GptpPortDefaults>) -> Option<
    canonical::GptpPortDefaults,
> {
    match value {
        None => None,
        Some(value) => Some(
            canonical::GptpPortDefaults {
                log_sync_interval: value.log_sync_interval,
                log_announce_interval: value.log_announce_interval,
                log_pdelay_req_interval: value.log_pdelay_req_interval,
                announce_receipt_timeout: value.announce_receipt_timeout,
                neighbor_prop_delay_threshold_ns: value.neighbor_prop_delay_threshold_ns,
            },
        ),
    }
}

fn port_defaults(value: &Option<xml::GptpPortDefaults>) -> (r: Option<canonical::GptpPortDefaults>)
    ensures
        r == port_defaults_of(*value),
{
    match value {
        None => None,
        Some(value) => Some(
            canonical::GptpPortDefaults {
                log_sync_interval: value.log_sync_interval,
                log_announce_interval: value.log_announce_interval,
                log_pdelay_req_interval: value.log_pdelay_req_interval,
                announce_receipt_timeout: value.announce_receipt_timeout,
                neighbor_prop_delay_threshold_ns: value.neighbor_prop_delay_threshold_ns,
            },
        ),
    }
}

/// The failure of an authored clock domain.
pub open spec fn gptp_domain_due(value: xml::GptpDomain, path: Seq<char>, index: int) -> Option<Failure> {
    let inner = conversion::named_path(path, "configuration/gptp-domain"@, value.name@);
    faults::first_failure(value.clock@.len(), clocks_due(value.clock@, inner))
}

/// Whether the canonical clock domain carries the authored one.
pub open spec fn gptp_domain_maps(value: xml::GptpDomain, mapped: canonical::GptpDomain) -> bool {
    &&& mapped.name == value.name
    &&& mapped.number == value.number
    &&& mapped.port_defaults == port_defaults_of(value.port_defaults)
    &&& clocks_map(value.clock@, mapped.clocks@)
}

/// Converts a clock domain.
fn gptp_domain(value: &xml::GptpDomain, path: &str, index: usize) -> (r: Converted<canonical::GptpDomain>)
    ensures
        conversion::outcome(
            r,
            gptp_domain_due(*value, path@, index as int),
            |y: canonical::GptpDomain| gptp_domain_maps(*value, y),
        ),
{
    let inner = conversion::named(path, "configuration/gptp-domain", value.name.as_str());
    let clocks = clocks(&value.clock, inner.as_str())?;
    Ok(
        canonical::GptpDomain {
            name: value.name.clone(),
            number: value.number,
            port_defaults: port_defaults(&value.port_defaults),
            clocks,
        },
    )
}

/// The failure of the clock domain at a place of a list.
pub open spec fn gptp_domains_due(list: Seq<xml::GptpDomain>, path: Seq<char>) -> spec_fn(int) -> Option<Failure> {
    |i: int| gptp_domain_due(list[i], path, i)
}

/// Whether a list of canonical items carries a list of authored ones.
pub open spec fn gptp_domains_map(list: Seq<xml::GptpDomain>, mapped: Seq<canonical::GptpDomain>) -> bool {
    conversion::each_maps(list, mapped, |a: xml::GptpDomain, b: canonical::GptpDomain| gptp_domain_maps(a, b))
}

/// Converts a list of items, each a clock domain.
fn gptp_domains(list: &Vec<xml::GptpDomain>, path: &str) -> (r: Converted<Vec<canonical::GptpDomain>>)
    ensures
        conversion::outcome(
            r,
            faults::first_failure(list@.len(), gptp_domains_due(list@, path@)),
            |y: Vec<canonical::GptpDomain>| gptp_domains_map(list@, y@),
        ),
{
    conversion::convert_list(
        list,
        |value: &xml::GptpDomain, index: usize| -> (r: Converted<canonical::GptpDomain>)
            ensures
                conversion::outcome(
                    r,
                    gptp_domain_due(*value, path@, index as int),
                    |y: canonical::GptpDomain| gptp_domain_maps(*value, y),
                )
        { gptp_domain(value, path, index) },
        Ghost(gptp_domains_due(list@, path@)),
        Ghost(|a: xml::GptpDomain, b: canonical::GptpDomain| gptp_domain_maps(a, b)),
    )
}

/// The failure of the priority code point at a place: listed before.
pub open spec fn pcp_due(list: Seq<xml::PcpValue>, path: Seq<char>) -> spec_fn(int) -> Option<
    Failure,
> {
    |i: int|
        if exists|j: int| 0 <= j < i && #[trigger] list[j].value == list[i].value {
            Some(
                conversion::failure(
                    "E_CONN_DUPLICATE_PCP"@,
                    conversion::indexed_path(path, "pcp"@, i),
                    "duplicate PCP "@ + text::decimal(list[i].value as nat),
                ),
            )
        } else {
            None
        }
}

/// The priority code points of a list, in its order.
pub open spec fn pcp_values(list: Seq<xml::PcpValue>) -> Seq<u8> {
    list.map_values(|item: xml::PcpValue| item.value)
}

/// Whether a set holds the authored code points and no others, one for each item of the list.
pub open spec fn pcp_map(list: Seq<xml::PcpValue>, set: BTreeSet<u8>) -> bool {
    &&& set@ == pcp_values(list).to_set()
    &&& set@.len() == list.len()
}

/// Collects the priority code points of a traffic class, each of which may be listed once.
fn pcp_set(list: &Vec<xml::PcpValue>, path: &str) -> (r: Converted<BTreeSet<u8>>)
    ensures
        conversion::outcome(
            r,
            faults::first_failure(list@.len(), pcp_due(list@, path@)),
            |y: BTreeSet<u8>| pcp_map(list@, y),
        ),
{
    let ghost due = pcp_due(list@, path@);
    let ghost codes = pcp_values(list@);
    let mut set: BTreeSet<u8> = BTreeSet::new();
    let mut i: usize = 0;
    assert(set@ =~= codes.take(0).to_set());
    while i < list.len()
        invariant
            i <= list@.len(),
            due == pcp_due(list@, path@),
            codes == pcp_values(list@),
            faults::first_failure(i as nat, due) is None,
            set@ == codes.take(i as int).to_set(),
            set@.finite(),
            set@.len() == i,
        decreases list@.len() - i,
    {
        let item = list[i].value;
        proof {
            let part = codes.take(i as int);
            if set@.contains(item) {
                let j = choose|j: int| 0 <= j < part.len() && part[j] == item;
                assert(list@[j].value == item);
            }
            if exists|j: int| 0 <= j < i && #[trigger] list@[j].value == item {
                let j = choose|j: int| 0 <= j < i && #[trigger] list@[j].value == item;
                assert(part[j] == item);
            }
            assert(codes.take(i + 1) =~= part.push(item));
            assert(codes.take(i + 1).to_set() =~= part.to_set().insert(item)) by {
                assert forall|value: u8| codes.take(i + 1).contains(value) == (part.contains(value)
                    || value == item) by {
                    if part.contains(value) {
                        let j = choose|j: int| 0 <= j < part.len() && part[j] == value;
                        assert(codes.take(i + 1)[j] == value);
                    }
                    assert(codes.take(i + 1)[i as int] == item);
                }
            }
        }
        if !set.insert(item) {
            let mut reason: String = "duplicate PCP ".to_owned();
            reason.append(text::decimal_text(item as u64).as_str());
            proof {
                faults::first_failure_stays((i + 1) as nat, list@.len(), due);
            }
            return Err(
                ConnectivityConversionError::coded(
                    "E_CONN_DUPLICATE_PCP",
                    conversion::indexed(path, "pcp", i).as_str(),
                    reason.as_str(),
                ),
            );
        }
        i += 1;
    }
    assert(codes.take(codes.len() as int) =~= codes);
    Ok(set)
}

/// The failure of an authored traffic class.
pub open spec fn traffic_class_due(value: xml::TrafficClass, path: Seq<char>, index: int) -> Option<Failure> {
    let inner = conversion::named_path(path, "configuration/traffic-class"@, value.name@);
    faults::first_failure(value.pcp@.len(), pcp_due(value.pcp@, inner))
}

/// Whether the canonical traffic class carries the authored one.
pub open spec fn traffic_class_maps(value: xml::TrafficClass, mapped: canonical::TrafficClass) -> bool {
    &&& mapped.name == value.name
    &&& mapped.number == value.number
    &&& mapped.description == value.description
    &&& mapped.preemption == value.preemption
    &&& pcp_map(value.pcp@, mapped.pcp)
}

/// Converts a traffic class.
fn traffic_class(value: &xml::TrafficClass, path: &str, index: usize) -> (r: Converted<canonical::TrafficClass>)
    ensures
        conversion::outcome(
            r,
            traffic_class_due(*value, path@, index as int),
            |y: canonical::TrafficClass| traffic_class_maps(*value, y),
        ),
{
    let inner = conversion::named(path, "configuration/traffic-class", value.name.as_str());
    let pcp = pcp_set(&value.pcp, inner.as_str())?;
    Ok(
        canonical::TrafficClass {
            name: value.name.clone(),
            number: value.number,
            description: text::clone_option(&value.description),
            preemption: value.preemption,
            pcp,
        },
    )
}

/// The failure of the traffic class at a place of a list.
pub open spec fn traffic_classes_due(list: Seq<xml::TrafficClass>, path: Seq<char>) -> spec_fn(int) -> Option<Failure> {
    |i: int| traffic_class_due(list[i], path, i)
}

/// Whether a list of canonical items carries a list of authored ones.
pub open spec fn traffic_classes_map(list: Seq<xml::TrafficClass>, mapped: Seq<canonical::TrafficClass>) -> bool {
    conversion::each_maps(list, mapped, |a: xml::TrafficClass, b: canonical::TrafficClass| traffic_class_maps(a, b))
}

/// Converts a list of items, each a traffic class.
fn traffic_classes(list: &Vec<xml::TrafficClass>, path: &str) -> (r: Converted<Vec<canonical::TrafficClass>>)
    ensures
        conversion::outcome(
            r,
            faults::first_failure(list@.len(), traffic_classes_due(list@, path@)),
            |y: Vec<canonical::TrafficClass>| traffic_classes_map(list@, y@),
        ),
{
    conversion::convert_list(
        list,
        |value: &xml::TrafficClass, index: usize| -> (r: Converted<canonical::TrafficClass>)
            ensures
                conversion::outcome(
                    r,
                    traffic_class_due(*value, path@, index as int),
                    |y: canonical::TrafficClass| traffic_class_maps(*value, y),
                )
        { traffic_class(value, path, index) },
        Ghost(traffic_classes_due(list@, path@)),
        Ghost(|a: xml::TrafficClass, b: canonical::TrafficClass| traffic_class_maps(a, b)),
    )
}

/// Whether two authored segments hold the same name and occurrence.
pub open spec fn authored_segments_alike(a: xml::InstanceSegment, b: xml::InstanceSegment) -> bool {
    &&& a.occurrence == b.occurrence
    &&& match (a.name, b.name) {
        (None, None) => true,
        (Some(x), Some(y)) => x@ == y@,
        _ => false,
    }
}

/// Whether two authored instance references are written alike.
pub open spec fn authored_instances_alike(
    a: Option<xml::InstanceRef>,
    b: Option<xml::InstanceRef>,
) -> bool {
    match (a, b) {
        (None, None) => true,
        (Some(x), Some(y)) => {
            &&& x.segment@.len() == y.segment@.len()
            &&& forall|i: int|
                0 <= i < x.segment@.len() ==> authored_segments_alike(
                    #[trigger] x.segment@[i],
                    #[trigger] y.segment@[i],
                )
        },
        _ => false,
    }
}

/// Whether two authored references name the same traffic class.
pub open spec fn authored_classes_alike(a: xml::TrafficClassRef, b: xml::TrafficClassRef) -> bool {
    &&& authored_instances_alike(a.instance, b.instance)
    &&& a.network@ == b.network@
    &&& a.traffic_class@ == b.traffic_class@
}

/// Whether the reference at a place of a list stands earlier in it too.
pub open spec fn repeats_class(list: Seq<xml::TrafficClassRef>, at: int) -> bool {
    exists|j: int| 0 <= j < at && authored_classes_alike(#[trigger] list[j], list[at])
}

/// The failure of the open traffic class at a place of a gate: malformed, or open already.
pub open spec fn open_due(list: Seq<xml::TrafficClassRef>, path: Seq<char>) -> spec_fn(
    int,
) -> Option<Failure> {
    |i: int|
        faults::either(
            convert_refs::scope_due(
                list[i].instance,
                conversion::indexed_path(path, "open/traffic-class-ref"@, i),
            ),
            if repeats_class(list, i) {
                Some(
                    conversion::failure(
                        "E_CONN_DUPLICATE_TRAFFIC_CLASS_REF"@,
                        path,
                        "duplicate open traffic-class reference "@ + text::debug_chars(
                            list[i].traffic_class@,
                        ),
                    ),
                )
            } else {
                None
            },
        )
}

/// Whether some reference of a list carries the authored one.
pub open spec fn carries_class(
    value: xml::TrafficClassRef,
    refs: Seq<canonical::TrafficClassRef>,
) -> bool {
    exists|k: int|
        0 <= k < refs.len() && convert_refs::traffic_class_ref_maps(value, #[trigger] refs[k])
}

/// Whether a reference is carried from some authored one of a list.
pub open spec fn carried_class(
    list: Seq<xml::TrafficClassRef>,
    mapped: canonical::TrafficClassRef,
) -> bool {
    exists|i: int|
        0 <= i < list.len() && convert_refs::traffic_class_ref_maps(#[trigger] list[i], mapped)
}

/// Whether a set holds the authored references and no others, in ascending order.
pub open spec fn open_map(
    list: Seq<xml::TrafficClassRef>,
    set: SortedSet<canonical::TrafficClassRef>,
) -> bool {
    &&& set.wf()
    &&& set@.len() == list.len()
    &&& forall|i: int| 0 <= i < list.len() ==> carries_class(#[trigger] list[i], set@)
    &&& forall|k: int| 0 <= k < set@.len() ==> carried_class(list, #[trigger] set@[k])
}

proof fn alike_through_conversion(
    a: xml::TrafficClassRef,
    x: canonical::TrafficClassRef,
    b: xml::TrafficClassRef,
    y: canonical::TrafficClassRef,
)
    requires
        convert_refs::traffic_class_ref_maps(a, x),
        convert_refs::traffic_class_ref_maps(b, y),
    ensures
        (x.rank() == y.rank()) == authored_classes_alike(a, b),
{
    canonical::traffic_class_rank_is_exact(x, y);
    match (x.network.scope, y.network.scope, a.instance, b.instance) {
        (
            canonical::ReferenceScope::Instance(i),
            canonical::ReferenceScope::Instance(j),
            Some(p),
            Some(q),
        ) => {
            if canonical::instances_alike(i@, j@) {
                assert forall|k: int| 0 <= k < p.segment@.len() implies authored_segments_alike(
                    #[trigger] p.segment@[k],
                    #[trigger] q.segment@[k],
                ) by {
                    assert(convert_refs::segment_maps(p.segment@[k], i@[k]));
                    assert(convert_refs::segment_maps(q.segment@[k], j@[k]));
                    assert(canonical::segments_alike(i@[k], j@[k]));
                }
            }
            if authored_instances_alike(a.instance, b.instance) {
                assert forall|k: int| 0 <= k < i@.len() implies canonical::segments_alike(
                    #[trigger] i@[k],
                    #[trigger] j@[k],
                ) by {
                    assert(convert_refs::segment_maps(p.segment@[k], i@[k]));
                    assert(convert_refs::segment_maps(q.segment@[k], j@[k]));
                    assert(authored_segments_alike(p.segment@[k], q.segment@[k]));
                }
            }
        },
        _ => {},
    }
}

/// A set of the references before a place holds the one at that place where it is repeated.
proof fn held_where_repeated(
    list: Seq<xml::TrafficClassRef>,
    i: int,
    set: SortedSet<canonical::TrafficClassRef>,
    item: canonical::TrafficClassRef,
)
    requires
        0 <= i < list.len(),
        open_map(list.take(i), set),
        convert_refs::traffic_class_ref_maps(list[i], item),
    ensures
        set.has(item.rank()) == repeats_class(list, i),
{
    let part = list.take(i);
    if set.has(item.rank()) {
        let k = choose|k: int| 0 <= k < set@.len() && #[trigger] set@[k].rank() == item.rank();
        assert(carried_class(part, set@[k]));
        let j = choose|j: int|
            0 <= j < part.len() && convert_refs::traffic_class_ref_maps(
                #[trigger] part[j],
                set@[k],
            );
        alike_through_conversion(part[j], set@[k], list[i], item);
        assert(list[j] == part[j]);
        assert(repeats_class(list, i));
    }
    if repeats_class(list, i) {
        let j = choose|j: int| 0 <= j < i && authored_classes_alike(#[trigger] list[j], list[i]);
        assert(part[j] == list[j]);
        assert(carries_class(part[j], set@));
        let k = choose|k: int|
            0 <= k < set@.len() && convert_refs::traffic_class_ref_maps(
                part[j],
                #[trigger] set@[k],
            );
        alike_through_conversion(part[j], set@[k], list[i], item);
        assert(set@[k].rank() == item.rank());
    }
}

/// A set with the reference of one more place holds the references up to that place.
proof fn insertion_keeps_the_carried(
    list: Seq<xml::TrafficClassRef>,
    i: int,
    before: SortedSet<canonical::TrafficClassRef>,
    item: canonical::TrafficClassRef,
    set: SortedSet<canonical::TrafficClassRef>,
)
    requires
        0 <= i < list.len(),
        open_map(list.take(i), before),
        convert_refs::traffic_class_ref_maps(list[i], item),
        set.wf(),
        exists|at: int| 0 <= at <= before@.len() && #[trigger] before@.insert(at, item) == set@,
    ensures
        open_map(list.take(i + 1), set),
{
    let part = list.take(i);
    let upto = list.take(i + 1);
    let at = choose|at: int|
        0 <= at <= before@.len() && #[trigger] before@.insert(at, item) == set@;
    assert(set@[at] == item);
    assert forall|j: int| 0 <= j < upto.len() implies carries_class(#[trigger] upto[j], set@) by {
        if j < i {
            assert(part[j] == upto[j]);
            assert(carries_class(part[j], before@));
            let k = choose|k: int|
                0 <= k < before@.len() && convert_refs::traffic_class_ref_maps(
                    part[j],
                    #[trigger] before@[k],
                );
            let moved = if k < at { k } else { k + 1 };
            assert(set@[moved] == before@[k]);
        } else {
            assert(convert_refs::traffic_class_ref_maps(upto[j], set@[at]));
        }
    }
    assert forall|k: int| 0 <= k < set@.len() implies carried_class(upto, #[trigger] set@[k]) by {
        if k == at {
            assert(convert_refs::traffic_class_ref_maps(upto[i], set@[k]));
        } else {
            let moved = if k < at { k } else { k - 1 };
            assert(before@[moved] == set@[k]);
            assert(carried_class(part, before@[moved]));
            let j = choose|j: int|
                0 <= j < part.len() && convert_refs::traffic_class_ref_maps(
                    #[trigger] part[j],
                    before@[moved],
                );
            assert(upto[j] == part[j]);
        }
    }
}

/// Collects the open traffic classes of a gate, each of which may be listed once.
fn open_set(list: &Vec<xml::TrafficClassRef>, path: &str) -> (r: Converted<
    SortedSet<canonical::TrafficClassRef>,
>)
    ensures
        conversion::outcome(
            r,
            faults::first_failure(list@.len(), open_due(list@, path@)),
            |y: SortedSet<canonical::TrafficClassRef>| open_map(list@, y),
        ),
{
    let ghost due = open_due(list@, path@);
    let mut set: SortedSet<canonical::TrafficClassRef> = SortedSet::new();
    let mut i: usize = 0;
    while i < list.len()
        invariant
            i <= list@.len(),
            due == open_due(list@, path@),
            faults::first_failure(i as nat, due) is None,
            open_map(list@.take(i as int), set),
        decreases list@.len() - i,
    {
        let ghost before = set;
        let inner = conversion::indexed(path, "open/traffic-class-ref", i);
        let item = match convert_refs::traffic_class_ref(&list[i], inner.as_str()) {
            Ok(item) => item,
            Err(e) => {
                proof {
                    faults::first_failure_stays((i + 1) as nat, list@.len(), due);
                }
                return Err(e);
            },
        };
        let ghost mapped = item;
        proof {
            held_where_repeated(list@, i as int, set, item);
        }
        if !set.insert(item) {
            let mut reason: String = "duplicate open traffic-class reference ".to_owned();
            reason.append(text::debug_text(list[i].traffic_class.as_str()).as_str());
            proof {
                faults::first_failure_stays((i + 1) as nat, list@.len(), due);
            }
            return Err(
                ConnectivityConversionError::coded(
                    "E_CONN_DUPLICATE_TRAFFIC_CLASS_REF",
                    path,
                    reason.as_str(),
                ),
            );
        }
        proof {
            insertion_keeps_the_carried(list@, i as int, before, mapped, set);
        }
        i += 1;
    }
    assert(list@.take(list@.len() as int) =~= list@);
    Ok(set)
}

/// The failure of an authored gate entry.
pub open spec fn gate_due(value: xml::GateControlEntry, path: Seq<char>, index: int) -> Option<Failure> {
    let inner = conversion::indexed_path(path, "gate"@, index);
    faults::first_failure(
        value.open.traffic_class@.len(),
        open_due(value.open.traffic_class@, inner),
    )
}

/// Whether the canonical gate entry carries the authored one.
pub open spec fn gate_maps(value: xml::GateControlEntry, mapped: canonical::GateControlEntry) -> bool {
    &&& mapped.duration_ns == value.duration_ns
    &&& open_map(value.open.traffic_class@, mapped.open)
}

/// Converts a gate entry.
fn gate(value: &xml::GateControlEntry, path: &str, index: usize) -> (r: Converted<canonical::GateControlEntry>)
    ensures
        conversion::outcome(
            r,
            gate_due(*value, path@, index as int),
            |y: canonical::GateControlEntry| gate_maps(*value, y),
        ),
{
    let inner = conversion::indexed(path, "gate", index);
    let open = open_set(&value.open.traffic_class, inner.as_str())?;
    Ok(canonical::GateControlEntry { duration_ns: value.duration_ns, open })
}

/// The failure at a place of a list of gate entries.
pub open spec fn gates_due(list: Seq<xml::GateControlEntry>, path: Seq<char>) -> spec_fn(int) -> Option<Failure> {
    |i: int| gate_due(list[i], path, i)
}

/// Whether a list of canonical items carries a list of authored ones.
pub open spec fn gates_map(list: Seq<xml::GateControlEntry>, mapped: Seq<canonical::GateControlEntry>) -> bool {
    conversion::each_maps(list, mapped, |a: xml::GateControlEntry, b: canonical::GateControlEntry| gate_maps(a, b))
}

/// Converts a list of items, each a gate entry.
fn gates(list: &Vec<xml::GateControlEntry>, path: &str) -> (r: Converted<Vec<canonical::GateControlEntry>>)
    ensures
        conversion::outcome(
            r,
            faults::first_failure(list@.len(), gates_due(list@, path@)),
            |y: Vec<canonical::GateControlEntry>| gates_map(list@, y@),
        ),
{
    conversion::convert_list(
        list,
        |value: &xml::GateControlEntry, index: usize| -> (r: Converted<canonical::GateControlEntry>)
            ensures
                conversion::outcome(
                    r,
                    gate_due(*value, path@, index as int),
                    |y: canonical::GateControlEntry| gate_maps(*value, y),
                )
        { gate(value, path, index) },
        Ghost(gates_due(list@, path@)),
        Ghost(|a: xml::GateControlEntry, b: canonical::GateControlEntry| gate_maps(a, b)),
    )
}

/// The failure of an authored gate schedule.
pub open spec fn gate_schedule_due(value: xml::GateSchedule, path: Seq<char>, index: int) -> Option<Failure> {
    let inner = conversion::named_path(path, "configuration/gate-schedule"@, value.name@);
    faults::first_failure(value.gate@.len(), gates_due(value.gate@, inner))
}

/// Whether the canonical gate schedule carries the authored one.
pub open spec fn gate_schedule_maps(value: xml::GateSchedule, mapped: canonical::GateSchedule) -> bool {
    &&& mapped.name == value.name
    &&& mapped.cycle_time_ns == value.cycle_time_ns
    &&& gates_map(value.gate@, mapped.entries@)
}

/// Converts a gate schedule.
fn gate_schedule(value: &xml::GateSchedule, path: &str, index: usize) -> (r: Converted<canonical::GateSchedule>)
    ensures
        conversion::outcome(
            r,
            gate_schedule_due(*value, path@, index as int),
            |y: canonical::GateSchedule| gate_schedule_maps(*value, y),
        ),
{
    let inner = conversion::named(path, "configuration/gate-schedule", value.name.as_str());
    let entries = gates(&value.gate, inner.as_str())?;
    Ok(
        canonical::GateSchedule {
            name: value.name.clone(),
            cycle_time_ns: value.cycle_time_ns,
            entries,
        },
    )
}

/// The failure at a place of a list of gate schedules.
pub open spec fn gate_schedules_due(list: Seq<xml::GateSchedule>, path: Seq<char>) -> spec_fn(int) -> Option<Failure> {
    |i: int| gate_schedule_due(list[i], path, i)
}

/// Whether a list of canonical items carries a list of authored ones.
pub open spec fn gate_schedules_map(list: Seq<xml::GateSchedule>, mapped: Seq<canonical::GateSchedule>) -> bool {
    conversion::each_maps(list, mapped, |a: xml::GateSchedule, b: canonical::GateSchedule| gate_schedule_maps(a, b))
}

/// Converts a list of items, each a gate schedule.
fn gate_schedules(list: &Vec<xml::GateSchedule>, path: &str) -> (r: Converted<Vec<canonical::GateSchedule>>)
    ensures
        conversion::outcome(
            r,
            faults::first_failure(list@.len(), gate_schedules_due(list@, path@)),
            |y: Vec<canonical::GateSchedule>| gate_schedules_map(list@, y@),
        ),
{
    conversion::convert_list(
        list,
        |value: &xml::GateSchedule, index: usize| -> (r: Converted<canonical::GateSchedule>)
            ensures
                conversion::outcome(
                    r,
                    gate_schedule_due(*value, path@, index as int),
                    |y: canonical::GateSchedule| gate_schedule_maps(*value, y),
                )
        { gate_schedule(value, path, index) },
        Ghost(gate_schedules_due(list@, path@)),
        Ghost(|a: xml::GateSchedule, b: canonical::GateSchedule| gate_schedule_maps(a, b)),
    )
}

/// The failure of an authored schedule target.
pub open spec fn target_due(value: xml::ScheduleTarget, path: Seq<char>, index: int) -> Option<Failure> {
    let inner = conversion::indexed_path(path, "target"@, index);
    convert_refs::scope_due(value.participant.instance, conversion::part_path(inner, "participant-ref"@))
}

/// Whether the canonical schedule target carries the authored one.
pub open spec fn target_maps(value: xml::ScheduleTarget, mapped: canonical::ParticipantRef) -> bool {
    &&& convert_refs::participant_ref_maps(value.participant, mapped)
}

/// Converts a schedule target.
fn target(value: &xml::ScheduleTarget, path: &str, index: usize) -> (r: Converted<canonical::ParticipantRef>)
    ensures
        conversion::outcome(
            r,
            target_due(*value, path@, index as int),
            |y: canonical::ParticipantRef| target_maps(*value, y),
        ),
{
    let inner = conversion::indexed(path, "target", index);
    convert_refs::participant_ref(
        &value.participant,
        conversion::part(inner.as_str(), "participant-ref").as_str(),
    )
}

/// The failure of the schedule target at a place of a list.
pub open spec fn targets_due(list: Seq<xml::ScheduleTarget>, path: Seq<char>) -> spec_fn(int) -> Option<Failure> {
    |i: int| target_due(list[i], path, i)
}

/// Whether a list of canonical items carries a list of authored ones.
pub open spec fn targets_map(list: Seq<xml::ScheduleTarget>, mapped: Seq<canonical::ParticipantRef>) -> bool {
    conversion::each_maps(list, mapped, |a: xml::ScheduleTarget, b: canonical::ParticipantRef| target_maps(a, b))
}

/// Converts a list of items, each a schedule target.
fn targets(list: &Vec<xml::ScheduleTarget>, path: &str) -> (r: Converted<Vec<canonical::ParticipantRef>>)
    ensures
        conversion::outcome(
            r,
            faults::first_failure(list@.len(), targets_due(list@, path@)),
            |y: Vec<canonical::ParticipantRef>| targets_map(list@, y@),
        ),
{
    conversion::convert_list(
        list,
        |value: &xml::ScheduleTarget, index: usize| -> (r: Converted<canonical::ParticipantRef>)
            ensures
                conversion::outcome(
                    r,
                    target_due(*value, path@, index as int),
                    |y: canonical::ParticipantRef| target_maps(*value, y),
                )
        { target(value, path, index) },
        Ghost(targets_due(list@, path@)),
        Ghost(|a: xml::ScheduleTarget, b: canonical::ParticipantRef| target_maps(a, b)),
    )
}

/// The failure of an authored schedule assignment.
pub open spec fn schedule_assignment_due(value: xml::ScheduleAssignment, path: Seq<char>, index: int) -> Option<Failure> {
    let inner = conversion::named_path(path, "configuration/schedule-assignment"@, value.name@);
    faults::either(
        faults::first_failure(value.target@.len(), targets_due(value.target@, inner)),
        convert_refs::scope_due(value.schedule.instance, conversion::part_path(inner, "schedule-ref"@)),
    )
}

/// Whether the canonical schedule assignment carries the authored one.
pub open spec fn schedule_assignment_maps(value: xml::ScheduleAssignment, mapped: canonical::ScheduleAssignment) -> bool {
    &&& mapped.name == value.name
    &&& convert_refs::schedule_ref_maps(value.schedule, mapped.schedule)
    &&& targets_map(value.target@, mapped.targets@)
}

/// Converts a schedule assignment.
fn schedule_assignment(value: &xml::ScheduleAssignment, path: &str, index: usize) -> (r: Converted<canonical::ScheduleAssignment>)
    ensures
        conversion::outcome(
            r,
            schedule_assignment_due(*value, path@, index as int),
            |y: canonical::ScheduleAssignment| schedule_assignment_maps(*value, y),
        ),
{
    let inner = conversion::named(path, "configuration/schedule-assignment", value.name.as_str());
    let targets = targets(&value.target, inner.as_str())?;
    let schedule = convert_refs::schedule_ref(
        &value.schedule,
        conversion::part(inner.as_str(), "schedule-ref").as_str(),
    )?;
    Ok(canonical::ScheduleAssignment { name: value.name.clone(), schedule, targets })
}

/// The failure of the schedule assignment at a place of a list.
pub open spec fn schedule_assignments_due(list: Seq<xml::ScheduleAssignment>, path: Seq<char>) -> spec_fn(int) -> Option<Failure> {
    |i: int| schedule_assignment_due(list[i], path, i)
}

/// Whether a list of canonical items carries a list of authored ones.
pub open spec fn schedule_assignments_map(list: Seq<xml::ScheduleAssignment>, mapped: Seq<canonical::ScheduleAssignment>) -> bool {
    conversion::each_maps(list, mapped, |a: xml::ScheduleAssignment, b: canonical::ScheduleAssignment| schedule_assignment_maps(a, b))
}

/// Converts a list of items, each a schedule assignment.
fn schedule_assignments(list: &Vec<xml::ScheduleAssignment>, path: &str) -> (r: Converted<Vec<canonical::ScheduleAssignment>>)
    ensures
        conversion::outcome(
            r,
            faults::first_failure(list@.len(), schedule_assignments_due(list@, path@)),
            |y: Vec<canonical::ScheduleAssignment>| schedule_assignments_map(list@, y@),
        ),
{
    conversion::convert_list(
        list,
        |value: &xml::ScheduleAssignment, index: usize| -> (r: Converted<canonical::ScheduleAssignment>)
            ensures
                conversion::outcome(
                    r,
                    schedule_assignment_due(*value, path@, index as int),
                    |y: canonical::ScheduleAssignment| schedule_assignment_maps(*value, y),
                )
        { schedule_assignment(value, path, index) },
        Ghost(schedule_assignments_due(list@, path@)),
        Ghost(|a: xml::ScheduleAssignment, b: canonical::ScheduleAssignment| schedule_assignment_maps(a, b)),
    )
}

/// The failure of an authored collision-avoidance node.
pub open spec fn plca_node_due(value: xml::PlcaNode, path: Seq<char>, index: int) -> Option<Failure> {
    let inner = conversion::indexed_path(path, "configuration/plca/node"@, index);
    convert_refs::scope_due(value.participant.instance, conversion::part_path(inner, "participant-ref"@))
}

/// Whether the canonical collision-avoidance node carries the authored one.
pub open spec fn plca_node_maps(value: xml::PlcaNode, mapped: canonical::PlcaNode) -> bool {
    &&& mapped.node_id == value.id
    &&& mapped.burst_count == value.burst_count
    &&& mapped.burst_timer_bit_times == value.burst_timer_bit_times
    &&& convert_refs::participant_ref_maps(value.participant, mapped.participant)
}

/// Converts a collision-avoidance node.
fn plca_node(value: &xml::PlcaNode, path: &str, index: usize) -> (r: Converted<canonical::PlcaNode>)
    ensures
        conversion::outcome(
            r,
            plca_node_due(*value, path@, index as int),
            |y: canonical::PlcaNode| plca_node_maps(*value, y),
        ),
{
    let inner = conversion::indexed(path, "configuration/plca/node", index);
    let participant = convert_refs::participant_ref(
        &value.participant,
        conversion::part(inner.as_str(), "participant-ref").as_str(),
    )?;
    Ok(
        canonical::PlcaNode {
            node_id: value.id,
            burst_count: value.burst_count,
            burst_timer_bit_times: value.burst_timer_bit_times,
            participant,
        },
    )
}

/// The failure of the collision-avoidance node at a place of a list.
pub open spec fn plca_nodes_due(list: Seq<xml::PlcaNode>, path: Seq<char>) -> spec_fn(int) -> Option<Failure> {
    |i: int| plca_node_due(list[i], path, i)
}

/// Whether a list of canonical items carries a list of authored ones.
pub open spec fn plca_nodes_map(list: Seq<xml::PlcaNode>, mapped: Seq<canonical::PlcaNode>) -> bool {
    conversion::each_maps(list, mapped, |a: xml::PlcaNode, b: canonical::PlcaNode| plca_node_maps(a, b))
}

/// Converts a list of items, each a collision-avoidance node.
fn plca_nodes(list: &Vec<xml::PlcaNode>, path: &str) -> (r: Converted<Vec<canonical::PlcaNode>>)
    ensures
        conversion::outcome(
            r,
            faults::first_failure(list@.len(), plca_nodes_due(list@, path@)),
            |y: Vec<canonical::PlcaNode>| plca_nodes_map(list@, y@),
        ),
{
    conversion::convert_list(
        list,
        |value: &xml::PlcaNode, index: usize| -> (r: Converted<canonical::PlcaNode>)
            ensures
                conversion::outcome(
                    r,
                    plca_node_due(*value, path@, index as int),
                    |y: canonical::PlcaNode| plca_node_maps(*value, y),
                )
        { plca_node(value, path, index) },
        Ghost(plca_nodes_due(list@, path@)),
        Ghost(|a: xml::PlcaNode, b: canonical::PlcaNode| plca_node_maps(a, b)),
    )
}

/// The failure of an optional collision-avoidance configuration.
pub open spec fn plca_due(value: Option<xml::PlcaConfiguration>, path: Seq<char>) -> Option<Failure> {
    match value {
        None => None,
        Some(value) => faults::first_failure(value.node@.len(), plca_nodes_due(value.node@, path)),
    }
}

/// Whether the optional canonical collision-avoidance configuration carries the authored one.
pub open spec fn plca_maps(value: Option<xml::PlcaConfiguration>, mapped: Option<canonical::PlcaConfiguration>) -> bool {
    match (value, mapped) {
        (None, None) => true,
        (Some(value), Some(mapped)) => {
            &&& mapped.max_node_id == value.max_node_id
            &&& mapped.to_timer_bit_times == value.to_timer_bit_times
            &&& plca_nodes_map(value.node@, mapped.nodes@)
        },
        _ => false,
    }
}

/// Converts an optional collision-avoidance configuration.
fn plca(value: &Option<xml::PlcaConfiguration>, path: &str) -> (r: Converted<Option<canonical::PlcaConfiguration>>)
    ensures
        conversion::outcome(
            r,
            plca_due(*value, path@),
            |y: Option<canonical::PlcaConfiguration>| plca_maps(*value, y),
        ),
{
    match value {
        None => Ok(None),
        Some(value) => {
            let nodes = plca_nodes(&value.node, path)?;
            Ok(
                Some(
                    canonical::PlcaConfiguration {
                        max_node_id: value.max_node_id,
                        to_timer_bit_times: value.to_timer_bit_times,
                        nodes,
                    },
                ),
            )
        },
    }
}

/// The failure of an authored MACsec policy.
pub open spec fn macsec_policy_due(value: xml::MacsecPolicyDefinition, path: Seq<char>, index: int) -> Option<Failure> {
    let inner = conversion::indexed_path(path, "configuration/macsec/policy"@, index);
    faults::either(
        convert_refs::optional_id_due(value.cipher, inner, "@cipher"@),
        convert_refs::optional_id_due(value.key_agreement, inner, "@key-agreement"@),
    )
}

/// Whether the canonical MACsec policy carries the authored one.
pub open spec fn macsec_policy_maps(value: xml::MacsecPolicyDefinition, mapped: canonical::MacsecPolicyDefinition) -> bool {
    &&& mapped.name == value.name
    &&& mapped.enforcement == value.enforcement
    &&& convert_refs::optional_id_maps(value.cipher, mapped.cipher)
    &&& convert_refs::optional_id_maps(value.key_agreement, mapped.key_agreement)
    &&& mapped.confidentiality_offset == value.confidentiality_offset
    &&& mapped.rekey_interval_ns == value.rekey_interval_ns
    &&& mapped.credential_store_ref == value.credential_store_ref
}

/// Converts a MACsec policy.
fn macsec_policy(value: &xml::MacsecPolicyDefinition, path: &str, index: usize) -> (r: Converted<canonical::MacsecPolicyDefinition>)
    ensures
        conversion::outcome(
            r,
            macsec_policy_due(*value, path@, index as int),
            |y: canonical::MacsecPolicyDefinition| macsec_policy_maps(*value, y),
        ),
{
    let inner = conversion::indexed(path, "configuration/macsec/policy", index);
    let cipher = convert_refs::optional_id(&value.cipher, inner.as_str(), "@cipher")?;
    let key_agreement = convert_refs::optional_id(
        &value.key_agreement,
        inner.as_str(),
        "@key-agreement",
    )?;
    Ok(
        canonical::MacsecPolicyDefinition {
            name: value.name.clone(),
            enforcement: value.enforcement,
            cipher,
            key_agreement,
            confidentiality_offset: value.confidentiality_offset,
            rekey_interval_ns: value.rekey_interval_ns,
            credential_store_ref: text::clone_option(&value.credential_store_ref),
        },
    )
}

/// The failure of the MACsec policy at a place of a list.
pub open spec fn macsec_policies_due(list: Seq<xml::MacsecPolicyDefinition>, path: Seq<char>) -> spec_fn(int) -> Option<Failure> {
    |i: int| macsec_policy_due(list[i], path, i)
}

/// Whether a list of canonical items carries a list of authored ones.
pub open spec fn macsec_policies_map(list: Seq<xml::MacsecPolicyDefinition>, mapped: Seq<canonical::MacsecPolicyDefinition>) -> bool {
    conversion::each_maps(list, mapped, |a: xml::MacsecPolicyDefinition, b: canonical::MacsecPolicyDefinition| macsec_policy_maps(a, b))
}

/// Converts a list of items, each a MACsec policy.
fn macsec_policies(list: &Vec<xml::MacsecPolicyDefinition>, path: &str) -> (r: Converted<Vec<canonical::MacsecPolicyDefinition>>)
    ensures
        conversion::outcome(
            r,
            faults::first_failure(list@.len(), macsec_policies_due(list@, path@)),
            |y: Vec<canonical::MacsecPolicyDefinition>| macsec_policies_map(list@, y@),
        ),
{
    conversion::convert_list(
        list,
        |value: &xml::MacsecPolicyDefinition, index: usize| -> (r: Converted<canonical::MacsecPolicyDefinition>)
            ensures
                conversion::outcome(
                    r,
                    macsec_policy_due(*value, path@, index as int),
                    |y: canonical::MacsecPolicyDefinition| macsec_policy_maps(*value, y),
                )
        { macsec_policy(value, path, index) },
        Ghost(macsec_policies_due(list@, path@)),
        Ghost(|a: xml::MacsecPolicyDefinition, b: canonical::MacsecPolicyDefinition| macsec_policy_maps(a, b)),
    )
}

/// The failure of an authored topology segment under `path`.
pub open spec fn segment_due(value: xml::TopologySegmentRef, path: Seq<char>) -> Option<Failure> {
    match value.segment {
        xml::TopologySegmentChoice::Network(reference) => convert_refs::scope_due(
            reference.instance,
            conversion::part_path(path, "target/network-ref"@),
        ),
        xml::TopologySegmentChoice::Leg(reference) => convert_refs::scope_due(
            reference.instance,
            conversion::part_path(path, "target/leg-ref"@),
        ),
    }
}

/// Whether the canonical segment carries the authored one.
pub open spec fn segment_maps(
    value: xml::TopologySegmentRef,
    mapped: canonical::TopologySegmentRef,
) -> bool {
    match (value.segment, mapped) {
        (
            xml::TopologySegmentChoice::Network(a),
            canonical::TopologySegmentRef::Network(b),
        ) => convert_refs::network_ref_maps(a, b),
        (xml::TopologySegmentChoice::Leg(a), canonical::TopologySegmentRef::Leg(b)) => {
            convert_refs::leg_ref_maps(a, b)
        },
        _ => false,
    }
}

/// Converts a topology segment under `path`.
fn segment(value: &xml::TopologySegmentRef, path: &str) -> (r: Converted<
    canonical::TopologySegmentRef,
>)
    ensures
        conversion::outcome(
            r,
            segment_due(*value, path@),
            |y: canonical::TopologySegmentRef| segment_maps(*value, y),
        ),
{
    match &value.segment {
        xml::TopologySegmentChoice::Network(reference) => {
            let mapped = convert_refs::network_ref(
                reference,
                conversion::part(path, "target/network-ref").as_str(),
            )?;
            Ok(canonical::TopologySegmentRef::Network(mapped))
        },
        xml::TopologySegmentChoice::Leg(reference) => {
            let mapped = convert_refs::leg_ref(
                reference,
                conversion::part(path, "target/leg-ref").as_str(),
            )?;
            Ok(canonical::TopologySegmentRef::Leg(mapped))
        },
    }
}

/// The failure of an authored MACsec override.
pub open spec fn macsec_override_due(value: xml::MacsecOverride, path: Seq<char>, index: int) -> Option<Failure> {
    let inner = conversion::indexed_path(path, "configuration/macsec/override"@, index);
    faults::either(
        segment_due(value.target, inner),
        convert_refs::scope_due(value.policy.instance, conversion::part_path(inner, "macsec-policy-ref"@)),
    )
}

/// Whether the canonical MACsec override carries the authored one.
pub open spec fn macsec_override_maps(value: xml::MacsecOverride, mapped: canonical::MacsecOverride) -> bool {
    &&& segment_maps(value.target, mapped.target)
    &&& convert_refs::macsec_policy_ref_maps(value.policy, mapped.policy)
}

/// Converts a MACsec override.
fn macsec_override(value: &xml::MacsecOverride, path: &str, index: usize) -> (r: Converted<canonical::MacsecOverride>)
    ensures
        conversion::outcome(
            r,
            macsec_override_due(*value, path@, index as int),
            |y: canonical::MacsecOverride| macsec_override_maps(*value, y),
        ),
{
    let inner = conversion::indexed(path, "configuration/macsec/override", index);
    let target = segment(&value.target, inner.as_str())?;
    let policy = convert_refs::macsec_policy_ref(
        &value.policy,
        conversion::part(inner.as_str(), "macsec-policy-ref").as_str(),
    )?;
    Ok(canonical::MacsecOverride { target, policy })
}

/// The failure of the MACsec override at a place of a list.
pub open spec fn macsec_overrides_due(list: Seq<xml::MacsecOverride>, path: Seq<char>) -> spec_fn(int) -> Option<Failure> {
    |i: int| macsec_override_due(list[i], path, i)
}

/// Whether a list of canonical items carries a list of authored ones.
pub open spec fn macsec_overrides_map(list: Seq<xml::MacsecOverride>, mapped: Seq<canonical::MacsecOverride>) -> bool {
    conversion::each_maps(list, mapped, |a: xml::MacsecOverride, b: canonical::MacsecOverride| macsec_override_maps(a, b))
}

/// Converts a list of items, each a MACsec override.
fn macsec_overrides(list: &Vec<xml::MacsecOverride>, path: &str) -> (r: Converted<Vec<canonical::MacsecOverride>>)
    ensures
        conversion::outcome(
            r,
            faults::first_failure(list@.len(), macsec_overrides_due(list@, path@)),
            |y: Vec<canonical::MacsecOverride>| macsec_overrides_map(list@, y@),
        ),
{
    conversion::convert_list(
        list,
        |value: &xml::MacsecOverride, index: usize| -> (r: Converted<canonical::MacsecOverride>)
            ensures
                conversion::outcome(
                    r,
                    macsec_override_due(*value, path@, index as int),
                    |y: canonical::MacsecOverride| macsec_override_maps(*value, y),
                )
        { macsec_override(value, path, index) },
        Ghost(macsec_overrides_due(list@, path@)),
        Ghost(|a: xml::MacsecOverride, b: canonical::MacsecOverride| macsec_override_maps(a, b)),
    )
}

/// The failure of an optional default MACsec policy.
pub open spec fn default_policy_due(value: Option<xml::MacsecDefaultPolicy>, path: Seq<char>) -> Option<Failure> {
    match value {
        None => None,
        Some(value) => convert_refs::scope_due(
            value.policy.instance,
            conversion::part_path(path, "configuration/macsec/default-policy/macsec-policy-ref"@),
        ),
    }
}

/// Whether the optional canonical default MACsec policy carries the authored one.
pub open spec fn default_policy_maps(value: Option<xml::MacsecDefaultPolicy>, mapped: Option<canonical::MacsecPolicyRef>) -> bool {
    match (value, mapped) {
        (None, None) => true,
        (Some(value), Some(mapped)) => {
            &&& convert_refs::macsec_policy_ref_maps(value.policy, mapped)
        },
        _ => false,
    }
}

/// Converts an optional default MACsec policy.
fn default_policy(value: &Option<xml::MacsecDefaultPolicy>, path: &str) -> (r: Converted<Option<canonical::MacsecPolicyRef>>)
    ensures
        conversion::outcome(
            r,
            default_policy_due(*value, path@),
            |y: Option<canonical::MacsecPolicyRef>| default_policy_maps(*value, y),
        ),
{
    match value {
        None => Ok(None),
        Some(value) => {
            let policy = convert_refs::macsec_policy_ref(
                &value.policy,
                conversion::part(
                    path,
                    "configuration/macsec/default-policy/macsec-policy-ref",
                ).as_str(),
            )?;
            Ok(Some(policy))
        },
    }
}

/// The failure of an optional MACsec configuration.
pub open spec fn macsec_due(value: Option<xml::MacsecConfiguration>, path: Seq<char>) -> Option<Failure> {
    match value {
        None => None,
        Some(value) => faults::either(
            faults::first_failure(value.policy@.len(), macsec_policies_due(value.policy@, path)),
            faults::either(
                faults::first_failure(
                    value.override_@.len(),
                    macsec_overrides_due(value.override_@, path),
                ),
                default_policy_due(value.default_policy, path),
            ),
        ),
    }
}

/// Whether the optional canonical MACsec configuration carries the authored one.
pub open spec fn macsec_maps(value: Option<xml::MacsecConfiguration>, mapped: Option<canonical::MacsecConfiguration>) -> bool {
    match (value, mapped) {
        (None, None) => true,
        (Some(value), Some(mapped)) => {
            &&& macsec_policies_map(value.policy@, mapped.policies@)
            &&& macsec_overrides_map(value.override_@, mapped.overrides@)
            &&& default_policy_maps(value.default_policy, mapped.default_policy)
        },
        _ => false,
    }
}

/// Converts an optional MACsec configuration.
fn macsec(value: &Option<xml::MacsecConfiguration>, path: &str) -> (r: Converted<Option<canonical::MacsecConfiguration>>)
    ensures
        conversion::outcome(
            r,
            macsec_due(*value, path@),
            |y: Option<canonical::MacsecConfiguration>| macsec_maps(*value, y),
        ),
{
    match value {
        None => Ok(None),
        Some(value) => {
            let policies = macsec_policies(&value.policy, path)?;
            let overrides = macsec_overrides(&value.override_, path)?;
            let default_policy = default_policy(&value.default_policy, path)?;
            Ok(Some(canonical::MacsecConfiguration { policies, default_policy, overrides }))
        },
    }
}

/// The failure of an authored energy-saving override.
pub open spec fn eee_override_due(value: xml::EeeOverride, path: Seq<char>, index: int) -> Option<Failure> {
    let inner = conversion::indexed_path(path, "configuration/eee/override"@, index);
    convert_refs::scope_due(value.participant.instance, conversion::part_path(inner, "participant-ref"@))
}

/// Whether the canonical energy-saving override carries the authored one.
pub open spec fn eee_override_maps(value: xml::EeeOverride, mapped: canonical::EeeOverride) -> bool {
    &&& convert_refs::participant_ref_maps(value.participant, mapped.participant)
    &&& mapped.mode == value.mode
}

/// Converts an energy-saving override.
fn eee_override(value: &xml::EeeOverride, path: &str, index: usize) -> (r: Converted<canonical::EeeOverride>)
    ensures
        conversion::outcome(
            r,
            eee_override_due(*value, path@, index as int),
            |y: canonical::EeeOverride| eee_override_maps(*value, y),
        ),
{
    let inner = conversion::indexed(path, "configuration/eee/override", index);
    let participant = convert_refs::participant_ref(
        &value.participant,
        conversion::part(inner.as_str(), "participant-ref").as_str(),
    )?;
    Ok(canonical::EeeOverride { participant, mode: value.mode })
}

/// The failure of the energy-saving override at a place of a list.
pub open spec fn eee_overrides_due(list: Seq<xml::EeeOverride>, path: Seq<char>) -> spec_fn(int) -> Option<Failure> {
    |i: int| eee_override_due(list[i], path, i)
}

/// Whether a list of canonical items carries a list of authored ones.
pub open spec fn eee_overrides_map(list: Seq<xml::EeeOverride>, mapped: Seq<canonical::EeeOverride>) -> bool {
    conversion::each_maps(list, mapped, |a: xml::EeeOverride, b: canonical::EeeOverride| eee_override_maps(a, b))
}

/// Converts a list of items, each an energy-saving override.
fn eee_overrides(list: &Vec<xml::EeeOverride>, path: &str) -> (r: Converted<Vec<canonical::EeeOverride>>)
    ensures
        conversion::outcome(
            r,
            faults::first_failure(list@.len(), eee_overrides_due(list@, path@)),
            |y: Vec<canonical::EeeOverride>| eee_overrides_map(list@, y@),
        ),
{
    conversion::convert_list(
        list,
        |value: &xml::EeeOverride, index: usize| -> (r: Converted<canonical::EeeOverride>)
            ensures
                conversion::outcome(
                    r,
                    eee_override_due(*value, path@, index as int),
                    |y: canonical::EeeOverride| eee_override_maps(*value, y),
                )
        { eee_override(value, path, index) },
        Ghost(eee_overrides_due(list@, path@)),
        Ghost(|a: xml::EeeOverride, b: canonical::EeeOverride| eee_override_maps(a, b)),
    )
}

/// The failure of an optional energy-saving configuration.
pub open spec fn eee_due(value: Option<xml::EeeConfiguration>, path: Seq<char>) -> Option<Failure> {
    match value {
        None => None,
        Some(value) => faults::first_failure(value.override_@.len(), eee_overrides_due(value.override_@, path)),
    }
}

/// Whether the optional canonical energy-saving configuration carries the authored one.
pub open spec fn eee_maps(value: Option<xml::EeeConfiguration>, mapped: Option<canonical::EeeConfiguration>) -> bool {
    match (value, mapped) {
        (None, None) => true,
        (Some(value), Some(mapped)) => {
            &&& mapped.default_mode == value.default_mode
            &&& eee_overrides_map(value.override_@, mapped.overrides@)
        },
        _ => false,
    }
}

/// Converts an optional energy-saving configuration.
fn eee(value: &Option<xml::EeeConfiguration>, path: &str) -> (r: Converted<Option<canonical::EeeConfiguration>>)
    ensures
        conversion::outcome(
            r,
            eee_due(*value, path@),
            |y: Option<canonical::EeeConfiguration>| eee_maps(*value, y),
        ),
{
    match value {
        None => Ok(None),
        Some(value) => {
            let overrides = eee_overrides(&value.override_, path)?;
            Ok(Some(canonical::EeeConfiguration { default_mode: value.default_mode, overrides }))
        },
    }
}

/// The failure of an optional network configuration.
pub open spec fn network_configuration_due(
    value: Option<xml::NetworkConfiguration>,
    path: Seq<char>,
) -> Option<Failure> {
    match value {
        None => None,
        Some(value) => faults::either(
            faults::first_failure(value.gptp_domain@.len(), gptp_domains_due(value.gptp_domain@, path)),
            faults::either(
                faults::first_failure(value.traffic_class@.len(), traffic_classes_due(value.traffic_class@, path)),
                faults::either(
                    faults::first_failure(value.gate_schedule@.len(), gate_schedules_due(value.gate_schedule@, path)),
                    faults::either(
                        faults::first_failure(value.schedule_assignment@.len(), schedule_assignments_due(value.schedule_assignment@, path)),
                        faults::either(
                            plca_due(value.plca, path),
                            faults::either(
                                macsec_due(value.macsec, path),
                                eee_due(value.eee, path),
                            ),
                        ),
                    ),
                ),
            ),
        ),
    }
}

/// Whether the canonical configuration carries the authored one; none authored is an empty one.
pub open spec fn network_configuration_maps(
    value: Option<xml::NetworkConfiguration>,
    mapped: canonical::NetworkConfiguration,
) -> bool {
    match value {
        None => mapped.holds_nothing(),
        Some(value) => {
            &&& gptp_domains_map(value.gptp_domain@, mapped.gptp_domains@)
            &&& traffic_classes_map(value.traffic_class@, mapped.traffic_classes@)
            &&& gate_schedules_map(value.gate_schedule@, mapped.gate_schedules@)
            &&& schedule_assignments_map(value.schedule_assignment@, mapped.schedule_assignments@)
            &&& plca_maps(value.plca, mapped.plca)
            &&& macsec_maps(value.macsec, mapped.macsec)
            &&& eee_maps(value.eee, mapped.eee)
        },
    }
}

/// Converts the configuration of the network at `path`.
pub(crate) fn network_configuration(value: &Option<xml::NetworkConfiguration>, path: &str) -> (r:
    Converted<canonical::NetworkConfiguration>)
    ensures
        conversion::outcome(
            r,
            network_configuration_due(*value, path@),
            |y: canonical::NetworkConfiguration| network_configuration_maps(*value, y),
        ),
{
    let value = match value {
        None => {
            return Ok(canonical::NetworkConfiguration::default());
        },
        Some(value) => value,
    };
    let gptp_domains = gptp_domains(&value.gptp_domain, path)?;
    let traffic_classes = traffic_classes(&value.traffic_class, path)?;
    let gate_schedules = gate_schedules(&value.gate_schedule, path)?;
    let schedule_assignments = schedule_assignments(&value.schedule_assignment, path)?;
    let plca = plca(&value.plca, path)?;
    let macsec = macsec(&value.macsec, path)?;
    let eee = eee(&value.eee, path)?;
    Ok(
        canonical::NetworkConfiguration {
            gptp_domains,
            traffic_classes,
            gate_schedules,
            schedule_assignments,
            plca,
            macsec,
            eee,
        },
    )
}

} // verus!
