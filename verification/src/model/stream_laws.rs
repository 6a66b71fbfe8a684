//! Which stream profiles pass.
use vstd::prelude::*;
use crate::error;
use crate::error::Outcome;
use crate::faults;
use crate::text;
use super::stream_profile;
use super::stream_profile::{StreamDefinition, StreamProfileDocument};
use super::connectivity_xml::InstanceRef;

verus! {

/// Whether the numbers of a stream are in range: a VLAN from 0 to 4094, a priority from 0 to 7, frames
/// that hold something, an interval and a latency that take time, and two redundant trees or more.
pub open spec fn is_in_range(stream: StreamDefinition) -> bool {
    &&& stream.vlan_id matches Some(id) ==> 0 <= id <= 4094
    &&& stream.pcp matches Some(pcp) ==> 0 <= pcp <= 7
    &&& stream.max_frame_size_bytes >= 1
    &&& stream.interval_ns >= 1
    &&& stream.max_latency_ns matches Some(latency) ==> latency >= 1
    &&& stream.frer matches Some(frer) ==> frer.seamless_trees >= 2
}

/// Whether an instance is not named, or named by its segments.
pub open spec fn is_spelled_out(instance: Option<InstanceRef>) -> bool {
    instance matches Some(reference) ==> reference.segment@.len() >= 1
}

/// Whether every instance that a stream names is spelled out.
pub open spec fn names_its_instances(stream: StreamDefinition) -> bool {
    &&& stream.group_ref matches Some(group) ==> is_spelled_out(group.instance)
    &&& forall|i: int|
        0 <= i < stream.path.network@.len() ==> is_spelled_out(
            (#[trigger] stream.path.network@[i]).instance,
        )
    &&& forall|i: int|
        0 <= i < stream.path.forwarding@.len() ==> {
            let step = #[trigger] stream.path.forwarding@[i];
            &&& is_spelled_out(step.from.participant.instance)
            &&& is_spelled_out(step.function.instance)
            &&& is_spelled_out(step.to.participant.instance)
        }
    &&& is_spelled_out(stream.talker.participant.instance)
    &&& forall|i: int|
        0 <= i < stream.listener@.len() ==> is_spelled_out(
            (#[trigger] stream.listener@[i]).participant.instance,
        )
    &&& stream.traffic_class_ref matches Some(class) ==> is_spelled_out(class.instance)
    &&& stream.schedule_ref matches Some(schedule) ==> is_spelled_out(schedule.instance)
}

/// A stream passes exactly when it has a listener and a network, however many of each, its numbers are
/// in range, and the instances that it names are spelled out. Nothing else about it matters.
pub proof fn a_stream_passes_exactly_when_sound(stream: StreamDefinition)
    ensures
        stream_profile::stream_due(stream) is None <==> (stream.listener@.len() >= 1
            && stream.path.network@.len() >= 1 && is_in_range(stream) && names_its_instances(
            stream,
        )),
{
    let name = stream.name@;
    let networks = stream_profile::networks_due(stream.path.network@, name);
    let forwardings = stream_profile::forwardings_due(stream.path.forwarding@, name);
    let listeners = stream_profile::listeners_due(stream.listener@, name);
    faults::no_failure_means_none(stream.path.network@.len(), networks);
    faults::no_failure_means_none(stream.path.forwarding@.len(), forwardings);
    faults::no_failure_means_none(stream.listener@.len(), listeners);
    assert forall|i: int| 0 <= i < stream.path.network@.len() implies (#[trigger] networks(i)
        is None) == is_spelled_out(stream.path.network@[i].instance) by {}
    assert forall|i: int| 0 <= i < stream.listener@.len() implies (#[trigger] listeners(i) is None)
        == is_spelled_out(stream.listener@[i].participant.instance) by {}
    assert forall|i: int| 0 <= i < stream.path.forwarding@.len() implies (#[trigger] forwardings(i)
        is None) == {
        let step = stream.path.forwarding@[i];
        &&& is_spelled_out(step.from.participant.instance)
        &&& is_spelled_out(step.function.instance)
        &&& is_spelled_out(step.to.participant.instance)
    } by {}
    if stream_profile::stream_due(stream) is None {
        assert forall|i: int| 0 <= i < stream.path.network@.len() implies is_spelled_out(
            (#[trigger] stream.path.network@[i]).instance,
        ) by {
            assert(networks(i) is None);
        }
        assert forall|i: int| 0 <= i < stream.listener@.len() implies is_spelled_out(
            (#[trigger] stream.listener@[i]).participant.instance,
        ) by {
            assert(listeners(i) is None);
        }
        assert forall|i: int| 0 <= i < stream.path.forwarding@.len() implies {
            let step = #[trigger] stream.path.forwarding@[i];
            &&& is_spelled_out(step.from.participant.instance)
            &&& is_spelled_out(step.function.instance)
            &&& is_spelled_out(step.to.participant.instance)
        } by {
            assert(forwardings(i) is None);
        }
    }
}

/// A document passes validation exactly when each of its streams has a listener and a network, however
/// many of each, numbers in range, and spelled-out instances.
pub proof fn a_document_passes_exactly_when_sound(document: StreamProfileDocument, r: Outcome<()>)
    requires
        error::checked(r, document.due()),
    ensures
        r is Ok <==> forall|i: int|
            0 <= i < document.stream@.len() ==> {
                let stream = #[trigger] document.stream@[i];
                &&& stream.listener@.len() >= 1
                &&& stream.path.network@.len() >= 1
                &&& is_in_range(stream)
                &&& names_its_instances(stream)
            },
{
    stream_profile::valid_means_every_stream_is(document);
    assert forall|i: int| 0 <= i < document.stream@.len() implies (stream_profile::stream_due(
        #[trigger] document.stream@[i],
    ) is None <==> (document.stream@[i].listener@.len() >= 1
        && document.stream@[i].path.network@.len() >= 1 && is_in_range(document.stream@[i])
        && names_its_instances(document.stream@[i]))) by {
        a_stream_passes_exactly_when_sound(document.stream@[i]);
    }
}

/// A document is refused for the first stream that is not sound: adding streams behind it changes
/// nothing.
pub proof fn the_first_bad_stream_is_reported(
    document: StreamProfileDocument,
    longer: StreamProfileDocument,
)
    requires
        document.due() is Some,
        document.stream@.is_prefix_of(longer.stream@),
    ensures
        longer.due() == document.due(),
{
    let n = document.stream@.len();
    let all = stream_profile::streams_due(longer.stream@);
    let first = stream_profile::streams_due(document.stream@);
    assert forall|i: int| 0 <= i < n implies #[trigger] first(i) == all(i) by {
        assert(longer.stream@[i] == document.stream@[i]);
    }
    faults::same_failures_same_first(n, first, all);
    faults::first_failure_stays(n, longer.stream@.len(), all);
}

/// The words for a stream that breaks a rule.
pub open spec fn refusal(stream: StreamDefinition, rule: Seq<char>) -> Option<Seq<char>> {
    Some("stream "@ + text::debug_chars(stream.name@) + rule)
}

/// What a stream is refused for is the first of these that it lacks: a listener, a network, a VLAN in
/// range, a priority in range, a frame size, an interval, a latency where one is given, and a second
/// redundant tree where such are asked for.
pub proof fn the_first_broken_rule_is_named(stream: StreamDefinition)
    ensures
        stream.listener@.len() == 0 ==> stream_profile::stream_due(stream) == refusal(
            stream,
            " must declare at least one <listener>"@,
        ),
        stream.listener@.len() > 0 && stream.path.network@.len() == 0
            ==> stream_profile::stream_due(stream) == refusal(
            stream,
            " path must declare at least one <network-ref>"@,
        ),
        stream.listener@.len() > 0 && stream.path.network@.len() > 0 && stream.vlan_id is Some
            && stream.vlan_id->0 >= 4095 ==> stream_profile::stream_due(stream) == refusal(
            stream,
            " vlan-id must be in 0..=4094"@,
        ),
        stream.listener@.len() > 0 && stream.path.network@.len() > 0 && (stream.vlan_id matches Some(
            id,
        ) ==> id <= 4094) && stream.pcp is Some && stream.pcp->0 >= 8
            ==> stream_profile::stream_due(stream) == refusal(stream, " pcp must be in 0..=7"@),
        stream.listener@.len() > 0 && stream.path.network@.len() > 0 && is_in_range(
            StreamDefinition {
                max_frame_size_bytes: 1,
                interval_ns: 1,
                max_latency_ns: None,
                frer: None,
                ..stream
            },
        ) ==> {
            &&& stream.max_frame_size_bytes == 0 ==> stream_profile::stream_due(stream) == refusal(
                stream,
                " max-frame-size-bytes must be greater than zero"@,
            )
            &&& stream.max_frame_size_bytes > 0 && stream.interval_ns == 0
                ==> stream_profile::stream_due(stream) == refusal(
                stream,
                " interval-ns must be greater than zero"@,
            )
            &&& stream.max_frame_size_bytes > 0 && stream.interval_ns > 0 && stream.max_latency_ns
                == Some(0u64) ==> stream_profile::stream_due(stream) == refusal(
                stream,
                " max-latency-ns must be greater than zero when present"@,
            )
            &&& stream.max_frame_size_bytes > 0 && stream.interval_ns > 0 && stream.max_latency_ns
                != Some(0u64) && stream.frer is Some && stream.frer->0.seamless_trees <= 1
                ==> stream_profile::stream_due(stream) == refusal(
                stream,
                " frer seamless-trees must be at least 2"@,
            )
        },
{
}

/// The words for a reference of a stream whose instance is not spelled out.
pub open spec fn unnamed(stream: StreamDefinition, reference: Seq<char>) -> Option<Seq<char>> {
    Some(
        "stream "@ + text::debug_chars(stream.name@) + " "@ + reference
            + " instance must declare at least one <segment>"@,
    )
}

/// Whether the networks, the forwarding up to a place, and the group of a stream are spelled out.
pub open spec fn route_is_spelled_out(stream: StreamDefinition, upto: int) -> bool {
    &&& stream.group_ref matches Some(group) ==> is_spelled_out(group.instance)
    &&& forall|i: int|
        0 <= i < stream.path.network@.len() ==> is_spelled_out(
            (#[trigger] stream.path.network@[i]).instance,
        )
    &&& forall|i: int|
        0 <= i < upto ==> {
            let step = #[trigger] stream.path.forwarding@[i];
            &&& is_spelled_out(step.from.participant.instance)
            &&& is_spelled_out(step.function.instance)
            &&& is_spelled_out(step.to.participant.instance)
        }
}

/// A stream that is otherwise sound is refused for the forwarding step whose instance is not spelled
/// out, with the end that lacks it.
pub proof fn the_forwarding_that_lacks_an_instance_is_named(stream: StreamDefinition, at: int)
    requires
        stream.listener@.len() >= 1,
        stream.path.network@.len() >= 1,
        is_in_range(stream),
        0 <= at < stream.path.forwarding@.len(),
        route_is_spelled_out(stream, at),
    ensures
        ({
            let step = stream.path.forwarding@[at];
            let from = is_spelled_out(step.from.participant.instance);
            let function = is_spelled_out(step.function.instance);
            let to = is_spelled_out(step.to.participant.instance);
            &&& !from ==> stream_profile::stream_due(stream) == unnamed(
                stream,
                "forwarding from participant-ref"@,
            )
            &&& from && !function ==> stream_profile::stream_due(stream) == unnamed(
                stream,
                "forwarding function-ref"@,
            )
            &&& from && function && !to ==> stream_profile::stream_due(stream) == unnamed(
                stream,
                "forwarding to participant-ref"@,
            )
        }),
{
    let networks = stream_profile::networks_due(stream.path.network@, stream.name@);
    let forwardings = stream_profile::forwardings_due(stream.path.forwarding@, stream.name@);
    faults::no_failure_means_none(stream.path.network@.len(), networks);
    assert forall|i: int| 0 <= i < stream.path.network@.len() implies #[trigger] networks(
        i,
    ) is None by {
        assert(is_spelled_out(stream.path.network@[i].instance));
    }
    assert forall|k: int| 0 <= k < at implies #[trigger] forwardings(k) is None by {
        let step = stream.path.forwarding@[k];
        assert(is_spelled_out(step.from.participant.instance));
    }
    if forwardings(at) is Some {
        faults::first_failure_is(stream.path.forwarding@.len(), forwardings, at);
    }
}

/// A stream that is otherwise sound is refused for the first of its references whose instance is not
/// spelled out: the group, the networks, the forwarding, the talker, the listeners, the traffic class
/// and the schedule.
pub proof fn the_reference_that_lacks_an_instance_is_named(stream: StreamDefinition)
    requires
        stream.listener@.len() >= 1,
        stream.path.network@.len() >= 1,
        is_in_range(stream),
    ensures
        stream.group_ref is Some && !is_spelled_out(stream.group_ref->0.instance)
            ==> stream_profile::stream_due(stream) == unnamed(stream, "group-ref"@),
        (stream.group_ref matches Some(group) ==> is_spelled_out(group.instance)) && (exists|i: int|
            0 <= i < stream.path.network@.len() && !is_spelled_out(
                (#[trigger] stream.path.network@[i]).instance,
            )) ==> stream_profile::stream_due(stream) == unnamed(stream, "path network-ref"@),
        route_is_spelled_out(stream, stream.path.forwarding@.len() as int) ==> {
            let talker = is_spelled_out(stream.talker.participant.instance);
            let listeners = forall|i: int|
                0 <= i < stream.listener@.len() ==> is_spelled_out(
                    (#[trigger] stream.listener@[i]).participant.instance,
                );
            let class = stream.traffic_class_ref matches Some(class) ==> is_spelled_out(
                class.instance,
            );
            let schedule = stream.schedule_ref matches Some(schedule) ==> is_spelled_out(
                schedule.instance,
            );
            &&& !talker ==> stream_profile::stream_due(stream) == unnamed(
                stream,
                "talker participant-ref"@,
            )
            &&& talker && !listeners ==> stream_profile::stream_due(stream) == unnamed(
                stream,
                "listener participant-ref"@,
            )
            &&& talker && listeners && !class ==> stream_profile::stream_due(stream) == unnamed(
                stream,
                "traffic-class-ref"@,
            )
            &&& talker && listeners && class && !schedule ==> stream_profile::stream_due(stream)
                == unnamed(stream, "schedule-ref"@)
        },
{
    let networks = stream_profile::networks_due(stream.path.network@, stream.name@);
    let forwardings = stream_profile::forwardings_due(stream.path.forwarding@, stream.name@);
    let listeners = stream_profile::listeners_due(stream.listener@, stream.name@);
    same_words(stream.path.network@.len(), networks, unnamed(stream, "path network-ref"@)->0);
    same_words(stream.listener@.len(), listeners, unnamed(stream, "listener participant-ref"@)->0);
    assert forall|i: int| 0 <= i < stream.path.network@.len() implies (#[trigger] networks(i)
        is None) == is_spelled_out(stream.path.network@[i].instance) by {}
    assert forall|i: int| 0 <= i < stream.listener@.len() implies (#[trigger] listeners(i) is None)
        == is_spelled_out(stream.listener@[i].participant.instance) by {}
    if exists|i: int|
        0 <= i < stream.path.network@.len() && !is_spelled_out(
            (#[trigger] stream.path.network@[i]).instance,
        ) {
        let i = choose|i: int|
            0 <= i < stream.path.network@.len() && !is_spelled_out(
                (#[trigger] stream.path.network@[i]).instance,
            );
        assert(networks(i) is Some);
    }
    if route_is_spelled_out(stream, stream.path.forwarding@.len() as int) {
        faults::no_failure_means_none(stream.path.network@.len(), networks);
        faults::no_failure_means_none(stream.path.forwarding@.len(), forwardings);
        assert forall|i: int| 0 <= i < stream.path.network@.len() implies #[trigger] networks(
            i,
        ) is None by {
            assert(is_spelled_out(stream.path.network@[i].instance));
        }
        assert forall|k: int| 0 <= k < stream.path.forwarding@.len() implies #[trigger] forwardings(
            k,
        ) is None by {
            let step = stream.path.forwarding@[k];
            assert(is_spelled_out(step.from.participant.instance));
        }
        if !(forall|i: int|
            0 <= i < stream.listener@.len() ==> is_spelled_out(
                (#[trigger] stream.listener@[i]).participant.instance,
            )) {
            let i = choose|i: int|
                0 <= i < stream.listener@.len() && !is_spelled_out(
                    (#[trigger] stream.listener@[i]).participant.instance,
                );
            assert(listeners(i) is Some);
        } else {
            faults::no_failure_means_none(stream.listener@.len(), listeners);
            assert forall|i: int| 0 <= i < stream.listener@.len() implies #[trigger] listeners(
                i,
            ) is None by {
                assert(is_spelled_out(stream.listener@[i].participant.instance));
            }
        }
    }
}

proof fn same_words(n: nat, at: spec_fn(int) -> Option<Seq<char>>, words: Seq<char>)
    requires
        forall|i: int| 0 <= i < n ==> (#[trigger] at(i) matches Some(w) ==> w == words),
    ensures
        forall|i: int|
            0 <= i < n && #[trigger] at(i) is Some ==> faults::first_failure(n, at) == Some(words),
    decreases n,
{
    if n > 0 {
        same_words((n - 1) as nat, at, words);
        faults::no_failure_means_none((n - 1) as nat, at);
        if faults::first_failure((n - 1) as nat, at) is Some {
            let i = choose|i: int| 0 <= i < n - 1 && !(#[trigger] at(i) is None);
            assert(at(i) is Some);
        }
    }
}

} // verus!
