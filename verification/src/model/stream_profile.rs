//! Stream profiles: documents that define operational streams over the networks of a document.
use vstd::prelude::*;
use super::connectivity::QualifiedId;
use super::connectivity_xml::{
    ConnectivityFunctionRef, InstanceRef, NetworkRef, ParticipantRef, ScheduleRef, TrafficClassRef,
};
use crate::error;
use crate::error::{Error, Outcome};
use crate::faults;
use crate::text;

verus! {

#[derive(Debug, Clone, PartialEq, Eq)]
pub struct StreamProfileResource {
    pub uri: String,
    pub sha: Option<String>,
    pub required: bool,
    pub selection_role: Option<StreamProfileSelectionRole>,
}

/// The root document may identify one profile as the default selection.
#[derive(Debug, Clone, Copy, PartialEq, Eq)]
pub enum StreamProfileSelectionRole {
    Default,
}

/// Root `<stream-profile>` sidecar document.
#[derive(Debug, Clone, PartialEq, Eq)]
pub struct StreamProfileDocument {
    pub name: String,
    pub version: String,
    pub description: Option<String>,
    pub dependency: Vec<StreamProfileDependency>,
    pub stream_group: Vec<StreamGroup>,
    pub stream: Vec<StreamDefinition>,
}

/// A nested stream-profile dependency. Loader recursion and merge behavior are separate concerns.
#[derive(Debug, Clone, PartialEq, Eq)]
pub struct StreamProfileDependency {
    pub uri: String,
    pub sha: Option<String>,
    pub required: bool,
}

/// A named organizational group. Streams reference it from their authoritative top-level definition.
#[derive(Debug, Clone, PartialEq, Eq)]
pub struct StreamGroup {
    pub name: String,
    pub description: Option<String>,
}

/// A structured reference from a stream to a named group.
#[derive(Debug, Clone, PartialEq, Eq)]
pub struct StreamGroupRef {
    pub group: String,
    pub instance: Option<InstanceRef>,
}

/// One directed route graph over existing HCDF network topologies.
#[derive(Debug, Clone, PartialEq, Eq)]
pub struct StreamPath {
    pub network: Vec<NetworkRef>,
    pub forwarding: Vec<StreamForwarding>,
}

/// One endpoint of inter-topology stream forwarding.
#[derive(Debug, Clone, PartialEq, Eq)]
pub struct StreamForwardingEnd {
    pub participant: ParticipantRef,
}

/// One explicit directed forwarding relation between participant endpoints on two route networks.
#[derive(Debug, Clone, PartialEq, Eq)]
pub struct StreamForwarding {
    pub from: StreamForwardingEnd,
    pub function: ConnectivityFunctionRef,
    pub to: StreamForwardingEnd,
}

/// The unique transmitting participant of a stream.
#[derive(Debug, Clone, PartialEq, Eq)]
pub struct StreamTalker {
    pub participant: ParticipantRef,
}

/// One receiving participant of a stream.
#[derive(Debug, Clone, PartialEq, Eq)]
pub struct StreamListener {
    pub participant: ParticipantRef,
}

/// IEEE 802.1CB frame replication and elimination requirements.
#[derive(Debug, Clone, PartialEq, Eq)]
pub struct Frer {
    pub seamless_trees: u32,
    pub sequence_encoding: FrerSequenceEncoding,
}

#[derive(Debug, Clone, Copy, PartialEq, Eq)]
pub enum FrerSequenceEncoding {
    RTag,
    Hsr,
}

/// One authoritative top-level operational stream definition.
#[derive(Debug, Clone, PartialEq, Eq)]
pub struct StreamDefinition {
    pub name: String,
    pub vlan_id: Option<u16>,
    pub pcp: Option<u8>,
    pub max_frame_size_bytes: u32,
    pub interval_ns: u64,
    pub max_latency_ns: Option<u64>,
    pub protocol: Option<QualifiedId>,
    pub description: Option<String>,
    pub group_ref: Option<StreamGroupRef>,
    pub path: StreamPath,
    pub talker: StreamTalker,
    pub listener: Vec<StreamListener>,
    pub traffic_class_ref: Option<TrafficClassRef>,
    pub schedule_ref: Option<ScheduleRef>,
    pub frer: Option<Frer>,
}

/// The rule that a stream breaks, in words: its name and what is wrong.
pub open spec fn stream_words(stream: Seq<char>, rule: Seq<char>) -> Seq<char> {
    "stream "@ + text::debug_chars(stream) + rule
}

fn stream_error(stream: &String, rule: &str) -> (r: Error)
    ensures
        r.is_xml(stream_words(stream@, rule@)),
{
    let mut words: String = "stream ".to_owned();
    words.append(text::debug_text(stream.as_str()).as_str());
    words.append(rule);
    Error::Xml(words)
}

/// The failure of a stream whose rule is broken.
pub open spec fn rule_due(broken: bool, stream: Seq<char>, rule: Seq<char>) -> Option<Seq<char>> {
    if broken {
        Some(stream_words(stream, rule))
    } else {
        None
    }
}

/// The failure of an explicit instance reference without segments.
pub open spec fn instance_due(
    instance: Option<InstanceRef>,
    stream: Seq<char>,
    context: Seq<char>,
) -> Option<Seq<char>> {
    match instance {
        Some(reference) => if reference.segment@.len() == 0 {
            Some(
                "stream "@ + text::debug_chars(stream) + " "@ + context
                    + " instance must declare at least one <segment>"@,
            )
        } else {
            None
        },
        None => None,
    }
}

/// Requires that an explicit instance reference has segments.
fn validate_instance_ref(
    instance: &Option<InstanceRef>,
    stream: &String,
    context: &str,
) -> (r: Outcome<()>)
    ensures
        error::checked(r, instance_due(*instance, stream@, context@)),
{
    match instance {
        Some(reference) => {
            if reference.segment.len() == 0 {
                let mut words: String = "stream ".to_owned();
                words.append(text::debug_text(stream.as_str()).as_str());
                words.append(" ");
                words.append(context);
                words.append(" instance must declare at least one <segment>");
                return Err(Error::Xml(words));
            }
            Ok(())
        },
        None => Ok(()),
    }
}

fn vlan_too_large(vlan_id: Option<u16>) -> (r: bool)
    ensures
        r == (vlan_id matches Some(id) && id > 4094),
{
    match vlan_id {
        Some(id) => id > 4094,
        None => false,
    }
}

fn pcp_too_large(pcp: Option<u8>) -> (r: bool)
    ensures
        r == (pcp matches Some(pcp) && pcp > 7),
{
    match pcp {
        Some(pcp) => pcp > 7,
        None => false,
    }
}

fn latency_zero(latency: Option<u64>) -> (r: bool)
    ensures
        r == (latency == Some(0u64)),
{
    match latency {
        Some(latency) => latency == 0,
        None => false,
    }
}

fn too_few_trees(frer: &Option<Frer>) -> (r: bool)
    ensures
        r == (*frer matches Some(frer) && frer.seamless_trees < 2),
{
    match frer {
        Some(frer) => frer.seamless_trees < 2,
        None => false,
    }
}

/// The failure of the network reference at a place of a route.
pub open spec fn networks_due(list: Seq<NetworkRef>, stream: Seq<char>) -> spec_fn(int) -> Option<
    Seq<char>,
> {
    |i: int| instance_due(list[i].instance, stream, "path network-ref"@)
}

/// The failure of one forwarding relation.
pub open spec fn forwarding_due(forwarding: StreamForwarding, stream: Seq<char>) -> Option<
    Seq<char>,
> {
    faults::either(
        instance_due(
            forwarding.from.participant.instance,
            stream,
            "forwarding from participant-ref"@,
        ),
        faults::either(
            instance_due(forwarding.function.instance, stream, "forwarding function-ref"@),
            instance_due(
                forwarding.to.participant.instance,
                stream,
                "forwarding to participant-ref"@,
            ),
        ),
    )
}

fn validate_forwarding(forwarding: &StreamForwarding, stream: &String) -> (r: Outcome<()>)
    ensures
        error::checked(r, forwarding_due(*forwarding, stream@)),
{
    let _ = validate_instance_ref(
        &forwarding.from.participant.instance,
        stream,
        "forwarding from participant-ref",
    )?;
    let _ = validate_instance_ref(
        &forwarding.function.instance,
        stream,
        "forwarding function-ref",
    )?;
    validate_instance_ref(
        &forwarding.to.participant.instance,
        stream,
        "forwarding to participant-ref",
    )
}

/// The failure of the forwarding relation at a place of a route.
pub open spec fn forwardings_due(list: Seq<StreamForwarding>, stream: Seq<char>) -> spec_fn(
    int,
) -> Option<Seq<char>> {
    |i: int| forwarding_due(list[i], stream)
}

/// The failure of the listener at a place of a stream.
pub open spec fn listeners_due(list: Seq<StreamListener>, stream: Seq<char>) -> spec_fn(
    int,
) -> Option<Seq<char>> {
    |i: int| instance_due(list[i].participant.instance, stream, "listener participant-ref"@)
}

/// The failure of the rules on the numbers and lists of a stream.
pub open spec fn stream_rules_due(stream: StreamDefinition) -> Option<Seq<char>> {
    faults::either(
        rule_due(stream.listener@.len() == 0, stream.name@, " must declare at least one <listener>"@),
        faults::either(
            rule_due(stream.path.network@.len() == 0, stream.name@, " path must declare at least one <network-ref>"@),
            faults::either(
                rule_due((stream.vlan_id matches Some(id) && id > 4094), stream.name@, " vlan-id must be in 0..=4094"@),
                faults::either(
                    rule_due((stream.pcp matches Some(pcp) && pcp > 7), stream.name@, " pcp must be in 0..=7"@),
                    faults::either(
                        rule_due(stream.max_frame_size_bytes == 0, stream.name@, " max-frame-size-bytes must be greater than zero"@),
                        faults::either(
                            rule_due(stream.interval_ns == 0, stream.name@, " interval-ns must be greater than zero"@),
                            faults::either(
                                rule_due(stream.max_latency_ns == Some(0u64), stream.name@, " max-latency-ns must be greater than zero when present"@),
                                rule_due((stream.frer matches Some(frer) && frer.seamless_trees < 2), stream.name@, " frer seamless-trees must be at least 2"@),
                            ),
                        ),
                    ),
                ),
            ),
        ),
    )
}

/// The failure of the references of a stream.
pub open spec fn stream_references_due(stream: StreamDefinition) -> Option<Seq<char>> {
    faults::either(
        instance_due(group_instance(stream.group_ref), stream.name@, "group-ref"@),
        faults::either(
            faults::first_failure(
                stream.path.network@.len(),
                networks_due(stream.path.network@, stream.name@),
            ),
            faults::either(
                faults::first_failure(
                    stream.path.forwarding@.len(),
                    forwardings_due(stream.path.forwarding@, stream.name@),
                ),
                faults::either(
                    instance_due(stream.talker.participant.instance, stream.name@, "talker participant-ref"@),
                    faults::either(
                        faults::first_failure(
                            stream.listener@.len(),
                            listeners_due(stream.listener@, stream.name@),
                        ),
                        faults::either(
                            instance_due(class_instance(stream.traffic_class_ref), stream.name@, "traffic-class-ref"@),
                            instance_due(schedule_instance(stream.schedule_ref), stream.name@, "schedule-ref"@),
                        ),
                    ),
                ),
            ),
        ),
    )
}

/// The failure of a stream: its rules first, then its references in document order.
pub open spec fn stream_due(stream: StreamDefinition) -> Option<Seq<char>> {
    faults::either(stream_rules_due(stream), stream_references_due(stream))
}

fn validate_stream_rules(stream: &StreamDefinition) -> (r: Outcome<()>)
    ensures
        error::checked(r, stream_rules_due(*stream)),
{
    if stream.listener.len() == 0 {
        return Err(stream_error(&stream.name, " must declare at least one <listener>"));
    }
    if stream.path.network.len() == 0 {
        return Err(stream_error(&stream.name, " path must declare at least one <network-ref>"));
    }
    if vlan_too_large(stream.vlan_id) {
        return Err(stream_error(&stream.name, " vlan-id must be in 0..=4094"));
    }
    if pcp_too_large(stream.pcp) {
        return Err(stream_error(&stream.name, " pcp must be in 0..=7"));
    }
    if stream.max_frame_size_bytes == 0 {
        return Err(stream_error(&stream.name, " max-frame-size-bytes must be greater than zero"));
    }
    if stream.interval_ns == 0 {
        return Err(stream_error(&stream.name, " interval-ns must be greater than zero"));
    }
    if latency_zero(stream.max_latency_ns) {
        return Err(stream_error(&stream.name, " max-latency-ns must be greater than zero when present"));
    }
    if too_few_trees(&stream.frer) {
        return Err(stream_error(&stream.name, " frer seamless-trees must be at least 2"));
    }
    Ok(())
}

/// The instance that a group reference names.
pub open spec fn group_instance(reference: Option<StreamGroupRef>) -> Option<InstanceRef> {
    match reference {
        Some(reference) => reference.instance,
        None => None,
    }
}

/// The instance that a traffic-class reference names.
pub open spec fn class_instance(reference: Option<TrafficClassRef>) -> Option<InstanceRef> {
    match reference {
        Some(reference) => reference.instance,
        None => None,
    }
}

/// The instance that a schedule reference names.
pub open spec fn schedule_instance(reference: Option<ScheduleRef>) -> Option<InstanceRef> {
    match reference {
        Some(reference) => reference.instance,
        None => None,
    }
}

fn validate_stream_references(stream: &StreamDefinition) -> (r: Outcome<()>)
    ensures
        error::checked(r, stream_references_due(*stream)),
{
    let name = &stream.name;
    if let Some(reference) = &stream.group_ref {
        let _ = validate_instance_ref(&reference.instance, name, "group-ref")?;
    }
    let _ = error::check_list(
        &stream.path.network,
        |network: &NetworkRef, index: usize| -> (r: Outcome<()>)
            ensures
                error::checked(r, instance_due(network.instance, name@, "path network-ref"@))
        { validate_instance_ref(&network.instance, name, "path network-ref") },
        Ghost(networks_due(stream.path.network@, name@)),
    )?;
    let _ = error::check_list(
        &stream.path.forwarding,
        |forwarding: &StreamForwarding, index: usize| -> (r: Outcome<()>)
            ensures
                error::checked(r, forwarding_due(*forwarding, name@))
        { validate_forwarding(forwarding, name) },
        Ghost(forwardings_due(stream.path.forwarding@, name@)),
    )?;
    let _ = validate_instance_ref(
        &stream.talker.participant.instance,
        name,
        "talker participant-ref",
    )?;
    let _ = error::check_list(
        &stream.listener,
        |listener: &StreamListener, index: usize| -> (r: Outcome<()>)
            ensures
                error::checked(
                    r,
                    instance_due(
                        listener.participant.instance,
                        name@,
                        "listener participant-ref"@,
                    ),
                )
        {
            validate_instance_ref(&listener.participant.instance, name, "listener participant-ref")
        },
        Ghost(listeners_due(stream.listener@, name@)),
    )?;
    if let Some(reference) = &stream.traffic_class_ref {
        let _ = validate_instance_ref(&reference.instance, name, "traffic-class-ref")?;
    }
    if let Some(reference) = &stream.schedule_ref {
        let _ = validate_instance_ref(&reference.instance, name, "schedule-ref")?;
    }
    Ok(())
}

/// The failure of the stream at a place of a document.
pub open spec fn streams_due(list: Seq<StreamDefinition>) -> spec_fn(int) -> Option<Seq<char>> {
    |i: int| stream_due(list[i])
}

impl StreamProfileDocument {
    /// The first failure of the streams of the document.
    pub open spec fn due(&self) -> Option<Seq<char>> {
        faults::first_failure(self.stream@.len(), streams_due(self.stream@))
    }

    /// Checks the rules that parsed and authored documents share.
    pub fn validate(&self) -> (r: Outcome<()>)
        ensures
            error::checked(r, self.due()),
    {
        error::check_list(
            &self.stream,
            |stream: &StreamDefinition, index: usize| -> (r: Outcome<()>)
                ensures
                    error::checked(r, stream_due(*stream))
            {
                let _ = validate_stream_rules(stream)?;
                validate_stream_references(stream)
            },
            Ghost(streams_due(self.stream@)),
        )
    }
}

/// A document passes exactly when each of its streams does, whatever the others are.
pub proof fn valid_means_every_stream_is(document: StreamProfileDocument)
    ensures
        document.due() is None <==> forall|i: int|
            0 <= i < document.stream@.len() ==> stream_due(#[trigger] document.stream@[i]) is None,
{
    let due = streams_due(document.stream@);
    faults::no_failure_means_none(document.stream@.len(), due);
    if document.due() is None {
        assert forall|i: int| 0 <= i < document.stream@.len() implies stream_due(
            #[trigger] document.stream@[i],
        ) is None by {
            assert(due(i) is None);
        }
    }
    if forall|i: int|
        0 <= i < document.stream@.len() ==> stream_due(#[trigger] document.stream@[i]) is None {
        assert forall|i: int| 0 <= i < document.stream@.len() implies #[trigger] due(
            i,
        ) is None by {
            assert(stream_due(document.stream@[i]) is None);
        }
    }
}

/// A stream that passes has a listener and a network, and its numbers are in range.
pub proof fn valid_stream_is_in_range(stream: StreamDefinition)
    requires
        stream_due(stream) is None,
    ensures
        stream.listener@.len() > 0,
        stream.path.network@.len() > 0,
        stream.vlan_id matches Some(id) ==> id <= 4094,
        stream.pcp matches Some(pcp) ==> pcp <= 7,
        stream.max_frame_size_bytes > 0,
        stream.interval_ns > 0,
        stream.max_latency_ns matches Some(latency) ==> latency > 0,
        stream.frer matches Some(frer) ==> frer.seamless_trees >= 2,
{
}

} // verus!
