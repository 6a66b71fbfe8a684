//! Stream profiles.
use hcdformat::error::Error;
use hcdformat::model::connectivity_xml::{InstanceRef, NetworkRef, ParticipantRef};
use hcdformat::model::stream_grammar::check_stream_profile_xml;
use hcdformat::model::stream_profile::{
    Frer, FrerSequenceEncoding, StreamDefinition, StreamListener, StreamPath,
    StreamProfileDocument, StreamTalker,
};

fn participant() -> ParticipantRef {
    ParticipantRef {
        network: "n".to_owned(),
        participant: "p".to_owned(),
        instance: None,
    }
}

fn stream() -> StreamDefinition {
    StreamDefinition {
        name: "s".to_owned(),
        vlan_id: Some(4094),
        pcp: Some(7),
        max_frame_size_bytes: 1,
        interval_ns: 1,
        max_latency_ns: Some(1),
        protocol: None,
        description: None,
        group_ref: None,
        path: StreamPath {
            network: vec![NetworkRef {
                network: "n".to_owned(),
                instance: None,
            }],
            forwarding: Vec::new(),
        },
        talker: StreamTalker {
            participant: participant(),
        },
        listener: vec![StreamListener {
            participant: participant(),
        }],
        traffic_class_ref: None,
        schedule_ref: None,
        frer: Some(Frer {
            seamless_trees: 2,
            sequence_encoding: FrerSequenceEncoding::RTag,
        }),
    }
}

fn document(stream: StreamDefinition) -> StreamProfileDocument {
    StreamProfileDocument {
        name: "d".to_owned(),
        version: "1".to_owned(),
        description: None,
        dependency: Vec::new(),
        stream_group: Vec::new(),
        stream: vec![stream],
    }
}

fn refusal(stream: StreamDefinition) -> String {
    match document(stream).validate() {
        Err(Error::Xml(words)) => words,
        other => panic!("{:?}", other),
    }
}

#[test]
fn values_at_the_edge_pass() {
    assert_eq!(document(stream()).validate(), Ok(()));
}

#[test]
fn each_rule_has_its_words() {
    let mut s = stream();
    s.listener.clear();
    assert_eq!(refusal(s), "stream \"s\" must declare at least one <listener>");
    let mut s = stream();
    s.path.network.clear();
    assert_eq!(
        refusal(s),
        "stream \"s\" path must declare at least one <network-ref>"
    );
    let mut s = stream();
    s.vlan_id = Some(4095);
    assert_eq!(refusal(s), "stream \"s\" vlan-id must be in 0..=4094");
    let mut s = stream();
    s.pcp = Some(8);
    assert_eq!(refusal(s), "stream \"s\" pcp must be in 0..=7");
    let mut s = stream();
    s.max_frame_size_bytes = 0;
    assert_eq!(
        refusal(s),
        "stream \"s\" max-frame-size-bytes must be greater than zero"
    );
    let mut s = stream();
    s.interval_ns = 0;
    assert_eq!(refusal(s), "stream \"s\" interval-ns must be greater than zero");
    let mut s = stream();
    s.max_latency_ns = Some(0);
    assert_eq!(
        refusal(s),
        "stream \"s\" max-latency-ns must be greater than zero when present"
    );
    let mut s = stream();
    s.frer = Some(Frer {
        seamless_trees: 1,
        sequence_encoding: FrerSequenceEncoding::Hsr,
    });
    assert_eq!(refusal(s), "stream \"s\" frer seamless-trees must be at least 2");
    let mut s = stream();
    s.talker.participant.instance = Some(InstanceRef {
        segment: Vec::new(),
    });
    assert_eq!(
        refusal(s),
        "stream \"s\" talker participant-ref instance must declare at least one <segment>"
    );
}

fn grammar_error(source: &str) -> String {
    match check_stream_profile_xml(source) {
        Err(Error::Xml(words)) => words,
        other => panic!("{:?}", other),
    }
}

#[test]
fn the_grammar_takes_a_whole_profile() {
    let source = r#"<?xml version="1.0"?>
<stream-profile name="p" version="1">
  <description>any <![CDATA[text]]></description>
  <dependency uri="u"/>
  <stream name="s" interval-ns="1" max-frame-size-bytes="1">
    <path><network-ref network="n"><instance><segment name="i" occurrence="1"/></instance></network-ref></path>
    <talker><participant-ref network="n" participant="a"/></talker>
    <listener><participant-ref network="n" participant="b"/></listener>
    <listener><participant-ref network="n" participant="c"/></listener>
  </stream>
</stream-profile>
"#;
    assert_eq!(check_stream_profile_xml(source), Ok(()));
}

#[test]
fn the_grammar_says_what_is_wrong() {
    assert_eq!(grammar_error("  "), "expected root <stream-profile> element");
    assert_eq!(
        grammar_error("<other/>"),
        "expected root <stream-profile>, found <other> near byte 8"
    );
    assert_eq!(
        grammar_error("<stream-profile><x/></stream-profile>"),
        "unknown stream-profile core element <x> inside <stream-profile> near byte 20"
    );
    assert_eq!(
        grammar_error("<stream-profile><dependency/><description/></stream-profile>"),
        "stream-profile element <description> is out of order inside <stream-profile> near byte 43"
    );
    assert_eq!(
        grammar_error("<stream-profile><description/><description/></stream-profile>"),
        "stream-profile element <description> occurs too many times inside <stream-profile> near byte 44"
    );
    assert_eq!(
        grammar_error("<stream-profile><stream/></stream-profile>"),
        "stream-profile element <stream> must declare at least one <path> child element near byte 25"
    );
    assert_eq!(
        grammar_error("<stream-profile bad='1'/>"),
        "unknown stream-profile core attribute @bad on <stream-profile>"
    );
    assert_eq!(
        grammar_error("<n:stream-profile/>"),
        "namespaced stream-profile core element <stream-profile> is not allowed near byte 19"
    );
    assert_eq!(
        grammar_error("<stream-profile xmlns='u'/>"),
        "namespaced stream-profile core element <stream-profile> is not allowed near byte 27"
    );
    assert_eq!(
        grammar_error("<stream-profile>words</stream-profile>"),
        "unexpected character content in stream-profile core element <stream-profile> near byte 21"
    );
    assert!(matches!(
        check_stream_profile_xml("<stream-profile></other>"),
        Err(Error::Xml(_))
    ));
}
