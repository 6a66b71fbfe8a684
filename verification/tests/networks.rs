//! Networks of a document and their canonical form.
use hcdformat::float::Float64;
use hcdformat::model::connectivity::{
    Carrier, DocumentIdentity, Fidelity, MacsecEnforcement, NetworkStructure, Purpose,
    ReferenceScope, TrafficPreemption,
};
use hcdformat::model::connectivity_xml::{
    ComponentOriginFrame, ComponentRef, FunctionalEndpointChoice, FunctionalEndpointRef,
    GateControlEntry, GateSchedule, InstanceRef, InstanceSegment, Link, MacsecConfiguration,
    MacsecPolicyDefinition, ModelRepresentation, NetworkConfiguration, NetworkSelection,
    OpenTrafficClasses, Participant, ParticipantRef, Path, PcpValue, PhysicalEndpointChoice,
    PhysicalEndpointRef, PhysicalOwnerChoice, Placement, PlacementRotation,
    PlacementRotationChoice, PlcaConfiguration, PlcaNode, PortRef, PositionRef, Representation,
    RepresentationChoice, RouteFrame, RouteFrameChoice, RpyRotation, SelectedProfile,
    TrafficClass, TrafficClassRef,
};
use hcdformat::model::{Comp, Hcdf};

const ZERO: Float64 = Float64 { bits: 0 };

fn selection(profiles: &[&str]) -> NetworkSelection {
    NetworkSelection {
        purpose: Purpose::Communication,
        carrier: Carrier::Electrical,
        profile: profiles
            .iter()
            .map(|id| SelectedProfile { id: id.to_string() })
            .collect(),
        rate: None,
        voltage: None,
        current: None,
        power: None,
        impedance: None,
        frequency: None,
        rf: None,
        pressure: None,
        flow: None,
        temperature: None,
    }
}

fn participant(role: Option<&str>) -> Participant {
    Participant {
        name: "mcu".to_owned(),
        role: role.map(str::to_owned),
        endpoint: FunctionalEndpointRef {
            endpoint: FunctionalEndpointChoice::Port(PortRef {
                component: "board".to_owned(),
                port: "eth0".to_owned(),
                instance: None,
            }),
        },
    }
}

fn participant_ref(instance: Option<InstanceRef>) -> ParticipantRef {
    ParticipantRef {
        network: "lan".to_owned(),
        participant: "mcu".to_owned(),
        instance,
    }
}

fn class_ref(name: &str) -> TrafficClassRef {
    TrafficClassRef {
        network: "lan".to_owned(),
        traffic_class: name.to_owned(),
        instance: None,
    }
}

fn traffic_class(pcp: &[u8]) -> TrafficClass {
    TrafficClass {
        name: "control".to_owned(),
        number: 7,
        preemption: Some(TrafficPreemption::Express),
        description: None,
        pcp: pcp.iter().map(|value| PcpValue { value: *value }).collect(),
    }
}

fn schedule(open: &[&str]) -> GateSchedule {
    GateSchedule {
        name: "cycle".to_owned(),
        cycle_time_ns: 1000,
        gate: vec![GateControlEntry {
            duration_ns: 400,
            open: OpenTrafficClasses {
                traffic_class: open.iter().map(|name| class_ref(name)).collect(),
            },
        }],
    }
}

fn configuration() -> NetworkConfiguration {
    NetworkConfiguration {
        gptp_domain: Vec::new(),
        traffic_class: vec![traffic_class(&[6, 2, 4])],
        gate_schedule: vec![schedule(&["video", "control"])],
        schedule_assignment: Vec::new(),
        plca: Some(PlcaConfiguration {
            max_node_id: 8,
            to_timer_bit_times: 32,
            node: vec![PlcaNode {
                id: 3,
                burst_count: 1,
                burst_timer_bit_times: 128,
                participant: participant_ref(None),
            }],
        }),
        macsec: None,
        eee: None,
    }
}

fn link(selected: Option<NetworkSelection>, configuration: Option<NetworkConfiguration>) -> Link {
    Link {
        name: "lan".to_owned(),
        description: Some("in the arm".to_owned()),
        selected,
        configuration,
        participant: vec![participant(Some("ieee:leader"))],
    }
}

fn document(link: Link) -> Hcdf {
    Hcdf {
        link: vec![link],
        ..Default::default()
    }
}

fn identity() -> DocumentIdentity {
    DocumentIdentity::new("doc".to_owned()).unwrap()
}

fn refusal(document: &Hcdf) -> (String, String, String) {
    let error = document.to_connectivity_document(identity()).unwrap_err();
    (
        error.code().to_owned(),
        error.path().to_owned(),
        error.reason().to_owned(),
    )
}

fn refused(code: &str, path: &str, reason: &str) -> (String, String, String) {
    (code.to_owned(), path.to_owned(), reason.to_owned())
}

#[test]
fn a_configuration_is_carried_over() {
    let doc = document(link(
        Some(selection(&["ieee:802.1", "acme:x"])),
        Some(configuration()),
    ));
    let graph = doc.to_connectivity_document(identity()).unwrap();
    let network = &graph.scopes[0].networks[0];
    assert_eq!(network.name, "lan");
    assert_eq!(network.structure, NetworkStructure::Link);
    assert_eq!(network.description.as_deref(), Some("in the arm"));
    let profiles: Vec<&str> = network
        .selected
        .profiles
        .as_slice()
        .iter()
        .map(|id| id.as_str())
        .collect();
    assert_eq!(profiles, vec!["acme:x", "ieee:802.1"]);
    assert_eq!(
        network.participants[0].role.as_ref().unwrap().as_str(),
        "ieee:leader"
    );
    let made = &network.configuration;
    assert_eq!(made.traffic_classes[0].number, 7);
    assert_eq!(made.traffic_classes[0].pcp.iter().copied().collect::<Vec<u8>>(), vec![2, 4, 6]);
    let gate = &made.gate_schedules[0].entries[0];
    assert_eq!(gate.duration_ns, 400);
    let open: Vec<&str> = gate
        .open
        .as_slice()
        .iter()
        .map(|class| class.traffic_class.as_str())
        .collect();
    assert_eq!(open, vec!["control", "video"]);
    let plca = made.plca.as_ref().unwrap();
    assert_eq!((plca.max_node_id, plca.nodes[0].node_id), (8, 3));
    assert_eq!(plca.nodes[0].participant.network.scope, ReferenceScope::Local);
    assert!(made.macsec.is_none());
}

#[test]
fn a_network_without_a_configuration_has_an_empty_one() {
    let doc = document(link(Some(selection(&[])), None));
    let graph = doc.to_connectivity_document(identity()).unwrap();
    assert!(graph.scopes[0].networks[0].configuration.is_empty());
}

#[test]
fn a_network_needs_a_selection() {
    assert_eq!(
        refusal(&document(link(None, None))),
        refused(
            "E_CONN_SELECTED_REQUIRED",
            "link \"lan\"/selected",
            "network requires an explicit selected configuration"
        )
    );
}

#[test]
fn profiles_are_qualified_and_named_once() {
    assert_eq!(
        refusal(&document(link(Some(selection(&["a:b", "a:b"])), None))),
        refused(
            "E_CONN_DUPLICATE_PROFILE",
            "link \"lan\"/selected/profile[1]/@id",
            "duplicate profile declaration a:b"
        )
    );
    assert_eq!(
        refusal(&document(link(Some(selection(&["plain"])), None))),
        refused(
            "E_CONN_QUALIFIED_ID",
            "link \"lan\"/selected/profile[0]/@id",
            "invalid qualified identifier: qualified identifier \"plain\" must use a safe ASCII \
             authority:local token"
        )
    );
}

#[test]
fn priorities_and_open_classes_stand_once() {
    let mut twice = configuration();
    twice.traffic_class = vec![traffic_class(&[5, 1, 5])];
    assert_eq!(
        refusal(&document(link(Some(selection(&[])), Some(twice)))),
        refused(
            "E_CONN_DUPLICATE_PCP",
            "link \"lan\"/configuration/traffic-class \"control\"/pcp[2]",
            "duplicate PCP 5"
        )
    );
    let mut twice = configuration();
    twice.gate_schedule = vec![schedule(&["video", "video"])];
    assert_eq!(
        refusal(&document(link(Some(selection(&[])), Some(twice)))),
        refused(
            "E_CONN_DUPLICATE_TRAFFIC_CLASS_REF",
            "link \"lan\"/configuration/gate-schedule \"cycle\"/gate[0]",
            "duplicate open traffic-class reference \"video\""
        )
    );
}

#[test]
fn ciphers_are_qualified() {
    let mut bad = configuration();
    bad.macsec = Some(MacsecConfiguration {
        policy: vec![MacsecPolicyDefinition {
            name: "p".to_owned(),
            enforcement: MacsecEnforcement::MustSecure,
            cipher: Some(":".to_owned()),
            key_agreement: None,
            confidentiality_offset: None,
            rekey_interval_ns: None,
            credential_store_ref: None,
        }],
        default_policy: None,
        override_: Vec::new(),
    });
    let (code, path, _) = refusal(&document(link(Some(selection(&[])), Some(bad))));
    assert_eq!(code, "E_CONN_QUALIFIED_ID");
    assert_eq!(path, "link \"lan\"/configuration/macsec/policy[0]/@cipher");
}

#[test]
fn the_first_failure_is_reported() {
    // The participants come before the selection, and the selection before the configuration.
    let mut doc = document(link(None, None));
    doc.link[0].participant = vec![participant(Some("nobody"))];
    assert_eq!(refusal(&doc).1, "link \"lan\"/participant \"mcu\"/@role");
    let mut twice = configuration();
    twice.traffic_class = vec![traffic_class(&[5, 5])];
    let doc = document(link(Some(selection(&["plain"])), Some(twice)));
    assert_eq!(refusal(&doc).0, "E_CONN_QUALIFIED_ID");
}

#[test]
fn instances_of_a_configuration_have_names() {
    let mut bad = configuration();
    bad.plca.as_mut().unwrap().node[0].participant = participant_ref(Some(InstanceRef {
        segment: vec![InstanceSegment {
            name: Some(String::new()),
            occurrence: 0,
        }],
    }));
    assert_eq!(
        refusal(&document(link(Some(selection(&[])), Some(bad)))),
        refused(
            "E_CONN_CONVERSION",
            "link \"lan\"/configuration/plca/node[0]/participant-ref",
            "named instance segment names must not be empty"
        )
    );
}

fn pin(component: &str) -> PhysicalEndpointRef {
    PhysicalEndpointRef {
        endpoint: PhysicalEndpointChoice::Position(PositionRef {
            connector: "J1".to_owned(),
            position: "1".to_owned(),
            owner: PhysicalOwnerChoice::Component(ComponentRef {
                component: component.to_owned(),
                instance: None,
            }),
        }),
    }
}

fn wired(second: &str, representation: Option<Representation>) -> Hcdf {
    Hcdf {
        comp: vec![Comp {
            name: "board".to_owned(),
            wire: vec![Path {
                name: "w".to_owned(),
                fidelity: Fidelity::Functional,
                role: None,
                local_group: None,
                first: pin("board"),
                second: pin(second),
                representation,
            }],
            ..Default::default()
        }],
        ..Default::default()
    }
}

#[test]
fn references_are_not_blank() {
    let doc = wired("board", None);
    let graph = doc.to_connectivity_document(identity()).unwrap();
    assert_eq!(graph.scopes[0].components[0].paths[0].name, "w");
    assert_eq!(
        refusal(&wired(" ", None)),
        refused(
            "E_CONN_EMPTY_REFERENCE",
            "comp \"board\"/wire \"w\"/second/position-ref/component-ref/@component",
            "physical owner component must not be empty"
        )
    );
}

#[test]
fn frames_of_a_placement_are_not_blank() {
    let model = Representation {
        variant: RepresentationChoice::Model(ModelRepresentation {
            uri: "w.glb".to_owned(),
            sha: None,
            node_path: None,
            placement: Placement {
                xyz: [ZERO; 3],
                frame: RouteFrame {
                    frame: RouteFrameChoice::ComponentOrigin(ComponentOriginFrame {
                        component: String::new(),
                        instance: None,
                    }),
                },
                rotation: PlacementRotation {
                    rotation: PlacementRotationChoice::Rpy(RpyRotation { value: [ZERO; 3] }),
                },
            },
        }),
    };
    let (code, path, reason) = refusal(&wired("board", Some(model)));
    assert_eq!(code, "E_CONN_FRAME_REFERENCE");
    assert_eq!(
        path,
        "comp \"board\"/wire \"w\"/representation/model/placement"
    );
    assert_eq!(reason, "placement component must not be empty");
}
