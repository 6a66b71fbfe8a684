//! Components, assemblies, bindings and mates, and their canonical form.
use hcdformat::float::Float64;
use hcdformat::model::connectivity::{
    AssemblyKind, Carrier, DocumentIdentity, Fidelity, FunctionKind, JunctionKind, PathKind,
    Purpose, TerminationMounting,
};
use hcdformat::model::connectivity_xml::{
    Antenna, Assembly, Binding, Capabilities, CarrierCapability, Channel, ComponentRef,
    ConnectorRef, Function, FunctionalEndpointChoice, FunctionalEndpointRef, Hop, HopOwnerChoice,
    HopOwnerRef, HopRef, Junction, Leg, LegEnd, Mate, NamedQuantity, NetworkSelection,
    ParticipantRef, Path, PhysicalEndpointChoice, PhysicalEndpointRef, PhysicalOwnerChoice, Port,
    PortRef, PositionMapping, PositionRef, ProfileCapability, PurposeCapability, QuantityRange,
    Ring, Termination,
};
use hcdformat::model::{Comp, Hcdf};

const ONE: Float64 = Float64 {
    bits: 0x3ff0_0000_0000_0000,
};

fn port(name: &str) -> PortRef {
    PortRef {
        component: "board".to_owned(),
        port: name.to_owned(),
        instance: None,
    }
}

fn endpoint(name: &str) -> FunctionalEndpointRef {
    FunctionalEndpointRef {
        endpoint: FunctionalEndpointChoice::Port(port(name)),
    }
}

fn owner() -> PhysicalOwnerChoice {
    PhysicalOwnerChoice::Component(ComponentRef {
        component: "board".to_owned(),
        instance: None,
    })
}

fn pin(name: &str) -> PositionRef {
    PositionRef {
        connector: "J1".to_owned(),
        position: name.to_owned(),
        owner: owner(),
    }
}

fn at(name: &str) -> PhysicalEndpointRef {
    PhysicalEndpointRef {
        endpoint: PhysicalEndpointChoice::Position(pin(name)),
    }
}

fn path(name: &str) -> Path {
    Path {
        name: name.to_owned(),
        fidelity: Fidelity::Exact,
        role: None,
        local_group: None,
        first: at("1"),
        second: at("2"),
        representation: None,
    }
}

fn termination(kind: &str, property: &str) -> Termination {
    Termination {
        name: "end".to_owned(),
        kind: kind.to_owned(),
        mounting: TerminationMounting::Inline,
        fidelity: Fidelity::Presented,
        profile: None,
        attachment: vec![at("2")],
        quantity: vec![NamedQuantity {
            property: property.to_owned(),
            value: ONE,
            unit: "ohm".to_owned(),
        }],
        representation: None,
    }
}

fn function(name: &str) -> Function {
    Function {
        name: name.to_owned(),
        input: vec![endpoint("in")],
        output: vec![endpoint("out")],
        bidirectional: Vec::new(),
    }
}

fn junction(name: &str) -> Junction {
    Junction {
        name: name.to_owned(),
        attachment: vec![at("1"), at("2")],
        ..Default::default()
    }
}

fn board() -> Comp {
    Comp {
        name: "board".to_owned(),
        port: vec![Port {
            name: "eth0".to_owned(),
            capabilities: Some(Capabilities {
                purpose: vec![
                    PurposeCapability {
                        value: Purpose::PowerDelivery,
                    },
                    PurposeCapability {
                        value: Purpose::Communication,
                    },
                    PurposeCapability {
                        value: Purpose::PowerDelivery,
                    },
                ],
                carrier: vec![CarrierCapability {
                    value: Carrier::Gas,
                }],
                profile: vec![ProfileCapability {
                    id: "ieee:802.3".to_owned(),
                }],
                voltage: Some(QuantityRange {
                    nominal: Some(ONE),
                    unit: "V".to_owned(),
                    ..Default::default()
                }),
                ..Default::default()
            }),
            channel: vec![Channel {
                name: "tx".to_owned(),
                role: Some("acme:send".to_owned()),
                ..Default::default()
            }],
        }],
        antenna: vec![Antenna {
            name: "whip".to_owned(),
            conducted_port: None,
            radiated_port: port("air"),
            representation: None,
        }],
        radio: vec![function("r")],
        switch: vec![function("s1"), function("s2")],
        fiber: vec![path("f")],
        wire: vec![path("w")],
        tee: vec![junction("t")],
        splice: vec![junction("x")],
        termination: vec![termination("acme:resistor", "si:resistance")],
        ..Default::default()
    }
}

fn identity() -> DocumentIdentity {
    DocumentIdentity::new("doc".to_owned()).unwrap()
}

fn refusal(doc: &Hcdf) -> (String, String) {
    let error = doc.to_connectivity_document(identity()).unwrap_err();
    (error.code().to_owned(), error.path().to_owned())
}

fn with(comp: Comp) -> Hcdf {
    Hcdf {
        comp: vec![comp],
        ..Default::default()
    }
}

#[test]
fn a_component_is_carried_over() {
    let graph = with(board()).to_connectivity_document(identity()).unwrap();
    let made = &graph.scopes[0].components[0];
    assert_eq!(made.component, "board");
    let capabilities = &made.ports[0].capabilities;
    assert_eq!(
        capabilities.purposes.as_slice(),
        &[Purpose::Communication, Purpose::PowerDelivery]
    );
    assert_eq!(capabilities.carriers.as_slice(), &[Carrier::Gas]);
    assert_eq!(capabilities.profiles.as_slice()[0].as_str(), "ieee:802.3");
    let voltage = capabilities.limits.voltage.as_ref().unwrap();
    assert!(voltage.minimum.is_none());
    assert_eq!(voltage.nominal.as_ref().unwrap().unit, "V");
    assert!(capabilities.limits.rate.is_none());
    let channel = &made.ports[0].channels[0];
    assert_eq!(channel.role.as_ref().unwrap().as_str(), "acme:send");
    assert!(channel.capabilities.purposes.as_slice().is_empty());
    assert_eq!(made.antennas[0].radiated_port.port, "air");
    let functions: Vec<(&str, FunctionKind)> = made
        .functions
        .iter()
        .map(|f| (f.name.as_str(), f.kind))
        .collect();
    assert_eq!(
        functions,
        vec![
            ("s1", FunctionKind::Switch),
            ("s2", FunctionKind::Switch),
            ("r", FunctionKind::Radio),
        ]
    );
    assert_eq!(made.functions[0].inputs.len(), 1);
    let paths: Vec<(&str, PathKind)> =
        made.paths.iter().map(|p| (p.name.as_str(), p.kind)).collect();
    assert_eq!(paths, vec![("w", PathKind::Wire), ("f", PathKind::Fiber)]);
    let junctions: Vec<(&str, JunctionKind)> = made
        .junctions
        .iter()
        .map(|j| (j.name.as_str(), j.kind))
        .collect();
    assert_eq!(
        junctions,
        vec![("x", JunctionKind::Splice), ("t", JunctionKind::Tee)]
    );
    assert_eq!(made.junctions[0].attachments.len(), 2);
    let end = &made.terminations[0];
    assert_eq!(end.kind.as_str(), "acme:resistor");
    assert_eq!(end.mounting, TerminationMounting::Inline);
    assert_eq!(end.quantities[0].property.as_str(), "si:resistance");
    assert_eq!(end.quantities[0].quantity.unit, "ohm");
}

#[test]
fn the_parts_of_a_termination_fail_in_order() {
    let mut comp = board();
    comp.termination = vec![termination("plain", "plain")];
    assert_eq!(
        refusal(&with(comp)),
        (
            "E_CONN_QUALIFIED_ID".to_owned(),
            "comp \"board\"/termination \"end\"/quantity[0]/@property".to_owned()
        )
    );
    let mut comp = board();
    comp.termination = vec![termination("plain", "si:resistance")];
    assert_eq!(
        refusal(&with(comp)).1,
        "comp \"board\"/termination \"end\"/@kind"
    );
}

#[test]
fn assemblies_bindings_and_mates_are_carried_over() {
    let connector = || ConnectorRef {
        connector: "J1".to_owned(),
        owner: owner(),
    };
    let doc = Hcdf {
        cable: vec![Assembly {
            name: "c".to_owned(),
            wire: vec![path("w")],
            ..Default::default()
        }],
        harness: vec![Assembly {
            name: "h".to_owned(),
            ..Default::default()
        }],
        binding: vec![Binding {
            name: "b".to_owned(),
            fidelity: Fidelity::Functional,
            functional: endpoint("eth0"),
            physical: at("1"),
        }],
        mate: vec![Mate {
            name: "m".to_owned(),
            fidelity: Fidelity::Quantified,
            first: connector(),
            second: connector(),
            position_mapping: vec![PositionMapping {
                first: pin("1"),
                second: pin("2"),
            }],
        }],
        ..with(board())
    };
    let graph = doc.to_connectivity_document(identity()).unwrap();
    let scope = &graph.scopes[0];
    let assemblies: Vec<(&str, AssemblyKind)> = scope
        .assemblies
        .iter()
        .map(|a| (a.name.as_str(), a.kind))
        .collect();
    assert_eq!(
        assemblies,
        vec![("h", AssemblyKind::Harness), ("c", AssemblyKind::Cable)]
    );
    assert_eq!(scope.assemblies[1].paths[0].kind, PathKind::Wire);
    assert_eq!(scope.bindings[0].name, "b");
    assert_eq!(scope.mates[0].mappings[0].second.position, "2");
    assert!(scope.mates[0].fidelity.is_exact());
}

#[test]
fn a_ring_has_hops_and_legs() {
    let leg_end = |hop: &str| LegEnd {
        hop: HopRef {
            network: "loop".to_owned(),
            hop: hop.to_owned(),
            instance: None,
        },
        participant: ParticipantRef {
            network: "loop".to_owned(),
            participant: "p".to_owned(),
            instance: None,
        },
    };
    let ring = Ring {
        name: "loop".to_owned(),
        description: None,
        selected: Some(NetworkSelection {
            purpose: Purpose::Communication,
            carrier: Carrier::GuidedOptical,
            profile: Vec::new(),
            rate: None,
            voltage: None,
            current: None,
            power: None,
            impedance: None,
            frequency: None,
            rf: None,
            pressure: None,
            flow: None,
            temperature: None,
        }),
        configuration: None,
        participant: Vec::new(),
        hop: vec![Hop {
            name: "a".to_owned(),
            role: None,
            processing_delay_ns: Some(12),
            description: None,
            owner: HopOwnerRef {
                owner: HopOwnerChoice::Component(ComponentRef {
                    component: "board".to_owned(),
                    instance: None,
                }),
            },
        }],
        leg: vec![Leg {
            name: "l".to_owned(),
            from: leg_end("a"),
            to: leg_end("b"),
        }],
    };
    let doc = Hcdf {
        ring: vec![ring],
        ..with(board())
    };
    let graph = doc.to_connectivity_document(identity()).unwrap();
    let structure = &graph.scopes[0].networks[0].structure;
    assert_eq!(structure.hops().len(), 1);
    assert_eq!(structure.hops()[0].processing_delay_ns, Some(12));
    assert_eq!(structure.legs()[0].to.hop.hop, "b");
}
