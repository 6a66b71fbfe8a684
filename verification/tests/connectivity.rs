//! Canonical connectivity.
use hcdformat::float::Float64;
use hcdformat::model::connectivity::{
    ComponentRef, ConnectivityDocument, DocumentIdentity, IdentityValueError, IncludeInstanceId, QualifiedId,
    ReferenceScope, Representation as CanonicalRepresentation,
};
use hcdformat::model::connectivity_xml::{
    Assembly, AssemblyModelRoot, ComponentVisualRoot, Connector, InstanceRef,
    InstanceSegment, ModelPartRepresentation, ModelRepresentation, ModelRoot, ModelRootChoice,
    Placement, PlacementRotation, PlacementRotationChoice, Position, Representation,
    RepresentationChoice, RouteFrame, RouteFrameChoice, RpyRotation, WorldRouteFrame,
};
use hcdformat::model::enums::{AudioSensorType, CompRole, NoiseType};
use hcdformat::model::{
    Comp, Hcdf, HcdfConnectivityError, Include, ModelRef, Pose, Visual, VisualAppearance,
};

const ZERO: Float64 = Float64 { bits: 0 };

fn placement() -> Placement {
    Placement {
        xyz: [ZERO; 3],
        frame: RouteFrame {
            frame: RouteFrameChoice::World(WorldRouteFrame {}),
        },
        rotation: PlacementRotation {
            rotation: PlacementRotationChoice::Rpy(RpyRotation { value: [ZERO; 3] }),
        },
    }
}

fn part(root: ModelRootChoice, node_path: &str) -> Option<Representation> {
    Some(Representation {
        variant: RepresentationChoice::ModelPart(ModelPartRepresentation {
            model_root: ModelRoot { root },
            node_path: node_path.to_owned(),
            submesh_fallback: None,
        }),
    })
}

fn visual_root(component: &str, visual: &str) -> ModelRootChoice {
    ModelRootChoice::ComponentVisual(ComponentVisualRoot {
        component: component.to_owned(),
        visual: visual.to_owned(),
        instance: None,
    })
}

fn document(representation: Option<Representation>) -> Hcdf {
    Hcdf {
        comp: vec![Comp {
            name: "board".to_owned(),
            visual: vec![
                Visual {
                    name: "shell".to_owned(),
                    appearance: VisualAppearance::Model {
                        model: ModelRef {
                            uri: Some("shell.glb".to_owned()),
                            ..Default::default()
                        },
                        geometry: None,
                    },
                    ..Default::default()
                },
                Visual {
                    name: "ball".to_owned(),
                    ..Default::default()
                },
            ],
            connector: vec![Connector {
                name: "J1".to_owned(),
                pin: vec![Position {
                    name: "1".to_owned(),
                    representation,
                    ..Default::default()
                }],
                ..Default::default()
            }],
            ..Default::default()
        }],
        ..Default::default()
    }
}

fn identity() -> DocumentIdentity {
    DocumentIdentity::new("doc".to_owned()).unwrap()
}

#[test]
fn a_document_becomes_one_scope() {
    let doc = document(part(visual_root("board", "shell"), "root/pin1"));
    let graph = doc.to_connectivity_document(identity()).unwrap();
    assert_eq!(graph.document.as_str(), "doc");
    assert_eq!(graph.scopes.len(), 1);
    let scope = &graph.scopes[0];
    assert!(scope.instance.is_root());
    assert_eq!(scope.structural_anchors.len(), 1);
    assert_eq!(scope.components[0].connectors[0].name, "J1");
    let position = &scope.components[0].connectors[0].positions[0];
    assert_eq!(position.name, "1");
    assert!(matches!(
        position.representation,
        Some(CanonicalRepresentation::ModelPart(_))
    ));
}

#[test]
fn selectors_must_select() {
    let cases = vec![
        (
            part(visual_root("board", "shell"), "  "),
            "E_CONN_REPRESENTATION_SHAPE",
            "model-part @node-path must not be empty",
        ),
        (
            part(visual_root("other", "shell"), "n"),
            "E_CONN_UNRESOLVED_REFERENCE",
            "component-visual selector requires exactly one component \"other\"",
        ),
        (
            part(visual_root("board", "lid"), "n"),
            "E_CONN_UNRESOLVED_REFERENCE",
            "component-visual selector requires exactly one visual \"lid\"",
        ),
        (
            part(visual_root("board", "ball"), "n"),
            "E_CONN_MODEL_ROOT_TYPE",
            "component-visual selector requires a visual backed by a model",
        ),
        (
            part(
                ModelRootChoice::AssemblyModel(AssemblyModelRoot {
                    assembly: "loom".to_owned(),
                    instance: None,
                }),
                "n",
            ),
            "E_CONN_UNRESOLVED_REFERENCE",
            "assembly-model selector requires exactly one assembly \"loom\"",
        ),
    ];
    for (representation, code, reason) in cases {
        let error = document(representation)
            .to_connectivity_document(identity())
            .unwrap_err();
        assert_eq!(error.code(), code);
        assert_eq!(error.reason(), reason);
    }
}

#[test]
fn an_assembly_needs_a_model_to_be_selected_from() {
    let root = ModelRootChoice::AssemblyModel(AssemblyModelRoot {
        assembly: "loom".to_owned(),
        instance: None,
    });
    let mut doc = document(part(root, "n"));
    doc.harness = vec![Assembly {
        name: "loom".to_owned(),
        ..Default::default()
    }];
    let error = doc.to_connectivity_document(identity()).unwrap_err();
    assert_eq!(error.code(), "E_CONN_MODEL_ROOT_TYPE");
    doc.harness[0].representation = Some(Representation {
        variant: RepresentationChoice::Model(ModelRepresentation {
            uri: "loom.glb".to_owned(),
            sha: None,
            node_path: None,
            placement: placement(),
        }),
    });
    assert!(doc.to_connectivity_document(identity()).is_ok());
}

#[test]
fn instances_are_spelled_out() {
    let root = ModelRootChoice::ComponentVisual(ComponentVisualRoot {
        component: "board".to_owned(),
        visual: "shell".to_owned(),
        instance: Some(InstanceRef {
            segment: vec![InstanceSegment {
                name: Some("arm".to_owned()),
                occurrence: 1,
            }],
        }),
    });
    assert!(document(part(root, "n"))
        .to_connectivity_scope(IncludeInstanceId::root().named_child("x".to_owned(), 1))
        .is_ok());
    let empty = ModelRootChoice::ComponentVisual(ComponentVisualRoot {
        component: "board".to_owned(),
        visual: "shell".to_owned(),
        instance: Some(InstanceRef {
            segment: Vec::new(),
        }),
    });
    let error = document(part(empty, "n"))
        .to_connectivity_document(identity())
        .unwrap_err();
    assert_eq!(error.code(), "E_CONN_CONVERSION");
    assert_eq!(
        error.reason(),
        "an explicit instance reference must contain at least one segment"
    );
}

#[test]
fn inclusions_must_be_resolved_first() {
    let doc = Hcdf {
        includes: vec![Include::default()],
        ..Default::default()
    };
    let error = doc.to_connectivity_document(identity()).unwrap_err();
    assert_eq!(error.code(), "E_CONN_DOCUMENT_SET_REQUIRED");
    assert_eq!(error.path(), "hcdf/include");
}

#[test]
fn connectors_keep_their_order() {
    let mut doc = document(None);
    doc.comp[0].connector = vec![
        Connector {
            name: "b".to_owned(),
            ..Default::default()
        },
        Connector {
            name: "a".to_owned(),
            ..Default::default()
        },
    ];
    let graph = doc.to_connectivity_document(identity()).unwrap();
    let names: Vec<&str> = graph.scopes[0].components[0]
        .connectors
        .iter()
        .map(|c| c.name.as_str())
        .collect();
    assert_eq!(names, vec!["b", "a"]);
}

#[test]
fn identities_are_checked() {
    assert_eq!(
        DocumentIdentity::new(String::new()).unwrap_err(),
        IdentityValueError::EmptyDocumentIdentity
    );
    assert_eq!(QualifiedId::new("a:b".to_owned()).unwrap().as_str(), "a:b");
    assert_eq!(
        QualifiedId::new("plain".to_owned()).unwrap_err().message(),
        "qualified identifier \"plain\" must use a safe ASCII authority:local token"
    );
    assert_eq!(
        IdentityValueError::EmptyDocumentIdentity.message(),
        "document identity must not be empty"
    );
}

#[test]
fn instance_paths_resolve_below_their_scope() {
    let local = IncludeInstanceId::root().named_child("a".to_owned(), 1);
    let relative = IncludeInstanceId::root()
        .unnamed_child(2)
        .child("c".to_owned(), 3);
    let scope = ReferenceScope::Instance(relative);
    let reached = scope.resolve(&local);
    assert_eq!(
        reached.display_path(),
        "named(\"a\")#1 / unnamed#2 / named(\"c\")#3"
    );
    assert_eq!(ReferenceScope::Local.resolve(&local), local);
    assert_eq!(reached.parent().unwrap().parent().unwrap(), local);
    assert_eq!(IncludeInstanceId::root().display_path(), "<root>");
    assert_eq!(IncludeInstanceId::root().parent(), None);
    assert_eq!(
        ComponentRef::local("x".to_owned()).scope,
        ReferenceScope::Local
    );
}

#[test]
fn vocabularies_read_and_write_their_literals() {
    for literal in AudioSensorType::valid_values() {
        assert_eq!(AudioSensorType::from_str(literal).unwrap().as_str(), *literal);
    }
    assert!(AudioSensorType::from_str("Sonar").is_err());
    assert_eq!(CompRole::Actuator.as_str(), "actuator");
    assert_eq!(NoiseType::from_str("none"), Ok(NoiseType::Absent));
}

#[test]
fn missing_parts_of_a_pose_are_zero() {
    let one = Float64 {
        bits: 0x3ff0_0000_0000_0000,
    };
    let pose = Pose {
        xyz: Some([one; 3]),
        rpy: None,
        quat: None,
    };
    assert_eq!(pose.xyz_or_zero(), [one; 3]);
    assert_eq!(pose.rpy_or_zero(), [ZERO; 3]);
    assert_eq!(Pose::default().xyz_or_zero(), [ZERO; 3]);
}

#[test]
fn canonical_documents_are_normalized() {
    let count = |authored: &ConnectivityDocument| -> Result<usize, String> {
        Ok(authored.scopes[0].components.len())
    };
    let refuse = |authored: &ConnectivityDocument, limit: usize| -> Result<usize, String> {
        if authored.scopes.len() > limit {
            Err(format!("more than {}", limit))
        } else {
            Ok(authored.scopes.len())
        }
    };
    let doc = document(None);
    assert_eq!(doc.to_normalized_connectivity(identity(), &count), Ok(1));
    assert_eq!(
        doc.to_normalized_connectivity_with_options(identity(), 1, &refuse),
        Ok(1)
    );
    assert_eq!(
        doc.to_normalized_connectivity_with_options(identity(), 0, &refuse),
        Err(HcdfConnectivityError::Normalization("more than 0".to_owned()))
    );
    let open = Hcdf {
        includes: vec![Include::default()],
        ..Default::default()
    };
    match open.to_normalized_connectivity(identity(), &count) {
        Err(HcdfConnectivityError::Conversion(error)) => {
            assert_eq!(error.code(), "E_CONN_DOCUMENT_SET_REQUIRED");
        }
        other => panic!("not refused: {:?}", other),
    }
}
