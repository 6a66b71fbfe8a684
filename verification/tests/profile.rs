//! Classifying documents.
use hcdformat::float::Float64;
use hcdformat::model::enums::{BodyFrame, CompRole, JointType, WorldFrame};
use hcdformat::model::{
    Axis, Capsule, Collision, CollisionGeometry, Comp, Cone, Extension, Frame, Hcdf, Include,
    Inertial, Joint, JointDynamics, JointEndpoint, JointGroup, JointLimit, KinematicState,
    LoopClosure, ModelRef, Pose, SelfCollisionDisable, Sensor, Sphere, Surface, Visual,
    VisualAppearance, VisualGeometry,
};
use hcdformat::profile::findings::{check_profile, Issue, Level, LossManifest, Tier};
use hcdformat::profile::render::split_after_two_newlines;
use hcdformat::report::Json;

fn comp(name: &str) -> Comp {
    Comp {
        name: name.to_owned(),
        ..Default::default()
    }
}

#[test]
fn a_plain_document_is_in_profile() {
    let doc = Hcdf {
        comp: vec![comp("base")],
        ..Default::default()
    };
    let report = check_profile(&doc, Vec::new(), Ok(LossManifest::new()));
    assert_eq!(report.classification, Tier::Identity);
    assert!(report.findings.is_empty());
    assert!(report.in_profile());
    assert_eq!(
        report.markdown(""),
        "# HCDF-URDF profile: IN-PROFILE-IDENTITY\n\nExports to clean valid URDF with a value-exact round-trip; nothing dropped.\n\n## Field-level loss manifest\n\n_No field-level losses._\n"
    );
}

#[test]
fn the_worst_finding_decides() {
    let doc = Hcdf {
        comp: vec![comp("b"), comp("a")],
        body_frame: Some(BodyFrame::FRD),
        world_frame: Some(WorldFrame::NED),
        ..Default::default()
    };
    let report = check_profile(&doc, Vec::new(), Ok(LossManifest::new()));
    assert_eq!(report.classification, Tier::OutOfProfile);
    assert!(!report.in_profile());
    let codes: Vec<&str> = report.findings.iter().map(|f| f.code.as_str()).collect();
    assert_eq!(codes, vec!["P_MULTI_ROOT", "P_BODY_FRD", "P_WORLD_NED"]);
    assert_eq!(
        report.findings[0].detail,
        "2 roots ('a', 'b'); URDF is one robot with one root link (a network-only comp counts as an extra root)"
    );
    assert_eq!(report.by_tier(Tier::WithTransform).len(), 2);
    assert_eq!(report.by_tier(Tier::Identity).len(), 0);
}

#[test]
fn roles_are_shown_with_their_type() {
    let doc = Hcdf {
        comp: vec![Comp {
            role: Some(CompRole::Actuator),
            ..comp("m")
        }],
        ..Default::default()
    };
    let report = check_profile(&doc, Vec::new(), Ok(LossManifest::new()));
    assert!(report
        .findings
        .iter()
        .any(|f| f.code == "P_COMP_ROLE"
            && f.detail.contains("role=<CompRole.actuator: 'actuator'>")));
}

#[test]
fn errors_and_losses_are_reported() {
    let issues = vec![
        Issue {
            level: Level::Error,
            code: "E_CYCLE".to_owned(),
            message: "a cycle".to_owned(),
            line: "[ERROR] E_CYCLE: a cycle".to_owned(),
        },
        Issue {
            level: Level::Warning,
            code: "W_X".to_owned(),
            message: "no matter".to_owned(),
            line: "[WARNING] W_X: no matter".to_owned(),
        },
    ];
    let report = check_profile(&Hcdf::default(), issues, Err("no root".to_owned()));
    assert_eq!(report.findings[0].code, "P_NOT_A_TREE");
    assert_eq!(report.findings[0].detail, "E_CYCLE: a cycle");
    assert_eq!(report.loss.entries[0].category, "export-error");
    assert_eq!(report.loss.entries[0].detail, "to_urdf failed: no root");
    assert_eq!(
        report.to_json(Json::Obj(Vec::new())),
        "{\n  \"classification\": \"OUT-OF-PROFILE\",\n  \"meaning\": \"Exporting to URDF drops model-significant content; the URDF is a lossy projection.\",\n  \"in_profile\": false,\n  \"findings\": [\n    {\n      \"tier\": \"OUT-OF-PROFILE\",\n      \"code\": \"P_NOT_A_TREE\",\n      \"detail\": \"E_CYCLE: a cycle\"\n    }\n  ],\n  \"validator_errors\": [\n    \"[ERROR] E_CYCLE: a cycle\"\n  ],\n  \"loss_manifest\": {}\n}"
    );
    assert_eq!(
        report.markdown("# Export drops\n\n## x\n- y\n"),
        "# HCDF-URDF profile: OUT-OF-PROFILE\n\nExporting to URDF drops model-significant content; the URDF is a lossy projection.\n\n## Out-of-profile drivers (1)\n- `P_NOT_A_TREE` E_CYCLE: a cycle\n\n## Validator errors (1)\n- [ERROR] E_CYCLE: a cycle\n\n## Field-level loss manifest\n\n## x\n- y\n"
    );
}

#[test]
fn titles_are_cut_off() {
    assert_eq!(split_after_two_newlines("a\nb\nc\nd"), "c\nd");
    assert_eq!(split_after_two_newlines("a\nb"), "b");
    assert_eq!(split_after_two_newlines("a"), "a");
}

fn endpoint(comp: &str) -> Option<JointEndpoint> {
    Some(JointEndpoint {
        comp: Some(comp.to_owned()),
        ..Default::default()
    })
}

fn turned() -> Option<Pose> {
    Some(Pose {
        quat: Some([Float64 { bits: 0 }; 4]),
        ..Default::default()
    })
}

fn findings(doc: &Hcdf) -> Vec<(String, String)> {
    check_profile(doc, Vec::new(), Ok(LossManifest::new()))
        .findings
        .into_iter()
        .map(|f| (f.code, f.detail))
        .collect()
}

fn assert_findings(doc: &Hcdf, expected: &[(&str, &str)]) {
    let expected: Vec<(String, String)> = expected
        .iter()
        .map(|(code, detail)| (code.to_string(), detail.to_string()))
        .collect();
    assert_eq!(findings(doc), expected);
}

#[test]
fn joints_are_held_to_the_profile() {
    let doc = Hcdf {
        comp: vec![comp("base"), comp("arm")],
        joint: vec![
            Joint {
                name: Some("elbow".to_owned()),
                type_: Some(JointType::Screw),
                thread_pitch: Some("1".to_owned()),
                child: endpoint("arm"),
                origin: turned(),
                axis2: Some(Axis::default()),
                limit: Some(JointLimit {
                    acceleration: Some("1".to_owned()),
                    jerk: Some("1".to_owned()),
                    deceleration: Some("1".to_owned()),
                    ..Default::default()
                }),
                dynamics: Some(JointDynamics {
                    spring_stiffness: Some("1".to_owned()),
                    spring_reference: Some("1".to_owned()),
                    ..Default::default()
                }),
                extension: Some(Extension::default()),
                ..Default::default()
            },
            Joint {
                type_: Some(JointType::Free),
                child: endpoint("base"),
                loop_: Some(LoopClosure::default()),
                ..Default::default()
            },
        ],
        ..Default::default()
    };
    assert_findings(
        &doc,
        &[
            ("P_JOINT_TYPE", "joint 'elbow': type 'screw' has no URDF equivalent"),
            ("P_AXIS2", "joint 'elbow': <axis2> (URDF has a single axis)"),
            ("P_THREAD_PITCH", "joint 'elbow': thread_pitch (URDF has no screw joint)"),
            ("P_LIMIT_FIELD", "joint 'elbow': limit/acceleration (URDF limit has only lower/upper/effort/velocity)"),
            ("P_LIMIT_FIELD", "joint 'elbow': limit/jerk (URDF limit has only lower/upper/effort/velocity)"),
            ("P_LIMIT_FIELD", "joint 'elbow': limit/deceleration (URDF limit has only lower/upper/effort/velocity)"),
            ("P_DYNAMICS_SPRING", "joint 'elbow': dynamics/spring_stiffness (URDF dynamics has only damping/friction)"),
            ("P_DYNAMICS_SPRING", "joint 'elbow': dynamics/spring_reference (URDF dynamics has only damping/friction)"),
            ("P_JOINT_EXTENSION", "joint 'elbow': <extension> vendor data (no URDF home; joint extensions are not de-merged)"),
            ("P_LOOP", "joint None: loop-closure (URDF is tree-only, cannot express a closed kinematic loop)"),
            ("P_POSE_QUAT", "1 pose(s) use quat orientation; emitted as URDF rpy (rotation preserved exactly; URDF <origin> has no quaternion)"),
        ],
    );
}

#[test]
fn a_tree_has_a_root() {
    let doc = Hcdf {
        comp: vec![comp("base")],
        joint: vec![Joint {
            child: endpoint("base"),
            ..Default::default()
        }],
        ..Default::default()
    };
    assert_findings(
        &doc,
        &[(
            "P_NO_ROOT",
            "no root comp (every comp is a joint child; a tree needs one root)",
        )],
    );
}

#[test]
fn components_are_held_to_the_profile() {
    let primitive = |geometry: Option<VisualGeometry>| VisualAppearance::Primitive {
        geometry,
        color: None,
    };
    let visual = |name: &str, appearance: VisualAppearance| Visual {
        name: name.to_owned(),
        appearance,
        ..Default::default()
    };
    let doc = Hcdf {
        comp: vec![Comp {
            inertial: Some(Inertial {
                inertia_origin: turned(),
                inertia: Some("1 2\t3".to_owned()),
                ..Default::default()
            }),
            visual: vec![
                Visual {
                    pose: turned(),
                    toggle: Some("shell".to_owned()),
                    ..visual(
                        "m",
                        VisualAppearance::Model {
                            model: ModelRef::default(),
                            geometry: None,
                        },
                    )
                },
                visual(
                    "c",
                    primitive(Some(VisualGeometry {
                        sphere: Some(Sphere::default()),
                        cone: Some(Cone::default()),
                        ..Default::default()
                    })),
                ),
                visual("n", primitive(None)),
                visual(
                    "s",
                    primitive(Some(VisualGeometry {
                        sphere: Some(Sphere::default()),
                        ..Default::default()
                    })),
                ),
            ],
            collision: vec![
                Collision {
                    geometry: Some(CollisionGeometry {
                        capsule: Some(Capsule::default()),
                        ..Default::default()
                    }),
                    surface: Some(Surface::default()),
                    ..Default::default()
                },
                Collision {
                    name: Some("hull".to_owned()),
                    pose: turned(),
                    ..Default::default()
                },
            ],
            sensor: vec![Sensor::default(), Sensor::default()],
            frame: vec![Frame::default()],
            extension: vec![Extension::default()],
            struct_type: Some("frame".to_owned()),
            ip_rating: Some("IP67".to_owned()),
            hwid: Some("it's".to_owned()),
            ..comp("b")
        }],
        ..Default::default()
    };
    assert_findings(
        &doc,
        &[
            ("P_INERTIA_ARITY", "comp 'b': inertia tuple '1 2\\t3' is not 6 values (the rotational inertia matrix is dropped on URDF export)"),
            ("P_GLB_MODEL", "comp 'b' visual 'm': GLB <model>: geometry exports as a URDF mesh ref, but baked PBR/textures are not represented in URDF"),
            ("P_VISUAL_TOGGLE", "comp 'b' visual 'm': toggle group 'shell' (HCDF runtime show/hide grouping; no URDF home)"),
            ("P_GEOMETRY", "comp 'b' visual 'c': <cone> has no URDF primitive"),
            ("P_VISUAL_NO_GEOMETRY", "comp 'b' visual 'n': neither a GLB <model> nor a URDF primitive, dropped on export"),
            ("P_GEOMETRY", "comp 'b' collision None: <capsule> has no URDF primitive"),
            ("P_SURFACE", "comp 'b' collision None: <surface> contact physics (no URDF core home; lives in <gazebo> at sim time)"),
            ("P_COLLISION_NO_GEOMETRY", "comp 'b' collision 'hull': no URDF-representable geometry, dropped on export"),
            ("P_COMP_SENSOR", "comp 'b': 2 sensors (HCDF-only; no URDF home)"),
            ("P_COMP_FRAME", "comp 'b': 1 coordinate frames (HCDF-only; no URDF home)"),
            ("P_COMP_EXTENSION", "comp 'b': 1 vendor extensions (HCDF-only; no URDF home)"),
            ("P_COMP_STRUCT_TYPE", "comp 'b': struct-type='frame' (HCDF-only metadata; no URDF home)"),
            ("P_COMP_IP_RATING", "comp 'b': ip-rating='IP67' (HCDF-only metadata; no URDF home)"),
            ("P_COMP_HWID", "comp 'b': hwid=\"it's\" (HCDF-only metadata; no URDF home)"),
            ("P_POSE_QUAT", "3 pose(s) use quat orientation; emitted as URDF rpy (rotation preserved exactly; URDF <origin> has no quaternion)"),
        ],
    );
}

#[test]
fn documents_are_held_to_the_profile() {
    let doc = Hcdf {
        group: vec![JointGroup::default()],
        state: vec![KinematicState::default(), KinematicState::default()],
        self_collision_disable: Some(SelfCollisionDisable::default()),
        includes: vec![Include::default()],
        ..Default::default()
    };
    assert_findings(
        &doc,
        &[
            ("P_GROUP", "document: 1 joint groups (HCDF-only; no URDF home)"),
            ("P_STATE", "document: 2 kinematic states (HCDF-only; no URDF home)"),
            ("P_SELF_COLLISION_DISABLE", "document: 1 self-collision-disable blocks (HCDF-only; no URDF home)"),
            ("P_INCLUDE", "document: 1 <include>(s); flatten with hcdf.io.flatten() before URDF export"),
        ],
    );
}

#[test]
fn reports_are_written_in_ascii() {
    let doc = Hcdf {
        comp: vec![Comp {
            hwid: Some("né😀".to_owned()),
            ..comp("b")
        }],
        ..Default::default()
    };
    let report = check_profile(&doc, Vec::new(), Ok(LossManifest::new()));
    let written = report.to_json(Json::Obj(Vec::new()));
    assert!(written.is_ascii());
    assert!(written.contains("hwid='n\\u00e9\\ud83d\\ude00'"));
}
