//! Visiting the resources of a document.
use hcdformat::float::Float64;
use hcdformat::model::connectivity_xml::{
    Assembly, Connector, ModelRepresentation, Placement, PlacementRotation,
    PlacementRotationChoice, Position, Representation, RepresentationChoice, RouteFrame,
    RouteFrameChoice, RpyRotation, WorldRouteFrame,
};
use hcdformat::model::{
    Collision, CollisionGeometry, Comp, Hcdf, Include, Mesh, ModelRef, Visual, VisualAppearance,
};
use hcdformat::resource::{visit_resources, ResourceClass, ResourceRewrite, ResourceSite};

fn placement() -> Placement {
    Placement {
        xyz: [Float64 { bits: 0 }; 3],
        frame: RouteFrame {
            frame: RouteFrameChoice::World(WorldRouteFrame {}),
        },
        rotation: PlacementRotation {
            rotation: PlacementRotationChoice::Rpy(RpyRotation { value: [Float64 { bits: 0 }; 3] }),
        },
    }
}

fn connectivity_model(uri: &str) -> Representation {
    Representation {
        variant: RepresentationChoice::Model(
            ModelRepresentation {
                uri: uri.to_owned(),
                sha: Some("old".to_owned()),
                node_path: None,
                placement: placement(),
            },
        ),
    }
}

#[test]
fn visits_and_atomically_rewrites_resource_families() {
    let mut doc = Hcdf {
        includes: vec![Include {
            uri: Some("/mem/0/module.hcdf".to_owned()),
            sha: Some("module-old".to_owned()),
            ..Default::default()
        }],
        comp: vec![Comp {
            name: "body".to_owned(),
            visual: vec![Visual {
                name: "shell".to_owned(),
                appearance: VisualAppearance::Model {
                    model: ModelRef {
                        uri: Some("shell.glb".to_owned()),
                        sha: Some("shell-old".to_owned()),
                        ..Default::default()
                    },
                    geometry: None,
                },
                ..Default::default()
            }],
            collision: vec![Collision {
                geometry: Some(CollisionGeometry {
                    mesh: Some(Mesh {
                        uri: Some("collision.stl".to_owned()),
                        sha: Some("collision-old".to_owned()),
                        source_uri: Some("do-not-visit.obj".to_owned()),
                        ..Default::default()
                    }),
                    ..Default::default()
                }),
                ..Default::default()
            }],
            connector: vec![Connector {
                name: "J1".to_owned(),
                representation: Some(connectivity_model("connector.glb")),
                pin: vec![Position {
                    name: "1".to_owned(),
                    representation: Some(connectivity_model("pin.glb")),
                    ..Default::default()
                }],
                ..Default::default()
            }],
            ..Default::default()
        }],
        harness: vec![Assembly {
            name: "loom".to_owned(),
            representation: Some(connectivity_model("loom.glb")),
            ..Default::default()
        }],
        ..Default::default()
    };

    let mut visited = Vec::new();
    visit_resources(&mut doc, |site, reference| {
        visited.push((site.clone(), reference.uri.to_owned()));
        Ok::<_, ()>(ResourceRewrite::Replace {
            uri: format!("resolved:{}", reference.uri),
            sha: Some(format!("sha:{}", reference.uri)),
        })
    })
    .unwrap();

    assert_eq!(visited.len(), 6);
    assert_eq!(
        doc.includes[0].uri.as_deref(),
        Some("resolved:/mem/0/module.hcdf")
    );
    assert_eq!(
        doc.includes[0].sha.as_deref(),
        Some("sha:/mem/0/module.hcdf")
    );
    assert_eq!(
        doc.comp[0].collision[0]
            .geometry
            .as_ref()
            .unwrap()
            .mesh
            .as_ref()
            .unwrap()
            .source_uri
            .as_deref(),
        Some("do-not-visit.obj")
    );
}

#[test]
fn keep_preserves_absolute_memory_keys_byte_for_byte() {
    let mut doc = Hcdf {
        includes: vec![Include {
            uri: Some("/mem/0/assets/rotor.stl".to_owned()),
            sha: Some("sha256:abc".to_owned()),
            ..Default::default()
        }],
        ..Default::default()
    };
    visit_resources(&mut doc, |_site, reference| {
        assert_eq!(reference.uri, "/mem/0/assets/rotor.stl");
        Ok::<_, ()>(ResourceRewrite::Keep)
    })
    .unwrap();
    assert_eq!(
        doc.includes[0].uri.as_deref(),
        Some("/mem/0/assets/rotor.stl")
    );
}

#[test]
fn sites_say_where_a_resource_stands() {
    let mut doc = Hcdf {
        includes: vec![
            Include::default(),
            Include {
                uri: Some("m.hcdf".to_owned()),
                ..Default::default()
            },
        ],
        ..Default::default()
    };
    let mut sites = Vec::new();
    visit_resources(&mut doc, |site, _reference| {
        sites.push(site.clone());
        Ok::<_, ()>(ResourceRewrite::Keep)
    })
    .unwrap();
    assert_eq!(sites, vec![ResourceSite::IncludeDocument { index: 1 }]);
    assert_eq!(sites[0].class(), ResourceClass::Document);
    assert_eq!(doc.includes[1].sha, None);
}

#[test]
fn the_first_refusal_ends_a_visit() {
    let mut doc = Hcdf {
        includes: vec![
            Include {
                uri: Some("a".to_owned()),
                ..Default::default()
            },
            Include {
                uri: Some("b".to_owned()),
                ..Default::default()
            },
            Include {
                uri: Some("c".to_owned()),
                ..Default::default()
            },
        ],
        ..Default::default()
    };
    let mut count = 0;
    let outcome = visit_resources(&mut doc, |_site, reference| {
        count += 1;
        if reference.uri == "b" {
            Err("no b".to_owned())
        } else {
            Ok(ResourceRewrite::Replace {
                uri: format!("{}!", reference.uri),
                sha: None,
            })
        }
    });
    assert_eq!(outcome, Err("no b".to_owned()));
    assert_eq!(count, 2);
    assert_eq!(doc.includes[0].uri.as_deref(), Some("a!"));
    assert_eq!(doc.includes[1].uri.as_deref(), Some("b"));
    assert_eq!(doc.includes[2].uri.as_deref(), Some("c"));
}
