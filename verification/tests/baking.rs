//! Baking the meshes of imported documents.
use hcdformat::float::Float64;
use hcdformat::import_bake::{
    asset_name, bake_document, drop_baked_notes, from_sdf_str_with_baking,
    from_urdf_str_with_baking, import_then_bake, mesh_plan, prefixed_uri, rel_path, safe_stem,
    scale_is_none_or_identity, BakeEnv, BakedAsset, HintTexture, Imported, MeshBakeSpec, MeshPlan,
    MeshSite, VisualAssetHint, Workshop, WriteFault,
};
use hcdformat::model::{
    Box_, Collision, CollisionGeometry, Comp, Hcdf, Mesh, ModelRef, Visual, VisualAppearance,
    VisualGeometry,
};
use hcdformat::native_path::PathStyle;
use std::cell::RefCell;

fn parse(text: &str) -> Option<Float64> {
    text.parse::<f64>().ok().map(|f| Float64 { bits: f.to_bits() })
}

fn mesh_visual(name: &str, uri: &str) -> Visual {
    Visual {
        name: name.to_owned(),
        appearance: VisualAppearance::Model {
            model: ModelRef {
                uri: Some(uri.to_owned()),
                ..Default::default()
            },
            geometry: None,
        },
        ..Default::default()
    }
}

fn box_visual(name: &str) -> Visual {
    Visual {
        name: name.to_owned(),
        appearance: VisualAppearance::Primitive {
            geometry: Some(VisualGeometry {
                box_: Some(Box_ {
                    size: Some("1 1 0".to_owned()),
                    ..Default::default()
                }),
                ..Default::default()
            }),
            color: None,
        },
        ..Default::default()
    }
}

fn collision(uri: &str, scale: Option<&str>) -> Collision {
    Collision {
        geometry: Some(CollisionGeometry {
            mesh: Some(Mesh {
                uri: Some(uri.to_owned()),
                scale: scale.map(str::to_owned),
                ..Default::default()
            }),
            ..Default::default()
        }),
        ..Default::default()
    }
}

fn hint(visual: &str, texture: Option<&str>) -> VisualAssetHint {
    VisualAssetHint {
        comp: "base".to_owned(),
        visual: visual.to_owned(),
        scale: None,
        color: Some("1 0 0".to_owned()),
        texture: texture.map(str::to_owned),
    }
}

fn environment() -> BakeEnv {
    BakeEnv::direct(
        "/in".to_owned(),
        "/out/assets".to_owned(),
        "assets/".to_owned(),
        Vec::new(),
    )
}

fn baked(ext: &str) -> BakedAsset {
    BakedAsset {
        data: vec![1, 2, 3],
        sha: "sha256:0123456789abcdef".to_owned(),
        ext: ext.to_owned(),
        notes: vec!["a part is gray".to_owned()],
    }
}

#[test]
fn a_document_is_baked() {
    let mut doc = Hcdf {
        comp: vec![Comp {
            name: "base".to_owned(),
            visual: vec![
                mesh_visual("shell", "meshes/my shell.dae"),
                mesh_visual("done", "meshes/done.glb"),
                mesh_visual("far", "https://h/x.glb"),
                mesh_visual("gone", "missing.stl"),
                box_visual("floor"),
                box_visual("plain"),
            ],
            collision: vec![
                collision("hull.stl", Some("2 2 2")),
                collision("hull.stl", None),
            ],
            ..Default::default()
        }],
        ..Default::default()
    };
    let written = RefCell::new(Vec::new());
    let shop = Workshop {
        style: PathStyle::Unix,
        parse,
        look_up: |uri: &str| {
            if uri.starts_with("missing") {
                None
            } else {
                Some(format!("/in/{}", uri))
            }
        },
        read: |path: &str| {
            if path.ends_with("bad.png") {
                Err("denied".to_owned())
            } else {
                Ok(vec![9])
            }
        },
        take_over: |path: &str, _site: MeshSite| {
            Ok::<(String, String), String>((format!("copy-{}", path.len()), "sha256:c".to_owned()))
        },
        convert: |_path: &str, spec: &MeshBakeSpec, _texture: &Option<HintTexture>| {
            Ok::<BakedAsset, String>(baked(match spec.site_kind {
                MeshSite::Visual => "glb",
                MeshSite::Collision => "stl",
            }))
        },
        dress_box: |_size: &str, _texture: &HintTexture| Ok::<BakedAsset, String>(baked("glb")),
        write: |name: &str, data: &Vec<u8>| {
            written.borrow_mut().push((name.to_owned(), data.clone()));
            Ok::<(), WriteFault>(())
        },
    };
    let mut notes = vec!["before".to_owned()];
    let hints = vec![
        hint("shell", Some("bad.png")),
        hint("done", None),
        hint("floor", Some("wood.png")),
    ];
    let list = bake_document(&mut doc, &hints, &environment(), &mut notes, &shop);
    assert_eq!(
        list,
        vec![
            ("base".to_owned(), "done".to_owned()),
            ("base".to_owned(), "floor".to_owned()),
            ("base".to_owned(), "shell".to_owned()),
        ]
    );
    assert_eq!(
        notes,
        vec![
            "before",
            "visual base/shell: texture \"bad.png\" could not be read (denied); flat colour used",
            "visual base/shell: a part is gray",
            "visual base/done: GLB/glTF visual passed through (a .gltf packs to a self-contained GLB); its source mesh scale/colour/texture cannot be folded into an already-glTF source (re-author as a non-GLB mesh to bake them in)",
            "visual base/gone: mesh \"missing.stl\" could not be resolved (pass --package PKG=PATH / check the path); left as the source reference",
            "collision base/<unnamed>: a part is gray",
        ]
    );
    assert_eq!(
        written.borrow().iter().map(|w| w.0.as_str()).collect::<Vec<_>>(),
        vec![
            "my_shell_0123456789ab.glb",
            "wood_0123456789ab.glb",
            "hull_0123456789ab.stl"
        ]
    );
    let uris: Vec<Option<String>> = doc.comp[0]
        .visual
        .iter()
        .map(|v| match &v.appearance {
            VisualAppearance::Model { model, .. } => model.uri.clone(),
            VisualAppearance::Primitive { .. } => None,
        })
        .collect();
    assert_eq!(
        uris,
        vec![
            Some("assets/my_shell_0123456789ab.glb".to_owned()),
            Some("assets/copy-19".to_owned()),
            Some("https://h/x.glb".to_owned()),
            Some("missing.stl".to_owned()),
            Some("assets/wood_0123456789ab.glb".to_owned()),
            None,
        ]
    );
    let meshes: Vec<Mesh> = doc.comp[0]
        .collision
        .iter()
        .map(|c| c.geometry.clone().unwrap().mesh.unwrap())
        .collect();
    assert_eq!(meshes[0].uri.as_deref(), Some("assets/hull_0123456789ab.stl"));
    assert_eq!(meshes[0].sha.as_deref(), Some("sha256:0123456789abcdef"));
    assert_eq!(meshes[0].scale, None);
    assert_eq!(meshes[1].uri.as_deref(), Some("assets/copy-12"));
}

#[test]
fn what_cannot_be_baked_stays() {
    let before = Hcdf {
        comp: vec![Comp {
            name: "base".to_owned(),
            visual: vec![
                mesh_visual("shell", "a.stl"),
                mesh_visual("done", "b.glb"),
                box_visual("floor"),
                Visual {
                    name: "ball".to_owned(),
                    ..Default::default()
                },
            ],
            collision: vec![collision("hull.stl", Some("1 1.0 1"))],
            ..Default::default()
        }],
        ..Default::default()
    };
    let shop = Workshop {
        style: PathStyle::Unix,
        parse,
        look_up: |uri: &str| Some(uri.to_owned()),
        read: |_path: &str| Ok::<Vec<u8>, String>(Vec::new()),
        take_over: |_path: &str, _site: MeshSite| {
            Err::<(String, String), String>("no room".to_owned())
        },
        convert: |_path: &str, _spec: &MeshBakeSpec, _texture: &Option<HintTexture>| {
            Ok::<BakedAsset, String>(baked("glb"))
        },
        dress_box: |_size: &str, _texture: &HintTexture| {
            Err::<BakedAsset, String>("flat".to_owned())
        },
        write: |_name: &str, _data: &Vec<u8>| {
            Err::<(), WriteFault>(WriteFault::Directory("read-only".to_owned()))
        },
    };
    let hints = vec![hint("floor", Some("t.png")), hint("ball", Some("t.png"))];
    let (after, notes) = import_then_bake(
        before.clone(),
        vec!["visual 'shell': carried on the asset side-channel".to_owned()],
        &hints,
        &environment(),
        &shop,
    );
    assert_eq!(after, before);
    assert_eq!(
        notes,
        vec![
            "visual 'shell': carried on the asset side-channel",
            "visual base/shell: a part is gray",
            "visual base/shell: could not bake mesh \"a.stl\": could not create bake dir: read-only; left as the source reference",
            "visual base/done: could not bake mesh \"b.glb\": copy failed: no room; left as the source reference",
            "visual base/floor: could not bake textured primitive with \"t.png\": flat; the primitive keeps its flat colour",
            "visual base/ball: albedo map \"t.png\" not applied (textured-primitive synthesis handles <box> (and the <plane> imported as one) only); the primitive keeps its flat colour",
            "collision base/<unnamed>: could not bake mesh \"hull.stl\": copy failed: no room; left as the source reference",
        ]
    );
}

#[test]
fn a_texture_that_cannot_be_written_is_noted() {
    let mut doc = Hcdf {
        comp: vec![Comp {
            name: "base".to_owned(),
            visual: vec![box_visual("floor"), box_visual("wall"), box_visual("roof")],
            ..Default::default()
        }],
        ..Default::default()
    };
    let shop = Workshop {
        style: PathStyle::Unix,
        parse,
        look_up: |uri: &str| {
            if uri == "gone.png" {
                None
            } else {
                Some(uri.to_owned())
            }
        },
        read: |path: &str| {
            if path == "locked.png" {
                Err("locked".to_owned())
            } else {
                Ok(Vec::new())
            }
        },
        take_over: |_path: &str, _site: MeshSite| {
            Err::<(String, String), String>("unused".to_owned())
        },
        convert: |_path: &str, _spec: &MeshBakeSpec, _texture: &Option<HintTexture>| {
            Err::<BakedAsset, String>("unused".to_owned())
        },
        dress_box: |_size: &str, _texture: &HintTexture| Ok::<BakedAsset, String>(baked("glb")),
        write: |_name: &str, _data: &Vec<u8>| {
            Err::<(), WriteFault>(WriteFault::File("full".to_owned()))
        },
    };
    let hints = vec![
        hint("floor", Some("t.png")),
        hint("wall", Some("gone.png")),
        hint("roof", Some("locked.png")),
    ];
    let mut notes = Vec::new();
    let list = bake_document(&mut doc, &hints, &environment(), &mut notes, &shop);
    assert!(list.is_empty());
    assert_eq!(
        notes,
        vec![
            "visual base/floor: could not write the textured-primitive GLB for \"t.png\": could not write baked mesh: full; the primitive keeps its flat colour",
            "visual base/wall: texture \"gone.png\" could not be resolved (pass --package PKG=PATH / check the path); the primitive keeps its flat colour",
            "visual base/roof: texture \"locked.png\" could not be read (locked); the primitive keeps its flat colour",
        ]
    );
}

#[test]
fn notes_are_dropped_for_baked_visuals_only() {
    let baked = vec![("a".to_owned(), "v".to_owned())];
    let notes = vec![
        "model 'a' visual 'v': scale not applied (bake the GLB to fold it in)".to_owned(),
        "model 'b' visual 'v': scale not applied (bake the GLB to fold it in)".to_owned(),
        "  visual 'v': color carried on the asset side-channel".to_owned(),
        "visual 'w': color carried on the asset side-channel".to_owned(),
        "visual 'v': something else".to_owned(),
    ];
    let kept = drop_baked_notes(notes.clone(), &baked);
    assert_eq!(
        kept,
        vec![notes[1].clone(), notes[3].clone(), notes[4].clone()]
    );
    assert_eq!(drop_baked_notes(kept.clone(), &baked), kept);
    assert_eq!(drop_baked_notes(notes.clone(), &Vec::new()), notes);
}

#[test]
fn assets_have_names() {
    assert_eq!(safe_stem(PathStyle::Unix, "/m/My Robot.v2.stl"), "My_Robot.v2");
    assert_eq!(safe_stem(PathStyle::Unix, "/m/.hidden"), ".hidden");
    assert_eq!(safe_stem(PathStyle::Unix, "/m/.."), "mesh");
    assert_eq!(safe_stem(PathStyle::Unix, "a/b.stl/."), "b");
    assert_eq!(asset_name("m", "sha256:0123456789abcdef", "glb"), "m_0123456789ab.glb");
    assert_eq!(asset_name("m", "0123", "stl"), "m_0123.stl");
    assert_eq!(safe_stem(PathStyle::Windows, r"C:\m\My Robot.v2.stl"), "My_Robot.v2");
    assert_eq!(safe_stem(PathStyle::Windows, r"\\host\share"), "mesh");
    assert_eq!(safe_stem(PathStyle::Windows, r"\\?\C:\m\a.stl\."), "mesh");
    assert_eq!(safe_stem(PathStyle::Windows, r"C:\m\a.stl\."), "a");
    assert_eq!(safe_stem(PathStyle::Unix, r"C:\m\a.stl"), "C__m_a");
    assert_eq!(prefixed_uri("", "x"), "x");
    assert_eq!(prefixed_uri(".", "x"), "x");
    assert_eq!(prefixed_uri("a//", "x"), "a/x");
}

#[test]
fn names_hold_the_first_bytes_of_a_digest() {
    assert_eq!(asset_name("m", "ééééééé", "stl"), "m_éééééé.stl");
    assert_eq!(asset_name("m", "sha:ab日本語日", "stl"), "m_ab日本語.stl");
    assert_eq!(asset_name("m", "0123456789ab", "stl"), "m_0123456789ab.stl");
}

#[test]
fn assets_are_reached_over_drives() {
    let style = PathStyle::Windows;
    assert_eq!(rel_path(style, r"c:\a\b", r"C:\a\c"), "../b");
    assert_eq!(rel_path(style, r"D:\x", r"C:\y"), r"../../../D:/\/x");
    assert_eq!(rel_path(style, r"\\h\s\a", r"//h/s/b"), "../a");
    assert_eq!(rel_path(style, r"\\?\c:\a", r"\\?\C:\b"), "../a");
    assert_eq!(rel_path(style, r"\\?\UNC/h\s\a", r"\\?\UNC\h\s\b"), "../a");
    let env = BakeEnv::new(
        style,
        r"C:\work",
        r"out\assets",
        r"in/robot.urdf",
        r"\out\robot.hcdf",
        Vec::new(),
    );
    assert_eq!(env.base_dir, r"C:\work\in");
    assert_eq!(env.out_dir, r"C:\work\out\assets");
    assert_eq!(env.uri_prefix, "../work/out/assets");
}

#[test]
fn assets_are_reached_from_the_output() {
    assert_eq!(rel_path(PathStyle::Unix, "/a/b/assets", "/a/c"), "../b/assets");
    assert_eq!(rel_path(PathStyle::Unix, "/a", "/a"), ".");
    let env = BakeEnv::new(PathStyle::Unix, "/work", "out/assets", "in/robot.urdf", "out/robot.hcdf", Vec::new());
    assert_eq!(env.base_dir, "/work/in");
    assert_eq!(env.out_dir, "/work/out/assets");
    assert_eq!(env.uri_prefix, "assets");
    let piped = BakeEnv::new(PathStyle::Unix, "/work", "/tmp/x", "/robot.urdf", "-", Vec::new());
    assert_eq!(piped.base_dir, "/");
    assert_eq!(piped.uri_prefix, "../tmp/x");
}

#[test]
fn scales_near_one_change_nothing() {
    assert!(scale_is_none_or_identity(&parse, None));
    assert!(scale_is_none_or_identity(&parse, Some("  ")));
    assert!(scale_is_none_or_identity(&parse, Some("1 1.0 1e0")));
    assert!(scale_is_none_or_identity(&parse, Some("1.0000000000009 0.9999999999991")));
    assert!(!scale_is_none_or_identity(&parse, Some("1.0000000000011")));
    assert!(!scale_is_none_or_identity(&parse, Some("0.9999999999989")));
    assert!(!scale_is_none_or_identity(&parse, Some("-1 1 1")));
    assert!(!scale_is_none_or_identity(&parse, Some("x y z")));
    assert!(scale_is_none_or_identity(&parse, Some("x 1")));
}

#[test]
fn the_test_for_one_is_that_of_the_numbers() {
    for bits in [
        0x3fef_ffff_ffff_dcd0u64,
        0x3fef_ffff_ffff_dcd1,
        0x3ff0_0000_0000_0000,
        0x3ff0_0000_0000_1197,
        0x3ff0_0000_0000_1198,
        0x7ff8_0000_0000_0000,
        0xbff0_0000_0000_0000,
    ] {
        let wanted = (f64::from_bits(bits) - 1.0).abs() < 1e-12;
        let given = scale_is_none_or_identity(&|_s: &str| Some(Float64 { bits }), Some("x"));
        assert_eq!(given, wanted, "{:x}", bits);
    }
}

#[test]
fn glb_visuals_and_unscaled_collisions_are_taken_over() {
    assert_eq!(
        mesh_plan(PathStyle::Unix, "/a/M.GLB", MeshSite::Visual, true, false, false),
        MeshPlan::TakeOver { noted: false }
    );
    assert_eq!(
        mesh_plan(PathStyle::Unix, "/a/m.gltf", MeshSite::Visual, true, true, false),
        MeshPlan::TakeOver { noted: true }
    );
    assert_eq!(
        mesh_plan(PathStyle::Unix, "/a/m.stl", MeshSite::Visual, true, false, false),
        MeshPlan::Convert
    );
    assert_eq!(
        mesh_plan(PathStyle::Unix, "/a/m.stl", MeshSite::Collision, true, false, false),
        MeshPlan::TakeOver { noted: false }
    );
    assert_eq!(
        mesh_plan(PathStyle::Unix, "/a/m.glb", MeshSite::Collision, false, false, false),
        MeshPlan::Convert
    );
}

#[test]
fn texts_are_imported_and_baked() {
    let import = |source: &str| -> Result<Imported, String> {
        if source.is_empty() {
            return Err("nothing to import".to_owned());
        }
        let doc = Hcdf {
            comp: vec![Comp {
                name: "base".to_owned(),
                visual: vec![mesh_visual("shell", source)],
                ..Default::default()
            }],
            ..Default::default()
        };
        Ok((doc, vec!["kept".to_owned()], vec![hint("shell", None)]))
    };
    let shop = Workshop {
        style: PathStyle::Unix,
        parse,
        look_up: |uri: &str| Some(format!("/in/{}", uri)),
        read: |_path: &str| Err("unread".to_owned()),
        take_over: |_path: &str, _site: MeshSite| {
            Ok::<(String, String), String>(("shell.glb".to_owned(), "sha256:c".to_owned()))
        },
        convert: |_path: &str, _spec: &MeshBakeSpec, _texture: &Option<HintTexture>| {
            Err::<BakedAsset, String>("unconverted".to_owned())
        },
        dress_box: |_size: &str, _texture: &HintTexture| {
            Err::<BakedAsset, String>("undressed".to_owned())
        },
        write: |_name: &str, _data: &Vec<u8>| Ok::<(), WriteFault>(()),
    };
    let env = environment();
    assert_eq!(
        from_urdf_str_with_baking("", &import, &env, &shop),
        Err("nothing to import".to_owned())
    );
    assert_eq!(
        from_sdf_str_with_baking("", &import, &env, &shop),
        Err("nothing to import".to_owned())
    );
    let (doc, notes) = from_urdf_str_with_baking("shell.glb", &import, &env, &shop).unwrap();
    match &doc.comp[0].visual[0].appearance {
        VisualAppearance::Model { model, .. } => {
            assert_eq!(model.uri.as_deref(), Some("assets/shell.glb"));
            assert_eq!(model.sha.as_deref(), Some("sha256:c"));
        }
        VisualAppearance::Primitive { .. } => panic!("the model is gone"),
    }
    assert_eq!(notes[0], "kept");
    let again = from_sdf_str_with_baking("shell.glb", &import, &env, &shop).unwrap();
    assert_eq!(again, (doc, notes));
}
