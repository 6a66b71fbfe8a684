//! Resolving references and paths.
use hcdformat::native_path::{NativePath, PathStyle, PrefixKind};
use hcdformat::resource_path::{
    has_uri_scheme, normalize_filesystem_path, normalize_logical_segments,
    reroot_filesystem_asset, resolve_resource_reference, split_suffix, ResourceReferenceError,
};

#[test]
fn absolute_and_schemed_references_are_byte_exact() {
    for reference in [
        "/mem/0/assets/rotor.stl",
        "//host/assets/rotor.stl",
        "https://example.com/rotor.stl",
        "file:/C:/models/rotor.stl",
        "urn:example:rotor",
        "custom+v1:rotor",
        "data:model/gltf-binary;base64,AAAA",
    ] {
        assert_eq!(
            resolve_resource_reference("urn:opaque-parent", reference).unwrap(),
            reference
        );
    }
}

#[test]
fn hierarchical_roots_and_parent_segments_are_lexical() {
    for (parent, reference, expected) in [
        (
            "https://example.com",
            "child.hcdf",
            "https://example.com/child.hcdf",
        ),
        (
            "https://example.com/root.hcdf",
            "../child.hcdf",
            "https://example.com/child.hcdf",
        ),
        (
            "https://example.com/a/root.hcdf",
            "../../child.hcdf",
            "https://example.com/child.hcdf",
        ),
        (
            "https://example.com?old=1#root",
            "child.hcdf?new=2#child",
            "https://example.com/child.hcdf?new=2#child",
        ),
        ("/mem/a/root.hcdf", "../../child.hcdf", "/child.hcdf"),
        ("/mem/a/root.hcdf", "../child.hcdf", "/mem/child.hcdf"),
        ("/root.hcdf", "child.hcdf", "/child.hcdf"),
        ("a/root.hcdf", "../../child.hcdf", "../child.hcdf"),
        ("a/b/root.hcdf", "../../child.hcdf", "child.hcdf"),
        (
            "file:///mem/root.hcdf",
            "../child.hcdf",
            "file:///child.hcdf",
        ),
        (
            "file:///mem/root.hcdf?old=1#root",
            "../child.hcdf?new=2#child",
            "file:///child.hcdf?new=2#child",
        ),
        (
            "file:///C:/models/root.hcdf",
            "../child.hcdf",
            "file:///C:/child.hcdf",
        ),
        (
            "file:/C:/models/root.hcdf",
            "../child.hcdf",
            "file:/C:/child.hcdf",
        ),
        ("C:/dir/root.hcdf", "../child.hcdf", "C:/child.hcdf"),
    ] {
        assert_eq!(
            resolve_resource_reference(parent, reference).unwrap(),
            expected,
            "parent {parent:?}, reference {reference:?}"
        );
    }
}

#[test]
fn only_the_child_path_is_normalized() {
    for (parent, reference, expected) in [
        (
            "https://example.com/a/root.hcdf?old=1#old",
            "child.hcdf?new=2#node",
            "https://example.com/a/child.hcdf?new=2#node",
        ),
        (
            "https://example.com/a/root.hcdf?old=1#old",
            "../child.hcdf?next=/../asset.glb#part/../leaf",
            "https://example.com/child.hcdf?next=/../asset.glb#part/../leaf",
        ),
        (
            "https://example.com/a/root.hcdf?old=1#old",
            "?new=2",
            "https://example.com/a/root.hcdf?new=2",
        ),
        (
            "https://example.com/a/root.hcdf?old=1#old",
            "#node",
            "https://example.com/a/root.hcdf#node",
        ),
        (
            "/mem/a/root.hcdf?old=1",
            "?new=2#node",
            "/mem/a/root.hcdf?new=2#node",
        ),
        (
            "/mem/a/root.hcdf",
            "../child.hcdf#node",
            "/mem/child.hcdf#node",
        ),
    ] {
        assert_eq!(
            resolve_resource_reference(parent, reference).unwrap(),
            expected,
            "parent {parent:?}, reference {reference:?}"
        );
    }
}

#[test]
fn scheme_rooted_paths_without_authority_are_supported() {
    for (parent, reference, expected) in [
        ("file:/mem/root.hcdf", "child.hcdf", "file:/mem/child.hcdf"),
        (
            "file:/mem/a/root.hcdf",
            "../../child.hcdf",
            "file:/child.hcdf",
        ),
        ("file:/root.hcdf", "../child.hcdf", "file:/child.hcdf"),
        (
            "file:/mem/root.hcdf?old=1",
            "child.hcdf?new=2#n",
            "file:/mem/child.hcdf?new=2#n",
        ),
    ] {
        assert_eq!(
            resolve_resource_reference(parent, reference).unwrap(),
            expected,
            "parent {parent:?}, reference {reference:?}"
        );
    }
}

#[test]
fn network_authorities_and_authority_roots_are_preserved() {
    assert_eq!(
        resolve_resource_reference("//host/a/root.hcdf", "../child.hcdf").unwrap(),
        "//host/child.hcdf"
    );
    for (parent, expected) in [
        ("https://host/root.hcdf", "https://host/"),
        ("file:///root.hcdf", "file:///"),
        ("//host/root.hcdf", "//host/"),
    ] {
        assert_eq!(resolve_resource_reference(parent, "..").unwrap(), expected);
    }
}

#[test]
fn opaque_parents_and_empty_references_are_typed_errors() {
    for reference in ["child.hcdf", "?query", "#fragment"] {
        assert!(matches!(
            resolve_resource_reference("urn:opaque-parent", reference),
            Err(ResourceReferenceError::OpaqueParent { .. })
        ));
    }
    assert_eq!(
        resolve_resource_reference("/mem/root.hcdf", "  ").unwrap_err(),
        ResourceReferenceError::EmptyReference
    );
}

#[test]
fn filesystem_reroot_preserves_schemes_and_suffix_bytes() {
    let working = "/work";
    let base = "/module/dir";
    for reference in [
        "urn:asset:visual",
        "file:/C:/models/collision.stl",
        "custom+v1:sensor",
        "data:model/gltf-binary;base64,AAAA",
        "package://robot/connector.glb",
        "model://robot/body.glb",
        "https://example.com/body.glb",
    ] {
        assert_eq!(reroot_filesystem_asset(PathStyle::Unix, working, base, reference), reference);
    }
    for reference in ["?variant=1", "#node", "?variant=1#node"] {
        assert_eq!(reroot_filesystem_asset(PathStyle::Unix, working, base, reference), reference);
    }
    let reference = "assets/model.glb?next=/../x#part/../y";
    let rerooted = reroot_filesystem_asset(PathStyle::Unix, working, base, reference);
    let (path, suffix) = split_suffix(&rerooted);
    assert_eq!(suffix, "?next=/../x#part/../y");
    assert_eq!(
        path,
        normalize_filesystem_path(PathStyle::Unix, working, "/module/dir/assets/model.glb")
    );
}

#[test]
fn filesystem_reroot_preserves_windows_absolute_and_unc_paths() {
    for reference in [
        r"C:\models\body.glb?variant=1#node",
        r"\\server\share\body.glb#node",
    ] {
        assert_eq!(
            reroot_filesystem_asset(
                PathStyle::Windows,
                r"C:\work",
                r"C:\module\dir",
                reference
            ),
            reference
        );
    }
}

#[test]
fn paths_follow_the_rules_of_windows() {
    let style = PathStyle::Windows;
    let here = r"C:\work";
    for (path, wanted) in [
        (r"..\a/b\.", r"C:\a\b"),
        (r"\x", r"C:\x"),
        (r"C:\..\y", r"C:\y"),
        (r"c:/Y", r"c:\Y"),
        ("D:x", "D:x"),
        (r"\\server\share\a\..", r"\\server\share\"),
        ("//server/share/a/./b", r"//server/share\a\b"),
        (r"\\.\COM1", r"\\.\COM1\"),
        (r"\\?\C:\a\..\b", r"\\?\C:\b"),
        (r"\\?\UNC\h\s\a", r"\\?\UNC\h\s\a"),
        (r"\\server", r"C:\server"),
    ] {
        assert_eq!(normalize_filesystem_path(style, here, path), wanted);
    }
    assert_eq!(normalize_filesystem_path(style, r"\\?\C:\work", r"..\a"), r"\\?\C:\a");
    assert_eq!(normalize_filesystem_path(style, r"\\?\C:\a\b\..", ".."), r"\\?\C:\a");
    assert_eq!(normalize_filesystem_path(style, r"\\?\pics", "a"), r"\\?\pics\a");
    assert_eq!(
        reroot_filesystem_asset(style, here, r"C:\module\dir", r"assets\m.glb?x=/.."),
        r"C:\module\dir\assets\m.glb?x=/.."
    );
    assert_eq!(reroot_filesystem_asset(style, here, r"D:\module", "/m.glb"), r"D:\m.glb");
}

#[test]
fn a_path_has_a_prefix_a_root_and_names() {
    let shared = NativePath::parse(PathStyle::Windows, r"\\host\share");
    assert_eq!(shared.kind, PrefixKind::Share);
    assert!(shared.rooted && shared.absolute(PathStyle::Windows));
    let drive = NativePath::parse(PathStyle::Windows, r"C:a\b");
    assert_eq!((drive.prefix.as_str(), drive.rooted), ("C:", false));
    assert!(!drive.absolute(PathStyle::Windows));
    assert_eq!(drive.names, vec!["a".to_owned(), "b".to_owned()]);
    let verbatim = NativePath::parse(PathStyle::Windows, r"\\?\pictures");
    assert_eq!(verbatim.kind, PrefixKind::Verbatim);
    assert!(verbatim.absolute(PathStyle::Windows));
    let plain = NativePath::parse(PathStyle::Unix, r"C:\a/b");
    assert_eq!(plain.kind, PrefixKind::Nothing);
    assert_eq!(plain.names, vec![r"C:\a".to_owned(), "b".to_owned()]);
    let once = NativePath::parse(PathStyle::Unix, "/a/../b/./c").settle(PathStyle::Unix);
    assert_eq!(once.settle(PathStyle::Unix), once);
    assert_eq!(once.text(PathStyle::Unix), "/b/c");
}

#[test]
fn normalizing_again_changes_nothing() {
    for path in ["a/./b/../c", "../../x", "/..//y/", "", "."] {
        for rooted in [true, false] {
            let once = normalize_logical_segments(path, rooted);
            assert_eq!(normalize_logical_segments(&once, rooted), once);
        }
    }
    assert_eq!(normalize_logical_segments("a/./b/../c", false), "a/c");
    assert_eq!(normalize_logical_segments("../../x", false), "../../x");
    assert_eq!(normalize_logical_segments("../../x", true), "x");
}

#[test]
fn relative_paths_stand_on_the_working_directory() {
    assert_eq!(normalize_filesystem_path(PathStyle::Unix, "/work/here", "../a//b/."), "/work/a/b");
    assert_eq!(normalize_filesystem_path(PathStyle::Unix, "/work", "/../x"), "/x");
    assert_eq!(
        reroot_filesystem_asset(PathStyle::Unix, "/work", "module", "../assets/m.glb#n"),
        "/work/assets/m.glb#n"
    );
}

#[test]
fn a_scheme_starts_with_a_letter() {
    assert!(has_uri_scheme("custom+v1:x"));
    assert!(has_uri_scheme("C:/dir"));
    assert!(!has_uri_scheme(":x"));
    assert!(!has_uri_scheme("1a:x"));
    assert!(!has_uri_scheme("plain"));
}

#[test]
fn reference_errors_say_what_is_wrong() {
    let opaque = resolve_resource_reference("urn:x", "child").unwrap_err();
    assert_eq!(
        opaque.message(),
        "relative resource URI \"child\" cannot be resolved against opaque parent \"urn:x\""
    );
    assert_eq!(
        ResourceReferenceError::EmptyReference.message(),
        "resource URI must not be empty"
    );
}
