//! Packing glTF documents.
use hcdformat::gltf::codec::{
    base64_decode, decode_data_uri, mime_from_ext, percent_decode, sniff_image_mime,
};
use hcdformat::gltf::pack::{assemble_glb, is_glb_bytes, pack_gltf_to_glb, GltfPackError};

#[test]
fn glb_magic_is_content_not_extension() {
    assert!(is_glb_bytes(b"glTF\x02\x00\x00\x00rest"));
    assert!(!is_glb_bytes(b"{\"asset\":{}}"));
    assert!(!is_glb_bytes(b"glT")); // too short
}

#[test]
fn base64_decodes_standard_padding_and_whitespace() {
    assert_eq!(base64_decode("AAEC").unwrap(), vec![0, 1, 2]);
    assert_eq!(base64_decode("AA==").unwrap(), vec![0]);
    assert_eq!(base64_decode("AAE=").unwrap(), vec![0, 1]);
    assert_eq!(base64_decode("AA\nEC").unwrap(), vec![0, 1, 2]);
    assert!(base64_decode("A*==").is_err());
}

#[test]
fn data_uri_decodes_mime_and_payload() {
    let (mime, data) = decode_data_uri("data:application/octet-stream;base64,AAEC").unwrap();
    assert_eq!(mime, "application/octet-stream");
    assert_eq!(data, vec![0, 1, 2]);
    let (mime, _) = decode_data_uri("data:;base64,AA==").unwrap();
    assert_eq!(mime, "application/octet-stream");
    assert!(decode_data_uri("data:text/plain,hello").is_err());
}

#[test]
fn percent_decoding_and_mime_sniff() {
    assert_eq!(percent_decode("CHASSIS%20v2.bin"), "CHASSIS v2.bin");
    assert_eq!(percent_decode("plain.bin"), "plain.bin");
    assert_eq!(percent_decode("bad%zz.bin"), "bad%zz.bin"); // invalid escape kept literal
    assert_eq!(mime_from_ext("Textures/T.JPG"), Some("image/jpeg"));
    assert_eq!(mime_from_ext("t.png"), Some("image/png"));
    assert_eq!(mime_from_ext("t.ktx2"), None);
    assert_eq!(mime_from_ext("noext"), None);
}

#[test]
fn image_magic_sniff_is_content_not_extension() {
    assert_eq!(
        sniff_image_mime(b"\x89PNG\r\n\x1a\nrest"),
        Some("image/png")
    );
    assert_eq!(
        sniff_image_mime(&[0xFF, 0xD8, 0xFF, 0xE0, 0x00]),
        Some("image/jpeg")
    );
    assert_eq!(sniff_image_mime(b"\xabKTX 20\xbb"), None);
    assert_eq!(sniff_image_mime(b""), None);
}

#[test]
fn base64_says_what_is_wrong() {
    assert_eq!(base64_decode("TWFu").unwrap(), b"Man".to_vec());
    assert_eq!(base64_decode("TWFuIQ").unwrap(), b"Man!".to_vec());
    assert_eq!(base64_decode("T").unwrap(), Vec::<u8>::new());
    assert_eq!(
        base64_decode("-").unwrap_err(),
        "invalid base64 character '-'"
    );
    assert_eq!(percent_decode("%C3%A9"), "\u{e9}");
    assert_eq!(percent_decode("%FF"), "%FF");
}

#[test]
fn a_container_names_its_length() {
    let glb = assemble_glb(b"{}".to_vec(), vec![1, 2, 3]);
    assert_eq!(
        glb,
        [
            b"glTF".as_slice(),
            &[2, 0, 0, 0],
            &[36, 0, 0, 0],
            &[4, 0, 0, 0],
            b"JSON{}  ",
            &[4, 0, 0, 0],
            b"BIN\0",
            &[1, 2, 3, 0],
        ]
        .concat()
    );
    let bare = assemble_glb(b"{}  ".to_vec(), Vec::new());
    assert_eq!(bare.len(), 24);
    assert_eq!(bare[8], 24);
}

#[test]
fn packing_brings_buffers_and_images_in() {
    let source = br#"{"asset":{"version":"2.0"},"buffers":[{"uri":"a%20b.bin","byteLength":3},{"uri":"data:;base64,AAEC","byteLength":2}],"bufferViews":[{"buffer":1,"byteOffset":1,"byteLength":1}],"images":[{"uri":"t.png"}]}"#;
    let mut asked = Vec::new();
    let glb = pack_gltf_to_glb(source, |uri| {
        asked.push(uri.to_owned());
        match uri {
            "a b.bin" => Some(vec![7, 8, 9]),
            "t.png" => Some(b"\x89PNG\r\n\x1a\n!".to_vec()),
            _ => None,
        }
    })
    .unwrap();
    assert_eq!(asked, vec!["a b.bin".to_owned(), "t.png".to_owned()]);
    assert!(is_glb_bytes(&glb));
    let length = glb[12] as usize + 256 * glb[13] as usize;
    let json = std::str::from_utf8(&glb[20..20 + length]).unwrap();
    let value: serde_json::Value = serde_json::from_str(json).unwrap();
    assert_eq!(value["buffers"].as_array().unwrap().len(), 1);
    assert_eq!(value["buffers"][0]["byteLength"].as_u64(), Some(17));
    assert!(value["buffers"][0].get("uri").is_none());
    assert_eq!(value["bufferViews"][0]["buffer"].as_u64(), Some(0));
    assert_eq!(value["bufferViews"][0]["byteOffset"].as_u64(), Some(5));
    assert_eq!(value["images"][0]["mimeType"].as_str(), Some("image/png"));
    assert_eq!(value["images"][0]["bufferView"].as_u64(), Some(1));
    let data = &glb[20 + length + 8..];
    assert_eq!(&data[..3], &[7, 8, 9]);
    assert_eq!(&data[4..6], &[0, 1]);
}

#[test]
fn packing_says_what_is_missing() {
    let nothing = |_uri: &str| None;
    assert!(matches!(
        pack_gltf_to_glb(b"[]", nothing),
        Err(GltfPackError::Invalid(_))
    ));
    assert!(matches!(
        pack_gltf_to_glb(b"{", nothing),
        Err(GltfPackError::Invalid(_))
    ));
    let error = pack_gltf_to_glb(
        br#"{"asset":{},"buffers":[{"uri":"x.bin","byteLength":1}],"images":[{"uri":"y.png"}]}"#,
        nothing,
    )
    .unwrap_err();
    match &error {
        GltfPackError::Unresolved(list) => assert_eq!(list.len(), 2),
        _ => panic!("{}", error.message()),
    }
    assert!(error.message().starts_with(
        "cannot pack into a self-contained GLB; unresolved external references: "
    ));
    assert_eq!(
        GltfPackError::Invalid("x".to_owned()).message(),
        "not a packable .gltf document: x"
    );
}

fn refusal(source: &str) -> String {
    pack_gltf_to_glb(source.as_bytes(), |uri| match uri {
        "three.bin" => Some(vec![7, 8, 9]),
        _ => None,
    })
    .unwrap_err()
    .message()
}

#[test]
fn packing_says_what_is_invalid() {
    let cases = [
        ("[]", "root is not a JSON object"),
        (r#"{"buffers":1}"#, "\"buffers\" is not an array"),
        (r#"{"images":1}"#, "\"images\" is not an array"),
        (r#"{"bufferViews":1}"#, "\"bufferViews\" is not an array"),
        (r#"{"buffers":[{}]}"#, "buffer 0 has no byteLength"),
        (
            r#"{"buffers":[{"byteLength":1}]}"#,
            "buffer 0 has no uri (a uri-less buffer is only valid inside a GLB, not a .gltf)",
        ),
        (
            r#"{"buffers":[{"byteLength":4,"uri":"three.bin"}]}"#,
            "buffer 0 (\"three.bin\"): resolved 3 bytes but byteLength declares 4",
        ),
        (r#"{"bufferViews":[1]}"#, "bufferView 0 is not an object"),
        (r#"{"bufferViews":[{}]}"#, "bufferView 0 has no buffer index"),
        (
            r#"{"bufferViews":[{"buffer":2}]}"#,
            "bufferView 0 references buffer 2, but only 0 buffer(s) exist",
        ),
        (
            r#"{"bufferViews":[{"buffer":0,"extensions":{"EXT_meshopt_compression":{}}}]}"#,
            "bufferView 0 uses EXT_meshopt_compression, whose internal buffer reference the packer cannot rewrite",
        ),
    ];
    for (source, reason) in cases {
        assert_eq!(
            refusal(source),
            format!("not a packable .gltf document: {}", reason)
        );
    }
}

#[test]
fn every_missing_reference_is_listed() {
    let source = r#"{"buffers":[{"byteLength":1,"uri":"HTTP://h/x"}],"images":[{"uri":"y.png"}]}"#;
    let error = pack_gltf_to_glb(source.as_bytes(), |_uri| None).unwrap_err();
    match error {
        GltfPackError::Unresolved(list) => assert_eq!(
            list,
            vec![
                "buffer 0: \"HTTP://h/x\" (remote uris are not fetched by the packer)",
                "image 0: \"y.png\" (companion file not found)",
            ]
        ),
        GltfPackError::Invalid(reason) => panic!("{}", reason),
    }
    let error = pack_gltf_to_glb(br#"{"images":[{"uri":"t.tga"}]}"#, |_uri| Some(vec![0]));
    match error.unwrap_err() {
        GltfPackError::Unresolved(list) => assert_eq!(
            list,
            vec!["image 0: \"t.tga\" (cannot determine its mime type; only PNG/JPEG external images are inlined; add a mimeType or convert the texture)"]
        ),
        GltfPackError::Invalid(reason) => panic!("{}", reason),
    }
}

#[test]
fn images_are_shown_by_their_views() {
    let source = br#"{"buffers":[{"uri":"b.bin","byteLength":2}],"images":[{"uri":"a.png","name":"first"},{"uri":"b.jpg"},{"bufferView":0},{"uri":"c.png"}]}"#;
    let glb = pack_gltf_to_glb(source, |uri| match uri {
        "b.bin" => Some(vec![1, 2, 3]),
        "b.jpg" => Some(vec![5, 5]),
        _ => Some(vec![4, 4, 4]),
    })
    .unwrap();
    let length = glb[12] as usize + 256 * glb[13] as usize;
    let value: serde_json::Value =
        serde_json::from_str(std::str::from_utf8(&glb[20..20 + length]).unwrap()).unwrap();
    let data = &glb[20 + length + 8..];
    let shown = |image: usize| -> Vec<u8> {
        let number = value["images"][image]["bufferView"].as_u64().unwrap() as usize;
        let view = &value["bufferViews"][number];
        let at = view["byteOffset"].as_u64().unwrap() as usize;
        assert_eq!(at % 4, 0);
        data[at..at + view["byteLength"].as_u64().unwrap() as usize].to_vec()
    };
    assert_eq!(&data[..2], &[1, 2]);
    assert_eq!(shown(0), vec![4, 4, 4]);
    assert_eq!(shown(1), vec![5, 5]);
    assert_eq!(shown(3), vec![4, 4, 4]);
    assert_eq!(
        value["images"][0]["bufferView"],
        value["images"][3]["bufferView"]
    );
    assert_eq!(value["images"][0]["name"].as_str(), Some("first"));
    assert_eq!(value["images"][1]["mimeType"].as_str(), Some("image/jpeg"));
    assert!(value["images"][0].get("uri").is_none());
    assert_eq!(value["images"][2]["bufferView"].as_u64(), Some(0));
    assert_eq!(value["bufferViews"].as_array().unwrap().len(), 2);
}

#[test]
fn the_lookup_is_asked_up_to_the_first_fault() {
    let source = br#"{"buffers":[{"byteLength":9,"uri":"short.bin"},{"uri":"next.bin"}],"images":[{"uri":"t.png"}]}"#;
    let mut asked = Vec::new();
    let error = pack_gltf_to_glb(source, |uri| {
        asked.push(uri.to_owned());
        Some(vec![1, 2])
    })
    .unwrap_err();
    assert_eq!(
        error.message(),
        "not a packable .gltf document: buffer 0 (\"short.bin\"): resolved 2 bytes but byteLength declares 9"
    );
    assert_eq!(asked, vec!["short.bin".to_owned()]);
}

#[test]
fn the_same_files_make_the_same_glb() {
    let source = br#"{"buffers":[{"byteLength":1,"uri":"CHASSIS.bin"}],"images":[{"uri":"t.png"}]}"#;
    let files = |uri: &str| match uri {
        "CHASSIS.bin" => Some(vec![7]),
        "t.png" => Some(vec![8, 9]),
        _ => None,
    };
    let first = pack_gltf_to_glb(source, files).unwrap();
    assert_eq!(pack_gltf_to_glb(source, files).unwrap(), first);
    let without = |uri: &str| if uri == "t.png" { None } else { files(uri) };
    assert!(matches!(
        pack_gltf_to_glb(source, without),
        Err(GltfPackError::Unresolved(_))
    ));
}
