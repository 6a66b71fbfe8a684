//! Quoted texts.
use hcdformat::quote::{push_json_string, repr_enum, repr_opt, repr_str};

#[test]
fn matches_cpython_repr() {
    assert_eq!(repr_str("tool"), "'tool'");
    assert_eq!(repr_str("a'b"), "\"a'b\"");
    assert_eq!(repr_str("a\"b"), "'a\"b'");
    assert_eq!(repr_str("a\\b"), "'a\\\\b'");
    assert_eq!(repr_opt(None), "None");
    assert_eq!(repr_opt(Some("x")), "'x'");
    assert_eq!(
        repr_enum("CompRole", "actuator"),
        "<CompRole.actuator: 'actuator'>"
    );
}

#[test]
fn json_strings_escape_what_they_must() {
    let mut plain = String::new();
    push_json_string("a\"b\\c\n\u{1}\u{e9}", false, &mut plain);
    assert_eq!(plain, "\"a\\\"b\\\\c\\n\\u0001\u{e9}\"");
    let mut ascii = String::from("x");
    push_json_string("\u{e9}\u{1f600}", true, &mut ascii);
    assert_eq!(ascii, "x\"\\u00e9\\ud83d\\ude00\"");
    assert!(ascii.is_ascii());
}
