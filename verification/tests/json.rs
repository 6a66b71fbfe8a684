//! The JSON form of documents.
use hcdformat::error::Error;
use hcdformat::float::Float64;
use hcdformat::json::dom::{parse_dom, Dom};
use hcdformat::json::hcdf_xml_to_json;
use hcdformat::json::json_to_hcdf_xml;
use hcdformat::json::read;
use hcdformat::json::read::element_to_json;
use hcdformat::json::schema_from_str;
use hcdformat::json::schema::{build_xsd_info, XsdInfo};
use hcdformat::json::value;
use hcdformat::json::value::{to_json_string, JVal};

fn parse(text: &str) -> Option<Float64> {
    text.parse::<f64>().ok().map(|f| Float64 { bits: f.to_bits() })
}

fn show(f: Float64) -> String {
    format!("{}", f64::from_bits(f.bits))
}

fn float(f: f64) -> Float64 {
    Float64 { bits: f.to_bits() }
}

fn try_numeric(text: &str) -> JVal {
    read::try_numeric(&parse, text)
}

fn fmt_float(f: f64) -> String {
    value::fmt_float(&show, float(f))
}

fn schema() -> XsdInfo {
    let source = r#"<?xml version="1.0"?>
<xs:schema xmlns:xs="http://www.w3.org/2001/XMLSchema">
  <xs:complexType name="hcdf">
    <xs:sequence>
      <xs:element name="comp" type="comp"/>
      <xs:element name="color" type="color"/>
    </xs:sequence>
    <xs:attribute name="version"/>
    <xs:attribute name="name"/>
  </xs:complexType>
  <xs:complexType name="named">
    <xs:attribute name="name"/>
  </xs:complexType>
  <xs:complexType name="comp">
    <xs:complexContent>
      <xs:extension base="named">
        <xs:sequence>
          <xs:element name="inertial" type="inertial"/>
          <xs:element name="visual" type="visual"/>
        </xs:sequence>
        <xs:attribute name="role"/>
      </xs:extension>
    </xs:complexContent>
  </xs:complexType>
  <xs:complexType name="inertial">
    <xs:sequence><xs:element name="mass" type="xs:double"/></xs:sequence>
  </xs:complexType>
  <xs:complexType name="visual">
    <xs:sequence><xs:element name="pose" type="pose"/></xs:sequence>
    <xs:attribute name="name"/>
  </xs:complexType>
  <xs:complexType name="pose">
    <xs:attribute name="xyz"/>
    <xs:attribute name="rpy"/>
  </xs:complexType>
  <xs:complexType name="color">
    <xs:attribute name="name"/>
    <xs:attribute name="rgba"/>
  </xs:complexType>
  <xs:element name="hcdf" type="hcdf"/>
</xs:schema>
"#;
    build_xsd_info(&parse_dom(source).unwrap())
}

fn json_of(xml: &str) -> JVal {
    let root: Dom = parse_dom(xml).unwrap();
    let inner = element_to_json(&parse, &root);
    JVal::Obj(vec![(root.name.clone(), inner)])
}

#[test]
fn try_numeric_matches_python_rules() {
    assert_eq!(try_numeric("0 0 0"), JVal::Str("0 0 0".into())); // vector -> string
    assert_eq!(try_numeric("0x601"), JVal::Str("0x601".into())); // hex -> string
    assert_eq!(try_numeric("1.0.3"), JVal::Str("1.0.3".into())); // version -> string
    assert_eq!(try_numeric("true"), JVal::Bool(true));
    assert_eq!(try_numeric("false"), JVal::Bool(false));
    assert_eq!(try_numeric("007"), JVal::Float(float(7.0)));
    assert_eq!(try_numeric("24"), JVal::Int(24));
    assert_eq!(try_numeric("-3"), JVal::Int(-3));
    assert_eq!(try_numeric("50.0"), JVal::Float(float(50.0)));
    assert_eq!(try_numeric(".5"), JVal::Str(".5".into())); // leading-dot -> string
    assert_eq!(try_numeric("1.2e-5"), JVal::Str("1.2e-5".into())); // e-notation -> string
    assert_eq!(try_numeric("802.3dm"), JVal::Str("802.3dm".into()));
}

#[test]
fn float_formats_like_python_repr() {
    assert_eq!(fmt_float(50.0), "50.0");
    assert_eq!(fmt_float(0.5), "0.5");
    assert_eq!(fmt_float(-3.5), "-3.5");
    assert_eq!(fmt_float(0.0942), "0.0942");
}

#[test]
fn minimal_xml_json_roundtrips_to_a_fixpoint() {
    let xml = r#"<?xml version="1.0"?>
<hcdf version="1.0" name="t">
  <comp name="base" role="actuator">
    <inertial><mass>0.5</mass></inertial>
    <visual name="v"><pose xyz="0 0 0" rpy="0 0 0"/></visual>
  </comp>
  <color name="rubber" rgba="0.1 0.1 0.1 1.0"/>
</hcdf>
"#;
    let json1 = hcdf_xml_to_json(xml, &parse, &show).expect("xml->json");
    let value = json_of(xml);
    assert_eq!(to_json_string(&show, &value), json1);
    let xml2 = json_to_hcdf_xml(&schema(), &value, &show).expect("json->xml");
    let json2 = hcdf_xml_to_json(&xml2, &parse, &show).expect("xml2->json");
    assert_eq!(json1, json2, "xml->json->xml must reach a JSON fixpoint");
    assert!(json1.contains("\"version\": 1.0"), "got: {json1}");
    assert!(json1.contains("\"xyz\": \"0 0 0\""), "got: {json1}");
}

#[test]
fn written_xml_is_laid_out() {
    let xml = "<hcdf name=\"a&amp;&lt;b\"><comp name=\"x\"/><comp name=\"y\">t</comp></hcdf>";
    let written = json_to_hcdf_xml(&schema(), &json_of(xml), &show).unwrap();
    assert_eq!(
        written,
        "<?xml version='1.0' encoding='UTF-8'?>\n<hcdf name=\"a&amp;&lt;b\">\n  <comp name=\"x\"/>\n  <comp name=\"y\">t</comp>\n</hcdf>\n"
    );
    assert_eq!(json_of(&written), json_of(xml));
}

#[test]
fn repeated_children_make_a_list_where_the_first_stands() {
    let xml = "<a><b>1</b><c/><b>x</b></a>";
    assert_eq!(
        hcdf_xml_to_json(xml, &parse, &show).unwrap(),
        "{\n  \"a\": {\n    \"b\": [\n      1,\n      \"x\"\n    ],\n    \"c\": null\n  }\n}\n"
    );
}

#[test]
fn a_value_of_a_type_with_attributes_only_becomes_the_first() {
    let value = JVal::Obj(vec![(
        "hcdf".to_owned(),
        JVal::Obj(vec![(
            "color".to_owned(),
            JVal::Arr(vec![JVal::Str("red".to_owned()), JVal::Int(2)]),
        )]),
    )]);
    assert_eq!(
        json_to_hcdf_xml(&schema(), &value, &show).unwrap(),
        "<?xml version='1.0' encoding='UTF-8'?>\n<hcdf>\n  <color name=\"red\"/>\n  <color name=\"2\"/>\n</hcdf>\n"
    );
}

#[test]
fn the_schema_is_inherited() {
    let info = schema();
    assert_eq!(info.global_type("hcdf"), Some("hcdf".to_owned()));
    assert_eq!(info.child_type("hcdf", "comp"), Some("comp".to_owned()));
    assert_eq!(info.child_type("hcdf", "pose"), None);
    let attrs = info.attrs_for_type("comp");
    assert!(attrs.contains(&"name".to_owned()) && attrs.contains(&"role".to_owned()));
    assert!(info.is_attr_only("pose"));
    assert!(!info.is_attr_only("visual"));
}

#[test]
fn malformed_documents_are_refused() {
    assert!(matches!(
        hcdf_xml_to_json("<a><b></a>", &parse, &show),
        Err(Error::Xml(_))
    ));
    assert!(matches!(
        hcdf_xml_to_json("", &parse, &show),
        Err(Error::Xml(_))
    ));
    assert_eq!(
        json_to_hcdf_xml(&schema(), &JVal::Null, &show),
        Err(Error::Json(
            "JSON root must be an object with exactly one key (the root element tag)".to_owned()
        ))
    );
}

#[test]
fn entities_are_read_and_literal_sections_are_not() {
    let root = parse_dom("<n:a x='1 &amp; 2'>t &#65;<b/>tail</n:a>").unwrap();
    assert_eq!(root.name, "a");
    assert_eq!(root.get("x"), Some("1 & 2"));
    assert_eq!(root.text, "t A");
    assert!(root.find("b").is_some());
    assert!(root.find("c").is_none());
    let root = parse_dom("<a>x<![CDATA[y]]></a>").unwrap();
    assert_eq!(root.text, "x");
}

#[test]
fn the_json_form_comes_back_from_the_xml_that_it_is_written_as() {
    let xml = "<hcdf name=\"a;&amp;b &lt;&gt; &quot;c&quot; 'd'\tÜ\n\" version='007'>\
               lead &amp;amp; ]]&gt; text<comp name='x' role=''>\u{2003}t; 1 &lt; 2 </comp>\
               <more><deep>100000000000000000000</deep><deep/><deep>true</deep></more>tail</hcdf>";
    let json = hcdf_xml_to_json(xml, &parse, &show).unwrap();
    let written = json_to_hcdf_xml(&schema(), &json_of(xml), &show).unwrap();
    assert_eq!(hcdf_xml_to_json(&written, &parse, &show).unwrap(), json);
    assert_eq!(json_of(&written), json_of(xml));
    let again = json_to_hcdf_xml(&schema(), &json_of(&written), &show).unwrap();
    assert_eq!(again, written);
    assert!(json.contains("\"name\": \"a;&b <> \\\"c\\\" 'd'\\tÜ\\n\""));
    assert!(json.contains("\"$text\": \"lead &amp; ]]> text\""));
}

#[test]
fn undeclared_attributes_come_back_behind_declared_ones() {
    for xml in [
        "<hcdf version='1' zeta='z y' n='5' x='2.50'><comp name='x' own='true'/></hcdf>",
        "<hcdf loose='a'/>",
        "<hcdf version='1'><name>n</name><comp/><zeta>1</zeta></hcdf>",
        "<hcdf><version>1</version><version/></hcdf>",
        "<hcdf><visual><pose>1 2 3</pose></visual></hcdf>",
    ] {
        let json = hcdf_xml_to_json(xml, &parse, &show).unwrap();
        let written = json_to_hcdf_xml(&schema(), &json_of(xml), &show).unwrap();
        assert_eq!(hcdf_xml_to_json(&written, &parse, &show).unwrap(), json);
    }
}

#[test]
fn undeclared_attributes_beside_text_move_behind_it() {
    let xml = "<hcdf zeta='z'>words</hcdf>";
    let written = json_to_hcdf_xml(&schema(), &json_of(xml), &show).unwrap();
    assert_ne!(json_of(&written), json_of(xml));
    assert_eq!(
        json_of(&written),
        JVal::Obj(vec![(
            "hcdf".into(),
            JVal::Obj(vec![
                ("$text".into(), JVal::Str("words".into())),
                ("zeta".into(), JVal::Str("z".into())),
            ]),
        )])
    );
}

#[test]
fn a_schema_is_read_from_its_text() {
    let info = schema_from_str(
        "<xs:schema><xs:complexType name='t'><xs:attribute name='a'/></xs:complexType>\
         <xs:element name='e' type='t'/></xs:schema>",
    )
    .unwrap();
    assert_eq!(info.global_type("e"), Some("t".to_owned()));
    assert_eq!(info.attrs_for_type("t"), vec!["a".to_owned()]);
    assert!(matches!(schema_from_str("<a>"), Err(Error::Xml(_))));
}
