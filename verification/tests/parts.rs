//! Values that are put together from their parts, and small vocabulary questions.
use hcdformat::float::Float64;
use hcdformat::model::connectivity::{
    Fidelity, IncludeInstanceId, IncludeSegmentName, OwnerRef, ReferenceScope,
};
use hcdformat::model::connectivity_xml::{
    DerivedRouteRepresentation, RectangularRouteSection, RoundRouteSection, RouteSectionChoice,
};
use hcdformat::model::enums::{valid_values_for, EmSensorType};
use hcdformat::model::{Color, ModelRef, Visual, VisualAppearance, VisualParts};

const ONE: Float64 = Float64 {
    bits: 0x3ff0_0000_0000_0000,
};

fn red() -> Option<Color> {
    Some(Color {
        name: Some("red".to_owned()),
        ..Color::default()
    })
}

#[test]
fn a_model_leaves_no_room_for_a_color() {
    let parts = VisualParts {
        name: Some("body".to_owned()),
        toggle: Some("shell".to_owned()),
        name_origin: None,
        pose: None,
        model: Some(ModelRef::default()),
        geometry: None,
        color: red(),
    };
    let visual = Visual::from_parts(parts);
    assert_eq!(visual.name, "body");
    assert_eq!(
        visual.appearance,
        VisualAppearance::Model {
            model: ModelRef::default(),
            geometry: None,
        }
    );
    let parts = visual.into_parts();
    assert_eq!(parts.name.as_deref(), Some("body"));
    assert_eq!(parts.toggle.as_deref(), Some("shell"));
    assert_eq!(parts.model, Some(ModelRef::default()));
    assert_eq!(parts.color, None);
}

#[test]
fn an_appearance_comes_back_from_its_parts() {
    let parts = VisualParts {
        name: None,
        toggle: None,
        name_origin: None,
        pose: None,
        model: None,
        geometry: None,
        color: red(),
    };
    let visual = Visual::from_parts(parts);
    assert_eq!(visual.name, "");
    let appearance = VisualAppearance::Primitive {
        geometry: None,
        color: red(),
    };
    assert_eq!(visual.appearance, appearance);
    let again = Visual::from_parts(visual.into_parts());
    assert_eq!(again.appearance, appearance);
}

#[test]
fn a_route_has_at_most_one_section() {
    let round = RoundRouteSection { diameter: ONE };
    let flat = RectangularRouteSection {
        width: ONE,
        height: ONE,
    };
    let refused = DerivedRouteRepresentation::from_parts(
        Some(round.clone()),
        Some(flat.clone()),
        Vec::new(),
    );
    assert_eq!(
        refused,
        Err("derived-route may contain at most one round-section or rectangular-section")
    );
    let route = DerivedRouteRepresentation::from_parts(Some(round.clone()), None, Vec::new());
    assert_eq!(
        route.clone().unwrap().section,
        Some(RouteSectionChoice::Round(round.clone()))
    );
    let (back, other, points) = route.unwrap().into_parts();
    assert_eq!((back, other), (Some(round), None));
    assert!(points.is_empty());
    let route = DerivedRouteRepresentation::from_parts(None, Some(flat.clone()), Vec::new());
    assert_eq!(
        route.unwrap().section,
        Some(RouteSectionChoice::Rectangular(flat))
    );
    let route = DerivedRouteRepresentation::from_parts(None, None, Vec::new());
    assert_eq!(route.unwrap().section, None);
}

#[test]
fn an_authored_scope_names_an_instance() {
    assert_eq!(ReferenceScope::authored(None), Ok(ReferenceScope::Local));
    assert_eq!(
        ReferenceScope::authored(Some(IncludeInstanceId::root())),
        Err("an explicit instance scope must contain at least one segment")
    );
    let arm = IncludeInstanceId::root().named_child("arm".to_owned(), 0);
    assert_eq!(
        ReferenceScope::authored(Some(arm.clone())),
        Ok(ReferenceScope::Instance(arm))
    );
}

#[test]
fn small_questions_are_answered() {
    assert_eq!(IncludeSegmentName::unnamed().as_named(), None);
    assert_eq!(
        IncludeSegmentName::named("arm".to_owned()).as_named(),
        Some("arm")
    );
    assert_eq!(
        *OwnerRef::local_assembly("frame".to_owned()).scope(),
        ReferenceScope::Local
    );
    assert!(Fidelity::Exact.is_exact());
    assert!(Fidelity::Quantified.is_exact());
    assert!(!Fidelity::Functional.is_exact());
    assert!(!Fidelity::Presented.is_exact());
}

#[test]
fn slots_know_their_literals() {
    assert_eq!(
        valid_values_for("em", "@type"),
        Some(EmSensorType::valid_values())
    );
    assert_eq!(valid_values_for("em", "@kind"), None);
    assert_eq!(valid_values_for("nowhere", "@type"), None);
}

#[test]
fn numbers_are_equal_as_numbers() {
    let float = |f: f64| Float64 { bits: f.to_bits() };
    assert_eq!(float(0.0), float(-0.0));
    assert_eq!(float(1.5), float(1.5));
    assert_ne!(float(1.5), float(-1.5));
    assert_ne!(float(f64::NAN), float(f64::NAN));
    assert_ne!(float(f64::NAN), float(0.0));
    assert_eq!(float(f64::INFINITY), float(f64::INFINITY));
    assert_ne!(float(f64::INFINITY), float(f64::NEG_INFINITY));
}
