use horaires::hours::{Moment, RuleKind};
use horaires::overpass::{Element, Position};

fn element(tags: &[(&str, &str)]) -> Element {
    Element {
        id: 7,
        type_: "node".to_string(),
        lat: 1.5f32.to_bits(),
        lon: (-2.25f32).to_bits(),
        nodes: vec![],
        tags: tags.iter().map(|(k, v)| (k.to_string(), v.to_string())).collect(),
    }
}

#[test]
fn name_falls_back_on_amenity_then_question_mark() {
    assert_eq!(element(&[("name", "Chez Paul"), ("amenity", "bar")]).name(), "Chez Paul");
    assert_eq!(element(&[("amenity", "bar")]).name(), "bar");
    assert_eq!(element(&[]).name(), "?");
}

#[test]
fn icon_of_element() {
    assert_eq!(element(&[("amenity", "bicycle_parking")]).icon(), Some("oc-parking-bicycle".to_string()));
    assert_eq!(element(&[("amenity", "ice_cream")]).icon(), Some("oc-ice-cream".to_string()));
    assert_eq!(element(&[("amenity", "doctors")]).icon(), Some("oc-doctors".to_string()));
    assert_eq!(element(&[("name", "x")]).icon(), None);
}

#[test]
fn website_falls_back_on_contact_website() {
    assert_eq!(
        element(&[("contact:website", "b.fr"), ("website", "a.fr")]).website(),
        Some("a.fr".to_string())
    );
    assert_eq!(element(&[("contact:website", "b.fr")]).website(), Some("b.fr".to_string()));
    assert_eq!(element(&[]).website(), None);
}

#[test]
fn favorite_when_listed() {
    assert!(element(&[]).is_favorite(&[3, 7]));
    assert!(!element(&[]).is_favorite(&[3]));
    assert!(!element(&[]).is_favorite(&[]));
}

#[test]
fn position_carries_coordinates() {
    let p = element(&[]).position();
    assert_eq!(p, Position { lat: 1.5f32.to_bits(), lng: (-2.25f32).to_bits() });
    assert_eq!(f32::from_bits(p.lng), -2.25);
}

#[test]
fn state_without_or_with_invalid_hours_is_unknown() {
    assert_eq!(element(&[]).state(), RuleKind::Unknown);
    assert_eq!(element(&[("opening_hours", "not a valid expression")]).state(), RuleKind::Unknown);
}

#[test]
fn state_of_always_open_and_closed_places() {
    assert_eq!(element(&[("opening_hours", "24/7")]).state(), RuleKind::Open);
    assert_eq!(element(&[("opening_hours", "off")]).state(), RuleKind::Closed);
}

#[test]
fn state_at_a_given_time() {
    let monday_15 = Moment::from_seconds(1_731_942_000).unwrap();
    let monday_10 = Moment::from_seconds(1_731_924_000).unwrap();
    let e = element(&[("opening_hours", "12:00-18:00")]);
    assert_eq!(e.state_at(&monday_15), RuleKind::Open);
    assert_eq!(e.state_at(&monday_10), RuleKind::Closed);
    assert_eq!(element(&[]).state_at(&monday_15), RuleKind::Unknown);
    assert_eq!(element(&[("opening_hours", "nonsense here")]).state_at(&monday_15), RuleKind::Unknown);
    assert!(Moment::from_seconds(i64::MAX).is_none());
}

#[test]
fn moments_cover_chrono_range() {
    assert!(Moment::from_seconds(8_210_266_876_799).is_some());
    assert!(Moment::from_seconds(8_210_266_876_800).is_none());
    assert!(Moment::from_seconds(-8_334_601_228_800).is_some());
    assert!(Moment::from_seconds(-8_334_601_228_801).is_none());
    assert_eq!(Moment::from_seconds(42).unwrap().seconds(), 42);
}

#[test]
fn state_at_the_last_askable_second() {
    let last = Moment::from_seconds(horaires::hours::LAST_STATE_SECOND).unwrap();
    let e = element(&[("opening_hours", "24/7")]);
    // Past year 10000 opening_hours evaluates nothing and answers its default.
    assert_eq!(e.state_at(&last), RuleKind::Closed);
}

#[test]
fn unique_tag_keys() {
    let e = element(&[("name", "a"), ("amenity", "bar")]);
    assert!(horaires::overpass::tags_unique(&e.tags));
    let d = element(&[("name", "a"), ("name", "b")]);
    assert!(!horaires::overpass::tags_unique(&d.tags));
    let answer = horaires::overpass::Overpass { elements: vec![e, d] };
    assert!(!answer.keys_unique());
}
