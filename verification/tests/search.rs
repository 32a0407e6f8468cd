use horaires::hours::{legend, two_digits, weekday_name, RuleKind};
use horaires::location::Location;
use horaires::param::Param;
use horaires::overpass::{Element, Overpass};
use horaires::search::{
    location_url, overpass_url, search_answered, search_located, search_start, website_label, Request, State,
};

#[test]
fn four_steps_reach_full_progress() {
    let mut s = State::default();
    for _ in 0..4 {
        s.push();
        assert!(s.searching);
    }
    assert_eq!(s.progress, 100);
}

#[test]
fn finish_shows_first_page() {
    let mut s = State::default();
    s.push();
    let loc = Location { boundingbox: vec!["1".into(), "2".into(), "3".into(), "4".into()] };
    s.finish(loc.clone(), vec![]);
    assert!(!s.searching);
    assert_eq!(s.index, 1);
    assert_eq!(s.location, loc);
    assert_eq!(s.progress, 25);
}

#[test]
fn pages_of_results() {
    let mut s = State::default();
    assert_eq!(s.limit(), 0);
    assert!(!s.have_more());
    s.index = 1;
    s.errors = vec![];
    let p = Param { where_: "Paris".to_string(), ..Param::default() };
    assert!(s.have_no_result(&p));
    assert!(!s.have_no_result(&Param::default()));
    s.next_page();
    assert_eq!(s.index, 2);
    s.errors.push("boom".to_string());
    assert!(!s.have_no_result(&p));
}

#[test]
fn request_urls() {
    assert_eq!(
        location_url("Paris"),
        "https://nominatim.openstreetmap.org/search.php?q=Paris&format=jsonv2"
    );
    let bbox = vec!["1".to_string(), "2".to_string(), "3".to_string(), "4".to_string()];
    let p = Param { wo_hour: true, type_: "bar".to_string(), ..Param::default() };
    assert_eq!(
        overpass_url(&p, &bbox),
        "https://overpass-api.de/api/interpreter?data=[out:json][timeout:25]; (way[\"amenity\"=\"bar\"](1,3,2,4); >; node[\"amenity\"=\"bar\"](1,3,2,4);); out+body;"
    );
}

#[test]
fn website_labels() {
    assert_eq!(website_label("exemple.fr"), "exemple.fr");
    assert_eq!(website_label("https://www.exemple.fr/"), "https://www.exemple.…");
    assert_eq!(website_label("12345678901234567890"), "12345678901234567890");
}

#[test]
fn state_labels() {
    assert_eq!(RuleKind::Open.label(), "Ouvert");
    assert_eq!(RuleKind::Closed.label(), "Fermé");
    assert_eq!(RuleKind::Unknown.label(), "");
    assert_eq!(RuleKind::Open.class_name(), "open");
    assert_eq!(RuleKind::Unknown.class_name(), "");
    assert_eq!(RuleKind::Unknown.as_str(), "unknown");
}

#[test]
fn timeline_legends() {
    assert_eq!(two_digits(7), "07");
    assert_eq!(two_digits(42), "42");
    assert_eq!(legend(RuleKind::Open, 8, 5, 12, 30), "08:05 - 12:30");
    assert_eq!(legend(RuleKind::Closed, 8, 5, 12, 30), "");
    assert_eq!(weekday_name(0), "Lundi");
    assert_eq!(weekday_name(6), "Dimanche");
}

#[test]
fn search_flow() {
    let mut s = State::default();
    assert_eq!(search_start(&mut s, &Param::default()), Request::Nothing);
    assert_eq!(s, State::default());

    let p = Param { where_: "Caen".to_string(), ..Param::default() };
    assert_eq!(
        search_start(&mut s, &p),
        Request::Location("https://nominatim.openstreetmap.org/search.php?q=Caen&format=jsonv2".to_string())
    );
    assert!(s.searching);
    assert_eq!(s.progress, 25);

    let loc = Location { boundingbox: vec!["1".into(), "2".into(), "3".into(), "4".into()] };
    assert_eq!(
        search_located(&mut s, &p, &loc),
        Request::Places(
            "https://overpass-api.de/api/interpreter?data=[out:json][timeout:25]; (way[\"opening_hours\"](1,3,2,4); >; node[\"opening_hours\"](1,3,2,4);); out+body;".to_string()
        )
    );
    assert_eq!(s.progress, 50);

    let tags = |n: &str| vec![("name".to_string(), n.to_string()), ("amenity".to_string(), "bar".to_string())];
    let answer = Overpass {
        elements: vec![
            Element { id: 1, type_: "node".into(), lat: 0, lon: 0, nodes: vec![], tags: tags("Zut") },
            Element { id: 2, type_: "node".into(), lat: 0, lon: 0, nodes: vec![], tags: tags("Abri") },
        ],
    };
    search_answered(&mut s, loc.clone(), &answer, &[1]);
    assert_eq!(s.progress, 100);
    assert!(!s.searching);
    assert_eq!(s.index, 1);
    assert_eq!(s.location, loc);
    let names: Vec<&str> = s.nodes.iter().map(|n| n.name.as_str()).collect();
    assert_eq!(names, vec!["Zut", "Abri"]);
}

#[test]
fn no_place_leaves_any_state_alone() {
    let mut s = State { progress: u32::MAX, ..State::default() };
    assert_eq!(search_start(&mut s, &Param::default()), Request::Nothing);
    assert_eq!(s.progress, u32::MAX);
    assert!(!s.searching);
}

#[test]
fn long_numbers_keep_all_digits() {
    assert_eq!(two_digits(0), "00");
    assert_eq!(two_digits(123), "123");
    assert_eq!(two_digits(4_000_000_000), "4000000000");
    assert_eq!(two_digits(123), format!("{:02}", 123));
    assert_eq!(legend(RuleKind::Open, 100, 7, 9, 60), "100:07 - 09:60");
}
