use horaires::hours::RuleKind;
use horaires::node::{nodes_from, transform_nodes, ways_resolvable, Node};
use horaires::overpass::{Element, Overpass, Position};
use std::cmp::Ordering;

fn tags(t: &[(&str, &str)]) -> Vec<(String, String)> {
    t.iter().map(|(k, v)| (k.to_string(), v.to_string())).collect()
}

fn element(id: u64, kind: &str, lat: f32, nodes: Vec<u64>, t: &[(&str, &str)]) -> Element {
    Element { id, type_: kind.to_string(), lat: lat.to_bits(), lon: (lat + 1.0).to_bits(), nodes, tags: tags(t) }
}

fn node(id: u64, name: &str, favorite: bool) -> Node {
    Node {
        amenity: Some("bar".to_string()),
        favorite,
        icon: None,
        id,
        lat: 0,
        lon: 0,
        name: name.to_string(),
        nodes: vec![],
        phone: None,
        website: None,
        state: RuleKind::Unknown,
        tags: vec![],
        vegan: false,
        vegetarian: false,
        wifi: false,
    }
}

#[test]
fn color_follows_state() {
    let mut n = node(1, "a", false);
    assert_eq!(n.color(), "black");
    n.state = RuleKind::Open;
    assert_eq!(n.color(), "green");
    n.state = RuleKind::Closed;
    assert_eq!(n.color(), "red");
}

#[test]
fn favorite_toggles_mark_and_list() {
    let mut n = node(5, "a", false);
    let mut favorites = vec![1, 2];
    n.favorite(&mut favorites);
    assert!(n.favorite);
    assert_eq!(favorites, vec![1, 2, 5]);
    n.favorite(&mut favorites);
    assert!(!n.favorite);
    assert_eq!(favorites, vec![1, 2]);
}

#[test]
fn favorite_removes_first_occurrence() {
    let mut n = node(5, "a", true);
    let mut favorites = vec![5, 3, 5];
    n.favorite(&mut favorites);
    assert!(!n.favorite);
    assert_eq!(favorites, vec![3, 5]);
}

#[test]
fn order_puts_favorites_first_then_names() {
    assert_eq!(node(1, "Zinc", true).cmp(&node(2, "Abri", false)), Ordering::Less);
    assert_eq!(node(1, "Abri", false).cmp(&node(2, "Zinc", true)), Ordering::Greater);
    assert_eq!(node(1, "Abri", false).cmp(&node(2, "Zinc", false)), Ordering::Less);
    assert_eq!(node(1, "Zinc", true).cmp(&node(2, "Abri", true)), Ordering::Greater);
    assert_eq!(node(1, "Abri", true).cmp(&node(2, "Abri", true)), Ordering::Equal);
}

#[test]
fn node_from_element() {
    let e = element(
        9,
        "node",
        4.0,
        vec![],
        &[
            ("name", "Le Zinc"),
            ("amenity", "fast_food"),
            ("phone", "0102"),
            ("contact:website", "zinc.fr"),
            ("diet:vegetarian", "yes"),
            ("diet:vegan", "no"),
            ("internet_access", "wlan"),
        ],
    );
    let n = Node::with_state(&e, &[9], RuleKind::Open);
    assert_eq!(n.id, 9);
    assert_eq!(n.name, "Le Zinc");
    assert_eq!(n.amenity, Some("fast_food".to_string()));
    assert_eq!(n.phone, Some("0102".to_string()));
    assert_eq!(n.icon, Some("oc-fast-food".to_string()));
    assert_eq!(n.website, Some("zinc.fr".to_string()));
    assert!(n.vegetarian && !n.vegan && n.wifi && n.favorite);
    assert_eq!(n.state, RuleKind::Open);
    assert_eq!((n.lat, n.lon), (4.0f32.to_bits(), 5.0f32.to_bits()));
    assert!(n.nodes.is_empty());
    assert_eq!(n.tags, e.tags);
    let m = Node::from(&e, &[]);
    assert!(!m.favorite);
    assert_eq!(m.state, RuleKind::Unknown);
}

#[test]
fn opening_hours_of_node() {
    let mut n = node(1, "a", false);
    assert!(n.opening_hours().is_none());
    n.tags = tags(&[("opening_hours", "Mo-Fr 08:00-12:00")]);
    assert!(n.opening_hours().is_some());
    n.tags = tags(&[("opening_hours", "whenever")]);
    assert!(n.opening_hours().is_none());
}

fn answer() -> Overpass {
    Overpass {
        elements: vec![
            element(1, "node", 10.0, vec![], &[("name", "Zinc"), ("amenity", "bar")]),
            element(2, "node", 20.0, vec![], &[]),
            element(3, "node", 30.0, vec![], &[]),
            element(4, "way", 0.0, vec![3, 2], &[("name", "Abri"), ("amenity", "cafe")]),
            element(5, "node", 50.0, vec![], &[("name", "Marché")]),
            element(6, "node", 60.0, vec![], &[("amenity", "bench"), ("name", "Banc")]),
        ],
    }
}

#[test]
fn results_of_answer() {
    let a = answer();
    assert!(ways_resolvable(&a));
    let nodes = nodes_from(&a, &[]);
    let names: Vec<&str> = nodes.iter().map(|n| n.name.as_str()).collect();
    assert_eq!(names, vec!["Zinc", "Abri", "Banc"]);
    let way = &nodes[1];
    assert_eq!(
        way.nodes,
        vec![
            Position { lat: 30.0f32.to_bits(), lng: 31.0f32.to_bits() },
            Position { lat: 20.0f32.to_bits(), lng: 21.0f32.to_bits() },
        ]
    );
    assert_eq!((way.lat, way.lon), (30.0f32.to_bits(), 31.0f32.to_bits()));
    assert!(nodes[0].nodes.is_empty());
    assert_eq!(nodes[0].lat, 10.0f32.to_bits());
}

#[test]
fn unresolvable_ways_are_detected() {
    let mut a = answer();
    a.elements[3].nodes = vec![3, 99];
    assert!(!ways_resolvable(&a));
    a.elements[3].nodes = vec![];
    assert!(!ways_resolvable(&a));
    a.elements[3].tags = vec![];
    assert!(ways_resolvable(&a));
}

#[test]
fn transformed_results_are_sorted() {
    let a = answer();
    let nodes = transform_nodes(&a, &[6]);
    let names: Vec<(&str, bool)> = nodes.iter().map(|n| (n.name.as_str(), n.favorite)).collect();
    assert_eq!(names, vec![("Banc", true), ("Abri", false), ("Zinc", false)]);
}

#[test]
fn sort_is_stable_for_ties() {
    let a = Overpass {
        elements: vec![
            element(1, "node", 1.0, vec![], &[("name", "Bar"), ("amenity", "bar")]),
            element(2, "node", 2.0, vec![], &[("name", "Bar"), ("amenity", "pub")]),
            element(3, "node", 3.0, vec![], &[("name", "Anvil"), ("amenity", "pub")]),
        ],
    };
    let ids: Vec<u64> = transform_nodes(&a, &[]).iter().map(|n| n.id).collect();
    assert_eq!(ids, vec![3, 1, 2]);
}

#[test]
fn empty_answer_gives_no_results() {
    let a = Overpass::default();
    assert!(ways_resolvable(&a));
    assert!(nodes_from(&a, &[1]).is_empty());
    assert!(transform_nodes(&a, &[]).is_empty());
}

#[test]
fn toggling_twice_restores_favorites() {
    let mut n = node(8, "a", false);
    let mut favorites = vec![4];
    n.favorite(&mut favorites);
    assert_eq!(favorites, vec![4, 8]);
    assert_eq!(n.favorite, favorites.contains(&8));
    n.favorite(&mut favorites);
    assert_eq!(favorites, vec![4]);
    assert_eq!(n.favorite, favorites.contains(&8));
}
