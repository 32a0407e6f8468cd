use horaires::taginfo::{taginfo_url, Data, Taginfo};

fn data(v: &str) -> Data {
    Data { value: v.to_string() }
}

#[test]
fn icon_of_special_amenities() {
    assert_eq!(data("bicycle_parking").icon(), Some("oc-parking-bicycle".to_string()));
    assert_eq!(data("bicycle_rental").icon(), Some("oc-rental-bicycle".to_string()));
    assert_eq!(data("doctors").icon(), Some("oc-doctor".to_string()));
    assert_eq!(data("parking").icon(), Some("oc-parking-car".to_string()));
    assert_eq!(data("townhall").icon(), Some("oc-town-hall".to_string()));
}

#[test]
fn icon_of_other_amenities_replaces_underscores() {
    assert_eq!(data("fast_food").icon(), Some("oc-fast-food".to_string()));
    assert_eq!(data("cafe").icon(), Some("oc-cafe".to_string()));
    assert_eq!(data("").icon(), Some("oc-".to_string()));
}

#[test]
fn values_sorted_by_name() {
    let t = Taginfo { data: vec![data("restaurant"), data("bar"), data("cafe"), data("bar")] };
    let sorted: Vec<String> = t.sort_by_value().data.into_iter().map(|d| d.value).collect();
    assert_eq!(sorted, vec!["bar", "bar", "cafe", "restaurant"]);
}

#[test]
fn taginfo_request() {
    assert_eq!(
        taginfo_url(""),
        "https://taginfo.openstreetmap.org/api/4/key/values?key=amenity&filter=all&lang=fr&sortname=count&sortorder=desc&rp=50&page=1&query="
    );
    assert!(taginfo_url("caf").ends_with("&query=caf"));
}
