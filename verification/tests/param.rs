use horaires::param::Param;
use leptos_router::params::ParamsMap;

fn bbox() -> Vec<String> {
    vec!["48.8".to_string(), "48.9".to_string(), "2.2".to_string(), "2.4".to_string()]
}

#[test]
fn default_param_searches_everything() {
    let p = Param::default();
    assert_eq!(p.type_, "all");
    assert!(p.where_.is_empty() && p.what.is_empty());
    assert!(!p.open && !p.wo_hour && !p.wifi && !p.vegetarian && !p.vegan);
}

#[test]
fn default_filter_asks_for_opening_hours_in_the_box() {
    let p = Param::default();
    assert_eq!(p.as_filter(&bbox()), "[\"opening_hours\"](48.8,2.2,48.9,2.4);");
}

#[test]
fn filter_lists_every_option() {
    let p = Param {
        open: true,
        type_: " restaurant ".to_string(),
        where_: "Paris".to_string(),
        vegan: true,
        vegetarian: true,
        what: " pizza".to_string(),
        wifi: true,
        wo_hour: true,
    };
    assert_eq!(
        p.as_filter(&bbox()),
        "[\"internet_access\"=\"wlan\"][\"diet:vegetarian\"=\"yes\"][\"diet:vegan\"=\"yes\"][\"amenity\"=\"restaurant\"][\"name\"~\".*pizza.*\", i](48.8,2.2,48.9,2.4);"
    );
}

#[test]
fn url_of_default_param() {
    let p = Param::default();
    assert_eq!(p.as_url(), "/all/?");
}

#[test]
fn url_lists_place_type_name_and_options() {
    let p = Param {
        open: true,
        type_: "cafe".to_string(),
        where_: "Lyon".to_string(),
        vegan: true,
        vegetarian: false,
        what: "bar".to_string(),
        wifi: true,
        wo_hour: false,
    };
    assert_eq!(p.as_url(), "/Lyon/cafe/bar?open&wifi&vegan");
    let q = Param { type_: String::new(), ..p.clone() };
    assert_eq!(q.as_url(), "/Lyon/all/bar?open&wifi&vegan");
}

#[test]
fn param_from_route_and_query() {
    let mut params = ParamsMap::new();
    params.insert("where", "Nantes".to_string());
    params.insert("type", "bar".to_string());
    let mut query = ParamsMap::new();
    query.insert("wifi", String::new());
    query.insert("open", String::new());
    let p = Param::from(&params, &query);
    assert_eq!(p.where_, "Nantes");
    assert_eq!(p.type_, "bar");
    assert_eq!(p.what, "");
    assert!(p.open && p.wifi);
    assert!(!p.vegan && !p.vegetarian && !p.wo_hour);
}

#[test]
fn param_from_takes_the_latest_value() {
    let mut params = ParamsMap::new();
    params.insert("what", "old".to_string());
    params.insert("what", "new".to_string());
    let p = Param::from(&params, &ParamsMap::new());
    assert_eq!(p.what, "new");
    assert_eq!(p.type_, "");
}
