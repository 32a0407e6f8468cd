use horaires::state::Param;
use leptos_router::params::ParamsMap;

#[test]
fn earlier_param_filter_keeps_type_and_name_as_given() {
    let p = Param {
        where_: "Paris".to_string(),
        type_: "fast_food".to_string(),
        what: " kebab".to_string(),
        wo_hour: false,
        wifi: true,
        vegetarian: false,
        vegan: false,
    };
    let bbox = vec!["1".to_string(), "2".to_string(), "3".to_string(), "4".to_string()];
    assert_eq!(
        p.as_filter(&bbox),
        "[\"opening_hours\"][\"internet_access\"=\"wlan\"][\"amenity\"=\"fast_food\"][\"name\"~\".* kebab.*\", i](1,3,2,4);"
    );
}

#[test]
fn earlier_param_default_and_url() {
    let p = Param::default();
    assert_eq!(p.type_, "all");
    assert_eq!(p.as_url(), "/all/?");
    let q = Param { where_: "Brest".to_string(), wo_hour: true, vegan: true, ..p };
    assert_eq!(q.as_url(), "/Brest/all/?wo_hour&vegan");
}

#[test]
fn earlier_param_from_route_and_query() {
    let mut params = ParamsMap::new();
    params.insert("where", "Rennes".to_string());
    let mut query = ParamsMap::new();
    query.insert("vegetarian", String::new());
    query.insert("open", String::new());
    let p = Param::from(&params, &query);
    assert_eq!(p.where_, "Rennes");
    assert_eq!(p.type_, "");
    assert!(p.vegetarian && !p.vegan && !p.wifi && !p.wo_hour);
}
