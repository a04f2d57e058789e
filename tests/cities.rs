use trip_api::error::ApiError;
use trip_api::model::{City, SearchCityQuery};
use trip_api::store::{city_search_term, get_all_cities, search_cities, Store, MAX_CITY_RESULTS};

fn city(id: &str, name: &str) -> City {
    City { id: id.to_string(), name: name.to_string() }
}

fn store_with(cities: Vec<City>) -> Store {
    Store {
        cities,
        routes: Vec::new(),
        vehicles: Vec::new(),
        drivers: Vec::new(),
        users: Vec::new(),
        trips: Vec::new(),
    }
}

fn sample() -> Store {
    store_with(vec![
        city("c1", "Lahore"),
        city("c2", "Karachi"),
        city("c3", "Islahabad"),
        city("c4", "Multan"),
    ])
}

fn query(q: Option<&str>) -> SearchCityQuery {
    SearchCityQuery { q: q.map(|s| s.to_string()) }
}

fn names(cs: &[City]) -> Vec<String> {
    cs.iter().map(|c| c.name.clone()).collect()
}

#[test]
fn blank_query_finds_nothing() {
    let st = sample();
    assert!(search_cities(&st, &query(None)).is_empty());
    assert!(search_cities(&st, &query(Some(""))).is_empty());
    assert!(search_cities(&st, &query(Some("   \t "))).is_empty());
    assert_eq!(city_search_term(&query(Some("  \n"))), None);
    assert_eq!(city_search_term(&query(None)), None);
}

#[test]
fn search_term_is_trimmed() {
    assert_eq!(city_search_term(&query(Some("  lah "))), Some("lah".to_string()));
    let st = sample();
    assert_eq!(names(&search_cities(&st, &query(Some("  lah  ")))), vec!["Islahabad", "Lahore"]);
}

#[test]
fn search_is_case_insensitive_substring() {
    let st = sample();
    assert_eq!(names(&search_cities(&st, &query(Some("lah")))), vec!["Islahabad", "Lahore"]);
    assert_eq!(names(&search_cities(&st, &query(Some("LAH")))), vec!["Islahabad", "Lahore"]);
    assert_eq!(names(&search_cities(&st, &query(Some("kAr")))), vec!["Karachi"]);
    assert!(search_cities(&st, &query(Some("xyz"))).is_empty());
}

#[test]
fn search_keeps_ids() {
    let st = sample();
    let r = search_cities(&st, &query(Some("ult")));
    assert_eq!(r, vec![city("c4", "Multan")]);
}

#[test]
fn search_caps_at_ten_sorted() {
    let mut cs = Vec::new();
    for i in (0..15).rev() {
        cs.push(city(&format!("id{}", i), &format!("Town {:02}", i)));
    }
    let st = store_with(cs);
    let r = search_cities(&st, &query(Some("town")));
    assert_eq!(MAX_CITY_RESULTS, 10);
    assert_eq!(r.len(), 10);
    let expected: Vec<String> = (0..10).map(|i| format!("Town {:02}", i)).collect();
    assert_eq!(names(&r), expected);
    for w in r.windows(2) {
        assert!(w[0].name <= w[1].name);
    }
}

#[test]
fn list_all_cities_sorted_uncapped() {
    let mut cs = Vec::new();
    for i in (0..12).rev() {
        cs.push(city(&format!("id{}", i), &format!("City {:02}", i)));
    }
    let st = store_with(cs);
    let r = get_all_cities(&st);
    assert_eq!(r.len(), 12);
    assert_eq!(r[0], city("id0", "City 00"));
    assert_eq!(r[11], city("id11", "City 11"));
    let st = sample();
    assert_eq!(names(&get_all_cities(&st)), vec!["Islahabad", "Karachi", "Lahore", "Multan"]);
}

#[test]
fn list_of_empty_table_is_empty() {
    let st = store_with(Vec::new());
    assert!(get_all_cities(&st).is_empty());
    assert!(search_cities(&st, &query(Some("a"))).is_empty());
}

#[test]
fn error_status_codes() {
    assert_eq!(ApiError::BadRequest.status(), 400);
    assert_eq!(ApiError::NotFound.status(), 404);
    assert_eq!(ApiError::Internal.status(), 500);
}
