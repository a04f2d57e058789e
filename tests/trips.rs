use trip_api::assemble::{assemble_trip, assemble_trips, TripRow};
use trip_api::dates::{parse_search_date, Date, DateTime};
use trip_api::error::ApiError;
use trip_api::model::{City, Driver, Route, SearchTripsQuery, Trip, User, Vehicle};
use trip_api::store::{get_trip_handler, search_trips, search_trips_on, trip_search_date, Store};

fn city(id: &str, name: &str) -> City {
    City { id: id.to_string(), name: name.to_string() }
}

fn route(id: &str, from: &str, to: &str) -> Route {
    Route {
        id: id.to_string(),
        source_city_id: from.to_string(),
        destination_city_id: to.to_string(),
        checkpoints: Some("[]".to_string()),
    }
}

fn at(y: i32, m: u32, d: u32, h: u32, min: u32) -> DateTime {
    DateTime { date: Date { year: y, month: m, day: d }, hour: h, minute: min, second: 0, nanosecond: 0 }
}

fn trip(id: &str, route: &str, driver: &str, when: DateTime, dep: Option<&str>, active: bool) -> Trip {
    Trip {
        id: id.to_string(),
        driver_id: driver.to_string(),
        vehicle_id: "v1".to_string(),
        route_id: route.to_string(),
        travel_date: Some(when),
        departure_time: dep.map(|s| s.to_string()),
        total_seats: Some(4),
        available_seats: Some(2),
        is_active: Some(active),
        created_at: Some(at(2024, 5, 1, 0, 0)),
        updated_at: None,
    }
}

fn user(id: &str) -> User {
    User {
        id: id.to_string(),
        name: "Ali".to_string(),
        phone: Some("0300".to_string()),
        role: "DRIVER".to_string(),
        language_preference: None,
    }
}

fn fixture() -> Store {
    Store {
        cities: vec![city("A", "Lahore"), city("B", "Karachi")],
        routes: vec![route("r1", "A", "B"), route("r2", "B", "A"), route("r3", "A", "Z")],
        vehicles: vec![Vehicle {
            id: "v1".to_string(),
            vehicle_type: "CAR".to_string(),
            total_seats: Some(4),
            number_plate: "LEB-123".to_string(),
        }],
        drivers: vec![
            Driver { id: "d1".to_string(), user_id: "u1".to_string(), is_active: Some(true) },
            Driver { id: "d2".to_string(), user_id: "ghost".to_string(), is_active: Some(true) },
        ],
        users: vec![user("u1")],
        trips: vec![
            trip("t1", "r1", "d1", at(2024, 6, 1, 8, 0), Some("08:00"), true),
            trip("t2", "r2", "d1", at(2024, 6, 1, 8, 0), Some("08:00"), true),
            trip("t3", "r1", "d1", at(2024, 6, 1, 8, 0), Some("07:00"), false),
            trip("t4", "r1", "d1", at(2024, 6, 1, 23, 59), Some("06:30"), true),
            trip("t5", "r1", "d1", at(2024, 6, 2, 8, 0), Some("05:00"), true),
            trip("t6", "r1", "d2", at(2024, 6, 1, 9, 0), Some("09:00"), true),
            trip("t7", "r3", "d1", at(2024, 6, 1, 9, 0), Some("09:00"), true),
            trip("t8", "r1", "d1", at(2024, 6, 1, 1, 0), None, true),
            trip("t9", "r1", "d1", at(2024, 6, 1, 12, 0), Some("08:00"), true),
        ],
    }
}

fn q(from: &str, to: &str, date: &str) -> SearchTripsQuery {
    SearchTripsQuery { from_city_id: from.to_string(), to_city_id: to.to_string(), travel_date: date.to_string() }
}

fn ids(r: &Result<Vec<trip_api::assemble::EnrichedTrip>, ApiError>) -> Vec<String> {
    r.as_ref().unwrap().iter().map(|e| e.trip.id.clone()).collect()
}

#[test]
fn get_trip_missing_is_not_found() {
    let st = fixture();
    assert_eq!(get_trip_handler(&st, &"nope".to_string()), Err(ApiError::NotFound));
}

#[test]
fn get_trip_returns_its_fields() {
    let st = fixture();
    let t = get_trip_handler(&st, &"t4".to_string()).unwrap();
    assert_eq!(t, trip("t4", "r1", "d1", at(2024, 6, 1, 23, 59), Some("06:30"), true));
}

#[test]
fn invalid_dates_are_bad_requests() {
    let st = fixture();
    assert_eq!(search_trips(&st, &q("A", "B", "2024-13-40")), Err(ApiError::BadRequest));
    assert_eq!(search_trips(&st, &q("A", "B", "not-a-date")), Err(ApiError::BadRequest));
    assert_eq!(search_trips(&st, &q("A", "B", "2023-02-29")), Err(ApiError::BadRequest));
    assert_eq!(search_trips(&st, &q("A", "B", "")), Err(ApiError::BadRequest));
    assert_eq!(trip_search_date(&q("A", "B", "2024-13-40")), Err(ApiError::BadRequest));
}

#[test]
fn valid_dates_parse() {
    assert_eq!(parse_search_date("2024-06-01"), Some(Date { year: 2024, month: 6, day: 1 }));
    assert_eq!(parse_search_date("2024-02-29"), Some(Date { year: 2024, month: 2, day: 29 }));
    assert_eq!(parse_search_date("2024-02-30"), None);
    assert_eq!(trip_search_date(&q("A", "B", "1999-12-31")), Ok(Date { year: 1999, month: 12, day: 31 }));
}

#[test]
fn matching_rule_direction_and_activity() {
    let st = fixture();
    let r = search_trips(&st, &q("A", "B", "2024-06-01"));
    let got = ids(&r);
    assert!(got.contains(&"t1".to_string()));
    assert!(!got.contains(&"t3".to_string()));
    assert!(!got.contains(&"t2".to_string()));
    let back = ids(&search_trips(&st, &q("B", "A", "2024-06-01")));
    assert_eq!(back, vec!["t2"]);
}

#[test]
fn search_orders_by_departure_time() {
    let st = fixture();
    let r = search_trips(&st, &q("A", "B", "2024-06-01"));
    assert_eq!(ids(&r), vec!["t4", "t1", "t9", "t8"]);
}

#[test]
fn time_of_day_is_ignored() {
    let st = fixture();
    let got = ids(&search_trips(&st, &q("A", "B", "2024-06-01")));
    assert!(got.contains(&"t4".to_string()));
    assert_eq!(ids(&search_trips(&st, &q("A", "B", "2024-06-02"))), vec!["t5"]);
}

#[test]
fn no_match_is_empty_success() {
    let st = fixture();
    assert_eq!(search_trips(&st, &q("A", "B", "2025-01-01")), Ok(Vec::new()));
    assert_eq!(search_trips(&st, &q("X", "Y", "2024-06-01")), Ok(Vec::new()));
}

#[test]
fn incomplete_joins_are_excluded() {
    let st = fixture();
    let got = ids(&search_trips(&st, &q("A", "B", "2024-06-01")));
    assert!(!got.contains(&"t6".to_string()));
    let z = ids(&search_trips(&st, &q("A", "Z", "2024-06-01")));
    assert!(z.is_empty());
}

#[test]
fn driver_appears_twice_identically() {
    let st = fixture();
    let r = search_trips(&st, &q("A", "B", "2024-06-01")).unwrap();
    assert!(!r.is_empty());
    for e in &r {
        assert_eq!(e.vehicle.driver, e.driver);
        assert_eq!(e.driver.user, user("u1"));
        assert_eq!(e.driver.driver.id, "d1");
        assert_eq!(e.route.source_city, city("A", "Lahore"));
        assert_eq!(e.route.destination_city, city("B", "Karachi"));
        assert_eq!(e.boarding_city_id, "A");
        assert_eq!(e.destination_city_id, "B");
        assert_eq!(e.vehicle.vehicle.number_plate, "LEB-123");
    }
}

#[test]
fn search_twice_gives_same_list() {
    let st = fixture();
    let a = search_trips(&st, &q("A", "B", "2024-06-01"));
    let b = search_trips(&st, &q("A", "B", "2024-06-01"));
    assert_eq!(a, b);
    let d = Date { year: 2024, month: 6, day: 1 };
    let c = search_trips_on(&st, &"A".to_string(), &"B".to_string(), d);
    assert_eq!(a.unwrap(), c);
}

fn row(id: &str) -> TripRow {
    TripRow {
        trip: trip(id, "r1", "d1", at(2024, 6, 1, 8, 0), Some("08:00"), true),
        route: route("r1", "A", "B"),
        source_city: city("A", "Lahore"),
        destination_city: city("B", "Karachi"),
        vehicle: Vehicle {
            id: "v1".to_string(),
            vehicle_type: "VAN".to_string(),
            total_seats: Some(9),
            number_plate: "KHI-9".to_string(),
        },
        driver: Driver { id: "d1".to_string(), user_id: "u1".to_string(), is_active: Some(false) },
        user: user("u1"),
    }
}

#[test]
fn assemble_nests_a_row() {
    let e = assemble_trip(row("t1"));
    assert_eq!(e.trip.id, "t1");
    assert_eq!(e.route.route, route("r1", "A", "B"));
    assert_eq!(e.vehicle.vehicle.total_seats, Some(9));
    assert_eq!(e.vehicle.driver, e.driver);
    assert_eq!(e.driver.driver.is_active, Some(false));
    assert_eq!(e.boarding_city_id, "A");
}

#[test]
fn assemble_keeps_row_order() {
    let r = assemble_trips(vec![row("x"), row("y"), row("z")]);
    let got: Vec<String> = r.iter().map(|e| e.trip.id.clone()).collect();
    assert_eq!(got, vec!["x", "y", "z"]);
    assert!(assemble_trips(Vec::new()).is_empty());
}
