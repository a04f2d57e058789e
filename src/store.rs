use crate::assemble::{assemble_trip, enriched_of, EnrichedTrip, TripRow};
use crate::dates::{parse_search_date, search_date_of, Date};
use crate::error::ApiError;
use crate::model::{find_by_id, lookup, City, Driver, Route, SearchCityQuery, SearchTripsQuery, Trip, User, Vehicle};
use crate::order::{sort_by_key, sort_stable, sorted_by_key};
use crate::text::{contains_text, is_infix, lower_of, lowercase, trim_of, trim_text};
use vstd::prelude::*;

verus! {

/// The most cities one search returns.
pub const MAX_CITY_RESULTS: usize = 10;

/// A consistent snapshot of the store's tables. In each table the `id` field
/// is the primary key.
#[derive(Debug, PartialEq, Eq)]
pub struct Store {
    pub cities: Vec<City>,
    pub routes: Vec<Route>,
    pub vehicles: Vec<Vehicle>,
    pub drivers: Vec<Driver>,
    pub users: Vec<User>,
    pub trips: Vec<Trip>,
}

// ---------------------------------------------------------------- cities

/// The text a city search looks for: the query without surrounding
/// whitespace, or nothing when that leaves no text.
pub open spec fn search_term_of(q: Option<String>) -> Option<Seq<char>> {
    match q {
        Some(s) => if trim_of(s@).len() == 0 { None } else { Some(trim_of(s@)) },
        None => None,
    }
}

/// A city matches a term when the lowercase term occurs in its lowercase name.
pub open spec fn city_matches(c: City, term: Seq<char>) -> bool {
    is_infix(lower_of(term), lower_of(c.name@))
}

/// The cities among the first `n` of `cs` that match `term`, in table order.
pub open spec fn cities_matching(cs: Seq<City>, n: int, term: Seq<char>) -> Seq<City>
    decreases n,
{
    if n <= 0 {
        Seq::empty()
    } else if city_matches(cs[n - 1], term) {
        cities_matching(cs, n - 1, term).push(cs[n - 1])
    } else {
        cities_matching(cs, n - 1, term)
    }
}

/// The result of a city search: the matching cities by name, at most
/// `MAX_CITY_RESULTS` of them; none without a term.
pub open spec fn city_search_result(cs: Seq<City>, q: Option<String>) -> Seq<City> {
    match search_term_of(q) {
        None => Seq::empty(),
        Some(t) => {
            let s = sort_stable(cities_matching(cs, cs.len() as int, t));
            if s.len() > MAX_CITY_RESULTS { s.take(MAX_CITY_RESULTS as int) } else { s }
        },
    }
}

/// The term to send to the store for a city search, or `None` when no query
/// is to be made.
pub fn city_search_term(params: &SearchCityQuery) -> (r: Option<String>)
    ensures
        r matches Some(t) ==> search_term_of(params.q) == Some(t@),
        r is None ==> search_term_of(params.q) is None,
{
    match &params.q {
        None => None,
        Some(q) => {
            let t = trim_text(q.as_str());
            if t.as_str().is_empty() {
                None
            } else {
                Some(t)
            }
        },
    }
}

/// Copies a table, keeping its order.
fn copy_cities(cs: &Vec<City>) -> (r: Vec<City>)
    ensures
        r@ == cs@,
{
    let mut r: Vec<City> = Vec::new();
    let mut i: usize = 0;
    while i < cs.len()
        invariant
            0 <= i <= cs@.len(),
            r@ == cs@.subrange(0, i as int),
        decreases cs@.len() - i,
    {
        r.push(cs[i].clone());
        i = i + 1;
    }
    assert(r@ == cs@);
    r
}

/// Cities whose name contains the query text, ignoring case, in alphabetical
/// order and at most `MAX_CITY_RESULTS` of them. A query that is absent or
/// only whitespace gives no cities.
pub fn search_cities(store: &Store, params: &SearchCityQuery) -> (r: Vec<City>)
    ensures
        r@ == city_search_result(store.cities@, params.q),
        r@.len() <= MAX_CITY_RESULTS,
        sorted_by_key(r@),
{
    let term = city_search_term(params);
    match term {
        None => Vec::new(),
        Some(t) => {
            let ghost cs = store.cities@;
            let lt = lowercase(t.as_str());
            let mut found: Vec<City> = Vec::new();
            let mut i: usize = 0;
            while i < store.cities.len()
                invariant
                    0 <= i <= cs.len(),
                    cs == store.cities@,
                    lt@ == lower_of(t@),
                    found@ == cities_matching(cs, i as int, t@),
                decreases cs.len() - i,
            {
                let name = lowercase(store.cities[i].name.as_str());
                if contains_text(name.as_str(), lt.as_str()) {
                    found.push(store.cities[i].clone());
                }
                i = i + 1;
            }
            let mut sorted = sort_by_key(found);
            proof {
                crate::order::lemma_sort_stable(cities_matching(cs, cs.len() as int, t@));
            }
            sorted.truncate(MAX_CITY_RESULTS);
            sorted
        },
    }
}

/// All cities in alphabetical order.
pub fn get_all_cities(store: &Store) -> (r: Vec<City>)
    ensures
        r@ == sort_stable(store.cities@),
        sorted_by_key(r@),
        r@.to_multiset() == store.cities@.to_multiset(),
{
    sort_by_key(copy_cities(&store.cities))
}

// ---------------------------------------------------------------- trips

/// The trip with identifier `id`, or `NotFound`.
pub fn get_trip_handler(store: &Store, id: &String) -> (r: Result<Trip, ApiError>)
    ensures
        r matches Ok(t) ==> lookup(store.trips@, id@) == Some(t),
        r matches Err(e) ==> e == ApiError::NotFound && lookup(store.trips@, id@) is None,
{
    match find_by_id(&store.trips, id) {
        Some(t) => Ok(t.clone()),
        None => Err(ApiError::NotFound),
    }
}

/// The trip `t` joined with its route, the route's two cities, its vehicle,
/// its driver and the driver's user; `None` where any of them is missing.
pub open spec fn join_row(st: &Store, t: Trip) -> Option<TripRow> {
    let route = lookup(st.routes@, t.route_id@);
    let driver = lookup(st.drivers@, t.driver_id@);
    let vehicle = lookup(st.vehicles@, t.vehicle_id@);
    if route is Some && driver is Some && vehicle is Some {
        let source = lookup(st.cities@, route.unwrap().source_city_id@);
        let dest = lookup(st.cities@, route.unwrap().destination_city_id@);
        let user = lookup(st.users@, driver.unwrap().user_id@);
        if source is Some && dest is Some && user is Some {
            Some(
                TripRow {
                    trip: t,
                    route: route.unwrap(),
                    source_city: source.unwrap(),
                    destination_city: dest.unwrap(),
                    vehicle: vehicle.unwrap(),
                    driver: driver.unwrap(),
                    user: user.unwrap(),
                },
            )
        } else {
            None
        }
    } else {
        None
    }
}

/// A joined trip qualifies for a search when it is active, its route goes
/// from `from` to `to`, and it travels on `date` (whatever the time of day).
pub open spec fn trip_matches(row: TripRow, from: Seq<char>, to: Seq<char>, date: Date) -> bool {
    &&& row.trip.is_active == Some(true)
    &&& row.route.source_city_id@ == from
    &&& row.route.destination_city_id@ == to
    &&& row.trip.travel_date matches Some(dt) && dt.date == date
}

/// The response records of the qualifying trips among the first `n` of the
/// trip table, in table order.
pub open spec fn trips_matching(st: &Store, n: int, from: Seq<char>, to: Seq<char>, date: Date) -> Seq<EnrichedTrip>
    decreases n,
{
    if n <= 0 {
        Seq::empty()
    } else {
        let prev = trips_matching(st, n - 1, from, to, date);
        match join_row(st, st.trips@[n - 1]) {
            Some(row) => if trip_matches(row, from, to, date) {
                prev.push(enriched_of(row))
            } else {
                prev
            },
            None => prev,
        }
    }
}

/// The result of a trip search on a valid date: the qualifying trips by
/// departure time.
pub open spec fn trip_search_result(st: &Store, from: Seq<char>, to: Seq<char>, date: Date) -> Seq<EnrichedTrip> {
    sort_stable(trips_matching(st, st.trips@.len() as int, from, to, date))
}

/// Joins one trip with the records it refers to.
pub fn join_trip(store: &Store, t: &Trip) -> (r: Option<TripRow>)
    ensures
        r == join_row(store, *t),
{
    let route = find_by_id(&store.routes, &t.route_id);
    let driver = find_by_id(&store.drivers, &t.driver_id);
    let vehicle = find_by_id(&store.vehicles, &t.vehicle_id);
    match (route, driver, vehicle) {
        (Some(route), Some(driver), Some(vehicle)) => {
            let source = find_by_id(&store.cities, &route.source_city_id);
            let dest = find_by_id(&store.cities, &route.destination_city_id);
            let user = find_by_id(&store.users, &driver.user_id);
            match (source, dest, user) {
                (Some(source), Some(dest), Some(user)) => Some(
                    TripRow {
                        trip: t.clone(),
                        route: route.clone(),
                        source_city: source.clone(),
                        destination_city: dest.clone(),
                        vehicle: vehicle.clone(),
                        driver: driver.clone(),
                        user: user.clone(),
                    },
                ),
                _ => None,
            }
        },
        _ => None,
    }
}

/// Decides whether a joined trip qualifies for a search.
pub fn row_matches(row: &TripRow, from: &String, to: &String, date: Date) -> (r: bool)
    ensures
        r == trip_matches(*row, from@, to@, date),
{
    let active = match row.trip.is_active {
        Some(a) => a,
        None => false,
    };
    let on_date = match row.trip.travel_date {
        Some(dt) => dt.date == date,
        None => false,
    };
    active && on_date && row.route.source_city_id.eq(from) && row.route.destination_city_id.eq(to)
}

/// The active trips from `from` to `to` on `date`, each with its route,
/// vehicle, driver and user, by departure time. Trips with a missing record
/// on any hop of the join are left out.
pub fn search_trips_on(store: &Store, from: &String, to: &String, date: Date) -> (r: Vec<EnrichedTrip>)
    ensures
        r@ == trip_search_result(store, from@, to@, date),
        sorted_by_key(r@),
        r@.to_multiset() == trips_matching(store, store.trips@.len() as int, from@, to@, date).to_multiset(),
{
    let mut found: Vec<EnrichedTrip> = Vec::new();
    let mut i: usize = 0;
    while i < store.trips.len()
        invariant
            0 <= i <= store.trips@.len(),
            found@ == trips_matching(store, i as int, from@, to@, date),
        decreases store.trips@.len() - i,
    {
        match join_trip(store, &store.trips[i]) {
            Some(row) => {
                if row_matches(&row, from, to, date) {
                    found.push(assemble_trip(row));
                }
            },
            None => {},
        }
        i = i + 1;
    }
    sort_by_key(found)
}

/// The date of a trip search, or `BadRequest` when the text is no calendar
/// date.
pub fn trip_search_date(params: &SearchTripsQuery) -> (r: Result<Date, ApiError>)
    ensures
        r matches Ok(d) ==> search_date_of(params.travel_date@) == Some(d) && d.wf(),
        r matches Err(e) ==> e == ApiError::BadRequest && search_date_of(params.travel_date@) is None,
{
    match parse_search_date(params.travel_date.as_str()) {
        Some(d) => Ok(d),
        None => Err(ApiError::BadRequest),
    }
}

/// Searches trips by route and date: `BadRequest` when the date is no
/// calendar date, else the result of `search_trips_on` (possibly empty).
pub fn search_trips(store: &Store, params: &SearchTripsQuery) -> (r: Result<Vec<EnrichedTrip>, ApiError>)
    ensures
        search_date_of(params.travel_date@) is None ==> r == Err::<Vec<EnrichedTrip>, ApiError>(ApiError::BadRequest),
        search_date_of(params.travel_date@) matches Some(d) ==> (r matches Ok(v) && v@ == trip_search_result(
            store,
            params.from_city_id@,
            params.to_city_id@,
            d,
        )),
{
    match trip_search_date(params) {
        Ok(d) => Ok(search_trips_on(store, &params.from_city_id, &params.to_city_id, d)),
        Err(e) => Err(e),
    }
}

} // verus!
