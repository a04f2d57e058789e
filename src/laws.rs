use crate::assemble::{enriched_of, EnrichedTrip};
use crate::dates::Date;
use crate::model::City;
use crate::order::{lemma_sort_stable, sort_stable, sorted_by_key};
use crate::store::{
    city_matches, city_search_result, cities_matching, join_row, search_term_of, trip_matches,
    trip_search_result, trips_matching, Store, MAX_CITY_RESULTS,
};
use crate::text::trim_of;
use vstd::prelude::*;

verus! {

/// A city search whose query is absent, empty or only whitespace finds no
/// city, and no query is made of the store (`search_term_of` is `None`).
pub proof fn lemma_blank_query_finds_nothing(cs: Seq<City>, q: Option<String>)
    requires
        q is None || trim_of(q.unwrap()@).len() == 0,
    ensures
        search_term_of(q) is None,
        city_search_result(cs, q).len() == 0,
{
}

proof fn lemma_cities_matching_sound(cs: Seq<City>, n: int, term: Seq<char>)
    requires
        n <= cs.len(),
    ensures
        forall|c: City| #[trigger] cities_matching(cs, n, term).contains(c) ==> city_matches(c, term) && cs.contains(c),
    decreases n,
{
    if n > 0 {
        lemma_cities_matching_sound(cs, n - 1, term);
        let prev = cities_matching(cs, n - 1, term);
        assert forall|c: City| #[trigger] cities_matching(cs, n, term).contains(c) implies city_matches(c, term)
            && cs.contains(c) by {
            if city_matches(cs[n - 1], term) {
                let s = prev.push(cs[n - 1]);
                let k = choose|k: int| 0 <= k < s.len() && s[k] == c;
                if k < prev.len() {
                    assert(prev[k] == c);
                    assert(prev.contains(c));
                } else {
                    assert(cs[n - 1] == c);
                }
            }
        }
    }
}

/// A city search returns at most `MAX_CITY_RESULTS` cities, in
/// non-decreasing order of name, and each of them is a city of the table
/// whose lowercase name contains the lowercase query term.
pub proof fn lemma_city_search_bounded_sorted(cs: Seq<City>, q: Option<String>)
    ensures
        city_search_result(cs, q).len() <= MAX_CITY_RESULTS,
        sorted_by_key(city_search_result(cs, q)),
        forall|c: City| #[trigger] city_search_result(cs, q).contains(c) ==> cs.contains(c) && city_matches(
            c,
            search_term_of(q).unwrap(),
        ),
{
    broadcast use vstd::seq_lib::group_to_multiset_ensures;
    if let Some(t) = search_term_of(q) {
        let m = cities_matching(cs, cs.len() as int, t);
        lemma_sort_stable(m);
        lemma_cities_matching_sound(cs, cs.len() as int, t);
        let s = sort_stable(m);
        let r = city_search_result(cs, q);
        assert forall|c: City| #[trigger] r.contains(c) implies cs.contains(c) && city_matches(c, t) by {
            let k = choose|k: int| 0 <= k < r.len() && r[k] == c;
            assert(s[k] == c);
            assert(s.contains(c));
            assert(s.to_multiset().count(c) > 0);
            assert(m.to_multiset().count(c) > 0);
            assert(m.contains(c));
        }
    }
}

/// Entry `k` of the trip table joins completely, qualifies for the search,
/// and `e` is its response record.
pub open spec fn found_at(st: &Store, k: int, e: EnrichedTrip, from: Seq<char>, to: Seq<char>, date: Date) -> bool {
    match join_row(st, st.trips@[k]) {
        Some(row) => e == enriched_of(row) && trip_matches(row, from, to, date),
        None => false,
    }
}

proof fn lemma_cities_matching_complete(cs: Seq<City>, n: int, term: Seq<char>)
    requires
        n <= cs.len(),
    ensures
        forall|k: int| 0 <= k < n && city_matches(#[trigger] cs[k], term) ==> cities_matching(cs, n, term).contains(cs[k]),
    decreases n,
{
    if n > 0 {
        lemma_cities_matching_complete(cs, n - 1, term);
        let prev = cities_matching(cs, n - 1, term);
        assert forall|k: int| 0 <= k < n && city_matches(#[trigger] cs[k], term) implies cities_matching(cs, n, term).contains(cs[k]) by {
            if city_matches(cs[n - 1], term) {
                let cur = prev.push(cs[n - 1]);
                if k < n - 1 {
                    let i = choose|i: int| 0 <= i < prev.len() && prev[i] == cs[k];
                    assert(cur[i] == cs[k]);
                } else {
                    assert(cur[prev.len() as int] == cs[k]);
                }
            }
        }
    }
}

/// A city search with a term returns every city of the table whose lowercase
/// name contains the lowercase term, unless it already returns
/// `MAX_CITY_RESULTS` cities.
pub proof fn lemma_city_search_complete(cs: Seq<City>, q: Option<String>)
    requires
        search_term_of(q) is Some,
    ensures
        forall|k: int| 0 <= k < cs.len() && city_matches(#[trigger] cs[k], search_term_of(q).unwrap())
            ==> city_search_result(cs, q).contains(cs[k]) || city_search_result(cs, q).len() == MAX_CITY_RESULTS,
{
    broadcast use vstd::seq_lib::group_to_multiset_ensures;
    let t = search_term_of(q).unwrap();
    let m = cities_matching(cs, cs.len() as int, t);
    lemma_sort_stable(m);
    lemma_cities_matching_complete(cs, cs.len() as int, t);
    let s = sort_stable(m);
    let r = city_search_result(cs, q);
    assert forall|k: int| 0 <= k < cs.len() && city_matches(#[trigger] cs[k], t) implies r.contains(cs[k]) || r.len()
        == MAX_CITY_RESULTS by {
        assert(m.contains(cs[k]));
        assert(m.to_multiset().count(cs[k]) > 0);
        assert(s.to_multiset().count(cs[k]) > 0);
        assert(s.contains(cs[k]));
    }
}

proof fn lemma_trips_matching_sound(st: &Store, n: int, from: Seq<char>, to: Seq<char>, date: Date)
    requires
        n <= st.trips@.len(),
    ensures
        forall|e: EnrichedTrip| #[trigger] trips_matching(st, n, from, to, date).contains(e) ==> exists|k: int|
            0 <= k < n && #[trigger] found_at(st, k, e, from, to, date),
    decreases n,
{
    if n > 0 {
        lemma_trips_matching_sound(st, n - 1, from, to, date);
        let prev = trips_matching(st, n - 1, from, to, date);
        assert forall|e: EnrichedTrip| #[trigger] trips_matching(st, n, from, to, date).contains(e) implies exists|k: int|
            0 <= k < n && #[trigger] found_at(st, k, e, from, to, date) by {
            let cur = trips_matching(st, n, from, to, date);
            let i = choose|i: int| 0 <= i < cur.len() && cur[i] == e;
            if i < prev.len() {
                assert(prev[i] == e);
                assert(prev.contains(e));
            } else {
                assert(found_at(st, n - 1, e, from, to, date));
            }
        }
    }
}

/// Every trip that a search returns is a trip of the table whose join is
/// complete: its route, both of the route's cities, its vehicle, its driver
/// and the driver's user all exist. It qualifies for the search, and it is
/// the response record of that joined row, so the driver under the vehicle
/// and the driver beside it are the same.
pub proof fn lemma_trip_results_joined(st: &Store, from: Seq<char>, to: Seq<char>, date: Date)
    ensures
        forall|e: EnrichedTrip| #[trigger] trip_search_result(st, from, to, date).contains(e) ==> exists|k: int|
            0 <= k < st.trips@.len() && #[trigger] found_at(st, k, e, from, to, date) && e.trip == st.trips@[k],
{
    broadcast use vstd::seq_lib::group_to_multiset_ensures;
    let m = trips_matching(st, st.trips@.len() as int, from, to, date);
    lemma_sort_stable(m);
    lemma_trips_matching_sound(st, st.trips@.len() as int, from, to, date);
    let r = trip_search_result(st, from, to, date);
    assert forall|e: EnrichedTrip| #[trigger] r.contains(e) implies exists|k: int|
        0 <= k < st.trips@.len() && #[trigger] found_at(st, k, e, from, to, date) && e.trip == st.trips@[k] by {
        assert(r.to_multiset().count(e) > 0);
        assert(m.to_multiset().count(e) > 0);
        assert(m.contains(e));
        let k = choose|k: int| 0 <= k < st.trips@.len() && #[trigger] found_at(st, k, e, from, to, date);
        assert(e.trip == st.trips@[k]);
    }
}

/// Entry `k` of the trip table joins completely and qualifies for the search.
pub open spec fn qualifies_at(st: &Store, k: int, from: Seq<char>, to: Seq<char>, date: Date) -> bool {
    match join_row(st, st.trips@[k]) {
        Some(row) => trip_matches(row, from, to, date),
        None => false,
    }
}

proof fn lemma_trips_matching_complete(st: &Store, n: int, from: Seq<char>, to: Seq<char>, date: Date)
    requires
        n <= st.trips@.len(),
    ensures
        forall|k: int| 0 <= k < n && #[trigger] qualifies_at(st, k, from, to, date) ==> trips_matching(st, n, from, to, date).contains(
            enriched_of(join_row(st, st.trips@[k]).unwrap()),
        ),
    decreases n,
{
    if n > 0 {
        lemma_trips_matching_complete(st, n - 1, from, to, date);
        let prev = trips_matching(st, n - 1, from, to, date);
        let cur = trips_matching(st, n, from, to, date);
        assert forall|k: int| 0 <= k < n && #[trigger] qualifies_at(st, k, from, to, date) implies cur.contains(
            enriched_of(join_row(st, st.trips@[k]).unwrap()),
        ) by {
            let e = enriched_of(join_row(st, st.trips@[k]).unwrap());
            if k < n - 1 {
                let i = choose|i: int| 0 <= i < prev.len() && prev[i] == e;
                if qualifies_at(st, n - 1, from, to, date) {
                    assert(cur[i] == e);
                }
            } else {
                assert(cur[prev.len() as int] == e);
            }
        }
    }
}

/// A trip search returns every active trip of the table on the route from
/// `from` to `to` on `date` whose join is complete.
pub proof fn lemma_trip_search_complete(st: &Store, from: Seq<char>, to: Seq<char>, date: Date)
    ensures
        forall|k: int| 0 <= k < st.trips@.len() && #[trigger] qualifies_at(st, k, from, to, date) ==> trip_search_result(
            st,
            from,
            to,
            date,
        ).contains(enriched_of(join_row(st, st.trips@[k]).unwrap())),
{
    broadcast use vstd::seq_lib::group_to_multiset_ensures;
    let m = trips_matching(st, st.trips@.len() as int, from, to, date);
    lemma_sort_stable(m);
    lemma_trips_matching_complete(st, st.trips@.len() as int, from, to, date);
    let r = trip_search_result(st, from, to, date);
    assert forall|k: int| 0 <= k < st.trips@.len() && #[trigger] qualifies_at(st, k, from, to, date) implies r.contains(
        enriched_of(join_row(st, st.trips@[k]).unwrap()),
    ) by {
        let e = enriched_of(join_row(st, st.trips@[k]).unwrap());
        assert(m.contains(e));
        assert(m.to_multiset().count(e) > 0);
        assert(r.to_multiset().count(e) > 0);
    }
}

/// In every trip that a search returns, the driver under the vehicle and the
/// top-level driver carry the same driver and user.
pub proof fn lemma_trip_results_driver_twice(st: &Store, from: Seq<char>, to: Seq<char>, date: Date)
    ensures
        forall|i: int| 0 <= i < trip_search_result(st, from, to, date).len() ==> (#[trigger] trip_search_result(st, from, to, date)[i]).vehicle.driver
            == trip_search_result(st, from, to, date)[i].driver,
{
    lemma_trip_results_joined(st, from, to, date);
    let r = trip_search_result(st, from, to, date);
    assert forall|i: int| 0 <= i < r.len() implies (#[trigger] r[i]).vehicle.driver == r[i].driver by {
        assert(r.contains(r[i]));
        let k = choose|k: int| 0 <= k < st.trips@.len() && #[trigger] found_at(st, k, r[i], from, to, date);
    }
}

/// Trip search results are in non-decreasing order of departure time.
pub proof fn lemma_trip_results_sorted(st: &Store, from: Seq<char>, to: Seq<char>, date: Date)
    ensures
        sorted_by_key(trip_search_result(st, from, to, date)),
{
    lemma_sort_stable(trips_matching(st, st.trips@.len() as int, from, to, date));
}

proof fn lemma_trips_matching_same(a: &Store, b: &Store, n: int, from: Seq<char>, to: Seq<char>, date: Date)
    requires
        a.cities@ == b.cities@,
        a.routes@ == b.routes@,
        a.vehicles@ == b.vehicles@,
        a.drivers@ == b.drivers@,
        a.users@ == b.users@,
        a.trips@ == b.trips@,
    ensures
        trips_matching(a, n, from, to, date) == trips_matching(b, n, from, to, date),
    decreases n,
{
    if n > 0 {
        lemma_trips_matching_same(a, b, n - 1, from, to, date);
    }
}

/// Searching twice over unchanged tables gives the same lists, in the same
/// order: the result depends on the tables' contents and the query alone.
pub proof fn lemma_search_repeatable(a: &Store, b: &Store, from: Seq<char>, to: Seq<char>, date: Date, q: Option<String>)
    requires
        a.cities@ == b.cities@,
        a.routes@ == b.routes@,
        a.vehicles@ == b.vehicles@,
        a.drivers@ == b.drivers@,
        a.users@ == b.users@,
        a.trips@ == b.trips@,
    ensures
        trip_search_result(a, from, to, date) == trip_search_result(b, from, to, date),
        city_search_result(a.cities@, q) == city_search_result(b.cities@, q),
{
    lemma_trips_matching_same(a, b, a.trips@.len() as int, from, to, date);
}

} // verus!
