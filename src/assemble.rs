use crate::model::{City, Driver, Route, Trip, User, Vehicle};
use crate::order::Keyed;
use vstd::prelude::*;
use vstd::utf8::encode_utf8;

verus! {

/// A driver with the user account it is linked to.
#[derive(Debug, PartialEq, Eq)]
pub struct DriverInfo {
    pub driver: Driver,
    pub user: User,
}

impl Clone for DriverInfo {
    fn clone(&self) -> (r: Self)
        ensures
            r == *self,
    {
        DriverInfo { driver: self.driver.clone(), user: self.user.clone() }
    }
}

/// A route with its two cities.
#[derive(Debug, PartialEq, Eq)]
pub struct RouteInfo {
    pub route: Route,
    pub source_city: City,
    pub destination_city: City,
}

/// A vehicle with its driver.
#[derive(Debug, PartialEq, Eq)]
pub struct VehicleInfo {
    pub vehicle: Vehicle,
    pub driver: DriverInfo,
}

/// A trip with its route, vehicle and driver. The driver stands both under
/// the vehicle and beside it, with the same content.
#[derive(Debug, PartialEq, Eq)]
pub struct EnrichedTrip {
    pub trip: Trip,
    pub boarding_city_id: String,
    pub destination_city_id: String,
    pub route: RouteInfo,
    pub vehicle: VehicleInfo,
    pub driver: DriverInfo,
}

/// Trips sort by the bytes of their departure time; a trip without one comes
/// last.
impl Keyed for EnrichedTrip {
    open spec fn sort_key(&self) -> Option<Seq<u8>> {
        match self.trip.departure_time {
            Some(s) => Some(encode_utf8(s@)),
            None => None,
        }
    }

    fn key_bytes(&self) -> (r: Option<&[u8]>) {
        match &self.trip.departure_time {
            Some(s) => Some(s.as_str().as_bytes()),
            None => None,
        }
    }
}

/// One row of the trip join: a trip with every record it refers to.
#[derive(Debug, PartialEq, Eq)]
pub struct TripRow {
    pub trip: Trip,
    pub route: Route,
    pub source_city: City,
    pub destination_city: City,
    pub vehicle: Vehicle,
    pub driver: Driver,
    pub user: User,
}

/// The response record of a joined row.
pub open spec fn enriched_of(row: TripRow) -> EnrichedTrip {
    let d = DriverInfo { driver: row.driver, user: row.user };
    EnrichedTrip {
        trip: row.trip,
        boarding_city_id: row.route.source_city_id,
        destination_city_id: row.route.destination_city_id,
        route: RouteInfo {
            route: row.route,
            source_city: row.source_city,
            destination_city: row.destination_city,
        },
        vehicle: VehicleInfo { vehicle: row.vehicle, driver: d },
        driver: d,
    }
}

/// Nests a joined row into its response record.
pub fn assemble_trip(row: TripRow) -> (r: EnrichedTrip)
    ensures
        r == enriched_of(row),
        r.vehicle.driver == r.driver,
{
    let boarding_city_id = row.route.source_city_id.clone();
    let destination_city_id = row.route.destination_city_id.clone();
    let d = DriverInfo { driver: row.driver, user: row.user };
    let d2 = d.clone();
    EnrichedTrip {
        trip: row.trip,
        boarding_city_id,
        destination_city_id,
        route: RouteInfo {
            route: row.route,
            source_city: row.source_city,
            destination_city: row.destination_city,
        },
        vehicle: VehicleInfo { vehicle: row.vehicle, driver: d },
        driver: d2,
    }
}

/// Nests each joined row, keeping their order.
pub fn assemble_trips(rows: Vec<TripRow>) -> (r: Vec<EnrichedTrip>)
    ensures
        r@.len() == rows@.len(),
        forall|i: int| 0 <= i < rows@.len() ==> r@[i] == enriched_of(#[trigger] rows@[i]),
{
    let ghost orig = rows@;
    let mut rows = rows;
    let mut back: Vec<EnrichedTrip> = Vec::new();
    while rows.len() > 0
        invariant
            rows@.len() + back@.len() == orig.len(),
            rows@ == orig.subrange(0, rows@.len() as int),
            forall|k: int| 0 <= k < back@.len() ==> back@[k] == enriched_of(#[trigger] orig[orig.len() - 1 - k]),
        decreases rows@.len(),
    {
        let row = rows.pop().unwrap();
        back.push(assemble_trip(row));
    }
    let mut r: Vec<EnrichedTrip> = Vec::new();
    while back.len() > 0
        invariant
            r@.len() + back@.len() == orig.len(),
            forall|k: int| 0 <= k < back@.len() ==> back@[k] == enriched_of(#[trigger] orig[orig.len() - 1 - k]),
            forall|i: int| 0 <= i < r@.len() ==> r@[i] == enriched_of(#[trigger] orig[i]),
        decreases back@.len(),
    {
        let ghost k = back@.len() - 1;
        assert(back@[k] == enriched_of(orig[orig.len() - 1 - k]));
        assert(orig.len() - 1 - k == r@.len());
        let e = back.pop().unwrap();
        r.push(e);
    }
    r
}

} // verus!
