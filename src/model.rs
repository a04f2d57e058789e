use crate::dates::DateTime;
use crate::order::Keyed;
use vstd::prelude::*;
use vstd::utf8::encode_utf8;

verus! {

/// Copies optional text.
pub fn clone_text(o: &Option<String>) -> (r: Option<String>)
    ensures
        r == *o,
{
    match o {
        Some(s) => Some(s.clone()),
        None => None,
    }
}

/// A city: its identifier and its name.
#[derive(Debug, PartialEq, Eq)]
pub struct City {
    pub id: String,
    pub name: String,
}

impl Clone for City {
    fn clone(&self) -> (r: Self)
        ensures
            r == *self,
    {
        City { id: self.id.clone(), name: self.name.clone() }
    }
}

/// Cities sort by the bytes of their names.
impl Keyed for City {
    open spec fn sort_key(&self) -> Option<Seq<u8>> {
        Some(encode_utf8(self.name@))
    }

    fn key_bytes(&self) -> (r: Option<&[u8]>) {
        Some(self.name.as_str().as_bytes())
    }
}

/// The query of a city search: the text to look for, if any.
#[derive(Debug, PartialEq, Eq)]
pub struct SearchCityQuery {
    pub q: Option<String>,
}

/// A trip as stored.
#[derive(Debug, PartialEq, Eq)]
pub struct Trip {
    pub id: String,
    pub driver_id: String,
    pub vehicle_id: String,
    pub route_id: String,
    pub travel_date: Option<DateTime>,
    pub departure_time: Option<String>,
    pub total_seats: Option<i32>,
    pub available_seats: Option<i32>,
    pub is_active: Option<bool>,
    pub created_at: Option<DateTime>,
    pub updated_at: Option<DateTime>,
}

impl Clone for Trip {
    fn clone(&self) -> (r: Self)
        ensures
            r == *self,
    {
        Trip {
            id: self.id.clone(),
            driver_id: self.driver_id.clone(),
            vehicle_id: self.vehicle_id.clone(),
            route_id: self.route_id.clone(),
            travel_date: self.travel_date,
            departure_time: clone_text(&self.departure_time),
            total_seats: self.total_seats,
            available_seats: self.available_seats,
            is_active: self.is_active,
            created_at: self.created_at,
            updated_at: self.updated_at,
        }
    }
}

/// The query of a trip search: source city, destination city and the date as
/// `YYYY-MM-DD` text.
#[derive(Debug, PartialEq, Eq)]
pub struct SearchTripsQuery {
    pub from_city_id: String,
    pub to_city_id: String,
    pub travel_date: String,
}

/// A route between two cities; `checkpoints` is kept as the stored JSON text.
#[derive(Debug, PartialEq, Eq)]
pub struct Route {
    pub id: String,
    pub source_city_id: String,
    pub destination_city_id: String,
    pub checkpoints: Option<String>,
}

impl Clone for Route {
    fn clone(&self) -> (r: Self)
        ensures
            r == *self,
    {
        Route {
            id: self.id.clone(),
            source_city_id: self.source_city_id.clone(),
            destination_city_id: self.destination_city_id.clone(),
            checkpoints: clone_text(&self.checkpoints),
        }
    }
}

/// A vehicle.
#[derive(Debug, PartialEq, Eq)]
pub struct Vehicle {
    pub id: String,
    pub vehicle_type: String,
    pub total_seats: Option<i32>,
    pub number_plate: String,
}

impl Clone for Vehicle {
    fn clone(&self) -> (r: Self)
        ensures
            r == *self,
    {
        Vehicle {
            id: self.id.clone(),
            vehicle_type: self.vehicle_type.clone(),
            total_seats: self.total_seats,
            number_plate: self.number_plate.clone(),
        }
    }
}

/// A driver, linked to the user account `user_id`.
#[derive(Debug, PartialEq, Eq)]
pub struct Driver {
    pub id: String,
    pub user_id: String,
    pub is_active: Option<bool>,
}

impl Clone for Driver {
    fn clone(&self) -> (r: Self)
        ensures
            r == *self,
    {
        Driver { id: self.id.clone(), user_id: self.user_id.clone(), is_active: self.is_active }
    }
}

/// A user account.
#[derive(Debug, PartialEq, Eq)]
pub struct User {
    pub id: String,
    pub name: String,
    pub phone: Option<String>,
    pub role: String,
    pub language_preference: Option<String>,
}

impl Clone for User {
    fn clone(&self) -> (r: Self)
        ensures
            r == *self,
    {
        User {
            id: self.id.clone(),
            name: self.name.clone(),
            phone: clone_text(&self.phone),
            role: self.role.clone(),
            language_preference: clone_text(&self.language_preference),
        }
    }
}

/// A stored record with a text identifier.
pub trait Identified: Sized {
    spec fn key_id(&self) -> Seq<char>;

    fn id_text(&self) -> (r: &String)
        ensures
            r@ == self.key_id(),
    ;
}

impl Identified for City {
    open spec fn key_id(&self) -> Seq<char> {
        self.id@
    }

    fn id_text(&self) -> (r: &String) {
        &self.id
    }
}

impl Identified for Trip {
    open spec fn key_id(&self) -> Seq<char> {
        self.id@
    }

    fn id_text(&self) -> (r: &String) {
        &self.id
    }
}

impl Identified for Route {
    open spec fn key_id(&self) -> Seq<char> {
        self.id@
    }

    fn id_text(&self) -> (r: &String) {
        &self.id
    }
}

impl Identified for Vehicle {
    open spec fn key_id(&self) -> Seq<char> {
        self.id@
    }

    fn id_text(&self) -> (r: &String) {
        &self.id
    }
}

impl Identified for Driver {
    open spec fn key_id(&self) -> Seq<char> {
        self.id@
    }

    fn id_text(&self) -> (r: &String) {
        &self.id
    }
}

impl Identified for User {
    open spec fn key_id(&self) -> Seq<char> {
        self.id@
    }

    fn id_text(&self) -> (r: &String) {
        &self.id
    }
}

/// The first record of `s` whose identifier is `id`. Identifiers are primary
/// keys of the store, so this is the one such record.
pub open spec fn lookup<T: Identified>(s: Seq<T>, id: Seq<char>) -> Option<T>
    decreases s.len(),
{
    if s.len() == 0 {
        None
    } else if s[0].key_id() == id {
        Some(s[0])
    } else {
        lookup(s.drop_first(), id)
    }
}

/// Finds the record with identifier `id`.
pub fn find_by_id<'a, T: Identified>(s: &'a Vec<T>, id: &String) -> (r: Option<&'a T>)
    ensures
        r matches Some(x) ==> lookup(s@, id@) == Some(*x),
        r is None ==> lookup(s@, id@) is None,
{
    let mut i: usize = 0;
    assert(s@.subrange(0, s@.len() as int) == s@);
    while i < s.len()
        invariant
            0 <= i <= s@.len(),
            lookup(s@, id@) == lookup(s@.subrange(i as int, s@.len() as int), id@),
        decreases s@.len() - i,
    {
        let ghost rest = s@.subrange(i as int, s@.len() as int);
        assert(rest[0] == s@[i as int]);
        if s[i].id_text().eq(id) {
            return Some(&s[i]);
        }
        assert(rest.drop_first() == s@.subrange(i + 1, s@.len() as int));
        i = i + 1;
    }
    None
}

} // verus!
