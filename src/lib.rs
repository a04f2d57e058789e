//! Read-side logic of a ride-sharing trip API: city lookup, trip lookup and
//! trip search over a snapshot of the store, and the shaping of joined trip
//! rows into nested response records.

pub mod dates;
pub mod order;
pub mod model;
pub mod text;
pub mod assemble;
pub mod error;
pub mod store;
pub mod laws;
