use vstd::prelude::*;

verus! {

/// How a request fails.
#[derive(Debug, Clone, Copy, PartialEq, Eq, Structural)]
pub enum ApiError {
    /// The request is malformed (a date that is no calendar date).
    BadRequest,
    /// The record asked for does not exist.
    NotFound,
    /// The store could not be read.
    Internal,
}

impl ApiError {
    /// The HTTP status code of the failure.
    pub open spec fn status_spec(self) -> u16 {
        match self {
            ApiError::BadRequest => 400,
            ApiError::NotFound => 404,
            ApiError::Internal => 500,
        }
    }

    /// The HTTP status code of the failure.
    pub fn status(&self) -> (r: u16)
        ensures
            r == self.status_spec(),
    {
        match self {
            ApiError::BadRequest => 400,
            ApiError::NotFound => 404,
            ApiError::Internal => 500,
        }
    }
}

} // verus!
