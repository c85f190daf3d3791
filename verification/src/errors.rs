use vstd::prelude::*;

verus! {

/// The error kinds a service operation can surface.
///
/// `InvalidObjectId` and `EmptyQuery` are detected before any store work;
/// `NotFound` is raised only by the merge update, which cannot proceed
/// without a base record; `DatabaseError` carries an opaque infrastructure
/// message supplied by the caller that drives a real store.
#[derive(Debug)]
pub enum ApiServiceError {
    InvalidObjectId,
    NotFound,
    EmptyQuery,
    DatabaseError(String),
}

impl ApiServiceError {
    /// A short human-readable description, usable by an HTTP layer.
    pub fn message(&self) -> (r: &'static str)
        ensures
            r@ == match self {
                ApiServiceError::InvalidObjectId => "Invalid ObjectId format"@,
                ApiServiceError::NotFound => "Record not found"@,
                ApiServiceError::EmptyQuery => "At least one search parameter must be provided"@,
                ApiServiceError::DatabaseError(_) => "Database error"@,
            },
    {
        match self {
            ApiServiceError::InvalidObjectId => "Invalid ObjectId format",
            ApiServiceError::NotFound => "Record not found",
            ApiServiceError::EmptyQuery => "At least one search parameter must be provided",
            ApiServiceError::DatabaseError(_) => "Database error",
        }
    }
}

} // verus!
