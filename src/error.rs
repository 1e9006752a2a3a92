use vstd::prelude::*;

verus! {

/// Every way an operation on reservations can fail.
#[derive(Clone, Debug, PartialEq, Eq)]
pub enum Error {
    /// The store could not carry out the operation; the text describes why.
    DbError(String),
    /// The candidate already has an identity, or names no user.
    InvalidUserId(String),
    /// The candidate names no resource.
    InvalidResourceId(String),
    /// The candidate's window is missing a bound or is not `start < end`.
    InvalidReservation,
    /// The window overlaps a live reservation of the same resource.
    Conflict,
    /// No reservation has the given identity.
    NotFound,
    /// The store failed in a way it could not classify.
    Unknown,
}

/// The failures of the storage layer itself.
#[derive(Clone, Debug, PartialEq, Eq)]
pub enum ReservationError {
    DbError(String),
    InvalidReservation,
    Unknown,
}

} // verus!
