//! Reservations of shared resources over half-open time windows, with a store
//! that never lets two live reservations of one resource overlap.
pub mod error;
pub mod laws;
pub mod manager;
pub mod query;
pub mod status;
pub mod types;

pub use error::{Error, ReservationError};
pub use manager::{ReservationManager, Rsvp};
pub use query::{ReservationQuery, WindowRelation};
pub use status::RsvpStatus;
pub use types::{Reservation, Timestamp};
