//! Reservations of resources for windows of time.
//!
//! A reservation names a user, a resource and a window from a start up to,
//! not including, an end. No two reservations of one resource may have
//! windows with an instant in common. The store sees to that: it refuses a
//! reservation that would break the rule, and the manager turns the refusal
//! into an error that names the two windows.
//!
//! The modules, from the leaves up: `time` has instants and their wire form,
//! `range` the ranges of time that the store holds, `status` the states of a
//! reservation, `text` and `fields` small tools for text, `conflict` the
//! reading of the diagnostic of a refused reservation, `error` the failures,
//! `id` the identifiers, `reservation` and `query` the two messages,
//! `exchange` what passes between manager and store, `table` the model of the
//! table of reservations, `store` a store in memory, `manager` the operations
//! on reservations, and `laws` what holds of them.

pub mod conflict;
pub mod error;
pub mod exchange;
pub mod fields;
pub mod id;
pub mod laws;
pub mod manager;
pub mod query;
pub mod range;
pub mod reservation;
pub mod status;
pub mod store;
pub mod table;
pub mod text;
pub mod time;

pub use conflict::{ReservationConflict, ReservationConflictInfo, ReservationWindow};
pub use error::Error;
pub use exchange::str_to_option;
pub use id::{ReservationId, ResourceId, UserId};
pub use manager::{ReservationManager, Rsvp};
pub use query::ReservationQuery;
pub use reservation::Reservation;
pub use status::ReservationStatus;
pub use time::{convert_to_timestamp, convert_to_utc_time};
