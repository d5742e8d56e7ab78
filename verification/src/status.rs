//! The states of a reservation.
//!
//! A reservation is made `Pending` and may be confirmed once. `Blocked` is
//! kept for holding a resource without a user, and `Unknown` stands for a
//! stored state that could not be read.

use vstd::prelude::*;

verus! {

/// The state of a reservation.
#[derive(Clone, Copy, Debug, PartialEq, Eq, Structural)]
pub enum ReservationStatus {
    Unknown,
    Pending,
    Confirmed,
    Blocked,
}

/// The number that stands for a state on the wire.
pub open spec fn status_number(status: ReservationStatus) -> i32 {
    match status {
        ReservationStatus::Unknown => 0,
        ReservationStatus::Pending => 1,
        ReservationStatus::Confirmed => 2,
        ReservationStatus::Blocked => 3,
    }
}

/// The state that a number stands for on the wire, if it stands for one.
pub open spec fn status_of_number(value: i32) -> Option<ReservationStatus> {
    if value == 0 {
        Some(ReservationStatus::Unknown)
    } else if value == 1 {
        Some(ReservationStatus::Pending)
    } else if value == 2 {
        Some(ReservationStatus::Confirmed)
    } else if value == 3 {
        Some(ReservationStatus::Blocked)
    } else {
        None
    }
}

/// The state that a number is taken for: its own where it stands for one,
/// `Pending` where it stands for none.
pub open spec fn status_or_pending(value: i32) -> ReservationStatus {
    match status_of_number(value) {
        Some(status) => status,
        None => ReservationStatus::Pending,
    }
}

/// The name of a state in the store.
pub open spec fn status_name(status: ReservationStatus) -> Seq<char> {
    match status {
        ReservationStatus::Pending => "pending"@,
        ReservationStatus::Blocked => "blocked"@,
        ReservationStatus::Confirmed => "confirmed"@,
        ReservationStatus::Unknown => "unknown"@,
    }
}

impl ReservationStatus {
    /// The number that stands for this state on the wire.
    pub fn as_i32(self) -> (r: i32)
        ensures
            r == status_number(self),
    {
        match self {
            ReservationStatus::Unknown => 0,
            ReservationStatus::Pending => 1,
            ReservationStatus::Confirmed => 2,
            ReservationStatus::Blocked => 3,
        }
    }

    /// The state that `value` stands for on the wire.
    pub fn from_i32(value: i32) -> (r: Option<ReservationStatus>)
        ensures
            r == status_of_number(value),
    {
        if value == 0 {
            Some(ReservationStatus::Unknown)
        } else if value == 1 {
            Some(ReservationStatus::Pending)
        } else if value == 2 {
            Some(ReservationStatus::Confirmed)
        } else if value == 3 {
            Some(ReservationStatus::Blocked)
        } else {
            None
        }
    }

    /// The state that `value` is taken for when a request carries it.
    pub fn from_i32_or_pending(value: i32) -> (r: ReservationStatus)
        ensures
            r == status_or_pending(value),
    {
        match ReservationStatus::from_i32(value) {
            Some(status) => status,
            None => ReservationStatus::Pending,
        }
    }

    /// The name of this state in the store.
    pub fn to_string(&self) -> (r: String)
        ensures
            r@ == status_name(*self),
    {
        match self {
            ReservationStatus::Pending => "pending".to_owned(),
            ReservationStatus::Blocked => "blocked".to_owned(),
            ReservationStatus::Confirmed => "confirmed".to_owned(),
            ReservationStatus::Unknown => "unknown".to_owned(),
        }
    }
}

/// A state written as a number and read back is the same state.
pub proof fn lemma_status_number_round_trip(status: ReservationStatus)
    ensures
        status_of_number(status_number(status)) == Some(status),
        status_or_pending(status_number(status)) == status,
{
}

} // verus!
