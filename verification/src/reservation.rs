//! The reservation: who holds which resource from when to when.

use crate::error::{Error, ErrorView, StorageFailure, StorageFailureView};
use crate::id::{reservation_id, uuid_text, uuid_value, ID_LENGTH};
use crate::range::{
    both_instants, get_timespan, spans_window, validate_range, NaiveRange, RangeView, TimeRange,
};
use crate::status::{status_number, ReservationStatus};
use crate::time::{convert_to_timestamp, wire_form, FixedOffsetTime, Instant, Timestamp};
use vstd::prelude::*;

verus! {

/// What a stored row says when its time span lacks an end.
pub const UNBOUNDED_TIMESPAN: &'static str = "the time span of the row lacks an end";

/// A reservation of a resource by a user, as it goes over the wire.
///
/// `id` is empty until the store has taken the reservation. `status` is the
/// number of a `ReservationStatus`. The window runs from `start` up to, not
/// including, `end`.
#[derive(Debug, PartialEq)]
pub struct Reservation {
    pub id: String,
    pub user_id: String,
    pub status: i32,
    pub resource_id: String,
    pub start: Option<Timestamp>,
    pub end: Option<Timestamp>,
    pub note: String,
}

/// The model of a `Reservation`.
pub struct ReservationView {
    pub id: Seq<char>,
    pub user_id: Seq<char>,
    pub status: i32,
    pub resource_id: Seq<char>,
    pub start: Option<Timestamp>,
    pub end: Option<Timestamp>,
    pub note: Seq<char>,
}

impl View for Reservation {
    type V = ReservationView;

    open spec fn view(&self) -> ReservationView {
        ReservationView {
            id: self.id@,
            user_id: self.user_id@,
            status: self.status,
            resource_id: self.resource_id@,
            start: self.start,
            end: self.end,
            note: self.note@,
        }
    }
}

impl Clone for Reservation {
    fn clone(&self) -> (r: Reservation)
        ensures
            r == *self,
    {
        Reservation {
            id: self.id.clone(),
            user_id: self.user_id.clone(),
            status: self.status,
            resource_id: self.resource_id.clone(),
            start: self.start,
            end: self.end,
            note: self.note.clone(),
        }
    }
}

impl ReservationView {
    /// What is wrong with this reservation, if anything: the user is not
    /// named, else the resource is not named, else the two times do not span
    /// a window.
    pub open spec fn fault(self) -> Option<ErrorView> {
        if self.user_id.len() == 0 {
            Some(ErrorView::InvalidUserId(self.user_id))
        } else if self.resource_id.len() == 0 {
            Some(ErrorView::InvalidResourceId(self.resource_id))
        } else if !spans_window(self.start, self.end) {
            Some(ErrorView::InvalidTime)
        } else {
            None
        }
    }

    /// The same reservation under another identifier.
    pub open spec fn with_id(self, id: Seq<char>) -> ReservationView {
        ReservationView { id, ..self }
    }
}

/// A row of the table of reservations, as the store holds it.
#[derive(Debug)]
pub struct StoredRow {
    pub id: u128,
    pub user_id: String,
    pub resource_id: String,
    pub timespan: TimeRange,
    pub note: String,
    pub status: ReservationStatus,
}

/// The model of a `StoredRow`.
pub struct StoredRowView {
    pub id: u128,
    pub user_id: Seq<char>,
    pub resource_id: Seq<char>,
    pub timespan: RangeView,
    pub note: Seq<char>,
    pub status: ReservationStatus,
}

impl View for StoredRow {
    type V = StoredRowView;

    open spec fn view(&self) -> StoredRowView {
        StoredRowView {
            id: self.id,
            user_id: self.user_id@,
            resource_id: self.resource_id@,
            timespan: self.timespan@,
            note: self.note@,
            status: self.status,
        }
    }
}

impl Clone for StoredRow {
    fn clone(&self) -> (r: StoredRow)
        ensures
            r == *self,
    {
        StoredRow {
            id: self.id,
            user_id: self.user_id.clone(),
            resource_id: self.resource_id.clone(),
            timespan: self.timespan,
            note: self.note.clone(),
            status: self.status,
        }
    }
}

impl StoredRowView {
    /// The reservation that this row holds; `None` where its time span lacks
    /// an end.
    pub open spec fn reservation(self) -> Option<ReservationView> {
        match (self.timespan.start.instant(), self.timespan.end.instant()) {
            (Some(start), Some(end)) => Some(
                ReservationView {
                    id: uuid_text(self.id),
                    user_id: self.user_id,
                    status: status_number(self.status),
                    resource_id: self.resource_id,
                    start: Some(wire_form(start)),
                    end: Some(wire_form(end)),
                    note: self.note,
                },
            ),
            _ => None,
        }
    }
}

impl Reservation {
    /// A reservation that the store has not seen yet: no identifier, state
    /// `Pending`, and the two times taken to UTC.
    pub fn new_pending(
        uid: &str,
        rid: &str,
        start: FixedOffsetTime,
        end: FixedOffsetTime,
        note: &str,
    ) -> (r: Reservation)
        ensures
            r@ == (ReservationView {
                id: Seq::empty(),
                user_id: uid@,
                status: status_number(ReservationStatus::Pending),
                resource_id: rid@,
                start: Some(wire_form(start.instant())),
                end: Some(wire_form(end.instant())),
                note: note@,
            }),
    {
        Reservation {
            id: String::new(),
            user_id: uid.to_owned(),
            status: ReservationStatus::Pending.as_i32(),
            resource_id: rid.to_owned(),
            start: Some(convert_to_timestamp(start.to_utc())),
            end: Some(convert_to_timestamp(end.to_utc())),
            note: note.to_owned(),
        }
    }

    /// The same reservation under the identifier `id`.
    pub fn with_id(self, id: String) -> (r: Reservation)
        ensures
            r@ == self@.with_id(id@),
    {
        let mut r = self;
        r.id = id;
        r
    }

    /// Accepts a reservation that names its user and its resource and whose
    /// two times span a window; says what is wrong with any other.
    pub fn validate(&self) -> (r: Result<(), Error>)
        ensures
            match r {
                Ok(_) => self@.fault() is None,
                Err(e) => self@.fault() == Some(e@),
            },
    {
        if self.user_id.as_str().is_empty() {
            return Err(Error::InvalidUserId(self.user_id.clone()));
        }
        if self.resource_id.as_str().is_empty() {
            return Err(Error::InvalidResourceId(self.resource_id.clone()));
        }
        validate_range(self.start, self.end)
    }

    /// The window of the reservation: from `start`, which it holds, up to
    /// `end`, which it does not hold.
    pub fn get_timespan(&self) -> (r: TimeRange)
        requires
            both_instants(self.start, self.end),
        ensures
            r@ == RangeView::half_open(self.start->0.instant(), self.end->0.instant()),
    {
        get_timespan(self.start, self.end)
    }

    /// The reservation that a row of the store holds. Fails where the time
    /// span of the row lacks an end.
    pub fn from_row(row: &StoredRow) -> (r: Result<Reservation, StorageFailure>)
        ensures
            match r {
                Ok(rsvp) => row@.reservation() == Some(rsvp@) && rsvp@.id.len() == ID_LENGTH
                    && uuid_value(rsvp@.id) == Some(row.id),
                Err(e) => row@.reservation() is None && e@ == StorageFailureView::Other(
                    UNBOUNDED_TIMESPAN@,
                ),
            },
    {
        let range = NaiveRange::from(row.timespan);
        match (range.start, range.end) {
            (Some(start), Some(end)) => Ok(
                Reservation {
                    id: reservation_id(row.id),
                    user_id: row.user_id.clone(),
                    status: row.status.as_i32(),
                    resource_id: row.resource_id.clone(),
                    start: Some(convert_to_timestamp(start)),
                    end: Some(convert_to_timestamp(end)),
                    note: row.note.clone(),
                },
            ),
            _ => Err(StorageFailure::Other(UNBOUNDED_TIMESPAN.to_owned())),
        }
    }
}

/// A reservation made by `new_pending` from two times of which the first is
/// the earlier, for a named user and a named resource, is accepted.
pub proof fn lemma_new_pending_is_valid(
    uid: Seq<char>,
    rid: Seq<char>,
    start: Instant,
    end: Instant,
    note: Seq<char>,
)
    requires
        uid.len() > 0,
        rid.len() > 0,
        start.valid(),
        end.valid(),
        start.precedes(end),
    ensures
        (ReservationView {
            id: Seq::empty(),
            user_id: uid,
            status: status_number(ReservationStatus::Pending),
            resource_id: rid,
            start: Some(wire_form(start)),
            end: Some(wire_form(end)),
            note,
        }).fault() is None,
{
}

} // verus!
