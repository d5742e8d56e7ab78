//! What passes between the manager and the store.
//!
//! The manager decides, the store acts. For each operation the manager first
//! turns what the caller gave into a request for the store, or refuses it
//! without going to the store at all; and once the store has answered, it
//! turns the answer into what the caller gets.

use crate::error::{error_of_failure, Error, ErrorView, StorageFailure, StorageFailureView};
use crate::id::{reservation_id, uuid_text, uuid_value, ID_LENGTH};
use crate::query::{ReservationQuery, ReservationQueryView};
use crate::range::{
    both_instants, have_instants, lemma_window_has_instants, RangeView, TimeRange,
};
use crate::reservation::{
    Reservation, ReservationView, StoredRow, StoredRowView, UNBOUNDED_TIMESPAN,
};
use crate::status::{status_or_pending, ReservationStatus};
use crate::text::text_view;
use vstd::prelude::*;

verus! {

/// Maps the empty text to `None` and any other text to itself.
pub fn str_to_option(s: &str) -> (r: Option<&str>)
    ensures
        match r {
            Some(t) => s@.len() > 0 && t@ == s@,
            None => s@.len() == 0,
        },
{
    if s.is_empty() {
        None
    } else {
        Some(s)
    }
}

/// The text that a filter asks for; `None` where the filter is empty and asks
/// for nothing.
pub open spec fn filter_of(text: Seq<char>) -> Option<Seq<char>> {
    if text.len() == 0 {
        None
    } else {
        Some(text)
    }
}

/// The row that the store is asked to take.
#[derive(Debug)]
pub struct NewReservation {
    pub user_id: String,
    pub resource_id: String,
    pub timespan: TimeRange,
    pub note: String,
    pub status: ReservationStatus,
}

/// The model of a `NewReservation`.
pub struct NewReservationView {
    pub user_id: Seq<char>,
    pub resource_id: Seq<char>,
    pub timespan: RangeView,
    pub note: Seq<char>,
    pub status: ReservationStatus,
}

impl View for NewReservation {
    type V = NewReservationView;

    open spec fn view(&self) -> NewReservationView {
        NewReservationView {
            user_id: self.user_id@,
            resource_id: self.resource_id@,
            timespan: self.timespan@,
            note: self.note@,
            status: self.status,
        }
    }
}

impl NewReservationView {
    /// The row that the store is asked to take for `rsvp`: its user,
    /// resource and note, its window from start up to end, and its state, a
    /// number that stands for none being taken for `Pending`.
    pub open spec fn of(rsvp: ReservationView) -> NewReservationView {
        NewReservationView {
            user_id: rsvp.user_id,
            resource_id: rsvp.resource_id,
            timespan: RangeView::half_open(rsvp.start->0.instant(), rsvp.end->0.instant()),
            note: rsvp.note,
            status: status_or_pending(rsvp.status),
        }
    }
}

/// What the store is asked when reservations are listed.
#[derive(Debug)]
pub struct QueryRequest {
    pub user_id: Option<String>,
    pub resource_id: Option<String>,
    pub range: TimeRange,
    pub status: ReservationStatus,
    pub page: i32,
    pub page_size: i32,
    pub desc: bool,
}

/// The model of a `QueryRequest`.
pub struct QueryRequestView {
    pub user_id: Option<Seq<char>>,
    pub resource_id: Option<Seq<char>>,
    pub range: RangeView,
    pub status: ReservationStatus,
    pub page: i32,
    pub page_size: i32,
    pub desc: bool,
}

impl View for QueryRequest {
    type V = QueryRequestView;

    open spec fn view(&self) -> QueryRequestView {
        QueryRequestView {
            user_id: text_view(self.user_id),
            resource_id: text_view(self.resource_id),
            range: self.range@,
            status: self.status,
            page: self.page,
            page_size: self.page_size,
            desc: self.desc,
        }
    }
}

impl QueryRequestView {
    /// What the store is asked for `query`: a filter for each of user and
    /// resource that is not empty, the window from start up to end, the
    /// state, and page, page size and order as they came.
    pub open spec fn of(query: ReservationQueryView) -> QueryRequestView {
        QueryRequestView {
            user_id: filter_of(query.user_id),
            resource_id: filter_of(query.resource_id),
            range: RangeView::half_open(query.start->0.instant(), query.end->0.instant()),
            status: status_or_pending(query.status),
            page: query.page,
            page_size: query.page_size,
            desc: query.desc,
        }
    }
}

/// An owned copy of a filter.
fn owned_filter(filter: Option<&str>) -> (r: Option<String>)
    ensures
        text_view(r) == match filter {
            Some(t) => Some(t@),
            None => None,
        },
{
    match filter {
        Some(t) => Some(t.to_owned()),
        None => None,
    }
}

/// The row to ask the store to take for `rsvp`. A reservation that is not
/// valid gives the error of `validate` and no request: nothing goes to the
/// store.
pub fn insert_request(rsvp: &Reservation) -> (r: Result<NewReservation, Error>)
    ensures
        match r {
            Ok(request) => rsvp@.fault() is None && request@ == NewReservationView::of(rsvp@),
            Err(e) => rsvp@.fault() == Some(e@),
        },
{
    match rsvp.validate() {
        Ok(_) => {},
        Err(e) => {
            return Err(e);
        },
    }
    proof {
        lemma_window_has_instants(rsvp.start, rsvp.end);
    }
    let status = ReservationStatus::from_i32_or_pending(rsvp.status);
    let timespan = rsvp.get_timespan();
    Ok(
        NewReservation {
            user_id: rsvp.user_id.clone(),
            resource_id: rsvp.resource_id.clone(),
            timespan,
            note: rsvp.note.clone(),
            status,
        },
    )
}

/// What the caller of `reserve` gets once the store has answered: the
/// reservation under the identifier that the store gave it, or the error
/// that the failure of the store becomes.
pub fn reserved(rsvp: Reservation, outcome: Result<u128, StorageFailure>) -> (r: Result<
    Reservation,
    Error,
>)
    ensures
        match outcome {
            Ok(key) => r matches Ok(saved) && saved@ == rsvp@.with_id(uuid_text(key))
                && saved@.id.len() == ID_LENGTH && uuid_value(saved@.id) == Some(key),
            Err(failure) => r matches Err(e) && e@ == error_of_failure(failure@),
        },
{
    match outcome {
        Ok(key) => Ok(rsvp.with_id(reservation_id(key))),
        Err(failure) => Err(Error::from(failure)),
    }
}

/// What becomes of one row that the store was asked for.
pub open spec fn reservation_or_error(
    outcome: Result<StoredRowView, StorageFailureView>,
) -> Result<ReservationView, ErrorView> {
    match outcome {
        Ok(row) => match row.reservation() {
            Some(rsvp) => Ok(rsvp),
            None => Err(unbounded_row_error()),
        },
        Err(failure) => Err(error_of_failure(failure)),
    }
}

/// The view of what the store answered when asked for one row.
pub open spec fn row_outcome_view(outcome: Result<StoredRow, StorageFailure>) -> Result<
    StoredRowView,
    StorageFailureView,
> {
    match outcome {
        Ok(row) => Ok(row@),
        Err(failure) => Err(failure@),
    }
}

/// The view of what the caller gets when one reservation was asked for.
pub open spec fn reservation_result_view(r: Result<Reservation, Error>) -> Result<
    ReservationView,
    ErrorView,
> {
    match r {
        Ok(rsvp) => Ok(rsvp@),
        Err(e) => Err(e@),
    }
}

/// What the caller gets once the store has answered with one row: the
/// reservation that the row holds, or the error that the failure of the
/// store becomes.
pub fn fetched(outcome: Result<StoredRow, StorageFailure>) -> (r: Result<Reservation, Error>)
    ensures
        reservation_result_view(r) == reservation_or_error(row_outcome_view(outcome)),
        r matches Ok(rsvp) ==> rsvp@.id.len() == ID_LENGTH && uuid_value(rsvp@.id) == Some(
            outcome->Ok_0.id,
        ),
{
    match outcome {
        Ok(row) => match Reservation::from_row(&row) {
            Ok(rsvp) => Ok(rsvp),
            Err(failure) => Err(Error::from(failure)),
        },
        Err(failure) => Err(Error::from(failure)),
    }
}

/// What the caller of `delete` gets once the store has answered.
pub fn deleted(outcome: Result<(), StorageFailure>) -> (r: Result<(), Error>)
    ensures
        match outcome {
            Ok(_) => r is Ok,
            Err(failure) => r matches Err(e) && e@ == error_of_failure(failure@),
        },
{
    match outcome {
        Ok(_) => Ok(()),
        Err(failure) => Err(Error::from(failure)),
    }
}

/// What to ask the store for `query`. A question that lacks a time, or one
/// of whose times names no instant, gives `InvalidTime` and no request: there
/// is no range to ask about. Every other question goes to the store, also
/// one about a stretch of no length or one that ends before it starts: what
/// becomes of those is for the store to say.
pub fn query_request(query: &ReservationQuery) -> (r: Result<QueryRequest, Error>)
    ensures
        match r {
            Ok(request) => both_instants(query.start, query.end) && request@
                == QueryRequestView::of(query@),
            Err(e) => !both_instants(query.start, query.end) && e@ == ErrorView::InvalidTime,
        },
{
    if !have_instants(query.start, query.end) {
        return Err(Error::InvalidTime);
    }
    let user_id = owned_filter(str_to_option(query.user_id.as_str()));
    let resource_id = owned_filter(str_to_option(query.resource_id.as_str()));
    let range = query.get_timespan();
    let status = ReservationStatus::from_i32_or_pending(query.status);
    Ok(
        QueryRequest {
            user_id,
            resource_id,
            range,
            status,
            page: query.page,
            page_size: query.page_size,
            desc: query.desc,
        },
    )
}

/// Whether `found` holds the reservations of `rows`, one for one and in the
/// same order.
pub open spec fn holds_rows(found: Seq<Reservation>, rows: Seq<StoredRow>) -> bool {
    &&& found.len() == rows.len()
    &&& forall|i: int|
        0 <= i < rows.len() ==> rows[i]@.reservation() == Some(#[trigger] found[i]@)
            && found[i]@.id.len() == ID_LENGTH && uuid_value(found[i]@.id) == Some(rows[i].id)
}

/// The error that a row whose time span lacks an end becomes.
pub open spec fn unbounded_row_error() -> ErrorView {
    error_of_failure(StorageFailureView::Other(UNBOUNDED_TIMESPAN@))
}

/// The reservations that rows hold, in the order of the rows. A row whose
/// time span lacks an end fails the whole.
pub fn reservations_of_rows(rows: &Vec<StoredRow>) -> (r: Result<Vec<Reservation>, Error>)
    ensures
        match r {
            Ok(found) => holds_rows(found@, rows@),
            Err(e) => e@ == unbounded_row_error() && exists|i: int|
                0 <= i < rows.len() && #[trigger] rows[i]@.reservation() is None,
        },
{
    let mut found: Vec<Reservation> = Vec::new();
    let mut i: usize = 0;
    while i < rows.len()
        invariant
            i <= rows.len(),
            holds_rows(found@, rows@.take(i as int)),
        decreases rows.len() - i,
    {
        match Reservation::from_row(&rows[i]) {
            Ok(rsvp) => {
                found.push(rsvp);
            },
            Err(failure) => {
                assert(rows[i as int]@.reservation() is None);
                return Err(Error::from(failure));
            },
        }
        i = i + 1;
    }
    proof {
        assert(rows@.take(rows.len() as int) =~= rows@);
    }
    Ok(found)
}

/// What the caller of `query` gets once the store has answered: the
/// reservations that the rows hold, in the order of the rows, or the error
/// that the failure of the store becomes.
pub fn fetched_all(outcome: Result<Vec<StoredRow>, StorageFailure>) -> (r: Result<
    Vec<Reservation>,
    Error,
>)
    ensures
        match outcome {
            Ok(rows) => match r {
                Ok(found) => holds_rows(found@, rows@),
                Err(e) => e@ == unbounded_row_error() && exists|i: int|
                    0 <= i < rows.len() && #[trigger] rows[i]@.reservation() is None,
            },
            Err(failure) => r matches Err(e) && e@ == error_of_failure(failure@),
        },
{
    match outcome {
        Ok(rows) => reservations_of_rows(&rows),
        Err(failure) => Err(Error::from(failure)),
    }
}

} // verus!
