//! The reservation manager: what callers do with reservations.
//!
//! The manager holds no reservation itself. For each operation it checks
//! what the caller gave, asks the store, and turns the answer of the store
//! into the answer for the caller. What each operation does is stated over
//! the model of the table that the store keeps.

use crate::error::{error_of_failure, Error, ErrorView};
use crate::exchange::{
    deleted, fetched, fetched_all, holds_rows, insert_request, query_request,
    reservation_or_error, reservation_result_view, reserved, NewReservationView,
    QueryRequestView,
};
use crate::id::{reservation_key, uuid_text, uuid_value, ReservationId, ID_LENGTH};
use crate::query::{ReservationQuery, ReservationQueryView};
use crate::range::both_instants;
use crate::reservation::{Reservation, ReservationView, StoredRow, StoredRowView};
use crate::store::{rows_view, MemoryStore};
use crate::table::{lemma_query_rows_have_windows, TableView};
use vstd::prelude::*;

verus! {

/// What `reserve` makes of a table and a reservation. A reservation that is
/// not valid leaves the table as it is and gives its fault. A valid one goes
/// to the table: where the table takes it, the answer is the reservation
/// under its new identifier; where it does not, the answer is the error that
/// the failure becomes.
pub open spec fn reserve_model(table: TableView, rsvp: ReservationView) -> (
    TableView,
    Result<ReservationView, ErrorView>,
) {
    match rsvp.fault() {
        Some(e) => (table, Err(e)),
        None => {
            let (after, outcome) = table.insert(NewReservationView::of(rsvp));
            (
                after,
                match outcome {
                    Ok(key) => Ok(rsvp.with_id(uuid_text(key))),
                    Err(failure) => Err(error_of_failure(failure)),
                },
            )
        },
    }
}

/// What `change_status` makes of a table and an identifier.
pub open spec fn change_status_model(table: TableView, id: Seq<char>) -> (
    TableView,
    Result<ReservationView, ErrorView>,
) {
    match uuid_value(id) {
        None => (table, Err(ErrorView::InvalidReservationId(id))),
        Some(key) => {
            let (after, outcome) = table.confirm(key);
            (after, reservation_or_error(outcome))
        },
    }
}

/// What `update_note` makes of a table, an identifier and a note.
pub open spec fn update_note_model(table: TableView, id: Seq<char>, note: Seq<char>) -> (
    TableView,
    Result<ReservationView, ErrorView>,
) {
    match uuid_value(id) {
        None => (table, Err(ErrorView::InvalidReservationId(id))),
        Some(key) => {
            let (after, outcome) = table.update_note(key, note);
            (after, reservation_or_error(outcome))
        },
    }
}

/// What `delete` makes of a table and an identifier. Deleting a reservation
/// that is not there succeeds and changes nothing.
pub open spec fn delete_model(table: TableView, id: Seq<char>) -> (
    TableView,
    Result<(), ErrorView>,
) {
    match uuid_value(id) {
        None => (table, Err(ErrorView::InvalidReservationId(id))),
        Some(key) => (table.delete(key), Ok(())),
    }
}

/// What `get` finds in a table under an identifier.
pub open spec fn get_model(table: TableView, id: Seq<char>) -> Result<ReservationView, ErrorView> {
    match uuid_value(id) {
        None => Err(ErrorView::InvalidReservationId(id)),
        Some(key) => reservation_or_error(table.get(key)),
    }
}

/// The reservations that rows hold.
pub open spec fn reservations_of(rows: Seq<StoredRowView>) -> Seq<ReservationView> {
    rows.map_values(|row: StoredRowView| row.reservation()->0)
}

/// What `query` finds in a table. A question that lacks a time, or one of
/// whose times names no instant, is refused with `InvalidTime`. Every other
/// question goes to the table, and the answer is the reservations of the
/// rows that the table lists, or the error that its failure becomes.
pub open spec fn query_model(table: TableView, query: ReservationQueryView) -> Result<
    Seq<ReservationView>,
    ErrorView,
> {
    if !both_instants(query.start, query.end) {
        Err(ErrorView::InvalidTime)
    } else {
        match table.query(QueryRequestView::of(query)) {
            Ok(rows) => Ok(reservations_of(rows)),
            Err(failure) => Err(error_of_failure(failure)),
        }
    }
}

/// The models of a list of reservations.
pub open spec fn reservation_views(found: Seq<Reservation>) -> Seq<ReservationView> {
    found.map_values(|rsvp: Reservation| rsvp@)
}

/// The view of what the caller gets when reservations were listed.
pub open spec fn list_result_view(r: Result<Vec<Reservation>, Error>) -> Result<
    Seq<ReservationView>,
    ErrorView,
> {
    match r {
        Ok(found) => Ok(reservation_views(found@)),
        Err(e) => Err(e@),
    }
}

/// The view of what the caller gets when nothing but success was asked for.
pub open spec fn unit_result_view(r: Result<(), Error>) -> Result<(), ErrorView> {
    match r {
        Ok(_) => Ok(()),
        Err(e) => Err(e@),
    }
}

/// Reservations that hold rows, one for one, are the reservations of the
/// rows.
pub proof fn lemma_listing_answer(rows: Seq<StoredRow>, found: Seq<Reservation>)
    requires
        holds_rows(found, rows),
    ensures
        reservation_views(found) == reservations_of(rows_view(rows)),
{
    let listed = rows_view(rows);
    assert forall|i: int| 0 <= i < found.len() implies reservation_views(found)[i]
        == reservations_of(listed)[i] by {
        assert(rows[i]@.reservation() == Some(found[i]@));
        assert(listed[i] == rows[i]@);
    }
    assert(reservation_views(found) =~= reservations_of(listed));
}

/// What can be done with reservations.
///
/// Each operation does to the table what its model says, and leaves the
/// table well formed. A reservation that comes back carries an identifier
/// that is not empty and reads as the key of its row, so that it can be
/// asked for again.
pub trait Rsvp {
    /// The table of reservations behind this value.
    spec fn table(&self) -> TableView;

    /// Makes a reservation.
    fn reserve(&mut self, rsvp: Reservation) -> (r: Result<Reservation, Error>)
        ensures
            final(self).table().wf(),
            (final(self).table(), reservation_result_view(r)) == reserve_model(
                old(self).table(),
                rsvp@,
            ),
            r matches Ok(saved) ==> saved@.id.len() == ID_LENGTH && uuid_value(saved@.id) == Some(
                old(self).table().next_key,
            ),
    ;

    /// Confirms a reservation that is pending.
    fn change_status(&mut self, id: ReservationId) -> (r: Result<Reservation, Error>)
        ensures
            final(self).table().wf(),
            (final(self).table(), reservation_result_view(r)) == change_status_model(
                old(self).table(),
                id@,
            ),
            r matches Ok(found) ==> found@.id.len() == ID_LENGTH && uuid_value(found@.id)
                == uuid_value(id@),
    ;

    /// Writes a note into a reservation.
    fn update_note(&mut self, id: ReservationId, note: String) -> (r: Result<Reservation, Error>)
        ensures
            final(self).table().wf(),
            (final(self).table(), reservation_result_view(r)) == update_note_model(
                old(self).table(),
                id@,
                note@,
            ),
            r matches Ok(found) ==> found@.id.len() == ID_LENGTH && uuid_value(found@.id)
                == uuid_value(id@),
    ;

    /// Deletes a reservation.
    fn delete(&mut self, id: ReservationId) -> (r: Result<(), Error>)
        ensures
            final(self).table().wf(),
            (final(self).table(), unit_result_view(r)) == delete_model(old(self).table(), id@),
    ;

    /// Reads a reservation.
    fn get(&self, id: ReservationId) -> (r: Result<Reservation, Error>)
        ensures
            self.table().wf(),
            reservation_result_view(r) == get_model(self.table(), id@),
            r matches Ok(found) ==> found@.id.len() == ID_LENGTH && uuid_value(found@.id)
                == uuid_value(id@),
    ;

    /// Lists reservations.
    fn query(&self, query: ReservationQuery) -> (r: Result<Vec<Reservation>, Error>)
        ensures
            self.table().wf(),
            list_result_view(r) == query_model(self.table(), query@),
            r matches Ok(found) ==> found.len() == query_model(self.table(), query@)->Ok_0.len(),
            r matches Ok(found) ==> forall|i: int|
                0 <= i < found.len() ==> (#[trigger] found[i])@.id.len() == ID_LENGTH
                    && uuid_value(found[i]@.id) == Some(
                    self.table().query(QueryRequestView::of(query@))->Ok_0[i].id,
                ),
    ;
}

/// The manager of the reservations of one store.
#[derive(Debug)]
pub struct ReservationManager {
    store: MemoryStore,
}

impl View for ReservationManager {
    type V = TableView;

    closed spec fn view(&self) -> TableView {
        self.store@
    }
}

impl ReservationManager {
    /// The manager of the reservations that `store` holds.
    pub fn new(store: MemoryStore) -> (manager: ReservationManager)
        ensures
            manager@ == store@,
    {
        ReservationManager { store }
    }

    /// How many reservations the store holds.
    pub fn len(&self) -> (n: usize)
        ensures
            n == self@.rows.len(),
    {
        self.store.len()
    }
}

impl Rsvp for ReservationManager {
    open spec fn table(&self) -> TableView {
        self@
    }

    fn reserve(&mut self, rsvp: Reservation) -> (r: Result<Reservation, Error>) {
        let request = match insert_request(&rsvp) {
            Ok(request) => request,
            Err(e) => {
                proof {
                    use_type_invariant(&self.store);
                }
                return Err(e);
            },
        };
        let outcome = self.store.insert(request);
        reserved(rsvp, outcome)
    }

    fn change_status(&mut self, id: ReservationId) -> (r: Result<Reservation, Error>) {
        let key = match reservation_key(id.as_str()) {
            Ok(key) => key,
            Err(e) => {
                proof {
                    use_type_invariant(&self.store);
                }
                return Err(e);
            },
        };
        let outcome = self.store.confirm(key);
        fetched(outcome)
    }

    fn update_note(&mut self, id: ReservationId, note: String) -> (r: Result<Reservation, Error>) {
        let key = match reservation_key(id.as_str()) {
            Ok(key) => key,
            Err(e) => {
                proof {
                    use_type_invariant(&self.store);
                }
                return Err(e);
            },
        };
        let outcome = self.store.update_note(key, note);
        fetched(outcome)
    }

    fn delete(&mut self, id: ReservationId) -> (r: Result<(), Error>) {
        let key = match reservation_key(id.as_str()) {
            Ok(key) => key,
            Err(e) => {
                proof {
                    use_type_invariant(&self.store);
                }
                return Err(e);
            },
        };
        let outcome = self.store.delete(key);
        deleted(outcome)
    }

    fn get(&self, id: ReservationId) -> (r: Result<Reservation, Error>) {
        proof {
            use_type_invariant(&self.store);
        }
        let key = match reservation_key(id.as_str()) {
            Ok(key) => key,
            Err(e) => {
                return Err(e);
            },
        };
        let outcome = self.store.get(key);
        fetched(outcome)
    }

    fn query(&self, query: ReservationQuery) -> (r: Result<Vec<Reservation>, Error>) {
        proof {
            use_type_invariant(&self.store);
        }
        let request = match query_request(&query) {
            Ok(request) => request,
            Err(e) => {
                return Err(e);
            },
        };
        let outcome = self.store.query(&request);
        let ghost answer = outcome;
        let r = fetched_all(outcome);
        proof {
            if answer is Ok {
                let rows = answer->Ok_0@;
                lemma_query_rows_have_windows(self@, request@);
                assert forall|i: int| 0 <= i < rows.len() implies (
                #[trigger] rows[i])@.reservation() is Some by {
                    assert(rows_view(rows)[i] == rows[i]@);
                }
                if r is Ok {
                    lemma_listing_answer(rows, r->Ok_0@);
                }
            }
        }
        r
    }
}

} // verus!
