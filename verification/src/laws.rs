//! What holds of the manager whatever the table and whatever is asked.

use crate::conflict::{ConflictInfoView, ConflictView};
use crate::error::{ErrorView, StorageFailureView};
use crate::exchange::{NewReservationView, QueryRequestView};
use crate::id::{uuid_text, uuid_value};
use crate::manager::{
    change_status_model, delete_model, get_model, query_model, reservations_of, reserve_model,
    update_note_model,
};
use crate::query::ReservationQueryView;
use crate::range::{
    both_instants, in_stretch, lemma_overlap_is_a_common_instant, windows_overlap,
};
use crate::reservation::{ReservationView, StoredRowView};
use crate::status::{status_number, status_of_number, status_or_pending, ReservationStatus};
use crate::table::{
    answers, clashes, comes_before, first_clash, first_clash_at, found_at, in_order,
    lemma_confirm_keeps_wf, lemma_insert_keeps_wf, lemma_listed_holds, lemma_listed_in_order,
    lemma_listed_keys_differ, lemma_listed_len_ignores_order, lemma_page_is_a_stretch,
    lemma_page_of_listing, lemma_position_none, lemma_position_of_row,
    lemma_rows_have_valid_instants, lemma_some_clash_is_first, listed, page_len, page_of,
    page_skip, position, reported_window, row_of_request, window_of_row, TableView,
    BACKWARD_RANGE,
};
use crate::time::{lemma_instant_round_trip, lemma_wire_round_trip, wire_form, Instant};
use vstd::prelude::*;

verus! {

/// The window that a valid reservation asks for.
pub open spec fn asked_window(rsvp: ReservationView) -> (Instant, Instant) {
    (rsvp.start->0.instant(), rsvp.end->0.instant())
}

/// The two windows of a conflict that was refused, where the answer is such
/// a refusal and names them.
pub open spec fn refused_conflict(answer: Result<ReservationView, ErrorView>) -> Option<
    ConflictView,
> {
    match answer {
        Err(ErrorView::ConflictReservation(ConflictInfoView::Parsed(conflict))) => Some(conflict),
        _ => None,
    }
}

/// A reservation that is not valid never reaches the table: `reserve` gives
/// the fault and the table is as it was.
pub proof fn law_invalid_reservation_is_not_stored(table: TableView, rsvp: ReservationView)
    requires
        rsvp.fault() is Some,
    ensures
        reserve_model(table, rsvp) == (table, Err::<ReservationView, ErrorView>(rsvp.fault()->0)),
{
}

/// A reservation for a named user and a named resource whose window does
/// not start before it ends is refused with `InvalidTime`, by `validate` and
/// by `reserve`, and no row is stored.
pub proof fn law_backward_window_is_refused(table: TableView, rsvp: ReservationView)
    requires
        rsvp.user_id.len() > 0,
        rsvp.resource_id.len() > 0,
        rsvp.start is Some,
        rsvp.end is Some,
        !rsvp.start->0.instant().precedes(rsvp.end->0.instant()),
    ensures
        rsvp.fault() == Some(ErrorView::InvalidTime),
        reserve_model(table, rsvp) == (
            table,
            Err::<ReservationView, ErrorView>(ErrorView::InvalidTime),
        ),
{
}

/// A reservation that does not name its user or its resource is refused by
/// `reserve`, and the table is as it was.
pub proof fn law_unnamed_reservation_is_refused(table: TableView, rsvp: ReservationView)
    requires
        rsvp.user_id.len() == 0 || rsvp.resource_id.len() == 0,
    ensures
        reserve_model(table, rsvp).0 == table,
        reserve_model(table, rsvp).1 matches Err(e) && (e == ErrorView::InvalidUserId(rsvp.user_id)
            || e == ErrorView::InvalidResourceId(rsvp.resource_id)),
{
}

/// A valid reservation whose window has an instant in common with the
/// window of a row of the same resource is refused as a conflict, and the
/// table is as it was. The conflict names the window asked for and the
/// window of a row that stands in the way: the first such row of the table,
/// which is the row given where none before it stands in the way.
pub proof fn law_overlap_is_refused(table: TableView, rsvp: ReservationView, i: int)
    requires
        table.wf(),
        rsvp.fault() is None,
        0 <= i < table.rows.len(),
        clashes(table.rows[i], rsvp.resource_id, asked_window(rsvp)),
    ensures
        reserve_model(table, rsvp).0 == table,
        refused_conflict(reserve_model(table, rsvp).1) matches Some(conflict) && conflict.new
            == reported_window(rsvp.resource_id, asked_window(rsvp)) && conflict.exist.rid
            == rsvp.resource_id && exists|k: int|
            0 <= k <= i && clashes(#[trigger] table.rows[k], rsvp.resource_id, asked_window(rsvp))
                && conflict.exist == reported_window(
                rsvp.resource_id,
                window_of_row(table.rows[k]),
            ),
        (forall|j: int|
            0 <= j < i ==> !clashes(#[trigger] table.rows[j], rsvp.resource_id, asked_window(rsvp)))
            ==> refused_conflict(reserve_model(table, rsvp).1)->0.exist == reported_window(
            rsvp.resource_id,
            window_of_row(table.rows[i]),
        ),
{
    let window = asked_window(rsvp);
    let request = NewReservationView::of(rsvp);
    assert(request.timespan.window() == Some(window));
    lemma_some_clash_is_first(table.rows, rsvp.resource_id, window, i);
    let k = first_clash(table.rows, rsvp.resource_id, window)->0;
    assert(first_clash_at(table.rows, rsvp.resource_id, window, k));
    assert(clashes(table.rows[k], rsvp.resource_id, window));
    if forall|j: int| 0 <= j < i ==> !clashes(#[trigger] table.rows[j], rsvp.resource_id, window) {
        assert(k == i);
    }
}

/// A valid reservation whose window has no instant in common with the
/// window of any row of the same resource is taken, as long as the table has
/// a key left: it gets the next key, and the table holds one row more, the
/// row of the reservation.
pub proof fn law_free_window_is_taken(table: TableView, rsvp: ReservationView)
    requires
        table.wf(),
        rsvp.fault() is None,
        table.next_key < u128::MAX,
        forall|i: int|
            0 <= i < table.rows.len() ==> !clashes(
                #[trigger] table.rows[i],
                rsvp.resource_id,
                asked_window(rsvp),
            ),
    ensures
        reserve_model(table, rsvp).1 == Ok::<ReservationView, ErrorView>(
            rsvp.with_id(uuid_text(table.next_key)),
        ),
        reserve_model(table, rsvp).0.rows == table.rows.push(
            row_of_request(NewReservationView::of(rsvp), table.next_key),
        ),
{
    let window = asked_window(rsvp);
    let request = NewReservationView::of(rsvp);
    assert(request.timespan.window() == Some(window));
    assert(first_clash(table.rows, rsvp.resource_id, window) is None) by {
        if first_clash(table.rows, rsvp.resource_id, window) is Some {
            let k = choose|k: int| first_clash_at(table.rows, rsvp.resource_id, window, k);
            assert(clashes(table.rows[k], rsvp.resource_id, window));
        }
    }
}

/// Confirming a pending reservation gives the reservation as it was but
/// `Confirmed`, and confirming it again fails with `NotFound` and changes
/// nothing.
pub proof fn law_confirm_once(table: TableView, id: Seq<char>, i: int)
    requires
        table.wf(),
        0 <= i < table.rows.len(),
        uuid_value(id) == Some(table.rows[i].id),
        table.rows[i].status == ReservationStatus::Pending,
    ensures
        change_status_model(table, id).1 == Ok::<ReservationView, ErrorView>(
            ReservationView {
                status: status_number(ReservationStatus::Confirmed),
                ..table.rows[i].reservation()->0
            },
        ),
        change_status_model(change_status_model(table, id).0, id) == (
            change_status_model(table, id).0,
            Err::<ReservationView, ErrorView>(ErrorView::NotFound),
        ),
{
    let key = table.rows[i].id;
    lemma_position_of_row(table, i);
    let after = change_status_model(table, id).0;
    let row = StoredRowView { status: ReservationStatus::Confirmed, ..table.rows[i] };
    assert(after.rows == table.rows.update(i, row));
    lemma_confirm_keeps_wf(table, key);
    assert(after.rows[i].id == key);
    lemma_position_of_row(after, i);
}

/// Writing a note changes the note of the reservation and nothing else of
/// it, identifier included; every other row of the table stays as it was.
pub proof fn law_update_note_changes_the_note_only(
    table: TableView,
    id: Seq<char>,
    note: Seq<char>,
    i: int,
)
    requires
        table.wf(),
        0 <= i < table.rows.len(),
        uuid_value(id) == Some(table.rows[i].id),
    ensures
        update_note_model(table, id, note).1 == Ok::<ReservationView, ErrorView>(
            ReservationView { note, ..table.rows[i].reservation()->0 },
        ),
        update_note_model(table, id, note).0.rows.len() == table.rows.len(),
        forall|j: int|
            0 <= j < table.rows.len() && j != i ==> update_note_model(table, id, note).0.rows[j]
                == table.rows[j],
        update_note_model(table, id, note).0.rows[i] == (StoredRowView { note, ..table.rows[i] }),
{
    lemma_position_of_row(table, i);
}

/// Once a reservation has been deleted, `get` does not find it.
pub proof fn law_deleted_is_not_found(table: TableView, id: Seq<char>)
    requires
        table.wf(),
        uuid_value(id) is Some,
    ensures
        get_model(delete_model(table, id).0, id) == Err::<ReservationView, ErrorView>(
            ErrorView::NotFound,
        ),
{
    let key = uuid_value(id)->0;
    let after = table.delete(key);
    if position(table.rows, key) is Some {
        let i = position(table.rows, key)->0;
        assert(found_at(table.rows, key, i));
        assert(after.rows == table.rows.remove(i));
        assert forall|j: int| 0 <= j < after.rows.len() implies (#[trigger] after.rows[j]).id
            != key by {
            if j < i {
                assert(after.rows[j] == table.rows[j]);
            } else {
                assert(after.rows[j] == table.rows[j + 1]);
                assert(table.rows[i].id != table.rows[j + 1].id);
            }
        }
        lemma_position_none(after.rows, key);
    } else {
        assert(after == table);
    }
}

/// Deleting a reservation that is not there succeeds and changes nothing.
pub proof fn law_delete_of_nothing_succeeds(table: TableView, id: Seq<char>)
    requires
        uuid_value(id) is Some,
        !table.holds(uuid_value(id)->0),
    ensures
        delete_model(table, id) == (table, Ok::<(), ErrorView>(())),
{
}

/// A reservation that was taken is found under the identifier it was given,
/// and what is found is what `reserve` answered, provided the state of the
/// reservation was the number of a state.
pub proof fn law_reserved_is_found(table: TableView, rsvp: ReservationView, id: Seq<char>)
    requires
        table.wf(),
        reserve_model(table, rsvp).1 is Ok,
        uuid_value(id) == Some(table.next_key),
        status_of_number(rsvp.status) is Some,
    ensures
        get_model(reserve_model(table, rsvp).0, id) == reserve_model(table, rsvp).1,
{
    let after = reserve_model(table, rsvp).0;
    let request = NewReservationView::of(rsvp);
    lemma_insert_keeps_wf(table, request);
    let n = table.rows.len() as int;
    assert(after.rows == table.rows.push(row_of_request(request, table.next_key)));
    assert(after.rows[n].id == table.next_key);
    lemma_position_of_row(after, n);
    lemma_wire_round_trip(rsvp.start->0);
    lemma_wire_round_trip(rsvp.end->0);
}

/// Only a pending reservation can be confirmed: for one in any other state,
/// and for one that is not there, `change_status` fails with `NotFound` and
/// the table is as it was.
pub proof fn law_confirm_needs_pending(table: TableView, id: Seq<char>)
    requires
        table.wf(),
        uuid_value(id) matches Some(key) && (table.holds(key) ==> table.row(key).status
            != ReservationStatus::Pending),
    ensures
        change_status_model(table, id) == (
            table,
            Err::<ReservationView, ErrorView>(ErrorView::NotFound),
        ),
{
}

/// `update_note` and `get` fail with `NotFound` for a reservation that is
/// not there.
pub proof fn law_missing_is_not_found(table: TableView, id: Seq<char>, note: Seq<char>)
    requires
        uuid_value(id) matches Some(key) && !table.holds(key),
    ensures
        update_note_model(table, id, note) == (
            table,
            Err::<ReservationView, ErrorView>(ErrorView::NotFound),
        ),
        get_model(table, id) == Err::<ReservationView, ErrorView>(ErrorView::NotFound),
{
}

/// A text that is no identifier is refused by every operation that takes
/// one, and the table is as it was.
pub proof fn law_ill_formed_id_is_refused(table: TableView, id: Seq<char>, note: Seq<char>)
    requires
        uuid_value(id) is None,
    ensures
        change_status_model(table, id) == (
            table,
            Err::<ReservationView, ErrorView>(ErrorView::InvalidReservationId(id)),
        ),
        update_note_model(table, id, note) == (
            table,
            Err::<ReservationView, ErrorView>(ErrorView::InvalidReservationId(id)),
        ),
        delete_model(table, id) == (
            table,
            Err::<(), ErrorView>(ErrorView::InvalidReservationId(id)),
        ),
        get_model(table, id) == Err::<ReservationView, ErrorView>(
            ErrorView::InvalidReservationId(id),
        ),
{
}

/// The stretch that a question with two instants asks about.
pub open spec fn asked_stretch(query: ReservationQueryView) -> (Instant, Instant) {
    (query.start->0.instant(), query.end->0.instant())
}

/// Whether a question can be answered: it has two instants, and the stretch
/// from the first to the second does not end before it starts.
pub open spec fn answerable(query: ReservationQueryView) -> bool {
    both_instants(query.start, query.end) && !asked_stretch(query).1.precedes(
        asked_stretch(query).0,
    )
}

/// All the rows of a table that answer a question, in the order asked for.
pub open spec fn all_answers(table: TableView, query: ReservationQueryView) -> Seq<StoredRowView> {
    listed(table.rows, QueryRequestView::of(query), asked_stretch(query))
}

/// The rows that the table lists for a question that can be answered.
pub open spec fn page_rows(table: TableView, query: ReservationQueryView) -> Seq<StoredRowView> {
    table.query(QueryRequestView::of(query))->Ok_0
}

/// A question that lacks a time, or one of whose times names no instant, is
/// refused with `InvalidTime`.
pub proof fn law_query_needs_two_instants(table: TableView, query: ReservationQueryView)
    requires
        !both_instants(query.start, query.end),
    ensures
        query_model(table, query) == Err::<Seq<ReservationView>, ErrorView>(
            ErrorView::InvalidTime,
        ),
{
}

/// A question about a stretch that ends before it starts is handed to the
/// store, and what comes of it is a failure of the store, not `InvalidTime`.
pub proof fn law_query_about_a_backward_stretch_fails(table: TableView, query: ReservationQueryView)
    requires
        both_instants(query.start, query.end),
        asked_stretch(query).1.precedes(asked_stretch(query).0),
    ensures
        query_model(table, query) == Err::<Seq<ReservationView>, ErrorView>(
            ErrorView::StorageError(StorageFailureView::Other(BACKWARD_RANGE@)),
        ),
{
}

/// A question about a stretch of no length is answered with the empty list,
/// not with an error: no row has an instant in common with such a stretch.
pub proof fn law_query_about_no_length_is_empty(table: TableView, query: ReservationQueryView)
    requires
        table.wf(),
        both_instants(query.start, query.end),
        query.start->0.instant() == query.end->0.instant(),
    ensures
        query_model(table, query) == Ok::<Seq<ReservationView>, ErrorView>(Seq::empty()),
{
    assert forall|row: StoredRowView| table.rows.contains(row) implies !answers(
        row,
        QueryRequestView::of(query),
        asked_stretch(query),
    ) by {}
    law_query_without_answers_is_empty(table, query);
}

/// What `query` lists. For a question that can be answered the answer is a
/// list, never an error: the reservations of one page of all the rows that
/// answer it. Every row listed is a row of the table that answers the
/// question: it is of the user and the resource asked for, where one is
/// asked for, in the state asked for, and its window has an instant in
/// common with the stretch asked about. No row is listed twice. The rows are
/// in the order asked for. And the first page, where it is large enough,
/// lists every row that answers the question.
pub proof fn law_query_lists_the_answers(table: TableView, query: ReservationQueryView)
    requires
        table.wf(),
        answerable(query),
    ensures
        table.query(QueryRequestView::of(query)) is Ok,
        query_model(table, query) == Ok::<Seq<ReservationView>, ErrorView>(
            reservations_of(page_rows(table, query)),
        ),
        page_rows(table, query) == page_of(all_answers(table, query), query.page, query.page_size),
        in_order(page_rows(table, query), query.desc),
        forall|row: StoredRowView| #[trigger]
            page_rows(table, query).contains(row) ==> table.rows.contains(row) && answers(
                row,
                QueryRequestView::of(query),
                asked_stretch(query),
            ),
        forall|a: int, b: int|
            0 <= a < b < page_rows(table, query).len() ==> (#[trigger] page_rows(
                table,
                query,
            )[a]).id != (#[trigger] page_rows(table, query)[b]).id,
        query.page <= 1 && all_answers(table, query).len() <= query.page_size
            ==> forall|row: StoredRowView|
            table.rows.contains(row) && answers(
                row,
                QueryRequestView::of(query),
                asked_stretch(query),
            ) ==> #[trigger] page_rows(table, query).contains(row),
{
    let question = QueryRequestView::of(query);
    let asked = asked_stretch(query);
    assert(question.range.stretch() == Some(asked));
    let all = all_answers(table, query);
    let rows = table.query(question)->Ok_0;
    lemma_listed_in_order(table.rows, question, asked);
    lemma_listed_keys_differ(table.rows, question, asked);
    lemma_page_of_listing(all, question.page, question.page_size, question.desc);
    lemma_page_is_part(all, question.page, question.page_size);
    assert forall|row: StoredRowView| #[trigger] rows.contains(row) implies table.rows.contains(
        row,
    ) && answers(row, question, asked) by {
        assert(all.contains(row));
        lemma_listed_holds(table.rows, question, asked, row);
    }
    if query.page <= 1 && all.len() <= query.page_size {
        assert(rows == all);
        assert forall|row: StoredRowView|
            table.rows.contains(row) && answers(
                row,
                question,
                asked,
            ) implies #[trigger] rows.contains(row) by {
            lemma_listed_holds(table.rows, question, asked, row);
        }
    }
}

/// The page that `query` gives is the stretch of all the answers that its
/// number and its size name: for a page from one on and a size of one or
/// more, the reservations of the answers from behind the pages in front of
/// it up to the end of the page or of the answers, whichever comes first. It
/// holds no more than the size says, it is empty where the answers end
/// before the page begins, and the first page begins with the first answer.
pub proof fn law_query_gives_the_page_asked_for(table: TableView, query: ReservationQueryView)
    requires
        table.wf(),
        answerable(query),
        query.page >= 1,
        query.page_size >= 1,
    ensures
        query_model(table, query) == Ok::<Seq<ReservationView>, ErrorView>(
            reservations_of(page_rows(table, query)),
        ),
        page_rows(table, query).len() <= query.page_size,
        (query.page - 1) * query.page_size >= all_answers(table, query).len() ==> page_rows(
            table,
            query,
        ).len() == 0,
        (query.page - 1) * query.page_size < all_answers(table, query).len() ==> page_rows(
            table,
            query,
        ) == all_answers(table, query).subrange(
            (query.page - 1) * query.page_size,
            if query.page * query.page_size < all_answers(table, query).len() {
                query.page * query.page_size
            } else {
                all_answers(table, query).len() as int
            },
        ),
        query.page == 1 && all_answers(table, query).len() > 0 ==> page_rows(table, query).len()
            > 0 && page_rows(table, query)[0] == all_answers(table, query)[0],
{
    law_query_lists_the_answers(table, query);
    lemma_page_is_a_stretch(all_answers(table, query), query.page, query.page_size);
    if query.page == 1 && all_answers(table, query).len() > 0 {
        assert(0 * query.page_size == 0);
    }
}

/// The reservations that `query` gives are in the order of their own start
/// times: none starts earlier than one before it in the list, or, where the
/// later are asked for first, none starts later than one before it.
pub proof fn law_query_is_in_order_of_start(
    table: TableView,
    query: ReservationQueryView,
    i: int,
    j: int,
)
    requires
        table.wf(),
        answerable(query),
        query_model(table, query) matches Ok(found) && 0 <= i < j < found.len(),
    ensures
        query_model(table, query) matches Ok(found) && found[i].start is Some
            && found[j].start is Some && found[i].start->0.valid() && found[j].start->0.valid()
            && if query.desc {
            !found[i].start->0.instant().precedes(found[j].start->0.instant())
        } else {
            !found[j].start->0.instant().precedes(found[i].start->0.instant())
        },
{
    law_query_lists_the_answers(table, query);
    let rows = table.query(QueryRequestView::of(query))->Ok_0;
    lemma_listed_row_is_a_row(table, rows, i);
    lemma_listed_row_is_a_row(table, rows, j);
    assert(!comes_before(rows[j], rows[i], query.desc));
    lemma_instant_round_trip(window_of_row(rows[i]).0);
    lemma_instant_round_trip(window_of_row(rows[j]).0);
}

/// Asked for the later first or for the earlier first, `query` gives the
/// same reservations, none of them twice, where they all fit in the first
/// page.
pub proof fn law_query_orders_give_the_same(
    table: TableView,
    query: ReservationQueryView,
    other: ReservationQueryView,
)
    requires
        table.wf(),
        answerable(query),
        other == (ReservationQueryView { desc: !query.desc, ..query }),
        query.page <= 1,
        all_answers(table, query).len() <= query.page_size,
    ensures
        table.query(QueryRequestView::of(query)) is Ok,
        table.query(QueryRequestView::of(other)) is Ok,
        page_rows(table, query).len() == page_rows(table, other).len(),
        forall|row: StoredRowView|
            page_rows(table, query).contains(row) <==> page_rows(table, other).contains(row),
        forall|a: int, b: int|
            0 <= a < b < page_rows(table, query).len() ==> (#[trigger] page_rows(
                table,
                query,
            )[a]).id != (#[trigger] page_rows(table, query)[b]).id,
{
    let question = QueryRequestView::of(query);
    let reversed = QueryRequestView::of(other);
    let asked = asked_stretch(query);
    assert(reversed == (QueryRequestView { desc: !question.desc, ..question }));
    lemma_listed_len_ignores_order(table.rows, question, reversed, asked);
    law_query_lists_the_answers(table, query);
    law_query_lists_the_answers(table, other);
    let rows = table.query(question)->Ok_0;
    let others = table.query(reversed)->Ok_0;
    assert forall|row: StoredRowView| rows.contains(row) <==> others.contains(row) by {
        lemma_listed_holds(table.rows, question, asked, row);
        lemma_listed_holds(table.rows, reversed, asked, row);
    }
}

/// With no user and no resource asked for, `query` lists the reservations
/// of every user and of every resource: a row is listed on the first page,
/// where that is large enough, as soon as it is in the state asked for and
/// its window has an instant in common with the stretch asked about.
pub proof fn law_query_without_filters_lists_all(
    table: TableView,
    query: ReservationQueryView,
    i: int,
)
    requires
        table.wf(),
        answerable(query),
        query.user_id.len() == 0,
        query.resource_id.len() == 0,
        query.page <= 1,
        all_answers(table, query).len() <= query.page_size,
        0 <= i < table.rows.len(),
        table.rows[i].status == status_or_pending(query.status),
        windows_overlap(window_of_row(table.rows[i]), asked_stretch(query)),
    ensures
        page_rows(table, query).contains(table.rows[i]),
        query_model(table, query) matches Ok(found) && found.contains(
            table.rows[i].reservation()->0,
        ),
{
    law_query_lists_the_answers(table, query);
    let rows = table.query(QueryRequestView::of(query))->Ok_0;
    assert(table.rows.contains(table.rows[i]));
    assert(rows.contains(table.rows[i]));
    let k = choose|k: int| 0 <= k < rows.len() && rows[k] == table.rows[i];
    assert(reservations_of(rows)[k] == table.rows[i].reservation()->0);
}

/// Where no row answers the question, `query` gives the empty list, not an
/// error.
pub proof fn law_query_without_answers_is_empty(table: TableView, query: ReservationQueryView)
    requires
        table.wf(),
        answerable(query),
        forall|row: StoredRowView|
            table.rows.contains(row) ==> !answers(
                row,
                QueryRequestView::of(query),
                asked_stretch(query),
            ),
    ensures
        query_model(table, query) == Ok::<Seq<ReservationView>, ErrorView>(Seq::empty()),
{
    law_query_lists_the_answers(table, query);
    let rows = table.query(QueryRequestView::of(query))->Ok_0;
    if rows.len() > 0 {
        assert(rows.contains(rows[0]));
    }
    assert(reservations_of(rows) =~= Seq::<ReservationView>::empty());
}

/// A row that `query` lists is a row of the table, with a window whose ends
/// are valid instants, and the reservation listed for it starts and ends at
/// those instants.
proof fn lemma_listed_row_is_a_row(table: TableView, rows: Seq<StoredRowView>, i: int)
    requires
        table.wf(),
        0 <= i < rows.len(),
        forall|row: StoredRowView| #[trigger] rows.contains(row) ==> table.rows.contains(row),
    ensures
        rows[i].timespan.window() is Some,
        window_of_row(rows[i]).0.valid(),
        window_of_row(rows[i]).1.valid(),
        reservations_of(rows)[i].start == Some(wire_form(window_of_row(rows[i]).0)),
        reservations_of(rows)[i].end == Some(wire_form(window_of_row(rows[i]).1)),
{
    assert(rows.contains(rows[i]));
    let k = choose|k: int| 0 <= k < table.rows.len() && table.rows[k] == rows[i];
    lemma_rows_have_valid_instants(table, k);
}

/// A page holds no two rows with one key where the listing holds none.
proof fn lemma_page_is_part(rows: Seq<StoredRowView>, page: i32, page_size: i32)
    requires
        forall|a: int, b: int|
            0 <= a < b < rows.len() ==> (#[trigger] rows[a]).id != (#[trigger] rows[b]).id,
    ensures
        forall|a: int, b: int|
            0 <= a < b < page_of(rows, page, page_size).len() ==> (#[trigger] page_of(
                rows,
                page,
                page_size,
            )[a]).id != (#[trigger] page_of(rows, page, page_size)[b]).id,
{
    let part = page_of(rows, page, page_size);
    let skip = page_skip(page, page_size);
    assert(skip >= 0) by (nonlinear_arith)
        requires
            skip == if page < 1 {
                0
            } else {
                (page - 1) * page_len(page_size)
            },
            page_len(page_size) >= 0,
    ;
    let from = if skip < rows.len() {
        skip
    } else {
        rows.len() as int
    };
    assert forall|a: int, b: int| 0 <= a < b < part.len() implies (#[trigger] part[a]).id != (
    #[trigger] part[b]).id by {
        assert(part[a] == rows[from + a]);
        assert(part[b] == rows[from + b]);
    }
}

/// No instant is reserved twice: no two rows of one resource have windows
/// with an instant in common.
pub proof fn law_windows_of_a_resource_are_apart(table: TableView, i: int, j: int)
    requires
        table.wf(),
        0 <= i < table.rows.len(),
        0 <= j < table.rows.len(),
        i != j,
        table.rows[i].resource_id == table.rows[j].resource_id,
    ensures
        !windows_overlap(window_of_row(table.rows[i]), window_of_row(table.rows[j])),
        forall|at: Instant|
            !(in_stretch(at, window_of_row(table.rows[i])) && in_stretch(
                at,
                window_of_row(table.rows[j]),
            )),
{
    if i < j {
        assert(!clashes(table.rows[i], table.rows[j].resource_id, window_of_row(table.rows[j])));
    } else {
        assert(!clashes(table.rows[j], table.rows[i].resource_id, window_of_row(table.rows[i])));
    }
    lemma_overlap_is_a_common_instant(
        window_of_row(table.rows[i]),
        window_of_row(table.rows[j]),
    );
}

} // verus!
