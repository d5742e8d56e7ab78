//! A store of reservations that lives in memory.
//!
//! It keeps the table of reservations as a list of rows and does to it what
//! the model of the table says. Whatever is done to it, the table stays
//! well formed: no two rows of one resource ever have windows with an instant
//! in common.

use crate::conflict::{ReservationConflict, ReservationWindow};
use crate::error::{StorageFailure, StorageFailureView};
use crate::exchange::{row_outcome_view, NewReservation, QueryRequest};
use crate::reservation::{StoredRow, StoredRowView};
use crate::status::ReservationStatus;
use crate::table::{
    answers, clashes, comes_before, first_clash, first_clash_at, found_at, lemma_confirm_keeps_wf,
    lemma_delete_keeps_wf, lemma_first_clash_unique, lemma_found_at_unique,
    lemma_insert_keeps_wf, lemma_slot_exists, lemma_slot_unique, lemma_update_note_keeps_wf,
    listed, page_len, page_skip, position, reported_window, row_of_request, slot, slot_at,
    window_of_row, TableView, BACKWARD_RANGE, NOT_A_STRETCH, NOT_A_WINDOW, OUT_OF_KEYS,
};
use crate::text::text_view;
use crate::time::UtcTime;
use vstd::prelude::*;

verus! {

/// The models of a list of rows.
pub open spec fn rows_view(rows: Seq<StoredRow>) -> Seq<StoredRowView> {
    rows.map_values(|row: StoredRow| row@)
}

/// The view of what the store answers when it gives out a key.
pub open spec fn key_outcome_view(outcome: Result<u128, StorageFailure>) -> Result<
    u128,
    StorageFailureView,
> {
    match outcome {
        Ok(key) => Ok(key),
        Err(failure) => Err(failure@),
    }
}

/// The table of reservations, held in memory.
#[derive(Debug)]
pub struct MemoryStore {
    rows: Vec<StoredRow>,
    next_key: u128,
}

impl View for MemoryStore {
    type V = TableView;

    closed spec fn view(&self) -> TableView {
        TableView { rows: rows_view(self.rows@), next_key: self.next_key }
    }
}

impl MemoryStore {
    /// What holds of every store: its table is well formed.
    #[verifier::type_invariant]
    pub open spec fn well_formed(self) -> bool {
        self@.wf()
    }

    /// A store with an empty table.
    pub fn new() -> (store: MemoryStore)
        ensures
            store@ == TableView::empty(),
            store@.wf(),
    {
        let store = MemoryStore { rows: Vec::new(), next_key: 0 };
        proof {
            assert(rows_view(store.rows@) =~= Seq::<StoredRowView>::empty());
        }
        store
    }

    /// How many rows the table holds.
    pub fn len(&self) -> (n: usize)
        ensures
            n == self@.rows.len(),
            self@.wf(),
    {
        proof {
            use_type_invariant(self);
        }
        self.rows.len()
    }

    /// Where the row with key `key` stands.
    fn find(&self, key: u128) -> (r: Option<usize>)
        ensures
            self@.wf(),
            match r {
                Some(i) => position(self@.rows, key) == Some(i as int) && i < self.rows.len(),
                None => position(self@.rows, key) is None,
            },
    {
        proof {
            use_type_invariant(self);
        }
        let mut i: usize = 0;
        while i < self.rows.len()
            invariant
                i <= self.rows.len(),
                self@.wf(),
                forall|j: int| 0 <= j < i ==> (#[trigger] self@.rows[j]).id != key,
            decreases self.rows.len() - i,
        {
            if self.rows[i].id == key {
                proof {
                    assert(self@.rows[i as int].id == key);
                    assert(found_at(self@.rows, key, i as int));
                    let k = choose|k: int| found_at(self@.rows, key, k);
                    lemma_found_at_unique(self@.rows, key, i as int, k);
                }
                return Some(i);
            }
            i = i + 1;
        }
        None
    }

    /// The window of the first row that stands in the way of a window on a
    /// resource.
    fn find_clash(&self, resource: &String, start: &UtcTime, end: &UtcTime) -> (r: Option<
        ReservationWindow,
    >)
        requires
            start@.precedes(end@),
        ensures
            self@.wf(),
            match r {
                Some(exist) => first_clash(self@.rows, resource@, (start@, end@)) matches Some(i)
                    && exist@ == reported_window(
                    self@.rows[i].resource_id,
                    window_of_row(self@.rows[i]),
                ),
                None => first_clash(self@.rows, resource@, (start@, end@)) is None,
            },
    {
        proof {
            use_type_invariant(self);
        }
        let ghost window = (start@, end@);
        let mut i: usize = 0;
        while i < self.rows.len()
            invariant
                i <= self.rows.len(),
                self@.wf(),
                window == (start@, end@),
                start@.precedes(end@),
                forall|j: int| 0 <= j < i ==> !clashes(#[trigger] self@.rows[j], resource@, window),
            decreases self.rows.len() - i,
        {
            let row = &self.rows[i];
            proof {
                assert(self@.rows[i as int] == row@);
                assert(row@.timespan.window() is Some);
            }
            if row.resource_id == *resource {
                match row.timespan.window() {
                    Some((s, e)) => {
                        if s.is_before(end) && start.is_before(&e) {
                            proof {
                                assert(window_of_row(self@.rows[i as int]) == (s@, e@));
                                assert(clashes(self@.rows[i as int], resource@, window));
                                assert(first_clash_at(self@.rows, resource@, window, i as int));
                                let k = choose|k: int|
                                    first_clash_at(self@.rows, resource@, window, k);
                                lemma_first_clash_unique(
                                    self@.rows,
                                    resource@,
                                    window,
                                    i as int,
                                    k,
                                );
                            }
                            let rid = row.resource_id.clone();
                            return Some(ReservationWindow { rid, start: s, end: e });
                        }
                    },
                    None => {},
                }
            }
            i = i + 1;
        }
        None
    }

    /// Hands out the rows and leaves the table empty, so that the rows can be
    /// changed and put back.
    fn take_rows(&mut self) -> (rows: Vec<StoredRow>)
        ensures
            rows == old(self).rows,
            final(self).rows@.len() == 0,
            final(self).next_key == old(self).next_key,
    {
        let mut rows: Vec<StoredRow> = Vec::new();
        proof {
            assert(rows_view(rows@) =~= Seq::<StoredRowView>::empty());
        }
        core::mem::swap(&mut self.rows, &mut rows);
        rows
    }

    /// Puts rows into a table that was left empty.
    fn put_rows(&mut self, rows: Vec<StoredRow>)
        requires
            old(self).rows@.len() == 0,
            (TableView { rows: rows_view(rows@), next_key: old(self).next_key }).wf(),
        ensures
            final(self).rows == rows,
            final(self).next_key == old(self).next_key,
    {
        let mut rows = rows;
        core::mem::swap(&mut self.rows, &mut rows);
    }

    /// Takes a row. See `TableView::insert`.
    pub fn insert(&mut self, request: NewReservation) -> (r: Result<u128, StorageFailure>)
        ensures
            old(self)@.wf(),
            final(self)@.wf(),
            (final(self)@, key_outcome_view(r)) == old(self)@.insert(request@),
    {
        proof {
            use_type_invariant(&*self);
        }
        let (start, end) = match request.timespan.window() {
            Some(window) => window,
            None => {
                return Err(StorageFailure::Other(NOT_A_WINDOW.to_owned()));
            },
        };
        match self.find_clash(&request.resource_id, &start, &end) {
            Some(exist) => {
                let new = ReservationWindow { rid: request.resource_id, start, end };
                return Err(StorageFailure::Conflict(ReservationConflict { new, exist }));
            },
            None => {},
        }
        if self.next_key == u128::MAX {
            return Err(StorageFailure::Other(OUT_OF_KEYS.to_owned()));
        }
        let key = self.next_key;
        let row = StoredRow {
            id: key,
            user_id: request.user_id,
            resource_id: request.resource_id,
            timespan: request.timespan,
            note: request.note,
            status: request.status,
        };
        proof {
            assert(row@ == row_of_request(request@, key));
            assert(rows_view(self.rows@.push(row)) =~= self@.rows.push(row@));
            lemma_insert_keeps_wf(self@, request@);
        }
        let mut rows = self.take_rows();
        rows.push(row);
        self.next_key = key + 1;
        self.put_rows(rows);
        Ok(key)
    }

    /// Confirms a row. See `TableView::confirm`.
    pub fn confirm(&mut self, key: u128) -> (r: Result<StoredRow, StorageFailure>)
        ensures
            old(self)@.wf(),
            final(self)@.wf(),
            (final(self)@, row_outcome_view(r)) == old(self)@.confirm(key),
    {
        let i = match self.find(key) {
            Some(i) => i,
            None => {
                return Err(StorageFailure::RowNotFound);
            },
        };
        if self.rows[i].status != ReservationStatus::Pending {
            return Err(StorageFailure::RowNotFound);
        }
        let mut row = self.rows[i].clone();
        row.status = ReservationStatus::Confirmed;
        let answer = row.clone();
        proof {
            let before = self@;
            assert(before.rows[i as int] == self.rows[i as int]@);
            assert(rows_view(self.rows@.update(i as int, row)) =~= before.rows.update(
                i as int,
                row@,
            ));
            lemma_confirm_keeps_wf(before, key);
        }
        let mut rows = self.take_rows();
        rows.set(i, row);
        self.put_rows(rows);
        Ok(answer)
    }

    /// Writes a note into a row. See `TableView::update_note`.
    pub fn update_note(&mut self, key: u128, note: String) -> (r: Result<
        StoredRow,
        StorageFailure,
    >)
        ensures
            old(self)@.wf(),
            final(self)@.wf(),
            (final(self)@, row_outcome_view(r)) == old(self)@.update_note(key, note@),
    {
        let i = match self.find(key) {
            Some(i) => i,
            None => {
                return Err(StorageFailure::RowNotFound);
            },
        };
        let mut row = self.rows[i].clone();
        row.note = note;
        let answer = row.clone();
        proof {
            let before = self@;
            assert(before.rows[i as int] == self.rows[i as int]@);
            assert(rows_view(self.rows@.update(i as int, row)) =~= before.rows.update(
                i as int,
                row@,
            ));
            lemma_update_note_keeps_wf(before, key, note@);
        }
        let mut rows = self.take_rows();
        rows.set(i, row);
        self.put_rows(rows);
        Ok(answer)
    }

    /// Deletes a row. See `TableView::delete`.
    pub fn delete(&mut self, key: u128) -> (r: Result<(), StorageFailure>)
        ensures
            old(self)@.wf(),
            final(self)@.wf(),
            r is Ok,
            final(self)@ == old(self)@.delete(key),
    {
        let i = match self.find(key) {
            Some(i) => i,
            None => {
                return Ok(());
            },
        };
        proof {
            let before = self@;
            assert(rows_view(self.rows@.remove(i as int)) =~= before.rows.remove(i as int));
            lemma_delete_keeps_wf(before, key);
        }
        let mut rows = self.take_rows();
        rows.remove(i);
        self.put_rows(rows);
        Ok(())
    }

    /// Reads a row. See `TableView::get`.
    pub fn get(&self, key: u128) -> (r: Result<StoredRow, StorageFailure>)
        ensures
            self@.wf(),
            row_outcome_view(r) == self@.get(key),
    {
        match self.find(key) {
            Some(i) => {
                proof {
                    assert(self@.rows[i as int] == self.rows[i as int]@);
                }
                Ok(self.rows[i].clone())
            },
            None => Err(StorageFailure::RowNotFound),
        }
    }
}

/// The view of what the store answers when it lists rows.
pub open spec fn rows_outcome_view(outcome: Result<Vec<StoredRow>, StorageFailure>) -> Result<
    Seq<StoredRowView>,
    StorageFailureView,
> {
    match outcome {
        Ok(rows) => Ok(rows_view(rows@)),
        Err(failure) => Err(failure@),
    }
}

/// Whether a filter lets a text through.
fn passes(filter: &Option<String>, text: &String) -> (r: bool)
    ensures
        r == (text_view(*filter) matches Some(wanted) ==> text@ == wanted),
{
    match filter {
        Some(wanted) => *text == *wanted,
        None => true,
    }
}

/// Whether a row with a window answers a question about a stretch.
fn row_answers(row: &StoredRow, question: &QueryRequest, start: &UtcTime, end: &UtcTime) -> (r:
    bool)
    requires
        row@.timespan.window() is Some,
    ensures
        r == answers(row@, question@, (start@, end@)),
{
    if !start.is_before(end) {
        return false;
    }
    if !passes(&question.user_id, &row.user_id) {
        return false;
    }
    if !passes(&question.resource_id, &row.resource_id) {
        return false;
    }
    if row.status != question.status {
        return false;
    }
    match row.timespan.window() {
        Some((s, e)) => s.is_before(end) && start.is_before(&e),
        None => false,
    }
}

/// Whether `a` has to stand before `b` in a listing.
fn row_comes_before(a: &StoredRow, b: &StoredRow, desc: bool) -> (r: bool)
    requires
        a@.timespan.window() is Some,
        b@.timespan.window() is Some,
    ensures
        r == comes_before(a@, b@, desc),
{
    match (a.timespan.window(), b.timespan.window()) {
        (Some((a_start, _)), Some((b_start, _))) => {
            if desc {
                b_start.is_before(&a_start)
            } else {
                a_start.is_before(&b_start)
            }
        },
        _ => false,
    }
}

/// The place of `row` in a listing.
fn find_slot(rows: &Vec<StoredRow>, row: &StoredRow, desc: bool) -> (p: usize)
    requires
        row@.timespan.window() is Some,
        forall|i: int| 0 <= i < rows.len() ==> (#[trigger] rows[i])@.timespan.window() is Some,
    ensures
        p <= rows.len(),
        p == slot(rows_view(rows@), row@, desc),
{
    let mut p: usize = 0;
    let mut found = false;
    while p < rows.len() && !found
        invariant
            p <= rows.len(),
            row@.timespan.window() is Some,
            forall|i: int| 0 <= i < rows.len() ==> (#[trigger] rows[i])@.timespan.window() is Some,
            forall|j: int| 0 <= j < p ==> !comes_before(row@, #[trigger] rows_view(rows@)[j], desc),
            found ==> p < rows.len() && comes_before(row@, rows_view(rows@)[p as int], desc),
        decreases rows.len() - p + if found { 0int } else { 1int },
    {
        proof {
            assert(rows_view(rows@)[p as int] == rows[p as int]@);
        }
        if row_comes_before(row, &rows[p], desc) {
            found = true;
        } else {
            p = p + 1;
        }
    }
    proof {
        assert(slot_at(rows_view(rows@), row@, desc, p as int));
        lemma_slot_exists(rows_view(rows@), row@, desc);
        lemma_slot_unique(
            rows_view(rows@),
            row@,
            desc,
            p as int,
            slot(rows_view(rows@), row@, desc),
        );
    }
    p
}

/// The first row of the page and the first behind it, in a listing of `len`
/// rows.
fn page_bounds(len: usize, page: i32, page_size: i32) -> (r: (usize, usize))
    ensures
        r.0 <= r.1 <= len,
        r.0 == if page_skip(page, page_size) < len {
            page_skip(page, page_size)
        } else {
            len as int
        },
        r.1 == if page_skip(page, page_size) + page_len(page_size) < len {
            page_skip(page, page_size) + page_len(page_size)
        } else {
            len as int
        },
{
    let size: u64 = if page_size < 0 {
        0
    } else {
        page_size as u64
    };
    let pages: u64 = if page < 1 {
        0
    } else {
        (page - 1) as u64
    };
    assert(pages * size <= 0x8000_0000 * 0x8000_0000) by (nonlinear_arith)
        requires
            pages <= 0x8000_0000,
            size <= 0x8000_0000,
    ;
    let skip: u64 = pages * size;
    let len64: u64 = len as u64;
    let from: usize = if skip < len64 {
        skip as usize
    } else {
        len
    };
    let to: usize = if skip + size < len64 {
        (skip + size) as usize
    } else {
        len
    };
    (from, to)
}

impl MemoryStore {
    /// Lists rows. See `TableView::query`.
    pub fn query(&self, question: &QueryRequest) -> (r: Result<Vec<StoredRow>, StorageFailure>)
        ensures
            self@.wf(),
            rows_outcome_view(r) == self@.query(question@),
    {
        proof {
            use_type_invariant(self);
        }
        let (start, end) = match question.range.stretch() {
            Some(asked) => asked,
            None => {
                return Err(StorageFailure::Other(NOT_A_STRETCH.to_owned()));
            },
        };
        if end.is_before(&start) {
            return Err(StorageFailure::Other(BACKWARD_RANGE.to_owned()));
        }
        let ghost window = (start@, end@);
        let mut all: Vec<StoredRow> = Vec::new();
        let mut i: usize = 0;
        proof {
            assert(self@.rows.take(0) =~= Seq::<StoredRowView>::empty());
            assert(rows_view(all@) =~= Seq::<StoredRowView>::empty());
        }
        while i < self.rows.len()
            invariant
                i <= self.rows.len(),
                self@.wf(),
                window == (start@, end@),
                rows_view(all@) == listed(self@.rows.take(i as int), question@, window),
                forall|k: int|
                    0 <= k < all.len() ==> (#[trigger] all[k])@.timespan.window() is Some,
            decreases self.rows.len() - i,
        {
            let row = &self.rows[i];
            proof {
                assert(self@.rows[i as int] == row@);
                assert(row@.timespan.window() is Some);
                assert(self@.rows.take(i + 1).drop_last() =~= self@.rows.take(i as int));
                assert(self@.rows.take(i + 1).last() == row@);
            }
            if row_answers(row, question, &start, &end) {
                let p = find_slot(&all, row, question.desc);
                let copy = row.clone();
                proof {
                    assert(rows_view(all@.insert(p as int, copy)) =~= rows_view(all@).insert(
                        p as int,
                        copy@,
                    ));
                }
                all.insert(p, copy);
            }
            i = i + 1;
        }
        proof {
            assert(self@.rows.take(self.rows.len() as int) =~= self@.rows);
        }
        let (from, to) = page_bounds(all.len(), question.page, question.page_size);
        let mut page: Vec<StoredRow> = Vec::new();
        let mut k: usize = from;
        while k < to
            invariant
                from <= k <= to <= all.len(),
                rows_view(page@) == rows_view(all@).subrange(from as int, k as int),
            decreases to - k,
        {
            let copy = all[k].clone();
            proof {
                assert(rows_view(all@)[k as int] == copy@);
                assert(rows_view(page@.push(copy)) =~= rows_view(page@).push(copy@));
                assert(rows_view(page@).push(copy@) =~= rows_view(all@).subrange(
                    from as int,
                    k + 1,
                ));
            }
            page.push(copy);
            k = k + 1;
        }
        Ok(page)
    }
}

} // verus!
