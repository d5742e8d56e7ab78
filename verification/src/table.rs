//! The table of reservations as a mathematical value, and what each
//! operation of the store makes of it.
//!
//! The table holds its rows in the order in which it took them. Every row has
//! a key of its own and a window, and no two rows of one resource have
//! windows with an instant in common: the table refuses a row that would
//! break this.

use crate::conflict::{ConflictView, WindowView};
use crate::error::StorageFailureView;
use crate::exchange::{NewReservationView, QueryRequestView};
use crate::range::{windows_overlap, RangeView};
use crate::reservation::StoredRowView;
use crate::status::ReservationStatus;
use crate::time::Instant;
use vstd::prelude::*;

verus! {

/// What the table says of a range that is no window.
pub const NOT_A_WINDOW: &'static str = "the range is no window";

/// What the table says of a range that is no stretch.
pub const NOT_A_STRETCH: &'static str = "the range is no stretch";

/// What the table says of a stretch that ends before it starts.
pub const BACKWARD_RANGE: &'static str =
    "range lower bound must be less than or equal to range upper bound";

/// What the table says when it has given out its last key.
pub const OUT_OF_KEYS: &'static str = "the table has no key left";

/// The model of the table.
pub struct TableView {
    /// The rows, in the order in which they were taken.
    pub rows: Seq<StoredRowView>,
    /// The key that the next row gets.
    pub next_key: u128,
}

/// The window of a row. Every row of a well-formed table has one.
pub open spec fn window_of_row(row: StoredRowView) -> (Instant, Instant) {
    row.timespan.window()->0
}

/// Whether a row stands in the way of a new one: same resource, and the two
/// windows have an instant in common.
pub open spec fn clashes(
    row: StoredRowView,
    resource: Seq<char>,
    window: (Instant, Instant),
) -> bool {
    row.resource_id == resource && windows_overlap(window_of_row(row), window)
}

/// Whether `i` is the first row that stands in the way.
pub open spec fn first_clash_at(
    rows: Seq<StoredRowView>,
    resource: Seq<char>,
    window: (Instant, Instant),
    i: int,
) -> bool {
    &&& 0 <= i < rows.len()
    &&& clashes(rows[i], resource, window)
    &&& forall|j: int| 0 <= j < i ==> !clashes(#[trigger] rows[j], resource, window)
}

/// The first row that stands in the way, if any does.
pub open spec fn first_clash(
    rows: Seq<StoredRowView>,
    resource: Seq<char>,
    window: (Instant, Instant),
) -> Option<int> {
    if exists|i: int| first_clash_at(rows, resource, window, i) {
        Some(choose|i: int| first_clash_at(rows, resource, window, i))
    } else {
        None
    }
}

/// Whether the row with key `key` stands at `i`, and none before it has that
/// key.
pub open spec fn found_at(rows: Seq<StoredRowView>, key: u128, i: int) -> bool {
    &&& 0 <= i < rows.len()
    &&& rows[i].id == key
    &&& forall|j: int| 0 <= j < i ==> (#[trigger] rows[j]).id != key
}

/// Where the row with key `key` stands, if the table holds one.
pub open spec fn position(rows: Seq<StoredRowView>, key: u128) -> Option<int> {
    if exists|i: int| found_at(rows, key, i) {
        Some(choose|i: int| found_at(rows, key, i))
    } else {
        None
    }
}

/// The row that the table makes of a request under a key.
pub open spec fn row_of_request(request: NewReservationView, key: u128) -> StoredRowView {
    StoredRowView {
        id: key,
        user_id: request.user_id,
        resource_id: request.resource_id,
        timespan: request.timespan,
        note: request.note,
        status: request.status,
    }
}

/// The window of a resource as a conflict reports it.
pub open spec fn reported_window(resource: Seq<char>, window: (Instant, Instant)) -> WindowView {
    WindowView { rid: resource, start: window.0, end: window.1 }
}

impl TableView {
    /// The empty table.
    pub open spec fn empty() -> TableView {
        TableView { rows: Seq::empty(), next_key: 0 }
    }

    /// What holds of every table: keys are below the next key and differ
    /// from row to row, every row has a window, which is to say that its
    /// start and its end are valid instants and the start is the earlier, and
    /// no two rows of one resource have windows with an instant in common.
    pub open spec fn wf(self) -> bool {
        &&& forall|i: int| 0 <= i < self.rows.len() ==> (#[trigger] self.rows[i]).id < self.next_key
        &&& forall|i: int, j: int|
            0 <= i < j < self.rows.len() ==> (#[trigger] self.rows[i]).id != (
            #[trigger] self.rows[j]).id
        &&& forall|i: int|
            0 <= i < self.rows.len() ==> (#[trigger] self.rows[i]).timespan.window() is Some
                && window_of_row(self.rows[i]).0.valid() && window_of_row(self.rows[i]).1.valid()
        &&& forall|i: int, j: int|
            0 <= i < j < self.rows.len() ==> !clashes(
                #[trigger] self.rows[i],
                (#[trigger] self.rows[j]).resource_id,
                window_of_row(self.rows[j]),
            )
    }

    /// Whether the table holds a row with key `key`.
    pub open spec fn holds(self, key: u128) -> bool {
        position(self.rows, key) is Some
    }

    /// The row with key `key`.
    pub open spec fn row(self, key: u128) -> StoredRowView {
        self.rows[position(self.rows, key)->0]
    }

    /// Taking a row. A request whose range is no window is refused; so is
    /// one that clashes with a row of the table, with the window asked for
    /// and the window of the first row in its way; so is any once the keys
    /// have run out. Otherwise the row goes to the end of the table under
    /// the next key, and the key is the answer.
    pub open spec fn insert(self, request: NewReservationView) -> (
        TableView,
        Result<u128, StorageFailureView>,
    ) {
        match request.timespan.window() {
            None => (self, Err(StorageFailureView::Other(NOT_A_WINDOW@))),
            Some(window) => match first_clash(self.rows, request.resource_id, window) {
                Some(i) => (
                    self,
                    Err(
                        StorageFailureView::Conflict(
                            ConflictView {
                                new: reported_window(request.resource_id, window),
                                exist: reported_window(
                                    self.rows[i].resource_id,
                                    window_of_row(self.rows[i]),
                                ),
                            },
                        ),
                    ),
                ),
                None => if self.next_key == u128::MAX {
                    (self, Err(StorageFailureView::Other(OUT_OF_KEYS@)))
                } else {
                    (
                        TableView {
                            rows: self.rows.push(row_of_request(request, self.next_key)),
                            next_key: (self.next_key + 1) as u128,
                        },
                        Ok(self.next_key),
                    )
                },
            },
        }
    }

    /// Confirming a row: the row with key `key`, if it is `Pending`, becomes
    /// `Confirmed` and is the answer. No such row: `RowNotFound`, and the
    /// table stays as it is.
    pub open spec fn confirm(self, key: u128) -> (
        TableView,
        Result<StoredRowView, StorageFailureView>,
    ) {
        match position(self.rows, key) {
            Some(i) => if self.rows[i].status == ReservationStatus::Pending {
                let row = StoredRowView { status: ReservationStatus::Confirmed, ..self.rows[i] };
                (TableView { rows: self.rows.update(i, row), ..self }, Ok(row))
            } else {
                (self, Err(StorageFailureView::RowNotFound))
            },
            None => (self, Err(StorageFailureView::RowNotFound)),
        }
    }

    /// Writing a note: the row with key `key` gets the note, whatever its
    /// state, and is the answer. No such row: `RowNotFound`.
    pub open spec fn update_note(self, key: u128, note: Seq<char>) -> (
        TableView,
        Result<StoredRowView, StorageFailureView>,
    ) {
        match position(self.rows, key) {
            Some(i) => {
                let row = StoredRowView { note, ..self.rows[i] };
                (TableView { rows: self.rows.update(i, row), ..self }, Ok(row))
            },
            None => (self, Err(StorageFailureView::RowNotFound)),
        }
    }

    /// Deleting: the row with key `key` leaves the table. Where there is no
    /// such row the table stays as it is, and that is no failure.
    pub open spec fn delete(self, key: u128) -> TableView {
        match position(self.rows, key) {
            Some(i) => TableView { rows: self.rows.remove(i), ..self },
            None => self,
        }
    }

    /// Reading: the row with key `key`, or `RowNotFound`.
    pub open spec fn get(self, key: u128) -> Result<StoredRowView, StorageFailureView> {
        match position(self.rows, key) {
            Some(i) => Ok(self.rows[i]),
            None => Err(StorageFailureView::RowNotFound),
        }
    }
}

/// Whether a row answers a question about a stretch: it is of the user and
/// of the resource asked for, where one is asked for, it is in the state
/// asked for, and its window has an instant in common with the stretch asked
/// about.
pub open spec fn answers(
    row: StoredRowView,
    question: QueryRequestView,
    window: (Instant, Instant),
) -> bool {
    &&& question.user_id matches Some(user) ==> row.user_id == user
    &&& question.resource_id matches Some(resource) ==> row.resource_id == resource
    &&& row.status == question.status
    &&& windows_overlap(window_of_row(row), window)
}

/// Whether `a` has to stand before `b` in a listing: it starts earlier, or,
/// where the later come first, it starts later.
pub open spec fn comes_before(a: StoredRowView, b: StoredRowView, desc: bool) -> bool {
    if desc {
        window_of_row(b).0.precedes(window_of_row(a).0)
    } else {
        window_of_row(a).0.precedes(window_of_row(b).0)
    }
}

/// Whether a listing is in order: no row stands behind one that it has to
/// stand before.
pub open spec fn in_order(rows: Seq<StoredRowView>, desc: bool) -> bool {
    forall|i: int, j: int|
        0 <= i < j < rows.len() ==> !comes_before(#[trigger] rows[j], #[trigger] rows[i], desc)
}

/// Whether `p` is the place of `row` in a listing: `row` has to stand before
/// the row at `p`, and before none of those in front of it.
pub open spec fn slot_at(rows: Seq<StoredRowView>, row: StoredRowView, desc: bool, p: int) -> bool {
    &&& 0 <= p <= rows.len()
    &&& forall|j: int| 0 <= j < p ==> !comes_before(row, #[trigger] rows[j], desc)
    &&& p < rows.len() ==> comes_before(row, rows[p], desc)
}

/// The place of `row` in a listing.
pub open spec fn slot(rows: Seq<StoredRowView>, row: StoredRowView, desc: bool) -> int {
    choose|p: int| slot_at(rows, row, desc, p)
}

/// A listing with `row` put in its place. Among rows that start at the same
/// instant the one put in later stands behind.
pub open spec fn place(rows: Seq<StoredRowView>, row: StoredRowView, desc: bool) -> Seq<
    StoredRowView,
> {
    rows.insert(slot(rows, row, desc), row)
}

/// The rows that answer a question, in the order asked for.
pub open spec fn listed(
    rows: Seq<StoredRowView>,
    question: QueryRequestView,
    window: (Instant, Instant),
) -> Seq<StoredRowView>
    decreases rows.len(),
{
    if rows.len() == 0 {
        Seq::empty()
    } else {
        let rest = listed(rows.drop_last(), question, window);
        if answers(rows.last(), question, window) {
            place(rest, rows.last(), question.desc)
        } else {
            rest
        }
    }
}

/// How many rows a page holds: the size asked for, none where that is below
/// zero.
pub open spec fn page_len(page_size: i32) -> int {
    if page_size < 0 {
        0
    } else {
        page_size as int
    }
}

/// How many rows stand before a page: the pages in front of it, full. Pages
/// are counted from one, and a page below one is taken for the first.
pub open spec fn page_skip(page: i32, page_size: i32) -> int {
    if page < 1 {
        0
    } else {
        (page - 1) * page_len(page_size)
    }
}

/// One page of a listing.
pub open spec fn page_of(rows: Seq<StoredRowView>, page: i32, page_size: i32) -> Seq<
    StoredRowView,
> {
    let skip = page_skip(page, page_size);
    let from = if skip < rows.len() {
        skip
    } else {
        rows.len() as int
    };
    let to = if skip + page_len(page_size) < rows.len() {
        skip + page_len(page_size)
    } else {
        rows.len() as int
    };
    rows.subrange(from, to)
}

impl TableView {
    /// Listing: one page of the rows that answer the question, in the order
    /// asked for. The question may be about any stretch that does not end
    /// before it starts; about one of no length it has no answers, as no row
    /// has an instant in common with it. A question about a stretch that
    /// ends before it starts is a failure, and so is one about a range that
    /// is no stretch.
    pub open spec fn query(self, question: QueryRequestView) -> Result<
        Seq<StoredRowView>,
        StorageFailureView,
    > {
        match question.range.stretch() {
            Some(asked) => if asked.1.precedes(asked.0) {
                Err(StorageFailureView::Other(BACKWARD_RANGE@))
            } else {
                Ok(page_of(listed(self.rows, question, asked), question.page, question.page_size))
            },
            None => Err(StorageFailureView::Other(NOT_A_STRETCH@)),
        }
    }
}

/// A row has one place only in a listing.
pub proof fn lemma_slot_unique(
    rows: Seq<StoredRowView>,
    row: StoredRowView,
    desc: bool,
    p: int,
    q: int,
)
    requires
        slot_at(rows, row, desc, p),
        slot_at(rows, row, desc, q),
    ensures
        p == q,
{
    if p < q {
        assert(!comes_before(row, rows[p], desc));
    } else if q < p {
        assert(!comes_before(row, rows[q], desc));
    }
}

/// Every row has a place in every listing.
pub proof fn lemma_slot_exists(rows: Seq<StoredRowView>, row: StoredRowView, desc: bool)
    ensures
        slot_at(rows, row, desc, slot(rows, row, desc)),
{
    lemma_slot_from(rows, row, desc, 0);
}

proof fn lemma_slot_from(rows: Seq<StoredRowView>, row: StoredRowView, desc: bool, p: int)
    requires
        0 <= p <= rows.len(),
        forall|j: int| 0 <= j < p ==> !comes_before(row, #[trigger] rows[j], desc),
    ensures
        exists|q: int| slot_at(rows, row, desc, q),
    decreases rows.len() - p,
{
    if p == rows.len() || comes_before(row, rows[p], desc) {
        assert(slot_at(rows, row, desc, p));
    } else {
        lemma_slot_from(rows, row, desc, p + 1);
    }
}

/// What `place` holds: the rows that were there and the new one.
pub proof fn lemma_place_holds(
    rows: Seq<StoredRowView>,
    row: StoredRowView,
    desc: bool,
    other: StoredRowView,
)
    ensures
        place(rows, row, desc).contains(other) <==> (rows.contains(other) || other == row),
        place(rows, row, desc).len() == rows.len() + 1,
{
    lemma_slot_exists(rows, row, desc);
    let p = slot(rows, row, desc);
    let placed = place(rows, row, desc);
    assert(placed[p] == row);
    if rows.contains(other) {
        let i = choose|i: int| 0 <= i < rows.len() && rows[i] == other;
        if i < p {
            assert(placed[i] == other);
        } else {
            assert(placed[i + 1] == other);
        }
    }
    if placed.contains(other) {
        let i = choose|i: int| 0 <= i < placed.len() && placed[i] == other;
        if i < p {
            assert(rows[i] == other);
        } else if i > p {
            assert(rows[i - 1] == other);
        }
    }
}

/// What a listing holds: the rows of the table that answer the question,
/// and no others.
pub proof fn lemma_listed_holds(
    rows: Seq<StoredRowView>,
    question: QueryRequestView,
    window: (Instant, Instant),
    row: StoredRowView,
)
    ensures
        listed(rows, question, window).contains(row) <==> (rows.contains(row) && answers(
            row,
            question,
            window,
        )),
    decreases rows.len(),
{
    if rows.len() > 0 {
        let front = rows.drop_last();
        let rest = listed(front, question, window);
        lemma_listed_holds(front, question, window, row);
        if answers(rows.last(), question, window) {
            lemma_place_holds(rest, rows.last(), question.desc, row);
        }
        if rows.contains(row) {
            let i = choose|i: int| 0 <= i < rows.len() && rows[i] == row;
            if i < rows.len() - 1 {
                assert(front[i] == row);
            }
        }
        if front.contains(row) {
            let i = choose|i: int| 0 <= i < front.len() && front[i] == row;
            assert(rows[i] == row);
        }
        assert(rows[rows.len() - 1] == rows.last());
    }
}

/// A listing is in order.
pub proof fn lemma_listed_in_order(
    rows: Seq<StoredRowView>,
    question: QueryRequestView,
    window: (Instant, Instant),
)
    ensures
        in_order(listed(rows, question, window), question.desc),
    decreases rows.len(),
{
    if rows.len() > 0 {
        let rest = listed(rows.drop_last(), question, window);
        lemma_listed_in_order(rows.drop_last(), question, window);
        if answers(rows.last(), question, window) {
            lemma_place_in_order(rest, rows.last(), question.desc);
        }
    }
}

/// Putting a row in its place keeps a listing in order.
pub proof fn lemma_place_in_order(rows: Seq<StoredRowView>, row: StoredRowView, desc: bool)
    requires
        in_order(rows, desc),
    ensures
        in_order(place(rows, row, desc), desc),
{
    lemma_slot_exists(rows, row, desc);
    let p = slot(rows, row, desc);
    let placed = place(rows, row, desc);
    assert forall|i: int, j: int| 0 <= i < j < placed.len() implies !comes_before(
        #[trigger] placed[j],
        #[trigger] placed[i],
        desc,
    ) by {
        if j == p {
            assert(placed[i] == rows[i]);
            assert(!comes_before(row, rows[i], desc));
        } else if i == p {
            assert(placed[j] == rows[j - 1]);
            assert(comes_before(row, rows[p], desc));
            if j - 1 > p {
                assert(!comes_before(rows[j - 1], rows[p], desc));
            }
        } else {
            let a = if i < p { i } else { i - 1 };
            let b = if j < p { j } else { j - 1 };
            assert(placed[i] == rows[a]);
            assert(placed[j] == rows[b]);
            assert(!comes_before(rows[b], rows[a], desc));
        }
    }
}

/// A listing holds no row twice: where the keys of the rows differ, so do the
/// keys of the rows listed.
pub proof fn lemma_listed_keys_differ(
    rows: Seq<StoredRowView>,
    question: QueryRequestView,
    asked: (Instant, Instant),
)
    requires
        forall|i: int, j: int|
            0 <= i < j < rows.len() ==> (#[trigger] rows[i]).id != (#[trigger] rows[j]).id,
    ensures
        forall|a: int, b: int|
            0 <= a < b < listed(rows, question, asked).len() ==> (#[trigger] listed(
                rows,
                question,
                asked,
            )[a]).id != (#[trigger] listed(rows, question, asked)[b]).id,
    decreases rows.len(),
{
    if rows.len() > 0 {
        let front = rows.drop_last();
        let last = rows.last();
        let rest = listed(front, question, asked);
        assert forall|i: int, j: int| 0 <= i < j < front.len() implies (#[trigger] front[i]).id != (
        #[trigger] front[j]).id by {
            assert(front[i] == rows[i] && front[j] == rows[j]);
        }
        lemma_listed_keys_differ(front, question, asked);
        if answers(last, question, asked) {
            lemma_slot_exists(rest, last, question.desc);
            let p = slot(rest, last, question.desc);
            let placed = place(rest, last, question.desc);
            assert forall|k: int| 0 <= k < rest.len() implies (#[trigger] rest[k]).id
                != last.id by {
                assert(rest.contains(rest[k]));
                lemma_listed_holds(front, question, asked, rest[k]);
                let f = choose|f: int| 0 <= f < front.len() && front[f] == rest[k];
                assert(rows[f] == rest[k]);
                assert(rows[f].id != rows[rows.len() - 1].id);
            }
            assert forall|a: int, b: int| 0 <= a < b < placed.len() implies (
            #[trigger] placed[a]).id != (#[trigger] placed[b]).id by {
                if a == p {
                    assert(placed[b] == rest[b - 1]);
                } else if b == p {
                    assert(placed[a] == rest[a]);
                } else {
                    let x = if a < p { a } else { a - 1 };
                    let y = if b < p { b } else { b - 1 };
                    assert(placed[a] == rest[x]);
                    assert(placed[b] == rest[y]);
                }
            }
        }
    }
}

/// How many rows a listing holds does not depend on the order asked for.
pub proof fn lemma_listed_len_ignores_order(
    rows: Seq<StoredRowView>,
    question: QueryRequestView,
    other: QueryRequestView,
    asked: (Instant, Instant),
)
    requires
        other == (QueryRequestView { desc: !question.desc, ..question }),
    ensures
        listed(rows, question, asked).len() == listed(rows, other, asked).len(),
    decreases rows.len(),
{
    if rows.len() > 0 {
        let front = rows.drop_last();
        lemma_listed_len_ignores_order(front, question, other, asked);
        if answers(rows.last(), question, asked) {
            lemma_place_holds(
                listed(front, question, asked),
                rows.last(),
                question.desc,
                rows.last(),
            );
            lemma_place_holds(listed(front, other, asked), rows.last(), other.desc, rows.last());
        }
    }
}

/// The page is the stretch of the listing that its number and its size
/// name: for a page from one on and a size of one or more, the rows from
/// behind the pages in front of it up to the end of the page or of the
/// listing, whichever comes first; none where the listing ends before the
/// page begins.
pub proof fn lemma_page_is_a_stretch(rows: Seq<StoredRowView>, page: i32, page_size: i32)
    requires
        page >= 1,
        page_size >= 1,
    ensures
        page_of(rows, page, page_size).len() <= page_size,
        (page - 1) * page_size >= rows.len() ==> page_of(rows, page, page_size).len() == 0,
        (page - 1) * page_size < rows.len() ==> page_of(rows, page, page_size) == rows.subrange(
            (page - 1) * page_size,
            if page * page_size < rows.len() {
                page * page_size
            } else {
                rows.len() as int
            },
        ),
        page == 1 && rows.len() > 0 ==> page_of(rows, page, page_size)[0] == rows[0],
{
    let skip = page_skip(page, page_size);
    assert(skip == (page - 1) * page_size);
    assert(skip >= 0) by (nonlinear_arith)
        requires
            skip == (page - 1) * page_size,
            page >= 1,
            page_size >= 1,
    ;
    assert(skip + page_size == page * page_size) by (nonlinear_arith)
        requires
            skip == (page - 1) * page_size,
    ;
    if page == 1 {
        assert(skip == 0) by (nonlinear_arith)
            requires
                skip == (page - 1) * page_size,
                page == 1,
        ;
    }
}

/// In a well-formed table the start and the end of every row are valid
/// instants, and the start is the earlier.
pub proof fn lemma_rows_have_valid_instants(table: TableView, i: int)
    requires
        table.wf(),
        0 <= i < table.rows.len(),
    ensures
        window_of_row(table.rows[i]).0.valid(),
        window_of_row(table.rows[i]).1.valid(),
        window_of_row(table.rows[i]).0.precedes(window_of_row(table.rows[i]).1),
        table.rows[i].timespan == RangeView::half_open(
            window_of_row(table.rows[i]).0,
            window_of_row(table.rows[i]).1,
        ),
{
    assert(table.rows[i].timespan.window() is Some);
}

/// A page is part of the listing: it holds no row that the listing does not
/// hold, and it is in order where the listing is.
pub proof fn lemma_page_of_listing(
    rows: Seq<StoredRowView>,
    page: i32,
    page_size: i32,
    desc: bool,
)
    ensures
        forall|row: StoredRowView| #[trigger]
            page_of(rows, page, page_size).contains(row) ==> rows.contains(row),
        in_order(rows, desc) ==> in_order(page_of(rows, page, page_size), desc),
        page_of(rows, page, page_size).len() <= page_len(page_size),
        page <= 1 && rows.len() <= page_size ==> page_of(rows, page, page_size) == rows,
{
    let part = page_of(rows, page, page_size);
    let skip = page_skip(page, page_size);
    assert(skip >= 0) by (nonlinear_arith)
        requires
            skip == if page < 1 {
                0
            } else {
                (page - 1) * page_len(page_size)
            },
            page_len(page_size) >= 0,
    ;
    let from = if skip < rows.len() {
        skip
    } else {
        rows.len() as int
    };
    assert forall|row: StoredRowView| #[trigger] part.contains(row) implies rows.contains(row) by {
        let i = choose|i: int| 0 <= i < part.len() && part[i] == row;
        assert(rows[from + i] == row);
    }
    if in_order(rows, desc) {
        assert forall|i: int, j: int| 0 <= i < j < part.len() implies !comes_before(
            #[trigger] part[j],
            #[trigger] part[i],
            desc,
        ) by {
            assert(part[i] == rows[from + i]);
            assert(part[j] == rows[from + j]);
        }
    }
    if page <= 1 && rows.len() <= page_size {
        assert(skip == 0) by {
            if page == 1 {
                assert(0 * page_len(page_size) == 0);
            }
        }
        assert(part =~= rows);
    }
}

/// The rows that a well-formed table lists all have windows.
pub proof fn lemma_query_rows_have_windows(table: TableView, question: QueryRequestView)
    requires
        table.wf(),
    ensures
        table.query(question) matches Ok(rows) ==> forall|i: int|
            0 <= i < rows.len() ==> (#[trigger] rows[i]).timespan.window() is Some,
{
    if let Ok(rows) = table.query(question) {
        let asked = question.range.stretch()->0;
        let all = listed(table.rows, question, asked);
        lemma_page_of_listing(all, question.page, question.page_size, question.desc);
        assert forall|i: int| 0 <= i < rows.len() implies (
        #[trigger] rows[i]).timespan.window() is Some by {
            assert(rows.contains(rows[i]));
            assert(all.contains(rows[i]));
            lemma_listed_holds(table.rows, question, asked, rows[i]);
            let k = choose|k: int| 0 <= k < table.rows.len() && table.rows[k] == rows[i];
            assert(table.rows[k].timespan.window() is Some);
        }
    }
}

/// A key stands at one place only.
pub proof fn lemma_found_at_unique(rows: Seq<StoredRowView>, key: u128, i: int, j: int)
    requires
        found_at(rows, key, i),
        found_at(rows, key, j),
    ensures
        i == j,
{
    if i < j {
        assert(rows[i].id != key);
    } else if j < i {
        assert(rows[j].id != key);
    }
}

/// The first row in the way stands at one place only.
pub proof fn lemma_first_clash_unique(
    rows: Seq<StoredRowView>,
    resource: Seq<char>,
    window: (Instant, Instant),
    i: int,
    j: int,
)
    requires
        first_clash_at(rows, resource, window, i),
        first_clash_at(rows, resource, window, j),
    ensures
        i == j,
{
    if i < j {
        assert(!clashes(rows[i], resource, window));
    } else if j < i {
        assert(!clashes(rows[j], resource, window));
    }
}

/// In a well-formed table a row stands at the position of its key.
pub proof fn lemma_position_of_row(table: TableView, i: int)
    requires
        table.wf(),
        0 <= i < table.rows.len(),
    ensures
        position(table.rows, table.rows[i].id) == Some(i),
{
    let key = table.rows[i].id;
    assert(found_at(table.rows, key, i));
    let k = choose|k: int| found_at(table.rows, key, k);
    lemma_found_at_unique(table.rows, key, i, k);
}

/// A key that no row has is at no position.
pub proof fn lemma_position_none(rows: Seq<StoredRowView>, key: u128)
    requires
        forall|i: int| 0 <= i < rows.len() ==> (#[trigger] rows[i]).id != key,
    ensures
        position(rows, key) is None,
{
}

/// Confirming a row keeps the table well formed.
pub proof fn lemma_confirm_keeps_wf(table: TableView, key: u128)
    requires
        table.wf(),
    ensures
        table.confirm(key).0.wf(),
{
    let after = table.confirm(key).0;
    if after != table {
        let k = position(table.rows, key)->0;
        assert(found_at(table.rows, key, k));
        lemma_change_keeps_wf(table, k, after.rows[k]);
    }
}

/// Writing a note keeps the table well formed.
pub proof fn lemma_update_note_keeps_wf(table: TableView, key: u128, note: Seq<char>)
    requires
        table.wf(),
    ensures
        table.update_note(key, note).0.wf(),
{
    let after = table.update_note(key, note).0;
    if position(table.rows, key) is Some {
        let k = position(table.rows, key)->0;
        assert(found_at(table.rows, key, k));
        lemma_change_keeps_wf(table, k, after.rows[k]);
    }
}

/// A row may change its state and its note: the table stays well formed.
proof fn lemma_change_keeps_wf(table: TableView, k: int, row: StoredRowView)
    requires
        table.wf(),
        0 <= k < table.rows.len(),
        row.id == table.rows[k].id,
        row.resource_id == table.rows[k].resource_id,
        row.timespan == table.rows[k].timespan,
    ensures
        (TableView { rows: table.rows.update(k, row), ..table }).wf(),
{
    let after = TableView { rows: table.rows.update(k, row), ..table };
    assert forall|i: int, j: int| 0 <= i < j < after.rows.len() implies !clashes(
        #[trigger] after.rows[i],
        (#[trigger] after.rows[j]).resource_id,
        window_of_row(after.rows[j]),
    ) by {
        assert(!clashes(table.rows[i], table.rows[j].resource_id, window_of_row(table.rows[j])));
    }
    assert forall|i: int, j: int| 0 <= i < j < after.rows.len() implies (
    #[trigger] after.rows[i]).id != (#[trigger] after.rows[j]).id by {
        assert(table.rows[i].id != table.rows[j].id);
    }
    assert forall|i: int| 0 <= i < after.rows.len() implies (#[trigger] after.rows[i]).id
        < after.next_key by {
        assert(table.rows[i].id < table.next_key);
    }
    assert forall|i: int| 0 <= i < after.rows.len() implies (
    #[trigger] after.rows[i]).timespan.window() is Some by {
        assert(table.rows[i].timespan.window() is Some);
    }
}

/// Deleting a row keeps the table well formed.
pub proof fn lemma_delete_keeps_wf(table: TableView, key: u128)
    requires
        table.wf(),
    ensures
        table.delete(key).wf(),
{
    let after = table.delete(key);
    if position(table.rows, key) is Some {
        let k = position(table.rows, key)->0;
        assert(found_at(table.rows, key, k));
        assert(after.rows == table.rows.remove(k));
        assert forall|i: int, j: int| 0 <= i < j < after.rows.len() implies !clashes(
            #[trigger] after.rows[i],
            (#[trigger] after.rows[j]).resource_id,
            window_of_row(after.rows[j]),
        ) by {
            let a = if i < k { i } else { i + 1 };
            let b = if j < k { j } else { j + 1 };
            assert(after.rows[i] == table.rows[a]);
            assert(after.rows[j] == table.rows[b]);
            assert(!clashes(
                table.rows[a],
                table.rows[b].resource_id,
                window_of_row(table.rows[b]),
            ));
        }
        assert forall|i: int, j: int| 0 <= i < j < after.rows.len() implies (
        #[trigger] after.rows[i]).id != (#[trigger] after.rows[j]).id by {
            let a = if i < k { i } else { i + 1 };
            let b = if j < k { j } else { j + 1 };
            assert(after.rows[i] == table.rows[a]);
            assert(after.rows[j] == table.rows[b]);
            assert(table.rows[a].id != table.rows[b].id);
        }
        assert forall|i: int| 0 <= i < after.rows.len() implies (#[trigger] after.rows[i]).id
            < after.next_key by {
            let a = if i < k { i } else { i + 1 };
            assert(after.rows[i] == table.rows[a]);
            assert(table.rows[a].id < table.next_key);
        }
        assert forall|i: int| 0 <= i < after.rows.len() implies (
        #[trigger] after.rows[i]).timespan.window() is Some by {
            let a = if i < k { i } else { i + 1 };
            assert(after.rows[i] == table.rows[a]);
            assert(table.rows[a].timespan.window() is Some);
        }
    }
}

/// Taking a row keeps the table well formed.
pub proof fn lemma_insert_keeps_wf(table: TableView, request: NewReservationView)
    requires
        table.wf(),
    ensures
        table.insert(request).0.wf(),
{
    let after = table.insert(request).0;
    if after != table {
        let window = request.timespan.window()->0;
        let row = row_of_request(request, table.next_key);
        assert(after.rows == table.rows.push(row));
        assert(first_clash(table.rows, request.resource_id, window) is None);
        assert forall|i: int| 0 <= i < table.rows.len() implies !clashes(
            #[trigger] table.rows[i],
            request.resource_id,
            window,
        ) by {
            if clashes(table.rows[i], request.resource_id, window) {
                lemma_some_clash_is_first(table.rows, request.resource_id, window, i);
            }
        }
        assert forall|i: int, j: int| 0 <= i < j < after.rows.len() implies !clashes(
            #[trigger] after.rows[i],
            (#[trigger] after.rows[j]).resource_id,
            window_of_row(after.rows[j]),
        ) by {
            if j < table.rows.len() {
                assert(after.rows[i] == table.rows[i]);
                assert(after.rows[j] == table.rows[j]);
            } else {
                assert(after.rows[i] == table.rows[i]);
                assert(after.rows[j] == row);
            }
        }
        assert forall|i: int, j: int| 0 <= i < j < after.rows.len() implies (
        #[trigger] after.rows[i]).id != (#[trigger] after.rows[j]).id by {
            if j < table.rows.len() {
                assert(after.rows[i] == table.rows[i]);
                assert(after.rows[j] == table.rows[j]);
            } else {
                assert(after.rows[i] == table.rows[i]);
            }
        }
        assert forall|i: int| 0 <= i < after.rows.len() implies (#[trigger] after.rows[i]).id
            < after.next_key by {
            if i < table.rows.len() {
                assert(after.rows[i] == table.rows[i]);
            }
        }
        assert forall|i: int| 0 <= i < after.rows.len() implies (
        #[trigger] after.rows[i]).timespan.window() is Some by {
            if i < table.rows.len() {
                assert(after.rows[i] == table.rows[i]);
            }
        }
    }
}

/// Where some row stands in the way, there is a first one that does.
pub proof fn lemma_some_clash_is_first(
    rows: Seq<StoredRowView>,
    resource: Seq<char>,
    window: (Instant, Instant),
    i: int,
)
    requires
        0 <= i < rows.len(),
        clashes(rows[i], resource, window),
    ensures
        first_clash(rows, resource, window) is Some,
        first_clash(rows, resource, window)->0 <= i,
    decreases i,
{
    if exists|j: int| 0 <= j < i && clashes(rows[j], resource, window) {
        let j = choose|j: int| 0 <= j < i && clashes(rows[j], resource, window);
        lemma_some_clash_is_first(rows, resource, window, j);
    } else {
        assert(first_clash_at(rows, resource, window, i));
        let k = choose|k: int| first_clash_at(rows, resource, window, k);
        lemma_first_clash_unique(rows, resource, window, i, k);
    }
}

} // verus!
