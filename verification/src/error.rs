//! The ways in which an operation on reservations fails, and how a failure
//! reported by the store is told apart.
//!
//! The store refuses a reservation whose window overlaps one that it already
//! holds for the same resource. It reports that as a violation of its
//! exclusion rule on the reservations table, with a diagnostic that names the
//! two rows. Every other failure of the store is passed on as it came.

use crate::conflict::{
    conflict_info_of, ConflictInfoView, ConflictView, ReservationConflict,
    ReservationConflictInfo,
};
use crate::text::{same_text, text_view};
use vstd::prelude::*;

verus! {

/// The code under which the store reports a violated exclusion rule.
pub const EXCLUSION_VIOLATION: &'static str = "23P01";

/// The schema of the table of reservations.
pub const RESERVATION_SCHEMA: &'static str = "rsvp";

/// The table of reservations.
pub const RESERVATION_TABLE: &'static str = "reservations";

/// What the store says of a request that it refused: the code of the error,
/// the schema and the table concerned, where it names them, and the detail it
/// adds.
#[derive(Debug)]
pub struct DatabaseFailure {
    pub code: String,
    pub schema: Option<String>,
    pub table: Option<String>,
    pub detail: Option<String>,
}

/// The model of a `DatabaseFailure`.
pub struct DatabaseFailureView {
    pub code: Seq<char>,
    pub schema: Option<Seq<char>>,
    pub table: Option<Seq<char>>,
    pub detail: Option<Seq<char>>,
}

impl View for DatabaseFailure {
    type V = DatabaseFailureView;

    open spec fn view(&self) -> DatabaseFailureView {
        DatabaseFailureView {
            code: self.code@,
            schema: text_view(self.schema),
            table: text_view(self.table),
            detail: text_view(self.detail),
        }
    }
}

impl DatabaseFailureView {
    /// Whether this is the exclusion rule of the reservations table refusing
    /// an overlapping window.
    pub open spec fn is_overlap(self) -> bool {
        &&& self.code == EXCLUSION_VIOLATION@
        &&& self.schema == Some(RESERVATION_SCHEMA@)
        &&& self.table == Some(RESERVATION_TABLE@)
    }

    /// What is known of the conflict: what the detail says, or nothing but an
    /// empty text where the store gave no detail.
    pub open spec fn conflict_info(self) -> ConflictInfoView {
        match self.detail {
            Some(detail) => conflict_info_of(detail),
            None => ConflictInfoView::Unparsed(Seq::empty()),
        }
    }
}

/// A failure of the store.
#[derive(Debug)]
pub enum StorageFailure {
    /// No row answered the request.
    RowNotFound,
    /// The store refused an overlapping window and named the two windows.
    Conflict(ReservationConflict),
    /// The store refused the request and said why.
    Database(DatabaseFailure),
    /// Anything else, in words.
    Other(String),
}

/// The model of a `StorageFailure`.
pub enum StorageFailureView {
    RowNotFound,
    Conflict(ConflictView),
    Database(DatabaseFailureView),
    Other(Seq<char>),
}

impl View for StorageFailure {
    type V = StorageFailureView;

    open spec fn view(&self) -> StorageFailureView {
        match self {
            StorageFailure::RowNotFound => StorageFailureView::RowNotFound,
            StorageFailure::Conflict(c) => StorageFailureView::Conflict(c@),
            StorageFailure::Database(d) => StorageFailureView::Database(d@),
            StorageFailure::Other(s) => StorageFailureView::Other(s@),
        }
    }
}

/// The failures of an operation on reservations.
#[derive(Debug)]
pub enum Error {
    /// The store failed in a way that has no name of its own here.
    StorageError(StorageFailure),
    /// A time is missing or is no instant, or the window does not start
    /// before it ends.
    InvalidTime,
    /// The window overlaps one that is already held for the resource.
    ConflictReservation(ReservationConflictInfo),
    /// The user is not named.
    InvalidUserId(String),
    /// The resource is not named.
    InvalidResourceId(String),
    /// The text is no identifier of a reservation.
    InvalidReservationId(String),
    /// No reservation answers the request.
    NotFound,
    /// A failure that has no other name.
    Unknown,
}

/// The model of an `Error`.
pub enum ErrorView {
    StorageError(StorageFailureView),
    InvalidTime,
    ConflictReservation(ConflictInfoView),
    InvalidUserId(Seq<char>),
    InvalidResourceId(Seq<char>),
    InvalidReservationId(Seq<char>),
    NotFound,
    Unknown,
}

impl View for Error {
    type V = ErrorView;

    open spec fn view(&self) -> ErrorView {
        match self {
            Error::StorageError(f) => ErrorView::StorageError(f@),
            Error::InvalidTime => ErrorView::InvalidTime,
            Error::ConflictReservation(info) => ErrorView::ConflictReservation(info@),
            Error::InvalidUserId(s) => ErrorView::InvalidUserId(s@),
            Error::InvalidResourceId(s) => ErrorView::InvalidResourceId(s@),
            Error::InvalidReservationId(s) => ErrorView::InvalidReservationId(s@),
            Error::NotFound => ErrorView::NotFound,
            Error::Unknown => ErrorView::Unknown,
        }
    }
}

/// The error that a failure of the store becomes.
pub open spec fn error_of_failure(failure: StorageFailureView) -> ErrorView {
    match failure {
        StorageFailureView::RowNotFound => ErrorView::NotFound,
        StorageFailureView::Conflict(c) => ErrorView::ConflictReservation(
            ConflictInfoView::Parsed(c),
        ),
        StorageFailureView::Database(d) => if d.is_overlap() {
            ErrorView::ConflictReservation(d.conflict_info())
        } else {
            ErrorView::StorageError(failure)
        },
        StorageFailureView::Other(_) => ErrorView::StorageError(failure),
    }
}

/// Whether a text that may be missing is there and reads `wanted`.
fn is_text(text: &Option<String>, wanted: &str) -> (r: bool)
    ensures
        r == (text_view(*text) == Some(wanted@)),
{
    match text {
        Some(t) => same_text(t.as_str(), wanted),
        None => false,
    }
}

impl DatabaseFailure {
    /// Whether this is the exclusion rule of the reservations table refusing
    /// an overlapping window.
    pub fn is_overlap(&self) -> (r: bool)
        ensures
            r == self@.is_overlap(),
    {
        same_text(self.code.as_str(), EXCLUSION_VIOLATION) && is_text(
            &self.schema,
            RESERVATION_SCHEMA,
        ) && is_text(&self.table, RESERVATION_TABLE)
    }

    /// What is known of the conflict that this failure reports.
    pub fn conflict_info(&self) -> (r: ReservationConflictInfo)
        ensures
            r@ == self@.conflict_info(),
    {
        match &self.detail {
            Some(detail) => match ReservationConflictInfo::from_str(detail.as_str()) {
                Ok(info) => info,
                Err(_) => ReservationConflictInfo::Unparsed(detail.clone()),
            },
            None => ReservationConflictInfo::Unparsed(String::new()),
        }
    }
}

impl Error {
    /// The error that a failure of the store becomes: a missing row is
    /// `NotFound`, a refused overlap is `ConflictReservation` with what is
    /// known of the two windows, and everything else is `StorageError`.
    pub fn from(failure: StorageFailure) -> (r: Error)
        ensures
            r@ == error_of_failure(failure@),
    {
        match failure {
            StorageFailure::RowNotFound => Error::NotFound,
            StorageFailure::Conflict(c) => Error::ConflictReservation(
                ReservationConflictInfo::Parsed(c),
            ),
            StorageFailure::Database(d) => {
                if d.is_overlap() {
                    Error::ConflictReservation(d.conflict_info())
                } else {
                    Error::StorageError(StorageFailure::Database(d))
                }
            },
            StorageFailure::Other(s) => Error::StorageError(StorageFailure::Other(s)),
        }
    }
}

/// A refused overlap never comes out as a plain failure of the store: the
/// caller learns of the conflict whether or not the detail could be read.
pub proof fn lemma_overlap_is_conflict(failure: DatabaseFailureView)
    requires
        failure.is_overlap(),
    ensures
        error_of_failure(StorageFailureView::Database(failure)) is ConflictReservation,
{
}

} // verus!
