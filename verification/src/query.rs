//! The question that lists reservations: whose, of what, in which window, in
//! which state, and which page of the answer.

use crate::error::{Error, ErrorView};
use crate::range::{
    both_instants, get_timespan, spans_window, validate_range, RangeView, TimeRange,
};
use crate::status::{status_number, ReservationStatus};
use crate::time::{convert_to_timestamp, wire_form, Timestamp, UtcTime};
use vstd::prelude::*;

verus! {

/// A question about the reservations held. An empty `user_id` or
/// `resource_id` asks for those of every user or of every resource.
#[derive(Debug, PartialEq)]
pub struct ReservationQuery {
    pub resource_id: String,
    pub user_id: String,
    pub status: i32,
    pub start: Option<Timestamp>,
    pub end: Option<Timestamp>,
    pub page: i32,
    pub page_size: i32,
    pub desc: bool,
}

/// The model of a `ReservationQuery`.
pub struct ReservationQueryView {
    pub resource_id: Seq<char>,
    pub user_id: Seq<char>,
    pub status: i32,
    pub start: Option<Timestamp>,
    pub end: Option<Timestamp>,
    pub page: i32,
    pub page_size: i32,
    pub desc: bool,
}

impl View for ReservationQuery {
    type V = ReservationQueryView;

    open spec fn view(&self) -> ReservationQueryView {
        ReservationQueryView {
            resource_id: self.resource_id@,
            user_id: self.user_id@,
            status: self.status,
            start: self.start,
            end: self.end,
            page: self.page,
            page_size: self.page_size,
            desc: self.desc,
        }
    }
}

impl ReservationQuery {
    /// The question for the reservations of `uid` on `rid` in state `status`
    /// that meet the window from `start` to `end`.
    pub fn new(
        uid: &str,
        rid: &str,
        start: UtcTime,
        end: UtcTime,
        status: ReservationStatus,
        page: i32,
        page_size: i32,
        desc: bool,
    ) -> (r: ReservationQuery)
        ensures
            r@ == (ReservationQueryView {
                resource_id: rid@,
                user_id: uid@,
                status: status_number(status),
                start: Some(wire_form(start@)),
                end: Some(wire_form(end@)),
                page,
                page_size,
                desc,
            }),
    {
        ReservationQuery {
            user_id: uid.to_owned(),
            resource_id: rid.to_owned(),
            start: Some(convert_to_timestamp(start)),
            end: Some(convert_to_timestamp(end)),
            status: status.as_i32(),
            page,
            page_size,
            desc,
        }
    }

    /// The window of the question: from `start`, which it holds, up to `end`,
    /// which it does not hold.
    pub fn get_timespan(&self) -> (r: TimeRange)
        requires
            both_instants(self.start, self.end),
        ensures
            r@ == RangeView::half_open(self.start->0.instant(), self.end->0.instant()),
    {
        get_timespan(self.start, self.end)
    }

    /// Accepts a question whose two times span a window, and fails with
    /// `InvalidTime` on all others. Listing does not ask for this: a
    /// question with two instants goes to the store whatever their order.
    pub fn validate(&self) -> (r: Result<(), Error>)
        ensures
            match r {
                Ok(_) => spans_window(self.start, self.end),
                Err(e) => e@ == ErrorView::InvalidTime && !spans_window(self.start, self.end),
            },
    {
        validate_range(self.start, self.end)
    }
}

} // verus!
