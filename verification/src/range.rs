//! Ranges of time as the store holds them, and the window that two wire
//! timestamps span.

use crate::error::{Error, ErrorView};
use crate::time::{Instant, Timestamp, UtcTime};
use vstd::prelude::*;

verus! {

/// One end of a range of time.
#[derive(Clone, Copy, Debug, PartialEq, Eq, Structural)]
pub enum RangeBound {
    /// The range reaches the instant and holds it.
    Included(UtcTime),
    /// The range reaches the instant and does not hold it.
    Excluded(UtcTime),
    /// The range has no end on this side.
    Unbounded,
}

/// The model of a `RangeBound`.
pub enum BoundView {
    Included(Instant),
    Excluded(Instant),
    Unbounded,
}

impl BoundView {
    /// The instant at this end, if there is one.
    pub open spec fn instant(self) -> Option<Instant> {
        match self {
            BoundView::Included(i) => Some(i),
            BoundView::Excluded(i) => Some(i),
            BoundView::Unbounded => None,
        }
    }
}

impl View for RangeBound {
    type V = BoundView;

    open spec fn view(&self) -> BoundView {
        match self {
            RangeBound::Included(t) => BoundView::Included(t@),
            RangeBound::Excluded(t) => BoundView::Excluded(t@),
            RangeBound::Unbounded => BoundView::Unbounded,
        }
    }
}

impl RangeBound {
    /// The time at this end, if there is one.
    pub fn time(&self) -> (r: Option<UtcTime>)
        ensures
            match r {
                Some(t) => self@.instant() == Some(t@),
                None => self@.instant() is None,
            },
    {
        match self {
            RangeBound::Included(t) => Some(*t),
            RangeBound::Excluded(t) => Some(*t),
            RangeBound::Unbounded => None,
        }
    }
}

/// A range of time with its two ends.
#[derive(Clone, Copy, Debug, PartialEq, Eq, Structural)]
pub struct TimeRange {
    pub start: RangeBound,
    pub end: RangeBound,
}

/// The model of a `TimeRange`.
pub struct RangeView {
    pub start: BoundView,
    pub end: BoundView,
}

impl View for TimeRange {
    type V = RangeView;

    open spec fn view(&self) -> RangeView {
        RangeView { start: self.start@, end: self.end@ }
    }
}

impl RangeView {
    /// The range from `start`, which it holds, up to `end`, which it does
    /// not hold.
    pub open spec fn half_open(start: Instant, end: Instant) -> RangeView {
        RangeView { start: BoundView::Included(start), end: BoundView::Excluded(end) }
    }

    /// The two ends of a stretch: a range that holds its start and does not
    /// hold its end, both of them valid instants, in whatever order. `None`
    /// for any other range.
    pub open spec fn stretch(self) -> Option<(Instant, Instant)> {
        match (self.start, self.end) {
            (BoundView::Included(start), BoundView::Excluded(end)) => if start.valid()
                && end.valid() {
                Some((start, end))
            } else {
                None
            },
            _ => None,
        }
    }

    /// The two ends of a window: a stretch that starts before it ends.
    /// `None` for any other range.
    pub open spec fn window(self) -> Option<(Instant, Instant)> {
        match self.stretch() {
            Some((start, end)) => if start.precedes(end) {
                Some((start, end))
            } else {
                None
            },
            None => None,
        }
    }
}

/// Whether two stretches have an instant in common. A stretch runs from its
/// start up to, not including, its end, so one that does not start before it
/// ends holds no instant and has none in common with any other.
pub open spec fn windows_overlap(a: (Instant, Instant), b: (Instant, Instant)) -> bool {
    &&& a.0.precedes(a.1)
    &&& b.0.precedes(b.1)
    &&& a.0.precedes(b.1)
    &&& b.0.precedes(a.1)
}

/// Whether an instant lies in a stretch.
pub open spec fn in_stretch(i: Instant, a: (Instant, Instant)) -> bool {
    !i.precedes(a.0) && i.precedes(a.1)
}

/// Two stretches overlap exactly when some instant lies in both.
pub proof fn lemma_overlap_is_a_common_instant(a: (Instant, Instant), b: (Instant, Instant))
    ensures
        windows_overlap(a, b) <==> exists|i: Instant| in_stretch(i, a) && in_stretch(i, b),
{
    if windows_overlap(a, b) {
        let i = if a.0.precedes(b.0) {
            b.0
        } else {
            a.0
        };
        assert(in_stretch(i, a) && in_stretch(i, b));
    }
}

impl TimeRange {
    /// The range from `start`, which it holds, up to `end`, which it does
    /// not hold.
    pub fn half_open(start: UtcTime, end: UtcTime) -> (r: TimeRange)
        ensures
            r@ == RangeView::half_open(start@, end@),
    {
        TimeRange { start: RangeBound::Included(start), end: RangeBound::Excluded(end) }
    }

    /// The two ends of the range where it is a stretch.
    pub fn stretch(&self) -> (r: Option<(UtcTime, UtcTime)>)
        ensures
            match r {
                Some((start, end)) => self@.stretch() == Some((start@, end@)),
                None => self@.stretch() is None,
            },
    {
        match (self.start, self.end) {
            (RangeBound::Included(start), RangeBound::Excluded(end)) => {
                proof {
                    use_type_invariant(&start);
                    use_type_invariant(&end);
                }
                Some((start, end))
            },
            _ => None,
        }
    }

    /// The two ends of the range where it is a window.
    pub fn window(&self) -> (r: Option<(UtcTime, UtcTime)>)
        ensures
            match r {
                Some((start, end)) => self@.window() == Some((start@, end@)),
                None => self@.window() is None,
            },
    {
        match self.stretch() {
            Some((start, end)) => {
                if start.is_before(&end) {
                    Some((start, end))
                } else {
                    None
                }
            },
            None => None,
        }
    }
}

/// The two ends of a range without the word on whether the range holds
/// them.
#[derive(Clone, Copy, Debug, PartialEq, Eq, Structural)]
pub struct NaiveRange {
    pub start: Option<UtcTime>,
    pub end: Option<UtcTime>,
}

impl NaiveRange {
    /// The two ends of `range`.
    pub fn from(range: TimeRange) -> (r: NaiveRange)
        ensures
            match r.start {
                Some(t) => range@.start.instant() == Some(t@),
                None => range@.start.instant() is None,
            },
            match r.end {
                Some(t) => range@.end.instant() == Some(t@),
                None => range@.end.instant() is None,
            },
    {
        NaiveRange { start: range.start.time(), end: range.end.time() }
    }
}

/// Whether two wire timestamps span a window: both are there, both name an
/// instant, and the first is earlier than the second.
pub open spec fn spans_window(start: Option<Timestamp>, end: Option<Timestamp>) -> bool {
    &&& start matches Some(s)
    &&& end matches Some(e)
    &&& s.valid()
    &&& e.valid()
    &&& s.instant().precedes(e.instant())
}

/// Whether two wire timestamps are both there and both name an instant.
pub open spec fn both_instants(start: Option<Timestamp>, end: Option<Timestamp>) -> bool {
    &&& start matches Some(s)
    &&& end matches Some(e)
    &&& s.valid()
    &&& e.valid()
}

/// Whether two wire timestamps are both there and both name an instant.
pub fn have_instants(start: Option<Timestamp>, end: Option<Timestamp>) -> (r: bool)
    ensures
        r == both_instants(start, end),
{
    match (start, end) {
        (Some(s), Some(e)) => s.to_utc_time().is_some() && e.to_utc_time().is_some(),
        _ => false,
    }
}

/// Accepts two wire timestamps that span a window, and fails with
/// `InvalidTime` on all others.
pub fn validate_range(start: Option<Timestamp>, end: Option<Timestamp>) -> (r: Result<(), Error>)
    ensures
        match r {
            Ok(_) => spans_window(start, end),
            Err(e) => e@ == ErrorView::InvalidTime && !spans_window(start, end),
        },
{
    let (start, end) = match (start, end) {
        (Some(s), Some(e)) => (s, e),
        _ => {
            return Err(Error::InvalidTime);
        },
    };
    match (start.to_utc_time(), end.to_utc_time()) {
        (Some(s), Some(e)) => {
            if s.is_before(&e) {
                Ok(())
            } else {
                Err(Error::InvalidTime)
            }
        },
        _ => Err(Error::InvalidTime),
    }
}

/// The range from the first of two wire timestamps, which it holds, up to
/// the second, which it does not hold.
pub fn get_timespan(start: Option<Timestamp>, end: Option<Timestamp>) -> (r: TimeRange)
    requires
        both_instants(start, end),
    ensures
        r@ == RangeView::half_open(start->0.instant(), end->0.instant()),
{
    let s = start.unwrap().to_utc_time().unwrap();
    let e = end.unwrap().to_utc_time().unwrap();
    TimeRange::half_open(s, e)
}

/// Two wire timestamps that span a window are both instants.
pub proof fn lemma_window_has_instants(start: Option<Timestamp>, end: Option<Timestamp>)
    requires
        spans_window(start, end),
    ensures
        both_instants(start, end),
{
}

} // verus!
