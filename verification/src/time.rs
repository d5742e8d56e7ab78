//! Instants and their wire form.
//!
//! An instant is a pair of whole seconds since 1970-01-01T00:00:00Z and a
//! nanosecond part. The nanosecond part may reach into a second billion to
//! stand for a leap second, and only in the last second of a minute. Instants
//! are ordered by seconds first and nanoseconds second.

use vstd::prelude::*;

verus! {

/// Seconds since the epoch of the earliest instant, -262143-01-01T00:00:00Z.
pub const MIN_SECONDS: i64 = -8_334_601_228_800;

/// Seconds since the epoch of the last second of the year 262142.
pub const MAX_SECONDS: i64 = 8_210_266_876_799;

/// One second, in nanoseconds.
pub const NANOS_PER_SECOND: u32 = 1_000_000_000;

/// The mathematical model of an instant.
pub struct Instant {
    pub secs: int,
    pub nanos: int,
}

impl Instant {
    /// The instants that a `UtcTime` can hold.
    pub open spec fn valid(self) -> bool {
        &&& MIN_SECONDS <= self.secs <= MAX_SECONDS
        &&& 0 <= self.nanos < 2 * NANOS_PER_SECOND
        &&& (self.nanos >= NANOS_PER_SECOND ==> self.secs % 60 == 59)
    }

    /// Strictly earlier than `other`.
    pub open spec fn precedes(self, other: Instant) -> bool {
        self.secs < other.secs || (self.secs == other.secs && self.nanos < other.nanos)
    }
}

/// An instant on the UTC time line.
#[derive(Clone, Copy, Debug, PartialEq, Eq, Structural)]
pub struct UtcTime {
    secs: i64,
    nanos: u32,
}

impl View for UtcTime {
    type V = Instant;

    closed spec fn view(&self) -> Instant {
        Instant { secs: self.secs as int, nanos: self.nanos as int }
    }
}

/// What `chrono::DateTime::<Utc>::from_timestamp` returns, reduced to the
/// seconds and nanoseconds of the instant it made. The call succeeds exactly
/// on the pairs that name a valid instant, and the instant then has the
/// seconds and nanoseconds that went in.
#[verifier::external_body]
fn utc_from_timestamp(secs: i64, nanos: u32) -> (r: Option<(i64, u32)>)
    ensures
        r == if (Instant { secs: secs as int, nanos: nanos as int }).valid() {
            Some((secs, nanos))
        } else {
            None
        },
{
    chrono::DateTime::from_timestamp(secs, nanos).map(
        |t| (t.timestamp(), t.timestamp_subsec_nanos()),
    )
}

impl UtcTime {
    /// What holds of every time: its instant is valid.
    #[verifier::type_invariant]
    pub open spec fn well_formed(self) -> bool {
        self@.valid()
    }

    /// The instant `secs` seconds and `nanos` nanoseconds after the epoch,
    /// or `None` where the pair names no valid instant.
    pub fn from_timestamp(secs: i64, nanos: u32) -> (r: Option<UtcTime>)
        ensures
            match r {
                Some(t) => t@ == (Instant { secs: secs as int, nanos: nanos as int }) && t@.valid(),
                None => !(Instant { secs: secs as int, nanos: nanos as int }).valid(),
            },
    {
        match utc_from_timestamp(secs, nanos) {
            Some((s, n)) => Some(UtcTime { secs: s, nanos: n }),
            None => None,
        }
    }

    /// Whole seconds since the epoch.
    pub fn timestamp(&self) -> (r: i64)
        ensures
            r == self@.secs,
            self@.valid(),
    {
        proof {
            use_type_invariant(self);
        }
        self.secs
    }

    /// Nanoseconds since the last whole second.
    pub fn timestamp_subsec_nanos(&self) -> (r: u32)
        ensures
            r == self@.nanos,
            self@.valid(),
    {
        proof {
            use_type_invariant(self);
        }
        self.nanos
    }

    /// Whether `self` is strictly earlier than `other`.
    pub fn is_before(&self, other: &UtcTime) -> (r: bool)
        ensures
            r == self@.precedes(other@),
    {
        self.secs < other.secs || (self.secs == other.secs && self.nanos < other.nanos)
    }
}

/// Wire form of an instant: whole seconds since the epoch and a nanosecond
/// part, both signed.
#[derive(Clone, Copy, Debug, PartialEq, Eq, Structural)]
pub struct Timestamp {
    pub seconds: i64,
    pub nanos: i32,
}

impl Timestamp {
    /// The instant that the two fields name.
    pub open spec fn instant(self) -> Instant {
        Instant { secs: self.seconds as int, nanos: self.nanos as int }
    }

    /// Whether the two fields name a valid instant.
    pub open spec fn valid(self) -> bool {
        self.instant().valid()
    }

    /// The instant of this wire timestamp, or `None` where it names none.
    pub fn to_utc_time(&self) -> (r: Option<UtcTime>)
        ensures
            match r {
                Some(t) => self.valid() && t@ == self.instant(),
                None => !self.valid(),
            },
    {
        if self.nanos < 0 {
            None
        } else {
            UtcTime::from_timestamp(self.seconds, self.nanos as u32)
        }
    }
}

/// The wire form of an instant.
pub open spec fn wire_form(i: Instant) -> Timestamp {
    Timestamp { seconds: i.secs as i64, nanos: i.nanos as i32 }
}

/// The instant of a valid wire timestamp.
pub fn convert_to_utc_time(ts: Timestamp) -> (t: UtcTime)
    requires
        ts.valid(),
    ensures
        t@ == ts.instant(),
{
    ts.to_utc_time().unwrap()
}

/// The wire form of an instant.
pub fn convert_to_timestamp(dt: UtcTime) -> (ts: Timestamp)
    ensures
        ts == wire_form(dt@),
        ts.instant() == dt@,
        ts.valid(),
{
    let secs = dt.timestamp();
    let nanos = dt.timestamp_subsec_nanos();
    Timestamp { seconds: secs, nanos: nanos as i32 }
}

/// An instant taken to the wire and back is the same instant, nanoseconds
/// included.
pub proof fn lemma_instant_round_trip(i: Instant)
    requires
        i.valid(),
    ensures
        wire_form(i).valid(),
        wire_form(i).instant() == i,
{
}

/// A time taken to the wire and back is the same time: the time that
/// `convert_to_utc_time` makes of what `convert_to_timestamp` made of `t` has
/// the instant of `t`, and two times with the same instant are the same.
pub proof fn lemma_time_round_trip(t: UtcTime, back: UtcTime)
    requires
        t@.valid(),
        back@ == wire_form(t@).instant(),
    ensures
        back == t,
{
}

/// A valid wire timestamp taken to an instant and back is the same wire
/// timestamp.
pub proof fn lemma_wire_round_trip(ts: Timestamp)
    requires
        ts.valid(),
    ensures
        wire_form(ts.instant()) == ts,
{
}

/// What `chrono::DateTime::parse_from_str` makes of a text under a format:
/// the seconds and nanoseconds of the instant and the offset from UTC in
/// seconds, or `None` where the text does not parse.
pub uninterp spec fn parsed_datetime(text: Seq<char>, format: Seq<char>) -> Option<
    (i64, u32, i32),
>;

/// Calls `chrono::DateTime::parse_from_str` and takes the result apart into
/// seconds, nanoseconds and offset. The contract only names the result.
#[verifier::external_body]
fn parse_datetime_parts(text: &str, format: &str) -> (r: Option<(i64, u32, i32)>)
    ensures
        r == parsed_datetime(text@, format@),
{
    chrono::DateTime::parse_from_str(text, format).ok().map(
        |t| (t.timestamp(), t.timestamp_subsec_nanos(), t.offset().local_minus_utc()),
    )
}

/// An instant together with the offset from UTC, in seconds east, of the
/// clock it was read from.
#[derive(Clone, Copy, Debug, PartialEq, Eq, Structural)]
pub struct FixedOffsetTime {
    utc: UtcTime,
    offset: i32,
}

/// Whether `offset` seconds is less than a day either way.
pub open spec fn offset_in_range(offset: int) -> bool {
    -86_400 < offset < 86_400
}

/// The time that three parsed parts stand for, where they stand for one.
pub open spec fn time_of_parts(parts: Option<(i64, u32, i32)>) -> Option<(Instant, int)> {
    match parts {
        Some((secs, nanos, offset)) => {
            let i = Instant { secs: secs as int, nanos: nanos as int };
            if i.valid() && offset_in_range(offset as int) {
                Some((i, offset as int))
            } else {
                None
            }
        },
        None => None,
    }
}

impl FixedOffsetTime {
    #[verifier::type_invariant]
    spec fn well_formed(self) -> bool {
        offset_in_range(self.offset as int)
    }

    /// The instant, whatever the offset.
    pub closed spec fn instant(self) -> Instant {
        self.utc@
    }

    /// Seconds east of UTC.
    pub closed spec fn offset(self) -> int {
        self.offset as int
    }

    /// The instant and the offset as a pair.
    pub open spec fn parts(self) -> (Instant, int) {
        (self.instant(), self.offset())
    }

    /// `utc` as read from a clock `offset_seconds` east of UTC, or `None`
    /// where the offset is a day or more.
    pub fn new(utc: UtcTime, offset_seconds: i32) -> (r: Option<FixedOffsetTime>)
        ensures
            match r {
                Some(t) => offset_in_range(offset_seconds as int) && t.parts() == (
                    utc@,
                    offset_seconds as int,
                ),
                None => !offset_in_range(offset_seconds as int),
            },
    {
        if -86_400 < offset_seconds && offset_seconds < 86_400 {
            Some(FixedOffsetTime { utc, offset: offset_seconds })
        } else {
            None
        }
    }

    /// The time that parsed parts stand for.
    pub fn from_parts(parts: Option<(i64, u32, i32)>) -> (r: Option<FixedOffsetTime>)
        ensures
            match r {
                Some(t) => time_of_parts(parts) == Some(t.parts()),
                None => time_of_parts(parts) is None,
            },
    {
        match parts {
            Some((secs, nanos, offset)) => match UtcTime::from_timestamp(secs, nanos) {
                Some(utc) => FixedOffsetTime::new(utc, offset),
                None => None,
            },
            None => None,
        }
    }

    /// Reads `text` as a date and time with an offset, laid out as `format`
    /// says.
    pub fn parse_from_str(text: &str, format: &str) -> (r: Option<FixedOffsetTime>)
        ensures
            match r {
                Some(t) => time_of_parts(parsed_datetime(text@, format@)) == Some(t.parts()),
                None => time_of_parts(parsed_datetime(text@, format@)) is None,
            },
    {
        FixedOffsetTime::from_parts(parse_datetime_parts(text, format))
    }

    /// The same instant, read in UTC.
    pub fn to_utc(&self) -> (t: UtcTime)
        ensures
            t@ == self.instant(),
            t@.valid(),
    {
        let t = self.utc;
        proof {
            use_type_invariant(&t);
        }
        t
    }

    /// Seconds east of UTC.
    pub fn offset_seconds(&self) -> (r: i32)
        ensures
            r == self.offset(),
            offset_in_range(r as int),
    {
        proof {
            use_type_invariant(self);
        }
        self.offset
    }
}

} // verus!
