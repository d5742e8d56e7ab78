//! Reading the diagnostic that the store gives when it refuses a reservation
//! whose window overlaps one already held for the same resource.
//!
//! The diagnostic names two rows, the one that was offered and the one that
//! was already there, in that order. Each is written as a group
//! `(key, key)=(value, [value`, in which one key is `resource_id` and the
//! other `timespan`; the time span holds two quoted times with a comma
//! between them. Text around and between the two groups is passed over.

use crate::fields::TextMap;
use crate::text::{remove_char, split_at_first, split_once, without_char};
use crate::time::{parsed_datetime, time_of_parts, FixedOffsetTime, Instant, UtcTime};
use std::convert::Infallible;
use vstd::prelude::*;

verus! {

/// The shape of one group of the diagnostic, as a regular expression with
/// four capture groups: first key, second key, first value, second value.
pub const GROUP_PATTERN: &'static str =
    r#"\((?P<k1>[a-zA-Z0-9_-]+)\s*,\s*(?P<k2>[a-zA-Z0-9_-]+)\)=\((?P<v1>[a-zA-Z0-9_-]+)\s*,\s*\[(?P<v2>[^\)\]]+)"#;

/// The layout of a time in the diagnostic: date, time of day and offset.
pub const TIME_FORMAT: &'static str = "%Y-%m-%d %H:%M:%S%#z";

/// The key under which a group holds the resource.
pub const RESOURCE_KEY: &'static str = "resource_id";

/// The key under which a group holds the time span.
pub const TIMESPAN_KEY: &'static str = "timespan";

/// One window of time on one resource: from `start` up to, not including,
/// `end`.
#[derive(Debug)]
pub struct ReservationWindow {
    pub rid: String,
    pub start: UtcTime,
    pub end: UtcTime,
}

/// The model of a `ReservationWindow`.
pub struct WindowView {
    pub rid: Seq<char>,
    pub start: Instant,
    pub end: Instant,
}

impl View for ReservationWindow {
    type V = WindowView;

    open spec fn view(&self) -> WindowView {
        WindowView { rid: self.rid@, start: self.start@, end: self.end@ }
    }
}

/// Two windows that overlap: the one that was offered and the one that was
/// already held.
#[derive(Debug)]
pub struct ReservationConflict {
    pub new: ReservationWindow,
    pub exist: ReservationWindow,
}

/// The model of a `ReservationConflict`.
pub struct ConflictView {
    pub new: WindowView,
    pub exist: WindowView,
}

impl View for ReservationConflict {
    type V = ConflictView;

    open spec fn view(&self) -> ConflictView {
        ConflictView { new: self.new@, exist: self.exist@ }
    }
}

/// What is known of a conflict: the two windows, or, where the diagnostic
/// could not be read, the diagnostic itself.
#[derive(Debug)]
pub enum ReservationConflictInfo {
    Parsed(ReservationConflict),
    Unparsed(String),
}

/// The model of a `ReservationConflictInfo`.
pub enum ConflictInfoView {
    Parsed(ConflictView),
    Unparsed(Seq<char>),
}

impl View for ReservationConflictInfo {
    type V = ConflictInfoView;

    open spec fn view(&self) -> ConflictInfoView {
        match self {
            ReservationConflictInfo::Parsed(c) => ConflictInfoView::Parsed(c@),
            ReservationConflictInfo::Unparsed(s) => ConflictInfoView::Unparsed(s@),
        }
    }
}

/// The two groups of a diagnostic, each as a map from key to value.
#[derive(Debug)]
pub struct ParsedInfo {
    pub new: TextMap,
    pub exist: TextMap,
}

/// What the `regex` crate finds of `pattern` in `haystack`: one entry for
/// each match, from left to right, matches not overlapping, and in each entry
/// one text for each capture group of the pattern, the whole match first; a
/// group that took no part in the match gives `None`. `None` for the whole
/// where `pattern` is no regular expression that the crate accepts.
pub uninterp spec fn regex_captures(pattern: Seq<char>, haystack: Seq<char>) -> Option<
    Seq<Seq<Option<Seq<char>>>>,
>;

/// Compiles `pattern` with `regex::Regex::new` and walks `haystack` with
/// `Regex::captures_iter`, copying out the text of every group of every
/// match. The contract only names the result.
#[verifier::external_body]
fn find_captures(pattern: &str, haystack: &str) -> (r: Option<Vec<Vec<Option<String>>>>)
    ensures
        r.deep_view() == regex_captures(pattern@, haystack@),
{
    let re = regex::Regex::new(pattern).ok()?;
    Some(
        re.captures_iter(haystack).map(
            |c| c.iter().map(|g| g.map(|m| m.as_str().to_string())).collect(),
        ).collect(),
    )
}

/// The instant that a time of the diagnostic names.
pub open spec fn datetime_of(text: Seq<char>) -> Option<Instant> {
    match time_of_parts(parsed_datetime(text, TIME_FORMAT@)) {
        Some((i, _)) => Some(i),
        None => None,
    }
}

/// Reads one time of the diagnostic and gives it in UTC.
pub fn parse_datetime(s: &str) -> (r: Result<UtcTime, ()>)
    ensures
        match r {
            Ok(t) => datetime_of(s@) == Some(t@),
            Err(_) => datetime_of(s@) is None,
        },
{
    match FixedOffsetTime::parse_from_str(s, TIME_FORMAT) {
        Some(t) => Ok(t.to_utc()),
        None => Err(()),
    }
}

/// The map that the groups of one match make: first key to first value,
/// second key to second value. `None` where one of the four is missing.
pub open spec fn group_map(groups: Seq<Option<Seq<char>>>) -> Option<Map<Seq<char>, Seq<char>>> {
    if groups.len() >= 5 && groups[1] is Some && groups[2] is Some && groups[3] is Some
        && groups[4] is Some {
        Some(
            Map::<Seq<char>, Seq<char>>::empty().insert(groups[1]->0, groups[3]->0).insert(
                groups[2]->0,
                groups[4]->0,
            ),
        )
    } else {
        None
    }
}

/// The two maps of a diagnostic in which exactly two groups were found.
pub open spec fn parsed_info_of(found: Option<Seq<Seq<Option<Seq<char>>>>>) -> Option<
    (Map<Seq<char>, Seq<char>>, Map<Seq<char>, Seq<char>>),
> {
    match found {
        Some(matches) => if matches.len() == 2 {
            match (group_map(matches[0]), group_map(matches[1])) {
                (Some(new), Some(exist)) => Some((new, exist)),
                _ => None,
            }
        } else {
            None
        },
        None => None,
    }
}

/// The window that a map of one group describes. The map has to hold a
/// resource and a time span, and the time span, its quotes taken out, has to
/// be two times with a comma between them.
pub open spec fn window_of(fields: Map<Seq<char>, Seq<char>>) -> Option<WindowView> {
    if fields.contains_key(TIMESPAN_KEY@) && fields.contains_key(RESOURCE_KEY@) {
        match split_at_first(without_char(fields[TIMESPAN_KEY@], '"'), ',') {
            Some((first, second)) => match (datetime_of(first), datetime_of(second)) {
                (Some(start), Some(end)) => Some(
                    WindowView { rid: fields[RESOURCE_KEY@], start, end },
                ),
                _ => None,
            },
            None => None,
        }
    } else {
        None
    }
}

/// The conflict that two maps describe.
pub open spec fn conflict_of_maps(
    new: Map<Seq<char>, Seq<char>>,
    exist: Map<Seq<char>, Seq<char>>,
) -> Option<ConflictView> {
    match (window_of(new), window_of(exist)) {
        (Some(n), Some(e)) => Some(ConflictView { new: n, exist: e }),
        _ => None,
    }
}

/// The conflict that a diagnostic describes.
pub open spec fn conflict_of(text: Seq<char>) -> Option<ConflictView> {
    match parsed_info_of(regex_captures(GROUP_PATTERN@, text)) {
        Some((new, exist)) => conflict_of_maps(new, exist),
        None => None,
    }
}

/// What is known of the conflict that a diagnostic reports.
pub open spec fn conflict_info_of(text: Seq<char>) -> ConflictInfoView {
    match conflict_of(text) {
        Some(c) => ConflictInfoView::Parsed(c),
        None => ConflictInfoView::Unparsed(text),
    }
}

/// Builds the map of one match from its groups.
fn map_of_groups(groups: &Vec<Option<String>>) -> (r: Option<TextMap>)
    ensures
        match r {
            Some(m) => group_map(groups.deep_view()) == Some(m@),
            None => group_map(groups.deep_view()) is None,
        },
{
    if groups.len() < 5 {
        return None;
    }
    proof {
        assert(groups.deep_view()[1] == groups@[1].deep_view());
        assert(groups.deep_view()[2] == groups@[2].deep_view());
        assert(groups.deep_view()[3] == groups@[3].deep_view());
        assert(groups.deep_view()[4] == groups@[4].deep_view());
    }
    match (&groups[1], &groups[2], &groups[3], &groups[4]) {
        (Some(k1), Some(k2), Some(v1), Some(v2)) => {
            let mut m = TextMap::new();
            m.insert(k1.clone(), v1.clone());
            m.insert(k2.clone(), v2.clone());
            Some(m)
        },
        _ => None,
    }
}

impl ParsedInfo {
    /// The two groups among what was found in a diagnostic. There have to be
    /// exactly two matches, each with its four groups.
    pub fn from_captures(found: &Option<Vec<Vec<Option<String>>>>) -> (r: Result<ParsedInfo, ()>)
        ensures
            match r {
                Ok(info) => parsed_info_of(found.deep_view()) == Some((info.new@, info.exist@)),
                Err(_) => parsed_info_of(found.deep_view()) is None,
            },
    {
        match found {
            Some(matches) => {
                if matches.len() != 2 {
                    return Err(());
                }
                proof {
                    assert(matches.deep_view()[0] == matches@[0].deep_view());
                    assert(matches.deep_view()[1] == matches@[1].deep_view());
                }
                let new = map_of_groups(&matches[0]);
                let exist = map_of_groups(&matches[1]);
                match (new, exist) {
                    (Some(new), Some(exist)) => Ok(ParsedInfo { new, exist }),
                    _ => Err(()),
                }
            },
            None => Err(()),
        }
    }

    /// Finds the two groups of a diagnostic.
    pub fn from_str(s: &str) -> (r: Result<ParsedInfo, ()>)
        ensures
            match r {
                Ok(info) => parsed_info_of(regex_captures(GROUP_PATTERN@, s@)) == Some(
                    (info.new@, info.exist@),
                ),
                Err(_) => parsed_info_of(regex_captures(GROUP_PATTERN@, s@)) is None,
            },
    {
        let found = find_captures(GROUP_PATTERN, s);
        ParsedInfo::from_captures(&found)
    }
}

impl ReservationWindow {
    /// The window that the map of one group describes.
    pub fn try_from(value: TextMap) -> (r: Result<ReservationWindow, ()>)
        ensures
            match r {
                Ok(w) => window_of(value@) == Some(w@),
                Err(_) => window_of(value@) is None,
            },
    {
        let timespan = match value.get(TIMESPAN_KEY) {
            Some(t) => remove_char(t.as_str(), '"'),
            None => {
                return Err(());
            },
        };
        let (first, second) = match split_once(timespan.as_str(), ',') {
            Some(pair) => pair,
            None => {
                return Err(());
            },
        };
        let start = match parse_datetime(first) {
            Ok(t) => t,
            Err(_) => {
                return Err(());
            },
        };
        let end = match parse_datetime(second) {
            Ok(t) => t,
            Err(_) => {
                return Err(());
            },
        };
        match value.get(RESOURCE_KEY) {
            Some(rid) => Ok(ReservationWindow { rid: rid.clone(), start, end }),
            None => Err(()),
        }
    }
}

impl ReservationConflict {
    /// The conflict that the two groups of a diagnostic describe.
    pub fn try_from(value: ParsedInfo) -> (r: Result<ReservationConflict, ()>)
        ensures
            match r {
                Ok(c) => conflict_of_maps(value.new@, value.exist@) == Some(c@),
                Err(_) => conflict_of_maps(value.new@, value.exist@) is None,
            },
    {
        let new = match ReservationWindow::try_from(value.new) {
            Ok(w) => w,
            Err(_) => {
                return Err(());
            },
        };
        let exist = match ReservationWindow::try_from(value.exist) {
            Ok(w) => w,
            Err(_) => {
                return Err(());
            },
        };
        Ok(ReservationConflict { new, exist })
    }

    /// The conflict that a diagnostic describes.
    pub fn from_str(s: &str) -> (r: Result<ReservationConflict, ()>)
        ensures
            match r {
                Ok(c) => conflict_of(s@) == Some(c@),
                Err(_) => conflict_of(s@) is None,
            },
    {
        match ParsedInfo::from_str(s) {
            Ok(info) => ReservationConflict::try_from(info),
            Err(_) => Err(()),
        }
    }
}

impl ReservationConflictInfo {
    /// What is known of the conflict that a diagnostic reports: the two
    /// windows where it can be read, the diagnostic itself where it cannot.
    pub fn from_str(s: &str) -> (r: Result<ReservationConflictInfo, Infallible>)
        ensures
            r matches Ok(info) && info@ == conflict_info_of(s@),
    {
        match ReservationConflict::from_str(s) {
            Ok(conflict) => Ok(ReservationConflictInfo::Parsed(conflict)),
            Err(_) => Ok(ReservationConflictInfo::Unparsed(s.to_owned())),
        }
    }
}

} // verus!
