use chrono::DateTime;
use reservation::conflict::{
    parse_datetime, ParsedInfo, ReservationConflict, ReservationConflictInfo, ReservationWindow,
};
use reservation::fields::TextMap;
use reservation::time::UtcTime;

const ERR_MSG: &str = "Key (resource_id, timespan)=(ocean-view-room-713, [\"2022-12-26 22:00:00+00\",\"2022-12-30 19:00:00+00\")) conflicts with existing key (resource_id, timespan)=(ocean-view-room-713, [\"2022-12-25 22:00:00+00\",\"2022-12-28 19:00:00+00\")).";

fn rfc3339(t: &UtcTime) -> String {
    DateTime::from_timestamp(t.timestamp(), t.timestamp_subsec_nanos())
        .unwrap()
        .to_rfc3339()
}

#[test]
fn parsed_info_should_work() {
    let info: ParsedInfo = ParsedInfo::from_str(ERR_MSG).unwrap();
    assert_eq!(info.new.get("resource_id").unwrap(), "ocean-view-room-713");
    assert_eq!(
        info.new.get("timespan").unwrap(),
        "\"2022-12-26 22:00:00+00\",\"2022-12-30 19:00:00+00\""
    );
    assert_eq!(info.exist.get("resource_id").unwrap(), "ocean-view-room-713");
    assert_eq!(
        info.exist.get("timespan").unwrap(),
        "\"2022-12-25 22:00:00+00\",\"2022-12-28 19:00:00+00\""
    );
}

#[test]
fn hashmap_to_reservationwindow_should_work() {
    let mut map = TextMap::new();
    map.insert("resource_id".to_string(), "ocean-view-room-713".to_string());
    map.insert(
        "timespan".to_string(),
        "\"2022-12-26 22:00:00+00\",\"2022-12-30 19:00:00+00\"".to_string(),
    );
    let window: ReservationWindow = ReservationWindow::try_from(map).unwrap();
    assert_eq!(window.rid, "ocean-view-room-713");
    assert_eq!(rfc3339(&window.start), "2022-12-26T22:00:00+00:00");
    assert_eq!(rfc3339(&window.end), "2022-12-30T19:00:00+00:00");
}

#[test]
fn conflict_error_message_should_parse() {
    let info: ReservationConflictInfo = ReservationConflictInfo::from_str(ERR_MSG).unwrap();

    match info {
        ReservationConflictInfo::Parsed(conflict) => {
            assert_eq!(conflict.new.rid, "ocean-view-room-713");
            assert_eq!(rfc3339(&conflict.new.start), "2022-12-26T22:00:00+00:00");
            assert_eq!(rfc3339(&conflict.new.end), "2022-12-30T19:00:00+00:00");
            assert_eq!(conflict.exist.rid, "ocean-view-room-713");
            assert_eq!(rfc3339(&conflict.exist.start), "2022-12-25T22:00:00+00:00");
            assert_eq!(rfc3339(&conflict.exist.end), "2022-12-28T19:00:00+00:00");
        }
        ReservationConflictInfo::Unparsed(_) => panic!("should be parsed!"),
    }
}

#[test]
fn conflict_from_str_reads_both_windows() {
    let conflict = ReservationConflict::from_str(ERR_MSG).unwrap();
    assert_eq!(conflict.new.start.timestamp(), 1672092000);
    assert_eq!(conflict.exist.end.timestamp(), 1672254000);
}

fn groups(k1: &str, k2: &str, v1: &str, v2: &str) -> Vec<Option<String>> {
    vec![
        Some(format!("({}, {})=({}, [{}", k1, k2, v1, v2)),
        Some(k1.to_string()),
        Some(k2.to_string()),
        Some(v1.to_string()),
        Some(v2.to_string()),
    ]
}

#[test]
fn from_captures_takes_exactly_two_matches() {
    let g = groups("resource_id", "timespan", "r", "\"a\",\"b\"");
    assert!(ParsedInfo::from_captures(&None).is_err());
    assert!(ParsedInfo::from_captures(&Some(vec![])).is_err());
    assert!(ParsedInfo::from_captures(&Some(vec![g.clone()])).is_err());
    assert!(ParsedInfo::from_captures(&Some(vec![g.clone(), g.clone(), g.clone()])).is_err());
    let info = ParsedInfo::from_captures(&Some(vec![g.clone(), g])).unwrap();
    assert_eq!(info.new.get("resource_id").unwrap(), "r");
    assert_eq!(info.exist.get("timespan").unwrap(), "\"a\",\"b\"");
}

#[test]
fn from_captures_keeps_the_order_of_the_two_matches() {
    let first = groups("resource_id", "timespan", "new", "x");
    let second = groups("resource_id", "timespan", "old", "y");
    let info = ParsedInfo::from_captures(&Some(vec![first, second])).unwrap();
    assert_eq!(info.new.get("resource_id").unwrap(), "new");
    assert_eq!(info.exist.get("resource_id").unwrap(), "old");
}

#[test]
fn from_captures_needs_all_four_groups() {
    let g = groups("resource_id", "timespan", "r", "x");
    let mut short = g.clone();
    short.pop();
    assert!(ParsedInfo::from_captures(&Some(vec![g.clone(), short])).is_err());
    let mut gap = g.clone();
    gap[3] = None;
    assert!(ParsedInfo::from_captures(&Some(vec![gap, g])).is_err());
}

#[test]
fn from_captures_lets_the_second_key_win() {
    let g = groups("timespan", "timespan", "first", "second");
    let info = ParsedInfo::from_captures(&Some(vec![g.clone(), g])).unwrap();
    assert_eq!(info.new.get("timespan").unwrap(), "second");
}

#[test]
fn diagnostic_is_found_in_the_middle_of_other_text() {
    let text = format!("ERROR: could not insert. DETAIL: {} Try again later.", ERR_MSG);
    let conflict = ReservationConflict::from_str(&text).unwrap();
    assert_eq!(conflict.new.rid, "ocean-view-room-713");
    assert_eq!(rfc3339(&conflict.exist.end), "2022-12-28T19:00:00+00:00");
}

#[test]
fn diagnostic_with_one_group_or_three_is_unparsed() {
    let one = "Key (resource_id, timespan)=(room, [\"2022-12-26 22:00:00+00\",\"2022-12-30 19:00:00+00\"))";
    assert!(ParsedInfo::from_str(one).is_err());
    match ReservationConflictInfo::from_str(one).unwrap() {
        ReservationConflictInfo::Unparsed(raw) => assert_eq!(raw, one),
        ReservationConflictInfo::Parsed(_) => panic!("should not be parsed"),
    }
    let three = format!("{} and {}", ERR_MSG, one);
    assert!(ParsedInfo::from_str(&three).is_err());
    assert!(matches!(
        ReservationConflictInfo::from_str(&three).unwrap(),
        ReservationConflictInfo::Unparsed(_)
    ));
}

#[test]
fn diagnostic_without_groups_is_unparsed() {
    for text in ["", "duplicate key value violates unique constraint"] {
        match ReservationConflictInfo::from_str(text).unwrap() {
            ReservationConflictInfo::Unparsed(raw) => assert_eq!(raw, text),
            ReservationConflictInfo::Parsed(_) => panic!("should not be parsed"),
        }
    }
}

#[test]
fn diagnostic_with_a_bad_time_is_unparsed() {
    let text = ERR_MSG.replace("2022-12-28 19:00:00+00", "2022-12-28 25:00:00+00");
    assert!(ParsedInfo::from_str(&text).is_ok());
    assert!(ReservationConflict::from_str(&text).is_err());
    assert!(matches!(
        ReservationConflictInfo::from_str(&text).unwrap(),
        ReservationConflictInfo::Unparsed(_)
    ));
}

#[test]
fn window_needs_resource_and_timespan() {
    let mut map = TextMap::new();
    map.insert("timespan".to_string(), "\"2022-12-26 22:00:00+00\",\"2022-12-30 19:00:00+00\"".to_string());
    assert!(ReservationWindow::try_from(map).is_err());
    let mut map = TextMap::new();
    map.insert("resource_id".to_string(), "room".to_string());
    assert!(ReservationWindow::try_from(map).is_err());
}

#[test]
fn window_needs_two_times_with_a_comma_between() {
    let mut map = TextMap::new();
    map.insert("resource_id".to_string(), "room".to_string());
    map.insert("timespan".to_string(), "\"2022-12-26 22:00:00+00\"".to_string());
    assert!(ReservationWindow::try_from(map).is_err());
    let mut map = TextMap::new();
    map.insert("resource_id".to_string(), "room".to_string());
    map.insert(
        "timespan".to_string(),
        "\"2022-12-26 22:00:00+00\",\"2022-12-30 19:00:00+00\",\"2022-12-31 19:00:00+00\"".to_string(),
    );
    assert!(ReservationWindow::try_from(map).is_err());
}

#[test]
fn window_times_are_taken_to_utc() {
    let mut map = TextMap::new();
    map.insert("resource_id".to_string(), "room".to_string());
    map.insert(
        "timespan".to_string(),
        "\"2022-12-26 15:00:00-07\",\"2022-12-30 21:30:00+02:30\"".to_string(),
    );
    let window = ReservationWindow::try_from(map).unwrap();
    assert_eq!(rfc3339(&window.start), "2022-12-26T22:00:00+00:00");
    assert_eq!(rfc3339(&window.end), "2022-12-30T19:00:00+00:00");
}

#[test]
fn parse_datetime_reads_the_layout_of_the_diagnostic() {
    assert_eq!(parse_datetime("2022-12-26 22:00:00+00").unwrap().timestamp(), 1_672_092_000);
    assert_eq!(parse_datetime("1970-01-01 00:00:00+00").unwrap().timestamp(), 0);
    assert!(parse_datetime("2022-12-26T22:00:00+00").is_err());
    assert!(parse_datetime("").is_err());
}
