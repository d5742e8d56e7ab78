use reservation::conflict::{ReservationConflict, ReservationConflictInfo, ReservationWindow};
use reservation::error::{DatabaseFailure, Error, StorageFailure};
use reservation::time::UtcTime;

const DETAIL: &str = "Key (resource_id, timespan)=(ocean-view-room-713, [\"2022-12-26 22:00:00+00\",\"2022-12-30 19:00:00+00\")) conflicts with existing key (resource_id, timespan)=(ocean-view-room-713, [\"2022-12-25 22:00:00+00\",\"2022-12-28 19:00:00+00\")).";

fn failure(code: &str, schema: Option<&str>, table: Option<&str>, detail: Option<&str>) -> DatabaseFailure {
    DatabaseFailure {
        code: code.to_string(),
        schema: schema.map(|s| s.to_string()),
        table: table.map(|s| s.to_string()),
        detail: detail.map(|s| s.to_string()),
    }
}

#[test]
fn overlap_with_a_readable_detail_is_a_parsed_conflict() {
    let f = failure("23P01", Some("rsvp"), Some("reservations"), Some(DETAIL));
    assert!(f.is_overlap());
    match Error::from(StorageFailure::Database(f)) {
        Error::ConflictReservation(ReservationConflictInfo::Parsed(c)) => {
            assert_eq!(c.new.rid, "ocean-view-room-713");
            assert_eq!(c.new.start.timestamp(), 1_672_092_000);
            assert_eq!(c.new.end.timestamp(), 1_672_426_800);
            assert_eq!(c.exist.rid, "ocean-view-room-713");
            assert_eq!(c.exist.start.timestamp(), 1_672_005_600);
            assert_eq!(c.exist.end.timestamp(), 1_672_254_000);
        }
        other => panic!("expected a parsed conflict, got {:?}", other),
    }
}

#[test]
fn overlap_with_an_unreadable_detail_is_an_unparsed_conflict() {
    let f = failure("23P01", Some("rsvp"), Some("reservations"), Some("something else"));
    match Error::from(StorageFailure::Database(f)) {
        Error::ConflictReservation(ReservationConflictInfo::Unparsed(raw)) => {
            assert_eq!(raw, "something else");
        }
        other => panic!("expected an unparsed conflict, got {:?}", other),
    }
}

#[test]
fn overlap_without_a_detail_is_an_unparsed_conflict() {
    let f = failure("23P01", Some("rsvp"), Some("reservations"), None);
    match Error::from(StorageFailure::Database(f)) {
        Error::ConflictReservation(ReservationConflictInfo::Unparsed(raw)) => {
            assert_eq!(raw, "");
        }
        other => panic!("expected an unparsed conflict, got {:?}", other),
    }
}

#[test]
fn other_database_failures_are_storage_errors() {
    let cases = [
        failure("23505", Some("rsvp"), Some("reservations"), Some(DETAIL)),
        failure("23P01", Some("public"), Some("reservations"), Some(DETAIL)),
        failure("23P01", Some("rsvp"), Some("other"), Some(DETAIL)),
        failure("23P01", None, Some("reservations"), Some(DETAIL)),
        failure("23P01", Some("rsvp"), None, Some(DETAIL)),
    ];
    for f in cases {
        assert!(!f.is_overlap());
        let code = f.code.clone();
        match Error::from(StorageFailure::Database(f)) {
            Error::StorageError(StorageFailure::Database(d)) => assert_eq!(d.code, code),
            other => panic!("expected a storage error, got {:?}", other),
        }
    }
}

#[test]
fn a_missing_row_is_not_found() {
    assert!(matches!(Error::from(StorageFailure::RowNotFound), Error::NotFound));
}

#[test]
fn a_named_conflict_is_a_parsed_conflict() {
    let t = |s| UtcTime::from_timestamp(s, 0).unwrap();
    let c = ReservationConflict {
        new: ReservationWindow { rid: "r".to_string(), start: t(10), end: t(20) },
        exist: ReservationWindow { rid: "r".to_string(), start: t(15), end: t(30) },
    };
    match Error::from(StorageFailure::Conflict(c)) {
        Error::ConflictReservation(ReservationConflictInfo::Parsed(c)) => {
            assert_eq!(c.new.start.timestamp(), 10);
            assert_eq!(c.exist.end.timestamp(), 30);
        }
        other => panic!("expected a parsed conflict, got {:?}", other),
    }
}

#[test]
fn any_other_failure_is_a_storage_error() {
    match Error::from(StorageFailure::Other("pool timed out".to_string())) {
        Error::StorageError(StorageFailure::Other(text)) => assert_eq!(text, "pool timed out"),
        other => panic!("expected a storage error, got {:?}", other),
    }
}

#[test]
fn refused_overlap_names_the_window_that_was_held() {
    let detail = "Key (resource_id, timespan)=(resource_id, [\"2022-12-26 19:00:00+00\",\"2022-12-30 19:00:00+00\")) conflicts with existing key (resource_id, timespan)=(resource_id, [\"2022-12-25 19:00:00+00\",\"2022-12-31 19:00:00+00\")).";
    let f = failure("23P01", Some("rsvp"), Some("reservations"), Some(detail));
    match Error::from(StorageFailure::Database(f)) {
        Error::ConflictReservation(ReservationConflictInfo::Parsed(info)) => {
            assert_eq!(info.exist.rid, "resource_id");
            assert_eq!(info.exist.start, UtcTime::from_timestamp(1_671_994_800, 0).unwrap());
            assert_eq!(info.exist.end, UtcTime::from_timestamp(1_672_513_200, 0).unwrap());
            assert_eq!(info.new.start, UtcTime::from_timestamp(1_672_081_200, 0).unwrap());
            assert_eq!(info.new.end, UtcTime::from_timestamp(1_672_426_800, 0).unwrap());
        }
        other => panic!("expected a parsed conflict, got {:?}", other),
    }
}
