use chrono::{DateTime, FixedOffset};
use reservation::conflict::ReservationConflictInfo;
use reservation::error::{Error, StorageFailure};
use reservation::manager::{ReservationManager, Rsvp};
use reservation::query::ReservationQuery;
use reservation::reservation::Reservation;
use reservation::status::ReservationStatus;
use reservation::store::MemoryStore;
use reservation::time::{FixedOffsetTime, Timestamp, UtcTime};

fn time(text: &str) -> FixedOffsetTime {
    let t: DateTime<FixedOffset> = text.parse().unwrap();
    let utc = UtcTime::from_timestamp(t.timestamp(), t.timestamp_subsec_nanos()).unwrap();
    FixedOffsetTime::new(utc, t.offset().local_minus_utc()).unwrap()
}

fn rfc3339(t: &UtcTime) -> String {
    DateTime::from_timestamp(t.timestamp(), t.timestamp_subsec_nanos())
        .unwrap()
        .to_rfc3339()
}

fn make_basic_reservation(
    uid: &str,
    rid: &str,
    start: &str,
    end: &str,
    note: &str,
) -> (Reservation, ReservationManager) {
    let mut manager = ReservationManager::new(MemoryStore::new());
    let rsvp = Reservation::new_pending(uid, rid, time(start), time(end), note);
    (manager.reserve(rsvp).unwrap(), manager)
}

fn make_reservation() -> (Reservation, ReservationManager) {
    make_basic_reservation(
        "user_id1",
        "resource_id",
        "2022-12-25T12:00:00-0700",
        "2022-12-31T12:00:00-0700",
        "Test note1",
    )
}

#[test]
fn reserve_should_work_for_valid_window() {
    let (rsvp, _) = make_reservation();
    assert!(!rsvp.id.is_empty());
}

#[test]
fn reserve_conflict_reservation_should_reject() {
    let (_, mut manager) = make_reservation();
    let rsvp2 = Reservation::new_pending(
        "user_id2",
        "resource_id",
        time("2022-12-26T12:00:00-0700"),
        time("2022-12-30T12:00:00-0700"),
        "Test note2",
    );
    let err = manager.reserve(rsvp2).unwrap_err();
    if let Error::ConflictReservation(ReservationConflictInfo::Parsed(info)) = err {
        assert_eq!(info.exist.rid, "resource_id");
        assert_eq!(rfc3339(&info.exist.start), "2022-12-25T19:00:00+00:00");
        assert_eq!(rfc3339(&info.exist.end), "2022-12-31T19:00:00+00:00");
    } else {
        panic!("expect conflict reservation error");
    }
}

#[test]
fn reserve_change_status_should_work() {
    let (rsvp, mut manager) = make_reservation();
    let rsvp = manager.change_status(rsvp.id).unwrap();

    assert_eq!(rsvp.status, ReservationStatus::Confirmed.as_i32())
}

#[test]
fn update_note_should_work() {
    let (rsvp, mut manager) = make_reservation();
    let rsvp = manager
        .update_note(rsvp.id, "Updated Note!!!".to_owned())
        .unwrap();

    assert_eq!(rsvp.note, "Updated Note!!!")
}

#[test]
fn get_and_delete_reservation_should_work() {
    let (rsvp, mut manager) = make_reservation();
    let data = manager.get(rsvp.id.clone()).unwrap();
    assert_eq!(rsvp, data);
    let result = manager.delete(rsvp.id.clone());
    assert!(result.is_ok());
}

#[test]
fn query_reservations_should_work() {
    let (rsvp, manager) = make_reservation();
    let query = ReservationQuery::new(
        "user_id1",
        "",
        time("2022-12-01T12:00:00-0700").to_utc(),
        time("2022-12-31T12:00:00-0700").to_utc(),
        ReservationStatus::Pending,
        1,
        10,
        false,
    );
    let rsvps = manager.query(query).unwrap();

    assert_eq!(rsvps.len(), 1);
    assert_eq!(rsvp, rsvps[0]);
}

#[test]
fn reserve_keeps_everything_but_the_id() {
    let (rsvp, _) = make_reservation();
    assert_eq!(rsvp.id, "00000000-0000-0000-0000-000000000000");
    assert_eq!(rsvp.user_id, "user_id1");
    assert_eq!(rsvp.resource_id, "resource_id");
    assert_eq!(rsvp.note, "Test note1");
    assert_eq!(rsvp.status, ReservationStatus::Pending.as_i32());
    assert_eq!(rsvp.start.unwrap().seconds, 1_671_994_800);
    assert_eq!(rsvp.end.unwrap().seconds, 1_672_513_200);
}

#[test]
fn reserve_rejects_a_window_that_ends_before_it_starts() {
    let mut manager = ReservationManager::new(MemoryStore::new());
    let rsvp = Reservation::new_pending(
        "user_id1",
        "resource_id",
        time("2022-12-31T12:00:00-0700"),
        time("2022-12-25T12:00:00-0700"),
        "note",
    );
    assert!(matches!(rsvp.validate(), Err(Error::InvalidTime)));
    assert!(matches!(manager.reserve(rsvp), Err(Error::InvalidTime)));
    assert_eq!(manager.len(), 0);
}

#[test]
fn reserve_rejects_an_empty_window() {
    let mut manager = ReservationManager::new(MemoryStore::new());
    let rsvp = Reservation::new_pending(
        "user_id1",
        "resource_id",
        time("2022-12-25T12:00:00-0700"),
        time("2022-12-25T12:00:00-0700"),
        "note",
    );
    assert!(matches!(manager.reserve(rsvp), Err(Error::InvalidTime)));
    assert_eq!(manager.len(), 0);
}

#[test]
fn reserve_rejects_a_missing_user_or_resource() {
    let mut manager = ReservationManager::new(MemoryStore::new());
    let start = time("2022-12-25T12:00:00-0700");
    let end = time("2022-12-31T12:00:00-0700");
    let rsvp = Reservation::new_pending("", "resource_id", start, end, "note");
    assert!(matches!(manager.reserve(rsvp), Err(Error::InvalidUserId(id)) if id.is_empty()));
    let rsvp = Reservation::new_pending("user_id1", "", start, end, "note");
    assert!(matches!(manager.reserve(rsvp), Err(Error::InvalidResourceId(id)) if id.is_empty()));
    let rsvp = Reservation::new_pending("", "", end, start, "note");
    assert!(matches!(manager.reserve(rsvp), Err(Error::InvalidUserId(_))));
    assert_eq!(manager.len(), 0);
}

#[test]
fn reserve_takes_windows_that_do_not_overlap() {
    let (_, mut manager) = make_reservation();
    let touching = Reservation::new_pending(
        "user_id2",
        "resource_id",
        time("2022-12-31T12:00:00-0700"),
        time("2023-01-02T12:00:00-0700"),
        "right behind",
    );
    assert!(manager.reserve(touching).is_ok());
    let before = Reservation::new_pending(
        "user_id2",
        "resource_id",
        time("2022-12-20T12:00:00-0700"),
        time("2022-12-25T12:00:00-0700"),
        "right before",
    );
    assert!(manager.reserve(before).is_ok());
    let elsewhere = Reservation::new_pending(
        "user_id2",
        "other_resource",
        time("2022-12-26T12:00:00-0700"),
        time("2022-12-30T12:00:00-0700"),
        "same time, other resource",
    );
    assert!(manager.reserve(elsewhere).is_ok());
    assert_eq!(manager.len(), 4);
}

#[test]
fn reserve_conflict_names_the_window_asked_for() {
    let (_, mut manager) = make_reservation();
    let rsvp2 = Reservation::new_pending(
        "user_id2",
        "resource_id",
        time("2022-12-20T12:00:00-0700"),
        time("2022-12-25T12:00:01-0700"),
        "one second too long",
    );
    match manager.reserve(rsvp2) {
        Err(Error::ConflictReservation(ReservationConflictInfo::Parsed(info))) => {
            assert_eq!(info.new.rid, "resource_id");
            assert_eq!(rfc3339(&info.new.start), "2022-12-20T19:00:00+00:00");
            assert_eq!(rfc3339(&info.new.end), "2022-12-25T19:00:01+00:00");
        }
        other => panic!("expected a conflict, got {:?}", other),
    }
    assert_eq!(manager.len(), 1);
}

#[test]
fn change_status_twice_is_not_found() {
    let (rsvp, mut manager) = make_reservation();
    let confirmed = manager.change_status(rsvp.id.clone()).unwrap();
    assert_eq!(confirmed.id, rsvp.id);
    assert_eq!(confirmed.note, rsvp.note);
    assert!(matches!(manager.change_status(rsvp.id.clone()), Err(Error::NotFound)));
    let stored = manager.get(rsvp.id).unwrap();
    assert_eq!(stored.status, ReservationStatus::Confirmed.as_i32());
}

#[test]
fn change_status_of_an_unknown_id_is_not_found() {
    let (_, mut manager) = make_reservation();
    let id = "550e8400-e29b-41d4-a716-446655440000".to_string();
    assert!(matches!(manager.change_status(id), Err(Error::NotFound)));
}

#[test]
fn ill_formed_ids_are_refused() {
    let (_, mut manager) = make_reservation();
    let bad = "not-an-id".to_string();
    assert!(matches!(manager.change_status(bad.clone()), Err(Error::InvalidReservationId(id)) if id == bad));
    assert!(matches!(manager.update_note(bad.clone(), "n".to_string()), Err(Error::InvalidReservationId(_))));
    assert!(matches!(manager.delete(bad.clone()), Err(Error::InvalidReservationId(_))));
    assert!(matches!(manager.get(bad), Err(Error::InvalidReservationId(_))));
    assert_eq!(manager.len(), 1);
}

#[test]
fn ids_are_read_in_every_form_of_a_uuid() {
    let (rsvp, manager) = make_reservation();
    let simple = "00000000000000000000000000000000".to_string();
    assert_eq!(manager.get(simple).unwrap(), rsvp);
}

#[test]
fn update_note_changes_only_the_note() {
    let (rsvp, mut manager) = make_reservation();
    let updated = manager.update_note(rsvp.id.clone(), "changed".to_owned()).unwrap();
    assert_eq!(updated.note, "changed");
    assert_eq!(updated.id, rsvp.id);
    assert_eq!(updated.user_id, rsvp.user_id);
    assert_eq!(updated.resource_id, rsvp.resource_id);
    assert_eq!(updated.status, rsvp.status);
    assert_eq!(updated.start, rsvp.start);
    assert_eq!(updated.end, rsvp.end);
    assert_eq!(manager.get(rsvp.id).unwrap(), updated);
}

#[test]
fn update_note_works_on_a_confirmed_reservation() {
    let (rsvp, mut manager) = make_reservation();
    manager.change_status(rsvp.id.clone()).unwrap();
    let updated = manager.update_note(rsvp.id, "after".to_owned()).unwrap();
    assert_eq!(updated.note, "after");
    assert_eq!(updated.status, ReservationStatus::Confirmed.as_i32());
}

#[test]
fn update_note_of_an_unknown_id_is_not_found() {
    let (_, mut manager) = make_reservation();
    let id = "550e8400-e29b-41d4-a716-446655440000".to_string();
    assert!(matches!(manager.update_note(id, "n".to_string()), Err(Error::NotFound)));
}

#[test]
fn get_after_delete_is_not_found() {
    let (rsvp, mut manager) = make_reservation();
    manager.delete(rsvp.id.clone()).unwrap();
    assert!(matches!(manager.get(rsvp.id.clone()), Err(Error::NotFound)));
    assert_eq!(manager.len(), 0);
    assert!(manager.delete(rsvp.id).is_ok());
}

#[test]
fn a_deleted_window_can_be_reserved_again() {
    let (rsvp, mut manager) = make_reservation();
    manager.delete(rsvp.id.clone()).unwrap();
    let again = Reservation::new_pending(
        "user_id2",
        "resource_id",
        time("2022-12-26T12:00:00-0700"),
        time("2022-12-30T12:00:00-0700"),
        "second try",
    );
    let saved = manager.reserve(again).unwrap();
    assert_ne!(saved.id, rsvp.id);
}

fn filled_manager() -> ReservationManager {
    let mut manager = ReservationManager::new(MemoryStore::new());
    let rows = [
        ("user_id1", "room-a", "2022-12-20T00:00:00Z", "2022-12-22T00:00:00Z"),
        ("user_id2", "room-b", "2022-12-05T00:00:00Z", "2022-12-06T00:00:00Z"),
        ("user_id1", "room-b", "2022-12-10T00:00:00Z", "2022-12-12T00:00:00Z"),
        ("user_id1", "room-a", "2022-11-01T00:00:00Z", "2022-11-02T00:00:00Z"),
        ("user_id1", "room-c", "2022-12-01T00:00:00Z", "2022-12-03T00:00:00Z"),
        ("user_id1", "room-a", "2022-12-30T00:00:00Z", "2023-01-02T00:00:00Z"),
    ];
    for (uid, rid, start, end) in rows {
        let rsvp = Reservation::new_pending(uid, rid, time(start), time(end), "");
        manager.reserve(rsvp).unwrap();
    }
    manager
}

fn december(user: &str, resource: &str, page: i32, page_size: i32, desc: bool) -> ReservationQuery {
    ReservationQuery::new(
        user,
        resource,
        time("2022-12-01T00:00:00Z").to_utc(),
        time("2022-12-31T00:00:00Z").to_utc(),
        ReservationStatus::Pending,
        page,
        page_size,
        desc,
    )
}

fn starts(found: &[Reservation]) -> Vec<i64> {
    found.iter().map(|r| r.start.unwrap().seconds).collect()
}

#[test]
fn query_lists_the_reservations_of_a_user_by_start() {
    let manager = filled_manager();
    let found = manager.query(december("user_id1", "", 1, 10, false)).unwrap();
    assert_eq!(found.len(), 4);
    assert!(found.iter().all(|r| r.user_id == "user_id1"));
    let s = starts(&found);
    assert_eq!(s, vec![1_669_852_800, 1_670_630_400, 1_671_494_400, 1_672_358_400]);
}

#[test]
fn query_lists_the_latest_first_when_asked_to() {
    let manager = filled_manager();
    let found = manager.query(december("user_id1", "", 1, 10, true)).unwrap();
    assert_eq!(starts(&found), vec![1_672_358_400, 1_671_494_400, 1_670_630_400, 1_669_852_800]);
}

#[test]
fn query_filters_by_resource_and_by_both() {
    let manager = filled_manager();
    let found = manager.query(december("", "room-b", 1, 10, false)).unwrap();
    assert_eq!(found.len(), 2);
    assert!(found.iter().all(|r| r.resource_id == "room-b"));
    let found = manager.query(december("user_id1", "room-b", 1, 10, false)).unwrap();
    assert_eq!(found.len(), 1);
    let found = manager.query(december("", "", 1, 10, false)).unwrap();
    assert_eq!(found.len(), 5);
}

#[test]
fn query_filters_by_status() {
    let mut manager = filled_manager();
    let first = manager.query(december("user_id1", "room-c", 1, 10, false)).unwrap();
    manager.change_status(first[0].id.clone()).unwrap();
    let pending = manager.query(december("user_id1", "", 1, 10, false)).unwrap();
    assert_eq!(pending.len(), 3);
    let confirmed = ReservationQuery::new(
        "user_id1",
        "",
        time("2022-12-01T00:00:00Z").to_utc(),
        time("2022-12-31T00:00:00Z").to_utc(),
        ReservationStatus::Confirmed,
        1,
        10,
        false,
    );
    let found = manager.query(confirmed).unwrap();
    assert_eq!(found.len(), 1);
    assert_eq!(found[0].resource_id, "room-c");
}

#[test]
fn query_pages_are_counted_from_one() {
    let manager = filled_manager();
    let page1 = manager.query(december("user_id1", "", 1, 3, false)).unwrap();
    assert_eq!(starts(&page1), vec![1_669_852_800, 1_670_630_400, 1_671_494_400]);
    let page2 = manager.query(december("user_id1", "", 2, 3, false)).unwrap();
    assert_eq!(starts(&page2), vec![1_672_358_400]);
    let page3 = manager.query(december("user_id1", "", 3, 3, false)).unwrap();
    assert!(page3.is_empty());
    let page0 = manager.query(december("user_id1", "", 0, 3, false)).unwrap();
    assert_eq!(starts(&page0), starts(&page1));
    let none = manager.query(december("user_id1", "", 1, 0, false)).unwrap();
    assert!(none.is_empty());
    let none = manager.query(december("user_id1", "", 1, -5, false)).unwrap();
    assert!(none.is_empty());
    let far = manager.query(december("user_id1", "", i32::MAX, i32::MAX, false)).unwrap();
    assert!(far.is_empty());
}

#[test]
fn query_without_answers_is_empty() {
    let manager = filled_manager();
    let found = manager.query(december("nobody", "", 1, 10, false)).unwrap();
    assert!(found.is_empty());
    let empty = ReservationManager::new(MemoryStore::new());
    assert!(empty.query(december("", "", 1, 10, false)).unwrap().is_empty());
}

#[test]
fn query_about_a_backward_window_is_a_failure_of_the_store() {
    let manager = filled_manager();
    let query = ReservationQuery::new(
        "",
        "",
        time("2022-12-31T00:00:00Z").to_utc(),
        time("2022-12-01T00:00:00Z").to_utc(),
        ReservationStatus::Pending,
        1,
        10,
        false,
    );
    assert!(matches!(query.validate(), Err(Error::InvalidTime)));
    match manager.query(query) {
        Err(Error::StorageError(StorageFailure::Other(text))) => {
            assert_eq!(text, "range lower bound must be less than or equal to range upper bound")
        }
        other => panic!("expected a failure of the store, got {:?}", other),
    }
}

#[test]
fn query_about_a_window_of_no_length_is_empty() {
    let manager = filled_manager();
    for at in ["2022-12-21T00:00:00Z", "2022-12-20T00:00:00Z", "2022-12-22T00:00:00Z", "2000-01-01T00:00:00Z"] {
        let query = ReservationQuery::new(
            "",
            "",
            time(at).to_utc(),
            time(at).to_utc(),
            ReservationStatus::Pending,
            1,
            10,
            false,
        );
        assert!(manager.query(query).unwrap().is_empty());
    }
}

#[test]
fn query_without_a_time_is_invalid_time() {
    let manager = filled_manager();
    let mut query = december("", "", 1, 10, false);
    query.start = None;
    assert!(matches!(manager.query(query), Err(Error::InvalidTime)));
    let mut query = december("", "", 1, 10, false);
    query.end = None;
    assert!(matches!(manager.query(query), Err(Error::InvalidTime)));
    let mut query = december("", "", 1, 10, false);
    query.end = Some(Timestamp { seconds: 0, nanos: -1 });
    assert!(matches!(manager.query(query), Err(Error::InvalidTime)));
}

#[test]
fn query_without_filters_lists_every_user_and_resource() {
    let manager = filled_manager();
    let found = manager.query(december("", "", 1, 10, false)).unwrap();
    let mut pairs: Vec<(String, String)> =
        found.iter().map(|r| (r.user_id.clone(), r.resource_id.clone())).collect();
    pairs.sort();
    let expected: Vec<(String, String)> = [
        ("user_id1", "room-a"),
        ("user_id1", "room-a"),
        ("user_id1", "room-b"),
        ("user_id1", "room-c"),
        ("user_id2", "room-b"),
    ]
    .iter()
    .map(|(u, r)| (u.to_string(), r.to_string()))
    .collect();
    assert_eq!(pairs, expected);
}

#[test]
fn query_lists_the_same_reservations_in_either_order() {
    let manager = filled_manager();
    let up = manager.query(december("", "", 1, 10, false)).unwrap();
    let mut down = manager.query(december("", "", 1, 10, true)).unwrap();
    assert_eq!(up.len(), down.len());
    down.reverse();
    assert_eq!(starts(&up), starts(&down));
    let mut ids: Vec<&String> = up.iter().map(|r| &r.id).collect();
    ids.sort();
    ids.dedup();
    assert_eq!(ids.len(), up.len());
}

#[test]
fn reserve_gives_an_id_of_36_characters() {
    let (rsvp, manager) = make_reservation();
    assert_eq!(rsvp.id.chars().count(), 36);
    assert_eq!(manager.get(rsvp.id.clone()).unwrap().id, rsvp.id);
}

#[test]
fn query_takes_an_unknown_status_number_for_pending() {
    let manager = filled_manager();
    let mut query = december("user_id1", "", 1, 10, false);
    query.status = 42;
    assert_eq!(manager.query(query).unwrap().len(), 4);
}
