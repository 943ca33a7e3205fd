use chrono::{DateTime, FixedOffset, Utc};
use reservation::{
    convert_to_timestamp, Reservation, ReservationError, ReservationId, ReservationManager,
    ReservationQuery, ReservationStatus, ReservationStore, Rsvp, Timestamp, UtcDateTime,
};

fn manager() -> ReservationManager {
    ReservationManager::new(ReservationStore::new())
}

fn ts(seconds: i64) -> Timestamp {
    Timestamp { seconds, nanos: 0 }
}

fn parse(text: &str) -> Timestamp {
    let given: DateTime<FixedOffset> = text.parse().unwrap();
    let in_utc = given.with_timezone(&Utc);
    convert_to_timestamp(
        UtcDateTime::from_timestamp(in_utc.timestamp(), in_utc.timestamp_subsec_nanos()).unwrap(),
    )
}

fn request(user: &str, resource: &str, start: i64, end: i64) -> Reservation {
    Reservation {
        id: 0,
        user_id: user.to_string(),
        resource_id: resource.to_string(),
        start_time: Some(ts(start)),
        end_time: Some(ts(end)),
        note: String::new(),
        status: ReservationStatus::Pending,
    }
}

fn everything() -> ReservationQuery {
    ReservationQuery { resource_id: None, user_id: None, status: None, start: None, end: None }
}

fn ids(found: &[Reservation]) -> Vec<ReservationId> {
    found.iter().map(|r| r.id).collect()
}

#[test]
fn reserve_should_work_for_valid_window() {
    let mut manager = manager();
    let rsvp = Reservation {
        id: 0,
        user_id: "wiki".to_string(),
        resource_id: "ocean-view-room-713".to_string(),
        start_time: Some(parse("2024-11-15T00:00:00+08:00")),
        end_time: Some(parse("2024-11-16T12:00:00+08:00")),
        note: "I'll arrive at 3pm. Please help to upgrade to execuitive room if possible."
            .to_string(),
        status: ReservationStatus::Pending,
    };
    let rsvp = manager.reserve(rsvp).unwrap();
    assert_ne!(rsvp.id, 0);
    assert_eq!(rsvp.id, 1);
    assert_eq!(rsvp.status, ReservationStatus::Confirmed);
    assert_eq!(rsvp.user_id, "wiki");
    assert_eq!(rsvp.resource_id, "ocean-view-room-713");
    assert_eq!(rsvp.start_time, Some(ts(1_731_600_000)));
    assert_eq!(rsvp.end_time, Some(ts(1_731_729_600)));
    assert_eq!(
        rsvp.note,
        "I'll arrive at 3pm. Please help to upgrade to execuitive room if possible."
    );
    assert_eq!(manager.get(rsvp.id), Ok(rsvp));
}

#[test]
fn reserve_inside_a_confirmed_window_is_blocked() {
    let mut manager = manager();
    let mut first = request("wiki", "room-713", 0, 1);
    first.start_time = Some(parse("2024-11-15T00:00:00+08:00"));
    first.end_time = Some(parse("2024-11-16T12:00:00+08:00"));
    let first = manager.reserve(first).unwrap();
    assert_eq!(first.status, ReservationStatus::Confirmed);
    let mut second = request("alice", "room-713", 0, 1);
    second.start_time = Some(parse("2024-11-15T06:00:00+08:00"));
    second.end_time = Some(parse("2024-11-15T10:00:00+08:00"));
    let second = manager.reserve(second).unwrap();
    assert_eq!(second.status, ReservationStatus::Blocked);
    assert_ne!(second.id, first.id);
    assert_eq!(manager.store().len(), 2);
    assert_eq!(manager.get(first.id).unwrap().status, ReservationStatus::Confirmed);
}

#[test]
fn reserve_back_to_back_confirms_both() {
    let mut manager = manager();
    let first = manager.reserve(request("u", "room", 100, 200)).unwrap();
    let second = manager.reserve(request("v", "room", 200, 300)).unwrap();
    let before = manager.reserve(request("w", "room", 0, 100)).unwrap();
    assert_eq!(first.status, ReservationStatus::Confirmed);
    assert_eq!(second.status, ReservationStatus::Confirmed);
    assert_eq!(before.status, ReservationStatus::Confirmed);
}

#[test]
fn reserve_with_start_not_before_end_is_invalid_and_stores_nothing() {
    let mut manager = manager();
    manager.reserve(request("u", "room", 100, 200)).unwrap();
    assert_eq!(manager.store().len(), 1);
    assert_eq!(manager.reserve(request("u", "room", 300, 300)), Err(ReservationError::InvalidTime));
    assert_eq!(manager.reserve(request("u", "room", 400, 300)), Err(ReservationError::InvalidTime));
    assert_eq!(manager.reserve(request("u", "other", 150, 150)), Err(ReservationError::InvalidTime));
    let mut by_nanos = request("u", "room", 300, 300);
    by_nanos.start_time = Some(Timestamp { seconds: 300, nanos: 1 });
    assert_eq!(manager.reserve(by_nanos), Err(ReservationError::InvalidTime));
    assert_eq!(manager.store().len(), 1);
    assert_eq!(ids(&manager.query(&everything()).unwrap()), vec![1]);
    // and no id was used up
    assert_eq!(manager.reserve(request("u", "room", 300, 301)).unwrap().id, 2);
}

#[test]
fn reserve_with_a_missing_endpoint_is_invalid() {
    let mut manager = manager();
    let mut no_start = request("u", "room", 100, 200);
    no_start.start_time = None;
    let mut no_end = request("u", "room", 100, 200);
    no_end.end_time = None;
    let mut neither = request("u", "room", 100, 200);
    neither.start_time = None;
    neither.end_time = None;
    assert_eq!(manager.reserve(no_start), Err(ReservationError::InvalidTime));
    assert_eq!(manager.reserve(no_end), Err(ReservationError::InvalidTime));
    assert_eq!(manager.reserve(neither), Err(ReservationError::InvalidTime));
    assert_eq!(manager.store().len(), 0);
}

#[test]
fn reserve_ignores_the_status_and_id_of_the_request() {
    let mut manager = manager();
    let mut asked = request("u", "room", 100, 200);
    asked.status = ReservationStatus::Unknown;
    asked.id = 99;
    let stored = manager.reserve(asked).unwrap();
    assert_eq!(stored.id, 1);
    assert_eq!(stored.status, ReservationStatus::Confirmed);
    let mut again = request("u", "room", 100, 200);
    again.status = ReservationStatus::Confirmed;
    assert_eq!(manager.reserve(again).unwrap().status, ReservationStatus::Blocked);
}

#[test]
fn reserve_twice_for_the_same_window_confirms_exactly_one() {
    for (a, b) in [((100, 200), (100, 200)), ((100, 200), (150, 250)), ((100, 200), (50, 101))] {
        let mut manager = manager();
        let first = manager.reserve(request("u", "room", a.0, a.1)).unwrap();
        let second = manager.reserve(request("v", "room", b.0, b.1)).unwrap();
        assert_eq!(first.status, ReservationStatus::Confirmed);
        assert_eq!(second.status, ReservationStatus::Blocked);
        let confirmed = manager
            .query(&ReservationQuery { status: Some(ReservationStatus::Confirmed), ..everything() })
            .unwrap();
        assert_eq!(confirmed.len(), 1);
    }
}

#[test]
fn reserve_behind_a_confirmed_window_blocks_both_requests() {
    let mut manager = manager();
    manager.reserve(request("t", "room", 0, 1000)).unwrap();
    let first = manager.reserve(request("u", "room", 100, 200)).unwrap();
    let second = manager.reserve(request("v", "room", 100, 200)).unwrap();
    assert_eq!(first.status, ReservationStatus::Blocked);
    assert_eq!(second.status, ReservationStatus::Blocked);
}

#[test]
fn reserve_is_not_blocked_by_unconfirmed_or_foreign_reservations() {
    let mut manager = manager();
    manager.reserve(request("u", "room", 100, 200)).unwrap(); // confirmed
    let blocked = manager.reserve(request("v", "room", 150, 300)).unwrap();
    assert_eq!(blocked.status, ReservationStatus::Blocked);
    // overlaps only the blocked one
    assert_eq!(
        manager.reserve(request("w", "room", 250, 260)).unwrap().status,
        ReservationStatus::Confirmed
    );
    // another resource
    assert_eq!(
        manager.reserve(request("w", "suite", 100, 200)).unwrap().status,
        ReservationStatus::Confirmed
    );
}

#[test]
fn reserve_fails_when_the_store_has_no_id_left() {
    let mut manager = ReservationManager::new(ReservationStore::with_first_id(ReservationId::MAX));
    assert_eq!(
        manager.reserve(request("u", "room", 100, 200)),
        Err(ReservationError::StoreUnavailable)
    );
    assert_eq!(manager.reserve(request("u", "room", 200, 200)), Err(ReservationError::InvalidTime));
    assert_eq!(manager.store().len(), 0);
}

#[test]
fn change_status_requeues_a_blocked_reservation_and_then_confirms_it() {
    let mut manager = manager();
    let held = manager.reserve(request("u", "room", 100, 200)).unwrap();
    let blocked = manager.reserve(request("v", "room", 150, 250)).unwrap();
    assert_eq!(blocked.status, ReservationStatus::Blocked);
    let pending = manager.change_status(blocked.id).unwrap();
    assert_eq!(pending.status, ReservationStatus::Pending);
    assert_eq!(pending, Reservation { status: ReservationStatus::Pending, ..blocked });
    // the first reservation is still in the way
    assert_eq!(manager.change_status(pending.id), Err(ReservationError::ConflictExists));
    assert_eq!(manager.get(pending.id).unwrap().status, ReservationStatus::Pending);
    manager.delete(held.id).unwrap();
    let confirmed = manager.change_status(pending.id).unwrap();
    assert_eq!(confirmed.status, ReservationStatus::Confirmed);
    // the new status is what is on record
    assert_eq!(manager.get(confirmed.id), Ok(confirmed));
}

#[test]
fn change_status_of_a_confirmed_reservation_is_an_invalid_state() {
    let mut manager = manager();
    let held = manager.reserve(request("u", "room", 100, 200)).unwrap();
    assert_eq!(manager.change_status(held.id), Err(ReservationError::InvalidState));
    assert_eq!(manager.get(held.id), Ok(held));
}

#[test]
fn change_status_of_an_unknown_reservation_is_an_invalid_state() {
    let mut store = ReservationStore::new();
    let mut legacy = request("u", "room", 100, 200);
    legacy.status = ReservationStatus::Unknown;
    let id = store.insert(legacy).unwrap();
    let mut manager = ReservationManager::new(store);
    assert_eq!(manager.change_status(id), Err(ReservationError::InvalidState));
    assert_eq!(manager.get(id).unwrap().status, ReservationStatus::Unknown);
}

#[test]
fn change_status_of_a_missing_reservation_is_not_found() {
    let mut manager = manager();
    assert_eq!(manager.change_status(1), Err(ReservationError::NotFound));
    manager.reserve(request("u", "room", 100, 200)).unwrap();
    assert_eq!(manager.change_status(2), Err(ReservationError::NotFound));
}

#[test]
fn change_status_never_confirms_two_overlapping_reservations() {
    let mut manager = manager();
    let first = manager.reserve(request("u", "room", 100, 200)).unwrap();
    let second = manager.reserve(request("v", "room", 100, 200)).unwrap();
    let third = manager.reserve(request("w", "room", 100, 200)).unwrap();
    manager.change_status(second.id).unwrap();
    manager.change_status(third.id).unwrap();
    manager.delete(first.id).unwrap();
    assert_eq!(manager.change_status(third.id).unwrap().status, ReservationStatus::Confirmed);
    assert_eq!(manager.change_status(second.id), Err(ReservationError::ConflictExists));
    let confirmed = manager
        .query(&ReservationQuery { status: Some(ReservationStatus::Confirmed), ..everything() })
        .unwrap();
    assert_eq!(ids(&confirmed), vec![third.id]);
}

#[test]
fn update_note_keeps_interval_and_status() {
    let mut manager = manager();
    let stored = manager.reserve(request("u", "room", 100, 200)).unwrap();
    let updated = manager.update_note(stored.id, "sea view, please".to_string()).unwrap();
    assert_eq!(updated, Reservation { note: "sea view, please".to_string(), ..stored });
    assert_eq!(manager.get(updated.id), Ok(updated));
    assert_eq!(manager.update_note(42, "x".to_string()), Err(ReservationError::NotFound));
}

#[test]
fn delete_then_get_is_not_found() {
    let mut manager = manager();
    let stored = manager.reserve(request("u", "room", 100, 200)).unwrap();
    let other = manager.reserve(request("u", "suite", 100, 200)).unwrap();
    assert_eq!(manager.delete(stored.id), Ok(stored.clone()));
    assert_eq!(manager.get(stored.id), Err(ReservationError::NotFound));
    assert_eq!(manager.delete(stored.id), Err(ReservationError::NotFound));
    assert_eq!(manager.get(other.id), Ok(other));
    // the interval is free again
    assert_eq!(
        manager.reserve(request("v", "room", 100, 200)).unwrap().status,
        ReservationStatus::Confirmed
    );
}

#[test]
fn get_of_a_missing_reservation_is_not_found() {
    let manager = manager();
    assert_eq!(manager.get(0), Err(ReservationError::NotFound));
    assert_eq!(manager.get(1), Err(ReservationError::NotFound));
}

#[test]
fn ids_are_unique_and_never_reused() {
    let mut manager = manager();
    let a = manager.reserve(request("u", "room", 100, 200)).unwrap();
    let b = manager.reserve(request("u", "room", 100, 200)).unwrap();
    manager.delete(b.id).unwrap();
    manager.delete(a.id).unwrap();
    let c = manager.reserve(request("u", "room", 100, 200)).unwrap();
    assert_eq!((a.id, b.id, c.id), (1, 2, 3));
}

#[test]
fn query_by_resource_and_window_returns_overlapping_reservations_in_order() {
    let mut manager = manager();
    manager.reserve(request("u", "room", 500, 600)).unwrap(); // 1
    manager.reserve(request("u", "room", 100, 200)).unwrap(); // 2
    manager.reserve(request("v", "room", 300, 400)).unwrap(); // 3
    manager.reserve(request("v", "suite", 300, 400)).unwrap(); // 4
    manager.reserve(request("w", "room", 150, 350)).unwrap(); // 5, blocked
    manager.reserve(request("w", "room", 600, 700)).unwrap(); // 6
    let window = ReservationQuery {
        resource_id: Some("room".to_string()),
        start: Some(ts(200)),
        end: Some(ts(500)),
        ..everything()
    };
    let found = manager.query(&window).unwrap();
    // [100, 200) ends where the window starts and [500, 600) starts where it ends
    assert_eq!(ids(&found), vec![5, 3]);
    for r in &found {
        assert_eq!(r.resource_id, "room");
        assert!(r.start_time.unwrap().seconds < 500 && 200 < r.end_time.unwrap().seconds);
    }
    let wide = ReservationQuery {
        resource_id: Some("room".to_string()),
        start: Some(ts(0)),
        end: Some(ts(1000)),
        ..everything()
    };
    assert_eq!(ids(&manager.query(&wide).unwrap()), vec![2, 5, 3, 1, 6]);
}

#[test]
fn query_filters_by_user_and_status() {
    let mut manager = manager();
    manager.reserve(request("u", "room", 100, 200)).unwrap(); // 1 confirmed
    manager.reserve(request("v", "room", 100, 200)).unwrap(); // 2 blocked
    manager.reserve(request("u", "suite", 50, 60)).unwrap(); // 3 confirmed
    manager.reserve(request("u", "room", 150, 160)).unwrap(); // 4 blocked
    manager.change_status(4).unwrap(); // pending
    let by_user = ReservationQuery { user_id: Some("u".to_string()), ..everything() };
    assert_eq!(ids(&manager.query(&by_user).unwrap()), vec![3, 1, 4]);
    let blocked = ReservationQuery { status: Some(ReservationStatus::Blocked), ..everything() };
    assert_eq!(ids(&manager.query(&blocked).unwrap()), vec![2]);
    let pending_of_u = ReservationQuery {
        user_id: Some("u".to_string()),
        status: Some(ReservationStatus::Pending),
        ..everything()
    };
    assert_eq!(ids(&manager.query(&pending_of_u).unwrap()), vec![4]);
    let unknown = ReservationQuery { status: Some(ReservationStatus::Unknown), ..everything() };
    assert_eq!(manager.query(&unknown), Ok(vec![]));
}

#[test]
fn query_with_one_bound_leaves_the_window_open_on_the_other_side() {
    let mut manager = manager();
    manager.reserve(request("u", "room", 100, 200)).unwrap(); // 1
    manager.reserve(request("u", "room", 300, 400)).unwrap(); // 2
    manager.reserve(request("u", "room", 500, 600)).unwrap(); // 3
    let from = ReservationQuery { start: Some(ts(350)), ..everything() };
    assert_eq!(ids(&manager.query(&from).unwrap()), vec![2, 3]);
    let from_an_end = ReservationQuery { start: Some(ts(400)), ..everything() };
    assert_eq!(ids(&manager.query(&from_an_end).unwrap()), vec![3]);
    let until = ReservationQuery { end: Some(ts(301)), ..everything() };
    assert_eq!(ids(&manager.query(&until).unwrap()), vec![1, 2]);
    let until_a_start = ReservationQuery { end: Some(ts(300)), ..everything() };
    assert_eq!(ids(&manager.query(&until_a_start).unwrap()), vec![1]);
}

#[test]
fn query_that_selects_nothing_is_empty_and_no_error() {
    let mut manager = manager();
    assert_eq!(manager.query(&everything()), Ok(vec![]));
    manager.reserve(request("u", "room", 100, 200)).unwrap();
    let elsewhere = ReservationQuery { resource_id: Some("suite".to_string()), ..everything() };
    assert_eq!(manager.query(&elsewhere), Ok(vec![]));
    let later = ReservationQuery { start: Some(ts(200)), end: Some(ts(300)), ..everything() };
    assert_eq!(manager.query(&later), Ok(vec![]));
}

#[test]
fn query_window_goes_by_the_two_bounds_alone() {
    let mut manager = manager();
    manager.reserve(request("u", "room", 100, 200)).unwrap(); // 1
    manager.reserve(request("u", "room", 130, 170)).unwrap(); // 2
    // bounds in the wrong order select what starts before the one and ends after the other
    let inverted = ReservationQuery { start: Some(ts(180)), end: Some(ts(120)), ..everything() };
    assert_eq!(ids(&manager.query(&inverted).unwrap()), vec![1]);
    let point = ReservationQuery { start: Some(ts(150)), end: Some(ts(150)), ..everything() };
    assert_eq!(ids(&manager.query(&point).unwrap()), vec![1, 2]);
}

#[test]
fn reserve_with_an_endpoint_that_names_no_point_in_time_is_invalid() {
    let mut manager = manager();
    manager.reserve(request("u", "room", 100, 200)).unwrap();
    let broken = [
        Timestamp { seconds: 300, nanos: -1 },
        Timestamp { seconds: 300, nanos: i32::MIN },
        Timestamp { seconds: 300, nanos: 1_000_000_000 },
        Timestamp { seconds: 359, nanos: i32::MAX },
        Timestamp { seconds: i64::MAX, nanos: 0 },
        Timestamp { seconds: i64::MIN, nanos: 0 },
        Timestamp { seconds: 8_210_266_876_800, nanos: 0 },
        Timestamp { seconds: -8_334_601_228_801, nanos: 0 },
    ];
    for ts in broken {
        let mut bad_start = request("u", "room", 0, 400);
        bad_start.start_time = Some(ts);
        assert_eq!(manager.reserve(bad_start), Err(ReservationError::InvalidTime));
        let mut bad_end = request("u", "room", 0, 400);
        bad_end.end_time = Some(ts);
        assert_eq!(manager.reserve(bad_end), Err(ReservationError::InvalidTime));
    }
    assert_eq!(manager.store().len(), 1);
    // a leap second is a point in time
    let mut leap = request("u", "room", 300, 400);
    leap.start_time = Some(Timestamp { seconds: 359, nanos: 1_500_000_000 });
    assert_eq!(manager.reserve(leap).unwrap().status, ReservationStatus::Confirmed);
}

#[test]
fn timespan_of_a_reservation_is_its_window_or_invalid() {
    let r = request("u", "room", 100, 200);
    let span = r.timespan().unwrap();
    assert_eq!(span.start, UtcDateTime { secs: 100, nanos: 0 });
    assert_eq!(span.end, UtcDateTime { secs: 200, nanos: 0 });
    assert_eq!(request("u", "room", 200, 200).timespan(), Err(ReservationError::InvalidTime));
    assert_eq!(request("u", "room", 200, 100).timespan(), Err(ReservationError::InvalidTime));
    let mut open_ended = request("u", "room", 100, 200);
    open_ended.end_time = None;
    assert_eq!(open_ended.timespan(), Err(ReservationError::InvalidTime));
    let mut broken = request("u", "room", 100, 200);
    broken.start_time = Some(Timestamp { seconds: 100, nanos: -1 });
    assert_eq!(broken.timespan(), Err(ReservationError::InvalidTime));
}

#[test]
fn query_takes_the_bounds_of_its_window_as_they_come() {
    let mut manager = manager();
    manager.reserve(request("u", "room", 100, 200)).unwrap(); // 1
    manager.reserve(request("u", "room", 200, 300)).unwrap(); // 2
    // five nanoseconds short of second 200
    let short = ReservationQuery { start: Some(Timestamp { seconds: 200, nanos: -5 }), ..everything() };
    assert_eq!(ids(&manager.query(&short).unwrap()), vec![1, 2]);
    let exact = ReservationQuery { start: Some(ts(200)), ..everything() };
    assert_eq!(ids(&manager.query(&exact).unwrap()), vec![2]);
    // beyond the calendar on either side
    let never = ReservationQuery { start: Some(ts(i64::MAX)), ..everything() };
    assert_eq!(manager.query(&never), Ok(vec![]));
    let ever = ReservationQuery { start: Some(ts(i64::MIN)), end: Some(ts(i64::MAX)), ..everything() };
    assert_eq!(ids(&manager.query(&ever).unwrap()), vec![1, 2]);
    let over = ReservationQuery {
        end: Some(Timestamp { seconds: 200, nanos: i32::MAX }),
        ..everything()
    };
    assert_eq!(ids(&manager.query(&over).unwrap()), vec![1, 2]);
    let under = ReservationQuery { end: Some(Timestamp { seconds: 200, nanos: 0 }), ..everything() };
    assert_eq!(ids(&manager.query(&under).unwrap()), vec![1]);
}

#[test]
fn query_never_selects_a_reservation_without_an_interval() {
    let mut unstored = request("u", "room", 100, 200);
    assert!(everything().matches(&unstored));
    unstored.end_time = None;
    assert!(!everything().matches(&unstored));
    let inverted = request("u", "room", 200, 100);
    assert!(!everything().matches(&inverted));
    let by_room = ReservationQuery { resource_id: Some("room".to_string()), ..everything() };
    assert!(by_room.matches(&request("u", "room", 100, 200)));
    assert!(!by_room.matches(&request("u", "suite", 100, 200)));
}
