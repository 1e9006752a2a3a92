use chrono::{DateTime, FixedOffset};
use reservation::{
    Error, Reservation, ReservationManager, ReservationQuery, RsvpStatus, Rsvp, Timestamp, WindowRelation,
};

fn ts(text: &str) -> Timestamp {
    let t: DateTime<FixedOffset> = text.parse().unwrap();
    Timestamp::new(t.timestamp(), t.timestamp_subsec_nanos() as i32)
}

fn make_reservation() -> (Reservation, ReservationManager) {
    let mut manager = ReservationManager::new();
    let start = ts("2022-12-25T15:00:00-0700");
    let end = ts("2022-12-28T12:00:00-0700");
    let rsvp = Reservation::new_pending(
        "user1".to_string(),
        "resource1".to_string(),
        start,
        end,
        "just note".to_string(),
    );
    (manager.reserve(rsvp).unwrap(), manager)
}

fn candidate(user: &str, resource: &str, start: &str, end: &str) -> Reservation {
    Reservation::new_pending(user.to_string(), resource.to_string(), ts(start), ts(end), String::new())
}

#[test]
fn reserve_should_work_for_valid_windows() {
    let (rsvp, _manager) = make_reservation();
    assert!(rsvp.id > 0);
}

#[test]
fn reserve_change_status_should_work() {
    let (rsvp, mut manager) = make_reservation();
    assert!(rsvp.id > 0);
    let rsvp = manager.change_status(rsvp.id).unwrap();
    assert_eq!(rsvp.status, RsvpStatus::Confirmed);
}

#[test]
fn reserve_update_note_should_work() {
    let (rsvp, mut manager) = make_reservation();
    assert!(rsvp.id > 0);
    let rsvp = manager.update(rsvp.id, "new note".to_string()).unwrap();
    assert_eq!(rsvp.note, "new note");
}

#[test]
fn get_reserve_should_work() {
    let (rsvp, manager) = make_reservation();
    assert!(rsvp.id > 0);
    let rsvp = manager.get(rsvp.id).unwrap();
    assert_eq!(rsvp.note, "just note");
}

#[test]
fn delete_reserve_should_work() {
    let (rsvp, mut manager) = make_reservation();
    assert!(rsvp.id > 0);
    manager.delete(rsvp.id).unwrap();
    let rsvp = manager.get(rsvp.id);
    assert!(rsvp.is_err());
}

#[test]
fn reserve_converts_offsets_to_utc() {
    let (rsvp, _manager) = make_reservation();
    // 2022-12-25T22:00:00Z
    assert_eq!(rsvp.start, Some(Timestamp::new(1672005600, 0)));
    assert_eq!(rsvp.status, RsvpStatus::Pending);
    assert_eq!(rsvp.user_id, "user1");
    assert_eq!(rsvp.resource_id, "resource1");
}

#[test]
fn overlapping_and_adjacent_windows() {
    let mut manager = ReservationManager::new();
    let first = manager
        .reserve(candidate("alice", "room-1", "2024-01-01T10:00:00Z", "2024-01-01T12:00:00Z"))
        .unwrap();
    assert_eq!(first.id, 1);
    let second = manager.reserve(candidate("bob", "room-1", "2024-01-01T11:00:00Z", "2024-01-01T13:00:00Z"));
    assert_eq!(second, Err(Error::Conflict));
    let third = manager
        .reserve(candidate("bob", "room-1", "2024-01-01T12:00:00Z", "2024-01-01T13:00:00Z"))
        .unwrap();
    assert_eq!(third.id, 2);
}

#[test]
fn query_by_resource_is_ordered_by_start() {
    let mut manager = ReservationManager::new();
    manager
        .reserve(candidate("carol", "room-1", "2024-01-01T12:00:00Z", "2024-01-01T13:00:00Z"))
        .unwrap();
    manager
        .reserve(candidate("dave", "room-2", "2024-01-01T09:00:00Z", "2024-01-01T10:00:00Z"))
        .unwrap();
    manager
        .reserve(candidate("alice", "room-1", "2024-01-01T10:00:00Z", "2024-01-01T12:00:00Z"))
        .unwrap();
    assert!(manager
        .reserve(candidate("bob", "room-1", "2024-01-01T11:00:00Z", "2024-01-01T13:00:00Z"))
        .is_err());
    let mut q = ReservationQuery::all();
    q.resource_id = "room-1".to_string();
    let found = manager.query(q).unwrap();
    assert_eq!(found.len(), 2);
    assert_eq!(found[0].user_id, "alice");
    assert_eq!(found[0].id, 3);
    assert_eq!(found[1].user_id, "carol");
    assert_eq!(found[1].id, 1);
}

#[test]
fn query_filters_by_user_status_and_window() {
    let mut manager = ReservationManager::new();
    let a = manager
        .reserve(candidate("alice", "room-1", "2024-01-01T10:00:00Z", "2024-01-01T12:00:00Z"))
        .unwrap();
    manager
        .reserve(candidate("bob", "room-2", "2024-01-01T11:00:00Z", "2024-01-01T15:00:00Z"))
        .unwrap();
    manager.change_status(a.id).unwrap();

    let mut by_user = ReservationQuery::all();
    by_user.user_id = "bob".to_string();
    assert_eq!(manager.query(by_user).unwrap()[0].resource_id, "room-2");

    let mut by_status = ReservationQuery::all();
    by_status.status = RsvpStatus::Confirmed;
    let confirmed = manager.query(by_status).unwrap();
    assert_eq!(confirmed.len(), 1);
    assert_eq!(confirmed[0].id, a.id);

    let mut overlapping = ReservationQuery::all();
    overlapping.start = Some(ts("2024-01-01T12:00:00Z"));
    overlapping.end = Some(ts("2024-01-01T13:00:00Z"));
    let hits = manager.query(overlapping.clone()).unwrap();
    assert_eq!(hits.len(), 1);
    assert_eq!(hits[0].user_id, "bob");

    let mut contains = overlapping.clone();
    contains.relation = WindowRelation::Contains;
    assert_eq!(manager.query(contains).unwrap().len(), 1);

    let mut inside = ReservationQuery::all();
    inside.start = Some(ts("2024-01-01T09:00:00Z"));
    inside.end = Some(ts("2024-01-01T12:00:00Z"));
    inside.relation = WindowRelation::ContainedBy;
    let within = manager.query(inside).unwrap();
    assert_eq!(within.len(), 1);
    assert_eq!(within[0].user_id, "alice");

    assert_eq!(manager.query(ReservationQuery::all()).unwrap().len(), 2);
}

#[test]
fn empty_or_inverted_window_is_rejected() {
    let mut manager = ReservationManager::new();
    let equal = candidate("alice", "room-1", "2024-01-01T10:00:00Z", "2024-01-01T10:00:00Z");
    assert_eq!(manager.reserve(equal), Err(Error::InvalidReservation));
    let inverted = candidate("alice", "room-1", "2024-01-01T11:00:00Z", "2024-01-01T10:00:00Z");
    assert_eq!(manager.reserve(inverted), Err(Error::InvalidReservation));
    let mut missing = candidate("alice", "room-1", "2024-01-01T10:00:00Z", "2024-01-01T11:00:00Z");
    missing.end = None;
    assert_eq!(manager.reserve(missing), Err(Error::InvalidReservation));
    let nanos_first = Reservation::new_pending(
        "alice".to_string(),
        "room-1".to_string(),
        Timestamp::new(100, 5),
        Timestamp::new(100, 4),
        String::new(),
    );
    assert_eq!(nanos_first.validate(), Err(Error::InvalidReservation));
    assert!(manager.query(ReservationQuery::all()).unwrap().is_empty());
}

#[test]
fn empty_resource_is_rejected() {
    let mut manager = ReservationManager::new();
    let c = candidate("alice", "", "2024-01-01T10:00:00Z", "2024-01-01T11:00:00Z");
    assert_eq!(manager.reserve(c), Err(Error::InvalidResourceId(String::new())));
}

#[test]
fn candidate_with_identity_or_without_user_is_rejected() {
    let mut c = candidate("alice", "room-1", "2024-01-01T10:00:00Z", "2024-01-01T11:00:00Z");
    c.id = 42;
    assert_eq!(c.validate(), Err(Error::InvalidUserId("42".to_string())));
    c.id = -7;
    assert_eq!(c.validate(), Err(Error::InvalidUserId("-7".to_string())));
    let nobody = candidate("", "room-1", "2024-01-01T10:00:00Z", "2024-01-01T11:00:00Z");
    assert_eq!(nobody.validate(), Err(Error::InvalidUserId(String::new())));
}

#[test]
fn reserve_forces_pending_status() {
    let mut manager = ReservationManager::new();
    let mut c = candidate("alice", "room-1", "2024-01-01T10:00:00Z", "2024-01-01T11:00:00Z");
    c.status = RsvpStatus::Blocked;
    let r = manager.reserve(c).unwrap();
    assert_eq!(r.status, RsvpStatus::Pending);
}

#[test]
fn other_resources_do_not_conflict() {
    let mut manager = ReservationManager::new();
    manager
        .reserve(candidate("alice", "room-1", "2024-01-01T10:00:00Z", "2024-01-01T12:00:00Z"))
        .unwrap();
    let other = manager.reserve(candidate("alice", "room-2", "2024-01-01T10:00:00Z", "2024-01-01T12:00:00Z"));
    assert_eq!(other.unwrap().id, 2);
}

#[test]
fn change_status_twice_stays_confirmed() {
    let (rsvp, mut manager) = make_reservation();
    let once = manager.change_status(rsvp.id).unwrap();
    let twice = manager.change_status(rsvp.id).unwrap();
    assert_eq!(once, twice);
    assert_eq!(twice.status, RsvpStatus::Confirmed);
    assert_eq!(manager.change_status(999), Err(Error::NotFound));
}

#[test]
fn update_changes_only_the_note() {
    let (rsvp, mut manager) = make_reservation();
    let updated = manager.update(rsvp.id, String::new()).unwrap();
    let expected = Reservation { note: String::new(), ..rsvp.clone() };
    assert_eq!(updated, expected);
    assert_eq!(manager.get(rsvp.id).unwrap(), expected);
    assert_eq!(manager.update(999, "x".to_string()), Err(Error::NotFound));
}

#[test]
fn delete_twice_reports_not_found() {
    let (rsvp, mut manager) = make_reservation();
    assert_eq!(manager.delete(rsvp.id), Ok(()));
    assert_eq!(manager.get(rsvp.id), Err(Error::NotFound));
    assert_eq!(manager.delete(rsvp.id), Err(Error::NotFound));
}

#[test]
fn deleted_window_can_be_booked_again() {
    let mut manager = ReservationManager::new();
    let a = manager
        .reserve(candidate("alice", "room-1", "2024-01-01T10:00:00Z", "2024-01-01T12:00:00Z"))
        .unwrap();
    manager.delete(a.id).unwrap();
    let b = manager
        .reserve(candidate("bob", "room-1", "2024-01-01T11:00:00Z", "2024-01-01T13:00:00Z"))
        .unwrap();
    assert_eq!(b.id, 2);
}

#[test]
fn status_codes_and_names() {
    assert_eq!(RsvpStatus::from_i32(2), Some(RsvpStatus::Confirmed));
    assert_eq!(RsvpStatus::from_i32(4), None);
    assert_eq!(RsvpStatus::from_i32(-1), None);
    assert_eq!(RsvpStatus::Blocked.as_i32(), 3);
    assert_eq!(RsvpStatus::Pending.name(), "pending");
}

#[test]
fn timestamps_order_by_seconds_then_nanos() {
    let a = Timestamp::new(10, 999);
    let b = Timestamp::new(11, 0);
    assert!(a.before(&b));
    assert!(!b.before(&a));
    assert!(Timestamp::new(10, 1).before(&Timestamp::new(10, 2)));
    assert!(!a.before(&a));
    let r = Reservation::new_pending("u".to_string(), "r".to_string(), a, b, String::new());
    assert_eq!(r.get_timestamp(), (a, b));
    assert_eq!(r.duplicate(), r);
}

#[test]
fn query_after_bookings_returns_the_successful_ones() {
    let mut manager = ReservationManager::new();
    let first = manager
        .reserve(candidate("alice", "room-1", "2024-01-01T10:00:00Z", "2024-01-01T12:00:00Z"))
        .unwrap();
    assert_eq!(first.id, 1);
    let clash = manager.reserve(candidate("bob", "room-1", "2024-01-01T11:00:00Z", "2024-01-01T13:00:00Z"));
    assert_eq!(clash, Err(Error::Conflict));
    let adjacent = manager
        .reserve(candidate("bob", "room-1", "2024-01-01T12:00:00Z", "2024-01-01T13:00:00Z"))
        .unwrap();
    let mut q = ReservationQuery::all();
    q.resource_id = "room-1".to_string();
    let found = manager.query(q).unwrap();
    assert_eq!(found, vec![first, adjacent]);
    assert_eq!(found[0].start, Some(ts("2024-01-01T10:00:00Z")));
    assert_eq!(found[1].start, Some(ts("2024-01-01T12:00:00Z")));
}
