use roompla::api::{
    add_occupancy, all_rooms, delete_occupancy, get_occupancies, update_occupancy, BookingError, Claims,
    RoomOccupancyParams, TimeRange, ANONYMOUS,
};
use roompla::conflict::check_if_room_available;
use roompla::export::{export_selection, export_window};
use roompla::models::{Occupancy, Room};
use roompla::store::Store;
use roompla::time::parse_rounded;

const H9: i64 = 1614589200;
const H10: i64 = 1614592800;
const H11: i64 = 1614596400;
const H12: i64 = 1614600000;

fn room(id: &str, cap: i32) -> Room {
    Room { id: id.to_string(), max_occupancy: cap, timezone: None }
}

fn caller(id: &str) -> Claims {
    Claims { sub: id.to_string(), name: format!("{} name", id), contact_info: format!("{}@example.org", id), exp: None }
}

fn range(start: &str, end: &str) -> TimeRange {
    TimeRange { start: start.to_string(), end: end.to_string() }
}

fn store_with(rooms: &[(&str, i32)]) -> Store {
    let mut s = Store::new();
    for (id, cap) in rooms {
        assert!(s.add_room(room(id, *cap)));
    }
    s
}

fn count_in_hour(store: &Store, room_id: &str, t: i64) -> usize {
    store.occupancies.iter().filter(|o| o.room == room_id && o.start < t + 3600 && o.end > t).count()
}

#[test]
fn adjacent_booking_after_full_hour_succeeds() {
    let mut s = store_with(&[("A", 1)]);
    let a = caller("alice");
    let first = add_occupancy(&mut s, &"A".to_string(), &a, &range("2021-03-01T09:00:00Z", "2021-03-01T10:00:00Z"));
    let first = first.expect("first booking");
    assert_eq!((first.start, first.end), (H9, H10));
    assert_eq!(first.id, 1);
    // 09:30 and 10:30 are half-way and round to the earlier hours 09:00 and 10:00: the full hour.
    let second = add_occupancy(&mut s, &"A".to_string(), &a, &range("2021-03-01T09:30:00Z", "2021-03-01T10:30:00Z"));
    assert_eq!(second, Err(BookingError::RoomFull));
    let third = add_occupancy(&mut s, &"A".to_string(), &a, &range("2021-03-01T10:00:00Z", "2021-03-01T11:00:00Z"));
    let third = third.expect("adjacent booking");
    assert_eq!((third.start, third.end, third.id), (H10, H11, 2));
    assert_eq!(s.occupancies.len(), 2);
}

#[test]
fn update_to_same_interval_succeeds() {
    let mut s = store_with(&[("A", 1)]);
    let a = caller("alice");
    let r = range("2021-03-01T09:00:00Z", "2021-03-01T11:00:00Z");
    let o = add_occupancy(&mut s, &"A".to_string(), &a, &r).unwrap();
    assert_eq!(update_occupancy(&mut s, &"A".to_string(), o.id, &a, &r), Ok(1));
    assert_eq!((s.occupancies[0].start, s.occupancies[0].end), (H9, H11));
}

#[test]
fn update_moves_own_occupancy() {
    let mut s = store_with(&[("A", 2)]);
    let a = caller("alice");
    let o = add_occupancy(&mut s, &"A".to_string(), &a, &range("2021-03-01T09:00:00Z", "2021-03-01T10:00:00Z")).unwrap();
    let moved = update_occupancy(&mut s, &"A".to_string(), o.id, &a, &range("2021-03-01T11:00:00Z", "2021-03-01T12:00:00Z"));
    assert_eq!(moved, Ok(1));
    assert_eq!((s.occupancies[0].start, s.occupancies[0].end), (H11, H12));
}

#[test]
fn update_into_full_hour_is_conflict() {
    let mut s = store_with(&[("A", 1)]);
    let a = caller("alice");
    let b = caller("bob");
    add_occupancy(&mut s, &"A".to_string(), &a, &range("2021-03-01T09:00:00Z", "2021-03-01T10:00:00Z")).unwrap();
    let o = add_occupancy(&mut s, &"A".to_string(), &b, &range("2021-03-01T11:00:00Z", "2021-03-01T12:00:00Z")).unwrap();
    let r = update_occupancy(&mut s, &"A".to_string(), o.id, &b, &range("2021-03-01T09:00:00Z", "2021-03-01T10:00:00Z"));
    assert_eq!(r, Err(BookingError::RoomFull));
    assert_eq!((s.occupancies[1].start, s.occupancies[1].end), (H11, H12));
}

#[test]
fn equal_bounds_are_rejected() {
    let mut s = store_with(&[("A", 3)]);
    let a = caller("alice");
    let r = add_occupancy(&mut s, &"A".to_string(), &a, &range("2021-03-01T10:00:00Z", "2021-03-01T10:00:00Z"));
    assert_eq!(r, Err(BookingError::InvalidRange));
    let r = add_occupancy(&mut s, &"A".to_string(), &a, &range("2021-03-01T11:00:00Z", "2021-03-01T10:00:00Z"));
    assert_eq!(r, Err(BookingError::InvalidRange));
    // Both ends round to 10:00.
    let r = add_occupancy(&mut s, &"A".to_string(), &a, &range("2021-03-01T09:40:00Z", "2021-03-01T10:20:00Z"));
    assert_eq!(r, Err(BookingError::InvalidRange));
    assert!(s.occupancies.is_empty());
}

#[test]
fn update_with_reversed_range_is_rejected() {
    let mut s = store_with(&[("A", 3)]);
    let a = caller("alice");
    let o = add_occupancy(&mut s, &"A".to_string(), &a, &range("2021-03-01T09:00:00Z", "2021-03-01T10:00:00Z")).unwrap();
    let r = update_occupancy(&mut s, &"A".to_string(), o.id, &a, &range("2021-03-01T10:00:00Z", "2021-03-01T10:00:00Z"));
    assert_eq!(r, Err(BookingError::InvalidRange));
}

#[test]
fn malformed_time_is_bad_request() {
    let mut s = store_with(&[("A", 3)]);
    let r = add_occupancy(&mut s, &"A".to_string(), &caller("alice"), &range("yesterday", "2021-03-01T10:00:00Z"));
    assert_eq!(r, Err(BookingError::MalformedTime));
}

#[test]
fn unknown_room_is_not_found() {
    let mut s = store_with(&[("A", 3)]);
    let a = caller("alice");
    let r = add_occupancy(&mut s, &"B".to_string(), &a, &range("2021-03-01T09:00:00Z", "2021-03-01T10:00:00Z"));
    assert_eq!(r, Err(BookingError::RoomNotFound));
    let r = update_occupancy(&mut s, &"B".to_string(), 1, &a, &range("2021-03-01T09:00:00Z", "2021-03-01T10:00:00Z"));
    assert_eq!(r, Err(BookingError::RoomNotFound));
    let r = get_occupancies(&s, &"B".to_string(), &a, &RoomOccupancyParams { start: None, end: None });
    assert_eq!(r, Err(BookingError::RoomNotFound));
}

#[test]
fn rounding_goes_to_nearest_hour() {
    assert_eq!(parse_rounded("2021-03-01T09:29:59Z"), Some(H9));
    assert_eq!(parse_rounded("2021-03-01T09:30:00Z"), Some(H9));
    assert_eq!(parse_rounded("2021-03-01T09:30:00.000000001Z"), Some(H10));
    assert_eq!(parse_rounded("1969-12-31T23:30:00Z"), Some(-3600));
    assert_eq!(parse_rounded("1969-12-31T23:30:01Z"), Some(0));
    assert_eq!(parse_rounded("2021-03-01T10:10:00.5+01:00"), Some(H9));
    assert_eq!(parse_rounded("not a time"), None);
}

#[test]
fn rounding_aligned_time_is_no_op() {
    assert_eq!(parse_rounded("2021-03-01T10:00:00Z"), Some(H10));
    assert_eq!(parse_rounded("2021-03-01T11:00:00+01:00"), Some(H10));
}

#[test]
fn capacity_never_exceeded_after_many_attempts() {
    let mut s = store_with(&[("A", 2), ("B", 1)]);
    let users = ["u1", "u2", "u3"];
    let mut seed: u64 = 7;
    for step in 0..200 {
        seed = seed.wrapping_mul(6364136223846793005).wrapping_add(1442695040888963407);
        let start_h = (seed >> 33) % 8;
        let len = 1 + (seed >> 40) % 3;
        let room_id = if (seed >> 20) % 2 == 0 { "A" } else { "B" };
        let who = caller(users[((seed >> 50) % 3) as usize]);
        let r = range(
            &format!("2021-03-01T{:02}:00:00Z", 8 + start_h),
            &format!("2021-03-01T{:02}:00:00Z", 8 + start_h + len),
        );
        if step % 5 == 4 && !s.occupancies.is_empty() {
            let id = s.occupancies[(seed as usize >> 3) % s.occupancies.len()].id;
            let _ = update_occupancy(&mut s, &room_id.to_string(), id, &who, &r);
        } else if step % 7 == 6 && !s.occupancies.is_empty() {
            let id = s.occupancies[(seed as usize >> 5) % s.occupancies.len()].id;
            delete_occupancy(&mut s, &room_id.to_string(), id, &who);
        } else {
            let _ = add_occupancy(&mut s, &room_id.to_string(), &who, &r);
        }
        for h in 0..12 {
            let t = H9 - 3600 + h * 3600;
            assert!(count_in_hour(&s, "A", t) <= 2);
            assert!(count_in_hour(&s, "B", t) <= 1);
        }
    }
}

#[test]
fn foreign_update_and_delete_change_nothing() {
    let mut s = store_with(&[("A", 1)]);
    let a = caller("alice");
    let b = caller("bob");
    let o = add_occupancy(&mut s, &"A".to_string(), &a, &range("2021-03-01T09:00:00Z", "2021-03-01T10:00:00Z")).unwrap();
    add_occupancy(&mut s, &"A".to_string(), &a, &range("2021-03-01T11:00:00Z", "2021-03-01T12:00:00Z")).unwrap();
    // Moving into a full hour would conflict, but bob does not own the occupancy.
    let r = update_occupancy(&mut s, &"A".to_string(), o.id, &b, &range("2021-03-01T11:00:00Z", "2021-03-01T12:00:00Z"));
    assert_eq!(r, Ok(0));
    assert_eq!(delete_occupancy(&mut s, &"A".to_string(), o.id, &b), 0);
    assert_eq!(delete_occupancy(&mut s, &"Z".to_string(), o.id, &a), 0);
    assert_eq!(s.occupancies.len(), 2);
    assert_eq!((s.occupancies[0].start, s.occupancies[0].end), (H9, H10));
    assert_eq!(delete_occupancy(&mut s, &"A".to_string(), o.id, &a), 1);
    assert_eq!(s.occupancies.len(), 1);
    assert_eq!(delete_occupancy(&mut s, &"A".to_string(), o.id, &a), 0);
}

fn listing_store() -> Store {
    let mut s = store_with(&[("A", 5), ("B", 5)]);
    add_occupancy(&mut s, &"A".to_string(), &caller("alice"), &range("2021-03-01T09:00:00Z", "2021-03-01T10:00:00Z")).unwrap();
    add_occupancy(&mut s, &"A".to_string(), &caller("bob"), &range("2021-03-01T10:00:00Z", "2021-03-01T12:00:00Z")).unwrap();
    add_occupancy(&mut s, &"B".to_string(), &caller("alice"), &range("2021-03-01T09:00:00Z", "2021-03-01T11:00:00Z")).unwrap();
    add_occupancy(&mut s, &"A".to_string(), &caller("alice"), &range("2021-03-01T11:00:00Z", "2021-03-01T12:00:00Z")).unwrap();
    s
}

fn ids(v: &[Occupancy]) -> Vec<i32> {
    v.iter().map(|o| o.id).collect()
}

#[test]
fn listing_filters_by_bounds() {
    let s = listing_store();
    let a = caller("alice");
    let all = get_occupancies(&s, &"A".to_string(), &a, &RoomOccupancyParams { start: None, end: None }).unwrap();
    assert_eq!(ids(&all), vec![1, 2, 4]);
    let p = RoomOccupancyParams { start: Some("2021-03-01T10:00:00Z".to_string()), end: None };
    assert_eq!(ids(&get_occupancies(&s, &"A".to_string(), &a, &p).unwrap()), vec![2, 4]);
    let p = RoomOccupancyParams { start: None, end: Some("2021-03-01T11:00:00Z".to_string()) };
    assert_eq!(ids(&get_occupancies(&s, &"A".to_string(), &a, &p).unwrap()), vec![1]);
    let p = RoomOccupancyParams { start: Some("2021-03-01T10:00:00Z".to_string()), end: Some("2021-03-01T12:00:00Z".to_string()) };
    assert_eq!(ids(&get_occupancies(&s, &"A".to_string(), &a, &p).unwrap()), vec![2, 4]);
    let p = RoomOccupancyParams { start: Some("2021-03-01T12:00:00Z".to_string()), end: Some("2021-03-01T10:00:00Z".to_string()) };
    assert_eq!(get_occupancies(&s, &"A".to_string(), &a, &p), Err(BookingError::InvalidRange));
    let p = RoomOccupancyParams { start: Some("2021-03-01T10:20:00Z".to_string()), end: Some("2021-03-01T10:20:00Z".to_string()) };
    assert_eq!(get_occupancies(&s, &"A".to_string(), &a, &p), Err(BookingError::InvalidRange));
    // Bounds are compared as given, not rounded.
    let p = RoomOccupancyParams { start: Some("2021-03-01T09:20:00Z".to_string()), end: None };
    assert_eq!(ids(&get_occupancies(&s, &"A".to_string(), &a, &p).unwrap()), vec![2, 4]);
    let p = RoomOccupancyParams { start: None, end: Some("2021-03-01T11:40:00Z".to_string()) };
    assert_eq!(ids(&get_occupancies(&s, &"A".to_string(), &a, &p).unwrap()), vec![1]);
    let p = RoomOccupancyParams { start: Some("2021-03-01T10:00:00.5Z".to_string()), end: None };
    assert_eq!(ids(&get_occupancies(&s, &"A".to_string(), &a, &p).unwrap()), vec![4]);
    let p = RoomOccupancyParams { start: Some("soon".to_string()), end: None };
    assert_eq!(get_occupancies(&s, &"A".to_string(), &a, &p), Err(BookingError::MalformedTime));
}

#[test]
fn listing_redacts_other_users() {
    let s = listing_store();
    let all = get_occupancies(&s, &"A".to_string(), &caller("alice"), &RoomOccupancyParams { start: None, end: None }).unwrap();
    assert_eq!(all[0], s.occupancies[0]);
    assert_eq!(all[2], s.occupancies[3]);
    assert_eq!(all[1].user_id, ANONYMOUS);
    assert_eq!(all[1].user_name, ANONYMOUS);
    assert_eq!(all[1].user_contact, "");
    assert_eq!((all[1].id, all[1].start, all[1].end, all[1].room.as_str()), (2, H10, H12, "A"));
}

#[test]
fn rooms_are_listed_by_identifier() {
    let mut s = store_with(&[("beta", 1), ("alpha", 2), ("Gamma", 3)]);
    assert!(!s.add_room(room("alpha", 4)));
    assert!(!s.add_room(room("delta", 0)));
    let names: Vec<String> = all_rooms(&s).into_iter().map(|r| r.id).collect();
    assert_eq!(names, vec!["Gamma", "alpha", "beta"]);
}

#[test]
fn conflict_check_covers_half_open_range() {
    let r = room("A", 1);
    let existing = vec![Occupancy {
        id: 1,
        start: H10,
        end: H11,
        user_id: "u".to_string(),
        user_name: "n".to_string(),
        user_contact: "c".to_string(),
        room: "A".to_string(),
    }];
    assert!(check_if_room_available(&r, &existing, H9, H10, None));
    assert!(!check_if_room_available(&r, &existing, H9, H11, None));
    assert!(!check_if_room_available(&r, &existing, H10, H11, None));
    assert!(check_if_room_available(&r, &existing, H9, H11, Some(1)));
    assert!(check_if_room_available(&r, &existing, H11, H12, None));
    assert!(check_if_room_available(&room("B", 1), &existing, H10, H11, None));
}

#[test]
fn booking_just_before_a_full_hour_succeeds() {
    let mut s = store_with(&[("A", 1)]);
    let a = caller("alice");
    add_occupancy(&mut s, &"A".to_string(), &a, &range("2021-03-01T10:00:00Z", "2021-03-01T11:00:00Z")).unwrap();
    let before = add_occupancy(&mut s, &"A".to_string(), &a, &range("2021-03-01T09:00:00Z", "2021-03-01T10:00:00Z")).unwrap();
    assert_eq!((before.start, before.end), (H9, H10));
    // Moving it onto itself succeeds although the next hour is full.
    let r = update_occupancy(&mut s, &"A".to_string(), before.id, &a, &range("2021-03-01T09:00:00Z", "2021-03-01T10:00:00Z"));
    assert_eq!(r, Ok(1));
}

#[test]
fn leap_second_is_refused() {
    assert_eq!(parse_rounded("2020-06-01T09:59:60Z"), None);
    assert_eq!(parse_rounded("2020-06-01T09:59:60.25Z"), None);
    let mut s = store_with(&[("A", 1)]);
    let r = add_occupancy(&mut s, &"A".to_string(), &caller("a"), &range("2020-06-01T09:59:60Z", "2020-06-01T11:00:00Z"));
    assert_eq!(r, Err(BookingError::MalformedTime));
}

fn stored(id: i32, start: i64, end: i64, room: &str) -> Occupancy {
    Occupancy {
        id,
        start,
        end,
        user_id: "u".to_string(),
        user_name: "n".to_string(),
        user_contact: "c".to_string(),
        room: room.to_string(),
    }
}

#[test]
fn restoring_keeps_identifiers_and_invariant() {
    let mut s = store_with(&[("A", 1)]);
    assert!(s.restore_occupancy(stored(7, H10, H11, "A")));
    assert_eq!(s.next_id, 8);
    // Adjacent, before the stored one: only its own hour is checked.
    assert!(s.restore_occupancy(stored(3, H9, H10, "A")));
    assert_eq!(s.next_id, 8);
    assert!(!s.restore_occupancy(stored(9, H9, H11, "A")));
    assert!(!s.restore_occupancy(stored(7, H11, H12, "A")));
    assert!(!s.restore_occupancy(stored(10, H11, H12, "Z")));
    assert!(!s.restore_occupancy(stored(11, H11 + 60, H12, "A")));
    assert!(!s.restore_occupancy(stored(0, H11, H12, "A")));
    let o = add_occupancy(&mut s, &"A".to_string(), &caller("x"), &range("2021-03-01T11:00:00Z", "2021-03-01T12:00:00Z")).unwrap();
    assert_eq!(o.id, 8);
}

#[test]
fn export_selects_window_in_start_order() {
    let mut s = store_with(&[("A", 5), ("B", 5)]);
    let a = caller("alice");
    add_occupancy(&mut s, &"A".to_string(), &a, &range("2021-03-01T11:00:00Z", "2021-03-01T12:00:00Z")).unwrap();
    add_occupancy(&mut s, &"B".to_string(), &a, &range("2021-03-01T09:00:00Z", "2021-03-01T10:00:00Z")).unwrap();
    add_occupancy(&mut s, &"A".to_string(), &a, &range("2021-03-01T10:00:00Z", "2021-03-01T11:00:00Z")).unwrap();
    add_occupancy(&mut s, &"A".to_string(), &a, &range("2021-02-01T10:00:00Z", "2021-02-01T11:00:00Z")).unwrap();
    let day = 1614556800;
    assert_eq!(export_window(day, 2), Some((day - 14 * 86400, day + 86399)));
    assert_eq!(export_window(i64::MAX, 0), None);
    let (from, to) = export_window(day, 2).unwrap();
    let rows = export_selection(&s, from, to);
    assert_eq!(rows.iter().map(|o| o.id).collect::<Vec<_>>(), vec![2, 3, 1]);
}
