//! The occupancy manager: create, update, delete and list occupancies, and
//! list rooms. Each operation takes the store mutably or not at all, so it is
//! one atomic step over the state it reads.
use crate::conflict::{available, check_if_room_available, ids_unique};
use crate::models::{room_views, views, Occupancy, OccupancyView, Room};
use crate::store::{find_room_view, find_target, rooms_sorted, with_range, Store};
use crate::time::{hour_bounds, parse_instant, parse_rounded, rfc3339_instant, rounded_text, total_nanos, NANOS_PER_SEC};
use vstd::prelude::*;

verus! {

/// What stands in place of another user's identity and name in a listing.
pub const ANONYMOUS: &'static str = "<anonym>";

/// A requested time range, as RFC 3339 texts.
#[derive(Debug, Clone, PartialEq, Eq)]
pub struct TimeRange {
    pub start: String,
    pub end: String,
}

/// Optional bounds on a listing, as RFC 3339 texts.
#[derive(Debug, Clone, PartialEq, Eq)]
pub struct RoomOccupancyParams {
    pub start: Option<String>,
    pub end: Option<String>,
}

/// The verified identity of a caller, as carried in a token. `exp` is the
/// expiry in seconds since the epoch; a token without one never expires.
#[derive(Debug, Clone, PartialEq, Eq)]
pub struct Claims {
    pub sub: String,
    pub name: String,
    pub contact_info: String,
    pub exp: Option<i64>,
}

/// Credentials presented at sign-in.
#[derive(Debug, Clone, PartialEq, Eq)]
pub struct LoginData {
    pub user_id: String,
    pub password: String,
}

/// Why a booking operation did not go through.
#[derive(Debug, Clone, Copy, PartialEq, Eq, Structural)]
pub enum BookingError {
    /// A time is not an RFC 3339 date-time, or is a leap second or too far
    /// from the epoch to be rounded.
    MalformedTime,
    /// The range ends at or before its start, once rounded.
    InvalidRange,
    /// No room has the given identifier.
    RoomNotFound,
    /// Some hour of the range is already at the room's capacity.
    RoomFull,
    /// Every occupancy identifier has been handed out.
    IdsExhausted,
}

/// The rounded bounds of a requested range, or why it is refused.
pub open spec fn range_outcome(start: Seq<char>, end: Seq<char>) -> Result<(int, int), BookingError> {
    match (rounded_text(start), rounded_text(end)) {
        (Some(s), Some(e)) => if e <= s {
            Err(BookingError::InvalidRange)
        } else {
            Ok((s, e))
        },
        _ => Err(BookingError::MalformedTime),
    }
}

/// Parses both ends of a range and rounds them to the nearest hour; refuses a
/// range whose end is not after its start.
pub fn parse_time_range(event: &TimeRange) -> (r: Result<(i64, i64), BookingError>)
    ensures
        match r {
            Ok(p) => range_outcome(event.start@, event.end@) == Ok::<(int, int), BookingError>((p.0 as int, p.1 as int))
                && hour_bounds(p.0 as int) && hour_bounds(p.1 as int),
            Err(x) => range_outcome(event.start@, event.end@) == Err::<(int, int), BookingError>(x),
        },
{
    let start = match parse_rounded(event.start.as_str()) {
        Some(s) => s,
        None => return Err(BookingError::MalformedTime),
    };
    let end = match parse_rounded(event.end.as_str()) {
        Some(e) => e,
        None => return Err(BookingError::MalformedTime),
    };
    if end <= start {
        return Err(BookingError::InvalidRange);
    }
    Ok((start, end))
}

/// Whether the store's occupancies and identifier counter are as they were.
pub open spec fn occupancies_unchanged(a: Store, b: Store) -> bool {
    a.occupancy_list() == b.occupancy_list() && a.next_id == b.next_id
}

/// The occupancy that a successful booking stores.
pub open spec fn booked(id: i32, s: int, e: int, claims: Claims, room: Seq<char>) -> OccupancyView {
    OccupancyView {
        id,
        start: s,
        end: e,
        user_id: claims.sub@,
        user_name: claims.name@,
        user_contact: claims.contact_info@,
        room,
    }
}

/// Books `room` for the caller over the requested range, rounded to whole
/// hours, provided that no hour step of the range is already full.
pub fn add_occupancy(store: &mut Store, room: &String, claims: &Claims, event: &TimeRange) -> (r: Result<Occupancy, BookingError>)
    requires
        old(store).wf(),
    ensures
        final(store).wf(),
        final(store).room_list() == old(store).room_list(),
        final(store).user_list() == old(store).user_list(),
        match range_outcome(event.start@, event.end@) {
            Err(x) => r == Err::<Occupancy, BookingError>(x) && occupancies_unchanged(*final(store), *old(store)),
            Ok(p) => match find_room_view(old(store).room_list(), room@) {
                None => r == Err::<Occupancy, BookingError>(BookingError::RoomNotFound)
                    && occupancies_unchanged(*final(store), *old(store)),
                Some(rv) => if !available(old(store).occupancy_list(), room@, rv.max_occupancy as int, p.0, p.1, None) {
                    r == Err::<Occupancy, BookingError>(BookingError::RoomFull) && occupancies_unchanged(*final(store), *old(store))
                } else if old(store).next_id == i32::MAX {
                    r == Err::<Occupancy, BookingError>(BookingError::IdsExhausted) && occupancies_unchanged(*final(store), *old(store))
                } else {
                    &&& r is Ok
                    &&& r->Ok_0@ == booked(old(store).next_id, p.0, p.1, *claims, room@)
                    &&& final(store).occupancy_list() == old(store).occupancy_list().push(r->Ok_0@)
                    &&& final(store).next_id == old(store).next_id + 1
                },
            },
        },
{
    let (start, end) = match parse_time_range(event) {
        Ok(p) => p,
        Err(x) => return Err(x),
    };
    let ri = match store.find_room(room) {
        Some(i) => i,
        None => return Err(BookingError::RoomNotFound),
    };
    if !check_if_room_available(&store.rooms[ri], &store.occupancies, start, end, None) {
        return Err(BookingError::RoomFull);
    }
    match store.insert_checked(ri, start, end, &claims.sub, &claims.name, &claims.contact_info) {
        Some(o) => Ok(o),
        None => Err(BookingError::IdsExhausted),
    }
}

/// Moves the caller's occupancy `id` of `room` to the requested range, rounded
/// to whole hours, provided that no hour step of the new range is full once the
/// occupancy itself is left out. An occupancy that is not the caller's, not in
/// that room or not there at all is left alone, with no error: the result is
/// the number of occupancies changed.
pub fn update_occupancy(store: &mut Store, room: &String, id: i32, claims: &Claims, event: &TimeRange) -> (r: Result<usize, BookingError>)
    requires
        old(store).wf(),
    ensures
        final(store).wf(),
        final(store).room_list() == old(store).room_list(),
        final(store).user_list() == old(store).user_list(),
        final(store).next_id == old(store).next_id,
        match range_outcome(event.start@, event.end@) {
            Err(x) => r == Err::<usize, BookingError>(x) && occupancies_unchanged(*final(store), *old(store)),
            Ok(p) => match find_room_view(old(store).room_list(), room@) {
                None => r == Err::<usize, BookingError>(BookingError::RoomNotFound)
                    && occupancies_unchanged(*final(store), *old(store)),
                Some(rv) => match find_target(old(store).occupancy_list(), id, room@, claims.sub@) {
                    None => r == Ok::<usize, BookingError>(0) && occupancies_unchanged(*final(store), *old(store)),
                    Some(k) => if available(old(store).occupancy_list(), room@, rv.max_occupancy as int, p.0, p.1, Some(id)) {
                        &&& r == Ok::<usize, BookingError>(1)
                        &&& final(store).occupancy_list() == old(store).occupancy_list().update(
                            k,
                            with_range(old(store).occupancy_list()[k], p.0, p.1),
                        )
                    } else {
                        r == Err::<usize, BookingError>(BookingError::RoomFull) && occupancies_unchanged(*final(store), *old(store))
                    },
                },
            },
        },
{
    let (start, end) = match parse_time_range(event) {
        Ok(p) => p,
        Err(x) => return Err(x),
    };
    let ri = match store.find_room(room) {
        Some(i) => i,
        None => return Err(BookingError::RoomNotFound),
    };
    let k = match store.find_target_exec(id, room, &claims.sub) {
        Some(k) => k,
        None => return Ok(0),
    };
    proof {
        let s = store.occupancy_list();
        assert(s[k as int].id == id && s[k as int].room == room@);
    }
    if !check_if_room_available(&store.rooms[ri], &store.occupancies, start, end, Some(id)) {
        return Err(BookingError::RoomFull);
    }
    store.retime_checked(k, ri, start, end);
    Ok(1)
}

/// Deletes the caller's occupancy `id` of `room`. An occupancy that is not the
/// caller's, not in that room or not there at all is left alone, with no
/// error: the result is the number of occupancies deleted.
pub fn delete_occupancy(store: &mut Store, room: &String, id: i32, claims: &Claims) -> (r: usize)
    requires
        old(store).wf(),
    ensures
        final(store).wf(),
        final(store).room_list() == old(store).room_list(),
        final(store).user_list() == old(store).user_list(),
        final(store).next_id == old(store).next_id,
        match find_target(old(store).occupancy_list(), id, room@, claims.sub@) {
            None => r == 0 && occupancies_unchanged(*final(store), *old(store)),
            Some(k) => r == 1 && final(store).occupancy_list() == old(store).occupancy_list().remove(k),
        },
{
    match store.find_target_exec(id, room, &claims.sub) {
        Some(k) => {
            store.remove_at(k);
            1
        },
        None => 0,
    }
}

/// The views of an optional text.
pub open spec fn opt_view(t: Option<String>) -> Option<Seq<char>> {
    match t {
        Some(s) => Some(s@),
        None => None,
    }
}

/// A listing bound when present: the instant it names, in nanoseconds since
/// the epoch, as given (not rounded).
pub open spec fn bound_outcome(t: Option<Seq<char>>) -> Result<Option<int>, BookingError> {
    match t {
        None => Ok(None),
        Some(x) => match rfc3339_instant(x) {
            Some(p) => Ok(Some(total_nanos(p.0 as int, p.1 as int))),
            None => Err(BookingError::MalformedTime),
        },
    }
}

/// Both listing bounds, or why they are refused: an end bound at or before
/// the start bound is an invalid range.
pub open spec fn bounds_outcome(start: Option<Seq<char>>, end: Option<Seq<char>>) -> Result<
    (Option<int>, Option<int>),
    BookingError,
> {
    match (bound_outcome(start), bound_outcome(end)) {
        (Ok(s), Ok(e)) => if s is Some && e is Some && e->0 <= s->0 {
            Err(BookingError::InvalidRange)
        } else {
            Ok((s, e))
        },
        (Err(x), _) => Err(x),
        (_, Err(x)) => Err(x),
    }
}

/// Whether an occupancy belongs to `room` and lies within the bounds that are
/// given, as instants in nanoseconds: it starts at or after `start` and ends at
/// or before `end`.
pub open spec fn selected(o: OccupancyView, room: Seq<char>, start: Option<int>, end: Option<int>) -> bool {
    &&& o.room == room
    &&& (start matches Some(s) ==> o.start * NANOS_PER_SEC >= s)
    &&& (end matches Some(e) ==> o.end * NANOS_PER_SEC <= e)
}

/// An occupancy as `caller` may see it: another user's identity, name and
/// contact are replaced.
pub open spec fn redact(o: OccupancyView, caller: Seq<char>) -> OccupancyView {
    if o.user_id == caller {
        o
    } else {
        OccupancyView { user_id: ANONYMOUS@, user_name: ANONYMOUS@, user_contact: Seq::empty(), ..o }
    }
}

/// The listing of `room` within the bounds, in storage order, as `caller` may see it.
pub open spec fn listing(
    s: Seq<OccupancyView>,
    room: Seq<char>,
    start: Option<int>,
    end: Option<int>,
    caller: Seq<char>,
) -> Seq<OccupancyView> {
    s.filter_map(
        |o: OccupancyView|
            if selected(o, room, start, end) {
                Some(redact(o, caller))
            } else {
                None
            },
    )
}

fn parse_bound(t: &Option<String>) -> (r: Result<Option<i128>, BookingError>)
    ensures
        match r {
            Ok(Some(v)) => bound_outcome(opt_view(*t)) == Ok::<Option<int>, BookingError>(Some(v as int)),
            Ok(None) => bound_outcome(opt_view(*t)) == Ok::<Option<int>, BookingError>(None),
            Err(x) => bound_outcome(opt_view(*t)) == Err::<Option<int>, BookingError>(x),
        },
{
    match t {
        Some(x) => match parse_instant(x.as_str()) {
            Some(p) => Ok(Some(p.0 as i128 * 1_000_000_000 + p.1 as i128)),
            None => Err(BookingError::MalformedTime),
        },
        None => Ok(None),
    }
}

/// Lists the occupancies of `room` within the optional bounds, in storage
/// order; entries of other users than the caller are redacted.
pub fn get_occupancies(store: &Store, room: &String, claims: &Claims, params: &RoomOccupancyParams) -> (r: Result<Vec<Occupancy>, BookingError>)
    requires
        store.wf(),
    ensures
        match bounds_outcome(opt_view(params.start), opt_view(params.end)) {
            Err(x) => r == Err::<Vec<Occupancy>, BookingError>(x),
            Ok(b) => match find_room_view(store.room_list(), room@) {
                None => r == Err::<Vec<Occupancy>, BookingError>(BookingError::RoomNotFound),
                Some(_) => r is Ok && views(r->Ok_0@) == listing(store.occupancy_list(), room@, b.0, b.1, claims.sub@),
            },
        },
{
    let start = match parse_bound(&params.start) {
        Ok(v) => v,
        Err(x) => return Err(x),
    };
    let end = match parse_bound(&params.end) {
        Ok(v) => v,
        Err(x) => return Err(x),
    };
    match (start, end) {
        (Some(s), Some(e)) => {
            if e <= s {
                return Err(BookingError::InvalidRange);
            }
        },
        _ => {},
    }
    let ghost sf: Option<int> = match start {
        Some(v) => Some(v as int),
        None => None,
    };
    let ghost ef: Option<int> = match end {
        Some(v) => Some(v as int),
        None => None,
    };
    assert(bounds_outcome(opt_view(params.start), opt_view(params.end)) == Ok::<(Option<int>, Option<int>), BookingError>((sf, ef)));
    if store.find_room(room).is_none() {
        return Err(BookingError::RoomNotFound);
    }
    let ghost s = store.occupancy_list();
    let ghost caller = claims.sub@;
    let ghost f = |o: OccupancyView|
        if selected(o, room@, sf, ef) {
            Some(redact(o, caller))
        } else {
            None
        };
    let mut result: Vec<Occupancy> = Vec::new();
    let mut i: usize = 0;
    while i < store.occupancies.len()
        invariant
            i <= store.occupancies.len(),
            s == store.occupancy_list(),
            caller == claims.sub@,
            sf == (match start { Some(v) => Some(v as int), None => None::<int> }),
            ef == (match end { Some(v) => Some(v as int), None => None::<int> }),
            f == (|o: OccupancyView|
                if selected(o, room@, sf, ef) {
                    Some(redact(o, caller))
                } else {
                    None
                }),
            views(result@) == s.subrange(0, i as int).filter_map(f),
        decreases store.occupancies.len() - i,
    {
        let o = &store.occupancies[i];
        assert(s[i as int] == o@);
        assert(s.subrange(0, i + 1).drop_last() =~= s.subrange(0, i as int));
        let in_start = match start {
            Some(v) => o.start as i128 * 1_000_000_000 >= v,
            None => true,
        };
        let in_end = match end {
            Some(v) => o.end as i128 * 1_000_000_000 <= v,
            None => true,
        };
        if o.room == *room && in_start && in_end {
            let ghost before = result@;
            let mut c = o.duplicate();
            if c.user_id != claims.sub {
                c.user_id = ANONYMOUS.to_owned();
                c.user_name = ANONYMOUS.to_owned();
                c.user_contact = String::new();
            }
            assert(c@ == redact(o@, caller));
            result.push(c);
            assert(views(result@) =~= views(before) + seq![c@]);
        }
        i = i + 1;
    }
    assert(s.subrange(0, s.len() as int) =~= s);
    Ok(result)
}

/// All rooms, sorted by identifier.
pub fn all_rooms(store: &Store) -> (r: Vec<Room>)
    requires
        store.wf(),
    ensures
        room_views(r@) == store.room_list(),
        rooms_sorted(room_views(r@)),
{
    let mut result: Vec<Room> = Vec::new();
    let mut i: usize = 0;
    while i < store.rooms.len()
        invariant
            i <= store.rooms.len(),
            room_views(result@) == store.room_list().subrange(0, i as int),
        decreases store.rooms.len() - i,
    {
        let ghost before = result@;
        let c = store.rooms[i].duplicate();
        result.push(c);
        assert(room_views(result@) =~= room_views(before).push(c@));
        assert(store.room_list()[i as int] == c@);
        assert(room_views(result@) =~= store.room_list().subrange(0, i + 1));
        i = i + 1;
    }
    assert(store.room_list().subrange(0, store.rooms.len() as int) =~= store.room_list());
    result
}

/// The selection that a listing makes, before redaction.
pub open spec fn selection(s: Seq<OccupancyView>, room: Seq<char>, start: Option<int>, end: Option<int>) -> Seq<OccupancyView> {
    s.filter(|o: OccupancyView| selected(o, room, start, end))
}

/// A listing is the selection, each entry redacted for the caller.
pub proof fn lemma_listing_is_redacted_selection(
    s: Seq<OccupancyView>,
    room: Seq<char>,
    start: Option<int>,
    end: Option<int>,
    caller: Seq<char>,
)
    ensures
        listing(s, room, start, end, caller) == selection(s, room, start, end).map_values(
            |o: OccupancyView| redact(o, caller),
        ),
    decreases s.len(),
{
    reveal(Seq::filter);
    let f = |o: OccupancyView| redact(o, caller);
    if s.len() > 0 {
        lemma_listing_is_redacted_selection(s.drop_last(), room, start, end, caller);
        let prev = selection(s.drop_last(), room, start, end);
        if selected(s.last(), room, start, end) {
            assert(prev.push(s.last()).map_values(f) =~= prev.map_values(f) + seq![redact(s.last(), caller)]);
        }
    } else {
        assert(listing(s, room, start, end, caller) =~= selection(s, room, start, end).map_values(f));
    }
}

/// A listing holds exactly the occupancies of the room that lie within the
/// bounds that are given, in storage order: with no bounds, all of the room's
/// occupancies; with a start bound, those starting at or after it; with both,
/// those within both. Only the owner fields of an entry may differ from the
/// stored occupancy.
pub proof fn lemma_listing_selects(
    s: Seq<OccupancyView>,
    room: Seq<char>,
    start: Option<int>,
    end: Option<int>,
    caller: Seq<char>,
)
    ensures
        listing(s, room, start, end, caller).len() == selection(s, room, start, end).len(),
        forall|i: int|
            0 <= i < selection(s, room, start, end).len() ==> {
                let l = #[trigger] listing(s, room, start, end, caller)[i];
                let o = selection(s, room, start, end)[i];
                &&& selected(o, room, start, end)
                &&& l.id == o.id && l.start == o.start && l.end == o.end && l.room == o.room
            },
        forall|k: int|
            0 <= k < s.len() && selected(#[trigger] s[k], room, start, end) ==> selection(s, room, start, end).contains(s[k]),
{
    lemma_listing_is_redacted_selection(s, room, start, end, caller);
    let p = |o: OccupancyView| selected(o, room, start, end);
    assert forall|i: int| 0 <= i < selection(s, room, start, end).len() implies selected(
        #[trigger] selection(s, room, start, end)[i],
        room,
        start,
        end,
    ) by {
        s.lemma_filter_pred(p, i);
    }
    assert forall|k: int| 0 <= k < s.len() && selected(#[trigger] s[k], room, start, end) implies selection(
        s,
        room,
        start,
        end,
    ).contains(s[k]) by {
        s.lemma_filter_contains(p, k);
    }
}

proof fn lemma_selection_ids_distinct(s: Seq<OccupancyView>, room: Seq<char>, start: Option<int>, end: Option<int>)
    requires
        ids_unique(s),
    ensures
        ids_unique(selection(s, room, start, end)),
    decreases s.len(),
{
    reveal(Seq::filter);
    if s.len() > 0 {
        let d = s.drop_last();
        assert(ids_unique(d)) by {
            assert forall|a: int, b: int| 0 <= a < b < d.len() implies #[trigger] d[a].id != #[trigger] d[b].id by {
                assert(s[a].id != s[b].id);
            }
        }
        lemma_selection_ids_distinct(d, room, start, end);
        let p = |o: OccupancyView| selected(o, room, start, end);
        let sd = selection(d, room, start, end);
        if selected(s.last(), room, start, end) {
            let n = sd.push(s.last());
            assert(selection(s, room, start, end) == n);
            assert forall|a: int, b: int| 0 <= a < b < n.len() implies #[trigger] n[a].id != #[trigger] n[b].id by {
                if b == sd.len() {
                    assert(sd.contains(sd[a]));
                    d.lemma_filter_contains_rev(p, sd[a]);
                    let j = choose|j: int| 0 <= j < d.len() && d[j] == sd[a];
                    assert(s[j] == d[j]);
                    assert(s[j].id != s[s.len() - 1].id);
                } else {
                    assert(n[a] == sd[a] && n[b] == sd[b]);
                }
            }
        }
    }
}

/// When the stored identifiers are unique (as the store's invariant keeps
/// them), each occupancy appears at most once in a listing.
pub proof fn lemma_listing_ids_distinct(
    s: Seq<OccupancyView>,
    room: Seq<char>,
    start: Option<int>,
    end: Option<int>,
    caller: Seq<char>,
)
    requires
        ids_unique(s),
    ensures
        ids_unique(listing(s, room, start, end, caller)),
{
    lemma_listing_selects(s, room, start, end, caller);
    lemma_selection_ids_distinct(s, room, start, end);
    let l = listing(s, room, start, end, caller);
    let sel = selection(s, room, start, end);
    assert forall|a: int, b: int| 0 <= a < b < l.len() implies #[trigger] l[a].id != #[trigger] l[b].id by {
        assert(l[a].id == sel[a].id && l[b].id == sel[b].id);
    }
}

/// In a listing, an entry of the caller's own is the stored occupancy
/// unchanged; an entry of anyone else has its owner identity and name replaced
/// by the anonymous marker and its contact emptied.
pub proof fn lemma_listing_redacts(
    s: Seq<OccupancyView>,
    room: Seq<char>,
    start: Option<int>,
    end: Option<int>,
    caller: Seq<char>,
)
    ensures
        forall|i: int|
            0 <= i < selection(s, room, start, end).len() ==> {
                let l = #[trigger] listing(s, room, start, end, caller)[i];
                let o = selection(s, room, start, end)[i];
                &&& o.user_id == caller ==> l == o
                &&& o.user_id != caller ==> l.user_id == ANONYMOUS@ && l.user_name == ANONYMOUS@
                    && l.user_contact == Seq::<char>::empty()
            },
{
    lemma_listing_is_redacted_selection(s, room, start, end, caller);
}

/// A create or update request whose rounded end is not after its rounded
/// start is refused as an invalid range, whichever way round it came.
pub proof fn lemma_reversed_range_rejected(start: Seq<char>, end: Seq<char>)
    requires
        rounded_text(start) is Some,
        rounded_text(end) is Some,
        rounded_text(end)->0 <= rounded_text(start)->0,
    ensures
        range_outcome(start, end) == Err::<(int, int), BookingError>(BookingError::InvalidRange),
{
}

/// An update or delete aimed at an occupancy that the caller does not own
/// finds no target, so it changes nothing and reports nothing changed.
pub proof fn lemma_foreign_occupancy_untouched(s: Seq<OccupancyView>, id: i32, room: Seq<char>, caller: Seq<char>)
    requires
        forall|k: int| 0 <= k < s.len() && #[trigger] s[k].id == id ==> s[k].user_id != caller,
    ensures
        find_target(s, id, room, caller) is None,
{
}

} // verus!
