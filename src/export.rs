//! What an export of recent occupancies holds: those inside a window of
//! days, ordered by start.
use crate::models::{views, Occupancy, OccupancyView};
use crate::config::opt_text;
use crate::models::duplicate_opt;
use crate::store::{find_room_view, Store};
use vstd::prelude::*;

verus! {

broadcast use vstd::seq_lib::group_to_multiset_ensures;

/// Seconds in one day.
pub const DAY: i64 = 86400;

/// The window of an export ending today: from midnight `weeks` weeks before
/// the day that starts at `today_start`, to the last second of that day.
pub fn export_window(today_start: i64, weeks: u8) -> (r: Option<(i64, i64)>)
    ensures
        match r {
            Some(w) => w.0 == today_start - weeks * 7 * DAY && w.1 == today_start + DAY - 1,
            None => !(i64::MIN <= today_start - weeks * 7 * DAY && today_start + DAY - 1 <= i64::MAX),
        },
{
    let back = weeks as i64 * 7 * DAY;
    if today_start < i64::MIN + back || today_start > i64::MAX - (DAY - 1) {
        return None;
    }
    Some((today_start - back, today_start + (DAY - 1)))
}

/// The time zone of room `room`, if the room is known and has one.
pub fn room_timezone(store: &Store, room: &String) -> (r: Option<String>)
    requires
        store.wf(),
    ensures
        match find_room_view(store.room_list(), room@) {
            Some(rv) => opt_text(r) == rv.timezone,
            None => r is None,
        },
{
    match store.find_room(room) {
        Some(i) => {
            assert(store.room_list()[i as int] == store.rooms@[i as int]@);
            duplicate_opt(&store.rooms[i].timezone)
        },
        None => None,
    }
}

/// Whether an occupancy lies inside the window `[from, to]`.
pub open spec fn in_window(o: OccupancyView, from: int, to: int) -> bool {
    o.start >= from && o.end <= to
}

/// The occupancies of `s` inside the window, in storage order.
pub open spec fn window_selection(s: Seq<OccupancyView>, from: int, to: int) -> Seq<OccupancyView> {
    s.filter(|o: OccupancyView| in_window(o, from, to))
}

/// Whether the occupancies are ordered by start.
pub open spec fn sorted_by_start(s: Seq<OccupancyView>) -> bool {
    forall|a: int, b: int| 0 <= a < b < s.len() ==> (#[trigger] s[a]).start <= (#[trigger] s[b]).start
}

/// The stored occupancies inside the window `[from, to]`, ordered by start.
pub fn export_selection(store: &Store, from: i64, to: i64) -> (r: Vec<Occupancy>)
    ensures
        sorted_by_start(views(r@)),
        views(r@).to_multiset() == window_selection(store.occupancy_list(), from as int, to as int).to_multiset(),
{
    let ghost s = store.occupancy_list();
    let mut result: Vec<Occupancy> = Vec::new();
    let mut i: usize = 0;
    while i < store.occupancies.len()
        invariant
            i <= store.occupancies.len(),
            s == store.occupancy_list(),
            sorted_by_start(views(result@)),
            views(result@).to_multiset() == window_selection(s.subrange(0, i as int), from as int, to as int).to_multiset(),
        decreases store.occupancies.len() - i,
    {
        let o = &store.occupancies[i];
        proof {
            reveal(Seq::filter);
            assert(s[i as int] == o@);
            assert(s.subrange(0, i + 1).drop_last() =~= s.subrange(0, i as int));
        }
        if o.start >= from && o.end <= to {
            let ghost before = views(result@);
            let mut p: usize = 0;
            while p < result.len() && result[p].start <= o.start
                invariant
                    p <= result.len(),
                    before == views(result@),
                    forall|k: int| 0 <= k < p ==> (#[trigger] before[k]).start <= o.start,
                decreases result.len() - p,
            {
                assert(before[p as int] == result@[p as int]@);
                p = p + 1;
            }
            proof {
                if p < result.len() {
                    assert(before[p as int] == result@[p as int]@);
                }
            }
            result.insert(p, o.duplicate());
            proof {
                let after = views(result@);
                assert(after =~= before.insert(p as int, o@));
                assert forall|a: int, b: int| 0 <= a < b < after.len() implies (#[trigger] after[a]).start <= (
                #[trigger] after[b]).start by {
                    if b < p {
                    } else if b == p {
                    } else if a < p {
                        assert(before[b - 1].start >= before[p as int].start);
                    } else if a == p {
                        assert(before[b - 1].start >= before[p as int].start);
                    } else {
                        assert(after[a] == before[a - 1] && after[b] == before[b - 1]);
                    }
                }
                vstd::seq_lib::to_multiset_insert(before, p as int, o@);
            }
        }
        i = i + 1;
    }
    assert(s.subrange(0, s.len() as int) =~= s);
    result
}

} // verus!
