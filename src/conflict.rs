//! The conflict checker: whether a room has headroom in every hour step of a range.
use crate::models::{views, Occupancy, OccupancyView, Room};
use crate::time::HOUR;
use vstd::prelude::*;

verus! {

/// Whether an occupancy overlaps the hour `[t, t + 1h)`, strictly.
pub open spec fn overlaps_hour(o: OccupancyView, t: int) -> bool {
    o.start < t + HOUR && o.end > t
}

/// Whether an occupancy counts against the room's capacity in the hour at `t`,
/// leaving out the occupancy whose identifier is `ignore`.
pub open spec fn counts_toward(o: OccupancyView, room: Seq<char>, t: int, ignore: Option<i32>) -> bool {
    &&& o.room == room
    &&& overlaps_hour(o, t)
    &&& ignore != Some(o.id)
}

/// How many occupancies of `s` count against `room` in the hour at `t`.
pub open spec fn hour_load(s: Seq<OccupancyView>, room: Seq<char>, t: int, ignore: Option<i32>) -> nat
    decreases s.len(),
{
    if s.len() == 0 {
        0
    } else {
        hour_load(s.drop_last(), room, t, ignore) + if counts_toward(s.last(), room, t, ignore) {
            1nat
        } else {
            0nat
        }
    }
}

/// Whether `t` is one of the hour steps `start, start + 1h, ...` that begin before `end`.
pub open spec fn is_step(start: int, end: int, t: int) -> bool {
    start <= t < end && (t - start) % (HOUR as int) == 0
}

/// Whether every hour step of `[start, end)` stays below `cap` occupancies.
pub open spec fn available(
    s: Seq<OccupancyView>,
    room: Seq<char>,
    cap: int,
    start: int,
    end: int,
    ignore: Option<i32>,
) -> bool {
    forall|t: int| is_step(start, end, t) ==> #[trigger] hour_load(s, room, t, ignore) < cap
}

/// One when `b` holds, else zero.
pub open spec fn count_if(b: bool) -> nat {
    if b {
        1
    } else {
        0
    }
}

/// Whether no two occupancies of `s` share an identifier.
pub open spec fn ids_unique(s: Seq<OccupancyView>) -> bool {
    forall|a: int, b: int| 0 <= a < b < s.len() ==> #[trigger] s[a].id != #[trigger] s[b].id
}

pub proof fn lemma_load_push(s: Seq<OccupancyView>, x: OccupancyView, room: Seq<char>, t: int, ignore: Option<i32>)
    ensures
        hour_load(s.push(x), room, t, ignore) == hour_load(s, room, t, ignore) + count_if(
            counts_toward(x, room, t, ignore),
        ),
{
    assert(s.push(x).drop_last() =~= s);
}

pub proof fn lemma_load_update(
    s: Seq<OccupancyView>,
    i: int,
    x: OccupancyView,
    room: Seq<char>,
    t: int,
    ignore: Option<i32>,
)
    requires
        0 <= i < s.len(),
    ensures
        hour_load(s.update(i, x), room, t, ignore) + count_if(counts_toward(s[i], room, t, ignore))
            == hour_load(s, room, t, ignore) + count_if(counts_toward(x, room, t, ignore)),
    decreases s.len(),
{
    let u = s.update(i, x);
    if i == s.len() - 1 {
        assert(u.drop_last() =~= s.drop_last());
    } else {
        assert(u.drop_last() =~= s.drop_last().update(i, x));
        lemma_load_update(s.drop_last(), i, x, room, t, ignore);
    }
}

pub proof fn lemma_load_remove(s: Seq<OccupancyView>, i: int, room: Seq<char>, t: int, ignore: Option<i32>)
    requires
        0 <= i < s.len(),
    ensures
        hour_load(s.remove(i), room, t, ignore) + count_if(counts_toward(s[i], room, t, ignore))
            == hour_load(s, room, t, ignore),
    decreases s.len(),
{
    if i == s.len() - 1 {
        assert(s.remove(i) =~= s.drop_last());
    } else {
        assert(s.remove(i).drop_last() =~= s.drop_last().remove(i));
        lemma_load_remove(s.drop_last(), i, room, t, ignore);
    }
}

pub proof fn lemma_load_no_room(s: Seq<OccupancyView>, room: Seq<char>, t: int)
    requires
        forall|k: int| 0 <= k < s.len() ==> #[trigger] s[k].room != room,
    ensures
        hour_load(s, room, t, None) == 0,
    decreases s.len(),
{
    if s.len() > 0 {
        assert(s.last().room != room);
        lemma_load_no_room(s.drop_last(), room, t);
    }
}

pub proof fn lemma_load_absent_id(s: Seq<OccupancyView>, id: i32, room: Seq<char>, t: int)
    requires
        forall|k: int| 0 <= k < s.len() ==> #[trigger] s[k].id != id,
    ensures
        hour_load(s, room, t, Some(id)) == hour_load(s, room, t, None),
    decreases s.len(),
{
    if s.len() > 0 {
        assert(s.last().id != id);
        lemma_load_absent_id(s.drop_last(), id, room, t);
    }
}

/// Leaving out an occupancy by its (unique) identifier removes exactly its own count.
pub proof fn lemma_load_exclude(s: Seq<OccupancyView>, i: int, room: Seq<char>, t: int)
    requires
        0 <= i < s.len(),
        ids_unique(s),
    ensures
        hour_load(s, room, t, Some(s[i].id)) + count_if(counts_toward(s[i], room, t, None))
            == hour_load(s, room, t, None),
    decreases s.len(),
{
    let d = s.drop_last();
    if i == s.len() - 1 {
        assert forall|k: int| 0 <= k < d.len() implies #[trigger] d[k].id != s[i].id by {
            assert(s[k].id != s[i].id);
        }
        lemma_load_absent_id(d, s[i].id, room, t);
    } else {
        assert(s.last().id != s[i].id);
        assert(ids_unique(d)) by {
            assert forall|a: int, b: int| 0 <= a < b < d.len() implies #[trigger] d[a].id != #[trigger] d[b].id by {
                assert(s[a].id != s[b].id);
            }
        }
        lemma_load_exclude(d, i, room, t);
    }
}

/// Two whole hours less than an hour apart, the first before the second, are equal or ordered.
pub proof fn lemma_aligned_le(a: int, b: int)
    requires
        a % (HOUR as int) == 0,
        b % (HOUR as int) == 0,
        a < b + HOUR,
    ensures
        a <= b,
        (b - a) % (HOUR as int) == 0,
{
}

/// Counts the occupancies that count against `room` in the hour at `t`.
fn count_overlapping(room: &String, occupancies: &Vec<Occupancy>, t: i64, ignore: Option<i32>) -> (n: usize)
    requires
        t <= i64::MAX - HOUR,
    ensures
        n == hour_load(views(occupancies@), room@, t as int, ignore),
{
    let ghost s = views(occupancies@);
    let mut n: usize = 0;
    let mut i: usize = 0;
    while i < occupancies.len()
        invariant
            i <= occupancies.len(),
            s == views(occupancies@),
            t <= i64::MAX - HOUR,
            n <= i,
            n == hour_load(s.subrange(0, i as int), room@, t as int, ignore),
        decreases occupancies.len() - i,
    {
        let o = &occupancies[i];
        assert(s.subrange(0, i + 1).drop_last() =~= s.subrange(0, i as int));
        let not_ignored = match ignore {
            Some(x) => x != o.id,
            None => true,
        };
        if o.room == *room && o.start < t + HOUR && o.end > t && not_ignored {
            n = n + 1;
        }
        i = i + 1;
    }
    assert(s.subrange(0, s.len() as int) =~= s);
    n
}

/// Whether `room` can take one more occupancy in every hour step of the
/// half-open range `[start, end)`, given the stored `occupancies` and leaving
/// out the one identified by `ignore_id`. Stops at the first hour step that is full.
pub fn check_if_room_available(
    room: &Room,
    occupancies: &Vec<Occupancy>,
    start: i64,
    end: i64,
    ignore_id: Option<i32>,
) -> (r: bool)
    requires
        end <= i64::MAX - HOUR,
    ensures
        r == available(views(occupancies@), room.id@, room.max_occupancy as int, start as int, end as int, ignore_id),
{
    let ghost s = views(occupancies@);
    if start >= end {
        return true;
    }
    let mut t = start;
    while t < end
        invariant
            start <= t < end + HOUR,
            end <= i64::MAX - HOUR,
            (t - start) % (HOUR as int) == 0,
            s == views(occupancies@),
            forall|u: int| is_step(start as int, end as int, u) && u < t ==> #[trigger] hour_load(s, room.id@, u, ignore_id) < room.max_occupancy,
        decreases end + HOUR - t,
    {
        let n = count_overlapping(&room.id, occupancies, t, ignore_id);
        if room.max_occupancy <= 0 || n >= room.max_occupancy as usize {
            assert(is_step(start as int, end as int, t as int));
            return false;
        }
        proof {
            assert forall|u: int| is_step(start as int, end as int, u) && u < t + HOUR implies #[trigger] hour_load(s, room.id@, u, ignore_id) < room.max_occupancy by {
                if u >= t {
                    assert(u == t) by {
                        assert((u - start) % 3600 == 0);
                        assert((t - start) % 3600 == 0);
                    }
                }
            }
        }
        t = t + HOUR;
    }
    true
}

} // verus!
