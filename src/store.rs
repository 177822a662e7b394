//! The storage model: rooms, users and occupancies, with the capacity invariant.
use crate::conflict::{
    available, count_if, counts_toward, hour_load, ids_unique, is_step, lemma_aligned_le, lemma_load_exclude,
    lemma_load_no_room, lemma_load_push, lemma_load_remove, lemma_load_update,
};
use crate::models::{room_views, user_views, views, OccupancyView, Occupancy, Room, RoomView, User, UserView};
use crate::order::{id_less, id_less_exec, lemma_id_less_irreflexive, lemma_id_less_total, lemma_id_less_transitive};
use crate::conflict::check_if_room_available;
use crate::time::HOUR;
use vstd::prelude::*;

verus! {

/// Whether the rooms are sorted by identifier, strictly (so no identifier repeats).
pub open spec fn rooms_sorted(rooms: Seq<RoomView>) -> bool {
    forall|i: int, j: int| 0 <= i < j < rooms.len() ==> id_less(#[trigger] rooms[i].id, #[trigger] rooms[j].id)
}

/// Whether no two users share an identifier.
pub open spec fn users_unique(users: Seq<UserView>) -> bool {
    forall|i: int, j: int| 0 <= i < j < users.len() ==> #[trigger] users[i].id != #[trigger] users[j].id
}

/// Whether an occupancy spans at least one hour, on whole-hour bounds, and has
/// an identifier that was handed out before `next_id`.
pub open spec fn well_placed(o: OccupancyView, next_id: int) -> bool {
    &&& o.start < o.end
    &&& o.start % (HOUR as int) == 0
    &&& o.end % (HOUR as int) == 0
    &&& 0 < o.id < next_id
}

/// Whether no whole hour holds more occupancies of `room` than its capacity.
pub open spec fn capacity_respected(s: Seq<OccupancyView>, room: RoomView) -> bool {
    forall|t: int| t % (HOUR as int) == 0 ==> #[trigger] hour_load(s, room.id, t, None) <= room.max_occupancy
}

/// Whether some room has identifier `id`.
pub open spec fn room_known(rooms: Seq<RoomView>, id: Seq<char>) -> bool {
    exists|i: int| 0 <= i < rooms.len() && rooms[i].id == id
}

/// The room with identifier `id`, if there is one.
pub open spec fn find_room_view(rooms: Seq<RoomView>, id: Seq<char>) -> Option<RoomView> {
    if exists|i: int| 0 <= i < rooms.len() && rooms[i].id == id {
        Some(rooms[choose|i: int| 0 <= i < rooms.len() && rooms[i].id == id])
    } else {
        None
    }
}

/// The user with identifier `id`, if there is one.
pub open spec fn find_user_view(users: Seq<UserView>, id: Seq<char>) -> Option<UserView> {
    if exists|i: int| 0 <= i < users.len() && users[i].id == id {
        Some(users[choose|i: int| 0 <= i < users.len() && users[i].id == id])
    } else {
        None
    }
}

/// Whether `o` is the occupancy `id` of `room`, owned by `user`.
pub open spec fn is_target(o: OccupancyView, id: i32, room: Seq<char>, user: Seq<char>) -> bool {
    o.id == id && o.room == room && o.user_id == user
}

/// The position of the occupancy `id` of `room` owned by `user`, if there is one.
pub open spec fn find_target(s: Seq<OccupancyView>, id: i32, room: Seq<char>, user: Seq<char>) -> Option<int> {
    if exists|k: int| 0 <= k < s.len() && is_target(s[k], id, room, user) {
        Some(choose|k: int| 0 <= k < s.len() && is_target(s[k], id, room, user))
    } else {
        None
    }
}

/// An occupancy with another time range.
pub open spec fn with_range(o: OccupancyView, start: int, end: int) -> OccupancyView {
    OccupancyView { start, end, ..o }
}

/// Whether a persisted occupancy can join the store as it stands: it spans
/// whole hours, its identifier is positive and not in use, its room is known,
/// and each of its hours has room for one more.
pub open spec fn restorable(st: Store, o: OccupancyView) -> bool {
    &&& o.start < o.end
    &&& o.start % (HOUR as int) == 0
    &&& o.end % (HOUR as int) == 0
    &&& o.end <= i64::MAX - HOUR
    &&& 0 < o.id < i32::MAX
    &&& forall|k: int| 0 <= k < st.occupancies.len() ==> (#[trigger] st.occupancy_list()[k]).id != o.id
    &&& find_room_view(st.room_list(), o.room) matches Some(rv)
    &&& available(st.occupancy_list(), o.room, rv.max_occupancy as int, o.start, o.end, None)
}

/// The persisted state: rooms sorted by identifier, users, occupancies in the
/// order they were stored, and the next occupancy identifier to hand out.
pub struct Store {
    pub rooms: Vec<Room>,
    pub users: Vec<User>,
    pub occupancies: Vec<Occupancy>,
    pub next_id: i32,
}

impl Store {
    pub open spec fn room_list(&self) -> Seq<RoomView> {
        room_views(self.rooms@)
    }

    pub open spec fn user_list(&self) -> Seq<UserView> {
        user_views(self.users@)
    }

    pub open spec fn occupancy_list(&self) -> Seq<OccupancyView> {
        views(self.occupancies@)
    }

    /// The store's invariant. Its last clause is the booking rule: in every
    /// whole hour, each room holds at most its capacity.
    pub open spec fn wf(&self) -> bool {
        &&& rooms_sorted(self.room_list())
        &&& forall|i: int| 0 <= i < self.rooms.len() ==> #[trigger] self.room_list()[i].max_occupancy > 0
        &&& users_unique(self.user_list())
        &&& 0 < self.next_id
        &&& forall|k: int| 0 <= k < self.occupancies.len() ==> well_placed(#[trigger] self.occupancy_list()[k], self.next_id as int)
        &&& ids_unique(self.occupancy_list())
        &&& forall|k: int| 0 <= k < self.occupancies.len() ==> room_known(self.room_list(), #[trigger] self.occupancy_list()[k].room)
        &&& forall|i: int| 0 <= i < self.rooms.len() ==> capacity_respected(self.occupancy_list(), #[trigger] self.room_list()[i])
    }

    /// An empty store.
    pub fn new() -> (r: Store)
        ensures
            r.wf(),
            r.room_list() == Seq::<RoomView>::empty(),
            r.user_list() == Seq::<UserView>::empty(),
            r.occupancy_list() == Seq::<OccupancyView>::empty(),
            r.next_id == 1,
    {
        let r = Store { rooms: Vec::new(), users: Vec::new(), occupancies: Vec::new(), next_id: 1 };
        assert(r.room_list() =~= Seq::<RoomView>::empty());
        assert(r.user_list() =~= Seq::<UserView>::empty());
        assert(r.occupancy_list() =~= Seq::<OccupancyView>::empty());
        r
    }

    /// The position of the room with identifier `id`.
    pub fn find_room(&self, id: &String) -> (r: Option<usize>)
        requires
            self.wf(),
        ensures
            match r {
                Some(i) => i < self.rooms.len() && self.room_list()[i as int].id == id@
                    && find_room_view(self.room_list(), id@) == Some(self.room_list()[i as int]),
                None => find_room_view(self.room_list(), id@) is None,
            },
    {
        let mut i: usize = 0;
        while i < self.rooms.len()
            invariant
                i <= self.rooms.len(),
                self.wf(),
                forall|k: int| 0 <= k < i ==> #[trigger] self.room_list()[k].id != id@,
            decreases self.rooms.len() - i,
        {
            if self.rooms[i].id == *id {
                proof {
                    let rl = self.room_list();
                    assert(rl[i as int] == self.rooms@[i as int]@);
                    assert(rl[i as int].id == id@);
                    let j = choose|j: int| 0 <= j < rl.len() && rl[j].id == id@;
                    if j < i {
                    } else if j > i {
                        assert(id_less(rl[i as int].id, rl[j].id));
                        lemma_id_less_irreflexive(id@);
                    }
                }
                return Some(i);
            }
            i = i + 1;
        }
        None
    }

    /// Adds a room, keeping the rooms sorted by identifier. Refuses (and
    /// changes nothing) when the capacity is not positive or the identifier is taken.
    pub fn add_room(&mut self, room: Room) -> (r: bool)
        requires
            old(self).wf(),
        ensures
            final(self).wf(),
            r == (room.max_occupancy > 0 && find_room_view(old(self).room_list(), room.id@) is None),
            r ==> exists|p: int| 0 <= p <= old(self).rooms.len() && final(self).room_list() == old(self).room_list().insert(p, room@),
            !r ==> final(self).room_list() == old(self).room_list(),
            final(self).user_list() == old(self).user_list(),
            final(self).occupancy_list() == old(self).occupancy_list(),
            final(self).next_id == old(self).next_id,
    {
        let ghost old_rooms = self.room_list();
        let mut i: usize = 0;
        while i < self.rooms.len() && id_less_exec(&self.rooms[i].id, &room.id)
            invariant
                i <= self.rooms.len(),
                self.wf(),
                self.room_list() == old_rooms,
                forall|k: int| 0 <= k < i ==> id_less(#[trigger] old_rooms[k].id, room.id@),
            decreases self.rooms.len() - i,
        {
            i = i + 1;
        }
        proof {
            assert forall|k: int| 0 <= k < i implies #[trigger] old_rooms[k].id != room.id@ by {
                if old_rooms[k].id == room.id@ {
                    lemma_id_less_irreflexive(room.id@);
                }
            }
        }
        if i < self.rooms.len() && self.rooms[i].id == room.id {
            proof {
                assert(old_rooms[i as int] == self.rooms@[i as int]@);
            }
            return false;
        }
        proof {
            if i < self.rooms.len() {
                assert(old_rooms[i as int] == self.rooms@[i as int]@);
                lemma_id_less_total(old_rooms[i as int].id, room.id@);
                assert forall|k: int| i <= k < old_rooms.len() implies id_less(room.id@, #[trigger] old_rooms[k].id) by {
                    if k > i {
                        lemma_id_less_transitive(room.id@, old_rooms[i as int].id, old_rooms[k].id);
                    }
                }
            }
            assert forall|k: int| i <= k < old_rooms.len() implies #[trigger] old_rooms[k].id != room.id@ by {
                lemma_id_less_irreflexive(room.id@);
            }
        }
        if room.max_occupancy <= 0 {
            return false;
        }
        let ghost rv = room@;
        let ghost occ = self.occupancy_list();
        self.rooms.insert(i, room);
        proof {
            let nl = self.room_list();
            assert(nl =~= old_rooms.insert(i as int, rv));
            assert forall|a: int, b: int| 0 <= a < b < nl.len() implies id_less(#[trigger] nl[a].id, #[trigger] nl[b].id) by {
                if b < i {
                } else if b == i {
                } else if a < i {
                    lemma_id_less_transitive(nl[a].id, rv.id, nl[b].id);
                } else if a == i {
                } else {
                    assert(nl[a] == old_rooms[a - 1] && nl[b] == old_rooms[b - 1]);
                }
            }
            assert forall|k: int| 0 <= k < occ.len() implies room_known(nl, #[trigger] occ[k].room) by {
                let j = choose|j: int| 0 <= j < old_rooms.len() && old_rooms[j].id == occ[k].room;
                if j < i {
                    assert(nl[j] == old_rooms[j]);
                } else {
                    assert(nl[j + 1] == old_rooms[j]);
                }
            }
            assert forall|k: int| 0 <= k < occ.len() implies #[trigger] occ[k].room != rv.id by {
                assert(room_known(old_rooms, occ[k].room));
            }
            assert forall|t: int| t % (HOUR as int) == 0 implies #[trigger] hour_load(occ, rv.id, t, None) <= rv.max_occupancy by {
                lemma_load_no_room(occ, rv.id, t);
            }
            assert forall|c: int| 0 <= c < nl.len() implies capacity_respected(occ, #[trigger] nl[c]) by {
                if c < i {
                    assert(nl[c] == old_rooms[c]);
                } else if c > i {
                    assert(nl[c] == old_rooms[c - 1]);
                }
            }
        }
        true
    }

    /// Adds a user. Refuses (and changes nothing) when the identifier is taken.
    pub fn add_user(&mut self, user: User) -> (r: bool)
        requires
            old(self).wf(),
        ensures
            final(self).wf(),
            r == (find_user_view(old(self).user_list(), user.id@) is None),
            r ==> final(self).user_list() == old(self).user_list().push(user@),
            !r ==> final(self).user_list() == old(self).user_list(),
            final(self).room_list() == old(self).room_list(),
            final(self).occupancy_list() == old(self).occupancy_list(),
            final(self).next_id == old(self).next_id,
    {
        match self.find_user(&user.id) {
            Some(_) => false,
            None => {
                let ghost ul = self.user_list();
                let ghost uv = user@;
                self.users.push(user);
                proof {
                    assert(self.user_list() =~= ul.push(uv));
                    assert forall|k: int| 0 <= k < ul.len() implies #[trigger] ul[k].id != uv.id by {
                        if ul[k].id == uv.id {
                            assert(exists|i: int| 0 <= i < ul.len() && ul[i].id == uv.id);
                        }
                    }
                }
                true
            },
        }
    }

    /// Whether two positions of the room list hold the same identifier only when they are the same.
    pub proof fn lemma_room_ids_distinct(&self, a: int, b: int)
        requires
            self.wf(),
            0 <= a < self.rooms.len(),
            0 <= b < self.rooms.len(),
            self.room_list()[a].id == self.room_list()[b].id,
        ensures
            a == b,
    {
        if a < b || b < a {
            lemma_id_less_irreflexive(self.room_list()[a].id);
        }
    }

    /// The position of the occupancy `id` of `room` owned by `user`.
    pub fn find_target_exec(&self, id: i32, room: &String, user: &String) -> (r: Option<usize>)
        requires
            self.wf(),
        ensures
            match r {
                Some(k) => find_target(self.occupancy_list(), id, room@, user@) == Some(k as int)
                    && k < self.occupancies.len(),
                None => find_target(self.occupancy_list(), id, room@, user@) is None,
            },
    {
        let ghost s = self.occupancy_list();
        let mut k: usize = 0;
        while k < self.occupancies.len()
            invariant
                k <= self.occupancies.len(),
                self.wf(),
                s == self.occupancy_list(),
                forall|j: int| 0 <= j < k ==> !is_target(#[trigger] s[j], id, room@, user@),
            decreases self.occupancies.len() - k,
        {
            let o = &self.occupancies[k];
            assert(s[k as int] == o@);
            if o.id == id && o.room == *room && o.user_id == *user {
                proof {
                    let c = choose|c: int| 0 <= c < s.len() && is_target(s[c], id, room@, user@);
                    if c != k {
                        assert(s[c].id == s[k as int].id);
                    }
                }
                return Some(k);
            }
            k = k + 1;
        }
        None
    }

    /// Stores a new occupancy of room `ri` over `[start, end)` under the next
    /// identifier, once the conflict check has passed. Gives nothing, and
    /// changes nothing, when the identifiers are used up.
    pub fn insert_checked(
        &mut self,
        ri: usize,
        start: i64,
        end: i64,
        user_id: &String,
        user_name: &String,
        user_contact: &String,
    ) -> (r: Option<Occupancy>)
        requires
            old(self).wf(),
            ri < old(self).rooms.len(),
            start < end,
            start % HOUR == 0,
            end % HOUR == 0,
            available(
                old(self).occupancy_list(),
                old(self).room_list()[ri as int].id,
                old(self).room_list()[ri as int].max_occupancy as int,
                start as int,
                end as int,
                None,
            ),
        ensures
            final(self).wf(),
            final(self).room_list() == old(self).room_list(),
            final(self).user_list() == old(self).user_list(),
            old(self).next_id == i32::MAX ==> r is None && final(self).occupancy_list() == old(self).occupancy_list()
                && final(self).next_id == old(self).next_id,
            old(self).next_id < i32::MAX ==> r is Some && r->0@ == (OccupancyView {
                id: old(self).next_id,
                start: start as int,
                end: end as int,
                user_id: user_id@,
                user_name: user_name@,
                user_contact: user_contact@,
                room: old(self).room_list()[ri as int].id,
            }) && final(self).occupancy_list() == old(self).occupancy_list().push(r->0@)
                && final(self).next_id == old(self).next_id + 1,
    {
        if self.next_id == i32::MAX {
            return None;
        }
        let ghost s = self.occupancy_list();
        let ghost rooms = self.room_list();
        let o = Occupancy {
            id: self.next_id,
            start,
            end,
            user_id: user_id.clone(),
            user_name: user_name.clone(),
            user_contact: user_contact.clone(),
            room: self.rooms[ri].id.clone(),
        };
        assert(rooms[ri as int] == self.rooms@[ri as int]@);
        let result = o.duplicate();
        let ghost x = o@;
        self.occupancies.push(o);
        self.next_id = self.next_id + 1;
        proof {
            let n = self.occupancy_list();
            assert(n =~= s.push(x));
            assert forall|k: int| 0 <= k < n.len() implies well_placed(#[trigger] n[k], self.next_id as int) by {
                if k < s.len() {
                    assert(n[k] == s[k]);
                }
            }
            assert forall|a: int, b: int| 0 <= a < b < n.len() implies #[trigger] n[a].id != #[trigger] n[b].id by {
                if b < s.len() {
                    assert(n[a] == s[a] && n[b] == s[b]);
                } else {
                    assert(n[a] == s[a]);
                    assert(well_placed(s[a], old(self).next_id as int));
                }
            }
            assert forall|k: int| 0 <= k < n.len() implies room_known(rooms, #[trigger] n[k].room) by {
                if k < s.len() {
                    assert(n[k] == s[k]);
                } else {
                    assert(rooms[ri as int].id == n[k].room);
                }
            }
            assert forall|c: int| 0 <= c < rooms.len() implies capacity_respected(n, #[trigger] rooms[c]) by {
                let rc = rooms[c];
                assert(capacity_respected(s, rc));
                assert forall|t: int| t % (HOUR as int) == 0 implies #[trigger] hour_load(n, rc.id, t, None) <= rc.max_occupancy by {
                    lemma_load_push(s, x, rc.id, t, None);
                    assert(hour_load(s, rc.id, t, None) <= rc.max_occupancy);
                    if counts_toward(x, rc.id, t, None) {
                        old(self).lemma_room_ids_distinct(c, ri as int);
                        lemma_aligned_le(start as int, t);
                        assert(is_step(start as int, end as int, t));
                        assert(hour_load(s, rc.id, t, None) < rc.max_occupancy);
                    }
                }
            }
        }
        Some(result)
    }

    /// Moves occupancy `k` to `[start, end)`, once the conflict check that
    /// leaves the occupancy itself out has passed.
    pub fn retime_checked(&mut self, k: usize, ri: usize, start: i64, end: i64)
        requires
            old(self).wf(),
            k < old(self).occupancies.len(),
            ri < old(self).rooms.len(),
            old(self).room_list()[ri as int].id == old(self).occupancy_list()[k as int].room,
            start < end,
            start % HOUR == 0,
            end % HOUR == 0,
            available(
                old(self).occupancy_list(),
                old(self).room_list()[ri as int].id,
                old(self).room_list()[ri as int].max_occupancy as int,
                start as int,
                end as int,
                Some(old(self).occupancy_list()[k as int].id),
            ),
        ensures
            final(self).wf(),
            final(self).room_list() == old(self).room_list(),
            final(self).user_list() == old(self).user_list(),
            final(self).next_id == old(self).next_id,
            final(self).occupancy_list() == old(self).occupancy_list().update(
                k as int,
                with_range(old(self).occupancy_list()[k as int], start as int, end as int),
            ),
    {
        let ghost s = self.occupancy_list();
        let ghost rooms = self.room_list();
        let ghost x = with_range(s[k as int], start as int, end as int);
        let mut o = self.occupancies[k].duplicate();
        o.start = start;
        o.end = end;
        self.occupancies.set(k, o);
        proof {
            let n = self.occupancy_list();
            assert(n =~= s.update(k as int, x));
            assert forall|j: int| 0 <= j < n.len() implies well_placed(#[trigger] n[j], self.next_id as int) by {
                if j != k {
                    assert(n[j] == s[j]);
                } else {
                    assert(well_placed(s[j], self.next_id as int));
                }
            }
            assert forall|a: int, b: int| 0 <= a < b < n.len() implies #[trigger] n[a].id != #[trigger] n[b].id by {
                assert(n[a].id == s[a].id && n[b].id == s[b].id);
            }
            assert forall|j: int| 0 <= j < n.len() implies room_known(rooms, #[trigger] n[j].room) by {
                assert(n[j].room == s[j].room);
                assert(room_known(rooms, s[j].room));
            }
            assert forall|c: int| 0 <= c < rooms.len() implies capacity_respected(n, #[trigger] rooms[c]) by {
                let rc = rooms[c];
                assert(capacity_respected(s, rc));
                assert forall|t: int| t % (HOUR as int) == 0 implies #[trigger] hour_load(n, rc.id, t, None) <= rc.max_occupancy by {
                    lemma_load_update(s, k as int, x, rc.id, t, None);
                    lemma_load_exclude(s, k as int, rc.id, t);
                    assert(hour_load(s, rc.id, t, None) <= rc.max_occupancy);
                    if counts_toward(x, rc.id, t, None) {
                        old(self).lemma_room_ids_distinct(c, ri as int);
                        lemma_aligned_le(start as int, t);
                        assert(is_step(start as int, end as int, t));
                        assert(hour_load(s, rc.id, t, Some(s[k as int].id)) < rc.max_occupancy);
                    }
                }
            }
        }
    }

    /// Removes occupancy `k`.
    pub fn remove_at(&mut self, k: usize)
        requires
            old(self).wf(),
            k < old(self).occupancies.len(),
        ensures
            final(self).wf(),
            final(self).room_list() == old(self).room_list(),
            final(self).user_list() == old(self).user_list(),
            final(self).next_id == old(self).next_id,
            final(self).occupancy_list() == old(self).occupancy_list().remove(k as int),
    {
        let ghost s = self.occupancy_list();
        let ghost rooms = self.room_list();
        self.occupancies.remove(k);
        proof {
            let n = self.occupancy_list();
            assert(n =~= s.remove(k as int));
            assert forall|j: int| 0 <= j < n.len() implies well_placed(#[trigger] n[j], self.next_id as int) by {
                if j < k {
                    assert(n[j] == s[j]);
                } else {
                    assert(n[j] == s[j + 1]);
                }
            }
            assert forall|a: int, b: int| 0 <= a < b < n.len() implies #[trigger] n[a].id != #[trigger] n[b].id by {
                let a2 = if a < k { a } else { a + 1 };
                let b2 = if b < k { b } else { b + 1 };
                assert(n[a] == s[a2] && n[b] == s[b2]);
            }
            assert forall|j: int| 0 <= j < n.len() implies room_known(rooms, #[trigger] n[j].room) by {
                let j2 = if j < k { j } else { j + 1 };
                assert(n[j] == s[j2]);
                assert(room_known(rooms, s[j2].room));
            }
            assert forall|c: int| 0 <= c < rooms.len() implies capacity_respected(n, #[trigger] rooms[c]) by {
                let rc = rooms[c];
                assert(capacity_respected(s, rc));
                assert forall|t: int| t % (HOUR as int) == 0 implies #[trigger] hour_load(n, rc.id, t, None) <= rc.max_occupancy by {
                    lemma_load_remove(s, k as int, rc.id, t, None);
                    assert(hour_load(s, rc.id, t, None) <= rc.max_occupancy);
                }
            }
        }
    }

    /// The booking rule holds in every state the operations reach: in every
    /// whole hour, each room holds at most its capacity of occupancies.
    pub proof fn lemma_capacity_invariant(&self, i: int, t: int)
        requires
            self.wf(),
            0 <= i < self.rooms.len(),
            t % (HOUR as int) == 0,
        ensures
            hour_load(self.occupancy_list(), self.room_list()[i].id, t, None) <= self.room_list()[i].max_occupancy,
    {
        assert(capacity_respected(self.occupancy_list(), self.room_list()[i]));
    }

    /// Takes back an occupancy that was persisted earlier, keeping its
    /// identifier, if it fits the invariant; refuses (and changes nothing) otherwise.
    pub fn restore_occupancy(&mut self, o: Occupancy) -> (r: bool)
        requires
            old(self).wf(),
        ensures
            final(self).wf(),
            final(self).room_list() == old(self).room_list(),
            final(self).user_list() == old(self).user_list(),
            r == restorable(*old(self), o@),
            r ==> final(self).occupancy_list() == old(self).occupancy_list().push(o@) && final(self).next_id == (if o.id
                < old(self).next_id {
                old(self).next_id as int
            } else {
                o.id + 1
            }),
            !r ==> final(self).occupancy_list() == old(self).occupancy_list() && final(self).next_id == old(self).next_id,
    {
        let ghost s = self.occupancy_list();
        let ghost rooms = self.room_list();
        let ghost x = o@;
        if !(o.start < o.end && o.start % HOUR == 0 && o.end % HOUR == 0 && o.end <= i64::MAX - HOUR && 0 < o.id && o.id
            < i32::MAX) {
            return false;
        }
        let mut k: usize = 0;
        while k < self.occupancies.len()
            invariant
                k <= self.occupancies.len(),
                *self == *old(self),
                self.wf(),
                s == self.occupancy_list(),
                forall|j: int| 0 <= j < k ==> (#[trigger] s[j]).id != o.id,
            decreases self.occupancies.len() - k,
        {
            assert(s[k as int] == self.occupancies@[k as int]@);
            if self.occupancies[k].id == o.id {
                return false;
            }
            k = k + 1;
        }
        let ri = match self.find_room(&o.room) {
            Some(i) => i,
            None => return false,
        };
        if !check_if_room_available(&self.rooms[ri], &self.occupancies, o.start, o.end, None) {
            return false;
        }
        let ghost old_next = self.next_id;
        if o.id >= self.next_id {
            self.next_id = o.id + 1;
        }
        self.occupancies.push(o);
        proof {
            let n = self.occupancy_list();
            assert(n =~= s.push(x));
            assert forall|k: int| 0 <= k < n.len() implies well_placed(#[trigger] n[k], self.next_id as int) by {
                if k < s.len() {
                    assert(n[k] == s[k]);
                    assert(well_placed(s[k], old_next as int));
                }
            }
            assert forall|a: int, b: int| 0 <= a < b < n.len() implies #[trigger] n[a].id != #[trigger] n[b].id by {
                assert(n[a] == s[a]);
                if b < s.len() {
                    assert(n[b] == s[b]);
                }
            }
            assert forall|k: int| 0 <= k < n.len() implies room_known(rooms, #[trigger] n[k].room) by {
                if k < s.len() {
                    assert(n[k] == s[k]);
                } else {
                    assert(rooms[ri as int].id == n[k].room);
                }
            }
            assert forall|c: int| 0 <= c < rooms.len() implies capacity_respected(n, #[trigger] rooms[c]) by {
                let rc = rooms[c];
                assert(capacity_respected(s, rc));
                assert forall|t: int| t % (HOUR as int) == 0 implies #[trigger] hour_load(n, rc.id, t, None) <= rc.max_occupancy by {
                    lemma_load_push(s, x, rc.id, t, None);
                    assert(hour_load(s, rc.id, t, None) <= rc.max_occupancy);
                    if counts_toward(x, rc.id, t, None) {
                        old(self).lemma_room_ids_distinct(c, ri as int);
                        lemma_aligned_le(x.start, t);
                        assert(is_step(x.start, x.end, t));
                        assert(hour_load(s, rc.id, t, None) < rc.max_occupancy);
                    }
                }
            }
        }
        true
    }

    /// Moving an occupancy onto its own range never conflicts: with the
    /// occupancy itself left out, every hour of its range has headroom.
    pub proof fn lemma_self_update_available(&self, k: int, i: int)
        requires
            self.wf(),
            0 <= k < self.occupancies.len(),
            0 <= i < self.rooms.len(),
            self.room_list()[i].id == self.occupancy_list()[k].room,
        ensures
            available(
                self.occupancy_list(),
                self.occupancy_list()[k].room,
                self.room_list()[i].max_occupancy as int,
                self.occupancy_list()[k].start,
                self.occupancy_list()[k].end,
                Some(self.occupancy_list()[k].id),
            ),
    {
        let s = self.occupancy_list();
        let o = s[k];
        let rv = self.room_list()[i];
        assert(well_placed(o, self.next_id as int));
        assert(capacity_respected(s, rv));
        assert forall|t: int| is_step(o.start, o.end, t) implies #[trigger] hour_load(s, o.room, t, Some(o.id))
            < rv.max_occupancy by {
            lemma_load_exclude(s, k, o.room, t);
            assert(counts_toward(o, o.room, t, None));
            assert(t % (HOUR as int) == 0);
            assert(hour_load(s, rv.id, t, None) <= rv.max_occupancy);
        }
    }

    /// The position of the user with identifier `id`.
    pub fn find_user(&self, id: &String) -> (r: Option<usize>)
        requires
            self.wf(),
        ensures
            match r {
                Some(i) => i < self.users.len() && self.user_list()[i as int].id == id@
                    && find_user_view(self.user_list(), id@) == Some(self.user_list()[i as int]),
                None => find_user_view(self.user_list(), id@) is None,
            },
    {
        let mut i: usize = 0;
        while i < self.users.len()
            invariant
                i <= self.users.len(),
                self.wf(),
                forall|k: int| 0 <= k < i ==> #[trigger] self.user_list()[k].id != id@,
            decreases self.users.len() - i,
        {
            if self.users[i].id == *id {
                proof {
                    let ul = self.user_list();
                    assert(ul[i as int] == self.users@[i as int]@);
                    assert(ul[i as int].id == id@);
                    let j = choose|j: int| 0 <= j < ul.len() && ul[j].id == id@;
                    if j < i {
                    } else if j > i {
                        assert(ul[i as int].id != ul[j].id);
                    }
                }
                return Some(i);
            }
            i = i + 1;
        }
        None
    }
}

} // verus!
