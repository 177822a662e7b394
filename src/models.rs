//! Persisted entities: rooms, users and occupancies.
use vstd::prelude::*;

verus! {

/// A bookable room. `max_occupancy` is how many occupancies may share one hour.
#[derive(Debug, Clone, PartialEq, Eq)]
pub struct Room {
    pub id: String,
    pub max_occupancy: i32,
    pub timezone: Option<String>,
}

/// A known user; one without a password hash signs in through the directory.
#[derive(Debug, Clone, PartialEq, Eq)]
pub struct User {
    pub id: String,
    pub display_name: String,
    pub contact_info: String,
    pub password_hash: Option<String>,
}

/// An occupancy that is about to be stored and has no identifier yet.
/// Times are seconds since the epoch (UTC).
#[derive(Debug, Clone, PartialEq, Eq)]
pub struct NewOccupancy {
    pub start: i64,
    pub end: i64,
    pub user_id: String,
    pub user_name: String,
    pub user_contact: String,
    pub room: String,
}

/// A stored occupancy of a room by a user over `[start, end)`.
/// Times are seconds since the epoch (UTC).
#[derive(Debug, Clone, PartialEq, Eq)]
pub struct Occupancy {
    pub id: i32,
    pub start: i64,
    pub end: i64,
    pub user_id: String,
    pub user_name: String,
    pub user_contact: String,
    pub room: String,
}

/// The mathematical value of an occupancy.
pub ghost struct OccupancyView {
    pub id: i32,
    pub start: int,
    pub end: int,
    pub user_id: Seq<char>,
    pub user_name: Seq<char>,
    pub user_contact: Seq<char>,
    pub room: Seq<char>,
}

impl View for Occupancy {
    type V = OccupancyView;

    open spec fn view(&self) -> OccupancyView {
        OccupancyView {
            id: self.id,
            start: self.start as int,
            end: self.end as int,
            user_id: self.user_id@,
            user_name: self.user_name@,
            user_contact: self.user_contact@,
            room: self.room@,
        }
    }
}

/// The views of a sequence of occupancies.
pub open spec fn views(s: Seq<Occupancy>) -> Seq<OccupancyView> {
    s.map_values(|o: Occupancy| o@)
}

/// The mathematical value of a room.
pub ghost struct RoomView {
    pub id: Seq<char>,
    pub max_occupancy: i32,
    pub timezone: Option<Seq<char>>,
}

impl View for Room {
    type V = RoomView;

    open spec fn view(&self) -> RoomView {
        RoomView {
            id: self.id@,
            max_occupancy: self.max_occupancy,
            timezone: match self.timezone {
                Some(z) => Some(z@),
                None => None,
            },
        }
    }
}

/// The views of a sequence of rooms.
pub open spec fn room_views(s: Seq<Room>) -> Seq<RoomView> {
    s.map_values(|r: Room| r@)
}

/// The mathematical value of a user.
pub ghost struct UserView {
    pub id: Seq<char>,
    pub display_name: Seq<char>,
    pub contact_info: Seq<char>,
    pub password_hash: Option<Seq<char>>,
}

impl View for User {
    type V = UserView;

    open spec fn view(&self) -> UserView {
        UserView {
            id: self.id@,
            display_name: self.display_name@,
            contact_info: self.contact_info@,
            password_hash: match self.password_hash {
                Some(h) => Some(h@),
                None => None,
            },
        }
    }
}

/// The views of a sequence of users.
pub open spec fn user_views(s: Seq<User>) -> Seq<UserView> {
    s.map_values(|u: User| u@)
}

/// A copy of an optional string.
pub fn duplicate_opt(s: &Option<String>) -> (r: Option<String>)
    ensures
        r is Some <==> s is Some,
        r is Some ==> r->0@ == s->0@,
{
    match s {
        Some(z) => Some(z.clone()),
        None => None,
    }
}

impl Occupancy {
    /// A field-by-field copy.
    pub fn duplicate(&self) -> (r: Occupancy)
        ensures
            r@ == self@,
    {
        Occupancy {
            id: self.id,
            start: self.start,
            end: self.end,
            user_id: self.user_id.clone(),
            user_name: self.user_name.clone(),
            user_contact: self.user_contact.clone(),
            room: self.room.clone(),
        }
    }
}

impl Room {
    /// A field-by-field copy.
    pub fn duplicate(&self) -> (r: Room)
        ensures
            r@ == self@,
    {
        Room { id: self.id.clone(), max_occupancy: self.max_occupancy, timezone: duplicate_opt(&self.timezone) }
    }
}

impl User {
    /// A field-by-field copy.
    pub fn duplicate(&self) -> (r: User)
        ensures
            r@ == self@,
    {
        User {
            id: self.id.clone(),
            display_name: self.display_name.clone(),
            contact_info: self.contact_info.clone(),
            password_hash: duplicate_opt(&self.password_hash),
        }
    }
}

} // verus!
