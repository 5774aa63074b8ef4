//! The world graph: rooms and the named one-way exits between them. It is
//! checked once, when it is built, and only read afterwards.

use vstd::prelude::*;
use crate::search::{first_match, lemma_first_match, lemma_first_match_none, lemma_first_match_some};
use crate::text::{same_text, texts};

verus! {

/// The room in which every player starts.
pub const HOME_ROOM: u32 = 0;

/// A named one-way connection to the room `id`.
#[derive(Debug, Clone)]
pub struct Exit {
    pub id: u32,
    pub name: String,
}

/// A node of the world graph.
#[derive(Debug, Clone)]
pub struct Room {
    pub id: u32,
    pub name: String,
    pub description: String,
    pub exits: Vec<Exit>,
}

/// The rooms of the world, as they were given when it was built.
#[derive(Debug)]
pub struct Area {
    rooms: Vec<Room>,
}

/// Why a set of rooms is no world.
#[derive(Debug, Clone, Copy, PartialEq, Eq)]
pub enum LoadError {
    /// Some exit leads to a room that does not exist.
    DanglingExit,
    /// Some room has two exits of one name.
    DuplicateDirection,
    /// The room in which players start does not exist.
    MissingHome,
}

/// An exit as contracts see it.
pub struct ExitView {
    pub id: u32,
    pub name: Seq<char>,
}

/// A room as contracts see it.
pub struct RoomView {
    pub id: u32,
    pub name: Seq<char>,
    pub description: Seq<char>,
    pub exits: Seq<ExitView>,
}

impl View for Exit {
    type V = ExitView;

    open spec fn view(&self) -> ExitView {
        ExitView { id: self.id, name: self.name@ }
    }
}

impl View for Room {
    type V = RoomView;

    open spec fn view(&self) -> RoomView {
        RoomView {
            id: self.id,
            name: self.name@,
            description: self.description@,
            exits: exit_views(self.exits@),
        }
    }
}

impl View for Area {
    type V = Seq<RoomView>;

    closed spec fn view(&self) -> Seq<RoomView> {
        room_views(self.rooms@)
    }
}

/// The exits of `exits` as contracts see them.
pub open spec fn exit_views(exits: Seq<Exit>) -> Seq<ExitView> {
    exits.map_values(|e: Exit| e@)
}

/// The rooms of `rooms` as contracts see them.
pub open spec fn room_views(rooms: Seq<Room>) -> Seq<RoomView> {
    rooms.map_values(|r: Room| r@)
}

/// The names of `exits`, in their order.
pub open spec fn exit_names(exits: Seq<ExitView>) -> Seq<Seq<char>> {
    exits.map_values(|e: ExitView| e.name)
}

/// The test "this room has identity `id`".
pub open spec fn has_id(id: u32) -> spec_fn(RoomView) -> bool {
    |r: RoomView| r.id == id
}

/// The test "this exit is called `name`".
pub open spec fn is_called(name: Seq<char>) -> spec_fn(ExitView) -> bool {
    |e: ExitView| e.name == name
}

/// The test "this exit leads to the room `id`".
pub open spec fn leads_to(id: u32) -> spec_fn(ExitView) -> bool {
    |e: ExitView| e.id == id
}

/// Where the room `id` stands among `rooms`: the first of that identity.
pub open spec fn room_index(rooms: Seq<RoomView>, id: u32) -> Option<int> {
    first_match(rooms, has_id(id))
}

/// Whether `rooms` has a room of identity `id`.
pub open spec fn has_room(rooms: Seq<RoomView>, id: u32) -> bool {
    room_index(rooms, id) is Some
}

/// The room `id`, if there is one.
pub open spec fn lookup(rooms: Seq<RoomView>, id: u32) -> Option<RoomView> {
    match room_index(rooms, id) {
        Some(i) => Some(rooms[i]),
        None => None,
    }
}

/// The exit of `room` that is called `direction`, if there is one.
pub open spec fn exit_called(room: RoomView, direction: Seq<char>) -> Option<ExitView> {
    match first_match(room.exits, is_called(direction)) {
        Some(k) => Some(room.exits[k]),
        None => None,
    }
}

/// The first exit of `room` that leads to the room `id`, if there is one.
pub open spec fn exit_towards(room: RoomView, id: u32) -> Option<ExitView> {
    match first_match(room.exits, leads_to(id)) {
        Some(k) => Some(room.exits[k]),
        None => None,
    }
}

/// Where the exit `direction` of the room `from` leads, if that room and
/// that exit exist.
pub open spec fn exit_destination(rooms: Seq<RoomView>, from: u32, direction: Seq<char>) -> Option<u32> {
    match lookup(rooms, from) {
        Some(room) => match exit_called(room, direction) {
            Some(e) => Some(e.id),
            None => None,
        },
        None => None,
    }
}

/// The exit of the room `from` by which one gets to the room `to`.
pub open spec fn exit_between(rooms: Seq<RoomView>, from: u32, to: u32) -> Option<ExitView> {
    match lookup(rooms, from) {
        Some(room) => exit_towards(room, to),
        None => None,
    }
}

/// Every exit of `room` leads to a room of `rooms`.
pub open spec fn room_resolves(rooms: Seq<RoomView>, room: RoomView) -> bool {
    forall|k: int| 0 <= k < room.exits.len() ==> has_room(rooms, (#[trigger] room.exits[k]).id)
}

/// Every exit leads to a room that exists.
pub open spec fn exits_resolve(rooms: Seq<RoomView>) -> bool {
    forall|i: int| 0 <= i < rooms.len() ==> room_resolves(rooms, #[trigger] rooms[i])
}

/// No two of `exits` have one name.
pub open spec fn names_differ(exits: Seq<ExitView>) -> bool {
    forall|k: int, m: int|
        0 <= k < m < exits.len() ==> (#[trigger] exits[k]).name != (#[trigger] exits[m]).name
}

/// Within each room the exits' names differ.
pub open spec fn directions_unique(rooms: Seq<RoomView>) -> bool {
    forall|i: int| 0 <= i < rooms.len() ==> names_differ((#[trigger] rooms[i]).exits)
}

/// What makes a set of rooms a world.
pub open spec fn well_formed(rooms: Seq<RoomView>) -> bool {
    &&& exits_resolve(rooms)
    &&& directions_unique(rooms)
    &&& has_room(rooms, HOME_ROOM)
}

/// What `Area::new` answers for `rooms`.
pub open spec fn load_outcome(rooms: Seq<RoomView>) -> Option<LoadError> {
    if !exits_resolve(rooms) {
        Some(LoadError::DanglingExit)
    } else if !directions_unique(rooms) {
        Some(LoadError::DuplicateDirection)
    } else if !has_room(rooms, HOME_ROOM) {
        Some(LoadError::MissingHome)
    } else {
        None
    }
}

/// The position of the first of `rooms` with identity `id`.
pub fn find_room(rooms: &Vec<Room>, id: u32) -> (r: Option<usize>)
    ensures
        match r {
            Some(i) => room_index(room_views(rooms@), id) == Some(i as int),
            None => room_index(room_views(rooms@), id) is None,
        },
{
    let n = rooms.len();
    let mut i: usize = 0;
    while i < n
        invariant
            i <= n,
            n == rooms.len(),
            forall|j: int| 0 <= j < i ==> !has_id(id)(#[trigger] room_views(rooms@)[j]),
        decreases n - i,
    {
        if rooms[i].id == id {
            proof {
                assert(has_id(id)(room_views(rooms@)[i as int]));
                lemma_first_match_some(room_views(rooms@), has_id(id), i as int);
            }
            return Some(i);
        }
        i += 1;
    }
    proof {
        lemma_first_match_none(room_views(rooms@), has_id(id));
    }
    None
}

/// The position of the first of `exits` that is called `name`.
pub fn find_exit_called(exits: &Vec<Exit>, name: &str) -> (r: Option<usize>)
    ensures
        match r {
            Some(k) => first_match(exit_views(exits@), is_called(name@)) == Some(k as int),
            None => first_match(exit_views(exits@), is_called(name@)) is None,
        },
{
    let n = exits.len();
    let mut k: usize = 0;
    while k < n
        invariant
            k <= n,
            n == exits.len(),
            forall|j: int| 0 <= j < k ==> !is_called(name@)(#[trigger] exit_views(exits@)[j]),
        decreases n - k,
    {
        if same_text(exits[k].name.as_str(), name) {
            proof {
                assert(is_called(name@)(exit_views(exits@)[k as int]));
                lemma_first_match_some(exit_views(exits@), is_called(name@), k as int);
            }
            return Some(k);
        }
        k += 1;
    }
    proof {
        lemma_first_match_none(exit_views(exits@), is_called(name@));
    }
    None
}

/// The position of the first of `exits` that leads to the room `id`.
pub fn find_exit_towards(exits: &Vec<Exit>, id: u32) -> (r: Option<usize>)
    ensures
        match r {
            Some(k) => first_match(exit_views(exits@), leads_to(id)) == Some(k as int),
            None => first_match(exit_views(exits@), leads_to(id)) is None,
        },
{
    let n = exits.len();
    let mut k: usize = 0;
    while k < n
        invariant
            k <= n,
            n == exits.len(),
            forall|j: int| 0 <= j < k ==> !leads_to(id)(#[trigger] exit_views(exits@)[j]),
        decreases n - k,
    {
        if exits[k].id == id {
            proof {
                assert(leads_to(id)(exit_views(exits@)[k as int]));
                lemma_first_match_some(exit_views(exits@), leads_to(id), k as int);
            }
            return Some(k);
        }
        k += 1;
    }
    proof {
        lemma_first_match_none(exit_views(exits@), leads_to(id));
    }
    None
}

/// Whether every exit of the room at `i` leads to one of `rooms`.
fn room_exits_resolve(rooms: &Vec<Room>, i: usize) -> (ok: bool)
    requires
        i < rooms.len(),
    ensures
        ok == room_resolves(room_views(rooms@), room_views(rooms@)[i as int]),
{
    let ghost all = room_views(rooms@);
    let ghost exits = all[i as int].exits;
    let n = rooms[i].exits.len();
    let mut k: usize = 0;
    while k < n
        invariant
            k <= n,
            i < rooms.len(),
            n == rooms[i as int].exits.len(),
            all == room_views(rooms@),
            exits == all[i as int].exits,
            exits == exit_views(rooms[i as int].exits@),
            forall|j: int| 0 <= j < k ==> has_room(all, (#[trigger] exits[j]).id),
        decreases n - k,
    {
        if find_room(rooms, rooms[i].exits[k].id).is_none() {
            assert(!has_room(all, exits[k as int].id));
            return false;
        }
        k += 1;
    }
    true
}

/// Whether every exit of every room leads to one of `rooms`.
fn all_exits_resolve(rooms: &Vec<Room>) -> (ok: bool)
    ensures
        ok == exits_resolve(room_views(rooms@)),
{
    let ghost all = room_views(rooms@);
    let n = rooms.len();
    let mut i: usize = 0;
    while i < n
        invariant
            i <= n,
            n == rooms.len(),
            all == room_views(rooms@),
            forall|j: int| 0 <= j < i ==> room_resolves(all, #[trigger] all[j]),
        decreases n - i,
    {
        if !room_exits_resolve(rooms, i) {
            return false;
        }
        i += 1;
    }
    true
}

/// Whether the exit at `m` has a name that none before it has.
fn name_is_new(exits: &Vec<Exit>, m: usize) -> (ok: bool)
    requires
        m < exits.len(),
    ensures
        ok == (forall|k: int| 0 <= k < m ==> (#[trigger] exit_views(exits@)[k]).name != exits[m as int].name@),
{
    let mut k: usize = 0;
    while k < m
        invariant
            k <= m,
            m < exits.len(),
            forall|j: int| 0 <= j < k ==> (#[trigger] exit_views(exits@)[j]).name != exits[m as int].name@,
        decreases m - k,
    {
        if same_text(exits[k].name.as_str(), exits[m].name.as_str()) {
            assert(exit_views(exits@)[k as int].name == exits[m as int].name@);
            return false;
        }
        k += 1;
    }
    true
}

/// Whether no two of `exits` have one name.
fn exit_names_differ(exits: &Vec<Exit>) -> (ok: bool)
    ensures
        ok == names_differ(exit_views(exits@)),
{
    let ghost views = exit_views(exits@);
    let n = exits.len();
    let mut m: usize = 0;
    while m < n
        invariant
            m <= n,
            n == exits.len(),
            views == exit_views(exits@),
            forall|k: int, j: int| 0 <= k < j < m ==> (#[trigger] views[k]).name != (#[trigger] views[j]).name,
        decreases n - m,
    {
        if !name_is_new(exits, m) {
            assert(exists|k: int| 0 <= k < m && (#[trigger] views[k]).name == views[m as int].name);
            return false;
        }
        m += 1;
    }
    true
}

/// Whether within each room the exits' names differ.
fn all_directions_unique(rooms: &Vec<Room>) -> (ok: bool)
    ensures
        ok == directions_unique(room_views(rooms@)),
{
    let ghost all = room_views(rooms@);
    let n = rooms.len();
    let mut i: usize = 0;
    while i < n
        invariant
            i <= n,
            n == rooms.len(),
            all == room_views(rooms@),
            forall|j: int| 0 <= j < i ==> names_differ((#[trigger] all[j]).exits),
        decreases n - i,
    {
        if !exit_names_differ(&rooms[i].exits) {
            assert(!names_differ(all[i as int].exits));
            return false;
        }
        i += 1;
    }
    true
}

impl Room {
    /// The names of the room's exits, in their order.
    pub fn exit_names(&self) -> (r: Vec<String>)
        ensures
            texts(r@) == exit_names(self@.exits),
    {
        let mut out: Vec<String> = Vec::new();
        let n = self.exits.len();
        let mut k: usize = 0;
        while k < n
            invariant
                k <= n,
                n == self.exits.len(),
                texts(out@) =~= exit_names(self@.exits.take(k as int)),
            decreases n - k,
        {
            let ghost before = texts(out@);
            out.push(self.exits[k].name.clone());
            assert(texts(out@) =~= before.push(self.exits[k as int].name@));
            assert(exit_names(self@.exits.take(k + 1)) =~= exit_names(
                self@.exits.take(k as int),
            ).push(self@.exits[k as int].name));
            k += 1;
        }
        assert(self@.exits.take(n as int) =~= self@.exits);
        out
    }
}

impl Area {
    /// The world is sound: what `new` checked holds of it.
    pub open spec fn wf(&self) -> bool {
        well_formed(self@)
    }

    /// Makes a world of `rooms`, or says why they are none. The first fault
    /// that is looked for is an exit that leads nowhere, the second two
    /// exits of one name in a room, the third a missing home room.
    pub fn new(rooms: Vec<Room>) -> (r: Result<Area, LoadError>)
        ensures
            match r {
                Ok(area) => load_outcome(room_views(rooms@)) is None && area@ == room_views(rooms@)
                    && area.wf(),
                Err(e) => load_outcome(room_views(rooms@)) == Some(e),
            },
    {
        if !all_exits_resolve(&rooms) {
            return Err(LoadError::DanglingExit);
        }
        if !all_directions_unique(&rooms) {
            return Err(LoadError::DuplicateDirection);
        }
        if find_room(&rooms, HOME_ROOM).is_none() {
            return Err(LoadError::MissingHome);
        }
        Ok(Area { rooms })
    }

    /// The rooms, in the order in which they were given.
    pub fn rooms(&self) -> (r: &Vec<Room>)
        ensures
            room_views(r@) == self@,
    {
        &self.rooms
    }

    /// The room `id`: the first of that identity, if there is one.
    pub fn get_room_by_id_mut(&self, id: u32) -> (r: Option<&Room>)
        ensures
            match r {
                Some(room) => lookup(self@, id) == Some(room@),
                None => lookup(self@, id) is None,
            },
    {
        match find_room(&self.rooms, id) {
            Some(i) => Some(&self.rooms[i]),
            None => None,
        }
    }

    /// Where the exit `exit_name` of the room `source_room_id` leads, if
    /// that room exists and has an exit of that name.
    pub fn get_dest_room_id(&self, source_room_id: u32, exit_name: &str) -> (r: Option<u32>)
        ensures
            r == exit_destination(self@, source_room_id, exit_name@),
    {
        match self.get_room_by_id_mut(source_room_id) {
            Some(room) => match find_exit_called(&room.exits, exit_name) {
                Some(k) => Some(room.exits[k].id),
                None => None,
            },
            None => None,
        }
    }

    /// The exit of the room `from` by which one gets to the room `to`: the
    /// first such exit, if the room exists and has one.
    pub fn get_exit_between(&self, from: u32, to: u32) -> (r: Option<&Exit>)
        ensures
            match r {
                Some(e) => exit_between(self@, from, to) == Some(e@),
                None => exit_between(self@, from, to) is None,
            },
    {
        match self.get_room_by_id_mut(from) {
            Some(room) => match find_exit_towards(&room.exits, to) {
                Some(k) => Some(&room.exits[k]),
                None => None,
            },
            None => None,
        }
    }
}

/// In a sound set of rooms, where an exit leads there is a room.
pub proof fn lemma_destination_exists(rooms: Seq<RoomView>, from: u32, direction: Seq<char>)
    requires
        well_formed(rooms),
        exit_destination(rooms, from, direction) is Some,
    ensures
        has_room(rooms, exit_destination(rooms, from, direction)->0),
{
    lemma_first_match(rooms, has_id(from));
    let i = room_index(rooms, from)->0;
    lemma_first_match(rooms[i].exits, is_called(direction));
    let k = first_match(rooms[i].exits, is_called(direction))->0;
    assert(room_resolves(rooms, rooms[i]));
    assert(has_room(rooms, rooms[i].exits[k].id));
}

} // verus!
