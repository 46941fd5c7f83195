use vstd::prelude::*;

use crate::stats::{add_stat3, clamp};
use crate::structs::{
    doors_view, rooms_view, BattleResult, Combatant, Door, DoorView, Key, Player, Room,
    RoomRequirements, RoomView,
};

verus! {

/// `i` is the first door of `doors` with the given name.
pub open spec fn is_first_door(doors: Seq<DoorView>, name: Seq<char>, i: int) -> bool {
    &&& 0 <= i < doors.len()
    &&& doors[i].name == name
    &&& forall|j: int| 0 <= j < i ==> doors[j].name != name
}

/// Index of the first door with the given name, or -1.
pub open spec fn door_index(doors: Seq<DoorView>, name: Seq<char>) -> int {
    if exists|i: int| is_first_door(doors, name, i) {
        choose|i: int| is_first_door(doors, name, i)
    } else {
        -1
    }
}

/// `i` is the first room of `rooms` with the given name.
pub open spec fn is_first_room(rooms: Seq<RoomView>, name: Seq<char>, i: int) -> bool {
    &&& 0 <= i < rooms.len()
    &&& rooms[i].name == name
    &&& forall|j: int| 0 <= j < i ==> rooms[j].name != name
}

/// Index of the room with the given name in the world map, or -1.
pub open spec fn room_index(rooms: Seq<RoomView>, name: Seq<char>) -> int {
    if exists|i: int| is_first_room(rooms, name, i) {
        choose|i: int| is_first_room(rooms, name, i)
    } else {
        -1
    }
}

/// The keys held include one with the given name.
pub open spec fn holds_key(keys: Seq<Key>, name: Seq<char>) -> bool {
    exists|i: int| 0 <= i < keys.len() && keys[i].name@ == name
}

/// The battle history holds a result against an enemy of this name.
pub open spec fn has_fought(battles: Seq<BattleResult>, enemy: Seq<char>) -> bool {
    exists|i: int| 0 <= i < battles.len() && battles[i].enemy_name@ == enemy
}

/// The player's stats reach what the door asks for.
pub open spec fn meets(p: Player, req: Option<RoomRequirements>) -> bool {
    match req {
        Some(r) => p.health >= r.health && p.attack >= r.attack && p.defense >= r.defense,
        None => true,
    }
}

/// The door's enemy has to be fought before passing.
pub open spec fn must_fight(p: Player, d: DoorView) -> bool {
    match d.enemy {
        Some(e) => !has_fought(p.battles@, e.name),
        None => false,
    }
}

/// Some door of the room leads to the named room.
pub open spec fn points_to(r: RoomView, target: Seq<char>) -> bool {
    exists|j: int| 0 <= j < r.doors.len() && r.doors[j].room == target
}

/// Some door of the room has the given name.
pub open spec fn has_door_named(r: RoomView, name: Seq<char>) -> bool {
    exists|j: int| 0 <= j < r.doors.len() && r.doors[j].name == name
}

/// The door synthesized to lead back to a room: named after it, unlocked,
/// keyless, unguarded and without requirements.
pub open spec fn back_door(room: Seq<char>) -> DoorView {
    DoorView {
        name: room,
        description: "a door to the "@ + room,
        locked: false,
        key: Seq::empty(),
        enemy: None,
        room,
        requirements: None,
    }
}

pub open spec fn with_door(r: RoomView, d: DoorView) -> RoomView {
    RoomView { doors: r.doors.push(d), ..r }
}

/// The room entered from `from`, with a door back to `from` unless one of its
/// doors already leads there.
pub open spec fn with_back_link(r: RoomView, from: Seq<char>) -> RoomView {
    if points_to(r, from) {
        r
    } else {
        with_door(r, back_door(from))
    }
}

/// The room `r` after the rooms of `rooms`, taken in order, that have a door
/// leading to `r` and after which `r` has no door named, get one.
pub open spec fn discover(rooms: Seq<RoomView>, r: RoomView) -> RoomView
    decreases rooms.len(),
{
    if rooms.len() == 0 {
        r
    } else {
        let before = discover(rooms.drop_last(), r);
        let q = rooms.last();
        if points_to(q, r.name) && !has_door_named(before, q.name) {
            with_door(before, back_door(q.name))
        } else {
            before
        }
    }
}

/// The room as the player finds it on arriving from `from`.
pub open spec fn arrival(rooms: Seq<RoomView>, target: RoomView, from: Seq<char>) -> RoomView {
    discover(rooms, with_back_link(target, from))
}

/// What an attempt to pass through a door comes to.
pub enum Verdict {
    NoSuchDoor,
    Locked,
    Unmet,
    Guarded,
    Moved,
}

/// The outcome of `move_through_door`.
#[derive(Debug)]
pub enum Passage {
    /// No door of the current room has that name.
    NoSuchDoor,
    /// The door is locked and no key held matches.
    Locked,
    /// The player's stats fall short of the door's requirements.
    Unmet(RoomRequirements),
    /// The door's enemy must be beaten first; nothing has changed.
    Guarded(Combatant),
    /// The player now stands in the room behind the door.
    Moved,
}

impl Passage {
    pub open spec fn verdict(self) -> Verdict {
        match self {
            Passage::NoSuchDoor => Verdict::NoSuchDoor,
            Passage::Locked => Verdict::Locked,
            Passage::Unmet(_) => Verdict::Unmet,
            Passage::Guarded(_) => Verdict::Guarded,
            Passage::Moved => Verdict::Moved,
        }
    }
}

/// The first door of the current room named `name`.
pub open spec fn chosen_door(p: Player, name: Seq<char>) -> DoorView {
    p.current_room@.doors[door_index(p.current_room@.doors, name)]
}

/// What passing through the door named `name` comes to, checked in order:
/// the door exists, its lock, its requirements, its guard.
pub open spec fn verdict(p: Player, name: Seq<char>) -> Verdict {
    let doors = p.current_room@.doors;
    if door_index(doors, name) < 0 {
        Verdict::NoSuchDoor
    } else {
        let d = chosen_door(p, name);
        if d.locked && !holds_key(p.keys_held@, d.key) {
            Verdict::Locked
        } else if !meets(p, d.requirements) {
            Verdict::Unmet
        } else if must_fight(p, d) {
            Verdict::Guarded
        } else {
            Verdict::Moved
        }
    }
}

/// The room behind the door named `name`, as the world map holds it.
pub open spec fn target_room(p: Player, name: Seq<char>) -> RoomView {
    let rooms = rooms_view(p.map@);
    rooms[room_index(rooms, chosen_door(p, name).room)]
}

/// The room that passing through the door named `name` leads into, with the
/// doors it gains on arrival.
pub open spec fn arrived(p: Player, name: Seq<char>) -> RoomView {
    arrival(rooms_view(p.map@), target_room(p, name), p.current_room@.name)
}

/// Some room of the world map has this name.
pub open spec fn has_room(rooms: Seq<RoomView>, name: Seq<char>) -> bool {
    exists|i: int| 0 <= i < rooms.len() && rooms[i].name == name
}

/// Every door of the room leads to a room of the world map.
pub open spec fn leads_inside(rooms: Seq<RoomView>, r: RoomView) -> bool {
    forall|j: int| 0 <= j < r.doors.len() ==> has_room(rooms, #[trigger] r.doors[j].room)
}

/// A world map as the game needs it: no two rooms share a name, and every
/// door leads to a room of the map.
pub open spec fn valid_world(rooms: Seq<RoomView>) -> bool {
    &&& forall|i: int, j: int| 0 <= i < j < rooms.len() ==> rooms[i].name != rooms[j].name
    &&& forall|i: int| 0 <= i < rooms.len() ==> leads_inside(rooms, #[trigger] rooms[i])
}

/// The invariant of a player's state: a valid world map, which holds a room
/// of the current room's name, and the current room's doors lead into it.
pub open spec fn well_formed(p: Player) -> bool {
    let rooms = rooms_view(p.map@);
    &&& valid_world(rooms)
    &&& has_room(rooms, p.current_room@.name)
    &&& leads_inside(rooms, p.current_room@)
}

/// A room that the map holds is found by `room_index`.
pub proof fn lemma_room_found(rooms: Seq<RoomView>, name: Seq<char>, i: int)
    requires
        0 <= i < rooms.len(),
        rooms[i].name == name,
    ensures
        room_index(rooms, name) >= 0,
        rooms[room_index(rooms, name)].name == name,
    decreases i,
{
    if exists|j: int| 0 <= j < i && rooms[j].name == name {
        let j = choose|j: int| 0 <= j < i && rooms[j].name == name;
        lemma_room_found(rooms, name, j);
    } else {
        assert(is_first_room(rooms, name, i));
    }
}

/// Replacing a room of a valid map by a room of the same name whose doors
/// lead into the map keeps the map valid and the set of its names.
pub proof fn lemma_update_keeps_valid(rooms: Seq<RoomView>, k: int, x: RoomView)
    requires
        valid_world(rooms),
        0 <= k < rooms.len(),
        x.name == rooms[k].name,
        leads_inside(rooms, x),
    ensures
        valid_world(rooms.update(k, x)),
        forall|n: Seq<char>| #[trigger] has_room(rooms.update(k, x), n) == has_room(rooms, n),
        forall|y: RoomView| #[trigger] leads_inside(rooms.update(k, x), y) == leads_inside(rooms, y),
{
    let after = rooms.update(k, x);
    assert forall|i: int| 0 <= i < rooms.len() implies after[i].name == rooms[i].name by {}
    assert forall|n: Seq<char>| #[trigger] has_room(after, n) == has_room(rooms, n) by {
        if has_room(rooms, n) {
            let i = choose|i: int| 0 <= i < rooms.len() && rooms[i].name == n;
            assert(after[i].name == n);
        }
        if has_room(after, n) {
            let i = choose|i: int| 0 <= i < after.len() && after[i].name == n;
            assert(rooms[i].name == n);
        }
    }
    assert forall|y: RoomView| #[trigger] leads_inside(after, y) == leads_inside(rooms, y) by {
        if leads_inside(rooms, y) {
            assert forall|j: int| 0 <= j < y.doors.len() implies has_room(after, #[trigger] y.doors[j].room) by {
                assert(has_room(rooms, y.doors[j].room));
            }
        }
        if leads_inside(after, y) {
            assert forall|j: int| 0 <= j < y.doors.len() implies has_room(rooms, #[trigger] y.doors[j].room) by {
                assert(has_room(after, y.doors[j].room));
            }
        }
    }
    assert forall|i: int| 0 <= i < after.len() implies leads_inside(after, #[trigger] after[i]) by {
        assert(leads_inside(rooms, after[i]));
    }
}

/// Doors found on arrival lead into the map when the room's own doors do.
pub proof fn lemma_discover_leads_inside(all: Seq<RoomView>, rooms: Seq<RoomView>, r: RoomView)
    requires
        leads_inside(all, r),
        forall|i: int| 0 <= i < rooms.len() ==> has_room(all, #[trigger] rooms[i].name),
    ensures
        leads_inside(all, discover(rooms, r)),
    decreases rooms.len(),
{
    if rooms.len() > 0 {
        let rest = rooms.drop_last();
        assert forall|i: int| 0 <= i < rest.len() implies has_room(all, #[trigger] rest[i].name) by {
            assert(rest[i] == rooms[i]);
        }
        lemma_discover_leads_inside(all, rest, r);
        assert(has_room(all, rooms[rooms.len() - 1].name));
    }
}

/// The room the player stands in is the world map's entry of that name.
pub open spec fn in_sync(p: Player) -> bool {
    let rooms = rooms_view(p.map@);
    let k = room_index(rooms, p.current_room@.name);
    k >= 0 && rooms[k] == p.current_room@
}

/// Replacing the first room of a name by a room of the same name leaves it
/// the first room of that name.
pub proof fn lemma_index_after_update(rooms: Seq<RoomView>, k: int, x: RoomView)
    requires
        room_index(rooms, x.name) == k,
        k >= 0,
    ensures
        room_index(rooms.update(k, x), x.name) == k,
{
    let name = x.name;
    assert(exists|i: int| is_first_room(rooms, name, i));
    assert(is_first_room(rooms, name, k));
    let after = rooms.update(k, x);
    assert(is_first_room(after, name, k));
    assert forall|i: int| is_first_room(after, name, i) implies i == k by {
        if i > k {
            assert(after[k].name == name);
        }
    }
}

/// The doors of `r` come first among the doors of `discover(rooms, r)`.
pub proof fn lemma_discover_keeps_doors(rooms: Seq<RoomView>, r: RoomView)
    ensures
        discover(rooms, r).name == r.name,
        discover(rooms, r).doors.len() >= r.doors.len(),
        discover(rooms, r).doors.subrange(0, r.doors.len() as int) == r.doors,
    decreases rooms.len(),
{
    if rooms.len() > 0 {
        lemma_discover_keeps_doors(rooms.drop_last(), r);
        let before = discover(rooms.drop_last(), r);
        assert(before.doors.push(back_door(rooms.last().name)).subrange(0, r.doors.len() as int)
            =~= before.doors.subrange(0, r.doors.len() as int));
    }
}

/// Doors found on arrival never lead to a room after which the room already
/// has a door named: if the `m`-th door is the only one leading to `from` and
/// is named after it, it stays the only one.
pub proof fn lemma_discover_one_way_back(rooms: Seq<RoomView>, r: RoomView, from: Seq<char>, m: int)
    requires
        0 <= m < r.doors.len(),
        r.doors[m].name == from,
        forall|j: int| 0 <= j < r.doors.len() && #[trigger] r.doors[j].room == from ==> j == m,
    ensures
        ({
            let d = discover(rooms, r).doors;
            forall|j: int| 0 <= j < d.len() && #[trigger] d[j].room == from ==> j == m
        }),
    decreases rooms.len(),
{
    if rooms.len() > 0 {
        let rest = rooms.drop_last();
        lemma_discover_one_way_back(rest, r, from, m);
        lemma_discover_keeps_doors(rest, r);
        let before = discover(rest, r);
        assert(before.doors.subrange(0, r.doors.len() as int)[m] == before.doors[m]);
        assert(has_door_named(before, from));
    }
}

/// After passing through a door into a room none of whose doors led back to
/// the room left, the room entered has exactly one door leading back there:
/// named after the room left, unlocked, needing no key, unguarded and without
/// requirements.
pub proof fn lemma_back_link(p: Player, door_name: Seq<char>)
    requires
        verdict(p, door_name) == Verdict::Moved,
        !points_to(target_room(p, door_name), p.current_room@.name),
    ensures
        ({
            let here = arrived(p, door_name);
            let from = p.current_room@.name;
            let m = target_room(p, door_name).doors.len() as int;
            &&& 0 <= m < here.doors.len()
            &&& here.doors[m] == back_door(from)
            &&& forall|j: int| 0 <= j < here.doors.len() && #[trigger] here.doors[j].room == from ==> j == m
            &&& here.doors[m].name == from
            &&& here.doors[m].room == from
            &&& !here.doors[m].locked
            &&& here.doors[m].key.len() == 0
            &&& here.doors[m].enemy is None
            &&& here.doors[m].requirements is None
        }),
{
    let from = p.current_room@.name;
    let target = target_room(p, door_name);
    let linked = with_back_link(target, from);
    let m = target.doors.len() as int;
    lemma_discover_keeps_doors(rooms_view(p.map@), linked);
    let here = arrived(p, door_name);
    assert(here.doors.subrange(0, linked.doors.len() as int)[m] == here.doors[m]);
    assert forall|j: int| 0 <= j < linked.doors.len() && #[trigger] linked.doors[j].room == from implies j == m by {
        if j < m {
            assert(linked.doors[j] == target.doors[j]);
        }
    }
    lemma_discover_one_way_back(rooms_view(p.map@), linked, from, m);
}

/// For a player whose battle history holds a fight against the enemy that
/// guards a door, trying that door does not call for a fight.
pub proof fn lemma_no_refight(p: Player, door_name: Seq<char>)
    requires
        door_index(p.current_room@.doors, door_name) >= 0,
        chosen_door(p, door_name).enemy matches Some(e) && has_fought(p.battles@, e.name),
    ensures
        verdict(p, door_name) != Verdict::Guarded,
{
}

/// Index of the first door named `name`, or `doors.len()` if there is none.
fn find_door(doors: &Vec<Door>, name: &String) -> (r: usize)
    ensures
        r <= doors@.len(),
        r < doors@.len() ==> door_index(doors_view(doors@), name@) == r,
        r == doors@.len() ==> door_index(doors_view(doors@), name@) == -1,
{
    let ghost dv = doors_view(doors@);
    let mut i: usize = 0;
    while i < doors.len()
        invariant
            0 <= i <= doors@.len(),
            dv == doors_view(doors@),
            forall|j: int| 0 <= j < i ==> dv[j].name != name@,
        decreases doors@.len() - i,
    {
        if doors[i].name == *name {
            assert(is_first_door(dv, name@, i as int));
            assert forall|k: int| is_first_door(dv, name@, k) implies k == i by {
                if k < i {
                } else if k > i {
                    assert(dv[i as int].name == name@);
                }
            }
            return i;
        }
        i += 1;
    }
    assert(!exists|k: int| is_first_door(dv, name@, k));
    i
}

/// Index of the room named `name` in the world map, or `rooms.len()` if there
/// is none.
pub fn find_room(rooms: &Vec<Room>, name: &String) -> (r: usize)
    ensures
        r <= rooms@.len(),
        r < rooms@.len() ==> room_index(rooms_view(rooms@), name@) == r,
        r == rooms@.len() ==> room_index(rooms_view(rooms@), name@) == -1,
{
    let ghost rv = rooms_view(rooms@);
    let mut i: usize = 0;
    while i < rooms.len()
        invariant
            0 <= i <= rooms@.len(),
            rv == rooms_view(rooms@),
            forall|j: int| 0 <= j < i ==> rv[j].name != name@,
        decreases rooms@.len() - i,
    {
        if rooms[i].name == *name {
            assert(is_first_room(rv, name@, i as int));
            assert forall|k: int| is_first_room(rv, name@, k) implies k == i by {
                if k < i {
                } else if k > i {
                    assert(rv[i as int].name == name@);
                }
            }
            return i;
        }
        i += 1;
    }
    assert(!exists|k: int| is_first_room(rv, name@, k));
    i
}

fn key_held(keys: &Vec<Key>, key: &Key) -> (r: bool)
    ensures
        r == holds_key(keys@, key.name@),
{
    let mut i: usize = 0;
    while i < keys.len()
        invariant
            0 <= i <= keys@.len(),
            forall|j: int| 0 <= j < i ==> keys@[j].name@ != key.name@,
        decreases keys@.len() - i,
    {
        if keys[i].name == key.name {
            return true;
        }
        i += 1;
    }
    false
}

fn fought(battles: &Vec<BattleResult>, enemy: &String) -> (r: bool)
    ensures
        r == has_fought(battles@, enemy@),
{
    let mut i: usize = 0;
    while i < battles.len()
        invariant
            0 <= i <= battles@.len(),
            forall|j: int| 0 <= j < i ==> battles@[j].enemy_name@ != enemy@,
        decreases battles@.len() - i,
    {
        if battles[i].enemy_name == *enemy {
            return true;
        }
        i += 1;
    }
    false
}

impl Room {
    /// Whether some door of this room leads to the named room.
    pub fn leads_to(&self, target: &String) -> (r: bool)
        ensures
            r == points_to(self@, target@),
    {
        let mut i: usize = 0;
        while i < self.doors.len()
            invariant
                0 <= i <= self.doors@.len(),
                forall|j: int| 0 <= j < i ==> self@.doors[j].room != target@,
            decreases self.doors@.len() - i,
        {
            if self.doors[i].associated_room_name == *target {
                assert(self@.doors[i as int].room == target@);
                return true;
            }
            i += 1;
        }
        false
    }

    /// Whether some door of this room has the given name.
    pub fn has_door(&self, name: &String) -> (r: bool)
        ensures
            r == has_door_named(self@, name@),
    {
        let mut i: usize = 0;
        while i < self.doors.len()
            invariant
                0 <= i <= self.doors@.len(),
                forall|j: int| 0 <= j < i ==> self@.doors[j].name != name@,
            decreases self.doors@.len() - i,
        {
            if self.doors[i].name == *name {
                assert(self@.doors[i as int].name == name@);
                return true;
            }
            i += 1;
        }
        false
    }

    fn add_door(&mut self, d: Door)
        ensures
            final(self)@ == with_door(old(self)@, d@),
    {
        self.doors.push(d);
        assert(doors_view(self.doors@) =~= doors_view(old(self).doors@).push(d@));
    }
}

/// A door back to the named room.
fn make_back_door(room: &String) -> (d: Door)
    ensures
        d@ == back_door(room@),
{
    let description = String::from_str("a door to the ").concat(room.as_str());
    Door::new(
        room.clone(),
        description,
        false,
        Key::new(String::new()),
        None,
        room.clone(),
        None,
    )
}

/// Gives `room` a door to each room of `rooms` that leads to it and that it
/// has no door named after yet.
fn discover_doors(rooms: &Vec<Room>, room: &mut Room)
    ensures
        final(room)@ == discover(rooms_view(rooms@), old(room)@),
{
    let ghost start = room@;
    let ghost rv = rooms_view(rooms@);
    let mut i: usize = 0;
    while i < rooms.len()
        invariant
            0 <= i <= rooms@.len(),
            rv == rooms_view(rooms@),
            room@ == discover(rv.take(i as int), start),
            room@.name == start.name,
        decreases rooms@.len() - i,
    {
        let q = &rooms[i];
        assert(rv.take(i + 1).drop_last() =~= rv.take(i as int));
        assert(rv.take(i + 1).last() == q@);
        if q.leads_to(&room.name) && !room.has_door(&q.name) {
            let d = make_back_door(&q.name);
            room.add_door(d);
        }
        i += 1;
    }
    assert(rv.take(rooms@.len() as int) =~= rv);
}

/// Whether some room of the world map has this name.
pub fn room_exists(rooms: &Vec<Room>, name: &String) -> (r: bool)
    ensures
        r == has_room(rooms_view(rooms@), name@),
{
    let k = find_room(rooms, name);
    proof {
        let rv = rooms_view(rooms@);
        if k < rooms@.len() {
            assert(rv[k as int].name == name@);
        } else if has_room(rv, name@) {
            let j = choose|j: int| 0 <= j < rv.len() && rv[j].name == name@;
            lemma_room_found(rv, name@, j);
        }
    }
    k < rooms.len()
}

fn doors_inside(rooms: &Vec<Room>, room: &Room) -> (r: bool)
    ensures
        r == leads_inside(rooms_view(rooms@), room@),
{
    let mut i: usize = 0;
    while i < room.doors.len()
        invariant
            0 <= i <= room.doors@.len(),
            forall|j: int| 0 <= j < i ==> has_room(rooms_view(rooms@), #[trigger] room@.doors[j].room),
        decreases room.doors@.len() - i,
    {
        if !room_exists(rooms, &room.doors[i].associated_room_name) {
            assert(room@.doors[i as int].room == room.doors@[i as int].associated_room_name@);
            return false;
        }
        i += 1;
    }
    true
}

/// Whether the world map is valid: room names unique, every door leading to a
/// room of the map.
pub fn world_is_valid(rooms: &Vec<Room>) -> (r: bool)
    ensures
        r == valid_world(rooms_view(rooms@)),
{
    let ghost rv = rooms_view(rooms@);
    let mut i: usize = 0;
    while i < rooms.len()
        invariant
            0 <= i <= rooms@.len(),
            rv == rooms_view(rooms@),
            forall|a: int, b: int| 0 <= a < i && a < b < rv.len() ==> rv[a].name != rv[b].name,
            forall|a: int| 0 <= a < i ==> leads_inside(rv, #[trigger] rv[a]),
        decreases rooms@.len() - i,
    {
        if !doors_inside(rooms, &rooms[i]) {
            assert(rv[i as int] == rooms@[i as int]@);
            assert(!leads_inside(rv, rv[i as int]));
            return false;
        }
        let mut j: usize = i + 1;
        while j < rooms.len()
            invariant
                i < rooms@.len(),
                i + 1 <= j <= rooms@.len(),
                rv == rooms_view(rooms@),
                forall|b: int| i < b < j ==> rv[i as int].name != rv[b].name,
            decreases rooms@.len() - j,
        {
            if rooms[i].name == rooms[j].name {
                assert(rv[i as int].name == rv[j as int].name);
                return false;
            }
            j += 1;
        }
        i += 1;
    }
    true
}

impl Player {
    /// Whether the player's state is well formed (see `well_formed`).
    pub fn is_well_formed(&self) -> (r: bool)
        ensures
            r == well_formed(*self),
    {
        world_is_valid(&self.map) && room_exists(&self.map, &self.current_room.name) && doors_inside(
            &self.map,
            &self.current_room,
        )
    }

    /// Whether the door is locked to this player: locked, with no key held
    /// that matches.
    pub fn is_locked_out(&self, door: &Door) -> (r: bool)
        ensures
            r == (door.locked && !holds_key(self.keys_held@, door.key.name@)),
    {
        door.locked && !key_held(&self.keys_held, &door.key)
    }

    /// Whether passing through the door would call for a fight first.
    pub fn is_guarded(&self, door: &Door) -> (r: bool)
        ensures
            r == must_fight(*self, door@),
    {
        match &door.enemy {
            Some(e) => !fought(&self.battles, &e.name),
            None => false,
        }
    }

    /// The gain of a won fight: health, attack and defense each rise by the
    /// beaten enemy's stat and by the class's bonus for it.
    pub fn claim_victory(&mut self, enemy: &Combatant)
        ensures
            final(self).health == clamp(
                old(self).health + enemy.health + old(self).class.won_battle_health_bonus,
            ),
            final(self).attack == clamp(
                old(self).attack + enemy.attack + old(self).class.won_battle_attack_bonus,
            ),
            final(self).defense == clamp(
                old(self).defense + enemy.defense + old(self).class.won_battle_defense_bonus,
            ),
            *final(self) == (Player {
                health: final(self).health,
                attack: final(self).attack,
                defense: final(self).defense,
                ..*old(self)
            }),
    {
        self.health = add_stat3(self.health, enemy.health, self.class.won_battle_health_bonus);
        self.attack = add_stat3(self.attack, enemy.attack, self.class.won_battle_attack_bonus);
        self.defense = add_stat3(self.defense, enemy.defense, self.class.won_battle_defense_bonus);
    }

    /// Tries to pass through the door of the current room named `door_name`.
    /// On success the player stands in the door's target room, which gains a
    /// door back to the room left and doors to every room that leads to it;
    /// the world map's entry for that room is updated alike. In every other
    /// case nothing changes.
    pub fn move_through_door(&mut self, door_name: String) -> (r: Passage)
        requires
            well_formed(*old(self)),
        ensures
            well_formed(*final(self)),
            r.verdict() == verdict(*old(self), door_name@),
            r.verdict() != Verdict::Moved ==> *final(self) == *old(self),
            r matches Passage::Unmet(req) ==> Some(req) == chosen_door(
                *old(self),
                door_name@,
            ).requirements,
            r matches Passage::Guarded(e) ==> Some(e@) == chosen_door(*old(self), door_name@).enemy,
            r.verdict() == Verdict::Moved ==> in_sync(*final(self)),
            r.verdict() == Verdict::Moved ==> {
                let rooms = rooms_view(old(self).map@);
                let k = room_index(rooms, chosen_door(*old(self), door_name@).room);
                let here = arrived(*old(self), door_name@);
                &&& final(self).current_room@ == here
                &&& rooms_view(final(self).map@) == rooms.update(k, here)
                &&& *final(self) == (Player {
                    map: final(self).map,
                    current_room: final(self).current_room,
                    ..*old(self)
                })
            },
    {
        let i = find_door(&self.current_room.doors, &door_name);
        if i == self.current_room.doors.len() {
            return Passage::NoSuchDoor;
        }
        let door = &self.current_room.doors[i];
        if door.locked && !key_held(&self.keys_held, &door.key) {
            return Passage::Locked;
        }
        if let Some(req) = door.requirements {
            if self.health < req.health || self.attack < req.attack || self.defense < req.defense {
                return Passage::Unmet(req);
            }
        }
        if let Some(e) = &door.enemy {
            if !fought(&self.battles, &e.name) {
                return Passage::Guarded(e.clone());
            }
        }
        let target = door.associated_room_name.clone();
        let k = find_room(&self.map, &target);
        let ghost rooms = rooms_view(self.map@);
        proof {
            let doors = self.current_room@.doors;
            assert(doors[i as int] == door@);
            assert(has_room(rooms, doors[i as int].room));
            let j = choose|j: int| 0 <= j < rooms.len() && rooms[j].name == target@;
            lemma_room_found(rooms, target@, j);
        }
        let mut room = self.map[k].clone();
        if !room.leads_to(&self.current_room.name) {
            let d = make_back_door(&self.current_room.name);
            room.add_door(d);
        }
        discover_doors(&self.map, &mut room);
        self.map[k] = room.clone();
        self.current_room = room;
        assert(rooms_view(self.map@) =~= rooms.update(k as int, self.current_room@));
        proof {
            let target = rooms[k as int];
            lemma_discover_keeps_doors(rooms, with_back_link(target, old(self).current_room@.name));
            assert(is_first_room(rooms, target.name, room_index(rooms, target.name)));
            lemma_index_after_update(rooms, k as int, self.current_room@);
            let from = old(self).current_room@.name;
            let linked = with_back_link(target, from);
            assert(leads_inside(rooms, target));
            assert(leads_inside(rooms, linked));
            assert forall|q: int| 0 <= q < rooms.len() implies has_room(rooms, #[trigger] rooms[q].name) by {}
            lemma_discover_leads_inside(rooms, rooms, linked);
            lemma_update_keeps_valid(rooms, k as int, self.current_room@);
            assert(rooms_view(self.map@)[k as int].name == self.current_room@.name);
        }
        Passage::Moved
    }
}

} // verus!
