use vstd::prelude::*;

use crate::navigation::{find_room, has_room, in_sync, lemma_room_found, room_index, valid_world, well_formed};
use crate::structs::{clone_items, clone_keys, rooms_view, BattleResult, Class, Item, Key, Player, Room};
use crate::text::{lower_of, lowercase, trim_of, trimmed};

verus! {

/// Index of the first name equal to `wanted`, or 0 (the first class) if none is.
pub open spec fn class_choice(names: Seq<Seq<char>>, wanted: Seq<char>) -> int {
    if exists|i: int| 0 <= i < names.len() && names[i] == wanted {
        choose|i: int|
            0 <= i < names.len() && names[i] == wanted && forall|j: int|
                0 <= j < i ==> names[j] != wanted
    } else {
        0
    }
}

/// Index of the first of `names` equal to `wanted`, or 0 if none is.
pub fn class_index(names: &Vec<String>, wanted: &str) -> (r: usize)
    ensures
        r == class_choice(names@.map_values(|s: String| s@), wanted@),
{
    let ghost nv = names@.map_values(|s: String| s@);
    let w = String::from_str(wanted);
    let mut i: usize = 0;
    while i < names.len()
        invariant
            0 <= i <= names@.len(),
            w@ == wanted@,
            nv == names@.map_values(|s: String| s@),
            forall|j: int| 0 <= j < i ==> nv[j] != wanted@,
        decreases names@.len() - i,
    {
        if names[i] == w {
            assert(nv[i as int] == wanted@);
            assert forall|k: int|
                0 <= k < nv.len() && nv[k] == wanted@ && (forall|j: int|
                    0 <= j < k ==> nv[j] != wanted@) implies k == i by {
                if k > i {
                    assert(nv[i as int] == wanted@);
                }
            }
            return i;
        }
        i += 1;
    }
    0
}

/// Picks the class that the player typed: the first whose name matches the
/// reply, trimmed, with case ignored; the first class if none matches.
pub fn choose_class(classes: &Vec<Class>, reply: &str) -> (r: usize)
    ensures
        r == class_choice(
            classes@.map_values(|c: Class| lower_of(c.name@)),
            lower_of(trim_of(reply@)),
        ),
{
    let wanted = lowercase(trimmed(reply).as_str());
    let mut names: Vec<String> = Vec::new();
    let mut i: usize = 0;
    while i < classes.len()
        invariant
            0 <= i <= classes@.len(),
            names@.len() == i,
            forall|j: int| 0 <= j < i ==> names@[j]@ == lower_of(classes@[j].name@),
        decreases classes@.len() - i,
    {
        names.push(lowercase(classes[i].name.as_str()));
        i += 1;
    }
    assert(names@.map_values(|s: String| s@) =~= classes@.map_values(|c: Class| lower_of(c.name@)));
    class_index(&names, wanted.as_str())
}

/// Whether the game is to be saved: always, unless saving was switched off,
/// in which case only on the override reply "y".
pub fn save_permitted(saving_off: bool, reply: &str) -> (r: bool)
    ensures
        r == (!saving_off || reply@ == "y"@),
{
    !saving_off || String::from_str(reply) == String::from_str("y")
}

impl Player {
    pub fn new(
        name: String,
        map: Vec<Room>,
        items_held: Vec<Item>,
        keys_held: Vec<Key>,
        health: i32,
        attack: i32,
        battles: Vec<BattleResult>,
        current_room: Room,
        game_name: String,
        defense: i32,
        class: Class,
    ) -> (r: Player)
        ensures
            r == (Player {
                class,
                name,
                map,
                items_held,
                keys_held,
                health,
                attack,
                defense,
                battles,
                current_room,
                game_name,
            }),
    {
        Player {
            class,
            name,
            map,
            items_held,
            keys_held,
            health,
            attack,
            defense,
            battles,
            current_room,
            game_name,
        }
    }

    /// A new player of the given class, standing in the room of the world map
    /// named `starting_room`: the class's stats and starting inventory, no
    /// battles yet. The map must be valid and hold the starting room.
    pub fn init(name: String, map: Vec<Room>, game_name: String, starting_room: String, class: Class) -> (r:
        Player)
        requires
            valid_world(rooms_view(map@)),
            has_room(rooms_view(map@), starting_room@),
        ensures
            well_formed(r),
            in_sync(r),
            r.name == name,
            r.map == map,
            r.items_held@ == class.starting_items@,
            r.keys_held@ == class.starting_keys@,
            r.health == class.health,
            r.attack == class.attack,
            r.defense == class.defense,
            r.battles@.len() == 0,
            r.current_room@ == rooms_view(map@)[room_index(rooms_view(map@), starting_room@)],
            r.game_name == game_name,
            r.class == class,
    {
        let k = find_room(&map, &starting_room);
        proof {
            let rv = rooms_view(map@);
            let j = choose|j: int| 0 <= j < rv.len() && rv[j].name == starting_room@;
            lemma_room_found(rv, starting_room@, j);
            assert(rv[k as int].name == starting_room@);
        }
        let current_room = map[k].clone();
        let items_held = clone_items(&class.starting_items);
        let keys_held = clone_keys(&class.starting_keys);
        let p = Player {
            name,
            map,
            items_held,
            keys_held,
            health: class.health,
            attack: class.attack,
            defense: class.defense,
            battles: Vec::new(),
            current_room,
            game_name,
            class,
        };
        proof {
            let rv = rooms_view(p.map@);
            assert(rv[k as int] == p.current_room@);
            assert(has_room(rv, p.current_room@.name));
        }
        p
    }
}

} // verus!
