use vstd::prelude::*;

verus! {

/// Minimum stats a player must have to pass through a door.
#[derive(Debug, Clone, Copy, PartialEq, Eq, Structural)]
pub struct RoomRequirements {
    pub health: i32,
    pub attack: i32,
    pub defense: i32,
}

/// A key, identified by its name alone. A key with an empty name stands for
/// "no key needed".
#[derive(Debug)]
pub struct Key {
    pub name: String,
}

/// A consumable item: using it adds its modifiers to the holder's stats.
#[derive(Debug)]
pub struct Item {
    pub name: String,
    pub description: String,
    pub health: i32,
    pub attack: i32,
    pub defense: i32,
}

/// The stats of an enemy guarding a door, together with the items it may use
/// during a fight.
#[derive(Debug)]
pub struct Combatant {
    pub name: String,
    pub health: i32,
    pub attack: i32,
    pub defense: i32,
    pub items_held: Vec<Item>,
}

/// A directed edge of the room graph.
#[derive(Debug)]
pub struct Door {
    pub name: String,
    pub description: String,
    pub locked: bool,
    pub key: Key,
    pub enemy: Option<Combatant>,
    pub associated_room_name: String,
    pub requirements: Option<RoomRequirements>,
}

/// A room: its outgoing doors and the items and keys lying in it.
#[derive(Debug)]
pub struct Room {
    pub name: String,
    pub description: String,
    pub doors: Vec<Door>,
    pub items: Vec<Item>,
    pub keys: Vec<Key>,
}

/// The record of one fight.
#[derive(Debug)]
pub struct BattleResult {
    pub winner: bool,
    pub player_health: i32,
    pub enemy_health: i32,
    pub enemy_name: String,
}

/// A character archetype: base stats, starting inventory and the bonuses
/// gained on each won battle.
#[derive(Debug, Clone)]
pub struct Class {
    pub name: String,
    pub description: String,
    pub health: i32,
    pub attack: i32,
    pub defense: i32,
    pub starting_items: Vec<Item>,
    pub starting_keys: Vec<Key>,
    pub won_battle_attack_bonus: i32,
    pub won_battle_defense_bonus: i32,
    pub won_battle_health_bonus: i32,
}

/// The whole game state of one player. `map` holds every room of the world,
/// at most one per name; `current_room` is a copy of the entry of `map` that
/// the player stands in. `navigation::well_formed` states the invariant that
/// the operations require and keep, and `navigation::in_sync` the agreement
/// of `current_room` with its entry.
#[derive(Debug, Clone)]
pub struct Player {
    pub class: Class,
    pub name: String,
    pub map: Vec<Room>,
    pub items_held: Vec<Item>,
    pub keys_held: Vec<Key>,
    pub health: i32,
    pub attack: i32,
    pub defense: i32,
    pub battles: Vec<BattleResult>,
    pub current_room: Room,
    pub game_name: String,
}

pub struct CombatantView {
    pub name: Seq<char>,
    pub health: i32,
    pub attack: i32,
    pub defense: i32,
    pub items: Seq<Item>,
}

pub struct DoorView {
    pub name: Seq<char>,
    pub description: Seq<char>,
    pub locked: bool,
    pub key: Seq<char>,
    pub enemy: Option<CombatantView>,
    pub room: Seq<char>,
    pub requirements: Option<RoomRequirements>,
}

pub struct RoomView {
    pub name: Seq<char>,
    pub description: Seq<char>,
    pub doors: Seq<DoorView>,
    pub items: Seq<Item>,
    pub keys: Seq<Key>,
}

impl View for Combatant {
    type V = CombatantView;

    open spec fn view(&self) -> CombatantView {
        CombatantView {
            name: self.name@,
            health: self.health,
            attack: self.attack,
            defense: self.defense,
            items: self.items_held@,
        }
    }
}

impl View for Door {
    type V = DoorView;

    open spec fn view(&self) -> DoorView {
        DoorView {
            name: self.name@,
            description: self.description@,
            locked: self.locked,
            key: self.key.name@,
            enemy: match self.enemy {
                Some(e) => Some(e@),
                None => None,
            },
            room: self.associated_room_name@,
            requirements: self.requirements,
        }
    }
}

pub open spec fn doors_view(doors: Seq<Door>) -> Seq<DoorView> {
    doors.map_values(|d: Door| d@)
}

pub open spec fn rooms_view(rooms: Seq<Room>) -> Seq<RoomView> {
    rooms.map_values(|r: Room| r@)
}

impl View for Room {
    type V = RoomView;

    open spec fn view(&self) -> RoomView {
        RoomView {
            name: self.name@,
            description: self.description@,
            doors: doors_view(self.doors@),
            items: self.items@,
            keys: self.keys@,
        }
    }
}

impl Key {
    pub fn new(name: String) -> (r: Key)
        ensures
            r.name == name,
    {
        Key { name }
    }
}

impl Clone for Key {
    fn clone(&self) -> (r: Self)
        ensures
            r == *self,
    {
        Key { name: self.name.clone() }
    }
}

impl PartialEq for Key {
    fn eq(&self, o: &Key) -> (r: bool) {
        self.name == o.name
    }
}

impl vstd::std_specs::cmp::PartialEqSpecImpl for Key {
    open spec fn obeys_eq_spec() -> bool {
        true
    }

    open spec fn eq_spec(&self, o: &Key) -> bool {
        self.name@ == o.name@
    }
}

impl Item {
    pub fn new(name: String, description: String, health: i32, attack: i32, defense: i32) -> (r: Item)
        ensures
            r.name == name,
            r.description == description,
            r.health == health,
            r.attack == attack,
            r.defense == defense,
    {
        Item { name, description, health, attack, defense }
    }
}

impl Clone for Item {
    fn clone(&self) -> (r: Self)
        ensures
            r == *self,
    {
        Item {
            name: self.name.clone(),
            description: self.description.clone(),
            health: self.health,
            attack: self.attack,
            defense: self.defense,
        }
    }
}

/// Two items are equal when all their fields are.
pub open spec fn same_item(a: Item, b: Item) -> bool {
    &&& a.name@ == b.name@
    &&& a.description@ == b.description@
    &&& a.health == b.health
    &&& a.attack == b.attack
    &&& a.defense == b.defense
}

impl PartialEq for Item {
    fn eq(&self, o: &Item) -> (r: bool) {
        self.name == o.name && self.description == o.description && self.health == o.health
            && self.attack == o.attack && self.defense == o.defense
    }
}

impl vstd::std_specs::cmp::PartialEqSpecImpl for Item {
    open spec fn obeys_eq_spec() -> bool {
        true
    }

    open spec fn eq_spec(&self, o: &Item) -> bool {
        same_item(*self, *o)
    }
}

/// Clones a list of items; the copy holds the same items.
pub fn clone_items(v: &Vec<Item>) -> (r: Vec<Item>)
    ensures
        r@ == v@,
{
    let r = v.clone();
    assert(r@ =~= v@);
    r
}

/// Clones a list of keys; the copy holds the same keys.
pub fn clone_keys(v: &Vec<Key>) -> (r: Vec<Key>)
    ensures
        r@ == v@,
{
    let r = v.clone();
    assert(r@ =~= v@);
    r
}

impl Combatant {
    pub fn new(name: String, health: i32, attack: i32, defense: i32, items_held: Vec<Item>) -> (r: Combatant)
        ensures
            r.name == name,
            r.health == health,
            r.attack == attack,
            r.defense == defense,
            r.items_held == items_held,
    {
        Combatant { name, health, attack, defense, items_held }
    }
}

impl Clone for Combatant {
    fn clone(&self) -> (r: Self)
        ensures
            r@ == self@,
    {
        Combatant {
            name: self.name.clone(),
            health: self.health,
            attack: self.attack,
            defense: self.defense,
            items_held: clone_items(&self.items_held),
        }
    }
}

impl Door {
    pub fn new(
        name: String,
        description: String,
        locked: bool,
        key: Key,
        enemy: Option<Combatant>,
        associated_room_name: String,
        requirements: Option<RoomRequirements>,
    ) -> (r: Door)
        ensures
            r.name == name,
            r.description == description,
            r.locked == locked,
            r.key == key,
            r.enemy == enemy,
            r.associated_room_name == associated_room_name,
            r.requirements == requirements,
    {
        Door { name, description, locked, key, enemy, associated_room_name, requirements }
    }
}

impl Clone for Door {
    fn clone(&self) -> (r: Self)
        ensures
            r@ == self@,
    {
        let enemy = match &self.enemy {
            Some(e) => Some(e.clone()),
            None => None,
        };
        Door {
            name: self.name.clone(),
            description: self.description.clone(),
            locked: self.locked,
            key: self.key.clone(),
            enemy,
            associated_room_name: self.associated_room_name.clone(),
            requirements: self.requirements,
        }
    }
}

impl Room {
    pub fn new(name: String, description: String, doors: Vec<Door>, items: Vec<Item>, keys: Vec<Key>) -> (r: Room)
        ensures
            r.name == name,
            r.description == description,
            r.doors == doors,
            r.items == items,
            r.keys == keys,
    {
        Room { name, description, doors, items, keys }
    }
}

impl Clone for Room {
    fn clone(&self) -> (r: Self)
        ensures
            r@ == self@,
    {
        let doors = self.doors.clone();
        assert(doors_view(doors@) =~= doors_view(self.doors@));
        Room {
            name: self.name.clone(),
            description: self.description.clone(),
            doors,
            items: clone_items(&self.items),
            keys: clone_keys(&self.keys),
        }
    }
}

impl BattleResult {
    pub fn new(winner: bool, player_health: i32, enemy_health: i32, enemy_name: String) -> (r: BattleResult)
        ensures
            r.winner == winner,
            r.player_health == player_health,
            r.enemy_health == enemy_health,
            r.enemy_name == enemy_name,
    {
        BattleResult { winner, player_health, enemy_health, enemy_name }
    }
}

impl Clone for BattleResult {
    fn clone(&self) -> (r: Self)
        ensures
            r == *self,
    {
        BattleResult {
            winner: self.winner,
            player_health: self.player_health,
            enemy_health: self.enemy_health,
            enemy_name: self.enemy_name.clone(),
        }
    }
}

impl PartialEq for BattleResult {
    fn eq(&self, o: &BattleResult) -> (r: bool) {
        self.winner == o.winner && self.player_health == o.player_health && self.enemy_health
            == o.enemy_health && self.enemy_name == o.enemy_name
    }
}

impl vstd::std_specs::cmp::PartialEqSpecImpl for BattleResult {
    open spec fn obeys_eq_spec() -> bool {
        true
    }

    open spec fn eq_spec(&self, o: &BattleResult) -> bool {
        &&& self.winner == o.winner
        &&& self.player_health == o.player_health
        &&& self.enemy_health == o.enemy_health
        &&& self.enemy_name@ == o.enemy_name@
    }
}

impl Class {
    /// The class of a player who chose none.
    pub fn default() -> (r: Class)
        ensures
            r.name@ == "Default"@,
            r.description@ == "Looks like somebody didn't choose a class..."@,
            r.health == 100,
            r.attack == 10,
            r.defense == 10,
            r.starting_items@.len() == 0,
            r.starting_keys@.len() == 0,
            r.won_battle_attack_bonus == 5,
            r.won_battle_defense_bonus == 5,
            r.won_battle_health_bonus == 5,
    {
        Class {
            name: String::from_str("Default"),
            description: String::from_str("Looks like somebody didn't choose a class..."),
            health: 100,
            attack: 10,
            defense: 10,
            starting_items: Vec::new(),
            starting_keys: Vec::new(),
            won_battle_attack_bonus: 5,
            won_battle_defense_bonus: 5,
            won_battle_health_bonus: 5,
        }
    }

    pub fn new(
        name: String,
        description: String,
        health: i32,
        attack: i32,
        defense: i32,
        starting_items: Vec<Item>,
        starting_keys: Vec<Key>,
        won_battle_attack_bonus: i32,
        won_battle_defense_bonus: i32,
        won_battle_health_bonus: i32,
    ) -> (r: Class)
        ensures
            r.name == name,
            r.description == description,
            r.health == health,
            r.attack == attack,
            r.defense == defense,
            r.starting_items == starting_items,
            r.starting_keys == starting_keys,
            r.won_battle_attack_bonus == won_battle_attack_bonus,
            r.won_battle_defense_bonus == won_battle_defense_bonus,
            r.won_battle_health_bonus == won_battle_health_bonus,
    {
        Class {
            name,
            description,
            health,
            attack,
            defense,
            starting_items,
            starting_keys,
            won_battle_attack_bonus,
            won_battle_defense_bonus,
            won_battle_health_bonus,
        }
    }
}

} // verus!
