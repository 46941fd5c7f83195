use gext::inventory::Pickup;
use gext::navigation::{room_exists, world_is_valid};
use gext::{Class, Combatant, Door, Item, Key, Passage, Player, Room, RoomRequirements};

fn s(t: &str) -> String {
    t.to_string()
}

fn plain_door(name: &str, target: &str) -> Door {
    Door::new(s(name), s("a door"), false, Key::new(s("")), None, s(target), None)
}

fn world() -> Vec<Room> {
    vec![
        Room::new(
            s("Hall"),
            s("the entrance hall"),
            vec![
                plain_door("Armory", "Armory"),
                Door::new(s("Kitchen"), s("a kitchen"), true, Key::new(s("kitchen")), None, s("Kitchen"), None),
                Door::new(
                    s("Vault"),
                    s("a vault"),
                    false,
                    Key::new(s("")),
                    None,
                    s("Vault"),
                    Some(RoomRequirements { health: 150, attack: 5, defense: 0 }),
                ),
                Door::new(
                    s("Lair"),
                    s("a lair"),
                    false,
                    Key::new(s("")),
                    Some(Combatant::new(s("Goblin"), 50, 5, 0, vec![])),
                    s("Lair"),
                    None,
                ),
            ],
            vec![
                Item::new(s("apple"), s("a red apple"), 10, 0, 0),
                Item::new(s("apple"), s("a green apple"), 5, 0, 0),
                Item::new(s("sword"), s("a sharp sword"), 0, 10, 0),
            ],
            vec![Key::new(s("kitchen"))],
        ),
        Room::new(s("Armory"), s("weapons"), vec![], vec![], vec![]),
        Room::new(s("Kitchen"), s("a stove"), vec![plain_door("Armory", "Armory")], vec![], vec![]),
        Room::new(s("Vault"), s("gold"), vec![], vec![], vec![]),
        Room::new(s("Lair"), s("bones"), vec![], vec![], vec![]),
    ]
}

fn hero() -> Player {
    Player::init(s("Ada"), world(), s("slot"), s("Hall"), Class::default())
}

fn door_names(r: &Room) -> Vec<String> {
    r.doors.iter().map(|d| d.name.clone()).collect()
}

#[test]
fn init_takes_the_class_stats_and_room() {
    let p = hero();
    assert_eq!(p.current_room.name, "Hall");
    assert_eq!((p.health, p.attack, p.defense), (100, 10, 10));
    assert!(p.items_held.is_empty() && p.keys_held.is_empty() && p.battles.is_empty());
    assert_eq!(p.game_name, "slot");
}

#[test]
fn world_validity_is_checked() {
    let w = world();
    assert!(world_is_valid(&w));
    assert!(room_exists(&w, &s("Vault")));
    assert!(!room_exists(&w, &s("Cellar")));
    let mut dangling = world();
    dangling[1].doors.push(plain_door("Nowhere", "Attic"));
    assert!(!world_is_valid(&dangling));
    let mut twice = world();
    twice.push(Room::new(s("Vault"), s("another vault"), vec![], vec![], vec![]));
    assert!(!world_is_valid(&twice));
    let mut p = hero();
    assert!(p.is_well_formed());
    p.current_room.doors.push(plain_door("Nowhere", "Attic"));
    assert!(!p.is_well_formed());
}

#[test]
fn unknown_door_changes_nothing() {
    let mut p = hero();
    assert!(matches!(p.move_through_door(s("armory")), Passage::NoSuchDoor));
    assert_eq!(p.current_room.name, "Hall");
}

#[test]
fn locked_door_without_key_keeps_the_player_in_place() {
    let mut p = hero();
    assert!(matches!(p.move_through_door(s("Kitchen")), Passage::Locked));
    assert_eq!(p.current_room.name, "Hall");
    assert_eq!(p.current_room.doors.len(), 4);
}

#[test]
fn locked_door_opens_with_the_matching_key() {
    let mut p = hero();
    p.keys_held.push(Key::new(s("kitchen")));
    assert!(matches!(p.move_through_door(s("Kitchen")), Passage::Moved));
    assert_eq!(p.current_room.name, "Kitchen");
}

#[test]
fn unmet_requirements_refuse_passage() {
    let mut p = hero();
    match p.move_through_door(s("Vault")) {
        Passage::Unmet(req) => assert_eq!(req, RoomRequirements { health: 150, attack: 5, defense: 0 }),
        other => panic!("unexpected {:?}", other),
    }
    assert_eq!(p.current_room.name, "Hall");
    p.health = 150;
    assert!(matches!(p.move_through_door(s("Vault")), Passage::Moved));
}

#[test]
fn guarded_door_asks_for_a_fight_and_changes_nothing() {
    let mut p = hero();
    match p.move_through_door(s("Lair")) {
        Passage::Guarded(e) => {
            assert_eq!(e.name, "Goblin");
            assert_eq!((e.health, e.attack, e.defense), (50, 5, 0));
        }
        other => panic!("unexpected {:?}", other),
    }
    assert_eq!(p.current_room.name, "Hall");
}

#[test]
fn a_fought_enemy_is_not_fought_again() {
    let mut p = hero();
    p.battles.push(gext::BattleResult::new(true, 80, 0, s("Goblin")));
    assert!(matches!(p.move_through_door(s("Lair")), Passage::Moved));
    assert_eq!(p.current_room.name, "Lair");
    assert!(matches!(p.move_through_door(s("Hall")), Passage::Moved));
    assert!(matches!(p.move_through_door(s("Lair")), Passage::Moved));
    assert_eq!(p.battles.len(), 1);
}

#[test]
fn entering_a_room_adds_a_plain_door_back() {
    let mut p = hero();
    assert!(matches!(p.move_through_door(s("Armory")), Passage::Moved));
    let back = p.current_room.doors.iter().find(|d| d.name == "Hall").unwrap();
    assert_eq!(back.associated_room_name, "Hall");
    assert_eq!(back.description, "a door to the Hall");
    assert!(!back.locked);
    assert_eq!(back.key, Key::new(s("")));
    assert!(back.enemy.is_none() && back.requirements.is_none());
    // the world map's entry follows the room the player stands in
    assert_eq!(door_names(&p.map[1]), door_names(&p.current_room));
}

#[test]
fn entering_a_room_discovers_rooms_that_lead_to_it() {
    let mut p = hero();
    assert!(matches!(p.move_through_door(s("Armory")), Passage::Moved));
    // the Hall leads here (door back), and so does the Kitchen
    assert_eq!(door_names(&p.current_room), vec![s("Hall"), s("Kitchen")]);
    // going back and in again adds no second copy
    assert!(matches!(p.move_through_door(s("Hall")), Passage::Moved));
    assert!(matches!(p.move_through_door(s("Armory")), Passage::Moved));
    assert_eq!(door_names(&p.current_room), vec![s("Hall"), s("Kitchen")]);
}

#[test]
fn existing_door_back_is_kept_as_it_is() {
    let mut p = hero();
    p.keys_held.push(Key::new(s("kitchen")));
    assert!(matches!(p.move_through_door(s("Kitchen")), Passage::Moved));
    assert!(matches!(p.move_through_door(s("Armory")), Passage::Moved));
    assert!(matches!(p.move_through_door(s("Kitchen")), Passage::Moved));
    // the Kitchen already leads to the Armory: no door is added for it
    assert_eq!(door_names(&p.current_room), vec![s("Armory"), s("Hall")]);
}

#[test]
fn taking_an_item_after_a_correct_answer_grants_it() {
    let mut p = hero();
    assert_eq!(p.take_item(s("apple"), true), Pickup::Granted);
    let names: Vec<String> = p.items_held.iter().map(|i| i.description.clone()).collect();
    assert_eq!(names, vec![s("a red apple"), s("a green apple")]);
    assert_eq!(p.current_room.items.len(), 1);
    assert_eq!(p.map[0].items.len(), 1);
}

#[test]
fn taking_an_item_after_a_failed_challenge_loses_it() {
    let mut p = hero();
    assert_eq!(p.take_item(s("sword"), false), Pickup::Despawned);
    assert!(p.items_held.is_empty());
    assert!(p.current_room.items.iter().all(|i| i.name != "sword"));
    assert!(p.map[0].items.iter().all(|i| i.name != "sword"));
    assert_eq!(p.current_room.items.len(), 2);
}

#[test]
fn taking_a_missing_item_changes_nothing() {
    let mut p = hero();
    assert_eq!(p.take_item(s("pear"), true), Pickup::Missing);
    assert!(p.items_held.is_empty());
    assert_eq!(p.current_room.items.len(), 3);
}

#[test]
fn taking_a_key_follows_the_challenge() {
    let mut p = hero();
    assert_eq!(p.take_key(s("kitchen"), true), Pickup::Granted);
    assert_eq!(p.keys_held, vec![Key::new(s("kitchen"))]);
    assert!(p.current_room.keys.is_empty() && p.map[0].keys.is_empty());
    let mut q = hero();
    assert_eq!(q.take_key(s("kitchen"), false), Pickup::Despawned);
    assert!(q.keys_held.is_empty() && q.current_room.keys.is_empty());
    assert_eq!(q.take_key(s("kitchen"), true), Pickup::Missing);
}

#[test]
fn using_an_item_adds_its_modifiers_and_consumes_one() {
    let mut p = hero();
    let potion = Item::new(s("potion"), s("red"), 20, 3, -2);
    p.items_held = vec![potion.clone(), potion.clone()];
    p.use_item(potion.clone());
    assert_eq!((p.health, p.attack, p.defense), (120, 13, 8));
    assert_eq!(p.items_held, vec![potion]);
}

#[test]
fn using_an_item_not_held_still_applies_it() {
    let mut p = hero();
    p.use_item(Item::new(s("tonic"), s("blue"), -30, 0, 0));
    assert_eq!(p.health, 70);
    assert!(p.items_held.is_empty());
}

#[test]
fn stats_saturate() {
    let mut p = hero();
    p.use_item(Item::new(s("huge"), s("x"), i32::MAX, i32::MIN, 0));
    assert_eq!(p.health, i32::MAX);
    assert_eq!(p.attack, i32::MIN + 10);
    assert_eq!(gext::stats::add_stat(i32::MIN, -1), i32::MIN);
    assert_eq!(gext::stats::take_damage(5, i32::MAX, i32::MIN), i32::MIN);
    assert_eq!(gext::stats::take_damage(50, 3, 10), 50);
}

#[test]
fn door_states_follow_keys_and_history() {
    let mut p = hero();
    let kitchen = p.current_room.doors[1].clone();
    let lair = p.current_room.doors[3].clone();
    assert!(p.is_locked_out(&kitchen));
    assert!(!p.is_guarded(&kitchen));
    assert!(p.is_guarded(&lair));
    p.keys_held.push(Key::new(s("kitchen")));
    p.battles.push(gext::BattleResult::new(false, 0, 20, s("Goblin")));
    assert!(!p.is_locked_out(&kitchen));
    assert!(!p.is_guarded(&lair));
}
