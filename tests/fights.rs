use gext::challenge::Riddle;
use gext::combat::Battle;
use gext::{choose_class, pick_riddle, save_permitted, BattleResult, Class, Combatant, FightStep, Item, Key, Player, Room};

fn t(x: &str) -> String {
    x.to_string()
}

fn fighter(health: i32, attack: i32, defense: i32) -> Player {
    let room = Room::new(t("Arena"), t("sand"), vec![], vec![], vec![]);
    let class = Class::new(t("Knight"), t("armoured"), health, attack, defense, vec![], vec![], 2, 3, 4);
    Player::new(t("Bo"), vec![room.clone()], vec![], vec![], health, attack, vec![], room, t("g"), defense, class)
}

fn goblin() -> Combatant {
    Combatant::new(t("Goblin"), 50, 5, 0, vec![])
}

#[test]
fn strong_player_beats_weaker_enemy() {
    for _ in 0..50 {
        let mut p = fighter(100, 10, 0);
        let mut b = p.begin_fight(goblin(), false);
        let mut rounds = 0;
        let step = loop {
            rounds += 1;
            match p.fight(&mut b, None) {
                FightStep::Ongoing => assert!(rounds < 20),
                other => break other,
            }
        };
        match step {
            FightStep::Won(r) => {
                assert!(r.winner);
                assert_eq!(r.enemy_health, 0);
                assert_eq!(r.enemy_name, "Goblin");
                assert!(r.player_health > 0);
                assert_eq!(p.battles, vec![r]);
            }
            other => panic!("unexpected {:?}", other),
        }
        // health and attack come back to their values from before the fight
        assert_eq!((p.health, p.attack, p.defense), (100, 10, 0));
        // the gains of the victory are added by the navigation step
        p.claim_victory(&b.enemy);
        assert_eq!(p.health, 100 + 50 + 4);
        assert_eq!(p.attack, 10 + 5 + 2);
        assert_eq!(p.defense, 0 + 0 + 3);
    }
}

#[test]
fn first_attacks_stay_within_the_spread() {
    for _ in 0..200 {
        let p = fighter(100, 10, 0);
        let b = p.begin_fight(goblin(), false);
        assert!((8..12).contains(&b.player_attack));
        assert!((4..6).contains(&b.enemy_attack));
        assert_eq!(b.enemy_health, 50);
        assert_eq!((b.initial_health, b.initial_attack), (100, 10));
    }
    let weak = fighter(100, 3, 0);
    let b = weak.begin_fight(Combatant::new(t("Rat"), 5, 2, 0, vec![]), false);
    assert_eq!((b.player_attack, b.enemy_attack), (3, 2));
}

fn fixed_battle(p: &Player, e: Combatant) -> Battle {
    p.begin_fight_with(e, false, 0, 0)
}

#[test]
fn a_round_deals_damage_through_defense() {
    let mut p = fighter(100, 10, 2);
    let mut b = fixed_battle(&p, Combatant::new(t("Orc"), 50, 7, 3, vec![]));
    assert!(matches!(p.fight_round(&mut b, None, None), FightStep::Ongoing));
    assert_eq!(p.health, 95);
    assert_eq!(b.enemy_health, 43);
    b.reroll_with(&p, 1, -1);
    assert_eq!((b.player_attack, b.enemy_attack), (11, 6));
}

#[test]
fn items_used_in_a_round_apply_at_once() {
    let mut p = fighter(100, 10, 0);
    p.items_held = vec![Item::new(t("shield"), t("oak"), 5, 4, 7)];
    let axe = Item::new(t("axe"), t("rusty"), 1, 2, 3);
    let mut b = fixed_battle(&p, Combatant::new(t("Orc"), 50, 7, 0, vec![axe.clone()]));
    assert!(matches!(p.fight_round(&mut b, Some(t("shield")), Some(0)), FightStep::Ongoing));
    // the player's defense 7 stops the enemy's 7; the enemy's new defense 3 takes from the player's 10
    assert_eq!(p.health, 105);
    assert_eq!((p.attack, p.defense), (14, 7));
    assert!(p.items_held.is_empty());
    assert_eq!(b.enemy_health, 51 - 7);
    assert_eq!((b.enemy.health, b.enemy.attack, b.enemy.defense), (51, 9, 3));
    assert!(b.enemy.items_held.is_empty());
    assert_eq!(b.opponent.items_held, vec![axe]);
}

#[test]
fn unknown_item_choice_does_nothing() {
    let mut p = fighter(100, 10, 0);
    let mut b = fixed_battle(&p, goblin());
    assert!(matches!(p.fight_round(&mut b, Some(t("wand")), None), FightStep::Ongoing));
    assert_eq!(p.health, 95);
    assert_eq!(b.enemy_health, 40);
}

#[test]
fn losing_records_the_loss_and_restores_stats() {
    let mut p = fighter(10, 1, 0);
    p.items_held = vec![Item::new(t("ring"), t("gold"), 0, 5, 1)];
    let mut b = fixed_battle(&p, Combatant::new(t("Troll"), 80, 30, 0, vec![]));
    match p.fight_round(&mut b, Some(t("ring")), None) {
        FightStep::Lost(r) => {
            assert_eq!(r, BattleResult::new(false, 0, 80, t("Troll")));
            assert_eq!(p.battles, vec![r]);
        }
        other => panic!("unexpected {:?}", other),
    }
    assert_eq!((p.health, p.attack, p.defense), (10, 1, 1));
    assert!(p.items_held.is_empty());
}

#[test]
fn second_chance_class_retries_the_fight_once() {
    let room = Room::new(t("Arena"), t("sand"), vec![], vec![], vec![]);
    let dark = Class::new(t("Dark Mage"), t("mage"), 10, 1, 0, vec![], vec![], 0, 0, 0);
    let mut p = Player::init(t("Cy"), vec![room], t("g"), t("Arena"), dark);
    let troll = Combatant::new(t("Troll"), 80, 30, 0, vec![]);
    let mut b = p.begin_fight_with(troll, false, 0, 0);
    b.enemy_health = 3;
    assert!(matches!(p.fight_round(&mut b, None, None), FightStep::SecondChance(_)));
    assert_eq!(p.battles.len(), 1);
    let mut again = p.second_chance(&b, Class::default());
    assert_eq!(p.class.name, "Default");
    assert!(again.retried);
    assert_eq!(again.enemy_health, 80);
    let mut q = p.clone();
    q.class = Class::new(t("Dark Mage"), t("mage"), 10, 1, 0, vec![], vec![], 0, 0, 0);
    let mut b2 = q.begin_fight_with(again.opponent.clone(), true, 0, 0);
    assert!(matches!(q.fight_round(&mut b2, None, None), FightStep::Lost(_)));
    assert!(matches!(p.fight_round(&mut again, None, None), FightStep::Lost(_)));
}

#[test]
fn replaying_the_same_rolls_gives_the_same_result() {
    let rolls = [(1, 0), (-2, 0), (0, -1), (1, 0), (-1, -1), (0, 0), (1, 0), (-2, -1), (0, 0), (1, 0)];
    let play = || {
        let mut p = fighter(100, 10, 0);
        let mut b = p.begin_fight_with(goblin(), false, rolls[0].0, rolls[0].1);
        let mut n = 1;
        loop {
            match p.fight_round(&mut b, None, None) {
                FightStep::Ongoing => {
                    b.reroll_with(&p, rolls[n].0, rolls[n].1);
                    n += 1;
                }
                FightStep::Won(r) => return (n, r),
                other => panic!("unexpected {:?}", other),
            }
        }
    };
    let (n1, r1) = play();
    let (n2, r2) = play();
    assert_eq!(n1, n2);
    assert_eq!(r1, r2);
    // attacks 11, 8, 10, 11, 9, 10 bring 50 down; the goblin hits 5, 5, 4, 5, 4, 5
    assert_eq!(n1, 6);
    assert_eq!(r1, BattleResult::new(true, 72, 0, t("Goblin")));
}

#[test]
fn challenge_accepts_trimmed_exact_answers() {
    let r = Riddle::new(t("What has keys but can't open locks?"), vec![t("piano")]);
    assert!(Player::ask_question(&r, "  piano\n"));
    assert!(!Player::ask_question(&r, "Piano"));
    assert!(!Player::ask_question(&r, "organ"));
    let two = Riddle::new(t("How many ducks?"), vec![t("3"), t("three")]);
    assert!(Player::ask_question(&two, "three"));
    assert!(two.accepts("3"));
    assert!(!two.accepts(" 3"));
}

#[test]
fn riddles_are_drawn_from_the_table() {
    let table = vec![Riddle::new(t("a"), vec![t("x")]), Riddle::new(t("b"), vec![t("y")])];
    for _ in 0..50 {
        assert!(pick_riddle(&table) < 2);
    }
}

#[test]
fn class_choice_ignores_case_and_space() {
    let mk = |n: &str| Class::new(t(n), t(""), 1, 1, 1, vec![], vec![Key::new(t("k"))], 0, 0, 0);
    let classes = vec![mk("Warrior"), mk("Mage"), mk("Dark Mage")];
    assert_eq!(choose_class(&classes, "  MAGE \n"), 1);
    assert_eq!(choose_class(&classes, "dark mage"), 2);
    assert_eq!(choose_class(&classes, "bard"), 0);
    assert_eq!(gext::player::class_index(&vec![t("a"), t("b")], "b"), 1);
}

#[test]
fn saving_can_be_switched_off_and_overridden() {
    assert!(save_permitted(false, "n"));
    assert!(!save_permitted(true, "n"));
    assert!(!save_permitted(true, "yes"));
    assert!(save_permitted(true, "y"));
}

#[test]
fn default_class_values() {
    let c = Class::default();
    assert_eq!(c.name, "Default");
    assert_eq!((c.health, c.attack, c.defense), (100, 10, 10));
    assert_eq!(
        (c.won_battle_attack_bonus, c.won_battle_defense_bonus, c.won_battle_health_bonus),
        (5, 5, 5)
    );
}

#[test]
fn victory_gains_saturate() {
    let mut p = fighter(i32::MAX - 1, 10, 0);
    p.claim_victory(&Combatant::new(t("Giant"), 100, -20, 1, vec![]));
    assert_eq!((p.health, p.attack, p.defense), (i32::MAX, 10 - 20 + 2, 0 + 1 + 3));
}

#[test]
fn an_enemy_felled_by_its_own_item_does_not_strike() {
    let mut p = fighter(1, 10, 0);
    let curse = Item::new(t("curse"), t("black"), -100, 0, 0);
    let mut b = fixed_battle(&p, Combatant::new(t("Imp"), 50, 10, 0, vec![curse]));
    match p.fight_round(&mut b, None, Some(0)) {
        FightStep::Won(r) => assert_eq!(r, BattleResult::new(true, 1, 0, t("Imp"))),
        other => panic!("unexpected {:?}", other),
    }
    assert_eq!(b.enemy_health, -50);
    assert_eq!((p.health, p.attack), (1, 10));
}

#[test]
fn a_player_felled_by_their_own_item_loses_at_once() {
    let mut p = fighter(10, 10, 0);
    p.items_held = vec![Item::new(t("poison"), t("green"), -20, 0, 0)];
    let salve = Item::new(t("salve"), t("red"), 30, 0, 0);
    let mut b = fixed_battle(&p, Combatant::new(t("Imp"), 50, 10, 0, vec![salve]));
    match p.fight_round(&mut b, Some(t("poison")), Some(0)) {
        FightStep::Lost(r) => assert_eq!(r, BattleResult::new(false, 0, 50, t("Imp"))),
        other => panic!("unexpected {:?}", other),
    }
    // the fight ended before the enemy used its item
    assert_eq!(b.enemy.items_held.len(), 1);
    assert_eq!((p.health, p.attack), (10, 10));
    assert!(p.items_held.is_empty());
}
