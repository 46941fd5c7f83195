use vstd::prelude::*;

use crate::chance::random_below;
use crate::inventory::remove_one;
use crate::stats::{add_stat, clamp, damage, take_damage};
use crate::structs::{BattleResult, Class, Combatant, CombatantView, Item, Player};

verus! {

/// A fight under way between a player and the enemy of a door.
#[derive(Debug)]
pub struct Battle {
    /// The enemy as it stands: items it used are gone, their modifiers added.
    pub enemy: Combatant,
    /// The enemy as it stood when the fight began.
    pub opponent: Combatant,
    /// The enemy's remaining health.
    pub enemy_health: i32,
    /// The player's attack in the current round, random spread included.
    pub player_attack: i32,
    /// The enemy's attack in the current round, random spread included.
    pub enemy_attack: i32,
    /// The player's health and attack when the fight began; both come back
    /// when it ends.
    pub initial_health: i32,
    pub initial_attack: i32,
    /// Whether this fight is the retry that a second-chance class grants.
    pub retried: bool,
}

/// What a round of a fight came to.
#[derive(Debug)]
pub enum FightStep {
    /// Both sides still stand.
    Ongoing,
    /// The enemy fell; the record was added to the battle history. The
    /// player's health and attack are back at their values from before the
    /// fight; the gains of the victory are for `Player::claim_victory`.
    Won(BattleResult),
    /// The player fell; the record was added to the battle history. The
    /// enemy still stood: a round begun with the enemy's health above zero
    /// records it above zero (see `lemma_round_ends_once`).
    Lost(BattleResult),
    /// The player fell but their class grants one retry: a new class is to be
    /// chosen and the fight begun afresh. The record was added to the history.
    SecondChance(BattleResult),
}

/// A roll of the random spread of an attack: within `-(base / 4) .. base / 4`,
/// or zero where that range is empty.
pub open spec fn roll_fits(base: i32, roll: i32) -> bool {
    if base >= 4 {
        -(base / 4) <= roll < base / 4
    } else {
        roll == 0
    }
}

/// An attack of `effective` can come of `base` and a roll of its spread.
pub open spec fn attack_fits(base: i32, effective: i32) -> bool {
    exists|roll: i32| roll_fits(base, roll) && effective == clamp(base + roll)
}

/// The class whose holders get a second fight after losing one.
pub open spec fn second_chance(c: Class) -> bool {
    c.name@ == "Dark Mage"@
}

/// Index of the first item of that name, or -1.
pub open spec fn first_named(items: Seq<Item>, name: Seq<char>) -> int {
    if exists|i: int|
        0 <= i < items.len() && items[i].name@ == name && forall|j: int|
            0 <= j < i ==> items[j].name@ != name {
        choose|i: int|
            0 <= i < items.len() && items[i].name@ == name && forall|j: int|
                0 <= j < i ==> items[j].name@ != name
    } else {
        -1
    }
}

/// The item the player chose to use this round, if they hold one of that name.
pub open spec fn chosen_item(items: Seq<Item>, choice: Option<String>) -> Option<Item> {
    match choice {
        Some(n) => if first_named(items, n@) >= 0 {
            Some(items[first_named(items, n@)])
        } else {
            None
        },
        None => None,
    }
}

/// The enemy after using its `j`-th item.
pub open spec fn enemy_uses(e: CombatantView, j: int) -> CombatantView {
    let it = e.items[j];
    CombatantView {
        health: clamp(e.health + it.health) as i32,
        attack: clamp(e.attack + it.attack) as i32,
        defense: clamp(e.defense + it.defense) as i32,
        items: e.items.remove(j),
        ..e
    }
}

/// The fight ends with the player fallen: the loss is recorded with the
/// enemy's remaining health `eh`, the player's health and attack come back
/// (defense stays at `pd`), and a second-chance class that has not had its
/// retry gets it.
pub open spec fn ends_lost(p0: Player, b0: Battle, p1: Player, b1: Battle, r: FightStep, pd: int, eh: int) -> bool {
    let rec = BattleResult {
        winner: false,
        player_health: 0,
        enemy_health: eh as i32,
        enemy_name: b0.enemy.name,
    };
    &&& p1.health == b0.initial_health
    &&& p1.attack == b0.initial_attack
    &&& p1.defense == pd
    &&& p1.battles@ == p0.battles@.push(rec)
    &&& b1.enemy_health == eh
    &&& r == if second_chance(p0.class) && !b0.retried {
        FightStep::SecondChance(rec)
    } else {
        FightStep::Lost(rec)
    }
}

/// The fight ends with the enemy fallen to `eh`: the win is recorded with the
/// player's health `ph`, and the player's health and attack come back
/// (defense stays at `pd`).
pub open spec fn ends_won(
    p0: Player,
    b0: Battle,
    p1: Player,
    b1: Battle,
    r: FightStep,
    ph: int,
    pd: int,
    eh: int,
) -> bool {
    let rec = BattleResult {
        winner: true,
        player_health: ph as i32,
        enemy_health: 0,
        enemy_name: b0.enemy.name,
    };
    &&& p1.health == b0.initial_health
    &&& p1.attack == b0.initial_attack
    &&& p1.defense == pd
    &&& p1.battles@ == p0.battles@.push(rec)
    &&& b1.enemy_health == eh
    &&& r == FightStep::Won(rec)
}

/// The round played from player `p0` and fight `b0`, each step checked at
/// once, the fight ending the instant a side's health is zero or below: the
/// player uses the item chosen (if held); the enemy uses the one drawn (if
/// any); the enemy strikes; the player strikes. `p1`, `b1` and `r` are the
/// player, the fight and the step after it.
pub open spec fn round_post(
    p0: Player,
    b0: Battle,
    choice: Option<String>,
    enemy_item: Option<usize>,
    p1: Player,
    b1: Battle,
    r: FightStep,
) -> bool {
    let used = chosen_item(p0.items_held@, choice);
    let ph = match used {
        Some(it) => clamp(p0.health + it.health),
        None => p0.health as int,
    };
    let pa = match used {
        Some(it) => clamp(p0.attack + it.attack),
        None => p0.attack as int,
    };
    let pd = match used {
        Some(it) => clamp(p0.defense + it.defense),
        None => p0.defense as int,
    };
    let held = match used {
        Some(it) => remove_one(p0.items_held@, it),
        None => p0.items_held@,
    };
    let e = match enemy_item {
        Some(j) => enemy_uses(b0.enemy@, j as int),
        None => b0.enemy@,
    };
    let eh = match enemy_item {
        Some(j) => clamp(b0.enemy_health + b0.enemy@.items[j as int].health),
        None => b0.enemy_health as int,
    };
    let ph2 = clamp(ph - damage(b0.enemy_attack as int, pd));
    let eh2 = clamp(eh - damage(b0.player_attack as int, e.defense as int));
    &&& p1.items_held@ == held
    &&& b1.enemy@ == if ph <= 0 {
        b0.enemy@
    } else {
        e
    }
    &&& b1 == (Battle { enemy: b1.enemy, enemy_health: b1.enemy_health, ..b0 })
    &&& p1 == (Player {
        items_held: p1.items_held,
        health: p1.health,
        attack: p1.attack,
        defense: p1.defense,
        battles: p1.battles,
        ..p0
    })
    &&& if ph <= 0 {
        ends_lost(p0, b0, p1, b1, r, pd, b0.enemy_health as int)
    } else if eh <= 0 {
        ends_won(p0, b0, p1, b1, r, ph, pd, eh)
    } else if ph2 <= 0 {
        ends_lost(p0, b0, p1, b1, r, pd, eh)
    } else if eh2 <= 0 {
        ends_won(p0, b0, p1, b1, r, ph2, pd, eh2)
    } else {
        &&& p1.health == ph2
        &&& p1.attack == pa
        &&& p1.defense == pd
        &&& p1.battles@ == p0.battles@
        &&& b1.enemy_health == eh2
        &&& r == FightStep::Ongoing
    }
}

/// A round that begins with both sides standing never ends in a record of a
/// fallen side on the other: a loss leaves the enemy with health above zero,
/// a win leaves the player with health above zero.
pub proof fn lemma_round_ends_once(
    p0: Player,
    b0: Battle,
    choice: Option<String>,
    enemy_item: Option<usize>,
    p1: Player,
    b1: Battle,
    r: FightStep,
)
    requires
        round_post(p0, b0, choice, enemy_item, p1, b1, r),
        b0.enemy_health > 0,
    ensures
        r matches FightStep::Lost(rec) ==> !rec.winner && rec.player_health == 0 && rec.enemy_health > 0,
        r matches FightStep::SecondChance(rec) ==> !rec.winner && rec.player_health == 0
            && rec.enemy_health > 0,
        r matches FightStep::Won(rec) ==> rec.winner && rec.player_health > 0 && rec.enemy_health == 0,
{
}

/// The state, `k` rounds into it, of the fight of a player with 100 health,
/// 10 attack and no defense against an enemy with 50 health, 5 attack, no
/// defense and no items, neither side using an item.
pub open spec fn duel_state(p: Player, b: Battle, k: int) -> bool {
    &&& 0 <= k <= 6
    &&& p.health >= 100 - 5 * k
    &&& b.enemy_health <= 50 - 8 * k
    &&& 8 <= b.player_attack <= 11
    &&& 4 <= b.enemy_attack <= 5
    &&& p.attack == 10
    &&& p.defense == 0
    &&& b.enemy@.attack == 5
    &&& b.enemy@.defense == 0
    &&& b.enemy@.items.len() == 0
    &&& b.initial_health == 100
    &&& b.initial_attack == 10
}

/// Such a fight, begun with any rolls, starts in the state of round zero.
pub proof fn lemma_duel_start(p: Player, b: Battle)
    requires
        p.health == 100,
        p.attack == 10,
        p.defense == 0,
        b.enemy_health == 50,
        b.enemy@.attack == 5,
        b.enemy@.defense == 0,
        b.enemy@.items.len() == 0,
        attack_fits(10, b.player_attack),
        attack_fits(5, b.enemy_attack),
        b.initial_health == 100,
        b.initial_attack == 10,
    ensures
        duel_state(p, b, 0),
{
}

/// Whatever the rolls, such a fight is won by the player, within seven rounds
/// and with at least 65 health left: no round of it is lost, a round that ends
/// it is won, and a round that does not leads, with any rolls for the next
/// round, to the state of the next round, of which there are at most six.
pub proof fn lemma_duel_round(p0: Player, b0: Battle, k: int, p1: Player, b1: Battle, r: FightStep)
    requires
        duel_state(p0, b0, k),
        round_post(p0, b0, None, None, p1, b1, r),
    ensures
        !(r is Lost),
        !(r is SecondChance),
        r matches FightStep::Won(rec) ==> rec.winner && rec.enemy_health == 0 && rec.player_health >= 65
            && p1.health == 100 && p1.attack == 10,
        r is Ongoing ==> k < 6,
        r is Ongoing ==> forall|pa: i32, ea: i32|
            attack_fits(p1.attack, pa) && attack_fits(b1.enemy.attack, ea) ==> #[trigger] duel_state(
                p1,
                Battle { player_attack: pa, enemy_attack: ea, ..b1 },
                k + 1,
            ),
{
}

/// A round depends on nothing but the state it starts from, the item chosen
/// and the enemy's item drawn: played twice from the same state with the same
/// choices, it ends in the same state and step.
pub proof fn lemma_round_replay(
    p0: Player,
    b0: Battle,
    choice: Option<String>,
    enemy_item: Option<usize>,
    p1: Player,
    b1: Battle,
    r1: FightStep,
    p2: Player,
    b2: Battle,
    r2: FightStep,
)
    requires
        round_post(p0, b0, choice, enemy_item, p1, b1, r1),
        round_post(p0, b0, choice, enemy_item, p2, b2, r2),
    ensures
        r1 == r2,
        p1.health == p2.health,
        p1.attack == p2.attack,
        p1.defense == p2.defense,
        p1.items_held@ == p2.items_held@,
        p1.battles@ == p2.battles@,
        b1.enemy@ == b2.enemy@,
        b1.enemy_health == b2.enemy_health,
{
}

/// Without items and with no defense on either side, a round's outcome
/// depends only on the combat numbers: two players, each fighting an enemy,
/// that agree on health, attack, the attacks rolled for the round, the
/// enemy's remaining health and name, the values to restore and whether a
/// second chance applies, end the round alike, whatever else they hold.
pub proof fn lemma_itemless_round(
    p0: Player,
    b0: Battle,
    p1: Player,
    b1: Battle,
    r1: FightStep,
    q0: Player,
    c0: Battle,
    q1: Player,
    c1: Battle,
    r2: FightStep,
)
    requires
        round_post(p0, b0, None, None, p1, b1, r1),
        round_post(q0, c0, None, None, q1, c1, r2),
        p0.defense == 0 && q0.defense == 0,
        b0.enemy.defense == 0 && c0.enemy.defense == 0,
        p0.health == q0.health,
        p0.attack == q0.attack,
        b0.player_attack == c0.player_attack,
        b0.enemy_attack == c0.enemy_attack,
        b0.enemy_health == c0.enemy_health,
        b0.enemy.name == c0.enemy.name,
        b0.initial_health == c0.initial_health,
        b0.initial_attack == c0.initial_attack,
        second_chance(p0.class) && !b0.retried <==> second_chance(q0.class) && !c0.retried,
    ensures
        r1 == r2,
        p1.health == q1.health,
        p1.attack == q1.attack,
        b1.enemy_health == c1.enemy_health,
{
}

/// Draws the random spread of an attack of the given base.
fn draw_roll(base: i32) -> (r: i32)
    ensures
        roll_fits(base, r),
{
    if base >= 4 {
        let q: i32 = base / 4;
        let k = random_below((2 * q) as usize);
        k as i32 - q
    } else {
        0
    }
}

fn find_named(items: &Vec<Item>, name: &String) -> (r: usize)
    ensures
        r <= items@.len(),
        r < items@.len() ==> first_named(items@, name@) == r,
        r == items@.len() ==> first_named(items@, name@) == -1,
{
    let mut i: usize = 0;
    while i < items.len()
        invariant
            0 <= i <= items@.len(),
            forall|j: int| 0 <= j < i ==> items@[j].name@ != name@,
        decreases items@.len() - i,
    {
        if items[i].name == *name {
            assert forall|k: int|
                0 <= k < items@.len() && items@[k].name@ == name@ && (forall|j: int|
                    0 <= j < k ==> items@[j].name@ != name@) implies k == i by {
                if k > i {
                    assert(items@[i as int].name@ == name@);
                }
            }
            return i;
        }
        i += 1;
    }
    i
}

fn is_second_chance(c: &Class) -> (r: bool)
    ensures
        r == second_chance(*c),
{
    c.name == String::from_str("Dark Mage")
}

impl Battle {
    /// The enemy uses its `j`-th item: the modifiers are added to its stats
    /// and to its remaining health, and the item is gone.
    fn enemy_uses_item(&mut self, j: usize)
        requires
            j < old(self).enemy.items_held@.len(),
        ensures
            final(self).enemy@ == enemy_uses(old(self).enemy@, j as int),
            final(self).enemy.name == old(self).enemy.name,
            final(self).enemy_health == clamp(
                old(self).enemy_health + old(self).enemy.items_held@[j as int].health,
            ),
            *final(self) == (Battle {
                enemy: final(self).enemy,
                enemy_health: final(self).enemy_health,
                ..*old(self)
            }),
    {
        let it = self.enemy.items_held.remove(j);
        self.enemy.health = add_stat(self.enemy.health, it.health);
        self.enemy.attack = add_stat(self.enemy.attack, it.attack);
        self.enemy.defense = add_stat(self.enemy.defense, it.defense);
        self.enemy_health = add_stat(self.enemy_health, it.health);
    }

    /// Sets the attacks of the next round from the rolls drawn for it.
    pub fn reroll_with(&mut self, player: &Player, player_roll: i32, enemy_roll: i32)
        requires
            roll_fits(player.attack, player_roll),
            roll_fits(old(self).enemy.attack, enemy_roll),
        ensures
            final(self).player_attack == clamp(player.attack + player_roll),
            final(self).enemy_attack == clamp(old(self).enemy.attack + enemy_roll),
            *final(self) == (Battle {
                player_attack: final(self).player_attack,
                enemy_attack: final(self).enemy_attack,
                ..*old(self)
            }),
    {
        self.player_attack = add_stat(player.attack, player_roll);
        self.enemy_attack = add_stat(self.enemy.attack, enemy_roll);
    }
}

impl Player {
    /// Begins a fight against `enemy`, with the given rolls for the first
    /// round's attacks.
    pub fn begin_fight_with(&self, enemy: Combatant, retried: bool, player_roll: i32, enemy_roll: i32) -> (r:
        Battle)
        requires
            roll_fits(self.attack, player_roll),
            roll_fits(enemy.attack, enemy_roll),
        ensures
            r.enemy@ == enemy@,
            r.opponent@ == enemy@,
            r.enemy_health == enemy.health,
            r.player_attack == clamp(self.attack + player_roll),
            r.enemy_attack == clamp(enemy.attack + enemy_roll),
            r.initial_health == self.health,
            r.initial_attack == self.attack,
            r.retried == retried,
    {
        let opponent = enemy.clone();
        Battle {
            enemy_health: enemy.health,
            player_attack: add_stat(self.attack, player_roll),
            enemy_attack: add_stat(enemy.attack, enemy_roll),
            enemy,
            opponent,
            initial_health: self.health,
            initial_attack: self.attack,
            retried,
        }
    }

    /// Begins a fight against `enemy`, drawing the first round's attacks.
    pub fn begin_fight(&self, enemy: Combatant, retried: bool) -> (r: Battle)
        ensures
            r.enemy@ == enemy@,
            r.opponent@ == enemy@,
            r.enemy_health == enemy.health,
            attack_fits(self.attack, r.player_attack),
            attack_fits(enemy.attack, r.enemy_attack),
            r.initial_health == self.health,
            r.initial_attack == self.attack,
            r.retried == retried,
    {
        let pr = draw_roll(self.attack);
        let er = draw_roll(enemy.attack);
        let ghost ea = enemy.attack;
        let r = self.begin_fight_with(enemy, retried, pr, er);
        assert(roll_fits(self.attack, pr) && roll_fits(ea, er));
        r
    }

    /// After a `SecondChance` step: the player takes the class newly chosen and
    /// the fight begins again, against the enemy as it stood at the start.
    pub fn second_chance(&mut self, battle: &Battle, class: Class) -> (r: Battle)
        ensures
            *final(self) == (Player { class, ..*old(self) }),
            r.enemy@ == battle.opponent@,
            r.opponent@ == battle.opponent@,
            r.enemy_health == battle.opponent.health,
            attack_fits(old(self).attack, r.player_attack),
            attack_fits(battle.opponent.attack, r.enemy_attack),
            r.initial_health == old(self).health,
            r.initial_attack == old(self).attack,
            r.retried,
    {
        self.class = class;
        self.begin_fight(battle.opponent.clone(), true)
    }

    /// Ends the fight as lost: records it, brings health and attack back.
    fn end_lost(&mut self, battle: &Battle) -> (r: FightStep)
        ensures
            ends_lost(
                *old(self),
                *battle,
                *final(self),
                *battle,
                r,
                old(self).defense as int,
                battle.enemy_health as int,
            ),
            *final(self) == (Player {
                health: final(self).health,
                attack: final(self).attack,
                battles: final(self).battles,
                ..*old(self)
            }),
    {
        let rec = BattleResult::new(false, 0, battle.enemy_health, battle.enemy.name.clone());
        self.battles.push(rec.clone());
        self.health = battle.initial_health;
        self.attack = battle.initial_attack;
        if is_second_chance(&self.class) && !battle.retried {
            FightStep::SecondChance(rec)
        } else {
            FightStep::Lost(rec)
        }
    }

    /// Ends the fight as won: records it, brings health and attack back.
    fn end_won(&mut self, battle: &Battle) -> (r: FightStep)
        ensures
            ends_won(
                *old(self),
                *battle,
                *final(self),
                *battle,
                r,
                old(self).health as int,
                old(self).defense as int,
                battle.enemy_health as int,
            ),
            *final(self) == (Player {
                health: final(self).health,
                attack: final(self).attack,
                battles: final(self).battles,
                ..*old(self)
            }),
    {
        let rec = BattleResult::new(true, self.health, 0, battle.enemy.name.clone());
        self.battles.push(rec.clone());
        self.health = battle.initial_health;
        self.attack = battle.initial_attack;
        FightStep::Won(rec)
    }

    /// Plays one round of a fight, with the player's choice of item and the
    /// enemy's item (drawn by the caller) given.
    pub fn fight_round(&mut self, battle: &mut Battle, choice: Option<String>, enemy_item: Option<usize>) -> (r:
        FightStep)
        requires
            enemy_item matches Some(j) ==> j < old(battle).enemy.items_held@.len(),
        ensures
            round_post(*old(self), *old(battle), choice, enemy_item, *final(self), *final(battle), r),
    {
        if let Some(n) = &choice {
            let k = find_named(&self.items_held, n);
            if k < self.items_held.len() {
                let it = self.items_held[k].clone();
                self.use_item(it);
            }
        }
        if self.health <= 0 {
            return self.end_lost(battle);
        }
        if let Some(j) = enemy_item {
            battle.enemy_uses_item(j);
        }
        if battle.enemy_health <= 0 {
            return self.end_won(battle);
        }
        self.health = take_damage(self.health, battle.enemy_attack, self.defense);
        if self.health <= 0 {
            return self.end_lost(battle);
        }
        battle.enemy_health = take_damage(battle.enemy_health, battle.player_attack, battle.enemy.defense);
        if battle.enemy_health <= 0 {
            return self.end_won(battle);
        }
        FightStep::Ongoing
    }

    /// Plays one round of a fight: the player uses the item named by `choice`,
    /// if they hold one; the enemy, if it holds items, uses one drawn at random
    /// half of the time. If both still stand, the next round's attacks are
    /// drawn.
    pub fn fight(&mut self, battle: &mut Battle, choice: Option<String>) -> (r: FightStep)
        ensures
            exists|enemy_item: Option<usize>, b1: Battle|
                {
                    &&& enemy_item matches Some(j) ==> j < old(battle).enemy.items_held@.len()
                    &&& round_post(*old(self), *old(battle), choice, enemy_item, *final(self), b1, r)
                    &&& if r is Ongoing {
                        &&& attack_fits(final(self).attack, final(battle).player_attack)
                        &&& attack_fits(b1.enemy.attack, final(battle).enemy_attack)
                        &&& *final(battle) == (Battle {
                            player_attack: final(battle).player_attack,
                            enemy_attack: final(battle).enemy_attack,
                            ..b1
                        })
                    } else {
                        *final(battle) == b1
                    }
                },
    {
        let n = battle.enemy.items_held.len();
        let enemy_item = if n > 0 && random_below(2) == 0 {
            Some(random_below(n))
        } else {
            None
        };
        let ghost p0 = *self;
        let ghost b0 = *battle;
        let r = self.fight_round(battle, choice, enemy_item);
        let ghost b1 = *battle;
        if let FightStep::Ongoing = r {
            let pr = draw_roll(self.attack);
            let er = draw_roll(battle.enemy.attack);
            battle.reroll_with(self, pr, er);
            assert(roll_fits(self.attack, pr) && roll_fits(b1.enemy.attack, er));
        }
        assert(round_post(p0, b0, choice, enemy_item, *self, b1, r));
        r
    }
}

} // verus!
