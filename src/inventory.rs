use vstd::prelude::*;

use crate::navigation::{
    find_room, has_room, in_sync, lemma_index_after_update, lemma_room_found, lemma_update_keeps_valid,
    leads_inside, room_index, well_formed,
};
use crate::stats::{add_stat, clamp};
use crate::structs::{rooms_view, same_item, Item, Key, Player, Room, RoomView};

verus! {

pub open spec fn named_item(name: Seq<char>) -> spec_fn(Item) -> bool {
    |i: Item| i.name@ == name
}

pub open spec fn other_item(name: Seq<char>) -> spec_fn(Item) -> bool {
    |i: Item| i.name@ != name
}

pub open spec fn named_key(name: Seq<char>) -> spec_fn(Key) -> bool {
    |k: Key| k.name@ == name
}

pub open spec fn other_key(name: Seq<char>) -> spec_fn(Key) -> bool {
    |k: Key| k.name@ != name
}

/// The room with every item of that name gone.
pub open spec fn without_items(r: RoomView, name: Seq<char>) -> RoomView {
    RoomView { items: r.items.filter(other_item(name)), ..r }
}

/// The room with every key of that name gone.
pub open spec fn without_keys(r: RoomView, name: Seq<char>) -> RoomView {
    RoomView { keys: r.keys.filter(other_key(name)), ..r }
}

/// The world map after `change` is made to the entry of the named room, if
/// there is one.
pub open spec fn map_after(
    rooms: Seq<RoomView>,
    name: Seq<char>,
    changed: spec_fn(RoomView) -> RoomView,
) -> Seq<RoomView> {
    let k = room_index(rooms, name);
    if k >= 0 {
        rooms.update(k, changed(rooms[k]))
    } else {
        rooms
    }
}

/// Index of the first item equal to `item`, or -1.
pub open spec fn first_same(items: Seq<Item>, item: Item) -> int {
    if exists|i: int|
        0 <= i < items.len() && same_item(items[i], item) && forall|j: int|
            0 <= j < i ==> !same_item(items[j], item) {
        choose|i: int|
            0 <= i < items.len() && same_item(items[i], item) && forall|j: int|
                0 <= j < i ==> !same_item(items[j], item)
    } else {
        -1
    }
}

/// The items with one instance of `item` taken out, if there is one.
pub open spec fn remove_one(items: Seq<Item>, item: Item) -> Seq<Item> {
    let i = first_same(items, item);
    if i >= 0 {
        items.remove(i)
    } else {
        items
    }
}

/// What became of an item or key that the player tried to take.
#[derive(Debug, PartialEq, Eq, Structural)]
pub enum Pickup {
    /// The current room holds nothing of that name.
    Missing,
    /// The challenge was passed: the player holds it now.
    Granted,
    /// The challenge was failed: it is gone for good.
    Despawned,
}

pub proof fn lemma_filter_step<A>(s: Seq<A>, p: spec_fn(A) -> bool, i: int)
    requires
        0 <= i < s.len(),
    ensures
        s.take(i + 1).filter(p) == (if p(s[i]) {
            s.take(i).filter(p).push(s[i])
        } else {
            s.take(i).filter(p)
        }),
{
    reveal(Seq::filter);
    assert(s.take(i + 1).drop_last() =~= s.take(i));
}

proof fn lemma_single_prefix<A>(s: Seq<A>, p: spec_fn(A) -> bool, q: spec_fn(A) -> bool, i: int, k: int)
    requires
        0 <= i < s.len(),
        0 <= k <= s.len(),
        p(s[i]),
        forall|j: int| 0 <= j < s.len() && j != i ==> !p(#[trigger] s[j]),
        forall|x: A| #[trigger] q(x) == !p(x),
    ensures
        s.take(k).filter(p) == (if k > i {
            seq![s[i]]
        } else {
            Seq::<A>::empty()
        }),
        s.take(k).filter(q) == (if k > i {
            s.take(k).remove(i)
        } else {
            s.take(k)
        }),
    decreases k,
{
    if k == 0 {
        reveal(Seq::filter);
        assert(s.take(0) =~= Seq::<A>::empty());
    } else {
        lemma_single_prefix(s, p, q, i, k - 1);
        lemma_filter_step(s, p, k - 1);
        lemma_filter_step(s, q, k - 1);
        assert(s.take(k) =~= s.take(k - 1).push(s[k - 1]));
        if k - 1 > i {
            assert(s.take(k).remove(i) =~= s.take(k - 1).remove(i).push(s[k - 1]));
        } else if k - 1 == i {
            assert(s.take(k).remove(i) =~= s.take(k - 1));
            assert(seq![s[i]] =~= Seq::<A>::empty().push(s[i]));
        }
    }
}

/// Where the room holds exactly one item of the name asked for, taking it
/// grants exactly that item on a passed challenge (see `take_item`), and the
/// room keeps all its other items, in their order.
pub proof fn lemma_take_single_item(items: Seq<Item>, name: Seq<char>, i: int)
    requires
        0 <= i < items.len(),
        items[i].name@ == name,
        forall|j: int| 0 <= j < items.len() && j != i ==> #[trigger] items[j].name@ != name,
    ensures
        items.filter(named_item(name)) == seq![items[i]],
        items.filter(other_item(name)) == items.remove(i),
{
    lemma_single_prefix(items, named_item(name), other_item(name), i, items.len() as int);
    assert(items.take(items.len() as int) =~= items);
}

/// Where the room holds exactly one key of the name asked for, taking it
/// grants exactly that key on a passed challenge (see `take_key`), and the
/// room keeps all its other keys, in their order.
pub proof fn lemma_take_single_key(keys: Seq<Key>, name: Seq<char>, i: int)
    requires
        0 <= i < keys.len(),
        keys[i].name@ == name,
        forall|j: int| 0 <= j < keys.len() && j != i ==> #[trigger] keys[j].name@ != name,
    ensures
        keys.filter(named_key(name)) == seq![keys[i]],
        keys.filter(other_key(name)) == keys.remove(i),
{
    lemma_single_prefix(keys, named_key(name), other_key(name), i, keys.len() as int);
    assert(keys.take(keys.len() as int) =~= keys);
}

fn items_with_name(items: &Vec<Item>, name: &String, keep: bool) -> (r: Vec<Item>)
    ensures
        keep ==> r@ == items@.filter(named_item(name@)),
        !keep ==> r@ == items@.filter(other_item(name@)),
{
    let ghost p = if keep {
        named_item(name@)
    } else {
        other_item(name@)
    };
    let mut r: Vec<Item> = Vec::new();
    let mut i: usize = 0;
    while i < items.len()
        invariant
            0 <= i <= items@.len(),
            p == (if keep {
                named_item(name@)
            } else {
                other_item(name@)
            }),
            r@ == items@.take(i as int).filter(p),
        decreases items@.len() - i,
    {
        proof {
            lemma_filter_step(items@, p, i as int);
        }
        if (items[i].name == *name) == keep {
            r.push(items[i].clone());
        }
        i += 1;
    }
    assert(items@.take(items@.len() as int) =~= items@);
    r
}

fn keys_with_name(keys: &Vec<Key>, name: &String, keep: bool) -> (r: Vec<Key>)
    ensures
        keep ==> r@ == keys@.filter(named_key(name@)),
        !keep ==> r@ == keys@.filter(other_key(name@)),
{
    let ghost p = if keep {
        named_key(name@)
    } else {
        other_key(name@)
    };
    let mut r: Vec<Key> = Vec::new();
    let mut i: usize = 0;
    while i < keys.len()
        invariant
            0 <= i <= keys@.len(),
            p == (if keep {
                named_key(name@)
            } else {
                other_key(name@)
            }),
            r@ == keys@.take(i as int).filter(p),
        decreases keys@.len() - i,
    {
        proof {
            lemma_filter_step(keys@, p, i as int);
        }
        if (keys[i].name == *name) == keep {
            r.push(keys[i].clone());
        }
        i += 1;
    }
    assert(keys@.take(keys@.len() as int) =~= keys@);
    r
}

fn find_same(items: &Vec<Item>, item: &Item) -> (r: usize)
    ensures
        r <= items@.len(),
        r < items@.len() ==> first_same(items@, *item) == r,
        r == items@.len() ==> first_same(items@, *item) == -1,
{
    let mut i: usize = 0;
    while i < items.len()
        invariant
            0 <= i <= items@.len(),
            forall|j: int| 0 <= j < i ==> !same_item(items@[j], *item),
        decreases items@.len() - i,
    {
        if items[i] == *item {
            assert forall|k: int|
                0 <= k < items@.len() && same_item(items@[k], *item) && (forall|j: int|
                    0 <= j < k ==> !same_item(items@[j], *item)) implies k == i by {
                if k > i {
                    assert(same_item(items@[i as int], *item));
                }
            }
            return i;
        }
        i += 1;
    }
    i
}

impl Room {
    /// Whether the room holds an item of that name.
    pub fn has_item(&self, name: &String) -> (r: bool)
        ensures
            r == (self@.items.filter(named_item(name@)).len() > 0),
    {
        items_with_name(&self.items, name, true).len() > 0
    }

    /// Whether the room holds a key of that name.
    pub fn has_key(&self, name: &String) -> (r: bool)
        ensures
            r == (self@.keys.filter(named_key(name@)).len() > 0),
    {
        keys_with_name(&self.keys, name, true).len() > 0
    }

    /// Takes every item of that name out of the room.
    pub fn remove_items_named(&mut self, name: &String)
        ensures
            final(self)@ == without_items(old(self)@, name@),
    {
        self.items = items_with_name(&self.items, name, false);
    }

    /// Takes every key of that name out of the room.
    pub fn remove_keys_named(&mut self, name: &String)
        ensures
            final(self)@ == without_keys(old(self)@, name@),
    {
        self.keys = keys_with_name(&self.keys, name, false);
    }
}

impl Player {
    /// Picks up the items of the current room named `item_name`, once the
    /// challenge gate has been passed (`passed`). Whether it was passed or not,
    /// those items leave the room, in `current_room` and in the world map.
    pub fn take_item(&mut self, item_name: String, passed: bool) -> (r: Pickup)
        requires
            well_formed(*old(self)),
        ensures
            well_formed(*final(self)),
            ({
                let found = old(self).current_room@.items.filter(named_item(item_name@));
                &&& found.len() == 0 ==> r == Pickup::Missing
                &&& found.len() > 0 && passed ==> r == Pickup::Granted
                &&& found.len() > 0 && !passed ==> r == Pickup::Despawned
                &&& final(self).items_held@ == if r == Pickup::Granted {
                    old(self).items_held@ + found
                } else {
                    old(self).items_held@
                }
            }),
            final(self).current_room@ == without_items(old(self).current_room@, item_name@),
            in_sync(*old(self)) ==> in_sync(*final(self)),
            rooms_view(final(self).map@) == map_after(
                rooms_view(old(self).map@),
                old(self).current_room@.name,
                |q: RoomView| without_items(q, item_name@),
            ),
            *final(self) == (Player {
                items_held: final(self).items_held,
                current_room: final(self).current_room,
                map: final(self).map,
                ..*old(self)
            }),
    {
        let found = items_with_name(&self.current_room.items, &item_name, true);
        let r = if found.len() == 0 {
            Pickup::Missing
        } else if passed {
            let mut i: usize = 0;
            let ghost held = self.items_held@;
            let ghost before = *self;
            while i < found.len()
                invariant
                    0 <= i <= found@.len(),
                    *self == (Player { items_held: self.items_held, ..before }),
                    self.items_held@ == held + found@.take(i as int),
                decreases found@.len() - i,
            {
                self.items_held.push(found[i].clone());
                assert(found@.take(i + 1) =~= found@.take(i as int).push(found@[i as int]));
                i += 1;
            }
            assert(found@.take(found@.len() as int) =~= found@);
            Pickup::Granted
        } else {
            Pickup::Despawned
        };
        self.current_room.remove_items_named(&item_name);
        let ghost rooms = rooms_view(self.map@);
        let k = find_room(&self.map, &self.current_room.name);
        if k < self.map.len() {
            let mut q = self.map[k].clone();
            q.remove_items_named(&item_name);
            self.map[k] = q;
            assert(rooms_view(self.map@) =~= rooms.update(k as int, without_items(rooms[k as int], item_name@)));
            proof {
                let changed = without_items(rooms[k as int], item_name@);
                lemma_index_after_update(rooms, k as int, changed);
                assert(leads_inside(rooms, rooms[k as int]));
                assert(leads_inside(rooms, changed));
                lemma_update_keeps_valid(rooms, k as int, changed);
                assert(leads_inside(rooms, old(self).current_room@));
                assert(leads_inside(rooms, self.current_room@));
            }
        } else {
            proof {
                let j = choose|j: int| 0 <= j < rooms.len() && rooms[j].name == self.current_room@.name;
                lemma_room_found(rooms, self.current_room@.name, j);
            }
        }
        r
    }

    /// Picks up the keys of the current room named `key_name`, once the
    /// challenge gate has been passed (`passed`). Whether it was passed or not,
    /// those keys leave the room, in `current_room` and in the world map.
    pub fn take_key(&mut self, key_name: String, passed: bool) -> (r: Pickup)
        requires
            well_formed(*old(self)),
        ensures
            well_formed(*final(self)),
            ({
                let found = old(self).current_room@.keys.filter(named_key(key_name@));
                &&& found.len() == 0 ==> r == Pickup::Missing
                &&& found.len() > 0 && passed ==> r == Pickup::Granted
                &&& found.len() > 0 && !passed ==> r == Pickup::Despawned
                &&& final(self).keys_held@ == if r == Pickup::Granted {
                    old(self).keys_held@ + found
                } else {
                    old(self).keys_held@
                }
            }),
            final(self).current_room@ == without_keys(old(self).current_room@, key_name@),
            in_sync(*old(self)) ==> in_sync(*final(self)),
            rooms_view(final(self).map@) == map_after(
                rooms_view(old(self).map@),
                old(self).current_room@.name,
                |q: RoomView| without_keys(q, key_name@),
            ),
            *final(self) == (Player {
                keys_held: final(self).keys_held,
                current_room: final(self).current_room,
                map: final(self).map,
                ..*old(self)
            }),
    {
        let found = keys_with_name(&self.current_room.keys, &key_name, true);
        let r = if found.len() == 0 {
            Pickup::Missing
        } else if passed {
            let mut i: usize = 0;
            let ghost held = self.keys_held@;
            let ghost before = *self;
            while i < found.len()
                invariant
                    0 <= i <= found@.len(),
                    *self == (Player { keys_held: self.keys_held, ..before }),
                    self.keys_held@ == held + found@.take(i as int),
                decreases found@.len() - i,
            {
                self.keys_held.push(found[i].clone());
                assert(found@.take(i + 1) =~= found@.take(i as int).push(found@[i as int]));
                i += 1;
            }
            assert(found@.take(found@.len() as int) =~= found@);
            Pickup::Granted
        } else {
            Pickup::Despawned
        };
        self.current_room.remove_keys_named(&key_name);
        let ghost rooms = rooms_view(self.map@);
        let k = find_room(&self.map, &self.current_room.name);
        if k < self.map.len() {
            let mut q = self.map[k].clone();
            q.remove_keys_named(&key_name);
            self.map[k] = q;
            assert(rooms_view(self.map@) =~= rooms.update(k as int, without_keys(rooms[k as int], key_name@)));
            proof {
                let changed = without_keys(rooms[k as int], key_name@);
                lemma_index_after_update(rooms, k as int, changed);
                assert(leads_inside(rooms, rooms[k as int]));
                assert(leads_inside(rooms, changed));
                lemma_update_keeps_valid(rooms, k as int, changed);
                assert(leads_inside(rooms, old(self).current_room@));
                assert(leads_inside(rooms, self.current_room@));
            }
        } else {
            proof {
                let j = choose|j: int| 0 <= j < rooms.len() && rooms[j].name == self.current_room@.name;
                lemma_room_found(rooms, self.current_room@.name, j);
            }
        }
        r
    }

    /// Applies an item: its modifiers are added to the player's stats, and one
    /// instance of it leaves the inventory if the player holds one.
    pub fn use_item(&mut self, item: Item)
        ensures
            final(self).health == clamp(old(self).health + item.health),
            final(self).attack == clamp(old(self).attack + item.attack),
            final(self).defense == clamp(old(self).defense + item.defense),
            final(self).items_held@ == remove_one(old(self).items_held@, item),
            *final(self) == (Player {
                health: final(self).health,
                attack: final(self).attack,
                defense: final(self).defense,
                items_held: final(self).items_held,
                ..*old(self)
            }),
    {
        self.health = add_stat(self.health, item.health);
        self.attack = add_stat(self.attack, item.attack);
        self.defense = add_stat(self.defense, item.defense);
        let i = find_same(&self.items_held, &item);
        if i < self.items_held.len() {
            self.items_held.remove(i);
        }
    }
}

} // verus!
