//! A text adventure's game engine: rooms joined by doors, items and keys,
//! turn-based battles and the player state they act on.
mod chance;
pub mod challenge;
pub mod combat;
pub mod inventory;
pub mod navigation;
pub mod player;
pub mod stats;
pub mod structs;
pub mod text;

pub use challenge::{pick_riddle, Riddle};
pub use combat::{Battle, FightStep};
pub use inventory::Pickup;
pub use navigation::Passage;
pub use player::{choose_class, save_permitted};
pub use structs::{BattleResult, Class, Combatant, Door, Item, Key, Player, Room, RoomRequirements};
