//! A verified core for a turn-based dungeon crawler: the tile map, the
//! entity store, the per-turn systems and the run-state machine.
//!
//! The library decides; it neither draws nor reads input.  Each tick the
//! host hands in what the player did and draws what the library lists.
//! From the console library `rltk` come the field of view, the dice and
//! the glyph table, each behind a contract that is stated and not proved.
//! The search for a monster's path is the host's: `State::tick` stops at
//! a monster that needs one and `State::path_found` takes it.

pub mod geometry;
pub mod store;
pub mod components;
pub mod gamelog;
pub mod rect;
pub mod map;
pub mod run_state;
pub mod world;
pub mod item_use;
pub mod inventory_system;
pub mod input;
pub mod gui;
pub mod map_indexing_system;
pub mod melee_combat_system;
pub mod damage_system;
pub mod visibility_system;
pub mod monster_ai_system;
pub mod state;
pub mod player;
pub mod map_drawing;
pub mod placement;
pub mod map_builders;
pub mod spells;
pub mod spawner;
pub mod pools;
pub mod fresh_index;
