//! The shared state that every system works on: the entity allocator, the
//! fragment stores and the level.

use crate::components::{
    AreaOfEffect, BlocksTile, CombatStats, Confusion, Consumable, DestroysWalls, Equippable,
    Equipped, InBackpack, InflictsDamage, Item, KnownSpells, MagicStats, Monster, Name, Player,
    ProvidesHealing, Renderable, Spell, SufferDamage, Viewshed, WantsToDrinkPotion,
    WantsToDropItem, WantsToMelee, WantsToPickupItem, WantsToRemoveItem, WantsToUseItem,
};
use crate::gamelog::GameLog;
use crate::geometry::Position;
use crate::map::{on_map, TileMap};
use crate::run_state::RunState;
use crate::store::{without_gone, Entities, Entity, Store};
use vstd::prelude::*;

verus! {

/// What kind of thing an entity is: fragments that are set when the entity
/// is made and that no system changes.
pub struct Kinds {
    pub names: Store<Name>,
    pub players: Store<Player>,
    pub monsters: Store<Monster>,
    pub items: Store<Item>,
    pub blocks_tile: Store<BlocksTile>,
    pub renderables: Store<Renderable>,
    pub consumables: Store<Consumable>,
    pub provides_healing: Store<ProvidesHealing>,
    pub inflicts_damage: Store<InflictsDamage>,
    pub area_of_effect: Store<AreaOfEffect>,
    pub destroys_walls: Store<DestroysWalls>,
    pub equippable: Store<Equippable>,
    pub spells: Store<Spell>,
    pub known_spells: Store<KnownSpells>,
}

/// What entities want to do in this tick.  Each system empties the store
/// that it reads.
pub struct Intents {
    pub melee: Store<WantsToMelee>,
    pub pickup: Store<WantsToPickupItem>,
    pub drop_item: Store<WantsToDropItem>,
    pub use_item: Store<WantsToUseItem>,
    pub drink: Store<WantsToDrinkPotion>,
    pub remove_item: Store<WantsToRemoveItem>,
}

/// The whole game state.
pub struct World {
    pub entities: Entities,
    pub player: Entity,
    pub player_pos: Position,
    pub run_state: RunState,
    pub map: TileMap,
    pub log: GameLog,
    pub kinds: Kinds,
    pub intents: Intents,
    pub positions: Store<Position>,
    pub viewsheds: Store<Viewshed>,
    pub combat_stats: Store<CombatStats>,
    pub magic_stats: Store<MagicStats>,
    pub suffer_damage: Store<SufferDamage>,
    pub confused: Store<Confusion>,
    pub in_backpack: Store<InBackpack>,
    pub equipped: Store<Equipped>,
}

/// What an entity is called: its name, or `something` if it has none.
pub open spec fn name_of(names: Map<Entity, Name>, e: Entity) -> Seq<char> {
    if names.dom().contains(e) {
        names[e].name@
    } else {
        "something"@
    }
}

/// The damage that waits for each entity, as plain sequences.
pub open spec fn pending_damage(store: Map<Entity, SufferDamage>) -> Map<Entity, Seq<i32>> {
    Map::new(|e: Entity| store.dom().contains(e), |e: Entity| store[e].amount@)
}

impl Kinds {
    /// No entity is of any kind.
    pub open spec fn is_empty(&self) -> bool {
        &&& self.names@ == Map::<Entity, Name>::empty()
        &&& self.players@ == Map::<Entity, Player>::empty()
        &&& self.monsters@ == Map::<Entity, Monster>::empty()
        &&& self.items@ == Map::<Entity, Item>::empty()
        &&& self.blocks_tile@ == Map::<Entity, BlocksTile>::empty()
        &&& self.renderables@ == Map::<Entity, Renderable>::empty()
        &&& self.consumables@ == Map::<Entity, Consumable>::empty()
        &&& self.provides_healing@ == Map::<Entity, ProvidesHealing>::empty()
        &&& self.inflicts_damage@ == Map::<Entity, InflictsDamage>::empty()
        &&& self.area_of_effect@ == Map::<Entity, AreaOfEffect>::empty()
        &&& self.destroys_walls@ == Map::<Entity, DestroysWalls>::empty()
        &&& self.equippable@ == Map::<Entity, Equippable>::empty()
        &&& self.spells@ == Map::<Entity, Spell>::empty()
        &&& self.known_spells@ == Map::<Entity, KnownSpells>::empty()
    }

    /// No kinds at all.
    pub fn new() -> (k: Kinds)
        ensures
            k.is_empty(),
    {
        Kinds {
            names: Store::new(),
            players: Store::new(),
            monsters: Store::new(),
            items: Store::new(),
            blocks_tile: Store::new(),
            renderables: Store::new(),
            consumables: Store::new(),
            provides_healing: Store::new(),
            inflicts_damage: Store::new(),
            area_of_effect: Store::new(),
            destroys_walls: Store::new(),
            equippable: Store::new(),
            spells: Store::new(),
            known_spells: Store::new(),
        }
    }
}

impl Kinds {
    /// These fragments are those of `before` without the fragments of
    /// deleted entities.
    pub open spec fn purged_from(&self, before: &Kinds, entities: Entities) -> bool {
        &&& self.names@ == without_gone(before.names@, entities)
        &&& self.players@ == without_gone(before.players@, entities)
        &&& self.monsters@ == without_gone(before.monsters@, entities)
        &&& self.items@ == without_gone(before.items@, entities)
        &&& self.blocks_tile@ == without_gone(before.blocks_tile@, entities)
        &&& self.renderables@ == without_gone(before.renderables@, entities)
        &&& self.consumables@ == without_gone(before.consumables@, entities)
        &&& self.provides_healing@ == without_gone(before.provides_healing@, entities)
        &&& self.inflicts_damage@ == without_gone(before.inflicts_damage@, entities)
        &&& self.area_of_effect@ == without_gone(before.area_of_effect@, entities)
        &&& self.destroys_walls@ == without_gone(before.destroys_walls@, entities)
        &&& self.equippable@ == without_gone(before.equippable@, entities)
        &&& self.spells@ == without_gone(before.spells@, entities)
        &&& self.known_spells@ == without_gone(before.known_spells@, entities)
    }

    /// Detaches the fragments of deleted entities.
    pub fn purge(&mut self, entities: &Entities)
        ensures
            final(self).purged_from(old(self), *entities),
    {
        self.names.purge(entities);
        self.players.purge(entities);
        self.monsters.purge(entities);
        self.items.purge(entities);
        self.blocks_tile.purge(entities);
        self.renderables.purge(entities);
        self.consumables.purge(entities);
        self.provides_healing.purge(entities);
        self.inflicts_damage.purge(entities);
        self.area_of_effect.purge(entities);
        self.destroys_walls.purge(entities);
        self.equippable.purge(entities);
        self.spells.purge(entities);
        self.known_spells.purge(entities);
    }
}

impl Intents {
    /// These intents are those of `before` without the intents of deleted
    /// entities.
    pub open spec fn purged_from(&self, before: &Intents, entities: Entities) -> bool {
        &&& self.melee@ == without_gone(before.melee@, entities)
        &&& self.pickup@ == without_gone(before.pickup@, entities)
        &&& self.drop_item@ == without_gone(before.drop_item@, entities)
        &&& self.use_item@ == without_gone(before.use_item@, entities)
        &&& self.drink@ == without_gone(before.drink@, entities)
        &&& self.remove_item@ == without_gone(before.remove_item@, entities)
    }

    /// Detaches the intents of deleted entities.
    pub fn purge(&mut self, entities: &Entities)
        ensures
            final(self).purged_from(old(self), *entities),
    {
        self.melee.purge(entities);
        self.pickup.purge(entities);
        self.drop_item.purge(entities);
        self.use_item.purge(entities);
        self.drink.purge(entities);
        self.remove_item.purge(entities);
    }

    /// No entity wants anything.
    pub open spec fn is_empty(&self) -> bool {
        &&& self.melee@ == Map::<Entity, WantsToMelee>::empty()
        &&& self.pickup@ == Map::<Entity, WantsToPickupItem>::empty()
        &&& self.drop_item@ == Map::<Entity, WantsToDropItem>::empty()
        &&& self.use_item@ == Map::<Entity, WantsToUseItem>::empty()
        &&& self.drink@ == Map::<Entity, WantsToDrinkPotion>::empty()
        &&& self.remove_item@ == Map::<Entity, WantsToRemoveItem>::empty()
    }

    /// No wishes at all.
    pub fn new() -> (i: Intents)
        ensures
            i.is_empty(),
    {
        Intents {
            melee: Store::new(),
            pickup: Store::new(),
            drop_item: Store::new(),
            use_item: Store::new(),
            drink: Store::new(),
            remove_item: Store::new(),
        }
    }
}

impl World {
    /// The level is well formed, every pool of hit points or mana lies
    /// within its bounds, and everything that has a place stands on a tile.
    pub open spec fn wf(&self) -> bool {
        &&& self.map.wf()
        &&& on_map(self.player_pos.x as int, self.player_pos.y as int)
        &&& forall|e: Entity| #[trigger]
            self.combat_stats@.dom().contains(e) ==> self.combat_stats@[e].wf()
        &&& forall|e: Entity| #[trigger]
            self.magic_stats@.dom().contains(e) ==> self.magic_stats@[e].wf()
        &&& forall|e: Entity| #[trigger]
            self.positions@.dom().contains(e) ==> on_map(
                self.positions@[e].x as int,
                self.positions@[e].y as int,
            )
    }

    /// Whether the world is well formed.
    pub fn check(&self) -> (ok: bool)
        ensures
            ok == self.wf(),
    {
        if !self.map.check() || !self.map.in_bounds(self.player_pos.x, self.player_pos.y) {
            return false;
        }
        let mut id: usize = 0;
        let n = self.combat_stats.bound();
        while id < n
            invariant
                0 <= id <= n == self.combat_stats.slots.len(),
                forall|e: Entity|
                    e.id < id && #[trigger] self.combat_stats@.dom().contains(e)
                        ==> self.combat_stats@[e].wf(),
            decreases n - id,
        {
            match self.combat_stats.get(Entity { id }) {
                Some(stats) => {
                    if !(0 <= stats.hp && stats.hp <= stats.max_hp) {
                        return false;
                    }
                },
                None => {},
            }
            id = id + 1;
        }
        let mut id: usize = 0;
        let n = self.magic_stats.bound();
        while id < n
            invariant
                0 <= id <= n == self.magic_stats.slots.len(),
                forall|e: Entity|
                    e.id < id && #[trigger] self.magic_stats@.dom().contains(e)
                        ==> self.magic_stats@[e].wf(),
            decreases n - id,
        {
            match self.magic_stats.get(Entity { id }) {
                Some(stats) => {
                    if !(0 <= stats.mana && stats.mana <= stats.max_mana) {
                        return false;
                    }
                },
                None => {},
            }
            id = id + 1;
        }
        let mut id: usize = 0;
        let n = self.positions.bound();
        while id < n
            invariant
                0 <= id <= n == self.positions.slots.len(),
                forall|e: Entity|
                    e.id < id && #[trigger] self.positions@.dom().contains(e) ==> on_map(
                        self.positions@[e].x as int,
                        self.positions@[e].y as int,
                    ),
            decreases n - id,
        {
            match self.positions.get(Entity { id }) {
                Some(p) => {
                    if !self.map.in_bounds(p.x, p.y) {
                        return false;
                    }
                },
                None => {},
            }
            id = id + 1;
        }
        true
    }

    /// This is the world without entities on the level `map`, before its
    /// first tick.  The player will be the first entity that is made.
    pub open spec fn is_new(&self, map: TileMap) -> bool {
        &&& self.map == map
        &&& self.run_state == RunState::PreRun
        &&& self.player == (Entity { id: 0 })
        &&& self.player_pos == (Position { x: 0, y: 0 })
        &&& self.log@ == Seq::<Seq<char>>::empty()
        &&& self.intents.is_empty()
        &&& self.kinds.is_empty()
        &&& self.entities.alive@ == Seq::<bool>::empty()
        &&& self.positions@ == Map::<Entity, Position>::empty()
        &&& self.viewsheds@ == Map::<Entity, Viewshed>::empty()
        &&& self.combat_stats@ == Map::<Entity, CombatStats>::empty()
        &&& self.magic_stats@ == Map::<Entity, MagicStats>::empty()
        &&& self.suffer_damage@ == Map::<Entity, SufferDamage>::empty()
        &&& self.confused@ == Map::<Entity, Confusion>::empty()
        &&& self.in_backpack@ == Map::<Entity, InBackpack>::empty()
        &&& self.equipped@ == Map::<Entity, Equipped>::empty()
    }

    /// A world without entities on the level `map`, waiting for its first
    /// tick.
    pub fn new(map: TileMap) -> (w: World)
        requires
            map.wf(),
        ensures
            w.wf(),
            w.is_new(map),
    {
        World {
            entities: Entities::new(),
            player: Entity { id: 0 },
            player_pos: Position { x: 0, y: 0 },
            run_state: RunState::PreRun,
            map,
            log: GameLog::new(),
            kinds: Kinds::new(),
            intents: Intents::new(),
            positions: Store::new(),
            viewsheds: Store::new(),
            combat_stats: Store::new(),
            magic_stats: Store::new(),
            suffer_damage: Store::new(),
            confused: Store::new(),
            in_backpack: Store::new(),
            equipped: Store::new(),
        }
    }

    /// This world is `before` without the fragments of deleted entities.
    pub open spec fn purged_from(&self, before: &World) -> bool {
        let entities = before.entities;
        &&& self.entities == before.entities
        &&& self.player == before.player
        &&& self.player_pos == before.player_pos
        &&& self.run_state == before.run_state
        &&& self.map == before.map
        &&& self.log == before.log
        &&& self.kinds.purged_from(&before.kinds, entities)
        &&& self.intents.purged_from(&before.intents, entities)
        &&& self.positions@ == without_gone(before.positions@, entities)
        &&& self.viewsheds@ == without_gone(before.viewsheds@, entities)
        &&& self.combat_stats@ == without_gone(before.combat_stats@, entities)
        &&& self.magic_stats@ == without_gone(before.magic_stats@, entities)
        &&& self.suffer_damage@ == without_gone(before.suffer_damage@, entities)
        &&& self.confused@ == without_gone(before.confused@, entities)
        &&& self.in_backpack@ == without_gone(before.in_backpack@, entities)
        &&& self.equipped@ == without_gone(before.equipped@, entities)
    }

    /// Detaches every fragment of every deleted entity.
    pub fn maintain(&mut self)
        ensures
            final(self).purged_from(old(self)),
            old(self).wf() ==> final(self).wf(),
    {
        self.kinds.purge(&self.entities);
        self.intents.purge(&self.entities);
        self.positions.purge(&self.entities);
        self.viewsheds.purge(&self.entities);
        self.combat_stats.purge(&self.entities);
        self.magic_stats.purge(&self.entities);
        self.suffer_damage.purge(&self.entities);
        self.confused.purge(&self.entities);
        self.in_backpack.purge(&self.entities);
        self.equipped.purge(&self.entities);
    }

    /// Makes a fresh entity without fragments.
    pub fn create_entity(&mut self) -> (e: Entity)
        ensures
            e.id == old(self).entities.alive.len(),
            final(self).entities.alive@ == old(self).entities.alive@.push(true),
            *final(self) == (World { entities: final(self).entities, ..*old(self) }),
    {
        self.entities.create()
    }
}

} // verus!
