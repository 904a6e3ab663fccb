//! The data fragments that can hang on an entity.

use crate::geometry::Position;
use crate::store::Entity;
use vstd::prelude::*;

verus! {

/// The largest of `lo` and the smallest of `hi` and `v`: `v` pulled into
/// `[lo, hi]`.
pub open spec fn clamp(v: int, lo: int, hi: int) -> int {
    if v < lo {
        lo
    } else if v > hi {
        hi
    } else {
        v
    }
}

/// A colour as red, green and blue in `0..=255`.
#[derive(Clone, Copy, PartialEq, Eq, Structural, Debug)]
pub struct Rgb {
    pub r: u8,
    pub g: u8,
    pub b: u8,
}

/// How an entity is drawn.  Of two entities on one tile the one with the
/// smaller `render_order` is drawn on top.
#[derive(Clone, Copy, PartialEq, Eq, Structural, Debug)]
pub struct Renderable {
    pub glyph: u16,
    pub fg: Rgb,
    pub bg: Rgb,
    pub render_order: i32,
}

/// Marks the entity that the person at the keyboard steers.
#[derive(Clone, Copy, PartialEq, Eq, Structural, Debug)]
pub struct Player {}

/// Marks an entity that the monster rules steer.
#[derive(Clone, Copy, PartialEq, Eq, Structural, Debug)]
pub struct Monster {}

/// Marks an entity that nothing can walk through.
#[derive(Clone, Copy, PartialEq, Eq, Structural, Debug)]
pub struct BlocksTile {}

/// Marks an entity that can be picked up.
#[derive(Clone, Copy, PartialEq, Eq, Structural, Debug)]
pub struct Item {}

/// Marks an item that is destroyed when it has had an effect.
#[derive(Clone, Copy, PartialEq, Eq, Structural, Debug)]
pub struct Consumable {}

/// Marks an item that turns the walls in its blast into floor.
#[derive(Clone, Copy, PartialEq, Eq, Structural, Debug)]
pub struct DestroysWalls {}

/// What an entity is called in messages and tooltips.
#[derive(Clone, PartialEq, Eq, Debug)]
pub struct Name {
    pub name: String,
}

/// The tiles an entity sees.  `dirty` asks for them to be computed anew.
#[derive(Clone, PartialEq, Eq, Debug)]
pub struct Viewshed {
    pub visible_tiles: Vec<Position>,
    pub range: i32,
    pub dirty: bool,
}

/// Hit points and the two numbers that melee compares.
#[derive(Clone, Copy, PartialEq, Eq, Structural, Debug)]
pub struct CombatStats {
    pub max_hp: i32,
    pub hp: i32,
    pub defense: i32,
    pub attack: i32,
}

impl CombatStats {
    /// Hit points lie between nothing and the maximum.
    pub open spec fn wf(&self) -> bool {
        0 <= self.hp <= self.max_hp
    }

    /// These stats with `amount` added to the hit points, kept in
    /// `[0, max_hp]`.
    pub open spec fn healed(self, amount: int) -> CombatStats {
        CombatStats { hp: clamp(self.hp + amount, 0, self.max_hp as int) as i32, ..self }
    }

    /// These stats with `amount` taken from the hit points, kept in
    /// `[0, max_hp]`.
    pub open spec fn hurt(self, amount: int) -> CombatStats {
        self.healed(-amount)
    }

    /// Adds `amount` hit points, stopping at the maximum.
    pub fn heal(&mut self, amount: i32)
        requires
            old(self).wf(),
        ensures
            *final(self) == old(self).healed(amount as int),
            final(self).wf(),
    {
        let sum: i64 = self.hp as i64 + amount as i64;
        if sum < 0 {
            self.hp = 0;
        } else if sum > self.max_hp as i64 {
            self.hp = self.max_hp;
        } else {
            self.hp = sum as i32;
        }
    }

    /// Takes `amount` hit points, stopping at zero.
    pub fn suffer(&mut self, amount: i128)
        requires
            old(self).wf(),
        ensures
            *final(self) == old(self).hurt(amount as int),
            final(self).wf(),
    {
        if amount >= self.hp as i128 {
            self.hp = 0;
        } else if amount <= self.hp as i128 - self.max_hp as i128 {
            self.hp = self.max_hp;
        } else {
            self.hp = (self.hp as i128 - amount) as i32;
        }
    }
}

/// The mana pool of a spell caster.
#[derive(Clone, Copy, PartialEq, Eq, Structural, Debug)]
pub struct MagicStats {
    pub max_mana: i32,
    pub mana: i32,
}

impl MagicStats {
    /// Mana lies between nothing and the maximum.
    pub open spec fn wf(&self) -> bool {
        0 <= self.mana <= self.max_mana
    }

    /// These stats with `cost` taken from the mana, kept in `[0, max_mana]`.
    pub open spec fn spent(self, cost: int) -> MagicStats {
        MagicStats { mana: clamp(self.mana - cost, 0, self.max_mana as int) as i32, ..self }
    }

    /// Pays `cost` mana, stopping at zero.
    pub fn spend(&mut self, cost: i32)
        requires
            old(self).wf(),
        ensures
            *final(self) == old(self).spent(cost as int),
            final(self).wf(),
    {
        let rest: i64 = self.mana as i64 - cost as i64;
        if rest < 0 {
            self.mana = 0;
        } else if rest > self.max_mana as i64 {
            self.mana = self.max_mana;
        } else {
            self.mana = rest as i32;
        }
    }
}

/// Damage that waits to be applied to its owner in this tick.
#[derive(Clone, PartialEq, Eq, Debug)]
pub struct SufferDamage {
    pub amount: Vec<i32>,
}

/// The owner wants to hit `target`.
#[derive(Clone, Copy, PartialEq, Eq, Structural, Debug)]
pub struct WantsToMelee {
    pub target: Entity,
}

/// `collected_by` wants to pick `item` up.
#[derive(Clone, Copy, PartialEq, Eq, Structural, Debug)]
pub struct WantsToPickupItem {
    pub collected_by: Entity,
    pub item: Entity,
}

/// The owner wants to put `item` down where it stands.
#[derive(Clone, Copy, PartialEq, Eq, Structural, Debug)]
pub struct WantsToDropItem {
    pub item: Entity,
}

/// The owner wants to use `item`, on itself or on the tile `target`.
#[derive(Clone, Copy, PartialEq, Eq, Structural, Debug)]
pub struct WantsToUseItem {
    pub item: Entity,
    pub target: Option<Position>,
}

/// The owner wants to drink `potion`.
#[derive(Clone, Copy, PartialEq, Eq, Structural, Debug)]
pub struct WantsToDrinkPotion {
    pub potion: Entity,
}

/// The owner wants to take off `item`.
#[derive(Clone, Copy, PartialEq, Eq, Structural, Debug)]
pub struct WantsToRemoveItem {
    pub item: Entity,
}

/// The item lies in the pack of `owner`.
#[derive(Clone, Copy, PartialEq, Eq, Structural, Debug)]
pub struct InBackpack {
    pub owner: Entity,
}

/// Where a piece of equipment is worn.
#[derive(Clone, Copy, PartialEq, Eq, Structural, Debug)]
pub enum EquipmentSlot {
    Melee,
    Shield,
}

/// The item can be worn in `slot`.
#[derive(Clone, Copy, PartialEq, Eq, Structural, Debug)]
pub struct Equippable {
    pub slot: EquipmentSlot,
}

/// The item is worn by `owner` in `slot`.
#[derive(Clone, Copy, PartialEq, Eq, Structural, Debug)]
pub struct Equipped {
    pub owner: Entity,
    pub slot: EquipmentSlot,
}

/// The item gives `heal_amount` hit points to whom it is used on.
#[derive(Clone, Copy, PartialEq, Eq, Structural, Debug)]
pub struct ProvidesHealing {
    pub heal_amount: i32,
}

/// The item deals `damage` to whom it is used on.
#[derive(Clone, Copy, PartialEq, Eq, Structural, Debug)]
pub struct InflictsDamage {
    pub damage: i32,
}

/// The item reaches every tile within `radius` of its target.
#[derive(Clone, Copy, PartialEq, Eq, Structural, Debug)]
pub struct AreaOfEffect {
    pub radius: i32,
}

/// On an item: it confuses its targets for `duration` turns.  On anything
/// else: the entity is confused for `duration` more turns.
#[derive(Clone, Copy, PartialEq, Eq, Structural, Debug)]
pub struct Confusion {
    pub duration: i32,
}

/// The entity is a spell: it can be cast at tiles within `range` for
/// `mana_cost` mana.
#[derive(Clone, PartialEq, Eq, Debug)]
pub struct Spell {
    pub name: String,
    pub range: i32,
    pub mana_cost: i32,
}

/// A spell as the caster knows it: what the side panel lists.
#[derive(Clone, PartialEq, Eq, Debug)]
pub struct KnownSpell {
    pub name: String,
    pub mana_cost: i32,
    pub components: Vec<String>,
}

/// The spells an entity can cast, by slot.
#[derive(Clone, PartialEq, Eq, Debug)]
pub struct KnownSpells {
    pub spells: Vec<KnownSpell>,
}

} // verus!
