//! Turns the wish to hit into damage that waits for the target.

use crate::components::{clamp, CombatStats, SufferDamage, WantsToMelee};
use crate::item_use::add_damage;
use crate::store::Entity;
use crate::world::{pending_damage, World};
use vstd::prelude::*;

verus! {

/// The damage of a hit: the attack that the defense does not stop, never
/// less than nothing.
pub open spec fn melee_damage(attack: int, defense: int) -> int {
    clamp(attack - defense, 0, i32::MAX as int)
}

/// The damage of a hit with `attack` on a target with `defense`.
pub fn damage_of_hit(attack: i32, defense: i32) -> (damage: i32)
    ensures
        damage == melee_damage(attack as int, defense as int),
{
    let raw: i64 = attack as i64 - defense as i64;
    if raw < 0 {
        0
    } else if raw > 0x7FFF_FFFF {
        0x7FFF_FFFF
    } else {
        raw as i32
    }
}

/// What waits for whom once `attacker` has hit `target`.  A hit counts
/// when both have combat stats and it does damage.
pub open spec fn melee_hit(
    stats: Map<Entity, CombatStats>,
    pending: Map<Entity, Seq<i32>>,
    attacker: Entity,
    target: Entity,
) -> Map<Entity, Seq<i32>> {
    if stats.dom().contains(attacker) && stats.dom().contains(target) && melee_damage(
        stats[attacker].attack as int,
        stats[target].defense as int,
    ) > 0 {
        add_damage(
            pending,
            target,
            melee_damage(stats[attacker].attack as int, stats[target].defense as int) as i32,
        )
    } else {
        pending
    }
}

/// What waits for whom after the hits of the first `n` entities.
pub open spec fn melee_all(
    stats: Map<Entity, CombatStats>,
    pending: Map<Entity, Seq<i32>>,
    intents: Map<Entity, WantsToMelee>,
    n: nat,
) -> Map<Entity, Seq<i32>>
    decreases n,
{
    if n == 0 {
        pending
    } else {
        let before = melee_all(stats, pending, intents, (n - 1) as nat);
        let e = Entity { id: (n - 1) as usize };
        if intents.dom().contains(e) {
            melee_hit(stats, before, e, intents[e].target)
        } else {
            before
        }
    }
}

/// `after` is `before` with every hit carried out: the damage waits for
/// the targets, and nobody wants to hit any more.
pub open spec fn fought(before: &World, after: &World) -> bool {
    &&& pending_damage(after.suffer_damage@) == melee_all(
        before.combat_stats@,
        pending_damage(before.suffer_damage@),
        before.intents.melee@,
        before.entities.alive.len() as nat,
    )
    &&& after.intents.melee@ == Map::<Entity, WantsToMelee>::empty()
    &&& *after == (World {
        suffer_damage: after.suffer_damage,
        intents: crate::world::Intents { melee: after.intents.melee, ..before.intents },
        ..*before
    })
}

/// Carries out the hits.
pub struct MeleeCombatSystem {}

impl MeleeCombatSystem {
    /// Turns every wish to hit into damage that waits for the target.
    pub fn run(&mut self, world: &mut World)
        ensures
            fought(old(world), final(world)),
    {
        let bound = world.entities.bound();
        let mut id: usize = 0;
        while id < bound
            invariant
                0 <= id <= bound == old(world).entities.alive.len(),
                pending_damage(world.suffer_damage@) == melee_all(
                    old(world).combat_stats@,
                    pending_damage(old(world).suffer_damage@),
                    old(world).intents.melee@,
                    id as nat,
                ),
                *world == (World { suffer_damage: world.suffer_damage, ..*old(world) }),
            decreases bound - id,
        {
            let e = Entity { id };
            let intent = match world.intents.melee.get(e) {
                Some(m) => Some(*m),
                None => None,
            };
            match intent {
                Some(wants_melee) => {
                    let attacker = match world.combat_stats.get(e) {
                        Some(s) => Some(*s),
                        None => None,
                    };
                    let defender = match world.combat_stats.get(wants_melee.target) {
                        Some(s) => Some(*s),
                        None => None,
                    };
                    match (attacker, defender) {
                        (Some(stats), Some(target_stats)) => {
                            let damage = damage_of_hit(stats.attack, target_stats.defense);
                            if damage > 0 {
                                SufferDamage::new_damage(
                                    &mut world.suffer_damage,
                                    wants_melee.target,
                                    damage,
                                );
                            }
                        },
                        _ => {},
                    }
                },
                None => {},
            }
            id = id + 1;
        }
        world.intents.melee.clear();
    }
}

} // verus!
