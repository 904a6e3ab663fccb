//! Applies the damage that waits and clears away the dead.

use crate::components::{CombatStats, SufferDamage};
use crate::run_state::RunState;
use crate::store::Entity;
use crate::world::{pending_damage, World};
use vstd::prelude::*;

verus! {

/// The sum of `amounts`.
pub open spec fn total(amounts: Seq<i32>) -> int
    decreases amounts.len(),
{
    if amounts.len() == 0 {
        0
    } else {
        total(amounts.drop_last()) + amounts.last()
    }
}

proof fn lemma_total_bounds(amounts: Seq<i32>)
    ensures
        -0x8000_0000 * amounts.len() <= total(amounts) <= 0x8000_0000 * amounts.len(),
    decreases amounts.len(),
{
    if amounts.len() > 0 {
        lemma_total_bounds(amounts.drop_last());
    }
}

/// Sums `amounts` without overflow.
pub fn sum_of(amounts: &Vec<i32>) -> (sum: i128)
    ensures
        sum == total(amounts@),
{
    let mut sum: i128 = 0;
    let mut i: usize = 0;
    assert(amounts@.take(0) =~= Seq::empty());
    while i < amounts.len()
        invariant
            0 <= i <= amounts.len(),
            sum == total(amounts@.take(i as int)),
        decreases amounts.len() - i,
    {
        proof {
            lemma_total_bounds(amounts@.take(i as int));
            assert(amounts@.take(i as int + 1).drop_last() =~= amounts@.take(i as int));
        }
        sum = sum + amounts[i] as i128;
        i = i + 1;
    }
    assert(amounts@.take(amounts.len() as int) =~= amounts@);
    sum
}

/// The combat stats after each of the first `bound` entities has lost what
/// waited for it: its hit points fall by the sum and stop at zero.
pub open spec fn after_damage(
    stats: Map<Entity, CombatStats>,
    pending: Map<Entity, Seq<i32>>,
    bound: nat,
) -> Map<Entity, CombatStats> {
    Map::new(
        |e: Entity| stats.dom().contains(e),
        |e: Entity|
            if e.id < bound && pending.dom().contains(e) {
                stats[e].hurt(total(pending[e]))
            } else {
                stats[e]
            },
    )
}

/// Damage keeps hit points within their bounds: whatever waited, nobody
/// ends below zero or above the maximum.
pub proof fn lemma_damage_keeps_bounds(
    stats: Map<Entity, CombatStats>,
    pending: Map<Entity, Seq<i32>>,
    bound: nat,
    e: Entity,
)
    requires
        stats.dom().contains(e),
        stats[e].wf(),
    ensures
        after_damage(stats, pending, bound).dom().contains(e),
        after_damage(stats, pending, bound)[e].wf(),
        after_damage(stats, pending, bound)[e].max_hp == stats[e].max_hp,
        after_damage(stats, pending, bound)[e].hp <= stats[e].hp || total(pending[e]) < 0,
{
}

/// `after` is `before` with the waiting damage applied and none left
/// waiting.
pub open spec fn harmed(before: &World, after: &World) -> bool {
    &&& after.combat_stats@ == after_damage(
        before.combat_stats@,
        pending_damage(before.suffer_damage@),
        before.entities.alive.len() as nat,
    )
    &&& after.suffer_damage@ == Map::<Entity, SufferDamage>::empty()
    &&& *after == (World {
        combat_stats: after.combat_stats,
        suffer_damage: after.suffer_damage,
        ..*before
    })
}

/// Applies the waiting damage.
pub struct DamageSystem {}

impl DamageSystem {
    /// Takes from everyone the hit points that the waiting damage costs.
    pub fn run(&mut self, world: &mut World)
        requires
            old(world).wf(),
        ensures
            harmed(old(world), final(world)),
            final(world).wf(),
    {
        let bound = world.entities.bound();
        let mut id: usize = 0;
        assert(world.combat_stats@ =~= after_damage(
            old(world).combat_stats@,
            pending_damage(old(world).suffer_damage@),
            0,
        ));
        while id < bound
            invariant
                0 <= id <= bound == old(world).entities.alive.len(),
                old(world).wf(),
                world.combat_stats@ == after_damage(
                    old(world).combat_stats@,
                    pending_damage(old(world).suffer_damage@),
                    id as nat,
                ),
                *world == (World { combat_stats: world.combat_stats, ..*old(world) }),
            decreases bound - id,
        {
            let e = Entity { id };
            let stats = match world.combat_stats.get(e) {
                Some(s) => Some(*s),
                None => None,
            };
            match stats {
                Some(stats) => {
                    let mut stats = stats;
                    match world.suffer_damage.get(e) {
                        Some(damage) => {
                            assert(old(world).combat_stats@.dom().contains(e));
                            assert(stats == old(world).combat_stats@[e]);
                            stats.suffer(sum_of(&damage.amount));
                            world.combat_stats.insert(e, stats);
                        },
                        None => {},
                    }
                },
                None => {},
            }
            assert(world.combat_stats@ =~= after_damage(
                old(world).combat_stats@,
                pending_damage(old(world).suffer_damage@),
                (id + 1) as nat,
            ));
            id = id + 1;
        }
        world.suffer_damage.clear();
        assert forall|e: Entity| #[trigger]
            world.combat_stats@.dom().contains(e) implies world.combat_stats@[e].wf() by {
            assert(old(world).combat_stats@.dom().contains(e));
        }
    }
}

/// `e` is one of the first `bound` entities and has no hit points left.
pub open spec fn is_slain(stats: Map<Entity, CombatStats>, bound: nat, e: Entity) -> bool {
    e.id < bound && stats.dom().contains(e) && stats[e].hp < 1
}

/// Who lives after the dead were cleared away: everyone who lived
/// before, but for the slain that are no players.
pub open spec fn survivors(world: &World) -> Seq<bool> {
    Seq::new(
        world.entities.alive.len() as nat,
        |i: int|
            world.entities.alive[i] && !(is_slain(
                world.combat_stats@,
                world.entities.alive.len() as nat,
                Entity { id: i as usize },
            ) && !world.kinds.players@.dom().contains(Entity { id: i as usize })),
    )
}

/// Some player among the entities has no hit points left.
pub open spec fn player_slain(world: &World) -> bool {
    exists|e: Entity| #[trigger]
        is_slain(world.combat_stats@, world.entities.alive.len() as nat, e)
            && world.kinds.players@.dom().contains(e)
}

/// `after` is `before` with the dead cleared away: the slain that are no
/// players are deleted with all their fragments, and a slain player ends
/// the game.
pub open spec fn buried(before: &World, after: &World) -> bool {
    &&& after.purged_from(
        &(World { entities: after.entities, run_state: after.run_state, ..*before }),
    )
    &&& after.entities.alive@ == survivors(before)
    &&& after.run_state == if player_slain(before) {
        RunState::GameOver
    } else {
        before.run_state
    }
}

/// Deletes every entity without hit points, with all its fragments.  A
/// player is not deleted: its death ends the game.
pub fn delete_the_dead(world: &mut World)
    ensures
        buried(old(world), final(world)),
        old(world).wf() ==> final(world).wf(),
{
    let bound = world.entities.bound();
    let mut id: usize = 0;
    let mut player_died = false;
    while id < bound
        invariant
            0 <= id <= bound == old(world).entities.alive.len(),
            world.entities.alive.len() == bound,
            *world == (World { entities: world.entities, ..*old(world) }),
            forall|k: int|
                0 <= k < bound ==> #[trigger] world.entities.alive[k] == if k < id {
                    survivors(old(world))[k]
                } else {
                    old(world).entities.alive[k]
                },
            player_died <==> exists|e: Entity|
                e.id < id && #[trigger] is_slain(old(world).combat_stats@, bound as nat, e)
                    && old(world).kinds.players@.dom().contains(e),
        decreases bound - id,
    {
        let e = Entity { id };
        let slain = match world.combat_stats.get(e) {
            Some(stats) => stats.hp < 1,
            None => false,
        };
        assert(slain == is_slain(old(world).combat_stats@, bound as nat, e));
        let ghost died_before = player_died;
        if slain {
            if world.kinds.players.contains(e) {
                player_died = true;
            } else {
                world.entities.delete(e);
            }
        }
        proof {
            if player_died && !died_before {
                assert(e.id < id + 1 && is_slain(old(world).combat_stats@, bound as nat, e));
            }
            if died_before {
                let w = choose|w: Entity|
                    w.id < id && #[trigger] is_slain(old(world).combat_stats@, bound as nat, w)
                        && old(world).kinds.players@.dom().contains(w);
                assert(w.id < id + 1 && is_slain(old(world).combat_stats@, bound as nat, w));
            }
            if !player_died {
                assert forall|w: Entity|
                    !(w.id < id + 1 && #[trigger] is_slain(
                        old(world).combat_stats@,
                        bound as nat,
                        w,
                    ) && old(world).kinds.players@.dom().contains(w)) by {
                    if w.id < id {
                    } else if w.id == id {
                        assert(w == e);
                    }
                }
            }
        }
        id = id + 1;
    }
    assert(world.entities.alive@ =~= survivors(old(world)));
    if player_died {
        world.run_state = RunState::GameOver;
    }
    world.maintain();
}

} // verus!
