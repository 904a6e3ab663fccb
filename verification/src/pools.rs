//! Hit points and mana stay within their bounds, and no maximum ever
//! changes: through every system, through the run of all of them, and
//! through the tick.

use crate::components::{CombatStats, MagicStats, WantsToDrinkPotion, WantsToUseItem};
use crate::damage_system::{after_damage, harmed};
use crate::fresh_index::{
    lemma_no_drinks, lemma_no_pickups, lemma_no_uses, no_item_wishes, steps_of,
};
use crate::inventory_system::{
    collected, drink_all, dropped, drunk, taken_off, use_all, used, Drinking,
};
use crate::item_use::{heal_targets, use_item_spec, Effects};
use crate::map_indexing_system::reindexed;
use crate::melee_combat_system::{fought, melee_all};
use crate::monster_ai_system::{followed, passed, PathRequest};
use crate::state::{concluded, continued, finished, ran, resumed, turn_ended, State};
use crate::store::Entity;
use crate::visibility_system::saw;
use crate::world::{pending_damage, Kinds, World};
use vstd::prelude::*;

verus! {

/// Whoever has hit points in `after` had them in `before`, with the same
/// maximum, and is within bounds if it was.
pub open spec fn stats_kept(before: Map<Entity, CombatStats>, after: Map<Entity, CombatStats>)
    -> bool {
    forall|e: Entity| #[trigger]
        after.dom().contains(e) ==> {
            &&& before.dom().contains(e)
            &&& after[e].max_hp == before[e].max_hp
            &&& before[e].wf() ==> after[e].wf()
        }
}

/// Whoever has mana in `after` had it in `before`, with the same maximum,
/// and is within bounds if it was.
pub open spec fn mana_kept(before: Map<Entity, MagicStats>, after: Map<Entity, MagicStats>)
    -> bool {
    forall|e: Entity| #[trigger]
        after.dom().contains(e) ==> {
            &&& before.dom().contains(e)
            &&& after[e].max_mana == before[e].max_mana
            &&& before[e].wf() ==> after[e].wf()
        }
}

/// The pools of `after` are those of `before`, with their maxima, and
/// within their bounds where they were.
pub open spec fn pools_kept(before: &World, after: &World) -> bool {
    stats_kept(before.combat_stats@, after.combat_stats@) && mana_kept(
        before.magic_stats@,
        after.magic_stats@,
    )
}

/// Healing keeps every pool of hit points.
pub proof fn lemma_heal_keeps_pools(
    stats: Map<Entity, CombatStats>,
    targets: Seq<Entity>,
    amount: int,
)
    ensures
        stats_kept(stats, heal_targets(stats, targets, amount)),
    decreases targets.len(),
{
    if targets.len() > 0 {
        lemma_heal_keeps_pools(stats, targets.drop_last(), amount);
    }
}

/// One use keeps every pool.
pub proof fn lemma_use_keeps_pools(
    kinds: Kinds,
    content: Seq<Vec<Entity>>,
    player: Entity,
    fx: Effects,
    user: Entity,
    intent: WantsToUseItem,
)
    ensures
        stats_kept(fx.stats, use_item_spec(kinds, content, player, fx, user, intent).stats),
        mana_kept(fx.magic, use_item_spec(kinds, content, player, fx, user, intent).magic),
{
    let after = use_item_spec(kinds, content, player, fx, user, intent);
    let targets = crate::item_use::resolve_targets(
        content,
        kinds.area_of_effect.lookup(intent.item),
        user,
        intent.target,
    );
    if kinds.provides_healing@.dom().contains(intent.item) {
        lemma_heal_keeps_pools(
            fx.stats,
            targets,
            kinds.provides_healing@[intent.item].heal_amount as int,
        );
    }
}

/// A round of uses keeps every pool.
pub proof fn lemma_using_keeps_pools(
    kinds: Kinds,
    content: Seq<Vec<Entity>>,
    player: Entity,
    fx: Effects,
    intents: Map<Entity, WantsToUseItem>,
    n: nat,
)
    ensures
        stats_kept(fx.stats, use_all(kinds, content, player, fx, intents, n).stats),
        mana_kept(fx.magic, use_all(kinds, content, player, fx, intents, n).magic),
    decreases n,
{
    if n > 0 {
        lemma_using_keeps_pools(kinds, content, player, fx, intents, (n - 1) as nat);
        let before = use_all(kinds, content, player, fx, intents, (n - 1) as nat);
        let e = Entity { id: (n - 1) as usize };
        if intents.dom().contains(e) {
            lemma_use_keeps_pools(kinds, content, player, before, e, intents[e]);
        }
    }
}

/// A round of drinks keeps every pool of hit points.
pub proof fn lemma_drinking_keeps_pools(
    kinds: Kinds,
    player: Entity,
    d: Drinking,
    intents: Map<Entity, WantsToDrinkPotion>,
    n: nat,
)
    ensures
        stats_kept(d.stats, drink_all(kinds, player, d, intents, n).stats),
    decreases n,
{
    if n > 0 {
        lemma_drinking_keeps_pools(kinds, player, d, intents, (n - 1) as nat);
    }
}

/// The rest of the systems keep every pool: however much damage waited
/// and whatever was used, nobody ends outside its bounds and no maximum
/// has changed.
pub proof fn lemma_concluded_keeps_pools(before: &World, after: &World)
    requires
        concluded(before, after),
    ensures
        pools_kept(before, after),
{
    let (w1, w2, w3, w4, w5, w6, w7, w8) = choose|
        w1: World,
        w2: World,
        w3: World,
        w4: World,
        w5: World,
        w6: World,
        w7: World,
        w8: World,
    |
        {
            &&& #[trigger] reindexed(before, &w1)
            &&& #[trigger] fought(&w1, &w2)
            &&& #[trigger] harmed(&w2, &w3)
            &&& #[trigger] collected(&w3, &w4)
            &&& #[trigger] used(&w4, &w5)
            &&& #[trigger] drunk(&w5, &w6)
            &&& #[trigger] dropped(&w6, &w7)
            &&& #[trigger] taken_off(&w7, &w8)
            &&& after.purged_from(&w8)
        };
    assert(pools_kept(before, &w2));
    assert(pools_kept(&w2, &w3));
    assert(pools_kept(&w3, &w4));
    lemma_using_keeps_pools(
        w4.kinds,
        w4.map.tile_content@,
        w4.player,
        w4.effects(),
        w4.intents.use_item@,
        w4.entities.alive.len() as nat,
    );
    assert(pools_kept(&w4, &w5));
    lemma_drinking_keeps_pools(
        w5.kinds,
        w5.player,
        w5.drinking(),
        w5.intents.drink@,
        w5.entities.alive.len() as nat,
    );
    assert(pools_kept(&w5, &w6));
    assert(pools_kept(&w6, &w8));
    assert(pools_kept(&w8, after));
}

/// The rest of the systems take from everyone exactly what the hits of
/// this run and the damage that waited before it add up to, where nobody
/// wished for an item: the hits on one target are summed, none is lost,
/// and who falls to no hit points stands there with none.
pub proof fn lemma_concluded_sums_the_hits(before: &World, after: &World, e: Entity)
    requires
        concluded(before, after),
        no_item_wishes(before),
        before.combat_stats@.dom().contains(e),
        !before.entities.is_gone(e),
    ensures
        after.combat_stats@.dom().contains(e),
        after.combat_stats@[e] == after_damage(
            before.combat_stats@,
            melee_all(
                before.combat_stats@,
                pending_damage(before.suffer_damage@),
                before.intents.melee@,
                before.entities.alive.len() as nat,
            ),
            before.entities.alive.len() as nat,
        )[e],
{
    let (w1, w2, w3, w4, w5, w6, w7, w8) = steps_of(before, after);
    let n = before.entities.alive.len() as nat;
    lemma_no_pickups(w3.holdings(), n);
    lemma_no_uses(w4.kinds, w4.map.tile_content@, w4.player, w4.effects(), n);
    lemma_no_drinks(w5.kinds, w5.player, w5.drinking(), n);
    assert(w4.entities.alive@ == before.entities.alive@);
    assert(w5.effects() == w4.effects());
    assert(w5.entities.alive@ == before.entities.alive@);
    assert(w6.drinking() == w5.drinking());
    assert(w8.entities.alive@ == before.entities.alive@);
    assert(w8.combat_stats@ == w3.combat_stats@);
    assert(!w8.entities.is_gone(e));
}

/// The monsters' turn and what follows it keep every pool.
pub proof fn lemma_continued_keeps_pools(
    before: &World,
    after: &State,
    from: nat,
    request: Option<PathRequest>,
)
    requires
        continued(before, after, from, request),
    ensures
        pools_kept(before, &after.ecs),
{
    let w = choose|w: World| #[trigger]
        passed(before, &w, from, request) && after.waiting == request && match request {
            Some(_) => after.ecs == w,
            None => concluded(&w, &after.ecs),
        };
    assert(pools_kept(before, &w));
    if request is None {
        lemma_concluded_keeps_pools(&w, &after.ecs);
    }
}

/// A run of the systems keeps every pool.
pub proof fn lemma_run_keeps_pools(before: &World, after: &State, request: Option<PathRequest>)
    requires
        ran(before, after, request),
    ensures
        pools_kept(before, &after.ecs),
{
    let w = choose|w: World| #[trigger] saw(before, &w) && continued(&w, after, 0, request);
    lemma_continued_keeps_pools(&w, after, 0, request);
}

/// A run of the systems that goes on after a monster's step keeps every
/// pool.
pub proof fn lemma_resumed_keeps_pools(
    before: &World,
    monster: Entity,
    steps: Seq<usize>,
    after: &State,
    request: Option<PathRequest>,
)
    requires
        resumed(before, monster, steps, after, request),
    ensures
        pools_kept(before, &after.ecs),
{
    let w = choose|w: World| #[trigger]
        followed(before, &w, monster, steps) && continued(
            &w,
            after,
            (monster.id + 1) as nat,
            request,
        );
    assert(pools_kept(before, &w));
    lemma_continued_keeps_pools(&w, after, (monster.id + 1) as nat, request);
}

/// The end of the turn keeps the pools of all who stay.
pub proof fn lemma_turn_end_keeps_pools(before: &World, after: &World)
    requires
        turn_ended(before, after),
    ensures
        pools_kept(before, after),
{
}

/// What the tick does after the run of the systems keeps every pool.
pub proof fn lemma_finished_keeps_pools(
    mid: &State,
    after: &State,
    request: Option<PathRequest>,
)
    requires
        finished(mid, after, request),
    ensures
        pools_kept(&mid.ecs, &after.ecs),
{
    if request is None {
        lemma_turn_end_keeps_pools(&mid.ecs, &after.ecs);
    }
}

} // verus!
