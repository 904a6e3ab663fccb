//! When the index is fresh: after a run of the systems it names who
//! stands where, and a second run with nothing to do leaves it as it is.

use crate::components::{
    WantsToDrinkPotion, WantsToDropItem, WantsToPickupItem, WantsToRemoveItem, WantsToUseItem,
};
use crate::damage_system::harmed;
use crate::inventory_system::{
    collect_all, collected, drink_all, drop_all, dropped, drunk, remove_all, taken_off, use_all,
    used, Drinking, Holdings,
};
use crate::item_use::{use_item_spec, Effects};
use crate::map::{TileMap, TILE_COUNT};
use crate::map_indexing_system::{blocker_on, is_index_of, reindexed, stands_on};
use crate::melee_combat_system::fought;
use crate::monster_ai_system::{next_chaser, passed, plan_of, MonsterPlan, PathRequest};
use crate::state::{concluded, continued, ran, turn_ended, State};
use crate::store::Entity;
use crate::visibility_system::{looks, saw};
use crate::world::{Kinds, World};
use vstd::prelude::*;

verus! {

/// Nobody wants to pick up, use, drink or drop anything.
pub open spec fn no_item_wishes(w: &World) -> bool {
    &&& w.intents.pickup@ == Map::<Entity, WantsToPickupItem>::empty()
    &&& w.intents.use_item@ == Map::<Entity, WantsToUseItem>::empty()
    &&& w.intents.drink@ == Map::<Entity, WantsToDrinkPotion>::empty()
    &&& w.intents.drop_item@ == Map::<Entity, WantsToDropItem>::empty()
}

/// Whoever has a place has not been deleted.
pub open spec fn none_gone_stands(w: &World) -> bool {
    forall|e: Entity| #[trigger] w.positions@.dom().contains(e) ==> !w.entities.is_gone(e)
}

/// A use leaves the level as large as it was.
proof fn lemma_use_keeps_tile_count(
    kinds: Kinds,
    content: Seq<Vec<Entity>>,
    player: Entity,
    fx: Effects,
    user: Entity,
    intent: WantsToUseItem,
)
    ensures
        use_item_spec(kinds, content, player, fx, user, intent).tiles.len() == fx.tiles.len(),
{
}

/// A round of uses leaves the level as large as it was.
proof fn lemma_using_keeps_tile_count(
    kinds: Kinds,
    content: Seq<Vec<Entity>>,
    player: Entity,
    fx: Effects,
    intents: Map<Entity, WantsToUseItem>,
    n: nat,
)
    ensures
        use_all(kinds, content, player, fx, intents, n).tiles.len() == fx.tiles.len(),
    decreases n,
{
    if n > 0 {
        lemma_using_keeps_tile_count(kinds, content, player, fx, intents, (n - 1) as nat);
        let before = use_all(kinds, content, player, fx, intents, (n - 1) as nat);
        let e = Entity { id: (n - 1) as usize };
        if intents.dom().contains(e) {
            lemma_use_keeps_tile_count(kinds, content, player, before, e, intents[e]);
        }
    }
}

/// Without a wish to pick up, nothing is picked up.
pub proof fn lemma_no_pickups(h: Holdings, n: nat)
    ensures
        collect_all(h, Map::<Entity, WantsToPickupItem>::empty(), n) == h,
    decreases n,
{
    if n > 0 {
        lemma_no_pickups(h, (n - 1) as nat);
    }
}

/// Without a wish to drop, nothing is dropped.
pub proof fn lemma_no_drops(h: Holdings, n: nat)
    ensures
        drop_all(h, Map::<Entity, WantsToDropItem>::empty(), n) == h,
    decreases n,
{
    if n > 0 {
        lemma_no_drops(h, (n - 1) as nat);
    }
}

/// Without a wish to use, nothing is used.
pub proof fn lemma_no_uses(kinds: Kinds, content: Seq<Vec<Entity>>, player: Entity, fx: Effects, n: nat)
    ensures
        use_all(kinds, content, player, fx, Map::<Entity, WantsToUseItem>::empty(), n) == fx,
    decreases n,
{
    if n > 0 {
        lemma_no_uses(kinds, content, player, fx, (n - 1) as nat);
    }
}

/// Without a wish to drink, nothing is drunk.
pub proof fn lemma_no_drinks(kinds: Kinds, player: Entity, d: Drinking, n: nat)
    ensures
        drink_all(kinds, player, d, Map::<Entity, WantsToDrinkPotion>::empty(), n) == d,
    decreases n,
{
    if n > 0 {
        lemma_no_drinks(kinds, player, d, (n - 1) as nat);
    }
}

/// Taking off moves nothing on the ground.
proof fn lemma_removing_keeps_places(h: Holdings, intents: Map<Entity, WantsToRemoveItem>, n: nat)
    ensures
        remove_all(h, intents, n).positions == h.positions,
    decreases n,
{
    if n > 0 {
        lemma_removing_keeps_places(h, intents, (n - 1) as nat);
    }
}

/// The eight worlds between the steps of the rest of the systems.
pub open spec fn steps_of(before: &World, after: &World) -> (
    World,
    World,
    World,
    World,
    World,
    World,
    World,
    World,
) {
    choose|
        w1: World,
        w2: World,
        w3: World,
        w4: World,
        w5: World,
        w6: World,
        w7: World,
        w8: World,
    |
        {
            &&& #[trigger] reindexed(before, &w1)
            &&& #[trigger] fought(&w1, &w2)
            &&& #[trigger] harmed(&w2, &w3)
            &&& #[trigger] collected(&w3, &w4)
            &&& #[trigger] used(&w4, &w5)
            &&& #[trigger] drunk(&w5, &w6)
            &&& #[trigger] dropped(&w6, &w7)
            &&& #[trigger] taken_off(&w7, &w8)
            &&& after.purged_from(&w8)
        }
}

/// After the rest of the systems nobody who was deleted has a place any
/// more: what was deleted is cleared away at their end.
pub proof fn lemma_concluded_clears_the_gone(before: &World, after: &World)
    requires
        concluded(before, after),
    ensures
        none_gone_stands(after),
{
    let (w1, w2, w3, w4, w5, w6, w7, w8) = steps_of(before, after);
    assert(after.entities == w8.entities);
}

/// After the end of the turn nobody who was deleted has a place any more:
/// the dead are buried with all they had.
pub proof fn lemma_turn_end_clears_the_gone(before: &World, after: &World)
    requires
        turn_ended(before, after),
    ensures
        none_gone_stands(after),
{
}

/// After the rest of the systems the two caches are those that the
/// indexing made at their start: no later system writes them.
pub proof fn lemma_concluded_keeps_index(before: &World, after: &World)
    requires
        concluded(before, after),
    ensures
        is_index_of(&after.map, before),
        after.entities.alive.len() == before.entities.alive.len(),
{
    let (w1, w2, w3, w4, w5, w6, w7, w8) = steps_of(before, after);
    crate::inventory_system::lemma_using_appends(
        w4.kinds,
        w4.map.tile_content@,
        w4.player,
        w4.effects(),
        w4.intents.use_item@,
        w4.entities.alive.len() as nat,
    );
    lemma_using_keeps_tile_count(
        w4.kinds,
        w4.map.tile_content@,
        w4.player,
        w4.effects(),
        w4.intents.use_item@,
        w4.entities.alive.len() as nat,
    );
    crate::inventory_system::lemma_drinking_appends(
        w5.kinds,
        w5.player,
        w5.drinking(),
        w5.intents.drink@,
        w5.entities.alive.len() as nat,
    );
    assert(w4.map == w1.map);
    assert(w5.map.blocked == w1.map.blocked);
    assert(w5.map.tile_content == w1.map.tile_content);
    assert(w5.map.tiles.len() == w1.map.tiles.len());
    assert(w8.map == w5.map);
    assert(after.map == w8.map);
}

/// After the rest of the systems the index names exactly who stands
/// where, each on the list of its tile and once, and blocks every wall,
/// if nobody wanted to pick up, use, drink or drop anything and nobody
/// who was deleted still had a place.
pub proof fn lemma_concluded_leaves_index_fresh(before: &World, after: &World)
    requires
        concluded(before, after),
        no_item_wishes(before),
        none_gone_stands(before),
    ensures
        is_index_of(&after.map, after),
        after.positions@ == before.positions@,
        after.map.tiles@ == before.map.tiles@,
        after.entities.alive@ == before.entities.alive@,
        no_item_wishes(after),
        none_gone_stands(after),
{
    let (w1, w2, w3, w4, w5, w6, w7, w8) = steps_of(before, after);
    lemma_concluded_keeps_index(before, after);
    let n = before.entities.alive.len() as nat;
    lemma_no_pickups(w3.holdings(), n);
    lemma_no_uses(w4.kinds, w4.map.tile_content@, w4.player, w4.effects(), n);
    lemma_no_drinks(w5.kinds, w5.player, w5.drinking(), n);
    lemma_no_drops(w6.holdings(), n);
    lemma_removing_keeps_places(w7.holdings(), w7.intents.remove_item@, n);
    assert(w3.positions@ == before.positions@);
    assert(w4.positions@ == before.positions@);
    assert(w4.entities.alive@ == before.entities.alive@);
    assert(w5.effects() == w4.effects());
    assert(w5.positions@ == before.positions@);
    assert(w5.entities.alive@ == before.entities.alive@);
    assert(w5.map.tiles@ == before.map.tiles@);
    assert(w6.drinking() == w5.drinking());
    assert(w6.entities.alive@ == before.entities.alive@);
    assert(w6.positions@ == before.positions@);
    assert(w7.positions@ == before.positions@);
    assert(w8.positions@ == before.positions@);
    assert(w8.entities.alive@ == before.entities.alive@);
    assert(after.positions@ =~= before.positions@);
    assert(after.intents.pickup@ =~= Map::<Entity, WantsToPickupItem>::empty());
    assert(after.intents.use_item@ =~= Map::<Entity, WantsToUseItem>::empty());
    assert(after.intents.drink@ =~= Map::<Entity, WantsToDrinkPotion>::empty());
    assert(after.intents.drop_item@ =~= Map::<Entity, WantsToDropItem>::empty());
    assert(w8.kinds == before.kinds);
    assert forall|e: Entity| #[trigger]
        before.kinds.blocks_tile@.dom().contains(e) && !before.entities.is_gone(
            e,
        ) implies after.kinds.blocks_tile@.dom().contains(e) by {
        assert(!w8.entities.is_gone(e));
    }
    lemma_same_places_same_index(&after.map, before, after);
}

/// An index of one world is an index of every world with the same
/// tiles, the same places and the same entities, whose blockers are
/// blockers of the first and include those that have not been deleted, if
/// nobody who was deleted has a place.
pub proof fn lemma_same_places_same_index(map: &TileMap, first: &World, second: &World)
    requires
        is_index_of(map, first),
        none_gone_stands(first),
        second.map.tiles@ == first.map.tiles@,
        second.positions@ == first.positions@,
        second.entities.alive@ == first.entities.alive@,
        forall|e: Entity| #[trigger]
            second.kinds.blocks_tile@.dom().contains(e) ==> first.kinds.blocks_tile@.dom().contains(
                e,
            ),
        forall|e: Entity| #[trigger]
            first.kinds.blocks_tile@.dom().contains(e) && !first.entities.is_gone(e)
                ==> second.kinds.blocks_tile@.dom().contains(e),
    ensures
        is_index_of(map, second),
{
    let bound = first.entities.alive.len() as nat;
    assert forall|i: int| 0 <= i < TILE_COUNT implies blocker_on(
        second.positions@,
        second.kinds.blocks_tile@.dom(),
        bound,
        i,
    ) == blocker_on(first.positions@, first.kinds.blocks_tile@.dom(), bound, i) by {
        if blocker_on(first.positions@, first.kinds.blocks_tile@.dom(), bound, i) {
            let e = choose|e: Entity|
                e.id < bound && first.kinds.blocks_tile@.dom().contains(e) && #[trigger] stands_on(
                    first.positions@,
                    e,
                    i,
                );
            assert(first.positions@.dom().contains(e));
            assert(!first.entities.is_gone(e));
            assert(second.kinds.blocks_tile@.dom().contains(e));
            assert(stands_on(second.positions@, e, i));
        }
        if blocker_on(second.positions@, second.kinds.blocks_tile@.dom(), bound, i) {
            let e = choose|e: Entity|
                e.id < bound && second.kinds.blocks_tile@.dom().contains(e) && #[trigger] stands_on(
                    second.positions@,
                    e,
                    i,
                );
            assert(first.kinds.blocks_tile@.dom().contains(e));
            assert(stands_on(first.positions@, e, i));
        }
    }
}

/// Nothing is left to do: nobody wishes for an item, nobody who was
/// deleted has a place, no viewshed waits to be computed, and no monster
/// sees the player.
pub open spec fn at_rest(w: &World) -> bool {
    let bound = w.entities.alive.len() as nat;
    &&& no_item_wishes(w)
    &&& none_gone_stands(w)
    &&& forall|e: Entity| !#[trigger] looks(w, bound, e)
    &&& forall|e: Entity| e.id < bound ==> #[trigger] plan_of(w, e) == MonsterPlan::Idle
}

/// Where no monster chases, none asks for a path.
proof fn lemma_no_chaser(w: &World, from: nat, bound: nat)
    requires
        bound <= usize::MAX,
        forall|e: Entity| e.id < bound ==> !(#[trigger] plan_of(w, e) is Chase),
    ensures
        next_chaser(w, from, bound) is None,
    decreases bound - from,
{
    if from < bound {
        let e = Entity { id: from as usize };
        assert(!(plan_of(w, e) is Chase));
        lemma_no_chaser(w, from + 1, bound);
    }
}

/// A run of the systems on a world at rest whose index is fresh asks for
/// no path and leaves the blocked mask and every occupant list as they
/// were: indexing again changes nothing while nobody moves.
pub proof fn lemma_run_at_rest_keeps_index(
    once: &World,
    twice: &State,
    request: Option<PathRequest>,
)
    requires
        is_index_of(&once.map, once),
        at_rest(once),
        ran(once, twice, request),
    ensures
        request is None,
        twice.ecs.map.blocked@ == once.map.blocked@,
        forall|i: int|
            0 <= i < TILE_COUNT ==> twice.ecs.map.tile_content[i]@ == once.map.tile_content[i]@,
        is_index_of(&twice.ecs.map, &twice.ecs),
        twice.ecs.positions@ == once.positions@,
{
    let bound = once.entities.alive.len() as nat;
    let w = choose|w: World| #[trigger] saw(once, &w) && continued(&w, twice, 0, request);
    assert forall|e: Entity| e.id < bound implies !(#[trigger] plan_of(&w, e) is Chase) by {
        assert(!looks(once, bound, e));
        if once.viewsheds@.dom().contains(e) {
            assert(w.viewsheds@[e] == once.viewsheds@[e]);
        }
        assert(plan_of(&w, e) == plan_of(once, e));
    }
    lemma_no_chaser(&w, 0, bound);
    let v = choose|v: World| #[trigger]
        passed(&w, &v, 0, request) && twice.waiting == request && match request {
            Some(_) => twice.ecs == v,
            None => concluded(&v, &twice.ecs),
        };
    assert(request is None);
    assert(no_item_wishes(&v));
    assert(none_gone_stands(&v));
    lemma_concluded_keeps_index(&v, &twice.ecs);
    lemma_concluded_leaves_index_fresh(&v, &twice.ecs);
    assert(twice.ecs.map.blocked@ =~= once.map.blocked@);
}

/// After a run of the systems that came through and in which nobody
/// wished for an item, the index is fresh: every occupant list names
/// exactly those who stand on its tile, each once, and every wall is
/// blocked.
pub proof fn lemma_run_leaves_index_fresh(before: &World, after: &State)
    requires
        ran(before, after, None),
        no_item_wishes(before),
        none_gone_stands(before),
    ensures
        is_index_of(&after.ecs.map, &after.ecs),
        forall|i: int|
            0 <= i < TILE_COUNT && after.ecs.map.tiles[i] == crate::map::TileType::Wall
                ==> after.ecs.map.blocked[i],
{
    let w = choose|w: World| #[trigger] saw(before, &w) && continued(&w, after, 0, None);
    let v = choose|v: World| #[trigger]
        passed(&w, &v, 0, None) && after.waiting == None::<PathRequest> && concluded(
            &v,
            &after.ecs,
        );
    assert(no_item_wishes(&v));
    assert(none_gone_stands(&v));
    lemma_concluded_leaves_index_fresh(&v, &after.ecs);
}

} // verus!
