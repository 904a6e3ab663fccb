//! Every item is in one place: on the ground, in a pack, or worn.  The
//! moves of the inventory systems keep it so.

use crate::components::{
    EquipmentSlot, Equipped, InBackpack, WantsToDropItem, WantsToPickupItem, WantsToRemoveItem,
};
use crate::inventory_system::{
    collect_all, drop_all, pick_up, put_down, remove_all, take_off, Holdings,
};
use crate::geometry::Position;
use crate::inventory_system::use_all;
use crate::item_use::{
    displaced, resolve_targets, stow, use_item_spec, wear, Effects,
};
use crate::components::WantsToUseItem;
use crate::world::Kinds;
use crate::store::Entity;
use vstd::prelude::*;

verus! {

/// `e` is in exactly one place: it lies on the ground, or it is in a
/// pack, or it is worn.
pub open spec fn placed_once(h: Holdings, e: Entity) -> bool {
    let ground = h.positions.dom().contains(e);
    let pack = h.backpack.dom().contains(e);
    let worn = h.equipped.dom().contains(e);
    (ground && !pack && !worn) || (!ground && pack && !worn) || (!ground && !pack && worn)
}

/// Picking up puts the item in exactly one place, the pack, and moves
/// nothing else.  An item that somebody wears is not picked up.
pub proof fn lemma_pick_up_places_once(h: Holdings, item: Entity, collector: Entity)
    requires
        !h.equipped.dom().contains(item),
    ensures
        placed_once(pick_up(h, item, collector), item),
        pick_up(h, item, collector).backpack[item].owner == collector,
        forall|e: Entity|
            e != item ==> placed_once(pick_up(h, item, collector), e) == placed_once(h, e),
{
}

/// Dropping puts the item in exactly one place, the dropper's tile, and
/// moves nothing else.  An item that somebody wears is not dropped, and a
/// dropper without a place leaves everything as it is.
pub proof fn lemma_put_down_places_once(h: Holdings, item: Entity, dropper: Entity)
    requires
        !h.equipped.dom().contains(item),
        h.positions.dom().contains(dropper) || placed_once(h, item),
    ensures
        placed_once(put_down(h, item, dropper), item),
        h.positions.dom().contains(dropper) ==> put_down(h, item, dropper).positions[item]
            == h.positions[dropper],
        forall|e: Entity|
            e != item ==> placed_once(put_down(h, item, dropper), e) == placed_once(h, e),
{
}

/// Taking off puts the item in exactly one place, the wearer's pack, and
/// moves nothing else.  An item that lies on the ground is not taken off.
pub proof fn lemma_take_off_places_once(h: Holdings, item: Entity, wearer: Entity)
    requires
        !h.positions.dom().contains(item),
    ensures
        placed_once(take_off(h, item, wearer), item),
        take_off(h, item, wearer).backpack[item].owner == wearer,
        forall|e: Entity|
            e != item ==> placed_once(take_off(h, item, wearer), e) == placed_once(h, e),
{
}

/// The holdings after `owner` has put `item` on in `slot`.
pub open spec fn put_on(h: Holdings, item: Entity, owner: Entity, slot: EquipmentSlot, bound: nat)
    -> Holdings {
    Holdings {
        positions: h.positions,
        backpack: stow(h.backpack, h.equipped, item, owner, slot, bound),
        equipped: wear(h.equipped, item, owner, slot, bound),
    }
}

/// Putting on leaves the item worn and nowhere else, sends what it
/// displaces to the pack and nowhere else, and moves nothing besides.
/// An item that lies on the ground is not put on.
pub proof fn lemma_put_on_places_once(
    h: Holdings,
    item: Entity,
    owner: Entity,
    slot: EquipmentSlot,
    bound: nat,
)
    requires
        !h.positions.dom().contains(item),
    ensures
        placed_once(put_on(h, item, owner, slot, bound), item),
        put_on(h, item, owner, slot, bound).equipped[item] == (Equipped { owner, slot }),
        forall|e: Entity|
            e != item && placed_once(h, e) ==> placed_once(put_on(h, item, owner, slot, bound), e),
        forall|e: Entity|
            e != item && displaced(h.equipped, owner, slot, bound, e) ==> put_on(
                h,
                item,
                owner,
                slot,
                bound,
            ).backpack[e] == (InBackpack { owner }),
{
}

/// A round of pickups keeps every item in one place, as long as no
/// pickup names an item that somebody wears.
pub proof fn lemma_collecting_places_once(
    h: Holdings,
    intents: Map<Entity, WantsToPickupItem>,
    n: nat,
    e: Entity,
)
    requires
        placed_once(h, e),
        forall|c: Entity| #[trigger]
            intents.dom().contains(c) ==> !h.equipped.dom().contains(intents[c].item),
    ensures
        placed_once(collect_all(h, intents, n), e),
        collect_all(h, intents, n).equipped == h.equipped,
    decreases n,
{
    if n > 0 {
        lemma_collecting_places_once(h, intents, (n - 1) as nat, e);
        let before = collect_all(h, intents, (n - 1) as nat);
        let c = Entity { id: (n - 1) as usize };
        if intents.dom().contains(c) {
            lemma_pick_up_places_once(before, intents[c].item, intents[c].collected_by);
        }
    }
}

/// A round of drops keeps every item in one place, as long as no drop
/// names an item that somebody wears.
pub proof fn lemma_dropping_places_once(
    h: Holdings,
    intents: Map<Entity, WantsToDropItem>,
    n: nat,
    e: Entity,
)
    requires
        placed_once(h, e),
        forall|c: Entity| #[trigger]
            intents.dom().contains(c) ==> !h.equipped.dom().contains(intents[c].item),
    ensures
        placed_once(drop_all(h, intents, n), e),
        drop_all(h, intents, n).equipped == h.equipped,
    decreases n,
{
    if n > 0 {
        lemma_dropping_places_once(h, intents, (n - 1) as nat, e);
        let before = drop_all(h, intents, (n - 1) as nat);
        let c = Entity { id: (n - 1) as usize };
        if intents.dom().contains(c) {
            if before.positions.dom().contains(c) {
                lemma_put_down_places_once(before, intents[c].item, c);
            }
        }
    }
}

/// A round of taking off keeps every item in one place, as long as
/// nobody takes off an item that lies on the ground.
pub proof fn lemma_removing_places_once(
    h: Holdings,
    intents: Map<Entity, WantsToRemoveItem>,
    n: nat,
    e: Entity,
)
    requires
        placed_once(h, e),
        forall|c: Entity| #[trigger]
            intents.dom().contains(c) ==> !h.positions.dom().contains(intents[c].item),
    ensures
        placed_once(remove_all(h, intents, n), e),
        remove_all(h, intents, n).positions == h.positions,
    decreases n,
{
    if n > 0 {
        lemma_removing_places_once(h, intents, (n - 1) as nat, e);
        let before = remove_all(h, intents, (n - 1) as nat);
        let c = Entity { id: (n - 1) as usize };
        if intents.dom().contains(c) {
            lemma_take_off_places_once(before, intents[c].item, c);
        }
    }
}


/// The holdings when things lie at `positions` and are carried and worn
/// as `fx` says.
pub open spec fn holdings_with(positions: Map<Entity, Position>, fx: Effects) -> Holdings {
    Holdings { positions, backpack: fx.backpack, equipped: fx.equipped }
}

/// Using an item keeps every item in one place.  An item that can be worn
/// is not used while it lies on the ground.
pub proof fn lemma_use_places_once(
    kinds: Kinds,
    content: Seq<Vec<Entity>>,
    player: Entity,
    fx: Effects,
    positions: Map<Entity, Position>,
    user: Entity,
    intent: WantsToUseItem,
    e: Entity,
)
    requires
        placed_once(holdings_with(positions, fx), e),
        kinds.equippable@.dom().contains(intent.item) ==> !positions.dom().contains(intent.item),
    ensures
        placed_once(
            holdings_with(positions, use_item_spec(kinds, content, player, fx, user, intent)),
            e,
        ),
{
    let targets = resolve_targets(
        content,
        kinds.area_of_effect.lookup(intent.item),
        user,
        intent.target,
    );
    if kinds.equippable@.dom().contains(intent.item) && targets.len() > 0 {
        lemma_put_on_places_once(
            holdings_with(positions, fx),
            intent.item,
            targets[0],
            kinds.equippable@[intent.item].slot,
            fx.alive.len(),
        );
    }
}

/// A round of uses keeps every item in one place, as long as no use
/// names an item that can be worn and lies on the ground.
pub proof fn lemma_using_places_once(
    kinds: Kinds,
    content: Seq<Vec<Entity>>,
    player: Entity,
    fx: Effects,
    positions: Map<Entity, Position>,
    intents: Map<Entity, WantsToUseItem>,
    n: nat,
    e: Entity,
)
    requires
        placed_once(holdings_with(positions, fx), e),
        forall|c: Entity| #[trigger]
            intents.dom().contains(c) && kinds.equippable@.dom().contains(intents[c].item)
                ==> !positions.dom().contains(intents[c].item),
    ensures
        placed_once(
            holdings_with(positions, use_all(kinds, content, player, fx, intents, n)),
            e,
        ),
    decreases n,
{
    if n > 0 {
        lemma_using_places_once(kinds, content, player, fx, positions, intents, (n - 1) as nat, e);
        let before = use_all(kinds, content, player, fx, intents, (n - 1) as nat);
        let c = Entity { id: (n - 1) as usize };
        if intents.dom().contains(c) {
            lemma_use_places_once(kinds, content, player, before, positions, c, intents[c], e);
        }
    }
}

} // verus!
